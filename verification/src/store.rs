//! The table store adapter: a persistent digest-to-plaintext table and a
//! word set, both kept in sled trees. The table maps a hex digest to
//! `plaintext` or `plaintext|tag` and is only ever written with
//! insert-if-absent semantics, so the first successful writer wins and no
//! entry is overwritten. The word set is keyed by the word itself; existence
//! carries the meaning.

use vstd::prelude::*;

verus! {

#[verifier::external_type_specification]
#[verifier::external_body]
pub struct ExTree(sled::Tree);

/// The text contents of a sled tree: the entries whose key and value both
/// decode as text, as a map from key to value.
pub uninterp spec fn tree_text(t: sled::Tree) -> Map<Seq<char>, Seq<char>>;

/// The text keys of a sled tree: every key that decodes as text, whatever
/// its value holds.
pub uninterp spec fn tree_keys(t: sled::Tree) -> Set<Seq<char>>;

/// Relies on `sled::Tree::get`: an entry found under a key is the value the
/// tree holds for it. A miss or a storage error reports `None`, as does an
/// entry whose value is not text.
#[verifier::external_body]
fn db_get(t: &sled::Tree, key: &str) -> (r: Option<String>)
    ensures
        match r {
            Some(v) => tree_text(*t).contains_key(key@) && v@ == tree_text(*t)[key@],
            None => true,
        },
{
    match t.get(key) {
        Ok(Some(ivec)) => String::from_utf8(ivec.to_vec()).ok(),
        _ => None,
    }
}

/// Relies on `sled::Tree::compare_and_swap` with no expected value: the new
/// entry is written only when the key is absent, atomically, and an existing
/// entry is never touched. The call reports `true` exactly when it created
/// the entry; on a conflict nothing was changed, and on a storage error the
/// only write that can have taken effect is this entry, under the absent key.
#[verifier::external_body]
fn db_insert_if_absent(t: &mut sled::Tree, key: &str, value: &str) -> (r: bool)
    ensures
        r ==> !tree_text(*old(t)).contains_key(key@) && tree_text(*final(t)) == tree_text(
            *old(t),
        ).insert(key@, value@) && tree_keys(*final(t)) == tree_keys(*old(t)).insert(key@),
        !r ==> (tree_text(*final(t)) == tree_text(*old(t)) && tree_keys(*final(t)) == tree_keys(
            *old(t),
        )) || (!tree_text(*old(t)).contains_key(key@) && tree_text(*final(t)) == tree_text(
            *old(t),
        ).insert(key@, value@) && tree_keys(*final(t)) == tree_keys(*old(t)).insert(key@)),
{
    matches!(t.compare_and_swap(key, None as Option<&[u8]>, Some(value.as_bytes())), Ok(Ok(())))
}

/// Relies on `sled::Tree::insert`: sets the entry under the key, here always
/// with the empty value, so the key joins the tree's key set; on a storage
/// error either nothing was changed or just this entry was written.
#[verifier::external_body]
fn db_set_key(t: &mut sled::Tree, key: &str) -> (r: bool)
    ensures
        r ==> tree_keys(*final(t)) == tree_keys(*old(t)).insert(key@) && tree_text(*final(t))
            == tree_text(*old(t)).insert(key@, Seq::<char>::empty()),
        !r ==> (tree_keys(*final(t)) == tree_keys(*old(t)) && tree_text(*final(t)) == tree_text(
            *old(t),
        )) || (tree_keys(*final(t)) == tree_keys(*old(t)).insert(key@) && tree_text(*final(t))
            == tree_text(*old(t)).insert(key@, Seq::<char>::empty())),
{
    t.insert(key, "").is_ok()
}

/// Relies on `sled::Tree::iter`: walks the entries in key order, so the keys
/// are pairwise distinct; keys that do not decode as text are skipped, and a
/// storage error ends the walk early.
#[verifier::external_body]
fn db_list_keys(t: &sled::Tree) -> (r: Vec<String>)
    ensures
        forall|i: int| 0 <= i < r@.len() ==> tree_keys(*t).contains(#[trigger] r@[i]@),
        forall|i: int, j: int| 0 <= i < j < r@.len() ==> r@[i]@ != r@[j]@,
{
    let mut words = Vec::new();
    for item in t.iter() {
        match item {
            Ok((key, _)) => {
                if let Ok(w) = String::from_utf8(key.to_vec()) {
                    words.push(w);
                }
            },
            Err(_) => break,
        }
    }
    words
}

/// What an insert-if-absent write leaves of the table: untouched when the
/// digest is already present, extended by the new entry when it is not.
pub open spec fn insert_if_absent_spec(
    m: Map<Seq<char>, Seq<char>>,
    k: Seq<char>,
    v: Seq<char>,
) -> Map<Seq<char>, Seq<char>> {
    if m.contains_key(k) {
        m
    } else {
        m.insert(k, v)
    }
}

/// The store adapter: the default sled tree holds the digest-to-plaintext
/// table, a second tree holds the word set.
pub struct Store {
    table_tree: sled::Tree,
    words_tree: sled::Tree,
}

impl Store {
    /// The digest-to-plaintext table this store holds.
    pub closed spec fn table(self) -> Map<Seq<char>, Seq<char>> {
        tree_text(self.table_tree)
    }

    /// The word set this store holds.
    pub closed spec fn word_set(self) -> Set<Seq<char>> {
        tree_keys(self.words_tree)
    }

    /// Wrap the two sled trees: the default namespace as the table, a
    /// dedicated tree as the word set.
    pub fn new(table_tree: sled::Tree, words_tree: sled::Tree) -> (r: Store)
        ensures
            r.table() == tree_text(table_tree),
            r.word_set() == tree_keys(words_tree),
    {
        Store { table_tree, words_tree }
    }

    /// Look a digest up in the table. A hit returns the stored value as it
    /// stands, `plaintext` or `plaintext|tag`; the caller parses the
    /// separator itself.
    pub fn lookup(&self, digest: &str) -> (r: Option<String>)
        ensures
            match r {
                Some(v) => self.table().contains_key(digest@) && v@ == self.table()[digest@],
                None => true,
            },
    {
        db_get(&self.table_tree, digest)
    }

    /// Write a table entry only if the digest is absent; reports `true`
    /// exactly when it knows a new entry was created, and never changes an
    /// existing entry. When it reports `false` the table is untouched, but
    /// for one corner: a storage error can leave this entry written under
    /// the absent digest with the write unacknowledged.
    pub fn insert_if_absent(&mut self, digest: &str, value: &str) -> (r: bool)
        ensures
            r ==> !old(self).table().contains_key(digest@) && final(self).table()
                == insert_if_absent_spec(old(self).table(), digest@, value@),
            !r ==> final(self).table() == old(self).table() || (!old(self).table().contains_key(
                digest@,
            ) && final(self).table() == old(self).table().insert(digest@, value@)),
            final(self).word_set() == old(self).word_set(),
    {
        db_insert_if_absent(&mut self.table_tree, digest, value)
    }

    /// Add a word to the word set; adding a word that is already present
    /// leaves the set as it was.
    pub fn add_word(&mut self, word: &str)
        ensures
            final(self).word_set() == old(self).word_set().insert(word@) || final(self).word_set()
                == old(self).word_set(),
            final(self).table() == old(self).table(),
    {
        let _ = db_set_key(&mut self.words_tree, word);
    }

    /// List the word set, in no guaranteed order; every listed word is in
    /// the set and no word is listed twice.
    pub fn list_words(&self) -> (r: Vec<String>)
        ensures
            forall|i: int| 0 <= i < r@.len() ==> self.word_set().contains(#[trigger] r@[i]@),
            forall|i: int, j: int| 0 <= i < j < r@.len() ==> r@[i]@ != r@[j]@,
    {
        db_list_keys(&self.words_tree)
    }
}

/// Every entry of the first table is still present, unchanged, in the
/// second: nothing was overwritten or removed between the two states.
pub open spec fn table_preserves(
    t0: Map<Seq<char>, Seq<char>>,
    t1: Map<Seq<char>, Seq<char>>,
) -> bool {
    forall|k: Seq<char>|
        #[trigger] t0.contains_key(k) ==> t1.contains_key(k) && t1[k] == t0[k]
}

/// Preservation is transitive: a chain of writes that each leave existing
/// entries alone leaves them alone as a whole.
pub proof fn lemma_preserves_trans(
    a: Map<Seq<char>, Seq<char>>,
    b: Map<Seq<char>, Seq<char>>,
    c: Map<Seq<char>, Seq<char>>,
)
    requires
        table_preserves(a, b),
        table_preserves(b, c),
    ensures
        table_preserves(a, c),
{
    assert forall|k: Seq<char>| #[trigger] a.contains_key(k) implies c.contains_key(k) && c[k]
        == a[k] by {
        assert(b.contains_key(k) && b[k] == a[k]);
    }
}

/// First write wins: once a digest maps to a plaintext, a later
/// insert-if-absent with any other value changes nothing, and the stored
/// plaintext stays the first one.
pub proof fn lemma_first_write_wins(
    m: Map<Seq<char>, Seq<char>>,
    k: Seq<char>,
    v1: Seq<char>,
    v2: Seq<char>,
)
    requires
        !m.contains_key(k),
    ensures
        insert_if_absent_spec(m, k, v1) == m.insert(k, v1),
        insert_if_absent_spec(m, k, v1)[k] == v1,
        insert_if_absent_spec(insert_if_absent_spec(m, k, v1), k, v2) == insert_if_absent_spec(
            m,
            k,
            v1,
        ),
{
}

/// No overwrite: an insert-if-absent write never changes the value stored
/// under any digest that is already present.
pub proof fn lemma_no_overwrite(
    m: Map<Seq<char>, Seq<char>>,
    k: Seq<char>,
    v: Seq<char>,
    k0: Seq<char>,
)
    requires
        m.contains_key(k0),
    ensures
        insert_if_absent_spec(m, k, v).contains_key(k0),
        insert_if_absent_spec(m, k, v)[k0] == m[k0],
{
}

/// The word set is a set: adding a word twice leaves exactly what adding it
/// once leaves, and adding a word that is already present changes nothing.
pub proof fn lemma_word_set_idempotent(ws: Set<Seq<char>>, w: Seq<char>)
    ensures
        ws.insert(w).insert(w) =~= ws.insert(w),
        ws.contains(w) ==> ws.insert(w) =~= ws,
{
}

} // verus!
