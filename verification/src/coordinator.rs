//! The attack coordinator: per target, the stages run strictly in order —
//! table lookup, hybrid mutation attack, combinator attack, brute-force
//! stub — and the first success ends the sequence. A recovered plaintext is
//! persisted back into the table (insert-if-absent) and added to the word
//! set, so later targets in the same run benefit from it. Wordlist
//! ingestion lives here too: each word joins the word set and its three
//! digests join the table.

use crate::attack::{
    brute_force, comb_hit, comb_pair, combinator_stage, hybrid_attack, hybrid_hit, hybrid_mut,
    StageOutcome, COMBINATOR_CEILING,
};
use crate::digest::{classified, classify, detect_algo, hash_spec, hash_string, Algo};
use crate::store::{
    insert_if_absent_spec, lemma_preserves_trans, table_preserves, Store,
};
use crate::text::{make_tagged, plain_of, plaintext_of, tagged, views_of};
use vstd::prelude::*;

verus! {

/// The stage at which a plaintext was recovered.
#[derive(Clone, Copy, PartialEq, Eq, Structural, Debug)]
pub enum CrackStage {
    Lookup,
    Hybrid,
    Combinator,
    BruteForce,
}

/// What one target's attack run reports.
#[derive(Debug)]
pub enum CrackOutcome {
    /// The digest length matches no known algorithm; the target is skipped.
    UnknownAlgorithm,
    /// A plaintext hashing to the target was recovered at the given stage.
    Found { plaintext: String, stage: CrackStage },
    /// Every stage was exhausted; `combinator_skipped` reports whether the
    /// combinator stage was skipped because the word list is at or above
    /// its cost ceiling.
    NotFound { combinator_skipped: bool },
}

/// What a `Found` outcome means, per stage, against the table and word list
/// the run started from.
pub open spec fn found_ok(
    t0: Map<Seq<char>, Seq<char>>,
    ws: Seq<Seq<char>>,
    target: Seq<char>,
    plaintext: Seq<char>,
    stage: CrackStage,
) -> bool {
    &&& classify(target) is Some
    &&& match stage {
        CrackStage::Lookup => t0.contains_key(target) && plaintext == plain_of(t0[target]),
        CrackStage::Hybrid => hash_spec(classified(target), plaintext) == target && exists|i: int|
            0 <= i < ws.len() && #[trigger] hybrid_mut(ws[i], plaintext),
        CrackStage::Combinator => hash_spec(classified(target), plaintext) == target && comb_pair(
            ws,
            plaintext,
        ) && ws.len() < COMBINATOR_CEILING,
        CrackStage::BruteForce => false,
    }
}

fn persist_success(store: &mut Store, target: &str, plaintext: &str)
    ensures
        table_preserves(old(store).table(), final(store).table()),
        final(store).table() == old(store).table() || (!old(store).table().contains_key(target@)
            && final(store).table() == old(store).table().insert(target@, plaintext@)),
        final(store).word_set() == old(store).word_set() || final(store).word_set() == old(
            store,
        ).word_set().insert(plaintext@),
{
    let _ = store.insert_if_absent(target, plaintext);
    store.add_word(plaintext);
}

/// Run the ordered stages against one target with an explicit word list:
/// lookup, hybrid, combinator (skipped with a report at or above its
/// ceiling), then the brute-force stub. The first success ends the
/// sequence; a recovered plaintext is persisted into the table and the word
/// set, and entries already in the table are never overwritten.
pub fn crack_with_words(store: &mut Store, target: &str, words: &Vec<String>) -> (r: CrackOutcome)
    ensures
        r is UnknownAlgorithm <==> classify(target@) is None,
        table_preserves(old(store).table(), final(store).table()),
        r matches CrackOutcome::Found { plaintext, stage } ==> found_ok(
            old(store).table(),
            views_of(words@),
            target@,
            plaintext@,
            stage,
        ),
        r matches CrackOutcome::Found { plaintext, stage } ==> (final(store).table() == old(
            store,
        ).table() || (!old(store).table().contains_key(target@) && final(store).table() == old(
            store,
        ).table().insert(target@, plaintext@))),
        r matches CrackOutcome::Found { plaintext, stage } ==> (final(store).word_set() == old(
            store,
        ).word_set() || final(store).word_set() == old(store).word_set().insert(plaintext@)),
        r matches CrackOutcome::NotFound { combinator_skipped } ==> ({
            &&& classify(target@) is Some
            &&& !hybrid_hit(classified(target@), views_of(words@), target@)
            &&& combinator_skipped == (words@.len() >= COMBINATOR_CEILING)
            &&& !combinator_skipped ==> !comb_hit(classified(target@), views_of(words@), target@)
        }),
        !(r matches CrackOutcome::Found { .. }) ==> final(store).table() == old(store).table()
            && final(store).word_set() == old(store).word_set(),
        classify(target@) is Some && hybrid_hit(classified(target@), views_of(words@), target@)
            ==> r matches CrackOutcome::Found { .. },
        classify(target@) is Some && words@.len() < COMBINATOR_CEILING && comb_hit(
            classified(target@),
            views_of(words@),
            target@,
        ) ==> r matches CrackOutcome::Found { .. },
{
    let algo = match detect_algo(target) {
        None => {
            return CrackOutcome::UnknownAlgorithm;
        },
        Some(a) => a,
    };
    proof {
        assert(algo == classified(target@));
    }
    if let Some(value) = store.lookup(target) {
        let plaintext = plaintext_of(value.as_str());
        return CrackOutcome::Found { plaintext, stage: CrackStage::Lookup };
    }
    if let Some(c) = hybrid_attack(algo, target, words) {
        proof {
            let ws = views_of(words@);
            let i = choose|i: int| 0 <= i < words@.len() && #[trigger] hybrid_mut(words@[i]@, c@);
            assert(ws[i] == words@[i]@);
            assert(hybrid_mut(ws[i], c@));
        }
        persist_success(store, target, c.as_str());
        return CrackOutcome::Found { plaintext: c, stage: CrackStage::Hybrid };
    }
    match combinator_stage(algo, target, words) {
        StageOutcome::Found(c) => {
            persist_success(store, target, c.as_str());
            CrackOutcome::Found { plaintext: c, stage: CrackStage::Combinator }
        },
        StageOutcome::SkippedTooLarge => {
            if let Some(c) = brute_force(algo, target, "abcdefghijklmnopqrstuvwxyz0123456789", 7) {
                persist_success(store, target, c.as_str());
                return CrackOutcome::Found { plaintext: c, stage: CrackStage::BruteForce };
            }
            CrackOutcome::NotFound { combinator_skipped: true }
        },
        StageOutcome::NotFound => {
            if let Some(c) = brute_force(algo, target, "abcdefghijklmnopqrstuvwxyz0123456789", 7) {
                persist_success(store, target, c.as_str());
                return CrackOutcome::Found { plaintext: c, stage: CrackStage::BruteForce };
            }
            CrackOutcome::NotFound { combinator_skipped: false }
        },
    }
}

/// Crack one target against the words currently in the store's word set:
/// the ordered stages with the listed words. A hybrid or combinator success
/// is built from words of the stored word set.
pub fn crack_target(store: &mut Store, target: &str) -> (r: CrackOutcome)
    ensures
        r is UnknownAlgorithm <==> classify(target@) is None,
        table_preserves(old(store).table(), final(store).table()),
        r matches CrackOutcome::Found { plaintext, stage } ==> ({
            &&& classify(target@) is Some
            &&& match stage {
                CrackStage::Lookup => old(store).table().contains_key(target@) && plaintext@
                    == plain_of(old(store).table()[target@]),
                CrackStage::Hybrid => hash_spec(classified(target@), plaintext@) == target@ && (
                exists|w: Seq<char>|
                    old(store).word_set().contains(w) && #[trigger] hybrid_mut(w, plaintext@)),
                CrackStage::Combinator => hash_spec(classified(target@), plaintext@) == target@
                    && (exists|w1: Seq<char>, w2: Seq<char>|
                    #![trigger old(store).word_set().contains(w1), old(store).word_set().contains(w2)]
                    old(store).word_set().contains(w1) && old(store).word_set().contains(w2)
                        && plaintext@ == w1 + w2),
                CrackStage::BruteForce => false,
            }
        }),
        r matches CrackOutcome::Found { plaintext, stage } ==> (final(store).word_set() == old(
            store,
        ).word_set() || final(store).word_set() == old(store).word_set().insert(plaintext@)),
        !(r matches CrackOutcome::Found { .. }) ==> final(store).table() == old(store).table()
            && final(store).word_set() == old(store).word_set(),
{
    let words = store.list_words();
    let r = crack_with_words(store, target, &words);
    proof {
        let ws = views_of(words@);
        assert(forall|i: int| 0 <= i < ws.len() ==> #[trigger] ws[i] == words@[i]@);
        match &r {
            CrackOutcome::Found { plaintext, stage } => {
                match stage {
                    CrackStage::Hybrid => {
                        let i = choose|i: int|
                            0 <= i < ws.len() && #[trigger] hybrid_mut(ws[i], plaintext@);
                        assert(old(store).word_set().contains(ws[i]));
                    },
                    CrackStage::Combinator => {
                        let (i, j) = choose|i: int, j: int|
                            #![trigger ws[i], ws[j]]
                            0 <= i < ws.len() && 0 <= j < ws.len() && plaintext@ == ws[i] + ws[j];
                        assert(old(store).word_set().contains(ws[i]));
                        assert(old(store).word_set().contains(ws[j]));
                    },
                    _ => {},
                }
            },
            _ => {},
        }
    }
    r
}

/// The value an ingested word's digests carry in the table.
pub open spec fn import_value(w: Seq<char>) -> Seq<char> {
    tagged(w, "imported"@)
}

/// A table key and value that word ingestion may create: one of the three
/// digests of a listed word, carrying that word's import value.
pub open spec fn import_key_of(ws: Seq<Seq<char>>, k: Seq<char>, v: Seq<char>) -> bool {
    exists|i: int|
        0 <= i < ws.len() && ((k == hash_spec(Algo::Md5, #[trigger] ws[i]) || k == hash_spec(
            Algo::Sha1,
            ws[i],
        ) || k == hash_spec(Algo::Sha256, ws[i])) && v == import_value(ws[i]))
}

fn ingest_word(store: &mut Store, word: &str) -> (added: usize)
    ensures
        table_preserves(old(store).table(), final(store).table()),
        forall|k: Seq<char>|
            #[trigger] final(store).table().contains_key(k) && !old(store).table().contains_key(k)
                ==> (k == hash_spec(Algo::Md5, word@) || k == hash_spec(Algo::Sha1, word@) || k
                == hash_spec(Algo::Sha256, word@)) && final(store).table()[k] == import_value(
                word@,
            ),
        final(store).word_set() == old(store).word_set() || final(store).word_set() == old(
            store,
        ).word_set().insert(word@),
        added <= 3,
{
    store.add_word(word);
    let value = make_tagged(word, "imported");
    let h_md5 = hash_string(Algo::Md5, word);
    let h_sha1 = hash_string(Algo::Sha1, word);
    let h_sha256 = hash_string(Algo::Sha256, word);
    let ghost t0 = store.table();
    let mut added: usize = 0;
    if store.insert_if_absent(h_md5.as_str(), value.as_str()) {
        added = added + 1;
    }
    let ghost ta = store.table();
    if store.insert_if_absent(h_sha1.as_str(), value.as_str()) {
        added = added + 1;
    }
    let ghost tb = store.table();
    if store.insert_if_absent(h_sha256.as_str(), value.as_str()) {
        added = added + 1;
    }
    proof {
        lemma_preserves_trans(t0, ta, tb);
        lemma_preserves_trans(t0, tb, store.table());
    }
    added
}

/// Ingest a wordlist: each word joins the word set, and each of its three
/// digests joins the table with the `word|imported` value, insert-if-absent.
/// Reports how many table entries were newly created, at most three per
/// word; existing entries are never touched.
pub fn sync_words(store: &mut Store, words: &Vec<String>) -> (count: usize)
    requires
        words@.len() <= usize::MAX / 3,
    ensures
        table_preserves(old(store).table(), final(store).table()),
        forall|k: Seq<char>|
            #[trigger] final(store).table().contains_key(k) && !old(store).table().contains_key(k)
                ==> import_key_of(views_of(words@), k, final(store).table()[k]),
        forall|w: Seq<char>|
            old(store).word_set().contains(w) ==> #[trigger] final(store).word_set().contains(w),
        forall|w: Seq<char>|
            #[trigger] final(store).word_set().contains(w) ==> old(store).word_set().contains(w)
                || views_of(words@).contains(w),
        count <= 3 * words@.len(),
{
    let ghost t_init = store.table();
    let ghost w_init = store.word_set();
    let mut count: usize = 0;
    let mut i: usize = 0;
    while i < words.len()
        invariant
            i <= words@.len(),
            words@.len() <= usize::MAX / 3,
            count <= 3 * i,
            table_preserves(t_init, store.table()),
            forall|k: Seq<char>|
                #[trigger] store.table().contains_key(k) && !t_init.contains_key(k)
                    ==> import_key_of(views_of(words@), k, store.table()[k]),
            forall|w: Seq<char>|
                w_init.contains(w) ==> #[trigger] store.word_set().contains(w),
            forall|w: Seq<char>|
                #[trigger] store.word_set().contains(w) ==> w_init.contains(w) || views_of(
                    words@,
                ).contains(w),
        decreases words@.len() - i,
    {
        let ghost t_prev = store.table();
        let ghost w_prev = store.word_set();
        let added = ingest_word(store, words[i].as_str());
        proof {
            lemma_preserves_trans(t_init, t_prev, store.table());
            assert(views_of(words@)[i as int] == words@[i as int]@);
            assert(views_of(words@).contains(words@[i as int]@));
            assert forall|k: Seq<char>|
                #[trigger] store.table().contains_key(k) && !t_init.contains_key(k) implies
                import_key_of(views_of(words@), k, store.table()[k]) by {
                if t_prev.contains_key(k) {
                    assert(store.table()[k] == t_prev[k]);
                } else {
                    assert(store.table()[k] == import_value(words@[i as int]@));
                }
            }
        }
        count = count + added;
        i = i + 1;
    }
    count
}

} // verus!
