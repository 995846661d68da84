//! The candidate generator and the generation engine: password-like strings
//! drawn from a weighted strategy set, hashed under all three algorithms and
//! written to the table with insert-if-absent semantics. One call of
//! `generator_step` is one iteration of a worker's loop; a pool driver runs
//! many of them in parallel, and `generator_run` runs a bounded number for a
//! test harness.

use crate::digest::{hash_spec, hash_string, Algo};
use crate::store::{lemma_preserves_trans, table_preserves, Store};
use crate::text::{cap_first, dec_str, make_tagged, push_char, tagged, u32_dec, views_of};
use rand::Rng;
use vstd::prelude::*;
use vstd::string::StringExecFns;

verus! {

/// The fixed 90-character charset, in its fixed order: lowercase, uppercase,
/// digits, then the symbol tail that the symbol rule draws from (index 52
/// and up).
pub open spec fn charset() -> Seq<char> {
    seq![
        'a', 'b', 'c', 'd', 'e', 'f', 'g', 'h', 'i', 'j', 'k', 'l', 'm', 'n', 'o', 'p', 'q', 'r',
        's', 't', 'u', 'v', 'w', 'x', 'y', 'z', 'A', 'B', 'C', 'D', 'E', 'F', 'G', 'H', 'I', 'J',
        'K', 'L', 'M', 'N', 'O', 'P', 'Q', 'R', 'S', 'T', 'U', 'V', 'W', 'X', 'Y', 'Z', '0', '1',
        '2', '3', '4', '5', '6', '7', '8', '9', '!', '@', '#', '$', '%', '^', '&', '*', '(', ')',
        '_', '+', '}', '{', '"', ':', '?', '>', '<', '-', '=', '[', ']', ';', '\'', ',', '.', '/',
    ]
}

#[verifier::rlimit(60)]
fn charset_chars() -> (v: Vec<char>)
    ensures
        v@ == charset(),
{
    let mut v: Vec<char> = Vec::new();
    v.push('a');
    v.push('b');
    v.push('c');
    v.push('d');
    v.push('e');
    v.push('f');
    v.push('g');
    v.push('h');
    v.push('i');
    v.push('j');
    v.push('k');
    v.push('l');
    v.push('m');
    v.push('n');
    v.push('o');
    v.push('p');
    v.push('q');
    v.push('r');
    v.push('s');
    v.push('t');
    v.push('u');
    v.push('v');
    v.push('w');
    v.push('x');
    v.push('y');
    v.push('z');
    v.push('A');
    v.push('B');
    v.push('C');
    v.push('D');
    v.push('E');
    v.push('F');
    v.push('G');
    v.push('H');
    v.push('I');
    v.push('J');
    v.push('K');
    v.push('L');
    v.push('M');
    v.push('N');
    v.push('O');
    v.push('P');
    v.push('Q');
    v.push('R');
    v.push('S');
    v.push('T');
    v.push('U');
    v.push('V');
    v.push('W');
    v.push('X');
    v.push('Y');
    v.push('Z');
    v.push('0');
    v.push('1');
    v.push('2');
    v.push('3');
    v.push('4');
    v.push('5');
    v.push('6');
    v.push('7');
    v.push('8');
    v.push('9');
    v.push('!');
    v.push('@');
    v.push('#');
    v.push('$');
    v.push('%');
    v.push('^');
    v.push('&');
    v.push('*');
    v.push('(');
    v.push(')');
    v.push('_');
    v.push('+');
    v.push('}');
    v.push('{');
    v.push('"');
    v.push(':');
    v.push('?');
    v.push('>');
    v.push('<');
    v.push('-');
    v.push('=');
    v.push('[');
    v.push(']');
    v.push(';');
    v.push('\'');
    v.push(',');
    v.push('.');
    v.push('/');
    proof {
        assert(v@ =~= charset());
    }
    v
}

/// Relies on `rand::thread_rng` and `Rng::gen_range`: a draw below the
/// bound. Nothing is promised of which value comes back, only its range.
#[verifier::external_body]
fn rand_below(n: usize) -> (r: usize)
    requires
        n >= 1,
    ensures
        r < n,
{
    rand::thread_rng().gen_range(0..n)
}

/// A word of the set with a decimal number below 9999 appended.
pub open spec fn smart_digit_cand(ws: Seq<Seq<char>>, c: Seq<char>) -> bool {
    exists|i: int, n: nat|
        #![trigger ws[i], dec_str(n)]
        0 <= i < ws.len() && n < 9999 && c == ws[i] + dec_str(n)
}

/// A word of the set with one symbol-region charset character (index 52 and
/// up) appended.
pub open spec fn smart_symbol_cand(ws: Seq<Seq<char>>, c: Seq<char>) -> bool {
    exists|i: int, k: int|
        #![trigger ws[i], charset()[k]]
        0 <= i < ws.len() && 52 <= k < charset().len() && c == ws[i] + seq![charset()[k]]
}

/// Two words of the set concatenated, directly or with a `_` separator.
pub open spec fn combinator_cand(ws: Seq<Seq<char>>, c: Seq<char>) -> bool {
    exists|i: int, j: int|
        #![trigger ws[i], ws[j]]
        0 <= i < ws.len() && 0 <= j < ws.len() && (c == ws[i] + ws[j] || c == ws[i] + seq!['_']
            + ws[j])
}

/// A word of the set capitalized with a decimal number below 999 appended;
/// an empty word stays as it is.
pub open spec fn smart_cap_cand(ws: Seq<Seq<char>>, c: Seq<char>) -> bool {
    ||| exists|i: int| 0 <= i < ws.len() && (#[trigger] ws[i]).len() == 0 && c == ws[i]
    ||| exists|i: int, n: nat|
        #![trigger ws[i], dec_str(n)]
        0 <= i < ws.len() && n < 999 && c == cap_first(ws[i]) + dec_str(n)
}

/// A string of 4 to 12 characters drawn from the charset.
pub open spec fn random_cand(c: Seq<char>) -> bool {
    4 <= c.len() <= 12 && forall|k: int| 0 <= k < c.len() ==> charset().contains(#[trigger] c[k])
}

/// What a generated candidate looks like, by its strategy tag.
pub open spec fn generated_ok(ws: Seq<Seq<char>>, c: Seq<char>, tag: Seq<char>) -> bool {
    ||| (tag == "smart_digit"@ && ws.len() > 0 && smart_digit_cand(ws, c))
    ||| (tag == "smart_symbol"@ && ws.len() > 0 && smart_symbol_cand(ws, c))
    ||| (tag == "combinator"@ && ws.len() > 1 && combinator_cand(ws, c))
    ||| (tag == "smart_cap"@ && ws.len() > 0 && smart_cap_cand(ws, c))
    ||| (tag == "random"@ && random_cand(c))
}

/// One candidate's worth of draws from the random source. The generator is
/// a deterministic function of these draws and the word set; unused fields
/// are simply ignored by the chosen strategy.
#[derive(Clone, Debug)]
pub struct Draws {
    /// Strategy draw in [0,100): below 80 picks a smart strategy when the
    /// word set is non-empty.
    pub strategy: usize,
    /// Index of the seeding word; ignored with an empty word set.
    pub word_index: usize,
    /// Smart sub-strategy draw in [0,100).
    pub sub: usize,
    /// Digit to append in [0,9999).
    pub digit: usize,
    /// Charset index of the symbol to append, in [52,90).
    pub symbol_index: usize,
    /// Index of the second word for the combinator strategy.
    pub second_index: usize,
    /// Separator draw in [0,5): zero inserts a `_` between combined words.
    pub separator: usize,
    /// Digit to append after capitalizing, in [0,999).
    pub cap_digit: usize,
    /// Length of a pure random candidate, in [4,12].
    pub length: usize,
    /// Charset indices of a pure random candidate, each below 90.
    pub char_indices: Vec<usize>,
}

/// The ranges the strategy rules expect of each draw.
pub open spec fn draws_ok(ws: Seq<Seq<char>>, d: Draws) -> bool {
    &&& d.strategy < 100
    &&& d.sub < 100
    &&& d.digit < 9999
    &&& 52 <= d.symbol_index < 90
    &&& d.separator < 5
    &&& d.cap_digit < 999
    &&& 4 <= d.length <= 12
    &&& d.char_indices@.len() == d.length
    &&& forall|i: int| 0 <= i < d.char_indices@.len() ==> #[trigger] d.char_indices@[i] < 90
    &&& ws.len() > 0 ==> d.word_index < ws.len() && d.second_index < ws.len()
}

/// The strategy tag the draws select: 80% smart when words exist (40%
/// digits, 20% symbol, 30% combinator when two words exist, the rest
/// capitalization), pure random otherwise.
pub open spec fn chosen_tag(ws: Seq<Seq<char>>, d: Draws) -> Seq<char> {
    if ws.len() > 0 && d.strategy < 80 {
        if d.sub < 40 {
            "smart_digit"@
        } else if d.sub < 60 {
            "smart_symbol"@
        } else if d.sub < 90 && ws.len() > 1 {
            "combinator"@
        } else {
            "smart_cap"@
        }
    } else {
        "random"@
    }
}

/// The candidate the draws select, as a function of the draws and the word
/// set alone.
pub open spec fn chosen_candidate(ws: Seq<Seq<char>>, d: Draws) -> Seq<char> {
    if ws.len() > 0 && d.strategy < 80 {
        let w = ws[d.word_index as int];
        if d.sub < 40 {
            w + dec_str(d.digit as nat)
        } else if d.sub < 60 {
            w + seq![charset()[d.symbol_index as int]]
        } else if d.sub < 90 && ws.len() > 1 {
            if d.separator == 0 {
                w + seq!['_'] + ws[d.second_index as int]
            } else {
                w + ws[d.second_index as int]
            }
        } else {
            if w.len() == 0 {
                w
            } else {
                cap_first(w) + dec_str(d.cap_digit as nat)
            }
        }
    } else {
        Seq::new(d.length as nat, |i: int| charset()[d.char_indices@[i] as int])
    }
}

/// A candidate chosen by in-range draws always has one of the five strategy
/// shapes, under the tag the draws select.
pub proof fn lemma_chosen_is_generated(ws: Seq<Seq<char>>, d: Draws)
    requires
        draws_ok(ws, d),
    ensures
        generated_ok(ws, chosen_candidate(ws, d), chosen_tag(ws, d)),
{
    let c = chosen_candidate(ws, d);
    if ws.len() > 0 && d.strategy < 80 {
        let w = ws[d.word_index as int];
        if d.sub < 40 {
            assert(c == w + dec_str(d.digit as nat));
            assert(smart_digit_cand(ws, c));
        } else if d.sub < 60 {
            assert(c == w + seq![charset()[d.symbol_index as int]]);
            assert(smart_symbol_cand(ws, c));
        } else if d.sub < 90 && ws.len() > 1 {
            assert(c == w + ws[d.second_index as int] || c == w + seq!['_']
                + ws[d.second_index as int]);
            assert(combinator_cand(ws, c));
        } else if w.len() == 0 {
            assert(smart_cap_cand(ws, c));
        } else {
            assert(c == cap_first(w) + dec_str(d.cap_digit as nat));
            assert(smart_cap_cand(ws, c));
        }
    } else {
        assert forall|k: int| 0 <= k < c.len() implies charset().contains(#[trigger] c[k]) by {
            assert(c[k] == charset()[d.char_indices@[k] as int]);
        }
        assert(random_cand(c));
    }
}

/// Build the candidate and tag that the given draws select from the word
/// set: the deterministic half of the generator, fully determined by its
/// arguments.
pub fn build_candidate(words: &Vec<String>, d: &Draws) -> (r: (String, &'static str))
    requires
        draws_ok(views_of(words@), *d),
    ensures
        r.0@ == chosen_candidate(views_of(words@), *d),
        r.1@ == chosen_tag(views_of(words@), *d),
{
    let ghost ws = views_of(words@);
    proof {
        assert(forall|i: int| 0 <= i < ws.len() ==> #[trigger] ws[i] == words@[i]@);
    }
    if words.len() > 0 && d.strategy < 80 {
        let word = &words[d.word_index];
        if d.sub < 40 {
            let mut c = word.clone();
            let digits = u32_dec(d.digit as u32);
            c.append(digits.as_str());
            proof {
                assert(digits@ == dec_str(d.digit as nat));
            }
            (c, "smart_digit")
        } else if d.sub < 60 {
            let cs = charset_chars();
            let mut c = word.clone();
            push_char(&mut c, cs[d.symbol_index]);
            (c, "smart_symbol")
        } else if d.sub < 90 && words.len() > 1 {
            let mut c = word.clone();
            if d.separator == 0 {
                push_char(&mut c, '_');
            }
            c.append(words[d.second_index].as_str());
            (c, "combinator")
        } else {
            if word.as_str().is_empty() {
                (word.clone(), "smart_cap")
            } else {
                let mut c = crate::text::capitalize(word.as_str());
                let digits = u32_dec(d.cap_digit as u32);
                c.append(digits.as_str());
                proof {
                    assert(digits@ == dec_str(d.cap_digit as nat));
                }
                (c, "smart_cap")
            }
        }
    } else {
        let cs = charset_chars();
        let mut c = String::new();
        let mut made: usize = 0;
        while made < d.length
            invariant
                made <= d.length,
                draws_ok(views_of(words@), *d),
                c@.len() == made,
                cs@ == charset(),
                forall|k: int|
                    0 <= k < made ==> #[trigger] c@[k] == charset()[d.char_indices@[k] as int],
            decreases d.length - made,
        {
            let idx = d.char_indices[made];
            push_char(&mut c, cs[idx]);
            made = made + 1;
        }
        proof {
            assert(c@ =~= chosen_candidate(ws, *d));
        }
        (c, "random")
    }
}

/// Draw one candidate and its strategy tag. With a non-empty word set, 80%
/// of draws take a smart strategy seeded by the words (digits, symbol,
/// two-word combination, capitalization); the rest, and every draw with an
/// empty word set, build a pure random string over the charset.
pub fn generate_candidate(words: &Vec<String>) -> (r: (String, &'static str))
    ensures
        generated_ok(views_of(words@), r.0@, r.1@),
        words@.len() == 0 ==> r.1@ == "random"@,
{
    let length = 4 + rand_below(9);
    let mut char_indices: Vec<usize> = Vec::new();
    while char_indices.len() < length
        invariant
            char_indices@.len() <= length,
            forall|i: int| 0 <= i < char_indices@.len() ==> #[trigger] char_indices@[i] < 90,
        decreases length - char_indices@.len(),
    {
        char_indices.push(rand_below(90));
    }
    let d = Draws {
        strategy: rand_below(100),
        word_index: if words.len() > 0 {
            rand_below(words.len())
        } else {
            0
        },
        sub: rand_below(100),
        digit: rand_below(9999),
        symbol_index: 52 + rand_below(38),
        second_index: if words.len() > 0 {
            rand_below(words.len())
        } else {
            0
        },
        separator: rand_below(5),
        cap_digit: rand_below(999),
        length,
        char_indices,
    };
    let r = build_candidate(words, &d);
    proof {
        lemma_chosen_is_generated(views_of(words@), d);
    }
    r
}

/// One generation step leaves the table grown by nothing but the three
/// digests of one well-formed candidate, each carrying the candidate and
/// its tag as a `candidate|tag` value.
pub open spec fn step_values_ok(
    ws: Seq<Seq<char>>,
    t0: Map<Seq<char>, Seq<char>>,
    t1: Map<Seq<char>, Seq<char>>,
    c: Seq<char>,
    tag: Seq<char>,
) -> bool {
    &&& generated_ok(ws, c, tag)
    &&& t1.dom().subset_of(
        t0.dom().insert(hash_spec(Algo::Md5, c)).insert(hash_spec(Algo::Sha1, c)).insert(
            hash_spec(Algo::Sha256, c),
        ),
    )
    &&& forall|k: Seq<char>|
        #[trigger] t1.contains_key(k) && !t0.contains_key(k) ==> t1[k] == tagged(c, tag)
}

/// One iteration of a generation worker: draw a candidate, hash it under
/// all three algorithms, and insert each digest if absent. Reports whether
/// at least one digest was newly added; existing entries are never touched.
pub fn generator_step(store: &mut Store, words: &Vec<String>) -> (added: bool)
    ensures
        table_preserves(old(store).table(), final(store).table()),
        final(store).word_set() == old(store).word_set(),
        exists|c: Seq<char>, tag: Seq<char>|
            #[trigger] step_values_ok(
                views_of(words@),
                old(store).table(),
                final(store).table(),
                c,
                tag,
            ),
        added ==> exists|k: Seq<char>|
            #[trigger] final(store).table().contains_key(k) && !old(store).table().contains_key(k),
{
    let ghost t0 = store.table();
    let (cand, tag) = generate_candidate(words);
    let value = make_tagged(cand.as_str(), tag);
    let h_md5 = hash_string(Algo::Md5, cand.as_str());
    let h_sha1 = hash_string(Algo::Sha1, cand.as_str());
    let h_sha256 = hash_string(Algo::Sha256, cand.as_str());
    let r1 = store.insert_if_absent(h_md5.as_str(), value.as_str());
    let ghost ta = store.table();
    let r2 = store.insert_if_absent(h_sha1.as_str(), value.as_str());
    let ghost tb = store.table();
    let r3 = store.insert_if_absent(h_sha256.as_str(), value.as_str());
    proof {
        let t1 = store.table();
        assert(table_preserves(t0, ta));
        assert(table_preserves(ta, tb));
        assert(table_preserves(tb, t1));
        lemma_preserves_trans(t0, ta, tb);
        lemma_preserves_trans(t0, tb, t1);
        let ks = t0.dom().insert(hash_spec(Algo::Md5, cand@)).insert(
            hash_spec(Algo::Sha1, cand@),
        ).insert(hash_spec(Algo::Sha256, cand@));
        assert(t1.dom().subset_of(ks));
        assert(forall|k: Seq<char>|
            #[trigger] t1.contains_key(k) && !t0.contains_key(k) ==> t1[k] == tagged(cand@, tag@));
        assert(step_values_ok(views_of(words@), t0, t1, cand@, tag@));
        if r1 {
            assert(!t0.contains_key(h_md5@) && t1.contains_key(h_md5@));
        } else if r2 {
            assert(!t0.contains_key(h_sha1@) && t1.contains_key(h_sha1@));
        } else if r3 {
            assert(!t0.contains_key(h_sha256@) && t1.contains_key(h_sha256@));
        }
    }
    r1 || r2 || r3
}

/// Run a bounded number of generation steps, as a worker loop does between
/// external cancellation checks; entries already in the table are never
/// overwritten, whatever the candidates drawn.
pub fn generator_run(store: &mut Store, words: &Vec<String>, iterations: usize) -> (added: usize)
    ensures
        table_preserves(old(store).table(), final(store).table()),
        final(store).word_set() == old(store).word_set(),
        added <= iterations,
{
    let ghost t_init = store.table();
    let ghost w_init = store.word_set();
    let mut count: usize = 0;
    let mut it: usize = 0;
    while it < iterations
        invariant
            it <= iterations,
            count <= it,
            table_preserves(t_init, store.table()),
            store.word_set() == w_init,
        decreases iterations - it,
    {
        let ghost t_prev = store.table();
        let a = generator_step(store, words);
        proof {
            lemma_preserves_trans(t_init, t_prev, store.table());
        }
        if a {
            count = count + 1;
        }
        it = it + 1;
    }
    count
}

} // verus!
