//! The mutation attacks: the hybrid attack mutates dictionary words with
//! digit, suffix and capitalization rules; the combinator attack tries the
//! concatenation of every ordered pair of words; the brute-force fallback is
//! a declared stub that always reports "not found". Each search is exact:
//! it returns a candidate exactly when some candidate in its search space
//! hashes to the target.

use crate::digest::{hash_spec, hash_string, Algo};
use crate::text::{cap_first, capitalize, dec_str, u32_dec, views_of};
use vstd::prelude::*;
use vstd::string::StringExecFns;

verus! {

/// The fixed symbol and year suffixes the hybrid attack appends.
pub open spec fn attack_suffixes() -> Seq<Seq<char>> {
    seq![
        "!"@,
        "@"@,
        "#"@,
        "$"@,
        "%"@,
        "&"@,
        "*"@,
        "?"@,
        "123"@,
        "123!"@,
        "!!"@,
        "2023"@,
        "2024"@,
        "2025"@,
    ]
}

fn suffix_list() -> (r: Vec<&'static str>)
    ensures
        r@.len() == attack_suffixes().len(),
        forall|i: int| 0 <= i < r@.len() ==> (#[trigger] r@[i])@ == attack_suffixes()[i],
{
    let mut v: Vec<&'static str> = Vec::new();
    v.push("!");
    v.push("@");
    v.push("#");
    v.push("$");
    v.push("%");
    v.push("&");
    v.push("*");
    v.push("?");
    v.push("123");
    v.push("123!");
    v.push("!!");
    v.push("2023");
    v.push("2024");
    v.push("2025");
    v
}

/// A candidate formed by appending one of the digits 0 to 999 to a base
/// word.
pub open spec fn digit_mut(w: Seq<char>, c: Seq<char>) -> bool {
    exists|n: nat| n <= 999 && c == w + #[trigger] dec_str(n)
}

/// A candidate formed by appending one of the fixed suffixes to a base word.
pub open spec fn suffix_mut(w: Seq<char>, c: Seq<char>) -> bool {
    exists|k: int| 0 <= k < attack_suffixes().len() && c == w + #[trigger] attack_suffixes()[k]
}

/// A candidate the hybrid attack derives from a word: a digit or suffix
/// appended to the word itself or to its capitalized form.
pub open spec fn hybrid_mut(w: Seq<char>, c: Seq<char>) -> bool {
    ||| digit_mut(w, c)
    ||| suffix_mut(w, c)
    ||| digit_mut(cap_first(w), c)
    ||| suffix_mut(cap_first(w), c)
}

/// Some word of the list has a hybrid mutation that hashes to the target.
pub open spec fn hybrid_hit(algo: Algo, ws: Seq<Seq<char>>, target: Seq<char>) -> bool {
    exists|i: int, c: Seq<char>|
        0 <= i < ws.len() && #[trigger] hybrid_mut(ws[i], c) && hash_spec(algo, c) == target
}

fn try_digits(algo: Algo, target: &String, base: &str) -> (r: Option<String>)
    ensures
        match r {
            Some(c) => digit_mut(base@, c@) && hash_spec(algo, c@) == target@,
            None => forall|n: nat|
                n <= 999 ==> hash_spec(algo, base@ + #[trigger] dec_str(n)) != target@,
        },
{
    let mut i: u32 = 0;
    while i <= 999
        invariant
            i <= 1000,
            forall|n: nat| n < i ==> hash_spec(algo, base@ + #[trigger] dec_str(n)) != target@,
        decreases 1000 - i,
    {
        let mut cand = base.to_owned();
        let d = u32_dec(i);
        cand.append(d.as_str());
        let h = hash_string(algo, cand.as_str());
        if h.eq(target) {
            return Some(cand);
        }
        i = i + 1;
    }
    None
}

fn try_suffixes(algo: Algo, target: &String, base: &str) -> (r: Option<String>)
    ensures
        match r {
            Some(c) => suffix_mut(base@, c@) && hash_spec(algo, c@) == target@,
            None => forall|k: int|
                0 <= k < attack_suffixes().len() ==> hash_spec(
                    algo,
                    base@ + #[trigger] attack_suffixes()[k],
                ) != target@,
        },
{
    let sufs = suffix_list();
    let mut k: usize = 0;
    while k < sufs.len()
        invariant
            k <= sufs@.len(),
            sufs@.len() == attack_suffixes().len(),
            forall|i: int| 0 <= i < sufs@.len() ==> (#[trigger] sufs@[i])@ == attack_suffixes()[i],
            forall|j: int|
                0 <= j < k ==> hash_spec(algo, base@ + #[trigger] attack_suffixes()[j]) != target@,
        decreases sufs@.len() - k,
    {
        let mut cand = base.to_owned();
        cand.append(sufs[k]);
        let h = hash_string(algo, cand.as_str());
        if h.eq(target) {
            return Some(cand);
        }
        k = k + 1;
    }
    None
}

fn hybrid_try_word(algo: Algo, target: &String, word: &str) -> (r: Option<String>)
    ensures
        match r {
            Some(c) => hybrid_mut(word@, c@) && hash_spec(algo, c@) == target@,
            None => forall|c: Seq<char>|
                #[trigger] hybrid_mut(word@, c) ==> hash_spec(algo, c) != target@,
        },
{
    if let Some(c) = try_digits(algo, target, word) {
        return Some(c);
    }
    if let Some(c) = try_suffixes(algo, target, word) {
        return Some(c);
    }
    let cap = capitalize(word);
    if let Some(c) = try_digits(algo, target, cap.as_str()) {
        return Some(c);
    }
    if let Some(c) = try_suffixes(algo, target, cap.as_str()) {
        return Some(c);
    }
    proof {
        assert forall|c: Seq<char>| #[trigger] hybrid_mut(word@, c) implies hash_spec(algo, c)
            != target@ by {
            if digit_mut(word@, c) {
                let n = choose|n: nat| n <= 999 && c == word@ + dec_str(n);
                assert(hash_spec(algo, word@ + dec_str(n)) != target@);
            } else if suffix_mut(word@, c) {
                let k = choose|k: int|
                    0 <= k < attack_suffixes().len() && c == word@ + attack_suffixes()[k];
                assert(hash_spec(algo, word@ + attack_suffixes()[k]) != target@);
            } else if digit_mut(cap_first(word@), c) {
                let n = choose|n: nat| n <= 999 && c == cap_first(word@) + dec_str(n);
                assert(hash_spec(algo, cap_first(word@) + dec_str(n)) != target@);
            } else {
                let k = choose|k: int|
                    0 <= k < attack_suffixes().len() && c == cap_first(word@)
                        + attack_suffixes()[k];
                assert(hash_spec(algo, cap_first(word@) + attack_suffixes()[k]) != target@);
            }
        }
    }
    None
}

/// Run the hybrid rules over the words with indices in `lo..hi`, one chunk
/// of the word list; a parallel driver may hand disjoint chunks to
/// concurrent workers.
pub fn hybrid_search_range(
    algo: Algo,
    target: &str,
    words: &Vec<String>,
    lo: usize,
    hi: usize,
) -> (r: Option<String>)
    requires
        lo <= hi && hi <= words@.len(),
    ensures
        match r {
            Some(c) => exists|i: int|
                lo <= i < hi && #[trigger] hybrid_mut(words@[i]@, c@) && hash_spec(algo, c@)
                    == target@,
            None => forall|i: int, c: Seq<char>|
                lo <= i < hi && #[trigger] hybrid_mut(words@[i]@, c) ==> hash_spec(algo, c)
                    != target@,
        },
{
    let t = target.to_owned();
    let mut i: usize = lo;
    while i < hi
        invariant
            lo <= i <= hi,
            hi <= words@.len(),
            t@ == target@,
            forall|j: int, c: Seq<char>|
                lo <= j < i && #[trigger] hybrid_mut(words@[j]@, c) ==> hash_spec(algo, c)
                    != target@,
        decreases hi - i,
    {
        match hybrid_try_word(algo, &t, words[i].as_str()) {
            Some(c) => {
                return Some(c);
            },
            None => {},
        }
        i = i + 1;
    }
    None
}

/// The hybrid attack: for each word, append each digit 0 to 999, then each
/// fixed suffix, then the same two passes over the word with its first
/// character capitalized. Returns a matching candidate exactly when one
/// exists; with several matches, any one of them may be returned.
pub fn hybrid_attack(algo: Algo, target: &str, words: &Vec<String>) -> (r: Option<String>)
    ensures
        match r {
            Some(c) => hybrid_hit(algo, views_of(words@), target@) && hash_spec(algo, c@)
                == target@ && exists|i: int|
                0 <= i < words@.len() && #[trigger] hybrid_mut(words@[i]@, c@),
            None => !hybrid_hit(algo, views_of(words@), target@),
        },
{
    let r = hybrid_search_range(algo, target, words, 0, words.len());
    proof {
        let ws = views_of(words@);
        assert(forall|i: int| 0 <= i < ws.len() ==> #[trigger] ws[i] == words@[i]@);
        match &r {
            Some(c) => {
                let i = choose|i: int|
                    0 <= i < words@.len() && #[trigger] hybrid_mut(words@[i]@, c@) && hash_spec(
                        algo,
                        c@,
                    ) == target@;
                assert(hybrid_mut(ws[i], c@) && hash_spec(algo, c@) == target@);
            },
            None => {
                if hybrid_hit(algo, ws, target@) {
                    let (i, c) = choose|i: int, c: Seq<char>|
                        0 <= i < ws.len() && #[trigger] hybrid_mut(ws[i], c) && hash_spec(algo, c)
                            == target@;
                    assert(hybrid_mut(words@[i]@, c));
                    assert(false);
                }
            },
        }
    }
    r
}

/// The cost ceiling of the combinator attack: at or above this many words
/// the quadratic search is skipped.
pub const COMBINATOR_CEILING: usize = 5000;

/// A candidate formed by concatenating two words of the list, in order.
pub open spec fn comb_pair(ws: Seq<Seq<char>>, c: Seq<char>) -> bool {
    exists|i: int, j: int|
        #![trigger ws[i], ws[j]]
        0 <= i < ws.len() && 0 <= j < ws.len() && c == ws[i] + ws[j]
}

/// Some ordered pair of words concatenates to a candidate that hashes to
/// the target.
pub open spec fn comb_hit(algo: Algo, ws: Seq<Seq<char>>, target: Seq<char>) -> bool {
    exists|i: int, j: int|
        #![trigger ws[i], ws[j]]
        0 <= i < ws.len() && 0 <= j < ws.len() && hash_spec(algo, ws[i] + ws[j]) == target
}

/// Try every ordered pair with a first word indexed in `lo..hi` and a second
/// word anywhere in the list, in both concatenation orders; one chunk of the
/// quadratic search, for a parallel driver.
pub fn combinator_search_range(
    algo: Algo,
    target: &str,
    words: &Vec<String>,
    lo: usize,
    hi: usize,
) -> (r: Option<String>)
    requires
        lo <= hi && hi <= words@.len(),
    ensures
        match r {
            Some(c) => comb_pair(views_of(words@), c@) && hash_spec(algo, c@) == target@,
            None => forall|i: int, j: int|
                #![trigger words@[i], words@[j]]
                lo <= i < hi && 0 <= j < words@.len() ==> hash_spec(algo, words@[i]@ + words@[j]@)
                    != target@ && hash_spec(algo, words@[j]@ + words@[i]@) != target@,
        },
{
    let t = target.to_owned();
    let mut i: usize = lo;
    while i < hi
        invariant
            lo <= i <= hi,
            hi <= words@.len(),
            t@ == target@,
            forall|k: int, j: int|
                #![trigger words@[k], words@[j]]
                lo <= k < i && 0 <= j < words@.len() ==> hash_spec(algo, words@[k]@ + words@[j]@)
                    != target@ && hash_spec(algo, words@[j]@ + words@[k]@) != target@,
        decreases hi - i,
    {
        let mut j: usize = 0;
        while j < words.len()
            invariant
                0 <= j <= words@.len(),
                lo <= i < hi,
                hi <= words@.len(),
                t@ == target@,
                forall|k: int, l: int|
                    #![trigger words@[k], words@[l]]
                    lo <= k < i && 0 <= l < words@.len() ==> hash_spec(
                        algo,
                        words@[k]@ + words@[l]@,
                    ) != target@ && hash_spec(algo, words@[l]@ + words@[k]@) != target@,
                forall|l: int|
                    0 <= l < j ==> hash_spec(algo, words@[i as int]@ + #[trigger] words@[l]@)
                        != target@ && hash_spec(algo, words@[l]@ + words@[i as int]@) != target@,
            decreases words@.len() - j,
        {
            let mut cand = words[i].clone();
            cand.append(words[j].as_str());
            let h = hash_string(algo, cand.as_str());
            if h.eq(&t) {
                proof {
                    let ws = views_of(words@);
                    assert(ws[i as int] == words@[i as int]@ && ws[j as int] == words@[j as int]@);
                }
                return Some(cand);
            }
            let mut cand_rev = words[j].clone();
            cand_rev.append(words[i].as_str());
            let h_rev = hash_string(algo, cand_rev.as_str());
            if h_rev.eq(&t) {
                proof {
                    let ws = views_of(words@);
                    assert(ws[i as int] == words@[i as int]@ && ws[j as int] == words@[j as int]@);
                }
                return Some(cand_rev);
            }
            j = j + 1;
        }
        i = i + 1;
    }
    None
}

/// The combinator attack over the whole word list: every ordered pair of
/// words, concatenated. Returns a matching candidate exactly when one
/// exists; with several matches, any one of them may be returned.
pub fn combinator_attack(algo: Algo, target: &str, words: &Vec<String>) -> (r: Option<String>)
    ensures
        match r {
            Some(c) => comb_pair(views_of(words@), c@) && hash_spec(algo, c@) == target@,
            None => !comb_hit(algo, views_of(words@), target@),
        },
{
    let r = combinator_search_range(algo, target, words, 0, words.len());
    proof {
        let ws = views_of(words@);
        assert(forall|i: int| 0 <= i < ws.len() ==> #[trigger] ws[i] == words@[i]@);
        if r is None && comb_hit(algo, ws, target@) {
            let (i, j) = choose|i: int, j: int|
                #![trigger ws[i], ws[j]]
                0 <= i < ws.len() && 0 <= j < ws.len() && hash_spec(algo, ws[i] + ws[j]) == target@;
            assert(hash_spec(algo, words@[i]@ + words@[j]@) != target@);
            assert(false);
        }
    }
    r
}

/// What the combinator stage reports: a recovered plaintext, an exhausted
/// search, or an explicit skip because the word set is at or above the cost
/// ceiling.
pub enum StageOutcome {
    Found(String),
    NotFound,
    SkippedTooLarge,
}

/// The combinator stage with its size guard: at or above the ceiling the
/// quadratic search is skipped and reported as such, otherwise the full
/// search runs and finds a match exactly when one exists.
pub fn combinator_stage(algo: Algo, target: &str, words: &Vec<String>) -> (r: StageOutcome)
    ensures
        r is SkippedTooLarge <==> words@.len() >= COMBINATOR_CEILING,
        r matches StageOutcome::Found(c) ==> comb_pair(views_of(words@), c@) && hash_spec(algo, c@)
            == target@,
        r is NotFound ==> !comb_hit(algo, views_of(words@), target@),
        words@.len() < COMBINATOR_CEILING && comb_hit(algo, views_of(words@), target@) ==> (
        r matches StageOutcome::Found(c) && hash_spec(algo, c@) == target@),
{
    if words.len() >= COMBINATOR_CEILING {
        return StageOutcome::SkippedTooLarge;
    }
    match combinator_attack(algo, target, words) {
        Some(c) => StageOutcome::Found(c),
        None => StageOutcome::NotFound,
    }
}

/// The brute-force fallback: a declared stub that reports "not found" for
/// every target without scanning the keyspace, whatever charset and length
/// budget it is handed.
pub fn brute_force(_algo: Algo, _target: &str, _charset: &str, _max_len: usize) -> (r: Option<
    String,
>)
    ensures
        r is None,
{
    None
}

} // verus!
