//! Small text helpers shared by the store, the generator and the attacks:
//! single-character pushes, first-character splitting, capitalization,
//! decimal rendering, whitespace trimming, and the `plaintext|tag` value
//! format used by the table.

use vstd::prelude::*;

verus! {

/// The character views of a sequence of strings.
pub open spec fn views_of(ws: Seq<String>) -> Seq<Seq<char>> {
    ws.map_values(|w: String| w@)
}

/// Relies on `String::push`: appends exactly one character.
#[verifier::external_body]
pub(crate) fn push_char(s: &mut String, c: char)
    ensures
        final(s)@ == old(s)@ + seq![c],
{
    s.push(c);
}

/// Relies on `str::chars` and `Chars::{next, as_str}`: yields the first
/// character of a non-empty string together with the remainder, and `None`
/// for the empty string.
#[verifier::external_body]
pub(crate) fn first_char_rest<'a>(s: &'a str) -> (r: Option<(char, &'a str)>)
    ensures
        match r {
            Some(p) => s@.len() > 0 && p.0 == s@[0] && p.1@ == s@.drop_first(),
            None => s@.len() == 0,
        },
{
    let mut it = s.chars();
    match it.next() {
        Some(c) => Some((c, it.as_str())),
        None => None,
    }
}

/// The Unicode uppercase mapping of one character, as produced by
/// `char::to_uppercase`; a function of the character alone.
pub uninterp spec fn upper_of(c: char) -> Seq<char>;

/// Relies on `char::to_uppercase`: the uppercase mapping of a character,
/// which depends on the character alone and is at least one character long.
#[verifier::external_body]
fn char_upper(c: char) -> (r: String)
    ensures
        r@ == upper_of(c),
        r@.len() >= 1,
{
    c.to_uppercase().collect()
}

/// A word with its first character capitalized; the empty word is unchanged.
pub open spec fn cap_first(w: Seq<char>) -> Seq<char> {
    if w.len() == 0 {
        w
    } else {
        upper_of(w[0]) + w.drop_first()
    }
}

/// Capitalize the first character of a word.
pub fn capitalize(word: &str) -> (r: String)
    ensures
        r@ == cap_first(word@),
{
    match first_char_rest(word) {
        None => String::new(),
        Some((c, rest)) => {
            let mut out = char_upper(c);
            out.append(rest);
            out
        },
    }
}

/// The character for a decimal digit.
pub open spec fn dec_digit(d: int) -> char {
    if d == 0 {
        '0'
    } else if d == 1 {
        '1'
    } else if d == 2 {
        '2'
    } else if d == 3 {
        '3'
    } else if d == 4 {
        '4'
    } else if d == 5 {
        '5'
    } else if d == 6 {
        '6'
    } else if d == 7 {
        '7'
    } else if d == 8 {
        '8'
    } else {
        '9'
    }
}

/// The usual decimal rendering of a natural number, without leading zeros.
pub open spec fn dec_str(n: nat) -> Seq<char>
    decreases n,
{
    if n < 10 {
        seq![dec_digit(n as int)]
    } else {
        dec_str(n / 10) + seq![dec_digit((n % 10) as int)]
    }
}

fn dec_digit_char(d: u32) -> (c: char)
    requires
        d < 10,
    ensures
        c == dec_digit(d as int),
{
    if d == 0 {
        '0'
    } else if d == 1 {
        '1'
    } else if d == 2 {
        '2'
    } else if d == 3 {
        '3'
    } else if d == 4 {
        '4'
    } else if d == 5 {
        '5'
    } else if d == 6 {
        '6'
    } else if d == 7 {
        '7'
    } else if d == 8 {
        '8'
    } else {
        '9'
    }
}

/// Render a number in decimal, as the attack and generation rules append it.
pub fn u32_dec(n: u32) -> (r: String)
    ensures
        r@ == dec_str(n as nat),
    decreases n,
{
    if n < 10 {
        let mut s = String::new();
        push_char(&mut s, dec_digit_char(n));
        s
    } else {
        let mut s = u32_dec(n / 10);
        push_char(&mut s, dec_digit_char(n % 10));
        s
    }
}

/// The plaintext part of a stored table value: everything before the first
/// `|` separator, or the whole value when there is none.
pub open spec fn plain_of(v: Seq<char>) -> Seq<char>
    decreases v.len(),
{
    if v.len() == 0 {
        Seq::empty()
    } else if v[0] == '|' {
        Seq::empty()
    } else {
        seq![v[0]] + plain_of(v.drop_first())
    }
}

/// Extract the plaintext part of a stored `plaintext` or `plaintext|tag`
/// value.
pub fn plaintext_of(value: &str) -> (r: String)
    ensures
        r@ == plain_of(value@),
    decreases value@.len(),
{
    match first_char_rest(value) {
        None => String::new(),
        Some((c, rest)) => {
            if c == '|' {
                String::new()
            } else {
                let mut out = String::new();
                push_char(&mut out, c);
                let tail = plaintext_of(rest);
                out.append(tail.as_str());
                out
            }
        },
    }
}

/// A stored table value carrying its strategy tag: `plaintext|tag`.
pub open spec fn tagged(plain: Seq<char>, tag: Seq<char>) -> Seq<char> {
    plain + seq!['|'] + tag
}

/// Build the `plaintext|tag` form of a table value.
pub fn make_tagged(plain: &str, tag: &str) -> (r: String)
    ensures
        r@ == tagged(plain@, tag@),
{
    let mut out = plain.to_owned();
    push_char(&mut out, '|');
    out.append(tag);
    out
}

/// A tagged value always parses back to its plaintext, as long as the
/// plaintext itself holds no `|` separator.
pub proof fn lemma_plain_of_tagged(plain: Seq<char>, tag: Seq<char>)
    requires
        !plain.contains('|'),
    ensures
        plain_of(tagged(plain, tag)) == plain,
    decreases plain.len(),
{
    let v = tagged(plain, tag);
    if plain.len() == 0 {
        assert(v[0] == '|');
        assert(plain_of(v) =~= plain);
    } else {
        assert(v[0] == plain[0]);
        assert(plain[0] != '|') by {
            assert(plain.contains(plain[0]));
        }
        assert(v.drop_first() =~= tagged(plain.drop_first(), tag));
        assert(!plain.drop_first().contains('|')) by {
            if plain.drop_first().contains('|') {
                let i = choose|i: int|
                    0 <= i < plain.drop_first().len() && plain.drop_first()[i] == '|';
                assert(plain[i + 1] == '|');
                assert(plain.contains('|'));
            }
        }
        lemma_plain_of_tagged(plain.drop_first(), tag);
        assert(plain_of(v) =~= seq![plain[0]] + plain.drop_first());
        assert(plain_of(v) =~= plain);
    }
}

/// What `str::trim` leaves of a string; a function of the characters alone.
pub uninterp spec fn trim_of(s: Seq<char>) -> Seq<char>;

/// Relies on `str::trim`: removes leading and trailing whitespace, so the
/// result depends on the characters alone and is never longer than the input.
#[verifier::external_body]
fn trim_str<'a>(s: &'a str) -> (r: &'a str)
    ensures
        r@ == trim_of(s@),
        r@.len() <= s@.len(),
{
    s.trim()
}

/// The words that survive ingestion of a list of raw lines: each line
/// trimmed, blank results dropped.
pub open spec fn cleaned(lines: Seq<Seq<char>>) -> Seq<Seq<char>>
    decreases lines.len(),
{
    if lines.len() == 0 {
        Seq::empty()
    } else {
        let rest = cleaned(lines.drop_last());
        let t = trim_of(lines.last());
        if t.len() > 0 {
            rest.push(t)
        } else {
            rest
        }
    }
}

/// Trim a list of raw word-source lines and drop the blank ones.
pub fn clean_words(lines: &Vec<String>) -> (r: Vec<String>)
    ensures
        views_of(r@) == cleaned(views_of(lines@)),
{
    let mut out: Vec<String> = Vec::new();
    let mut i: usize = 0;
    while i < lines.len()
        invariant
            i <= lines@.len(),
            views_of(out@) =~= cleaned(views_of(lines@.take(i as int))),
        decreases lines@.len() - i,
    {
        let w = trim_str(lines[i].as_str());
        if !w.is_empty() {
            out.push(w.to_owned());
        }
        proof {
            let cur = views_of(lines@.take(i as int + 1));
            assert(cur.drop_last() =~= views_of(lines@.take(i as int)));
            assert(cur.last() == lines@[i as int]@);
            assert(views_of(out@) =~= cleaned(cur));
        }
        i = i + 1;
    }
    proof {
        assert(lines@.take(lines@.len() as int) =~= lines@);
    }
    out
}

} // verus!
