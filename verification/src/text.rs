//! Short names: the compact token by which an action is known to callers.

use vstd::prelude::*;
use vstd::string::StrSliceExecFns;

verus! {

/// Whether a character has the Unicode property White_Space: the blank, the
/// controls from tab to carriage return, next line, the no-break spaces, the
/// Ogham space mark, the spaces from en quad to hair space, the line and
/// paragraph separators, the medium mathematical space and the ideographic
/// space.
pub open spec fn white_space(c: char) -> bool {
    let code = c as u32;
    ||| 0x0009 <= code <= 0x000d
    ||| code == 0x0020
    ||| code == 0x0085
    ||| code == 0x00a0
    ||| code == 0x1680
    ||| 0x2000 <= code <= 0x200a
    ||| code == 0x2028
    ||| code == 0x2029
    ||| code == 0x202f
    ||| code == 0x205f
    ||| code == 0x3000
}

/// Calls `char::is_whitespace`, which tells whether a character has the
/// Unicode property White_Space. The contract spells the property out.
#[verifier::external_body]
fn is_whitespace(c: char) -> (b: bool)
    ensures
        b == white_space(c),
{
    c.is_whitespace()
}

/// Calls `String::push`, which appends one character to the end of a string.
#[verifier::external_body]
fn push_char(s: &mut String, c: char)
    ensures
        final(s)@ == old(s)@.push(c),
{
    s.push(c)
}

/// `s` with every pair of capital `I` replaced by the digit `2`, pairs being
/// taken from the left and never overlapping.
pub open spec fn numerals_replaced(s: Seq<char>) -> Seq<char>
    decreases s.len(),
{
    if s.len() == 0 {
        s
    } else if s.len() >= 2 && s[0] == 'I' && s[1] == 'I' {
        seq!['2'] + numerals_replaced(s.skip(2))
    } else {
        seq![s[0]] + numerals_replaced(s.skip(1))
    }
}

/// Whether a character stays in a short name: white space and apostrophes
/// do not.
pub open spec fn stays(c: char) -> bool {
    !white_space(c) && c != '\''
}

/// `s` without the characters that do not stay.
pub open spec fn compacted(s: Seq<char>) -> Seq<char>
    decreases s.len(),
{
    if s.len() == 0 {
        s
    } else if stays(s.last()) {
        compacted(s.drop_last()).push(s.last())
    } else {
        compacted(s.drop_last())
    }
}

/// A capital ASCII letter in lower case, any other character unchanged.
pub open spec fn ascii_lowered(c: char) -> char {
    if 'A' <= c && c <= 'Z' {
        ((c as u8) + 32) as char
    } else {
        c
    }
}

/// `s` with its first character lowered.
pub open spec fn first_lowered(s: Seq<char>) -> Seq<char> {
    if s.len() == 0 {
        s
    } else {
        s.update(0, ascii_lowered(s[0]))
    }
}

/// The short name of the action called `name`: numerals replaced, white
/// space and apostrophes taken out, the first letter lowered. Basic Synthesis
/// goes by a name of its own.
pub open spec fn short_name_of(name: Seq<char>) -> Seq<char> {
    if name == "Basic Synthesis"@ {
        "basicSynth2"@
    } else {
        first_lowered(compacted(numerals_replaced(name)))
    }
}

/// The characters of a string slice.
pub fn chars_of(s: &str) -> (r: Vec<char>)
    ensures
        r@ == s@,
{
    let n = s.unicode_len();
    let mut out: Vec<char> = Vec::new();
    let mut i: usize = 0;
    while i < n
        invariant
            n == s@.len(),
            i <= n,
            out@ == s@.take(i as int),
        decreases n - i,
    {
        let c = s.get_char(i);
        out.push(c);
        i = i + 1;
    }
    out
}

/// Whether two string slices hold the same characters.
pub fn same_text(a: &str, b: &str) -> (r: bool)
    ensures
        r == (a@ == b@),
{
    let n = a.unicode_len();
    if n != b.unicode_len() {
        return false;
    }
    let mut i: usize = 0;
    while i < n
        invariant
            n == a@.len(),
            n == b@.len(),
            i <= n,
            a@.take(i as int) == b@.take(i as int),
        decreases n - i,
    {
        let x = a.get_char(i);
        let y = b.get_char(i);
        if x != y {
            return false;
        }
        i = i + 1;
    }
    assert(a@.take(n as int) == a@);
    assert(b@.take(n as int) == b@);
    true
}

fn replace_numerals(s: &Vec<char>) -> (r: Vec<char>)
    ensures
        r@ == numerals_replaced(s@),
{
    let n = s.len();
    let mut out: Vec<char> = Vec::new();
    let mut i: usize = 0;
    assert(s@.skip(0) == s@);
    while i < n
        invariant
            n == s@.len(),
            i <= n,
            out@ + numerals_replaced(s@.skip(i as int)) == numerals_replaced(s@),
        decreases n - i,
    {
        let ghost rest = s@.skip(i as int);
        if i + 1 < n && s[i] == 'I' && s[i + 1] == 'I' {
            assert(rest.skip(2) == s@.skip(i + 2));
            out.push('2');
            i = i + 2;
        } else {
            assert(rest.skip(1) == s@.skip(i + 1));
            out.push(s[i]);
            i = i + 1;
        }
    }
    out
}

fn compact(s: &Vec<char>) -> (r: Vec<char>)
    ensures
        r@ == compacted(s@),
{
    let n = s.len();
    let mut out: Vec<char> = Vec::new();
    let mut i: usize = 0;
    while i < n
        invariant
            n == s@.len(),
            i <= n,
            out@ == compacted(s@.take(i as int)),
        decreases n - i,
    {
        let c = s[i];
        let ghost next = s@.take(i + 1);
        assert(next.drop_last() == s@.take(i as int));
        let blank = is_whitespace(c);
        if !blank && c != '\'' {
            out.push(c);
        }
        i = i + 1;
    }
    assert(s@.take(n as int) == s@);
    out
}

fn lower_ascii(c: char) -> (r: char)
    ensures
        r == ascii_lowered(c),
{
    if 'A' <= c && c <= 'Z' {
        ((c as u8) + 32) as char
    } else {
        c
    }
}

/// Builds the short name of the action called `name`.
pub fn short_name(name: &str) -> (r: String)
    ensures
        r@ == short_name_of(name@),
{
    if same_text(name, "Basic Synthesis") {
        return String::from_str("basicSynth2");
    }
    let chars = chars_of(name);
    let replaced = replace_numerals(&chars);
    let kept = compact(&replaced);
    let n = kept.len();
    let mut out = String::new();
    let mut i: usize = 0;
    while i < n
        invariant
            n == kept@.len(),
            i <= n,
            out@ == first_lowered(kept@).take(i as int),
        decreases n - i,
    {
        let c = if i == 0 {
            lower_ascii(kept[i])
        } else {
            kept[i]
        };
        push_char(&mut out, c);
        i = i + 1;
    }
    out
}

} // verus!
