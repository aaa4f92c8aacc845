//! Verified string primitives: equality, prefix/suffix tests, decimal
//! rendering, and the upper-camel-case transforms used to derive generated
//! identifiers from wire names.

use vstd::prelude::*;
use convert_case::{Case, Casing};

verus! {

/// Relies on String::push: appends exactly the one character.
pub assume_specification[ String::push ](s: &mut String, ch: char)
    ensures
        final(s)@ == old(s)@.push(ch),
;

/// Compares two string slices character by character.
pub fn str_eq(a: &str, b: &str) -> (r: bool)
    ensures
        r == (a@ == b@),
{
    let alen = a.unicode_len();
    let blen = b.unicode_len();
    if alen != blen {
        return false;
    }
    let mut i: usize = 0;
    while i < alen
        invariant
            0 <= i <= alen,
            alen == a@.len(),
            alen == b@.len(),
            forall|j: int| 0 <= j < i ==> a@[j] == b@[j],
        decreases alen - i,
    {
        if a.get_char(i) != b.get_char(i) {
            return false;
        }
        i += 1;
    }
    assert(a@ =~= b@);
    true
}

/// Whether `s` begins with `p`.
pub fn str_starts_with(s: &str, p: &str) -> (r: bool)
    ensures
        r == (p@.len() <= s@.len() && s@.subrange(0, p@.len() as int) == p@),
{
    let slen = s.unicode_len();
    let plen = p.unicode_len();
    if plen > slen {
        return false;
    }
    let mut i: usize = 0;
    while i < plen
        invariant
            0 <= i <= plen,
            plen == p@.len(),
            slen == s@.len(),
            plen <= slen,
            forall|j: int| 0 <= j < i ==> s@[j] == p@[j],
        decreases plen - i,
    {
        if s.get_char(i) != p.get_char(i) {
            assert(s@.subrange(0, p@.len() as int)[i as int] == s@[i as int]);
            return false;
        }
        i += 1;
    }
    assert(s@.subrange(0, p@.len() as int) =~= p@);
    true
}

/// Whether `s` ends with `p`.
pub fn str_ends_with(s: &str, p: &str) -> (r: bool)
    ensures
        r == (p@.len() <= s@.len() && s@.subrange(s@.len() - p@.len(), s@.len() as int)
            == p@),
{
    let slen = s.unicode_len();
    let plen = p.unicode_len();
    if plen > slen {
        return false;
    }
    let off = slen - plen;
    let mut i: usize = 0;
    while i < plen
        invariant
            0 <= i <= plen,
            plen == p@.len(),
            slen == s@.len(),
            plen <= slen,
            off == slen - plen,
            forall|j: int| 0 <= j < i ==> s@[off + j] == p@[j],
        decreases plen - i,
    {
        if s.get_char(off + i) != p.get_char(i) {
            assert(s@.subrange(s@.len() - p@.len(), s@.len() as int)[i as int]
                == s@[off + i]);
            return false;
        }
        i += 1;
    }
    assert(s@.subrange(s@.len() - p@.len(), s@.len() as int) =~= p@);
    true
}

/// The first character of the Unicode uppercase mapping of a character
/// outside the ASCII range; what char::to_uppercase yields there depends on
/// Unicode tables alone.
pub uninterp spec fn unicode_upper_char(c: char) -> char;

/// The uppercase form of a character as the identifier transforms use it:
/// exact over ASCII, named beyond it.
pub open spec fn spec_upper(c: char) -> char {
    if c == 'a' { 'A' } else if c == 'b' { 'B' } else if c == 'c' { 'C' }
    else if c == 'd' { 'D' } else if c == 'e' { 'E' } else if c == 'f' { 'F' }
    else if c == 'g' { 'G' } else if c == 'h' { 'H' } else if c == 'i' { 'I' }
    else if c == 'j' { 'J' } else if c == 'k' { 'K' } else if c == 'l' { 'L' }
    else if c == 'm' { 'M' } else if c == 'n' { 'N' } else if c == 'o' { 'O' }
    else if c == 'p' { 'P' } else if c == 'q' { 'Q' } else if c == 'r' { 'R' }
    else if c == 's' { 'S' } else if c == 't' { 'T' } else if c == 'u' { 'U' }
    else if c == 'v' { 'V' } else if c == 'w' { 'W' } else if c == 'x' { 'X' }
    else if c == 'y' { 'Y' } else if c == 'z' { 'Z' }
    else if (c as u32) < 128 { c }
    else { unicode_upper_char(c) }
}

/// Relies on char::to_uppercase: on an ASCII letter it yields the single
/// ASCII uppercase letter, on any other ASCII character the character
/// itself, and otherwise the Unicode uppercase mapping.
#[verifier::external_body]
fn upper_first(c: char) -> (r: char)
    ensures
        r == spec_upper(c),
        (c as u32) >= 128 ==> r == unicode_upper_char(c),
{
    match c.to_uppercase().next() {
        Some(u) => u,
        None => c,
    }
}

/// Upper-camel-casing by splitting on underscores: underscores vanish and
/// each segment's first character is uppercased.
pub open spec fn spec_camel(s: Seq<char>, start: bool) -> Seq<char>
    decreases s.len(),
{
    if s.len() == 0 {
        Seq::empty()
    } else if s[0] == '_' {
        spec_camel(s.drop_first(), true)
    } else if start {
        seq![spec_upper(s[0])] + spec_camel(s.drop_first(), false)
    } else {
        seq![s[0]] + spec_camel(s.drop_first(), false)
    }
}

/// Converts an underscore-delimited identifier to upper camel case,
/// character by character.
pub fn camelize_ident(ident: &str) -> (r: String)
    ensures
        r@ == spec_camel(ident@, true),
{
    let len = ident.unicode_len();
    let mut out = String::new();
    let mut start = true;
    let mut i: usize = 0;
    assert(ident@.subrange(0, len as int) =~= ident@);
    assert(Seq::<char>::empty() + spec_camel(ident@, true) =~= spec_camel(ident@, true));
    while i < len
        invariant
            0 <= i <= len,
            len == ident@.len(),
            spec_camel(ident@, true) == out@ + spec_camel(
                ident@.subrange(i as int, len as int),
                start,
            ),
        decreases len - i,
    {
        let ghost rem = ident@.subrange(i as int, len as int);
        assert(rem.drop_first() =~= ident@.subrange(i + 1, len as int));
        let c = ident.get_char(i);
        if c == '_' {
            start = true;
        } else if start {
            out.push(upper_first(c));
            start = false;
        } else {
            out.push(c);
            start = false;
        }
        i += 1;
    }
    assert(ident@.subrange(len as int, len as int) =~= Seq::<char>::empty());
    out
}

/// The upper-camel-case form that the general case-conversion utility
/// produces; a function of the characters of the input alone.
pub uninterp spec fn upper_camel_of(s: Seq<char>) -> Seq<char>;

/// Relies on convert_case's Casing::to_case with Case::UpperCamel: a pure
/// conversion of the input string, empty on empty input.
#[verifier::external_body]
pub fn camelize(ident: &str) -> (r: String)
    ensures
        r@ == upper_camel_of(ident@),
        ident@.len() == 0 ==> r@.len() == 0,
{
    ident.to_case(Case::UpperCamel)
}

/// The decimal digit character for a value below ten.
pub open spec fn spec_digit(d: int) -> char
    recommends
        0 <= d < 10,
{
    seq!['0', '1', '2', '3', '4', '5', '6', '7', '8', '9'][d]
}

/// The decimal rendering of a natural number, most significant digit first.
pub open spec fn spec_dec(n: nat) -> Seq<char>
    decreases n,
{
    if n < 10 {
        seq![spec_digit(n as int)]
    } else {
        spec_dec(n / 10).push(spec_digit((n % 10) as int))
    }
}

fn dec_digit(d: u64) -> (r: char)
    requires
        d < 10,
    ensures
        r == spec_digit(d as int),
{
    match d {
        0 => '0',
        1 => '1',
        2 => '2',
        3 => '3',
        4 => '4',
        5 => '5',
        6 => '6',
        7 => '7',
        8 => '8',
        _ => '9',
    }
}

/// Appends the decimal rendering of `n` to `out`.
pub fn push_dec(n: u64, out: &mut String)
    ensures
        final(out)@ == old(out)@ + spec_dec(n as nat),
    decreases n,
{
    if n >= 10 {
        push_dec(n / 10, out);
    }
    out.push(dec_digit(n % 10));
}

/// The decimal rendering of `n` as a fresh string.
pub fn u64_to_dec(n: u64) -> (r: String)
    ensures
        r@ == spec_dec(n as nat),
{
    let mut out = String::new();
    push_dec(n, &mut out);
    out
}

/// Whether the characters of `pat` stand in `s` at position `i`.
pub fn region_eq(s: &str, i: usize, pat: &str) -> (r: bool)
    requires
        i + pat@.len() <= s@.len(),
    ensures
        r == (s@.subrange(i as int, i + pat@.len()) == pat@),
{
    let slen = s.unicode_len();
    let plen = pat.unicode_len();
    let mut j: usize = 0;
    while j < plen
        invariant
            0 <= j <= plen,
            plen == pat@.len(),
            slen == s@.len(),
            i + plen <= slen,
            forall|t: int| 0 <= t < j ==> s@[i + t] == pat@[t],
        decreases plen - j,
    {
        if s.get_char(i + j) != pat.get_char(j) {
            assert(s@.subrange(i as int, i + pat@.len())[j as int] == s@[i + j]);
            return false;
        }
        j += 1;
    }
    assert(s@.subrange(i as int, i + pat@.len()) =~= pat@);
    true
}

/// The text with every occurrence of a non-empty pattern replaced, found
/// left to right without overlap; an empty pattern leaves the text as it
/// is.
pub open spec fn spec_replace(s: Seq<char>, pat: Seq<char>, rep: Seq<char>) -> Seq<char>
    decreases s.len(),
{
    if pat.len() == 0 || s.len() < pat.len() {
        s
    } else if s.subrange(0, pat.len() as int) == pat {
        rep + spec_replace(s.skip(pat.len() as int), pat, rep)
    } else {
        seq![s[0]] + spec_replace(s.drop_first(), pat, rep)
    }
}

/// Replaces every occurrence of `pat` in `s` by `rep`, left to right.
pub fn replace_all(s: &str, pat: &str, rep: &str) -> (r: String)
    ensures
        r@ == spec_replace(s@, pat@, rep@),
{
    let slen = s.unicode_len();
    let plen = pat.unicode_len();
    if plen == 0 {
        return String::from_str(s);
    }
    let mut out = String::new();
    let mut i: usize = 0;
    proof {
        assert(s@.skip(0) =~= s@);
    }
    while i < slen
        invariant
            0 <= i <= slen,
            slen == s@.len(),
            plen == pat@.len(),
            plen >= 1,
            out@ + spec_replace(s@.skip(i as int), pat@, rep@) == spec_replace(s@, pat@, rep@),
        decreases slen - i,
    {
        let ghost rem = s@.skip(i as int);
        if plen <= slen - i && region_eq(s, i, pat) {
            assert(rem.subrange(0, pat@.len() as int) =~= s@.subrange(i as int, i + pat@.len()));
            assert(rem.skip(pat@.len() as int) =~= s@.skip(i + plen));
            out.append(rep);
            i += plen;
            assert(out@ + spec_replace(s@.skip(i as int), pat@, rep@) =~= spec_replace(
                s@,
                pat@,
                rep@,
            ));
        } else {
            if plen <= slen - i {
                assert(rem.subrange(0, pat@.len() as int) =~= s@.subrange(
                    i as int,
                    i + pat@.len(),
                ));
            }
            assert(rem.len() < pat@.len() || rem.subrange(0, pat@.len() as int) != pat@);
            assert(rem.drop_first() =~= s@.skip(i + 1));
            assert(rem[0] == s@[i as int]);
            out.push(s.get_char(i));
            i += 1;
            assert(out@ + spec_replace(s@.skip(i as int), pat@, rep@) =~= spec_replace(
                s@,
                pat@,
                rep@,
            ));
        }
    }
    assert(s@.skip(slen as int) =~= Seq::<char>::empty());
    assert(out@ + Seq::<char>::empty() =~= out@);
    out
}

} // verus!
