//! Building text: numbers in decimal and in hexadecimal, and the pieces
//! that the descriptions of routes and packets are made of.

use vstd::prelude::*;
use vstd::string::StrSliceExecFns;

verus! {

/// `String::push` of the standard library: the character is added at the
/// end of the text.
pub assume_specification[ String::push ](text: &mut String, c: char)
    ensures
        final(text)@ == old(text)@.push(c),
;

/// The character of a digit below sixteen: `0` to `9`, then `a` to `f`.
pub open spec fn digit(d: int) -> char {
    if d < 10 {
        ((d + 48) as u8) as char
    } else {
        ((d + 87) as u8) as char
    }
}

/// A number in decimal, without leading zeros.
pub open spec fn decimal(n: nat) -> Seq<char>
    decreases n,
{
    if n < 10 {
        seq![digit(n as int)]
    } else {
        decimal(n / 10).push(digit((n % 10) as int))
    }
}

/// A byte as two hexadecimal digits, in lower case.
pub open spec fn hex_byte(b: u8) -> Seq<char> {
    seq![digit(b as int / 16), digit(b as int % 16)]
}

/// The bytes of `bytes`, each as two hexadecimal digits.
pub open spec fn hex(bytes: Seq<u8>) -> Seq<char>
    decreases bytes.len(),
{
    if bytes.len() == 0 {
        Seq::empty()
    } else {
        hex(bytes.drop_last()) + hex_byte(bytes.last())
    }
}

/// `i` is the place of the first character of `s` that is no space.
pub open spec fn is_first_mark(s: Seq<char>, i: int) -> bool {
    &&& 0 <= i < s.len()
    &&& s[i] != ' '
    &&& forall|j: int| 0 <= j < i ==> s[j] == ' '
}

/// `i` is the place of the last character of `s` that is no space.
pub open spec fn is_last_mark(s: Seq<char>, i: int) -> bool {
    &&& 0 <= i < s.len()
    &&& s[i] != ' '
    &&& forall|j: int| i < j < s.len() ==> s[j] == ' '
}

/// The text without the spaces at its two ends.
pub open spec fn trimmed(s: Seq<char>) -> Seq<char> {
    if exists|i: int| is_first_mark(s, i) {
        let first = choose|i: int| is_first_mark(s, i);
        let last = choose|i: int| is_last_mark(s, i);
        s.subrange(first, last + 1)
    } else {
        Seq::empty()
    }
}

fn digit_char(d: u8) -> (c: char)
    requires
        d < 16,
    ensures
        c == digit(d as int),
{
    if d < 10 {
        (d + 48) as char
    } else {
        (d + 87) as char
    }
}

/// Adds `n` in decimal to the end of `out`.
pub fn push_decimal(out: &mut Vec<char>, n: u128)
    ensures
        final(out)@ == old(out)@ + decimal(n as nat),
    decreases n,
{
    if n >= 10 {
        push_decimal(out, n / 10);
    }
    out.push(digit_char((n % 10) as u8));
    assert(out@ =~= old(out)@ + decimal(n as nat));
}

/// Adds `b` as two hexadecimal digits to the end of `out`.
pub fn push_hex_byte(out: &mut Vec<char>, b: u8)
    ensures
        final(out)@ == old(out)@ + hex_byte(b),
{
    out.push(digit_char(b / 16));
    out.push(digit_char(b % 16));
    assert(out@ =~= old(out)@ + hex_byte(b));
}

/// Adds the characters of `s` to the end of `out`.
pub fn push_str(out: &mut Vec<char>, s: &str)
    ensures
        final(out)@ == old(out)@ + s@,
{
    let n = s.unicode_len();
    let mut i: usize = 0;
    while i < n
        invariant
            n == s@.len(),
            i <= n,
            out@ == old(out)@ + s@.take(i as int),
        decreases n - i,
    {
        out.push(s.get_char(i));
        assert(s@.take(i + 1) =~= s@.take(i as int).push(s@[i as int]));
        assert(out@ =~= old(out)@ + s@.take(i + 1));
        i += 1;
    }
    assert(s@.take(n as int) =~= s@);
}

/// Adds the characters of `s` to the end of `out`.
pub fn push_chars(out: &mut Vec<char>, s: &Vec<char>)
    ensures
        final(out)@ == old(out)@ + s@,
{
    let mut i: usize = 0;
    while i < s.len()
        invariant
            i <= s@.len(),
            out@ == old(out)@ + s@.take(i as int),
        decreases s@.len() - i,
    {
        out.push(s[i]);
        assert(s@.take(i + 1) =~= s@.take(i as int).push(s@[i as int]));
        assert(out@ =~= old(out)@ + s@.take(i + 1));
        i += 1;
    }
    assert(s@.take(s@.len() as int) =~= s@);
}

/// The characters of a text.
pub fn chars_of(s: &str) -> (r: Vec<char>)
    ensures
        r@ == s@,
{
    let mut out: Vec<char> = Vec::new();
    push_str(&mut out, s);
    assert(out@ =~= s@);
    out
}

/// The text made of `chars`.
pub fn text_of(chars: &Vec<char>) -> (r: String)
    ensures
        r@ == chars@,
{
    let mut text = String::new();
    let mut i: usize = 0;
    while i < chars.len()
        invariant
            i <= chars@.len(),
            text@ == chars@.take(i as int),
        decreases chars@.len() - i,
    {
        text.push(chars[i]);
        assert(chars@.take(i + 1) =~= chars@.take(i as int).push(chars@[i as int]));
        i += 1;
    }
    assert(chars@.take(chars@.len() as int) =~= chars@);
    text
}

/// The characters of `s` without the spaces at its two ends.
pub fn trim(s: &Vec<char>) -> (r: Vec<char>)
    ensures
        r@ == trimmed(s@),
{
    let n = s.len();
    let mut first: usize = 0;
    while first < n && s[first] == ' '
        invariant
            first <= n == s@.len(),
            forall|j: int| 0 <= j < first ==> s@[j] == ' ',
        decreases n - first,
    {
        first += 1;
    }
    let mut out: Vec<char> = Vec::new();
    if first == n {
        assert(forall|i: int| !is_first_mark(s@, i));
        return out;
    }
    let mut last: usize = n - 1;
    while s[last] == ' '
        invariant
            first <= last < n == s@.len(),
            s@[first as int] != ' ',
            forall|j: int| last < j < n ==> s@[j] == ' ',
        decreases last,
    {
        last -= 1;
    }
    proof {
        assert(is_first_mark(s@, first as int));
        assert(is_last_mark(s@, last as int));
        let chosen_first = choose|i: int| is_first_mark(s@, i);
        let chosen_last = choose|i: int| is_last_mark(s@, i);
        assert(chosen_first == first);
        assert(chosen_last == last);
    }
    let mut i: usize = first;
    while i <= last
        invariant
            first <= i <= last + 1 <= n == s@.len(),
            out@ == s@.subrange(first as int, i as int),
        decreases last + 1 - i,
    {
        out.push(s[i]);
        assert(s@.subrange(first as int, i + 1) =~= s@.subrange(first as int, i as int).push(
            s@[i as int],
        ));
        i += 1;
    }
    out
}

} // verus!
