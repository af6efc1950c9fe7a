//! Text: decoding bytes into strings, trimming, and rendering numbers.
//!
//! The standard library does the decoding, trimming and formatting. Each of
//! those calls stands behind one small function whose contract is taken on
//! trust; everything built on them is proved.

use vstd::prelude::*;
use vstd::slice::slice_subrange;
use vstd::utf8::{decode_utf8, valid_utf8};

verus! {

/// The character of the decimal digit `d`.
pub open spec fn digit_char(d: nat) -> char {
    seq!['0', '1', '2', '3', '4', '5', '6', '7', '8', '9'][d as int]
}

/// `n` in decimal, without leading zeros.
pub open spec fn decimal(n: nat) -> Seq<char>
    decreases n,
{
    if n < 10 {
        seq![digit_char(n)]
    } else {
        decimal(n / 10).push(digit_char(n % 10))
    }
}

/// The character of the hexadecimal digit `d`, in lower case.
pub open spec fn hex_digit_char(d: nat) -> char {
    seq!['0', '1', '2', '3', '4', '5', '6', '7', '8', '9', 'a', 'b', 'c', 'd', 'e', 'f'][d as int]
}

/// `n` in lower-case hexadecimal, without leading zeros.
pub open spec fn hex(n: nat) -> Seq<char>
    decreases n,
{
    if n < 16 {
        seq![hex_digit_char(n)]
    } else {
        hex(n / 16).push(hex_digit_char(n % 16))
    }
}

/// `s` with zeros in front until it is at least `width` long.
pub open spec fn zero_padded(s: Seq<char>, width: nat) -> Seq<char> {
    if s.len() < width {
        Seq::new((width - s.len()) as nat, |i: int| '0') + s
    } else {
        s
    }
}

/// Whether `c` has the Unicode property `White_Space`.
pub open spec fn is_space(c: char) -> bool {
    let u = c as u32;
    ||| 0x09 <= u <= 0x0D
    ||| u == 0x20
    ||| u == 0x85
    ||| u == 0xA0
    ||| u == 0x1680
    ||| 0x2000 <= u <= 0x200A
    ||| u == 0x2028
    ||| u == 0x2029
    ||| u == 0x202F
    ||| u == 0x205F
    ||| u == 0x3000
}

/// `s` without its leading white space.
pub open spec fn trim_start(s: Seq<char>) -> Seq<char>
    decreases s.len(),
{
    if s.len() > 0 && is_space(s.first()) {
        trim_start(s.drop_first())
    } else {
        s
    }
}

/// `s` without its trailing white space.
pub open spec fn trim_end(s: Seq<char>) -> Seq<char>
    decreases s.len(),
{
    if s.len() > 0 && is_space(s.last()) {
        trim_end(s.drop_last())
    } else {
        s
    }
}

/// `s` without leading and trailing white space.
pub open spec fn trimmed(s: Seq<char>) -> Seq<char> {
    trim_end(trim_start(s))
}

/// Trimming never lengthens a text.
pub proof fn lemma_trimmed_len(s: Seq<char>)
    ensures
        trimmed(s).len() <= s.len(),
{
    lemma_trim_start_len(s);
    lemma_trim_end_len(trim_start(s));
}

proof fn lemma_trim_start_len(s: Seq<char>)
    ensures
        trim_start(s).len() <= s.len(),
    decreases s.len(),
{
    if s.len() > 0 && is_space(s.first()) {
        lemma_trim_start_len(s.drop_first());
    }
}

proof fn lemma_trim_end_len(s: Seq<char>)
    ensures
        trim_end(s).len() <= s.len(),
    decreases s.len(),
{
    if s.len() > 0 && is_space(s.last()) {
        lemma_trim_end_len(s.drop_last());
    }
}

/// The text that lossy UTF-8 decoding makes of `bytes`: well-formed
/// sequences decode to their characters, and each ill-formed stretch becomes
/// U+FFFD. The standard library computes it; see [`lossy_text`].
pub uninterp spec fn utf8_lossy(bytes: Seq<u8>) -> Seq<char>;

/// Trusted: `String::from_utf8_lossy`, with the result made an owned string.
///
/// The result is a function of the bytes alone, named [`utf8_lossy`]. Two
/// facts from the function's documentation are stated beside the name: valid
/// UTF-8 decodes to exactly its characters, and, since every character of
/// the result stands for at least one byte of the input, the result has no
/// more characters than the input has bytes.
#[verifier::external_body]
pub(crate) fn lossy_text(bytes: &[u8]) -> (text: String)
    ensures
        text@ == utf8_lossy(bytes@),
        valid_utf8(bytes@) ==> text@ == decode_utf8(bytes@),
        text@.len() <= bytes@.len(),
{
    String::from_utf8_lossy(bytes).into_owned()
}

/// Trusted: `str::trim`, which returns the slice between the first and the
/// last character that is not `White_Space`.
#[verifier::external_body]
pub(crate) fn trim_text<'a>(s: &'a str) -> (t: &'a str)
    ensures
        t@ == trimmed(s@),
{
    s.trim()
}

/// Trusted: `u64`'s `to_string`, which writes the number in decimal.
#[verifier::external_body]
pub(crate) fn decimal_text(n: u64) -> (text: String)
    ensures
        text@ == decimal(n as nat),
{
    n.to_string()
}

/// Trusted: `format!` with `{:06x}` behind a `#`, which writes the number in
/// lower-case hexadecimal, zero-padded to six digits.
#[verifier::external_body]
pub(crate) fn hex_color_text(rgb: u32) -> (text: String)
    ensures
        text@ == seq!['#'] + zero_padded(hex(rgb as nat), 6),
{
    format!("#{:06x}", rgb)
}

/// The number of bytes of `s` before its first NUL, or its length if it has
/// none.
pub open spec fn first_nul(s: Seq<u8>) -> nat
    decreases s.len(),
{
    if s.len() == 0 || s[0] == 0 {
        0
    } else {
        1 + first_nul(s.drop_first())
    }
}

/// The bytes of `s` before its first NUL; all of `s` if it has none.
pub open spec fn until_nul(s: Seq<u8>) -> Seq<u8> {
    s.take(first_nul(s) as int)
}

/// `first_nul` is the one position with no NUL before it that holds a NUL
/// or is the end.
pub proof fn lemma_first_nul(s: Seq<u8>, n: int)
    requires
        0 <= n <= s.len(),
        forall|i: int| 0 <= i < n ==> s[i] != 0,
        n < s.len() ==> s[n] == 0,
    ensures
        first_nul(s) == n,
    decreases n,
{
    if n > 0 {
        let t = s.drop_first();
        assert forall|i: int| 0 <= i < n - 1 implies t[i] != 0 by {
            assert(t[i] == s[i + 1]);
        }
        lemma_first_nul(t, n - 1);
    }
}

/// Decodes a fixed-width, NUL-terminated string field: the bytes before the
/// first NUL (the whole field if there is none), lossily decoded as UTF-8.
pub fn parse_null_terminated_string(bytes: &[u8]) -> (text: String)
    ensures
        text@ == utf8_lossy(until_nul(bytes@)),
        valid_utf8(until_nul(bytes@)) ==> text@ == decode_utf8(until_nul(bytes@)),
        text@.len() <= bytes@.len(),
{
    let mut end: usize = 0;
    while end < bytes.len() && bytes[end] != 0
        invariant
            end <= bytes@.len(),
            forall|i: int| 0 <= i < end ==> bytes@[i] != 0,
        decreases bytes@.len() - end,
    {
        end = end + 1;
    }
    proof {
        lemma_first_nul(bytes@, end as int);
    }
    let head = slice_subrange(bytes, 0, end);
    lossy_text(head)
}

} // verus!
