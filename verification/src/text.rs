//! Text over byte buffers: UTF-8 decoding, substring search, hexadecimal and
//! decimal digits, and escaping of bytes that are not text.

use vstd::prelude::*;
use vstd::slice::slice_subrange;
use vstd::string::StringExecFns;
use vstd::utf8::*;

verus! {

/// `n` is the length of the longest prefix of `bytes` that is valid UTF-8.
pub open spec fn is_longest_valid_prefix(bytes: Seq<u8>, n: int) -> bool {
    &&& 0 <= n <= bytes.len()
    &&& valid_utf8(bytes.subrange(0, n))
    &&& forall|m: int| n < m <= bytes.len() ==> !valid_utf8(#[trigger] bytes.subrange(0, m))
}

/// The length of the longest prefix of `bytes` that is valid UTF-8.
pub open spec fn longest_valid_prefix(bytes: Seq<u8>) -> int {
    choose|n: int| is_longest_valid_prefix(bytes, n)
}

/// `needle` occurs in `hay` starting at index `i`.
pub open spec fn occurs_at(hay: Seq<char>, needle: Seq<char>, i: int) -> bool {
    &&& 0 <= i
    &&& i + needle.len() <= hay.len()
    &&& hay.subrange(i, i + needle.len()) == needle
}

/// `needle` occurs somewhere in `hay` as a contiguous run of characters.
pub open spec fn contains_text(hay: Seq<char>, needle: Seq<char>) -> bool {
    exists|i: int| occurs_at(hay, needle, i)
}

/// The sixteen lowercase hexadecimal digits, in order.
pub open spec fn hex_digits() -> Seq<char> {
    seq!['0', '1', '2', '3', '4', '5', '6', '7', '8', '9', 'a', 'b', 'c', 'd', 'e', 'f']
}

/// The lowercase hexadecimal digit for a value below sixteen.
pub open spec fn hex_digit(n: int) -> char
    recommends
        0 <= n < 16,
{
    hex_digits()[n]
}

/// Two lowercase hexadecimal digits per byte, high nibble first.
pub open spec fn hex_text(bytes: Seq<u8>) -> Seq<char> {
    Seq::new(
        2 * bytes.len(),
        |i: int| if i % 2 == 0 {
            hex_digit(bytes[i / 2] as int / 16)
        } else {
            hex_digit(bytes[i / 2] as int % 16)
        },
    )
}

/// The decimal digits of a natural number, most significant first.
pub open spec fn decimal_nat(n: nat) -> Seq<char>
    decreases n,
{
    if n < 10 {
        seq![hex_digit(n as int)]
    } else {
        decimal_nat(n / 10).push(hex_digit(n as int % 10))
    }
}

/// The decimal notation of an integer, with a leading minus sign when negative.
pub open spec fn decimal(i: int) -> Seq<char> {
    if i < 0 {
        seq!['-'] + decimal_nat((-i) as nat)
    } else {
        decimal_nat(i as nat)
    }
}

/// The ASCII escape of one byte: the usual two-character escapes for tab, carriage
/// return, line feed, both quotes and the backslash; printable ASCII as it is; and
/// `\x` with two lowercase hexadecimal digits for everything else.
pub open spec fn escaped_byte(b: u8) -> Seq<char> {
    if b == 0x09 {
        seq!['\\', 't']
    } else if b == 0x0d {
        seq!['\\', 'r']
    } else if b == 0x0a {
        seq!['\\', 'n']
    } else if b == 0x27 {
        seq!['\\', '\'']
    } else if b == 0x22 {
        seq!['\\', '"']
    } else if b == 0x5c {
        seq!['\\', '\\']
    } else if 0x20 <= b <= 0x7e {
        seq![b as char]
    } else {
        seq!['\\', 'x', hex_digit(b as int / 16), hex_digit(b as int % 16)]
    }
}

/// `text` with every backslash written twice.
pub open spec fn doubled_backslashes(text: Seq<char>) -> Seq<char>
    decreases text.len(),
{
    if text.len() == 0 {
        seq![]
    } else if text.last() == '\\' {
        doubled_backslashes(text.drop_last()).push('\\').push('\\')
    } else {
        doubled_backslashes(text.drop_last()).push(text.last())
    }
}

/// How a byte buffer that need not be text is shown to a reader. Where the whole
/// of `bytes` is well-formed UTF-8 it is the decoded text with every backslash
/// doubled. Otherwise the longest well-formed prefix is decoded and written as it
/// is, then a backslash and the ASCII escape of the byte that ended the prefix, and
/// the bytes after that one are rendered in the same way.
pub open spec fn readable(bytes: Seq<u8>) -> Seq<char>
    decreases bytes.len(),
{
    if valid_utf8(bytes) {
        doubled_backslashes(decode_utf8(bytes))
    } else {
        let n = longest_valid_prefix(bytes);
        if 0 <= n < bytes.len() {
            decode_utf8(bytes.subrange(0, n)) + seq!['\\'] + escaped_byte(bytes[n]) + readable(
                bytes.subrange(n + 1, bytes.len() as int),
            )
        } else {
            seq![]
        }
    }
}

proof fn lemma_valid_prefix_below(bytes: Seq<u8>, k: int)
    requires
        0 <= k <= bytes.len(),
        forall|m: int| k < m <= bytes.len() ==> !valid_utf8(#[trigger] bytes.subrange(0, m)),
    ensures
        exists|n: int| is_longest_valid_prefix(bytes, n),
    decreases k,
{
    if valid_utf8(bytes.subrange(0, k)) {
        assert(is_longest_valid_prefix(bytes, k));
    } else {
        assert(bytes.subrange(0, 0).len() == 0);
        lemma_valid_prefix_below(bytes, k - 1);
    }
}

/// Every byte sequence has exactly one longest well-formed prefix, and that prefix
/// is the whole sequence exactly when the sequence is well-formed.
pub proof fn lemma_longest_valid_prefix(bytes: Seq<u8>)
    ensures
        is_longest_valid_prefix(bytes, longest_valid_prefix(bytes)),
        forall|n: int| is_longest_valid_prefix(bytes, n) ==> n == longest_valid_prefix(bytes),
        valid_utf8(bytes) <==> longest_valid_prefix(bytes) == bytes.len(),
{
    lemma_valid_prefix_below(bytes, bytes.len() as int);
    assert(bytes.subrange(0, bytes.len() as int) =~= bytes);
}

/// The byte that ends the longest well-formed prefix of a malformed sequence is
/// never an ASCII byte, so that its escape is always `\x` and two digits.
pub proof fn lemma_offending_byte(bytes: Seq<u8>)
    requires
        !valid_utf8(bytes),
    ensures
        0 <= longest_valid_prefix(bytes) < bytes.len(),
        bytes[longest_valid_prefix(bytes)] >= 0x80,
        escaped_byte(bytes[longest_valid_prefix(bytes)]) == seq![
            '\\',
            'x',
            hex_digit(bytes[longest_valid_prefix(bytes)] as int / 16),
            hex_digit(bytes[longest_valid_prefix(bytes)] as int % 16),
        ],
{
    lemma_longest_valid_prefix(bytes);
    let n = longest_valid_prefix(bytes);
    let b = bytes[n];
    if b < 0x80 {
        let one = seq![b];
        assert(valid_utf8(one)) by {
            reveal_with_fuel(valid_utf8, 2);
            assert(pop_first_scalar(one) =~= Seq::<u8>::empty());
        }
        valid_utf8_concat(bytes.subrange(0, n), one);
        assert(bytes.subrange(0, n) + one =~= bytes.subrange(0, n + 1));
    }
}

/// The empty buffer renders as the empty text.
pub proof fn lemma_readable_empty()
    ensures
        readable(Seq::<u8>::empty()) == Seq::<char>::empty(),
{
    assert(decode_utf8(Seq::<u8>::empty()) =~= Seq::<char>::empty());
}

/// The encoding of a text renders as that text with its backslashes doubled.
pub proof fn lemma_readable_text(text: Seq<char>)
    ensures
        readable(encode_utf8(text)) == doubled_backslashes(text),
{
    encode_utf8_valid_utf8(text);
    encode_utf8_decode_utf8(text);
}

/// The text of the encoding of a text is that text.
pub proof fn lemma_text_of_encoding(text: Seq<char>)
    ensures
        text_of(encode_utf8(text)) == text,
{
    encode_utf8_valid_utf8(text);
    encode_utf8_decode_utf8(text);
}

/// The error of a failed UTF-8 decoding, carried through as an opaque value.
#[verifier::external_type_specification]
#[verifier::external_body]
pub struct ExUtf8Error(core::str::Utf8Error);

/// What `Utf8Error::valid_up_to` returns for a given error value.
pub uninterp spec fn utf8_error_valid_up_to(e: core::str::Utf8Error) -> nat;

/// What `String::from_utf8_lossy` decodes a byte sequence to.
pub uninterp spec fn lossy_text(bytes: Seq<u8>) -> Seq<char>;

/// The text of a byte sequence: what it decodes to where it is well-formed UTF-8,
/// and its lossy decoding where it is not.
pub open spec fn text_of(bytes: Seq<u8>) -> Seq<char> {
    if valid_utf8(bytes) {
        decode_utf8(bytes)
    } else {
        lossy_text(bytes)
    }
}

/// `core::str::from_utf8` succeeds exactly on well-formed UTF-8 and then yields the
/// decoded text; on failure the error's `valid_up_to` is the length of the longest
/// well-formed prefix, as the standard library documents.
pub assume_specification[ core::str::from_utf8 ](v: &[u8]) -> (r: Result<
    &str,
    core::str::Utf8Error,
>)
    ensures
        r is Ok <==> valid_utf8(v@),
        r matches Ok(s) ==> s@ == decode_utf8(v@),
        r matches Err(e) ==> is_longest_valid_prefix(v@, utf8_error_valid_up_to(e) as int),
;

/// `Utf8Error::valid_up_to` reads the index stored in the error.
pub assume_specification[ core::str::Utf8Error::valid_up_to ](e: &core::str::Utf8Error) -> (n:
    usize)
    ensures
        n == utf8_error_valid_up_to(*e),
;

/// `String::push` appends one character.
pub assume_specification[ String::push ](s: &mut String, ch: char)
    ensures
        final(s)@ == old(s)@.push(ch),
;

/// `String::from_utf8_lossy`, with the result made an owned `String`. On well-formed
/// UTF-8 the standard library documents that the text comes back unchanged.
#[verifier::external_body]
pub(crate) fn decode_lossy(bytes: &[u8]) -> (s: String)
    ensures
        s@ == lossy_text(bytes@),
        s@ == text_of(bytes@),
{
    String::from_utf8_lossy(bytes).into_owned()
}

/// `str::contains` with a string pattern: whether `needle` is a substring of `hay`.
#[verifier::external_body]
pub(crate) fn str_contains(hay: &str, needle: &str) -> (r: bool)
    ensures
        r == contains_text(hay@, needle@),
{
    hay.contains(needle)
}

/// `hex::encode`: each byte becomes two lowercase hexadecimal digits.
#[verifier::external_body]
pub(crate) fn hex_encode(bytes: &[u8]) -> (s: String)
    ensures
        s@ == hex_text(bytes@),
{
    hex::encode(bytes)
}

/// Whether `bytes` is well-formed UTF-8.
pub fn is_utf8(bytes: &[u8]) -> (r: bool)
    ensures
        r == valid_utf8(bytes@),
{
    core::str::from_utf8(bytes).is_ok()
}

/// The lowercase hexadecimal digit of a value below sixteen.
pub fn hex_digit_of(n: u8) -> (c: char)
    requires
        n < 16,
    ensures
        c == hex_digit(n as int),
{
    if n < 10 {
        (0x30u8 + n) as char
    } else {
        (0x61u8 + (n - 10)) as char
    }
}

/// The ASCII escape of one byte.
pub fn escape_byte(b: u8) -> (s: String)
    ensures
        s@ == escaped_byte(b),
{
    let mut s = String::new();
    if b == 0x09 {
        s.push('\\');
        s.push('t');
    } else if b == 0x0d {
        s.push('\\');
        s.push('r');
    } else if b == 0x0a {
        s.push('\\');
        s.push('n');
    } else if b == 0x27 {
        s.push('\\');
        s.push('\'');
    } else if b == 0x22 {
        s.push('\\');
        s.push('"');
    } else if b == 0x5c {
        s.push('\\');
        s.push('\\');
    } else if 0x20 <= b && b <= 0x7e {
        s.push(b as char);
    } else {
        s.push('\\');
        s.push('x');
        s.push(hex_digit_of(b / 16));
        s.push(hex_digit_of(b % 16));
    }
    s
}

/// Appends the decimal digits of `n` to `out`.
fn push_decimal_nat(out: &mut String, n: u64)
    ensures
        final(out)@ == old(out)@ + decimal_nat(n as nat),
    decreases n,
{
    if n >= 10 {
        push_decimal_nat(out, n / 10);
    }
    out.push(hex_digit_of((n % 10) as u8));
    assert(out@ =~= old(out)@ + decimal_nat(n as nat));
}

/// The decimal notation of `i`.
pub fn decimal_string(i: i64) -> (s: String)
    ensures
        s@ == decimal(i as int),
{
    let mut s = String::new();
    if i < 0 {
        s.push('-');
        let magnitude: u64 = (-(i + 1)) as u64 + 1;
        push_decimal_nat(&mut s, magnitude);
    } else {
        push_decimal_nat(&mut s, i as u64);
    }
    assert(s@ =~= decimal(i as int));
    s
}

/// Appends `text` to `out`, writing every backslash twice.
pub fn push_doubled(out: &mut String, text: &str)
    ensures
        final(out)@ == old(out)@ + doubled_backslashes(text@),
{
    let ghost start = out@;
    for c in it: text.chars()
        invariant
            it.seq() == text@,
            out@ == start + doubled_backslashes(text@.take(it.index())),
    {
        proof {
            let k = it.index();
            assert(text@.take(k + 1).drop_last() =~= text@.take(k));
            assert(text@.take(k + 1).last() == c);
        }
        if c == '\\' {
            out.push('\\');
            out.push('\\');
        } else {
            out.push(c);
        }
        assert(out@ =~= start + doubled_backslashes(text@.take(it.index() + 1)));
    }
    assert(text@.take(text@.len() as int) =~= text@);
}

/// Renders `data` for display: text is kept, with its backslashes doubled where
/// the rest of the buffer is well-formed, and each byte that breaks the UTF-8
/// encoding is written as a backslash followed by its ASCII escape.
pub fn readablificate(data: &Vec<u8>) -> (string: String)
    ensures
        string@ == readable(data@),
{
    let mut string = String::new();
    let mut position: usize = 0;
    let mut done = false;
    proof {
        assert(data@.subrange(0, data.len() as int) =~= data@);
        assert(string@ + readable(data@) =~= readable(data@));
    }
    while !done
        invariant
            position <= data.len(),
            !done ==> string@ + readable(data@.subrange(position as int, data.len() as int))
                == readable(data@),
            done ==> string@ == readable(data@),
        decreases data.len() - position, if done { 0int } else { 1int },
    {
        let rest = slice_subrange(data.as_slice(), position, data.len());
        proof {
            lemma_longest_valid_prefix(rest@);
        }
        match core::str::from_utf8(rest) {
            Ok(text) => {
                push_doubled(&mut string, text);
                done = true;
            },
            Err(e) => {
                let offset = e.valid_up_to();
                let prefix = slice_subrange(rest, 0, offset);
                match core::str::from_utf8(prefix) {
                    Ok(text) => {
                        string.append(text);
                    },
                    // The prefix is well-formed: decoding it does not fail.
                    Err(_) => {},
                }
                string.push('\\');
                let escape = escape_byte(rest[offset]);
                string.append(escape.as_str());
                proof {
                    assert(rest@.subrange(offset + 1, rest@.len() as int) =~= data@.subrange(
                        position + offset + 1,
                        data.len() as int,
                    ));
                }
                position = position + offset + 1;
            },
        }
    }
    string
}

} // verus!
