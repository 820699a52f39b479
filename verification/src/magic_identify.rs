//! The classifier: an ordered chain of content-sniffing rules. The first rule that
//! matches decides the form; bytes that no rule matches are binary.

use crate::object::{Form, FormView};
use crate::text::is_utf8;
use vstd::prelude::*;
use vstd::slice::slice_subrange;
use vstd::utf8::*;

verus! {

/// The signature of a little-endian TIFF container.
pub open spec fn tiff_little_endian() -> Seq<u8> {
    seq![0x49u8, 0x49u8, 0x2au8, 0x00u8]
}

/// The signature of a big-endian TIFF container.
pub open spec fn tiff_big_endian() -> Seq<u8> {
    seq![0x4du8, 0x4du8, 0x00u8, 0x2au8]
}

/// `bytes` begins with `prefix`.
pub open spec fn starts_with(bytes: Seq<u8>, prefix: Seq<u8>) -> bool {
    prefix.len() <= bytes.len() && bytes.subrange(0, prefix.len() as int) == prefix
}

/// `bytes` begins with one of the two TIFF signatures.
pub open spec fn has_tiff_signature(bytes: Seq<u8>) -> bool {
    starts_with(bytes, tiff_little_endian()) || starts_with(bytes, tiff_big_endian())
}

/// The form of a byte sequence: a photo by signature, else plain text where the
/// whole sequence is well-formed UTF-8, else binary.
pub open spec fn classified(bytes: Seq<u8>) -> FormView {
    if has_tiff_signature(bytes) {
        FormView::Photo
    } else if valid_utf8(bytes) {
        FormView::PlainText
    } else {
        FormView::Binary
    }
}

/// Matches `prefix` at the start of `input` and returns what follows it.
pub fn tag<'a>(prefix: &[u8], input: &'a [u8]) -> (r: Option<&'a [u8]>)
    ensures
        r is Some <==> starts_with(input@, prefix@),
        r matches Some(rest) ==> rest@ == input@.subrange(
            prefix@.len() as int,
            input@.len() as int,
        ),
{
    if input.len() < prefix.len() {
        return None;
    }
    let mut i: usize = 0;
    while i < prefix.len()
        invariant
            i <= prefix.len() <= input.len(),
            forall|j: int| 0 <= j < i ==> input@[j] == prefix@[j],
        decreases prefix.len() - i,
    {
        if input[i] != prefix[i] {
            proof {
                assert(input@.subrange(0, prefix@.len() as int)[i as int] == input@[i as int]);
            }
            return None;
        }
        i = i + 1;
    }
    proof {
        assert(input@.subrange(0, prefix@.len() as int) =~= prefix@);
    }
    Some(slice_subrange(input, prefix.len(), input.len()))
}

/// The TIFF rule: a photo where the input begins with either TIFF signature. Only
/// the four signature bytes are looked at; what follows them is handed back.
pub fn magic_tiff(input: &[u8]) -> (r: Option<(&[u8], Form)>)
    ensures
        r is Some <==> has_tiff_signature(input@),
        r matches Some((rest, form)) ==> form@ == FormView::Photo && rest@ == input@.subrange(
            4,
            input@.len() as int,
        ),
{
    let little: [u8; 4] = [0x49, 0x49, 0x2a, 0x00];
    let big: [u8; 4] = [0x4d, 0x4d, 0x00, 0x2a];
    proof {
        assert(little@ =~= tiff_little_endian());
        assert(big@ =~= tiff_big_endian());
    }
    match tag(little.as_slice(), input) {
        Some(rest) => Some((rest, Form::Photo)),
        None => match tag(big.as_slice(), input) {
            Some(rest) => Some((rest, Form::Photo)),
            None => None,
        },
    }
}

/// The photo rule. TIFF is the one photo container that is recognised.
pub fn magic_photo(input: &[u8]) -> (r: Option<(&[u8], Form)>)
    ensures
        r is Some <==> has_tiff_signature(input@),
        r matches Some((rest, form)) ==> form@ == FormView::Photo && rest@ == input@.subrange(
            4,
            input@.len() as int,
        ),
{
    magic_tiff(input)
}

/// The plain-text rule: matches where the whole input is well-formed UTF-8, which
/// the empty input is, and consumes all of it.
pub fn magic_plaintext(input: &[u8]) -> (r: Option<(&[u8], Form)>)
    ensures
        r is Some <==> valid_utf8(input@),
        r matches Some((rest, form)) ==> form@ == FormView::PlainText && rest@.len() == 0,
{
    if is_utf8(input) {
        Some((slice_subrange(input, input.len(), input.len()), Form::PlainText))
    } else {
        None
    }
}

/// Classifies a byte buffer. The photo rule is tried first, then the plain-text
/// rule; input that neither matches is binary. Every input has a form.
pub fn magic_identify(input: &[u8]) -> (form: Form)
    ensures
        form@ == classified(input@),
{
    match magic_photo(input) {
        Some((_, form)) => form,
        None => match magic_plaintext(input) {
            Some((_, form)) => form,
            None => Form::Binary,
        },
    }
}

/// Bytes that begin with a TIFF signature are a photo, whatever follows.
pub proof fn lemma_signature_is_photo(bytes: Seq<u8>)
    requires
        starts_with(bytes, tiff_little_endian()) || starts_with(bytes, tiff_big_endian()),
    ensures
        classified(bytes) == FormView::Photo,
{
}

/// The empty byte sequence is plain text.
pub proof fn lemma_empty_is_plain_text()
    ensures
        classified(Seq::<u8>::empty()) == FormView::PlainText,
{
}

/// The UTF-8 encoding of any text that does not begin with a TIFF signature is
/// plain text.
pub proof fn lemma_text_is_plain_text(text: Seq<char>)
    requires
        !has_tiff_signature(encode_utf8(text)),
    ensures
        classified(encode_utf8(text)) == FormView::PlainText,
{
    encode_utf8_valid_utf8(text);
}

/// Bytes that are not well-formed UTF-8 and do not begin with a TIFF signature are
/// binary.
pub proof fn lemma_malformed_is_binary(bytes: Seq<u8>)
    requires
        !valid_utf8(bytes),
        !has_tiff_signature(bytes),
    ensures
        classified(bytes) == FormView::Binary,
{
}

/// Classification never yields the empty form nor any form but these three.
pub proof fn lemma_classified_forms(bytes: Seq<u8>)
    ensures
        classified(bytes) == FormView::Photo || classified(bytes) == FormView::PlainText
            || classified(bytes) == FormView::Binary,
{
}

} // verus!
