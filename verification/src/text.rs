//! Byte ranges of a UTF-8 text.
//!
//! A syntax tree addresses its source by byte offsets. The model of a text here
//! is therefore the sequence of its UTF-8 bytes, and a piece of text is the
//! decoding of a range of them that starts and ends between characters.

use vstd::prelude::*;
use vstd::string::StringSliceAdditionalSpecFns;
use vstd::utf8::*;

verus! {

/// The range `start..end` lies in `bytes` and cuts no character in two.
pub open spec fn in_text(bytes: Seq<u8>, start: int, end: int) -> bool {
    &&& 0 <= start <= end <= bytes.len()
    &&& is_char_boundary(bytes, start)
    &&& is_char_boundary(bytes, end)
}

/// The characters that the bytes `start..end` of `bytes` encode.
pub open spec fn text_at(bytes: Seq<u8>, start: int, end: int) -> Seq<char> {
    decode_utf8(bytes.subrange(start, end))
}

/// A character boundary of a text is one of each prefix that reaches it.
pub proof fn lemma_boundary_in_prefix(bytes: Seq<u8>, start: int, end: int)
    requires
        valid_utf8(bytes),
        in_text(bytes, start, end),
    ensures
        valid_utf8(bytes.subrange(0, end)),
        is_char_boundary(bytes.subrange(0, end), start),
{
    let prefix = bytes.subrange(0, end);
    valid_utf8_split(bytes, end);
    if start == end {
        is_char_boundary_start_end_of_seq(prefix);
    } else {
        is_char_boundary_iff_not_is_continuation_byte(bytes, start);
        is_char_boundary_iff_not_is_continuation_byte(prefix, start);
    }
}

/// The bytes of a range that cuts no character are themselves a text.
pub proof fn lemma_range_is_text(bytes: Seq<u8>, start: int, end: int)
    requires
        valid_utf8(bytes),
        in_text(bytes, start, end),
    ensures
        valid_utf8(bytes.subrange(start, end)),
{
    lemma_boundary_in_prefix(bytes, start, end);
    let prefix = bytes.subrange(0, end);
    valid_utf8_split(prefix, start);
    assert(prefix.subrange(start, prefix.len() as int) =~= bytes.subrange(start, end));
}

/// Behind a one-byte character that starts at a boundary lies a boundary.
pub proof fn lemma_boundary_after_ascii(bytes: Seq<u8>, at: int)
    requires
        valid_utf8(bytes),
        0 <= at < bytes.len(),
        is_char_boundary(bytes, at),
        bytes[at] <= 0x7f,
    ensures
        is_char_boundary(bytes, at + 1),
{
    if at + 1 == bytes.len() {
        is_char_boundary_start_end_of_seq(bytes);
    } else {
        let rest = bytes.subrange(at, bytes.len() as int);
        valid_utf8_split(bytes, at);
        assert(rest[0] == bytes[at]);
        assert(length_of_first_scalar(rest) == 1);
        assert(is_char_boundary(pop_first_scalar(rest), 0));
        assert(is_char_boundary(rest, 1));
        is_char_boundary_iff_not_is_continuation_byte(rest, 1);
        assert(rest[1] == bytes[at + 1]);
        is_char_boundary_iff_not_is_continuation_byte(bytes, at + 1);
    }
}

/// In front of a one-byte character that ends at a boundary lies a boundary.
pub proof fn lemma_boundary_before_ascii(bytes: Seq<u8>, at: int)
    requires
        valid_utf8(bytes),
        0 <= at < bytes.len(),
        bytes[at] <= 0x7f,
    ensures
        is_char_boundary(bytes, at),
{
    is_char_boundary_iff_not_is_continuation_byte(bytes, at);
}

/// What `str::trim` leaves of a text.
pub uninterp spec fn trimmed(text: Seq<char>) -> Seq<char>;

/// `str::trim`: the text without the white space at its two ends. The result
/// is named, not spelled out: it is whatever std leaves of these characters.
#[verifier::external_body]
pub(crate) fn trim(text: &str) -> (rest: &str)
    ensures
        rest@ == trimmed(text@),
{
    text.trim()
}

/// Whether `start..end` is a range of `content` that cuts no character.
pub fn is_range_of(content: &str, start: usize, end: usize) -> (ok: bool)
    ensures
        ok == in_text(content.spec_bytes(), start as int, end as int),
{
    start <= end && end <= content.as_bytes().len() && content.is_char_boundary(start)
        && content.is_char_boundary(end)
}

/// The piece of `content` between the byte offsets `start` and `end`.
pub fn slice(content: &str, start: usize, end: usize) -> (piece: &str)
    requires
        in_text(content.spec_bytes(), start as int, end as int),
    ensures
        piece@ == text_at(content.spec_bytes(), start as int, end as int),
        piece.spec_bytes() == content.spec_bytes().subrange(start as int, end as int),
{
    let ghost bytes = content.spec_bytes();
    proof {
        encode_utf8_valid_utf8(content@);
        lemma_boundary_in_prefix(bytes, start as int, end as int);
    }
    let (head, _) = content.split_at(end);
    let (_, piece) = head.split_at(start);
    proof {
        assert(piece.spec_bytes() =~= bytes.subrange(start as int, end as int));
        encode_utf8_decode_utf8(piece@);
    }
    piece
}

/// Whether two strings hold the same characters.
pub fn same_text(left: &str, right: &str) -> (same: bool)
    ensures
        same == (left@ == right@),
{
    let a = left.as_bytes();
    let b = right.as_bytes();
    proof {
        encode_utf8_decode_utf8(left@);
        encode_utf8_decode_utf8(right@);
    }
    if a.len() != b.len() {
        return false;
    }
    let mut i: usize = 0;
    while i < a.len()
        invariant
            i <= a.len(),
            a.len() == b.len(),
            a@ == left.spec_bytes(),
            b@ == right.spec_bytes(),
            forall|k: int| 0 <= k < i ==> a@[k] == b@[k],
        decreases a.len() - i,
    {
        if a[i] != b[i] {
            return false;
        }
        i += 1;
    }
    assert(a@ =~= b@);
    true
}

} // verus!
