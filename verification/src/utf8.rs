//! Bytes read as UTF-8 text.
use vstd::prelude::*;
use vstd::utf8::{
    decode_utf8, encode_scalar, encode_utf8, is_char_boundary, is_continuation_byte, valid_utf8,
};

verus! {

/// What `String::from_utf8_lossy` makes of a byte string.
pub uninterp spec fn lossy_text(bytes: Seq<u8>) -> Seq<char>;

/// Calls `String::from_utf8_lossy`. The contract names its result, and says that valid UTF-8
/// is decoded as it stands; by which characters the invalid parts are replaced is left to
/// the name.
#[verifier::external_body]
pub(crate) fn decode_lossy(bytes: &[u8]) -> (text: String)
    ensures
        text@ == lossy_text(bytes@),
        valid_utf8(bytes@) ==> text@ == decode_utf8(bytes@),
{
    String::from_utf8_lossy(bytes).into_owned()
}

/// Calls `String::from_utf8`. The contract says that valid UTF-8, and nothing else, is
/// decoded.
#[verifier::external_body]
pub(crate) fn decode_strict(bytes: Vec<u8>) -> (text: Option<String>)
    ensures
        text is Some <==> valid_utf8(bytes@),
        text matches Some(t) ==> t@ == decode_utf8(bytes@),
{
    String::from_utf8(bytes).ok()
}

/// A part of valid UTF-8 that is cut out at single-byte characters is valid UTF-8.
pub proof fn lemma_cut_is_valid(bytes: Seq<u8>, from: int, to: int)
    requires
        valid_utf8(bytes),
        0 <= from <= to <= bytes.len(),
        from == 0 || bytes[from - 1] < 0x80,
        to == bytes.len() || bytes[to] < 0x80,
    ensures
        valid_utf8(bytes.subrange(from, to)),
{
    broadcast use {
        vstd::utf8::is_char_boundary_start_end_of_seq,
        vstd::utf8::is_char_boundary_iff_not_is_continuation_byte,
    };
    if to < bytes.len() {
        assert(!is_continuation_byte(bytes[to]));
        assert(is_char_boundary(bytes, to));
    } else {
        assert(is_char_boundary(bytes, bytes.len() as int));
    }
    vstd::utf8::valid_utf8_split(bytes, to);
    let head = bytes.subrange(0, to);
    if from > 0 {
        assert(head[from - 1] < 0x80);
        assert(!is_continuation_byte(head[from - 1]));
        assert(is_char_boundary(head, from - 1));
        vstd::utf8::valid_utf8_split(head, from - 1);
        let tail = head.subrange(from - 1, to);
        assert(tail[0] < 0x80);
        assert(vstd::utf8::pop_first_scalar(tail) =~= bytes.subrange(from, to));
    } else {
        assert(head =~= bytes.subrange(from, to));
    }
}

/// A character beyond ASCII is encoded by bytes beyond ASCII, an ASCII character by itself.
proof fn lemma_scalar_bytes(v: u32)
    requires
        vstd::utf8::is_scalar(v),
    ensures
        v < 0x80 ==> encode_scalar(v) == seq![v as u8],
        v >= 0x80 ==> forall|k: int|
            0 <= k < encode_scalar(v).len() ==> #[trigger] encode_scalar(v)[k] >= 0x80,
{
    assert(v < 0x80 ==> (v & 0x7F) as u8 == v as u8) by (bit_vector);
    assert(0xC0 | ((v >> 6) & 0x1F) as u8 >= 0x80) by (bit_vector);
    assert(0xE0 | ((v >> 12) & 0x0F) as u8 >= 0x80) by (bit_vector);
    assert(0xF0 | ((v >> 18) & 0x7) as u8 >= 0x80) by (bit_vector);
    assert(0x80 | (v & 0x3F) as u8 >= 0x80) by (bit_vector);
    assert(0x80 | ((v >> 6) & 0x3F) as u8 >= 0x80) by (bit_vector);
    assert(0x80 | ((v >> 12) & 0x3F) as u8 >= 0x80) by (bit_vector);
}

/// An ASCII byte stands in the encoding of a text exactly where its character stands in the
/// text.
pub proof fn lemma_encoding_holds_ascii(text: Seq<char>, c: char)
    requires
        (c as u32) < 0x80,
    ensures
        encode_utf8(text).contains(c as u8) <==> text.contains(c),
    decreases text.len(),
{
    if text.len() > 0 {
        let rest = text.drop_first();
        let head = encode_scalar(text[0] as u32);
        lemma_encoding_holds_ascii(rest, c);
        vstd::utf8::char_is_scalar(text[0]);
        lemma_scalar_bytes(text[0] as u32);
        let whole = encode_utf8(text);
        assert(whole == head + encode_utf8(rest));
        if text.contains(c) {
            let i = choose|i: int| 0 <= i < text.len() && text[i] == c;
            if i == 0 {
                assert(whole[0] == c as u8);
            } else {
                assert(rest[i - 1] == c);
                let j = choose|j: int|
                    0 <= j < encode_utf8(rest).len() && encode_utf8(rest)[j] == c as u8;
                assert(whole[head.len() + j] == c as u8);
            }
        }
        if whole.contains(c as u8) {
            let j = choose|j: int| 0 <= j < whole.len() && whole[j] == c as u8;
            if j < head.len() {
                assert(head[j] == c as u8);
                let v = text[0] as u32;
                assert(v < 0x80);
                assert(head[j] == v as u8);
                assert(v == c as u32);
                vstd::utf8::char_u32_cast(text[0], v);
                vstd::utf8::char_u32_cast(c, v);
            } else {
                assert(encode_utf8(rest)[j - head.len()] == c as u8);
                let i = choose|i: int| 0 <= i < rest.len() && rest[i] == c;
                assert(text[i + 1] == c);
            }
        }
    }
}

/// Two texts with the same encoding are the same.
pub proof fn lemma_encoding_is_injective(a: Seq<char>, b: Seq<char>)
    requires
        encode_utf8(a) == encode_utf8(b),
    ensures
        a == b,
{
    vstd::utf8::encode_utf8_decode_utf8(a);
    vstd::utf8::encode_utf8_decode_utf8(b);
}

} // verus!
