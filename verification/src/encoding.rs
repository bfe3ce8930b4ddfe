//! Text from bytes, and bytes from text.

use vstd::prelude::*;
use vstd::utf8::{
    char_u32_cast, decode_utf8, encode_scalar, encode_utf8, is_ascii_chars,
    is_ascii_chars_encode_utf8, valid_utf8,
};

verus! {

/// The text that `String::from_utf8_lossy` makes of bytes.
pub uninterp spec fn lossy_text(bytes: Seq<u8>) -> Seq<char>;

/// `std::str::from_utf8`: succeeds exactly on valid UTF-8, and then gives the
/// text that the bytes encode.
#[verifier::external_body]
pub(crate) fn utf8_text(bytes: &[u8]) -> (r: Option<&str>)
    ensures
        r is Some <==> valid_utf8(bytes@),
        r matches Some(text) ==> text@ == decode_utf8(bytes@),
{
    std::str::from_utf8(bytes).ok()
}

/// `String::from_utf8_lossy`: gives the text that valid UTF-8 encodes, and has
/// the replacement character where the bytes are not valid. So no ASCII
/// character comes out that did not go in. Where replacement characters stand
/// in for invalid bytes is left to the name [`lossy_text`].
#[verifier::external_body]
pub(crate) fn utf8_lossy_text(bytes: &[u8]) -> (r: String)
    ensures
        r@ == lossy_text(bytes@),
        valid_utf8(bytes@) ==> r@ == decode_utf8(bytes@),
        forall|i: int|
            0 <= i < r@.len() && (#[trigger] r@[i] as u32) < 0x80 ==> bytes@.contains(r@[i] as u8),
{
    String::from_utf8_lossy(bytes).into_owned()
}

/// The bytes of two texts together are those of each, one after the other.
pub proof fn lemma_encode_concat(a: Seq<char>, b: Seq<char>)
    ensures
        encode_utf8(a + b) == encode_utf8(a) + encode_utf8(b),
    decreases a.len(),
{
    if a.len() == 0 {
        assert(a + b =~= b);
        assert(encode_utf8(a) + encode_utf8(b) =~= encode_utf8(b));
    } else {
        lemma_encode_concat(a.drop_first(), b);
        assert((a + b).drop_first() =~= a.drop_first() + b);
        assert(encode_utf8(a + b) =~= encode_utf8(a) + encode_utf8(b));
    }
}

/// A text without a given ASCII character has no byte that stands for it.
pub proof fn lemma_encode_lacks(s: Seq<char>, c: char, byte: u8)
    requires
        c as u32 == byte,
        byte < 0x80,
        !s.contains(c),
    ensures
        !encode_utf8(s).contains(byte),
    decreases s.len(),
{
    if s.len() > 0 {
        let first = encode_scalar(s[0] as u32);
        let rest = encode_utf8(s.drop_first());
        assert(s.contains(s[0]));
        assert forall|d: char| s.drop_first().contains(d) implies s.contains(d) by {
            let k = choose|k: int| 0 <= k < s.drop_first().len() && s.drop_first()[k] == d;
            assert(s[k + 1] == d);
        }
        lemma_encode_lacks(s.drop_first(), c, byte);
        lemma_scalar_lacks(s[0], c, byte);
        if encode_utf8(s).contains(byte) {
            let k = choose|k: int| 0 <= k < encode_utf8(s).len() && encode_utf8(s)[k] == byte;
            if k < first.len() {
                assert(first.contains(first[k]));
            } else {
                assert(rest.contains(rest[k - first.len()]));
            }
        }
    }
}

proof fn lemma_scalar_lacks(d: char, c: char, byte: u8)
    requires
        c as u32 == byte,
        byte < 0x80,
        d != c,
    ensures
        !encode_scalar(d as u32).contains(byte),
{
    let u = d as u32;
    char_u32_cast(d, u);
    char_u32_cast(c, byte as u32);
    assert(u != byte as u32);
    assert(u <= 0x7f ==> (u & 0x7f) as u8 == u) by (bit_vector);
    assert(0xC0 | ((u >> 6) & 0x1F) as u8 >= 0x80) by (bit_vector);
    assert(0xE0 | ((u >> 12) & 0x0F) as u8 >= 0x80) by (bit_vector);
    assert(0xF0 | ((u >> 18) & 0x7) as u8 >= 0x80) by (bit_vector);
    assert(0x80 | (u & 0x3F) as u8 >= 0x80) by (bit_vector);
    assert(0x80 | ((u >> 6) & 0x3F) as u8 >= 0x80) by (bit_vector);
    assert(0x80 | ((u >> 12) & 0x3F) as u8 >= 0x80) by (bit_vector);
}

/// A line feed is one byte.
pub proof fn lemma_encode_line_feed()
    ensures
        encode_utf8(seq!['\n']) == seq![0x0au8],
{
    let one = seq!['\n'];
    assert(one.drop_first() =~= Seq::empty());
    assert(encode_utf8(Seq::<char>::empty()) =~= Seq::empty());
    assert((0x0au32 & 0x7f) as u8 == 0x0a) by (bit_vector);
    assert(encode_utf8(one) =~= seq![0x0au8]);
}

/// The bytes of ASCII text are its characters.
pub proof fn lemma_ascii(s: Seq<char>)
    requires
        forall|i: int| 0 <= i < s.len() ==> '\0' <= #[trigger] s[i] <= '\u{7f}',
    ensures
        encode_utf8(s).len() == s.len(),
        forall|i: int| 0 <= i < s.len() ==> #[trigger] encode_utf8(s)[i] == s[i] as u8,
{
    assert(is_ascii_chars(s));
    is_ascii_chars_encode_utf8(s);
}

} // verus!
