use vstd::prelude::*;
use vstd::utf8::*;

verus! {

broadcast use vstd::utf8::encode_utf8_valid_utf8, vstd::utf8::encode_utf8_decode_utf8;

/// The bytes of a text in UTF-8: what `str::len` counts and `str::as_bytes` returns.
pub open spec fn text_bytes(s: Seq<char>) -> Seq<u8> {
    encode_utf8(s)
}

/// The number of bytes of a text.
pub open spec fn byte_len(s: Seq<char>) -> nat {
    text_bytes(s).len()
}

/// The bytes of a concatenation are the concatenated bytes.
pub proof fn lemma_text_bytes_concat(a: Seq<char>, b: Seq<char>)
    ensures
        text_bytes(a + b) == text_bytes(a) + text_bytes(b),
    decreases a.len(),
{
    if a.len() == 0 {
        assert(a + b =~= b);
        assert(text_bytes(a) + text_bytes(b) =~= text_bytes(b));
    } else {
        assert((a + b).drop_first() =~= a.drop_first() + b);
        assert((a + b)[0] == a[0]);
        lemma_text_bytes_concat(a.drop_first(), b);
        assert(text_bytes(a + b) =~= text_bytes(a) + text_bytes(b));
    }
}

/// The byte length of a concatenation is the sum of the byte lengths.
pub proof fn lemma_byte_len_concat(a: Seq<char>, b: Seq<char>)
    ensures
        byte_len(a + b) == byte_len(a) + byte_len(b),
{
    lemma_text_bytes_concat(a, b);
}

/// The byte sequence with its two-byte groups in reverse order
/// (for an even length): the group that ends the input starts the output.
pub open spec fn reverse_pairs(b: Seq<u8>) -> Seq<u8> {
    Seq::new(b.len(), |i: int| b[b.len() - 2 * (i / 2) - 2 + i % 2])
}

/// Every even offset of the bytes starts a character, so that the text can
/// be cut into two-byte groups.
pub open spec fn pairs_on_char_boundaries(b: Seq<u8>) -> bool {
    forall|k: int| 0 <= k <= b.len() && k % 2 == 0 ==> is_char_boundary(b, k)
}

/// The text whose bytes are those of `t` with their two-byte groups reversed.
pub open spec fn reversed_pairs_text(t: Seq<char>) -> Seq<char> {
    decode_utf8(reverse_pairs(text_bytes(t)))
}

/// The characters with their two-character groups in reverse order (for an
/// even length): the group that ends the text starts the result.
pub open spec fn reverse_pair_chars(t: Seq<char>) -> Seq<char> {
    Seq::new(t.len(), |i: int| t[t.len() - 2 * (i / 2) - 2 + i % 2])
}

/// For ASCII text, reversing the byte groups is reversing the character groups.
pub proof fn lemma_reversed_pairs_ascii(t: Seq<char>)
    requires
        is_ascii_chars(t),
        t.len() % 2 == 0,
    ensures
        is_ascii_chars(reverse_pair_chars(t)),
        reverse_pair_chars(t).len() == t.len(),
        text_bytes(reverse_pair_chars(t)) == reverse_pairs(text_bytes(t)),
        reversed_pairs_text(t) == reverse_pair_chars(t),
        reverse_pair_chars(reverse_pair_chars(t)) == t,
{
    let r = reverse_pair_chars(t);
    assert forall|i: int| 0 <= i < r.len() implies '\0' <= #[trigger] r[i] <= '\u{7f}' by {
        let j = t.len() - 2 * (i / 2) - 2 + i % 2;
        assert(0 <= j < t.len());
        assert(r[i] == t[j]);
    }
    is_ascii_chars_encode_utf8(t);
    is_ascii_chars_encode_utf8(r);
    let bt = text_bytes(t);
    let br = text_bytes(r);
    assert forall|i: int| 0 <= i < br.len() implies br[i] == reverse_pairs(bt)[i] by {
        let j = t.len() - 2 * (i / 2) - 2 + i % 2;
        assert(r[i] as u8 == br[i]);
        assert(t[j] as u8 == bt[j]);
    }
    assert(br =~= reverse_pairs(bt));
    encode_utf8_decode_utf8(r);
    let rr = reverse_pair_chars(r);
    assert forall|i: int| 0 <= i < t.len() implies rr[i] == t[i] by {
        let j = t.len() - 2 * (i / 2) - 2 + i % 2;
        assert(j / 2 == t.len() / 2 - i / 2 - 1);
        assert(j % 2 == i % 2);
    }
    assert(rr =~= t);
}

/// A character boundary of a text is one of each prefix that reaches past it.
pub proof fn lemma_boundary_in_prefix(b: Seq<u8>, end: int, k: int)
    requires
        valid_utf8(b),
        is_char_boundary(b, end),
        is_char_boundary(b, k),
        0 <= k < end <= b.len(),
    ensures
        valid_utf8(b.subrange(0, end)),
        is_char_boundary(b.subrange(0, end), k),
{
    valid_utf8_split(b, end);
    is_char_boundary_iff_not_is_continuation_byte(b, k);
    is_char_boundary_iff_not_is_continuation_byte(b.subrange(0, end), k);
}

/// Reversing the two-byte groups twice gives the bytes back.
pub proof fn lemma_reverse_pairs_involution(b: Seq<u8>)
    requires
        b.len() % 2 == 0,
    ensures
        reverse_pairs(reverse_pairs(b)) == b,
{
    let r = reverse_pairs(b);
    let rr = reverse_pairs(r);
    assert forall|i: int| 0 <= i < b.len() implies rr[i] == b[i] by {
        let j = b.len() - 2 * (i / 2) - 2 + i % 2;
        assert(j / 2 == b.len() / 2 - i / 2 - 1);
        assert(j % 2 == i % 2);
    }
    assert(rr =~= b);
}

/// Every position of an ASCII text starts a character, and its bytes are as
/// many as its characters.
pub proof fn lemma_ascii_boundaries(c: Seq<char>)
    requires
        is_ascii_chars(c),
    ensures
        byte_len(c) == c.len(),
        pairs_on_char_boundaries(text_bytes(c)),
{
    let b = text_bytes(c);
    is_ascii_chars_encode_utf8(c);
    is_ascii_chars_nat_bound(c);
    is_char_boundary_start_end_of_seq(b);
    assert forall|k: int| 0 <= k <= b.len() && k % 2 == 0 implies is_char_boundary(b, k) by {
        if k < b.len() {
            assert(c[k] as u8 == b[k]);
            assert((c[k] as nat) < 128);
            is_char_boundary_iff_not_is_continuation_byte(b, k);
        }
    }
}

/// The bytes with their two-byte groups reversed can again be cut into
/// two-byte groups when the original could.
pub proof fn lemma_reverse_pairs_boundaries(b: Seq<u8>, r: Seq<u8>)
    requires
        valid_utf8(b),
        valid_utf8(r),
        b.len() % 2 == 0,
        pairs_on_char_boundaries(b),
        r == reverse_pairs(b),
    ensures
        pairs_on_char_boundaries(r),
{
    is_char_boundary_start_end_of_seq(r);
    assert forall|k: int| 0 <= k <= r.len() && k % 2 == 0 implies is_char_boundary(r, k) by {
        if k < r.len() {
            let j = b.len() - k - 2;
            assert(r[k] == b[j]);
            assert(is_char_boundary(b, j));
            is_char_boundary_iff_not_is_continuation_byte(b, j);
            is_char_boundary_iff_not_is_continuation_byte(r, k);
        }
    }
}

} // verus!
