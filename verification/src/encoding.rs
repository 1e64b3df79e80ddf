use vstd::prelude::*;

verus! {

/// The `n` low bytes of `x`, least significant first.
pub open spec fn le_bytes(x: nat, n: nat) -> Seq<u8>
    decreases n,
{
    if n == 0 {
        Seq::empty()
    } else {
        seq![(x % 256) as u8] + le_bytes(x / 256, (n - 1) as nat)
    }
}

/// The number that little-endian bytes stand for.
pub open spec fn le_value(b: Seq<u8>) -> nat
    decreases b.len(),
{
    if b.len() == 0 {
        0
    } else {
        b[0] as nat + 256 * le_value(b.drop_first())
    }
}

/// The number a variable-length integer stands for: its first byte when that
/// is below 0xFD, otherwise the little-endian bytes after the marker.
pub open spec fn compact_size_value(v: Seq<u8>) -> nat {
    if v[0] < 0xFD {
        v[0] as nat
    } else {
        le_value(v.drop_first())
    }
}

/// 256 to the power `n`: the numbers that fit in `n` bytes are those below it.
pub open spec fn byte_power(n: nat) -> nat
    decreases n,
{
    if n == 0 {
        1
    } else {
        256 * byte_power((n - 1) as nat)
    }
}

/// Reading back the `n` low bytes of a number that fits in them gives the number.
pub proof fn lemma_le_value_of_bytes(x: nat, n: nat)
    requires
        x < byte_power(n),
    ensures
        le_value(le_bytes(x, n)) == x,
    decreases n,
{
    if n > 0 {
        assert(x / 256 < byte_power((n - 1) as nat));
        lemma_le_value_of_bytes(x / 256, (n - 1) as nat);
        assert(le_bytes(x, n).drop_first() =~= le_bytes(x / 256, (n - 1) as nat));
    }
}

/// `le_bytes(x, n)` has `n` bytes.
pub proof fn lemma_le_bytes_len(x: nat, n: nat)
    ensures
        le_bytes(x, n).len() == n,
    decreases n,
{
    if n > 0 {
        lemma_le_bytes_len(x / 256, (n - 1) as nat);
    }
}

/// Bitcoin's variable-length integer ("CompactSize"): one byte below 0xFD,
/// otherwise a marker byte 0xFD, 0xFE or 0xFF followed by two, four or eight
/// little-endian bytes.
pub open spec fn compact_size(n: nat) -> Seq<u8> {
    if n < 0xFD {
        seq![n as u8]
    } else if n <= 0xFFFF {
        seq![0xFDu8] + le_bytes(n, 2)
    } else if n <= 0xFFFF_FFFF {
        seq![0xFEu8] + le_bytes(n, 4)
    } else {
        seq![0xFFu8] + le_bytes(n, 8)
    }
}

/// The `n` low bytes of `x`, least significant first.
pub fn le_bytes_of(x: u64, n: usize) -> (r: Vec<u8>)
    requires
        n <= 8,
    ensures
        r@ == le_bytes(x as nat, n as nat),
{
    let mut v: u64 = x;
    let mut out: Vec<u8> = Vec::new();
    let mut i: usize = 0;
    while i < n
        invariant
            i <= n,
            out@ + le_bytes(v as nat, (n - i) as nat) == le_bytes(x as nat, n as nat),
        decreases n - i,
    {
        let ghost old_out = out@;
        let byte: u8 = (v % 256) as u8;
        assert(le_bytes(v as nat, (n - i) as nat) == seq![byte] + le_bytes((v / 256) as nat, (n - i - 1) as nat));
        out.push(byte);
        v = v / 256;
        i = i + 1;
        assert(out@ + le_bytes(v as nat, (n - i) as nat) =~= old_out + (seq![byte] + le_bytes(v as nat, (n - i) as nat)));
    }
    assert(le_bytes(v as nat, 0) =~= Seq::<u8>::empty());
    assert(out@ + le_bytes(v as nat, 0) =~= out@);
    out
}

} // verus!
