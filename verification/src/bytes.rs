use vstd::prelude::*;

verus! {

/// The unsigned big-endian value of a byte sequence.
pub open spec fn be_value(s: Seq<u8>) -> nat
    decreases s.len(),
{
    if s.len() == 0 {
        0
    } else {
        be_value(s.drop_last()) * 256 + s.last() as nat
    }
}

/// `256` to the power `n`.
pub open spec fn pow256(n: nat) -> nat
    decreases n,
{
    if n == 0 {
        1
    } else {
        256 * pow256((n - 1) as nat)
    }
}

/// A big-endian value of `n` bytes is below `256^n`.
pub proof fn lemma_be_value_bound(s: Seq<u8>)
    ensures
        be_value(s) < pow256(s.len()),
    decreases s.len(),
{
    if s.len() > 0 {
        lemma_be_value_bound(s.drop_last());
        let p = pow256((s.len() - 1) as nat);
        let v = be_value(s.drop_last());
        assert(v * 256 + s.last() < p * 256) by (nonlinear_arith)
            requires
                v < p,
                s.last() < 256,
        ;
    }
}

/// Reads `bytes` bytes of `data` starting at `offset` as a big-endian
/// unsigned integer.
pub fn read_uint(data: &[u8], offset: usize, bytes: usize) -> (value: u32)
    requires
        bytes <= 4,
        offset + bytes <= data@.len(),
    ensures
        value == be_value(data@.subrange(offset as int, offset + bytes)),
{
    let len = data.len();
    let mut value: u32 = 0;
    let mut i: usize = 0;
    while i < bytes
        invariant
            i <= bytes <= 4,
            offset + bytes <= data@.len(),
            len == data@.len(),
            value == be_value(data@.subrange(offset as int, offset + i)),
        decreases bytes - i,
    {
        let ghost prefix = data@.subrange(offset as int, offset + i);
        proof {
            lemma_be_value_bound(prefix);
            assert(pow256(i as nat) <= 0x100_0000) by {
                reveal_with_fuel(pow256, 4);
            }
            assert(data@.subrange(offset as int, offset + i + 1).drop_last() =~= prefix);
        }
        value = value * 256 + data[offset + i] as u32;
        i = i + 1;
    }
    value
}

} // verus!
