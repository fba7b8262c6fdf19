use vstd::prelude::*;

verus! {

/// Big-endian value of a byte string.
pub open spec fn be_value(s: Seq<u8>) -> nat
    decreases s.len(),
{
    if s.len() == 0 {
        0
    } else {
        be_value(s.drop_last()) * 256 + s.last() as nat
    }
}

/// Number of bytes of a variable-length integer, read from the two high bits
/// of its first byte.
pub open spec fn varint_size(first: u8) -> nat {
    if first < 64 {
        1
    } else if first < 128 {
        2
    } else if first < 192 {
        4
    } else {
        8
    }
}

/// The variable-length integer that starts at `pos` in `b`, as its value and
/// its size, if `b` holds all of it.
pub open spec fn varint_at(b: Seq<u8>, pos: nat) -> Option<(nat, nat)> {
    if pos < b.len() && pos + varint_size(b[pos as int]) <= b.len() {
        let n = varint_size(b[pos as int]);
        let digits = seq![(b[pos as int] % 64) as u8] + b.subrange((pos + 1) as int, (pos + n) as int);
        Some((be_value(digits), n))
    } else {
        None
    }
}

/// Reads the variable-length integer at `pos`: its value and its size.
pub fn read_varint(b: &Vec<u8>, pos: usize) -> (r: Option<(u64, usize)>)
    ensures
        match varint_at(b@, pos as nat) {
            Some((v, n)) => r == Some((v as u64, n as usize)) && v < 0x4000_0000_0000_0000,
            None => r.is_none(),
        },
{
    if pos >= b.len() {
        return None;
    }
    let first = b[pos];
    let size: usize = if first < 64 {
        1
    } else if first < 128 {
        2
    } else if first < 192 {
        4
    } else {
        8
    };
    let blen: usize = b.len();
    if size > blen - pos {
        return None;
    }
    let ghost start = seq![(first % 64) as u8];
    let mut v: u64 = (first % 64) as u64;
    let mut i: usize = 1;
    let ghost mut bound: int = 64;
    assert(start.drop_last() =~= Seq::<u8>::empty());
    assert(start + b@.subrange(pos + 1, pos + 1) =~= start);
    assert(be_value(start.drop_last()) == 0);
    assert(be_value(start) == (first % 64) as nat);
    while i < size
        invariant
            1 <= i <= size,
            size == varint_size(first),
            pos + size <= b@.len(),
            b@.len() == blen,
            first == b@[pos as int],
            bound == 64 * crate::varint::pow256((i - 1) as nat),
            v < bound,
            v == be_value(start + b@.subrange(pos + 1, pos + i)),
        decreases size - i,
    {
        let ghost prev = start + b@.subrange(pos + 1, pos + i);
        let ghost next = start + b@.subrange(pos + 1, pos + i + 1);
        assert(next.drop_last() =~= prev);
        proof { lemma_pow256_bound((i - 1) as nat); }
        proof {
            let bb = b@[pos + i] as int;
            assert((v + 1) * 256 <= bound * 256) by (nonlinear_arith)
                requires v + 1 <= bound;
            assert(v * 256 + bb < bound * 256) by (nonlinear_arith)
                requires (v + 1) * 256 <= bound * 256, bb < 256;
            assert(bound * 256 <= 0x4000_0000_0000_0000);
            assert(v * 256 + bb < 0x4000_0000_0000_0000);
        }
        let byte: u8 = b[pos + i];
        v = v * 256 + byte as u64;
        proof {
            bound = bound * 256;
        }
        i = i + 1;
    }
    assert(start + b@.subrange(pos + 1, pos + size) =~= seq![(b@[pos as int] % 64) as u8] + b@.subrange(pos + 1, pos + size));
    proof { lemma_pow256_bound((size - 1) as nat); }
    Some((v, size))
}

pub open spec fn pow256(n: nat) -> nat
    decreases n,
{
    if n == 0 {
        1
    } else {
        256 * pow256((n - 1) as nat)
    }
}

proof fn lemma_pow256_bound(n: nat)
    requires
        n <= 7,
    ensures
        64 * pow256(n) <= 0x4000_0000_0000_0000,
        n <= 6 ==> 64 * pow256(n) * 256 <= 0x4000_0000_0000_0000,
{
    reveal_with_fuel(pow256, 8);
}

} // verus!
