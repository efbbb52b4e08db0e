use vstd::prelude::*;

verus! {

/// Big-endian bytes of `x` with no leading zero byte; empty for zero.
pub open spec fn be_bytes(x: nat) -> Seq<u8>
    decreases x,
{
    if x == 0 {
        Seq::empty()
    } else {
        be_bytes(x / 256).push((x % 256) as u8)
    }
}

/// `right_encode(x)`: the big-endian bytes of `x`, then one byte holding their count.
pub open spec fn right_encode_spec(x: nat) -> Seq<u8> {
    be_bytes(x).push(be_bytes(x).len() as u8)
}

/// Encodes `x` as `right_encode` does: big-endian bytes without leading zeros,
/// followed by a byte that counts them.
pub fn right_encode(x: usize) -> (r: Vec<u8>)
    ensures
        r@ == right_encode_spec(x as nat),
{
    let mut rest: usize = x;
    let mut out: Vec<u8> = Vec::new();
    while rest > 0
        invariant
            be_bytes(x as nat) == be_bytes(rest as nat) + out@,
        decreases rest,
    {
        let ghost old_out = out@;
        proof {
            assert(be_bytes(rest as nat) == be_bytes((rest / 256) as nat).push((rest % 256) as u8));
        }
        out.insert(0, (rest % 256) as u8);
        proof {
            assert(out@ == seq![(rest % 256) as u8] + old_out);
            assert(be_bytes(x as nat) == be_bytes((rest / 256) as nat) + out@);
        }
        rest = rest / 256;
    }
    proof {
        assert(be_bytes(0) == Seq::<u8>::empty());
        assert(be_bytes(x as nat) == out@);
    }
    let count = out.len() as u8;
    out.push(count);
    out
}

} // verus!
