use vstd::prelude::*;

verus! {

/// The bytes of `bytes` that are not zero, in their order.
pub open spec fn nonzero(bytes: Seq<u8>) -> Seq<u8> {
    bytes.filter(|b: u8| b != 0)
}

/// Drops the zero bytes that pad a read buffer.
pub fn filter_zeroes(bytes: Vec<u8>) -> (r: Vec<u8>)
    ensures
        r@ == nonzero(bytes@),
{
    let mut out: Vec<u8> = Vec::new();
    let mut i: usize = 0;
    while i < bytes.len()
        invariant
            i <= bytes@.len(),
            out@ == nonzero(bytes@.subrange(0, i as int)),
        decreases bytes@.len() - i,
    {
        proof {
            assert(bytes@.subrange(0, i + 1) =~= bytes@.subrange(0, i as int).push(bytes@[i as int]));
            bytes@.subrange(0, i as int).lemma_filter_push(bytes@[i as int], |b: u8| b != 0);
        }
        if bytes[i] != 0 {
            out.push(bytes[i]);
        }
        i = i + 1;
    }
    proof {
        assert(bytes@.subrange(0, bytes@.len() as int) =~= bytes@);
    }
    out
}

} // verus!
