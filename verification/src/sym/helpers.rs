//! Bit-stream assembly: concatenation of ordered bit sequences.

use vstd::prelude::*;

verus! {

/// The concatenation of the sequences of `vs`, in order.
pub open spec fn join_seqs(vs: Seq<Seq<u8>>) -> Seq<u8>
    decreases vs.len(),
{
    if vs.len() == 0 {
        Seq::empty()
    } else {
        join_seqs(vs.drop_last()) + vs.last()
    }
}

/// Appending one more sequence appends its bits at the end.
pub proof fn lemma_join_seqs_push(vs: Seq<Seq<u8>>, v: Seq<u8>)
    ensures
        join_seqs(vs.push(v)) == join_seqs(vs) + v,
{
    assert(vs.push(v).drop_last() =~= vs);
    assert(vs.push(v).last() == v);
}

/// Concatenates the given bit sequences, in order, preserving each
/// sub-sequence's internal order; empty inputs contribute zero bits.
pub fn join_vecs(vecs: &[Vec<u8>]) -> (r: Vec<u8>)
    ensures
        r@ == join_seqs(vecs@.map_values(|v: Vec<u8>| v@)),
{
    let ghost all = vecs@.map_values(|v: Vec<u8>| v@);
    let mut out: Vec<u8> = Vec::new();
    proof {
        assert(all.take(0) =~= Seq::empty());
    }
    let mut i: usize = 0;
    while i < vecs.len()
        invariant
            i <= vecs@.len(),
            all == vecs@.map_values(|v: Vec<u8>| v@),
            out@ == join_seqs(all.take(i as int)),
        decreases vecs@.len() - i,
    {
        let v = &vecs[i];
        proof {
            assert(join_seqs(all.take(i as int)) + v@.take(0) =~= join_seqs(all.take(i as int)));
        }
        let mut j: usize = 0;
        while j < v.len()
            invariant
                j <= v@.len(),
                v@ == vecs@.map_values(|vv: Vec<u8>| vv@)[i as int],
                i < vecs@.len(),
                all == vecs@.map_values(|vv: Vec<u8>| vv@),
                out@ == join_seqs(all.take(i as int)) + v@.take(j as int),
            decreases v@.len() - j,
        {
            out.push(v[j]);
            proof {
                assert((join_seqs(all.take(i as int)) + v@.take(j as int)).push(v@[j as int])
                    =~= join_seqs(all.take(i as int)) + v@.take(j + 1));
            }
            j += 1;
        }
        proof {
            assert(v@.take(v@.len() as int) =~= v@);
            assert(all.take(i + 1) =~= all.take(i as int).push(all[i as int]));
            lemma_join_seqs_push(all.take(i as int), all[i as int]);
        }
        i += 1;
    }
    proof {
        assert(all.take(vecs@.len() as int) =~= all);
    }
    out
}

} // verus!
