//! Pure part of the pre-flight port check: given the ports that were
//! probed and each probe's outcome, the list of occupied ports. The
//! probes themselves — bind attempts on local sockets — happen
//! outside and hand their outcomes in.

use vstd::prelude::*;

verus! {

/// The ports whose probe found them occupied, in order.
pub open spec fn spec_occupied(ports: Seq<u16>, available: Seq<bool>) -> Seq<u16>
    decreases ports.len(),
{
    if ports.len() == 0 {
        Seq::empty()
    } else {
        spec_occupied(ports.drop_last(), available.drop_last()) + if !available.last() {
            seq![ports.last()]
        } else {
            Seq::empty()
        }
    }
}

/// Collects the occupied ports from the probe outcomes:
/// `available[i]` says whether `ports[i]` could be bound.
pub fn collect_occupied(ports: &Vec<u16>, available: &Vec<bool>) -> (r: Vec<u16>)
    requires
        available@.len() == ports@.len(),
    ensures
        r@ == spec_occupied(ports@, available@),
{
    let mut out: Vec<u16> = Vec::new();
    let mut i: usize = 0;
    proof {
        assert(ports@.take(0) =~= Seq::<u16>::empty());
        assert(available@.take(0) =~= Seq::<bool>::empty());
    }
    while i < ports.len()
        invariant
            0 <= i <= ports@.len(),
            available@.len() == ports@.len(),
            out@ == spec_occupied(ports@.take(i as int), available@.take(i as int)),
        decreases ports@.len() - i,
    {
        proof {
            assert(ports@.take(i + 1).drop_last() =~= ports@.take(i as int));
            assert(available@.take(i + 1).drop_last() =~= available@.take(i as int));
        }
        if !available[i] {
            out.push(ports[i]);
        }
        i = i + 1;
    }
    proof {
        assert(ports@.take(ports@.len() as int) =~= ports@);
        assert(available@.take(available@.len() as int) =~= available@);
    }
    out
}

/// An occupied port always shows up in the collected list.
pub proof fn lemma_occupied_complete(ports: Seq<u16>, available: Seq<bool>, i: int)
    requires
        available.len() == ports.len(),
        0 <= i < ports.len(),
        !available[i],
    ensures
        spec_occupied(ports, available).contains(ports[i]),
    decreases ports.len(),
{
    if i == ports.len() - 1 {
        let r = spec_occupied(ports, available);
        assert(r.last() == ports[i]);
        assert(r.contains(ports[i]));
    } else {
        lemma_occupied_complete(ports.drop_last(), available.drop_last(), i);
        let sub = spec_occupied(ports.drop_last(), available.drop_last());
        let k = choose|k: int| 0 <= k < sub.len() && sub[k] == ports.drop_last()[i];
        assert(spec_occupied(ports, available)[k] == sub[k]);
        assert(spec_occupied(ports, available).contains(ports[i]));
    }
}

} // verus!
