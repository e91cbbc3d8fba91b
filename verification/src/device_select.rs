use vstd::prelude::*;

verus! {

/// Bit that marks a queue family as able to run compute work, in the
/// device's encoding of queue capability flags.
pub const QUEUE_COMPUTE_BIT: u32 = 2;

/// Whether a queue family with these capability flags can run compute work.
pub open spec fn has_compute(flags: u32) -> bool {
    flags & QUEUE_COMPUTE_BIT != 0
}

/// Whether any queue family of a device with these per-family capability
/// flags can run compute work.
pub open spec fn device_has_compute(families: Seq<u32>) -> bool {
    exists|j: int| 0 <= j < families.len() && has_compute(families[j])
}

/// Pick the hardware to run compute work on, given the queue-family
/// capability flags of every available device: the first compute-capable
/// family of the first device that has one. Returns the device index and
/// the family index, or `None` exactly when no device has a compute-capable
/// family.
pub fn select_compute_device(devices: &Vec<Vec<u32>>) -> (r: Option<(usize, usize)>)
    ensures
        r matches Some((d, f)) ==> {
            &&& (d as int) < devices@.len()
            &&& (f as int) < devices@[d as int]@.len()
            &&& has_compute(devices@[d as int]@[f as int])
            &&& (forall|j: int| 0 <= j < d as int ==> !device_has_compute(#[trigger] devices@[j]@))
            &&& (forall|j: int| 0 <= j < f as int ==> !has_compute(#[trigger] devices@[d as int]@[j]))
        },
        r is None <==> (forall|j: int|
            0 <= j < devices@.len() ==> !device_has_compute(#[trigger] devices@[j]@)),
{
    let mut d: usize = 0;
    while d < devices.len()
        invariant
            d <= devices@.len(),
            forall|j: int| 0 <= j < d as int ==> !device_has_compute(#[trigger] devices@[j]@),
        decreases devices@.len() - d,
    {
        let families = &devices[d];
        let mut f: usize = 0;
        while f < families.len()
            invariant
                d < devices@.len(),
                forall|j: int| 0 <= j < d as int ==> !device_has_compute(#[trigger] devices@[j]@),
                families@ == devices@[d as int]@,
                f <= families@.len(),
                forall|j: int| 0 <= j < f as int ==> !has_compute(#[trigger] families@[j]),
            decreases families@.len() - f,
        {
            if families[f] & QUEUE_COMPUTE_BIT != 0 {
                proof {
                    assert(has_compute(devices@[d as int]@[f as int]));
                    assert(device_has_compute(devices@[d as int]@));
                    assert forall|j: int| 0 <= j < f as int implies !has_compute(
                        #[trigger] devices@[d as int]@[j],
                    ) by {
                        assert(devices@[d as int]@[j] == families@[j]);
                        assert(!has_compute(families@[j]));
                    }
                }
                return Some((d, f));
            }
            f += 1;
        }
        proof {
            assert(!device_has_compute(devices@[d as int]@));
        }
        d += 1;
    }
    None
}

} // verus!
