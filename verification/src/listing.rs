//! What holds of every list of devices that is made from the nodes of a
//! system.

use vstd::prelude::*;
use crate::device::{device_of, enumerated, listed, VideoDeviceView};
use crate::hardware::DeviceProbe;

verus! {

/// Whether no two of the probed nodes whose path could be read have the same
/// path.
pub open spec fn probe_paths_distinct(probes: Seq<DeviceProbe>) -> bool {
    forall|i: int, j: int|
        0 <= i < j < probes.len() && (#[trigger] probes[i]).path is Some && (
        #[trigger] probes[j]).path is Some ==> probes[i].path->0@ != probes[j].path->0@
}

/// Whether no two of the devices have the same path.
pub open spec fn paths_distinct(devices: Seq<VideoDeviceView>) -> bool {
    forall|i: int, j: int|
        0 <= i < j < devices.len() ==> (#[trigger] devices[i]).path != (
        #[trigger] devices[j]).path
}

/// Every listed device stands for a listed node: the position of a node that
/// the device at position `k` of the list was made from.
pub proof fn lemma_enumerated_origin(probes: Seq<DeviceProbe>, k: int) -> (i: int)
    requires
        0 <= k < enumerated(probes).len(),
    ensures
        0 <= i < probes.len(),
        listed(probes[i]),
        enumerated(probes)[k] == device_of(probes[i]),
    decreases probes.len(),
{
    if listed(probes.last()) && k == enumerated(probes).len() - 1 {
        probes.len() - 1
    } else {
        lemma_enumerated_origin(probes.drop_last(), k)
    }
}

/// Where the nodes of the system have paths that differ from each other, so
/// have the devices that are listed for them.
pub proof fn lemma_enumerated_paths_distinct(probes: Seq<DeviceProbe>)
    requires
        probe_paths_distinct(probes),
    ensures
        paths_distinct(enumerated(probes)),
    decreases probes.len(),
{
    if probes.len() > 0 {
        let front = probes.drop_last();
        assert(probe_paths_distinct(front)) by {
            assert forall|i: int, j: int|
                0 <= i < j < front.len() && (#[trigger] front[i]).path is Some && (
                #[trigger] front[j]).path is Some implies front[i].path->0@
                != front[j].path->0@ by {
                assert(front[i] == probes[i]);
                assert(front[j] == probes[j]);
            }
        }
        lemma_enumerated_paths_distinct(front);
        if listed(probes.last()) {
            let devices = enumerated(probes);
            let last = devices.len() - 1;
            assert forall|i: int, j: int| 0 <= i < j < devices.len() implies (
            #[trigger] devices[i]).path != (#[trigger] devices[j]).path by {
                if j == last {
                    let origin = lemma_enumerated_origin(front, i);
                    assert(front[origin] == probes[origin]);
                    assert(probes[origin].path is Some);
                    assert(probes[probes.len() - 1].path is Some);
                } else {
                    assert(devices[i] == enumerated(front)[i]);
                    assert(devices[j] == enumerated(front)[j]);
                }
            }
        }
    }
}

} // verus!
