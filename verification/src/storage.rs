//! The profile that is stored for a device: the values of its controls, the
//! name of the file that holds them, and the text of that file.

use std::collections::HashMap;
use vstd::prelude::*;
use vstd::std_specs::hash::{group_hash_axioms, spec_hash_map_iter};
use vstd::std_specs::iter::IteratorSpec;
use crate::device::VideoDevice;
use crate::text::{decimal, push_char, push_decimal, replace_spaces, underscored};

verus! {

/// The profile of a device: which device it is for, and the values of the
/// device's controls, each under the control's identifier.
#[derive(Debug, PartialEq, Eq)]
pub struct SaveData {
    /// Name of the device.
    pub device_name: String,
    /// Where the device sits on its bus.
    pub bus: String,
    /// The encoded value of each control.
    pub controls: HashMap<u32, u32>,
}

/// A profile as a mathematical value.
pub struct SaveDataView {
    pub device_name: Seq<char>,
    pub bus: Seq<char>,
    pub controls: Map<u32, u32>,
}

impl View for SaveData {
    type V = SaveDataView;

    open spec fn view(&self) -> SaveDataView {
        SaveDataView {
            device_name: self.device_name@,
            bus: self.bus@,
            controls: self.controls@,
        }
    }
}

/// The name of the file that holds the profile of a device: the device's
/// name with its spaces as underscores, a hyphen, where the device sits on
/// its bus, and the ending `.cfg`.
pub open spec fn save_filename(name: Seq<char>, bus: Seq<char>) -> Seq<char> {
    underscored(name) + "-"@ + bus + ".cfg"@
}

/// The name of the file for a device of this name at this place of the
/// bus.
fn filename_for(name: &str, bus: &str) -> (filename: String)
    ensures
        filename@ == save_filename(name@, bus@),
{
    let mut filename = replace_spaces(name);
    filename.append("-");
    filename.append(bus);
    filename.append(".cfg");
    filename
}

/// The name of the file that holds the profile of `device`. It depends on
/// the device's name and bus position alone.
pub fn get_save_filename(device: &VideoDevice) -> (filename: String)
    ensures
        filename@ == save_filename(device.name@, device.capabilities.bus@),
{
    filename_for(device.name.as_str(), device.capabilities.bus.as_str())
}

impl SaveData {
    /// The name of the file that holds this profile: the one of the device
    /// that the profile is for.
    pub fn filename(&self) -> (filename: String)
        ensures
            filename@ == save_filename(self.device_name@, self.bus@),
    {
        filename_for(self.device_name.as_str(), self.bus.as_str())
    }
}

/// Two devices of one name at different places of the bus have different
/// profile files.
pub proof fn lemma_filename_separates_buses(name: Seq<char>, first: Seq<char>, second: Seq<char>)
    requires
        first != second,
    ensures
        save_filename(name, first) != save_filename(name, second),
{
    reveal_strlit("-");
    reveal_strlit(".cfg");
    let head = underscored(name) + "-"@;
    let a = save_filename(name, first);
    let b = save_filename(name, second);
    assert(a.len() == head.len() + first.len() + 4);
    assert(b.len() == head.len() + second.len() + 4);
    if first.len() == second.len() {
        if a == b {
            assert forall|i: int| 0 <= i < first.len() implies first[i] == second[i] by {
                assert(a[head.len() + i] == first[i]);
                assert(b[head.len() + i] == second[i]);
            }
            assert(first =~= second);
        }
    }
}

/// One line of a profile file: the identifier of a control in decimal, an
/// equals sign, the stored value in decimal, and a line feed.
pub open spec fn profile_line(key: u32, value: u32) -> Seq<char> {
    decimal(key as nat).push('=') + decimal(value as nat).push('\n')
}

/// The lines for the controls `keys` of a profile, in that order.
pub open spec fn profile_lines(keys: Seq<u32>, values: Map<u32, u32>) -> Seq<char>
    decreases keys.len(),
{
    if keys.len() == 0 {
        Seq::empty()
    } else {
        profile_lines(keys.drop_last(), values) + profile_line(keys.last(), values[keys.last()])
    }
}

/// The identifiers in a sequence of a map's entries.
spec fn pair_keys(pairs: Seq<(&u32, &u32)>) -> Seq<u32> {
    Seq::new(pairs.len(), |i: int| *pairs[i].0)
}

/// The text of the file that holds a profile: one line for each control of
/// the profile and nothing else. The order of the lines is the order in
/// which the map hands out its entries, which is not fixed.
pub fn profile_text(data: &SaveData) -> (text: String)
    ensures
        exists|keys: Seq<u32>|
            keys.no_duplicates() && keys.to_set() == data@.controls.dom() && text@
                == #[trigger] profile_lines(keys, data@.controls),
{
    broadcast use group_hash_axioms;

    let mut text = String::new();
    let ghost values = data.controls@;
    let ghost pairs = spec_hash_map_iter(&data.controls).remaining();
    for pair in it: data.controls.iter()
        invariant
            it.seq() == pairs,
            values == data.controls@,
            text@ == profile_lines(pair_keys(pairs.take(it.index() as int)), values),
            forall|i: int|
                0 <= i < pairs.len() ==> values.contains_key(*(#[trigger] pairs[i]).0)
                    && values[*pairs[i].0] == *pairs[i].1,
    {
        let ghost before = pair_keys(pairs.take(it.index() as int));
        let ghost after = pair_keys(pairs.take(it.index() + 1));
        proof {
            assert(pair == pairs[it.index() as int]);
            assert(after.drop_last() =~= before);
            assert(after.last() == *pair.0);
        }
        push_decimal(&mut text, *pair.0 as u64);
        push_char(&mut text, '=');
        push_decimal(&mut text, *pair.1 as u64);
        push_char(&mut text, '\n');
        proof {
            assert(text@ =~= profile_lines(before, values) + profile_line(*pair.0, *pair.1));
        }
    }
    proof {
        let keys = pair_keys(pairs);
        assert(pairs.take(pairs.len() as int) =~= pairs);
        assert(keys.no_duplicates());
        assert forall|k: u32| keys.to_set().contains(k) <==> values.dom().contains(k) by {
            if values.contains_key(k) {
                assert(pairs.contains((&k, &values[k])));
                let i = choose|i: int| 0 <= i < pairs.len() && pairs[i] == (&k, &values[k]);
                assert(keys[i] == k);
            }
            if keys.contains(k) {
                let i = choose|i: int| 0 <= i < keys.len() && keys[i] == k;
                assert(values.contains_key(*pairs[i].0));
            }
        }
        assert(keys.to_set() =~= values.dom());
        assert(text@ == profile_lines(keys, data@.controls));
    }
    text
}

} // verus!
