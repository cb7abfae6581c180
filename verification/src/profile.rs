//! What holds of every profile that is projected from the readings of a
//! device.

use vstd::prelude::*;
use crate::device::{encoded, persisted, profile};
use crate::hardware::{ControlReading, ControlType};

verus! {

/// The last reading with the identifier `id` for which a profile stores a
/// value, if there is one.
pub open spec fn last_persisted(readings: Seq<ControlReading>, id: u32) -> Option<u32>
    decreases readings.len(),
{
    if readings.len() == 0 {
        None
    } else if readings.last().definition.id == id && persisted(readings.last()) is Some {
        persisted(readings.last())
    } else {
        last_persisted(readings.drop_last(), id)
    }
}

/// A profile holds an identifier exactly where a value is stored for a
/// reading with that identifier, and holds for it what is stored for the
/// last such reading.
pub proof fn lemma_profile_entries(readings: Seq<ControlReading>, id: u32)
    ensures
        profile(readings).contains_key(id) <==> last_persisted(readings, id) is Some,
        profile(readings).contains_key(id) ==> profile(readings)[id] == last_persisted(
            readings,
            id,
        )->0,
        last_persisted(readings, id) is Some <==> exists|i: int|
            0 <= i < readings.len() && (#[trigger] readings[i]).definition.id == id && persisted(
                readings[i],
            ) is Some,
    decreases readings.len(),
{
    if readings.len() > 0 {
        let front = readings.drop_last();
        lemma_profile_entries(front, id);
        if last_persisted(readings, id) is Some {
            if readings.last().definition.id == id && persisted(readings.last()) is Some {
                assert(readings[readings.len() - 1].definition.id == id);
            } else {
                let i = choose|i: int|
                    0 <= i < front.len() && (#[trigger] front[i]).definition.id == id
                        && persisted(front[i]) is Some;
                assert(readings[i] == front[i]);
            }
        }
        if exists|i: int|
            0 <= i < readings.len() && (#[trigger] readings[i]).definition.id == id && persisted(
                readings[i],
            ) is Some {
            let i = choose|i: int|
                0 <= i < readings.len() && (#[trigger] readings[i]).definition.id == id
                    && persisted(readings[i]) is Some;
            if i < front.len() {
                assert(front[i] == readings[i]);
            }
        }
    }
}

/// Whether no two readings have the same identifier.
pub open spec fn ids_distinct(readings: Seq<ControlReading>) -> bool {
    forall|i: int, j: int|
        0 <= i < j < readings.len() ==> (#[trigger] readings[i]).definition.id != (
        #[trigger] readings[j]).definition.id
}

/// Whether a profile holds for a reading what is stored for it: the encoded
/// value under the identifier of the control, or nothing under that
/// identifier where nothing is stored for the reading.
pub open spec fn stored_as(values: Map<u32, u32>, reading: ControlReading) -> bool {
    match persisted(reading) {
        Some(value) => values.contains_key(reading.definition.id) && values[reading.definition.id]
            == value,
        None => !values.contains_key(reading.definition.id),
    }
}

/// Where every control has an identifier of its own, a profile holds for
/// each reading what is stored for it.
pub proof fn lemma_stored_for_each(readings: Seq<ControlReading>, k: int)
    requires
        ids_distinct(readings),
        0 <= k < readings.len(),
    ensures
        stored_as(profile(readings), readings[k]),
{
    lemma_profile_entries(readings, readings[k].definition.id);
    lemma_last_persisted_unique(readings, k);
}

/// Where every control has an identifier of its own, a profile holds no
/// button, and holds every integer, on/off and menu control whose value was
/// read as an integer or an on/off value, under the control's identifier and
/// encoded as an unsigned number.
pub proof fn lemma_profile_excludes_buttons(readings: Seq<ControlReading>, k: int)
    requires
        ids_distinct(readings),
        0 <= k < readings.len(),
    ensures
        readings[k].definition.typ == ControlType::Button ==> !profile(readings).contains_key(
            readings[k].definition.id,
        ),
        (readings[k].definition.typ == ControlType::Integer || readings[k].definition.typ
            == ControlType::Boolean || readings[k].definition.typ == ControlType::Menu)
            && readings[k].live is Some && encoded(readings[k].live->0) is Some ==> profile(
            readings,
        ).contains_key(readings[k].definition.id) && profile(readings)[readings[k].definition.id]
            == encoded(readings[k].live->0)->0,
{
    lemma_stored_for_each(readings, k);
}

/// Where every control has an identifier of its own, what is stored last
/// for the identifier of a reading is what is stored for that reading.
pub proof fn lemma_last_persisted_unique(readings: Seq<ControlReading>, k: int)
    requires
        ids_distinct(readings),
        0 <= k < readings.len(),
    ensures
        last_persisted(readings, readings[k].definition.id) == persisted(readings[k]),
    decreases readings.len(),
{
    let id = readings[k].definition.id;
    let front = readings.drop_last();
    if k == readings.len() - 1 {
        if persisted(readings.last()) is None {
            lemma_profile_entries(front, id);
            if last_persisted(front, id) is Some {
                let i = choose|i: int|
                    0 <= i < front.len() && (#[trigger] front[i]).definition.id == id
                        && persisted(front[i]) is Some;
                assert(front[i] == readings[i]);
            }
        }
    } else {
        assert(front[k] == readings[k]);
        assert(ids_distinct(front)) by {
            assert forall|i: int, j: int| 0 <= i < j < front.len() implies (
            #[trigger] front[i]).definition.id != (#[trigger] front[j]).definition.id by {
                assert(front[i] == readings[i]);
                assert(front[j] == readings[j]);
            }
        }
        lemma_last_persisted_unique(front, k);
        assert(readings[readings.len() - 1].definition.id != readings[k].definition.id);
    }
}

} // verus!
