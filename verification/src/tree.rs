//! The shape of a control tree, and what holds of every tree that is built
//! from the readings of a device.

use vstd::prelude::*;
use crate::device::{control_tree, descriptor, is_marker, place, with_member, ControlNode};
use crate::hardware::ControlReading;

verus! {

/// The group `node` without its members; an entry that is no group stays as
/// it is.
pub open spec fn without_members(node: ControlNode) -> ControlNode {
    match node {
        ControlNode::Group { id, name, members, flags } => ControlNode::Group {
            id,
            name,
            members: Seq::empty(),
            flags,
        },
        _ => node,
    }
}

/// One entry of a tree written out flat: a group gives its marker and then
/// its members, a control gives itself.
pub open spec fn flat_entry(node: ControlNode) -> Seq<ControlNode> {
    match node {
        ControlNode::Group { id, name, members, flags } => seq![without_members(node)] + members,
        _ => seq![node],
    }
}

/// A tree written out flat: its entries in order, each group as its marker
/// followed by its members.
pub open spec fn flat(tree: Seq<ControlNode>) -> Seq<ControlNode>
    decreases tree.len(),
{
    if tree.len() == 0 {
        Seq::empty()
    } else {
        flat(tree.drop_last()) + flat_entry(tree.last())
    }
}

/// What the readings of a device say one by one: an empty group for each
/// class marker and a descriptor for each control.
pub open spec fn entries(readings: Seq<ControlReading>) -> Seq<ControlNode> {
    readings.map_values(|reading: ControlReading| descriptor(reading))
}

/// The number of groups at the top level of a tree.
pub open spec fn group_count(tree: Seq<ControlNode>) -> nat
    decreases tree.len(),
{
    if tree.len() == 0 {
        0
    } else if tree.last() is Group {
        group_count(tree.drop_last()) + 1
    } else {
        group_count(tree.drop_last())
    }
}

/// The number of class markers among the readings.
pub open spec fn marker_count(readings: Seq<ControlReading>) -> nat
    decreases readings.len(),
{
    if readings.len() == 0 {
        0
    } else if is_marker(readings.last().definition) {
        marker_count(readings.drop_last()) + 1
    } else {
        marker_count(readings.drop_last())
    }
}

/// Whether no member of the entry is itself a group.
pub open spec fn one_level(node: ControlNode) -> bool {
    node matches ControlNode::Group { members, .. } ==> forall|k: int|
        0 <= k < members.len() ==> !(#[trigger] members[k] is Group)
}

/// Whether a tree has the shape that a device's classes give it: groups hold
/// controls only, and once a group has been opened every later entry of the
/// top level is a group too.
pub open spec fn well_formed(tree: Seq<ControlNode>) -> bool {
    &&& forall|i: int| 0 <= i < tree.len() ==> one_level(#[trigger] tree[i])
    &&& forall|i: int, j: int|
        0 <= i < j < tree.len() && (#[trigger] tree[i]) is Group ==> (#[trigger] tree[j]) is Group
}

/// The entry for a reading is a group exactly for a class marker, and that
/// group is empty.
pub proof fn lemma_descriptor_kind(reading: ControlReading)
    ensures
        descriptor(reading) is Group <==> is_marker(reading.definition),
        descriptor(reading) is Group ==> descriptor(reading)->Group_members.len() == 0,
        descriptor(reading) is Group ==> without_members(descriptor(reading)) == descriptor(
            reading,
        ),
{
    if descriptor(reading) is Group {
        assert(descriptor(reading)->Group_members =~= Seq::empty());
    }
}

/// Placing an entry that is a control or an empty group adds exactly that
/// entry to the flat form of the tree.
pub proof fn lemma_flat_place(tree: Seq<ControlNode>, node: ControlNode)
    requires
        node is Group ==> node->Group_members.len() == 0,
    ensures
        flat(place(tree, node)) == flat(tree).push(node),
{
    let placed = place(tree, node);
    if !(node is Group) && tree.len() > 0 && tree.last() is Group {
        // The control joins the last group, whose flat form grows by it.
        let joined = with_member(tree.last(), node);
        assert(placed.drop_last() =~= tree.drop_last());
        assert(placed.last() == joined);
        assert(without_members(joined) == without_members(tree.last()));
        assert(flat_entry(joined) =~= flat_entry(tree.last()).push(node));
        assert(flat(placed) =~= flat(tree).push(node));
    } else {
        // The entry is added at the top level, and is its own flat form.
        assert(placed.drop_last() =~= tree);
        assert(placed.last() == node);
        if node is Group {
            assert(node->Group_members =~= Seq::empty());
            assert(without_members(node) == node);
        }
        assert(flat_entry(node) =~= seq![node]);
        assert(flat(placed) =~= flat(tree).push(node));
    }
}

/// Written out flat, the tree that is built from the readings of a device
/// gives back the readings in their order: each class marker as an empty
/// group, followed by the controls up to the next marker, which are the
/// members of its group.
pub proof fn lemma_flat_tree_is_readings(readings: Seq<ControlReading>)
    ensures
        flat(control_tree(readings)) == entries(readings),
    decreases readings.len(),
{
    if readings.len() == 0 {
        assert(entries(readings) =~= Seq::empty());
    } else {
        lemma_flat_tree_is_readings(readings.drop_last());
        lemma_descriptor_kind(readings.last());
        lemma_flat_place(control_tree(readings.drop_last()), descriptor(readings.last()));
        assert(entries(readings) =~= entries(readings.drop_last()).push(
            descriptor(readings.last()),
        ));
    }
}

/// Every class marker among the readings opens exactly one group: the tree
/// has as many groups as the readings have markers.
pub proof fn lemma_one_group_per_marker(readings: Seq<ControlReading>)
    ensures
        group_count(control_tree(readings)) == marker_count(readings),
    decreases readings.len(),
{
    if readings.len() > 0 {
        lemma_one_group_per_marker(readings.drop_last());
        lemma_descriptor_kind(readings.last());
        let tree = control_tree(readings.drop_last());
        let node = descriptor(readings.last());
        let placed = place(tree, node);
        if !(node is Group) && tree.len() > 0 && tree.last() is Group {
            assert(placed.drop_last() =~= tree.drop_last());
        } else {
            assert(placed.drop_last() =~= tree);
        }
    }
}

/// The tree that is built from the readings of a device is well formed:
/// groups are one level deep, and controls stand at the top level only
/// before the first group.
pub proof fn lemma_tree_well_formed(readings: Seq<ControlReading>)
    ensures
        well_formed(control_tree(readings)),
    decreases readings.len(),
{
    if readings.len() > 0 {
        lemma_tree_well_formed(readings.drop_last());
        lemma_descriptor_kind(readings.last());
        let tree = control_tree(readings.drop_last());
        let node = descriptor(readings.last());
        let placed = place(tree, node);
        assert forall|i: int| 0 <= i < placed.len() implies one_level(#[trigger] placed[i]) by {
            if i < tree.len() {
                assert(one_level(tree[i]));
            }
        }
        assert forall|i: int, j: int|
            0 <= i < j < placed.len() && (#[trigger] placed[i]) is Group implies (
        #[trigger] placed[j]) is Group by {
            assert(tree[i] is Group);
            if j < tree.len() {
                assert(tree[j] is Group);
            } else {
                assert(tree.last() is Group);
            }
        }
    }
}

/// Every entry of a tree shows in its flat form.
pub proof fn lemma_flat_len(tree: Seq<ControlNode>)
    ensures
        flat(tree).len() >= tree.len(),
    decreases tree.len(),
{
    if tree.len() > 0 {
        lemma_flat_len(tree.drop_last());
    }
}

/// A well-formed tree without its last entry is well formed.
proof fn lemma_well_formed_front(tree: Seq<ControlNode>)
    requires
        well_formed(tree),
        tree.len() > 0,
    ensures
        well_formed(tree.drop_last()),
{
    let front = tree.drop_last();
    assert forall|i: int| 0 <= i < front.len() implies one_level(#[trigger] front[i]) by {
        assert(front[i] == tree[i]);
    }
    assert forall|i: int, j: int|
        0 <= i < j < front.len() && (#[trigger] front[i]) is Group implies (
    #[trigger] front[j]) is Group by {
        assert(front[i] == tree[i]);
        assert(front[j] == tree[j]);
    }
}

/// The readings of a device allow one tree only: a well-formed tree whose
/// flat form gives back the readings is the tree that is built from them.
pub proof fn lemma_tree_unique(tree: Seq<ControlNode>, readings: Seq<ControlReading>)
    requires
        well_formed(tree),
        flat(tree) == entries(readings),
    ensures
        tree == control_tree(readings),
    decreases readings.len(),
{
    lemma_flat_len(tree);
    if readings.len() == 0 {
        assert(tree =~= control_tree(readings));
    } else {
        let rest = readings.drop_last();
        let node = descriptor(readings.last());
        lemma_descriptor_kind(readings.last());
        assert(entries(readings) =~= entries(rest).push(node));
        if tree.len() == 0 {
            assert(flat(tree).len() == 0);
        }
        let last = tree.last();
        let front = tree.drop_last();
        assert(one_level(tree[tree.len() - 1]));
        if last is Group && last->Group_members.len() > 0 {
            // The last reading is the last member of the last group: without
            // it the tree is the one for the readings before.
            let members = last->Group_members;
            let shorter = ControlNode::Group {
                id: last->Group_id,
                name: last->Group_name,
                members: members.drop_last(),
                flags: last->Group_flags,
            };
            let before = tree.update(tree.len() - 1, shorter);
            assert(flat(tree).last() == members.last());
            assert(node == members.last());
            assert(!(members[members.len() - 1] is Group));
            assert(before.drop_last() =~= front);
            assert(without_members(shorter) == without_members(last));
            assert(flat(before) =~= flat(tree).drop_last());
            assert(flat(before) =~= entries(rest));
            assert(well_formed(before)) by {
                assert forall|i: int| 0 <= i < before.len() implies one_level(
                    #[trigger] before[i],
                ) by {
                    if i < tree.len() - 1 {
                        assert(one_level(tree[i]));
                    } else {
                        assert forall|k: int| 0 <= k < members.drop_last().len() implies !(
                        #[trigger] members.drop_last()[k] is Group) by {
                            assert(members.drop_last()[k] == members[k]);
                        }
                    }
                }
                assert forall|i: int, j: int|
                    0 <= i < j < before.len() && (#[trigger] before[i]) is Group implies (
                #[trigger] before[j]) is Group by {
                    assert(tree[i] is Group);
                    assert(tree[j] is Group);
                }
            }
            lemma_tree_unique(before, rest);
            assert(members.drop_last().push(node) =~= members);
            assert(with_member(shorter, node) == last);
            assert(place(before, node) =~= tree);
        } else {
            // The last reading is the last entry of the top level: an empty
            // group, or a control that no group comes before.
            assert(flat_entry(last).len() == 1);
            assert(flat(front) =~= flat(tree).drop_last());
            assert(flat(front) =~= entries(rest));
            lemma_well_formed_front(tree);
            lemma_tree_unique(front, rest);
            if last is Group {
                assert(last->Group_members =~= Seq::empty());
                assert(without_members(last) == last);
                assert(flat(tree).last() == last);
                assert(node == last);
            } else {
                assert(flat(tree).last() == last);
                assert(node == last);
                if front.len() > 0 && front.last() is Group {
                    assert(tree[tree.len() - 2] is Group);
                    assert(tree[tree.len() - 1] is Group);
                }
            }
            assert(place(front, node) =~= tree);
        }
    }
}

/// The end of the run of controls that starts at `from`: the position of
/// the first class marker at or after `from`, or the number of readings
/// where no marker follows.
pub open spec fn run_end(readings: Seq<ControlReading>, from: int) -> int
    decreases readings.len() - from,
{
    if from < 0 || from >= readings.len() {
        readings.len() as int
    } else if is_marker(readings[from].definition) {
        from
    } else {
        run_end(readings, from + 1)
    }
}

/// The group that a class marker opens, with the given members.
pub open spec fn opened_group(marker: ControlReading, members: Seq<ControlNode>) -> ControlNode {
    ControlNode::Group {
        id: marker.definition.id,
        name: marker.definition.name@,
        members,
        flags: marker.definition.flags,
    }
}

/// `run_end` is the position of the first class marker at or after `from`.
pub proof fn lemma_run_end(readings: Seq<ControlReading>, from: int)
    requires
        0 <= from <= readings.len(),
    ensures
        from <= run_end(readings, from) <= readings.len(),
        forall|i: int|
            from <= i < run_end(readings, from) ==> !is_marker((#[trigger] readings[i]).definition),
        run_end(readings, from) < readings.len() ==> is_marker(
            readings[run_end(readings, from)].definition,
        ),
    decreases readings.len() - from,
{
    if from < readings.len() && !is_marker(readings[from].definition) {
        lemma_run_end(readings, from + 1);
    }
}

/// The tree of the first `n` readings, for a class marker at position `k`
/// before them: the group of the marker stands where the tree ended when
/// the marker came, and holds the controls that have followed the marker so
/// far, up to the next marker.
proof fn lemma_group_grows(readings: Seq<ControlReading>, k: int, n: int)
    requires
        0 <= k < n <= readings.len(),
        is_marker(readings[k].definition),
    ensures
        ({
            let at = control_tree(readings.take(k)).len() as int;
            let end = run_end(readings, k + 1);
            let tree = control_tree(readings.take(n));
            &&& at < tree.len()
            &&& n <= end ==> tree.len() == at + 1 && tree[at] == opened_group(
                readings[k],
                entries(readings.subrange(k + 1, n)),
            )
            &&& n > end ==> tree.len() > at + 1 && tree[at] == opened_group(
                readings[k],
                entries(readings.subrange(k + 1, end)),
            )
        }),
    decreases n,
{
    let at = control_tree(readings.take(k)).len() as int;
    let end = run_end(readings, k + 1);
    let tree = control_tree(readings.take(n));
    let before = control_tree(readings.take(n - 1));
    let node = descriptor(readings[n - 1]);
    lemma_run_end(readings, k + 1);
    lemma_descriptor_kind(readings[n - 1]);
    assert(readings.take(n).drop_last() =~= readings.take(n - 1));
    assert(readings.take(n).last() == readings[n - 1]);
    assert(tree == place(before, node));
    if n == k + 1 {
        assert(node->Group_members =~= Seq::empty());
        assert(entries(readings.subrange(k + 1, n)) =~= Seq::empty());
    } else {
        lemma_group_grows(readings, k, n - 1);
        if n <= end {
            assert(!is_marker(readings[n - 1].definition));
            assert(entries(readings.subrange(k + 1, n)) =~= entries(
                readings.subrange(k + 1, n - 1),
            ).push(node));
        } else if n - 1 == end {
            assert(is_marker(readings[end].definition));
        }
    }
}

/// Every control belongs to the group of the marker before it: the group
/// that the class marker at position `k` of the readings opens holds exactly
/// the controls that follow the marker, up to the next marker or the end of
/// the readings, in their order.
pub proof fn lemma_group_holds_run(readings: Seq<ControlReading>, k: int)
    requires
        0 <= k < readings.len(),
        is_marker(readings[k].definition),
    ensures
        ({
            let at = control_tree(readings.take(k)).len() as int;
            let tree = control_tree(readings);
            &&& at < tree.len()
            &&& tree[at] == opened_group(
                readings[k],
                entries(readings.subrange(k + 1, run_end(readings, k + 1))),
            )
        }),
{
    lemma_group_grows(readings, k, readings.len() as int);
    lemma_run_end(readings, k + 1);
    assert(readings.take(readings.len() as int) =~= readings);
    if readings.len() <= run_end(readings, k + 1) {
        assert(readings.subrange(k + 1, readings.len() as int) =~= readings.subrange(
            k + 1,
            run_end(readings, k + 1),
        ));
    }
}

/// Until the first class marker every control stands at the top level, at
/// its own position.
pub proof fn lemma_leading_controls(readings: Seq<ControlReading>, j: int)
    requires
        0 <= j < run_end(readings, 0),
    ensures
        j < control_tree(readings).len(),
        control_tree(readings)[j] == descriptor(readings[j]),
{
    lemma_run_end(readings, 0);
    lemma_leading_tree(readings, readings.len() as int);
    assert(readings.take(readings.len() as int) =~= readings);
}

/// The tree of the first `n` readings begins with the controls that come
/// before the first class marker, and holds nothing else until that marker
/// has come.
proof fn lemma_leading_tree(readings: Seq<ControlReading>, n: int)
    requires
        0 <= n <= readings.len(),
    ensures
        ({
            let end = run_end(readings, 0);
            let tree = control_tree(readings.take(n));
            &&& n <= end ==> tree.len() == n
            &&& n > end ==> tree.len() > end
            &&& forall|j: int|
                0 <= j < end && j < n ==> (#[trigger] tree[j]) == descriptor(readings[j])
            &&& forall|j: int| 0 <= j < end && j < n ==> !(#[trigger] tree[j] is Group)
        }),
    decreases n,
{
    let end = run_end(readings, 0);
    let tree = control_tree(readings.take(n));
    lemma_run_end(readings, 0);
    if n > 0 {
        let before = control_tree(readings.take(n - 1));
        let node = descriptor(readings[n - 1]);
        lemma_leading_tree(readings, n - 1);
        lemma_descriptor_kind(readings[n - 1]);
        assert(readings.take(n).drop_last() =~= readings.take(n - 1));
        assert(readings.take(n).last() == readings[n - 1]);
        assert(tree == place(before, node));
        if n <= end {
            assert(!is_marker(readings[n - 1].definition));
            if n - 1 > 0 {
                assert(!(before[n - 2] is Group));
            }
            assert(tree =~= before.push(node));
        } else if n - 1 == end {
            assert(is_marker(readings[end].definition));
            assert(tree =~= before.push(node));
        } else {
            assert forall|j: int| 0 <= j < end && j < n implies (#[trigger] tree[j])
                == descriptor(readings[j]) && !(tree[j] is Group) by {
                assert(before[j] == descriptor(readings[j]));
                assert(!(before[j] is Group));
            }
        }
    }
}

} // verus!
