//! The control model of one device: the descriptors of its controls, the
//! tree they form, the list of devices, and the writes and the profile that
//! are derived from them.

use std::collections::HashMap;
use vstd::prelude::*;
use vstd::std_specs::hash::group_hash_axioms;
use crate::hardware::{
    Capabilities, CapabilitiesView, CapabilityFlags, ControlDefinition, ControlFlags,
    ControlReading, ControlType, ControlValue, ControlValueView, DeviceProbe, MenuEntry,
    CAPABILITY_META_CAPTURE, CONTROL_DISABLED, CONTROL_INACTIVE, CONTROL_READ_ONLY,
};
use crate::listing::{lemma_enumerated_paths_distinct, paths_distinct, probe_paths_distinct};
use crate::profile::{ids_distinct, lemma_stored_for_each, stored_as};
use crate::storage::SaveData;
use crate::text::{signed_decimal, signed_decimal_string};
use crate::tree::{
    entries, flat, group_count, lemma_flat_tree_is_readings, lemma_one_group_per_marker,
    lemma_tree_well_formed, marker_count, well_formed,
};

verus! {

/// One device with the tree of its controls.
#[derive(Debug, PartialEq, Eq)]
pub struct VideoDevice {
    /// Display name.
    pub name: String,
    /// Path of the device node: the key by which a device is found again.
    pub path: String,
    /// Index that the system gave the node.
    pub index: usize,
    /// What the device reported about itself.
    pub capabilities: Capabilities,
    /// The control tree; empty until the controls have been queried.
    pub controls: Vec<DeviceControls>,
}

/// A control of a type that the model has no descriptor for, kept with the
/// raw values that the device reported.
#[derive(Clone, Debug, PartialEq, Eq)]
pub struct Control {
    pub id: u32,
    pub name: String,
    pub min: i64,
    pub max: i64,
    pub step: u64,
    pub default: i64,
    pub value: ControlValue,
    pub control_type: ControlType,
    pub menu_items: Option<Vec<(u32, String)>>,
    pub flags: ControlFlags,
}

/// A control with an integer value in a range.
#[derive(Clone, Debug, PartialEq, Eq)]
pub struct IntegerControl {
    pub id: u32,
    pub name: String,
    pub min: i64,
    pub max: i64,
    pub step: u64,
    pub default: i64,
    pub value: i64,
    pub flags: ControlFlags,
}

/// A control that is on or off.
#[derive(Clone, Debug, PartialEq, Eq)]
pub struct BooleanControl {
    pub id: u32,
    pub name: String,
    pub default: bool,
    pub value: bool,
    pub flags: ControlFlags,
}

/// A control whose value is one item of a menu.
#[derive(Clone, Debug, PartialEq, Eq)]
pub struct MenuControl {
    pub id: u32,
    pub name: String,
    /// Identifier of the default item.
    pub default: usize,
    /// Identifier of the selected item, if any.
    pub value: Option<usize>,
    /// The items, in the device's order.
    pub menu_items: Vec<MenuItem>,
    pub flags: ControlFlags,
}

/// One selectable item of a menu control.
#[derive(Clone, Debug, PartialEq, Eq)]
pub struct MenuItem {
    pub id: u32,
    pub label: String,
}

/// A control that is pressed and holds no value.
#[derive(Clone, Debug, PartialEq, Eq)]
pub struct ButtonControl {
    pub id: u32,
    pub name: String,
    pub default: usize,
    pub value: Option<bool>,
    pub flags: ControlFlags,
}

/// A named group of controls: one class of the device.
#[derive(Debug, PartialEq, Eq)]
pub struct ControlGroup {
    pub id: u32,
    pub name: String,
    pub controls: Vec<DeviceControls>,
    pub flags: ControlFlags,
}

/// One entry of a control tree.
#[derive(Debug, PartialEq, Eq)]
pub enum DeviceControls {
    ControlGroup(ControlGroup),
    Integer(IntegerControl),
    Boolean(BooleanControl),
    Control(Control),
    Menu(MenuControl),
    Button(ButtonControl),
}

/// A menu item as a mathematical value.
pub struct MenuItemView {
    pub id: u32,
    pub label: Seq<char>,
}

/// One entry of a control tree as a mathematical value.
#[allow(inconsistent_fields)]
pub enum ControlNode {
    Group { id: u32, name: Seq<char>, members: Seq<ControlNode>, flags: ControlFlags },
    Integer {
        id: u32,
        name: Seq<char>,
        min: i64,
        max: i64,
        step: u64,
        default: i64,
        value: i64,
        flags: ControlFlags,
    },
    Boolean { id: u32, name: Seq<char>, default: bool, value: bool, flags: ControlFlags },
    Menu {
        id: u32,
        name: Seq<char>,
        default: usize,
        value: Option<usize>,
        items: Seq<MenuItemView>,
        flags: ControlFlags,
    },
    Button { id: u32, name: Seq<char>, default: usize, value: Option<bool>, flags: ControlFlags },
    Other {
        id: u32,
        name: Seq<char>,
        min: i64,
        max: i64,
        step: u64,
        default: i64,
        value: ControlValueView,
        control_type: ControlType,
        menu_items: Option<Seq<(u32, Seq<char>)>>,
        flags: ControlFlags,
    },
}

/// A device as a mathematical value.
pub struct VideoDeviceView {
    pub name: Seq<char>,
    pub path: Seq<char>,
    pub index: usize,
    pub capabilities: CapabilitiesView,
    pub controls: Seq<ControlNode>,
}

impl View for MenuItem {
    type V = MenuItemView;

    open spec fn view(&self) -> MenuItemView {
        MenuItemView { id: self.id, label: self.label@ }
    }
}

/// The items of a menu as mathematical values.
pub open spec fn item_views(items: Seq<MenuItem>) -> Seq<MenuItemView> {
    Seq::new(items.len(), |i: int| items[i]@)
}

/// Numbered labels as mathematical values.
pub open spec fn label_views(labels: Seq<(u32, String)>) -> Seq<(u32, Seq<char>)> {
    Seq::new(labels.len(), |i: int| (labels[i].0, labels[i].1@))
}

impl View for IntegerControl {
    type V = ControlNode;

    open spec fn view(&self) -> ControlNode {
        ControlNode::Integer {
            id: self.id,
            name: self.name@,
            min: self.min,
            max: self.max,
            step: self.step,
            default: self.default,
            value: self.value,
            flags: self.flags,
        }
    }
}

impl View for BooleanControl {
    type V = ControlNode;

    open spec fn view(&self) -> ControlNode {
        ControlNode::Boolean {
            id: self.id,
            name: self.name@,
            default: self.default,
            value: self.value,
            flags: self.flags,
        }
    }
}

impl View for MenuControl {
    type V = ControlNode;

    open spec fn view(&self) -> ControlNode {
        ControlNode::Menu {
            id: self.id,
            name: self.name@,
            default: self.default,
            value: self.value,
            items: item_views(self.menu_items@),
            flags: self.flags,
        }
    }
}

impl View for ButtonControl {
    type V = ControlNode;

    open spec fn view(&self) -> ControlNode {
        ControlNode::Button {
            id: self.id,
            name: self.name@,
            default: self.default,
            value: self.value,
            flags: self.flags,
        }
    }
}

impl View for Control {
    type V = ControlNode;

    open spec fn view(&self) -> ControlNode {
        ControlNode::Other {
            id: self.id,
            name: self.name@,
            min: self.min,
            max: self.max,
            step: self.step,
            default: self.default,
            value: self.value@,
            control_type: self.control_type,
            menu_items: match self.menu_items {
                Some(labels) => Some(label_views(labels@)),
                None => None,
            },
            flags: self.flags,
        }
    }
}

/// The tree entry `control` as a mathematical value.
pub open spec fn node_of(control: DeviceControls) -> ControlNode
    decreases control,
{
    match control {
        DeviceControls::ControlGroup(group) => ControlNode::Group {
            id: group.id,
            name: group.name@,
            members: Seq::new(
                group.controls.len() as nat,
                |i: int|
                    if 0 <= i < group.controls.len() {
                        node_of(group.controls[i])
                    } else {
                        arbitrary()
                    },
            ),
            flags: group.flags,
        },
        DeviceControls::Integer(control) => control@,
        DeviceControls::Boolean(control) => control@,
        DeviceControls::Control(control) => control@,
        DeviceControls::Menu(control) => control@,
        DeviceControls::Button(control) => control@,
    }
}

impl View for DeviceControls {
    type V = ControlNode;

    open spec fn view(&self) -> ControlNode {
        node_of(*self)
    }
}

/// The entries of a tree as mathematical values.
pub open spec fn nodes(controls: Seq<DeviceControls>) -> Seq<ControlNode> {
    Seq::new(controls.len(), |i: int| controls[i]@)
}

impl View for ControlGroup {
    type V = ControlNode;

    open spec fn view(&self) -> ControlNode {
        ControlNode::Group {
            id: self.id,
            name: self.name@,
            members: nodes(self.controls@),
            flags: self.flags,
        }
    }
}

impl View for VideoDevice {
    type V = VideoDeviceView;

    open spec fn view(&self) -> VideoDeviceView {
        VideoDeviceView {
            name: self.name@,
            path: self.path@,
            index: self.index,
            capabilities: self.capabilities@,
            controls: nodes(self.controls@),
        }
    }
}

/// A group as an entry of a tree is the group itself.
pub proof fn lemma_group_entry_view(group: ControlGroup)
    ensures
        DeviceControls::ControlGroup(group)@ == group@,
{
    let entry = DeviceControls::ControlGroup(group);
    let members = entry@->Group_members;
    assert(members =~= nodes(group.controls@));
}

/// The flags that take a control out of the user's hands: read-only,
/// disabled and inactive.
pub open spec fn disabling_bits() -> u32 {
    CONTROL_READ_ONLY | CONTROL_DISABLED | CONTROL_INACTIVE
}

/// Whether a control with these flags is shown as disabled: one of the
/// disabling flags is set.
pub open spec fn disables(flags: ControlFlags) -> bool {
    flags.bits & disabling_bits() != 0
}

/// A control is disabled exactly when its flags hold read-only, disabled or
/// inactive.
pub proof fn lemma_disabled_iff_flagged(flags: ControlFlags)
    ensures
        disables(flags) <==> (flags.spec_has(CONTROL_READ_ONLY) || flags.spec_has(
            CONTROL_DISABLED,
        ) || flags.spec_has(CONTROL_INACTIVE)),
{
    let bits = flags.bits;
    assert((bits & (0x0004u32 | 0x0001u32 | 0x0010u32) != 0) <==> (bits & 0x0004u32 != 0 || bits
        & 0x0001u32 != 0 || bits & 0x0010u32 != 0)) by (bit_vector);
}

/// The flags that disable a control.
pub fn disabled_flags() -> (mask: ControlFlags)
    ensures
        mask.bits == disabling_bits(),
{
    ControlFlags { bits: CONTROL_READ_ONLY | CONTROL_DISABLED | CONTROL_INACTIVE }
}

/// What every control descriptor offers.
pub trait ControlData {
    /// The flags that the device reported for the control.
    spec fn source_flags(&self) -> ControlFlags;

    /// Whether the control is shown as disabled: it is exactly when the
    /// flags from the device hold read-only, disabled or inactive.
    fn is_disabled(&self) -> (disabled: bool)
        ensures
            disabled == disables(self.source_flags()),
            disabled <==> (self.source_flags().spec_has(CONTROL_READ_ONLY)
                || self.source_flags().spec_has(CONTROL_DISABLED) || self.source_flags().spec_has(
                CONTROL_INACTIVE,
            )),
    ;
}

impl ControlData for Control {
    open spec fn source_flags(&self) -> ControlFlags {
        self.flags
    }

    fn is_disabled(&self) -> (disabled: bool) {
        proof {
            lemma_disabled_iff_flagged(self.flags);
        }
        self.flags.intersects(disabled_flags())
    }
}

impl ControlData for IntegerControl {
    open spec fn source_flags(&self) -> ControlFlags {
        self.flags
    }

    fn is_disabled(&self) -> (disabled: bool) {
        proof {
            lemma_disabled_iff_flagged(self.flags);
        }
        self.flags.intersects(disabled_flags())
    }
}

impl ControlData for BooleanControl {
    open spec fn source_flags(&self) -> ControlFlags {
        self.flags
    }

    fn is_disabled(&self) -> (disabled: bool) {
        proof {
            lemma_disabled_iff_flagged(self.flags);
        }
        self.flags.intersects(disabled_flags())
    }
}

impl ControlData for MenuControl {
    open spec fn source_flags(&self) -> ControlFlags {
        self.flags
    }

    fn is_disabled(&self) -> (disabled: bool) {
        proof {
            lemma_disabled_iff_flagged(self.flags);
        }
        self.flags.intersects(disabled_flags())
    }
}

impl ControlData for ButtonControl {
    open spec fn source_flags(&self) -> ControlFlags {
        self.flags
    }

    fn is_disabled(&self) -> (disabled: bool) {
        proof {
            lemma_disabled_iff_flagged(self.flags);
        }
        self.flags.intersects(disabled_flags())
    }
}

impl MenuItem {
    /// The label under which the item is shown.
    pub fn as_ref(&self) -> (label: &str)
        ensures
            label@ == self.label@,
    {
        self.label.as_str()
    }
}

/// The label under which a menu entry is shown: the name that the device
/// gives it; for a bare number, `Off` for 0, `On` for 1 and the number in
/// decimal otherwise.
pub open spec fn entry_label(entry: MenuEntry) -> Seq<char> {
    match entry {
        MenuEntry::Name(name) => name@,
        MenuEntry::Value(value) => if value == 0 {
            "Off"@
        } else if value == 1 {
            "On"@
        } else {
            signed_decimal(value as int)
        },
    }
}

/// The items of a menu control for the entries that the device reported: one
/// item for each entry, in the same order; none where the device reported no
/// entries.
pub open spec fn menu_item_views(items: Option<Vec<(u32, MenuEntry)>>) -> Seq<MenuItemView> {
    match items {
        Some(entries) => Seq::new(
            entries@.len(),
            |i: int| MenuItemView { id: entries@[i].0, label: entry_label(entries@[i].1) },
        ),
        None => Seq::empty(),
    }
}

/// The integer that is shown for a control: the value that was read, or the
/// declared default where the read failed or gave another kind of value.
pub open spec fn integer_value(reading: ControlReading) -> i64 {
    match reading.live {
        Some(ControlValue::Integer(value)) => value,
        _ => reading.definition.default,
    }
}

/// The state that is shown for an on/off control: the value that was read,
/// or the declared default where the read failed or gave another kind of
/// value.
pub open spec fn boolean_value(reading: ControlReading) -> bool {
    match reading.live {
        Some(ControlValue::Boolean(value)) => value,
        _ => reading.definition.default != 0,
    }
}

/// The value that is kept for a control of a type without a descriptor of
/// its own: the value that was read, or no value where the read failed.
pub open spec fn raw_value(reading: ControlReading) -> ControlValueView {
    match reading.live {
        Some(value) => value@,
        None => ControlValueView::Trigger,
    }
}

/// The tree entry for one reading: an empty group for a class marker, else
/// the descriptor for the declared type.
pub open spec fn descriptor(reading: ControlReading) -> ControlNode {
    let definition = reading.definition;
    match definition.typ {
        ControlType::CtrlClass => ControlNode::Group {
            id: definition.id,
            name: definition.name@,
            members: Seq::empty(),
            flags: definition.flags,
        },
        ControlType::Integer => ControlNode::Integer {
            id: definition.id,
            name: definition.name@,
            min: definition.minimum,
            max: definition.maximum,
            step: definition.step,
            default: definition.default,
            value: integer_value(reading),
            flags: definition.flags,
        },
        ControlType::Boolean => ControlNode::Boolean {
            id: definition.id,
            name: definition.name@,
            default: definition.default != 0,
            value: boolean_value(reading),
            flags: definition.flags,
        },
        ControlType::Menu => ControlNode::Menu {
            id: definition.id,
            name: definition.name@,
            default: definition.default as usize,
            value: Some(integer_value(reading) as usize),
            items: menu_item_views(definition.items),
            flags: definition.flags,
        },
        ControlType::Button => ControlNode::Button {
            id: definition.id,
            name: definition.name@,
            default: definition.default as usize,
            value: None,
            flags: definition.flags,
        },
        _ => ControlNode::Other {
            id: definition.id,
            name: definition.name@,
            min: definition.minimum,
            max: definition.maximum,
            step: definition.step,
            default: definition.default,
            value: raw_value(reading),
            control_type: definition.typ,
            menu_items: Some(seq![(0u32, Seq::<char>::empty())]),
            flags: definition.flags,
        },
    }
}

/// The flags of a tree entry.
pub open spec fn node_flags(node: ControlNode) -> ControlFlags {
    match node {
        ControlNode::Group { flags, .. } => flags,
        ControlNode::Integer { flags, .. } => flags,
        ControlNode::Boolean { flags, .. } => flags,
        ControlNode::Menu { flags, .. } => flags,
        ControlNode::Button { flags, .. } => flags,
        ControlNode::Other { flags, .. } => flags,
    }
}

/// The identifier of a tree entry.
pub open spec fn node_id(node: ControlNode) -> u32 {
    match node {
        ControlNode::Group { id, .. } => id,
        ControlNode::Integer { id, .. } => id,
        ControlNode::Boolean { id, .. } => id,
        ControlNode::Menu { id, .. } => id,
        ControlNode::Button { id, .. } => id,
        ControlNode::Other { id, .. } => id,
    }
}

/// The descriptor of a control carries the identifier and the flags that
/// the device reported, so it is disabled exactly when the flags from the
/// device hold read-only, disabled or inactive.
pub proof fn lemma_descriptor_disabled(reading: ControlReading)
    ensures
        node_id(descriptor(reading)) == reading.definition.id,
        node_flags(descriptor(reading)) == reading.definition.flags,
        disables(node_flags(descriptor(reading))) <==> (reading.definition.flags.spec_has(
            CONTROL_READ_ONLY,
        ) || reading.definition.flags.spec_has(CONTROL_DISABLED)
            || reading.definition.flags.spec_has(CONTROL_INACTIVE)),
{
    lemma_disabled_iff_flagged(reading.definition.flags);
}

/// A query shows what the device reports: where an integer was read for an
/// integer control, or an on/off value for an on/off control, the
/// descriptor holds that value, whatever the default is.
pub proof fn lemma_descriptor_shows_reading(reading: ControlReading)
    ensures
        reading.definition.typ == ControlType::Integer ==> forall|value: i64|
            reading.live == Some(ControlValue::Integer(value)) ==> descriptor(reading)
                is Integer && descriptor(reading)->Integer_value == value,
        reading.definition.typ == ControlType::Boolean ==> forall|value: bool|
            reading.live == Some(ControlValue::Boolean(value)) ==> descriptor(reading)
                is Boolean && descriptor(reading)->Boolean_value == value,
{
}

/// Whether the definition is a class marker, which opens a group.
pub open spec fn is_marker(definition: ControlDefinition) -> bool {
    definition.typ == ControlType::CtrlClass
}

/// Whether a query reads the current value of the control from the device:
/// it does for every control with a value, that is for all but class markers
/// and buttons.
pub open spec fn spec_reads_live_value(definition: &ControlDefinition) -> bool {
    definition.typ != ControlType::CtrlClass && definition.typ != ControlType::Button
}

/// Whether a query reads the current value of the control from the device.
#[verifier::when_used_as_spec(spec_reads_live_value)]
pub fn reads_live_value(definition: &ControlDefinition) -> (reads: bool)
    ensures
        reads == spec_reads_live_value(definition),
{
    match definition.typ {
        ControlType::CtrlClass => false,
        ControlType::Button => false,
        _ => true,
    }
}

/// The label under which a menu entry is shown.
pub fn menu_label(entry: MenuEntry) -> (label: String)
    ensures
        label@ == entry_label(entry),
{
    match entry {
        MenuEntry::Name(name) => name,
        MenuEntry::Value(value) => {
            if value == 0 {
                "Off".to_owned()
            } else if value == 1 {
                "On".to_owned()
            } else {
                signed_decimal_string(value)
            }
        },
    }
}

/// The items of a menu control for the entries that the device reported.
pub fn menu_items(items: Option<Vec<(u32, MenuEntry)>>) -> (list: Vec<MenuItem>)
    ensures
        item_views(list@) == menu_item_views(items),
{
    let mut list: Vec<MenuItem> = Vec::new();
    match items {
        Some(entries) => {
            for entry in it: entries.into_iter()
                invariant
                    it.seq() == entries@,
                    list@.len() == it.index(),
                    forall|i: int|
                        0 <= i < list@.len() ==> (#[trigger] list@[i])@ == (MenuItemView {
                            id: entries@[i].0,
                            label: entry_label(entries@[i].1),
                        }),
            {
                let label = menu_label(entry.1);
                list.push(MenuItem { id: entry.0, label });
            }
            proof {
                assert(item_views(list@) =~= menu_item_views(items));
            }
        },
        None => {
            proof {
                assert(item_views(list@) =~= menu_item_views(items));
            }
        },
    }
    list
}

/// A value of a menu control as the identifier of an item.
fn to_index(value: i64) -> (index: usize)
    ensures
        index == value as usize,
{
    #[verifier::truncate]
    (value as usize)
}

/// The tree entry for one reading: an empty group for a class marker, else
/// the descriptor for the declared type, with the value that was read or,
/// where none of the right kind was read, the declared default.
pub fn build_control(reading: ControlReading) -> (control: DeviceControls)
    ensures
        control@ == descriptor(reading),
{
    let ControlReading { definition, live } = reading;
    match definition.typ {
        ControlType::CtrlClass => {
            let group = ControlGroup {
                id: definition.id,
                name: definition.name,
                controls: Vec::new(),
                flags: definition.flags,
            };
            proof {
                lemma_group_entry_view(group);
                assert(nodes(group.controls@) =~= Seq::empty());
            }
            DeviceControls::ControlGroup(group)
        },
        ControlType::Integer => {
            let value = match live {
                Some(ControlValue::Integer(value)) => value,
                _ => definition.default,
            };
            DeviceControls::Integer(
                IntegerControl {
                    id: definition.id,
                    name: definition.name,
                    min: definition.minimum,
                    max: definition.maximum,
                    step: definition.step,
                    default: definition.default,
                    value,
                    flags: definition.flags,
                },
            )
        },
        ControlType::Boolean => {
            let value = match live {
                Some(ControlValue::Boolean(value)) => value,
                _ => definition.default != 0,
            };
            DeviceControls::Boolean(
                BooleanControl {
                    id: definition.id,
                    name: definition.name,
                    default: definition.default != 0,
                    value,
                    flags: definition.flags,
                },
            )
        },
        ControlType::Menu => {
            let value = match live {
                Some(ControlValue::Integer(value)) => value,
                _ => definition.default,
            };
            DeviceControls::Menu(
                MenuControl {
                    id: definition.id,
                    name: definition.name,
                    default: to_index(definition.default),
                    value: Some(to_index(value)),
                    menu_items: menu_items(definition.items),
                    flags: definition.flags,
                },
            )
        },
        ControlType::Button => DeviceControls::Button(
            ButtonControl {
                id: definition.id,
                name: definition.name,
                default: to_index(definition.default),
                value: None,
                flags: definition.flags,
            },
        ),
        _ => {
            let value = match live {
                Some(value) => value,
                None => ControlValue::Trigger,
            };
            let mut labels: Vec<(u32, String)> = Vec::new();
            labels.push((0, String::new()));
            proof {
                assert(label_views(labels@) =~= seq![(0u32, Seq::<char>::empty())]);
            }
            DeviceControls::Control(
                Control {
                    id: definition.id,
                    name: definition.name,
                    min: definition.minimum,
                    max: definition.maximum,
                    step: definition.step,
                    default: definition.default,
                    value,
                    control_type: definition.typ,
                    menu_items: Some(labels),
                    flags: definition.flags,
                },
            )
        },
    }
}

/// The group `group` with `node` added as its last member; an entry that is
/// no group stays as it is.
pub open spec fn with_member(group: ControlNode, node: ControlNode) -> ControlNode {
    match group {
        ControlNode::Group { id, name, members, flags } => ControlNode::Group {
            id,
            name,
            members: members.push(node),
            flags,
        },
        _ => group,
    }
}

/// The tree after `node` has been met: a group opens at the top level; a
/// control joins the group that was opened last, or stands at the top level
/// where the tree does not end in a group.
pub open spec fn place(tree: Seq<ControlNode>, node: ControlNode) -> Seq<ControlNode> {
    if !(node is Group) && tree.len() > 0 && tree.last() is Group {
        tree.update(tree.len() - 1, with_member(tree.last(), node))
    } else {
        tree.push(node)
    }
}

/// The control tree for the readings of one device, taken in the device's
/// order.
pub open spec fn control_tree(readings: Seq<ControlReading>) -> Seq<ControlNode>
    decreases readings.len(),
{
    if readings.len() == 0 {
        Seq::empty()
    } else {
        place(control_tree(readings.drop_last()), descriptor(readings.last()))
    }
}

/// Adds one entry to a tree: a group opens at the top level; a control joins
/// the group that was opened last, or stands at the top level where the tree
/// does not end in a group.
pub fn append_control(tree: &mut Vec<DeviceControls>, control: DeviceControls)
    ensures
        nodes(final(tree)@) == place(nodes(old(tree)@), control@),
{
    let ghost before = nodes(tree@);
    match control {
        DeviceControls::ControlGroup(group) => {
            tree.push(DeviceControls::ControlGroup(group));
            proof {
                assert(nodes(tree@) =~= place(before, control@));
            }
        },
        member => {
            match tree.pop() {
                Some(DeviceControls::ControlGroup(group)) => {
                    let ghost front = nodes(tree@);
                    let ghost opened = DeviceControls::ControlGroup(group);
                    let mut group = group;
                    let ghost members = nodes(group.controls@);
                    proof {
                        lemma_group_entry_view(group);
                        assert(before =~= front.push(opened@));
                    }
                    group.controls.push(member);
                    proof {
                        lemma_group_entry_view(group);
                        assert(nodes(group.controls@) =~= members.push(member@));
                    }
                    tree.push(DeviceControls::ControlGroup(group));
                    proof {
                        assert(nodes(tree@) =~= place(before, control@));
                    }
                },
                Some(last) => {
                    let ghost front = nodes(tree@);
                    proof {
                        assert(before =~= front.push(last@));
                    }
                    tree.push(last);
                    tree.push(member);
                    proof {
                        assert(nodes(tree@) =~= place(before, control@));
                    }
                },
                None => {
                    tree.push(member);
                    proof {
                        assert(nodes(tree@) =~= place(before, control@));
                    }
                },
            }
        },
    }
}

/// Builds the control tree of a device from the readings of its controls,
/// taken in the device's order: every class marker opens a group, and every
/// control joins the group that was opened last before it, or stands at the
/// top level where no group has been opened yet.
///
/// So the tree has one group for each marker, groups hold controls only,
/// and the tree written out flat gives back the readings in their order.
pub fn get_device_controls(readings: Vec<ControlReading>) -> (tree: Vec<DeviceControls>)
    ensures
        nodes(tree@) == control_tree(readings@),
        well_formed(nodes(tree@)),
        flat(nodes(tree@)) == entries(readings@),
        group_count(nodes(tree@)) == marker_count(readings@),
{
    let mut tree: Vec<DeviceControls> = Vec::new();
    proof {
        assert(readings@.take(0) =~= Seq::empty());
        assert(nodes(tree@) =~= control_tree(readings@.take(0)));
    }
    for reading in it: readings.into_iter()
        invariant
            it.seq() == readings@,
            nodes(tree@) == control_tree(readings@.take(it.index() as int)),
    {
        proof {
            let next = readings@.take(it.index() + 1);
            assert(next.drop_last() =~= readings@.take(it.index() as int));
            assert(next.last() == reading);
        }
        let control = build_control(reading);
        append_control(&mut tree, control);
    }
    proof {
        assert(readings@.take(readings@.len() as int) =~= readings@);
        lemma_tree_well_formed(readings@);
        lemma_flat_tree_is_readings(readings@);
        lemma_one_group_per_marker(readings@);
    }
    tree
}

/// The kinds of failure that the model reports.
#[derive(Clone, Copy, Debug, PartialEq, Eq, Structural)]
pub enum DeviceErrorKind {
    /// No listed device has the path that was asked for.
    NotFound,
    /// The device could not be opened.
    Unavailable,
    /// The device did not list its controls.
    QueryFailed,
    /// The device refused a value that was written to a control.
    WriteRejected,
}

/// A failure, with what is known about it: the path that was asked for when
/// no device was found, else the reason that the system gave.
#[derive(Clone, Debug, PartialEq, Eq)]
pub struct DeviceError {
    pub kind: DeviceErrorKind,
    pub detail: String,
}

/// The text of a failure for the user.
pub open spec fn error_text(kind: DeviceErrorKind, detail: Seq<char>) -> Seq<char> {
    if kind == DeviceErrorKind::NotFound {
        "Device not found: "@ + detail
    } else {
        detail
    }
}

impl DeviceError {
    /// The text of the failure for the user.
    pub fn message(&self) -> (text: String)
        ensures
            text@ == error_text(self.kind, self.detail@),
    {
        match self.kind {
            DeviceErrorKind::NotFound => {
                let mut text = "Device not found: ".to_owned();
                text.append(self.detail.as_str());
                text
            },
            _ => self.detail.clone(),
        }
    }
}

/// The capability that marks a device that only captures metadata.
pub open spec fn meta_capture() -> CapabilityFlags {
    CapabilityFlags { bits: CAPABILITY_META_CAPTURE }
}

/// Whether a probed device node is listed as a device: its name, its path
/// and its capabilities could be read, and it is no metadata-only device.
pub open spec fn listed(probe: DeviceProbe) -> bool {
    &&& probe.name is Some
    &&& probe.path is Some
    &&& probe.capabilities is Some
    &&& !probe.capabilities->0.capabilities.spec_contains(meta_capture())
}

/// The device that is listed for a probed node, with no controls yet.
pub open spec fn device_of(probe: DeviceProbe) -> VideoDeviceView {
    VideoDeviceView {
        name: probe.name->0@,
        path: probe.path->0@,
        index: probe.index,
        capabilities: probe.capabilities->0@,
        controls: Seq::empty(),
    }
}

/// The devices that are listed for the probed nodes: one for each node that
/// is listed, in the order of the nodes.
pub open spec fn enumerated(probes: Seq<DeviceProbe>) -> Seq<VideoDeviceView>
    decreases probes.len(),
{
    if probes.len() == 0 {
        Seq::empty()
    } else if listed(probes.last()) {
        enumerated(probes.drop_last()).push(device_of(probes.last()))
    } else {
        enumerated(probes.drop_last())
    }
}

/// Devices as mathematical values.
pub open spec fn device_views(devices: Seq<VideoDevice>) -> Seq<VideoDeviceView> {
    Seq::new(devices.len(), |i: int| devices[i]@)
}

/// Lists the devices among the probed nodes of the system, in the order of
/// the nodes. A node whose name, path or capabilities could not be read is
/// left out, and so is a device that only captures metadata. The devices
/// carry no controls yet.
///
/// No two of the devices have the same path, as long as no two nodes of the
/// system have.
pub fn get_devices(probes: Vec<DeviceProbe>) -> (devices: Vec<VideoDevice>)
    ensures
        device_views(devices@) == enumerated(probes@),
        probe_paths_distinct(probes@) ==> paths_distinct(device_views(devices@)),
{
    let mut devices: Vec<VideoDevice> = Vec::new();
    proof {
        assert(probes@.take(0) =~= Seq::empty());
        assert(device_views(devices@) =~= enumerated(probes@.take(0)));
    }
    for probe in it: probes.into_iter()
        invariant
            it.seq() == probes@,
            device_views(devices@) == enumerated(probes@.take(it.index() as int)),
    {
        proof {
            let next = probes@.take(it.index() + 1);
            assert(next.drop_last() =~= probes@.take(it.index() as int));
            assert(next.last() == probe);
        }
        let ghost before = device_views(devices@);
        let DeviceProbe { index, name, path, capabilities } = probe;
        match (name, path, capabilities) {
            (Some(name), Some(path), Some(capabilities)) => {
                let meta = CapabilityFlags { bits: CAPABILITY_META_CAPTURE };
                if !capabilities.capabilities.contains(meta) {
                    let device = VideoDevice {
                        name,
                        path,
                        index,
                        capabilities,
                        controls: Vec::new(),
                    };
                    proof {
                        assert(nodes(device.controls@) =~= Seq::empty());
                        assert(device@ == device_of(probe));
                    }
                    devices.push(device);
                    proof {
                        assert(device_views(devices@) =~= before.push(device@));
                    }
                }
            },
            _ => {},
        }
    }
    proof {
        assert(probes@.take(probes@.len() as int) =~= probes@);
        if probe_paths_distinct(probes@) {
            lemma_enumerated_paths_distinct(probes@);
        }
    }
    devices
}

/// Whether one of the devices has the path `path`.
pub open spec fn has_path(devices: Seq<VideoDeviceView>, path: Seq<char>) -> bool {
    exists|i: int| 0 <= i < devices.len() && (#[trigger] devices[i]).path == path
}

/// The position of the first device with the path `path`; the number of
/// devices where none has it.
pub open spec fn first_with_path(devices: Seq<VideoDeviceView>, path: Seq<char>) -> int
    decreases devices.len(),
{
    if devices.len() == 0 {
        0
    } else if devices[0].path == path {
        0
    } else {
        1 + first_with_path(devices.drop_first(), path)
    }
}

/// `first_with_path` is the position of the first device with that path.
pub proof fn lemma_first_with_path(devices: Seq<VideoDeviceView>, path: Seq<char>)
    ensures
        0 <= first_with_path(devices, path) <= devices.len(),
        forall|i: int|
            0 <= i < first_with_path(devices, path) ==> (#[trigger] devices[i]).path != path,
        first_with_path(devices, path) < devices.len() ==> devices[first_with_path(
            devices,
            path,
        )].path == path,
        has_path(devices, path) <==> first_with_path(devices, path) < devices.len(),
    decreases devices.len(),
{
    if devices.len() > 0 && devices[0].path != path {
        let rest = devices.drop_first();
        lemma_first_with_path(rest, path);
        assert forall|i: int| 0 <= i < first_with_path(devices, path) implies (
        #[trigger] devices[i]).path != path by {
            if i > 0 {
                assert(devices[i] == rest[i - 1]);
            }
        }
        if first_with_path(rest, path) < rest.len() {
            assert(devices[first_with_path(devices, path)] == rest[first_with_path(rest, path)]);
        }
    }
}

/// What resolving a path gives: the failure `NotFound` with the path where
/// no listed device has it; else the failure of the control query where it
/// failed; else the first listed device with that path, with the control
/// tree for the readings.
pub open spec fn resolved(
    probes: Seq<DeviceProbe>,
    path: Seq<char>,
    listing: Result<Vec<ControlReading>, DeviceError>,
) -> Result<VideoDeviceView, (DeviceErrorKind, Seq<char>)> {
    let devices = enumerated(probes);
    if !has_path(devices, path) {
        Err((DeviceErrorKind::NotFound, path))
    } else {
        match listing {
            Err(error) => Err((error.kind, error.detail@)),
            Ok(readings) => {
                let found = devices[first_with_path(devices, path)];
                Ok(
                    VideoDeviceView {
                        name: found.name,
                        path: found.path,
                        index: found.index,
                        capabilities: found.capabilities,
                        controls: control_tree(readings@),
                    },
                )
            },
        }
    }
}

/// The outcome of a call as a mathematical value.
pub open spec fn outcome_view(outcome: Result<VideoDevice, DeviceError>) -> Result<
    VideoDeviceView,
    (DeviceErrorKind, Seq<char>),
> {
    match outcome {
        Ok(device) => Ok(device@),
        Err(error) => Err((error.kind, error.detail@)),
    }
}

/// Resolves a path to a device with its control tree. `probes` is a fresh
/// enumeration of the system's nodes and `listing` the outcome of querying
/// the controls of the device at `path`: the readings, or the failure to
/// open the device or to list its controls.
///
/// Fails with `NotFound` where no listed device has the path, and with the
/// failure of the query where the device is listed but the query failed.
pub fn get_device_by_path(
    probes: Vec<DeviceProbe>,
    path: &str,
    listing: Result<Vec<ControlReading>, DeviceError>,
) -> (outcome: Result<VideoDevice, DeviceError>)
    ensures
        outcome_view(outcome) == resolved(probes@, path@, listing),
{
    let devices = get_devices(probes);
    let wanted = path.to_owned();
    let ghost listed = enumerated(probes@);
    for device in it: devices.into_iter()
        invariant
            it.seq() == devices@,
            wanted@ == path@,
            listed == enumerated(probes@),
            device_views(devices@) == listed,
            forall|i: int| 0 <= i < it.index() ==> (#[trigger] listed[i]).path != path@,
    {
        proof {
            assert(listed[it.index() as int] == devices@[it.index() as int]@);
        }
        if device.path == wanted {
            proof {
                lemma_first_with_path(listed, path@);
                let first = first_with_path(listed, path@);
                if first < it.index() {
                    assert(listed[first].path == path@);
                }
            }
            return match listing {
                Ok(readings) => {
                    let VideoDevice { name, path, index, capabilities, controls: _ } = device;
                    Ok(
                        VideoDevice {
                            name,
                            path,
                            index,
                            capabilities,
                            controls: get_device_controls(readings),
                        },
                    )
                },
                Err(error) => Err(error),
            };
        }
    }
    proof {
        lemma_first_with_path(listed, path@);
    }
    Err(DeviceError { kind: DeviceErrorKind::NotFound, detail: wanted })
}

/// A write of one value to one control of one device.
#[derive(Clone, Debug, PartialEq, Eq)]
pub struct ControlWrite {
    /// Path of the device, which is opened for this write alone.
    pub path: String,
    /// Identifier of the control.
    pub id: u32,
    /// The value to write.
    pub value: ControlValue,
}

/// The write that sets the control `control_id` of the device to `value`.
/// The device is named by its path: it is opened anew for every write.
pub fn set_control_val(dev: &VideoDevice, control_id: u32, value: ControlValue) -> (write:
    ControlWrite)
    ensures
        write.path@ == dev.path@,
        write.id == control_id,
        write.value == value,
{
    ControlWrite { path: dev.path.clone(), id: control_id, value }
}

/// The number under which a value is stored in a profile: an integer as its
/// low 32 bits, an on/off value as 1 or 0; nothing for a value of another
/// kind.
pub open spec fn encoded(value: ControlValue) -> Option<u32> {
    match value {
        ControlValue::Integer(value) => Some(value as u32),
        ControlValue::Boolean(value) => Some(
            if value {
                1u32
            } else {
                0u32
            },
        ),
        _ => None,
    }
}

/// What a profile stores for one reading: the encoded value of a control
/// whose value was read; nothing for a button or a class marker, nor where
/// no value was read.
pub open spec fn persisted(reading: ControlReading) -> Option<u32> {
    if reading.definition.typ == ControlType::Button || reading.definition.typ
        == ControlType::CtrlClass {
        None
    } else {
        match reading.live {
            Some(value) => encoded(value),
            None => None,
        }
    }
}

/// The profile for the readings of one device: under the identifier of each
/// control what is stored for it; a later reading of an identifier replaces
/// an earlier one.
pub open spec fn profile(readings: Seq<ControlReading>) -> Map<u32, u32>
    decreases readings.len(),
{
    if readings.len() == 0 {
        Map::empty()
    } else {
        let front = profile(readings.drop_last());
        match persisted(readings.last()) {
            Some(value) => front.insert(readings.last().definition.id, value),
            None => front,
        }
    }
}

/// The number under which a value is stored in a profile, if it is stored.
pub fn encode_value(value: &ControlValue) -> (number: Option<u32>)
    ensures
        number == encoded(*value),
{
    match value {
        ControlValue::Integer(value) => Some(
            #[verifier::truncate]
            (*value as u32),
        ),
        ControlValue::Boolean(value) => Some(
            if *value {
                1
            } else {
                0
            },
        ),
        _ => None,
    }
}

/// Projects fresh readings of a device's controls into the profile that is
/// stored for the device: the device's name and bus position, and the
/// encoded value of every control whose value was read, without buttons
/// and class markers. The control tree of the device plays no part.
///
/// Where every control has an identifier of its own, the profile holds for
/// each reading what is stored for it, and so holds no button.
pub fn get_device_save_data(device: &VideoDevice, readings: &Vec<ControlReading>) -> (data:
    SaveData)
    ensures
        data@.device_name == device.name@,
        data@.bus == device.capabilities.bus@,
        data@.controls == profile(readings@),
        ids_distinct(readings@) ==> forall|k: int|
            0 <= k < readings@.len() ==> stored_as(data@.controls, #[trigger] readings@[k]),
{
    broadcast use group_hash_axioms;

    let mut controls: HashMap<u32, u32> = HashMap::new();
    proof {
        assert(readings@.take(0) =~= Seq::empty());
    }
    let mut i: usize = 0;
    while i < readings.len()
        invariant
            0 <= i <= readings@.len(),
            controls@ == profile(readings@.take(i as int)),
        decreases readings@.len() - i,
    {
        proof {
            let next = readings@.take(i + 1);
            assert(next.drop_last() =~= readings@.take(i as int));
            assert(next.last() == readings@[i as int]);
        }
        let reading = &readings[i];
        match reading.definition.typ {
            ControlType::Button => {},
            ControlType::CtrlClass => {},
            _ => {
                match &reading.live {
                    Some(value) => {
                        match encode_value(value) {
                            Some(number) => {
                                controls.insert(reading.definition.id, number);
                            },
                            None => {},
                        }
                    },
                    None => {},
                }
            },
        }
        i = i + 1;
    }
    proof {
        assert(readings@.take(readings@.len() as int) =~= readings@);
        if ids_distinct(readings@) {
            assert forall|k: int| 0 <= k < readings@.len() implies stored_as(
                controls@,
                #[trigger] readings@[k],
            ) by {
                lemma_stored_for_each(readings@, k);
            }
        }
    }
    SaveData {
        device_name: device.name.clone(),
        bus: device.capabilities.bus.clone(),
        controls,
    }
}

} // verus!
