//! The page that shows one device: its state, the form it lays out for the
//! device's controls, and what it asks for when the user acts on the form.

use vstd::prelude::*;
use crate::device::{
    disables, item_views, lemma_group_entry_view, node_id, nodes, set_control_val, ControlData,
    ControlGroup, ControlNode, ControlWrite, DeviceControls, MenuItem, MenuItemView, VideoDevice,
    VideoDeviceView,
};
use crate::hardware::{ControlType, ControlValue, ControlValueView};
use crate::text::{push_signed_decimal, signed_decimal};
use crate::tree::group_count;

verus! {

/// The state of the page.
#[derive(Debug, PartialEq, Eq)]
pub struct Content {
    open_dialog: OpenDialog,
}

/// Which dialog of the page is open.
#[derive(Clone, Copy, Debug, PartialEq, Eq, Structural)]
pub enum OpenDialog {
    /// No dialog is open.
    Closed,
    /// The dialog with the device's capabilities is open.
    Info,
}

/// What the user did on the page.
#[derive(Clone, Copy, Debug, PartialEq, Eq, Structural)]
pub enum Message {
    /// A slider was moved: the control and its new value.
    Slider(u32, i64),
    /// A toggle was switched: the control and its new state.
    Boolean(u32, bool),
    /// A menu item was picked: the control and the item's identifier.
    Menu(u32, u32),
    /// A button was pressed.
    ButtonPress(u32),
    /// A dialog was opened or closed.
    OpenDialog(OpenDialog),
    /// The profile of the device is to be stored.
    Save,
    /// Nothing to do.
    Ignored,
}

/// What the page asks its caller to do.
#[derive(Clone, Debug, PartialEq, Eq)]
pub enum Task {
    /// Store the profile of the device.
    Save,
    /// Write a value to a control of the device.
    Apply(ControlWrite),
}

/// One row of the form that shows a device.
#[allow(inconsistent_fields)]
#[derive(Clone, Debug, PartialEq, Eq)]
pub enum FormRow {
    /// The name of the device.
    DeviceTitle(String),
    /// The button that opens the dialog with the summary of the device's
    /// capabilities, and whether the dialog is open.
    DeviceInfo { open: bool, summary: String },
    /// The heading above the controls.
    Heading,
    /// A line between two groups.
    Divider,
    /// The name of a group.
    GroupTitle(String),
    /// An on/off control; `reset` is what its reset button sends, if it has
    /// one.
    Toggle { id: u32, label: String, value: bool, reset: Option<Message> },
    /// An integer control; `reset` is what its reset button sends, if it
    /// has one.
    Slider {
        id: u32,
        label: String,
        min: i64,
        max: i64,
        value: i64,
        step: u64,
        disabled: bool,
        reset: Option<Message>,
    },
    /// A menu control with the position of the selected item; `reset` is
    /// what its reset button sends, if it has one.
    Dropdown {
        id: u32,
        label: String,
        items: Vec<MenuItem>,
        selected: Option<usize>,
        reset: Option<Message>,
    },
    /// A button.
    Trigger { id: u32, label: String },
    /// A control of a type that has no widget.
    Unsupported { id: u32, name: String, control_type: ControlType },
    /// The name of a control that stands outside every group and has no
    /// widget.
    Label(String),
    /// The note that stands for any other control outside every group.
    NoWidget,
    /// The button that stores the profile.
    Save,
}

/// One row of the form as a mathematical value.
#[allow(inconsistent_fields)]
pub enum FormRowView {
    DeviceTitle(Seq<char>),
    DeviceInfo { open: bool, summary: Seq<char> },
    Heading,
    Divider,
    GroupTitle(Seq<char>),
    Toggle { id: u32, label: Seq<char>, value: bool, reset: Option<Message> },
    Slider {
        id: u32,
        label: Seq<char>,
        min: i64,
        max: i64,
        value: i64,
        step: u64,
        disabled: bool,
        reset: Option<Message>,
    },
    Dropdown {
        id: u32,
        label: Seq<char>,
        items: Seq<MenuItemView>,
        selected: Option<usize>,
        reset: Option<Message>,
    },
    Trigger { id: u32, label: Seq<char> },
    Unsupported { id: u32, name: Seq<char>, control_type: ControlType },
    Label(Seq<char>),
    NoWidget,
    Save,
}

impl View for FormRow {
    type V = FormRowView;

    open spec fn view(&self) -> FormRowView {
        match self {
            FormRow::DeviceTitle(name) => FormRowView::DeviceTitle(name@),
            FormRow::DeviceInfo { open, summary } => FormRowView::DeviceInfo {
                open: *open,
                summary: summary@,
            },
            FormRow::Heading => FormRowView::Heading,
            FormRow::Divider => FormRowView::Divider,
            FormRow::GroupTitle(name) => FormRowView::GroupTitle(name@),
            FormRow::Toggle { id, label, value, reset } => FormRowView::Toggle {
                id: *id,
                label: label@,
                value: *value,
                reset: *reset,
            },
            FormRow::Slider {
                id,
                label,
                min,
                max,
                value,
                step,
                disabled,
                reset,
            } => FormRowView::Slider {
                id: *id,
                label: label@,
                min: *min,
                max: *max,
                value: *value,
                step: *step,
                disabled: *disabled,
                reset: *reset,
            },
            FormRow::Dropdown { id, label, items, selected, reset } => FormRowView::Dropdown {
                id: *id,
                label: label@,
                items: item_views(items@),
                selected: *selected,
                reset: *reset,
            },
            FormRow::Trigger { id, label } => FormRowView::Trigger { id: *id, label: label@ },
            FormRow::Unsupported { id, name, control_type } => FormRowView::Unsupported {
                id: *id,
                name: name@,
                control_type: *control_type,
            },
            FormRow::Label(name) => FormRowView::Label(name@),
            FormRow::NoWidget => FormRowView::NoWidget,
            FormRow::Save => FormRowView::Save,
        }
    }
}

/// Rows as mathematical values.
pub open spec fn row_views(rows: Seq<FormRow>) -> Seq<FormRowView> {
    Seq::new(rows.len(), |i: int| rows[i]@)
}

/// The position of the first item with the identifier `wanted`; the number
/// of items where none has it.
pub open spec fn item_position(items: Seq<MenuItemView>, wanted: u32) -> int
    decreases items.len(),
{
    if items.len() == 0 {
        0
    } else if items[0].id == wanted {
        0
    } else {
        1 + item_position(items.drop_first(), wanted)
    }
}

/// The item that a menu shows as selected: the first one whose identifier
/// is the control's value, taken as 0 where the control has none.
pub open spec fn selected_item(items: Seq<MenuItemView>, value: Option<usize>) -> Option<usize> {
    let wanted = match value {
        Some(value) => value as u32,
        None => 0u32,
    };
    if item_position(items, wanted) < items.len() {
        Some(item_position(items, wanted) as usize)
    } else {
        None
    }
}

/// The row for one member of a group: the widget for the control's type. A
/// control has a reset button unless it is disabled or already at its
/// default, and the button sends the default as the control's new value. A
/// group inside a group has no row.
pub open spec fn member_rows(node: ControlNode) -> Seq<FormRowView> {
    match node {
        ControlNode::Group { .. } => Seq::empty(),
        ControlNode::Boolean { id, name, default, value, flags } => seq![
            FormRowView::Toggle {
                id,
                label: name,
                value,
                reset: if disables(flags) || default == value {
                    None
                } else {
                    Some(Message::Boolean(id, default))
                },
            },
        ],
        ControlNode::Integer { id, name, min, max, step, default, value, flags } => seq![
            FormRowView::Slider {
                id,
                label: name + ": "@ + signed_decimal(value as int),
                min,
                max,
                value,
                step,
                disabled: disables(flags),
                reset: if disables(flags) || default == value {
                    None
                } else {
                    Some(Message::Slider(id, default))
                },
            },
        ],
        ControlNode::Menu { id, name, default, value, items, flags } => seq![
            FormRowView::Dropdown {
                id,
                label: name,
                items,
                selected: selected_item(items, value),
                reset: if disables(flags) || default as u32 == (match value {
                    Some(value) => value as u32,
                    None => 0u32,
                }) {
                    None
                } else {
                    Some(Message::Menu(id, default as u32))
                },
            },
        ],
        ControlNode::Button { id, name, .. } => seq![FormRowView::Trigger { id, label: name }],
        ControlNode::Other { id, name, control_type, .. } => seq![
            FormRowView::Unsupported { id, name, control_type },
        ],
    }
}

/// The rows for the members of a group, in their order.
pub open spec fn group_rows(members: Seq<ControlNode>) -> Seq<FormRowView>
    decreases members.len(),
{
    if members.len() == 0 {
        Seq::empty()
    } else {
        group_rows(members.drop_last()) + member_rows(members.last())
    }
}

/// The rows for one entry of the tree that follows `groups_before` groups: a
/// group gives a divider unless it is the first group, then its title and
/// the rows of its members; a control outside every group gives its name
/// where its type has no descriptor, and a note otherwise.
pub open spec fn entry_rows(node: ControlNode, groups_before: nat) -> Seq<FormRowView> {
    match node {
        ControlNode::Group { name, members, .. } => (if groups_before > 0 {
            seq![FormRowView::Divider]
        } else {
            Seq::empty()
        }) + seq![FormRowView::GroupTitle(name)] + group_rows(members),
        ControlNode::Other { name, .. } => seq![FormRowView::Label(name)],
        _ => seq![FormRowView::NoWidget],
    }
}

/// The rows for a control tree.
pub open spec fn tree_rows(tree: Seq<ControlNode>) -> Seq<FormRowView>
    decreases tree.len(),
{
    if tree.len() == 0 {
        Seq::empty()
    } else {
        tree_rows(tree.drop_last()) + entry_rows(tree.last(), group_count(tree.drop_last()))
    }
}

/// The form for a device: its title, the button for the summary of its
/// capabilities, the heading, the rows for its controls, and the button
/// that stores the profile.
pub open spec fn form(dialog: OpenDialog, device: VideoDeviceView) -> Seq<FormRowView> {
    seq![
        FormRowView::DeviceTitle(device.name),
        FormRowView::DeviceInfo {
            open: dialog == OpenDialog::Info,
            summary: device.capabilities.summary,
        },
        FormRowView::Heading,
    ] + tree_rows(device.controls) + seq![FormRowView::Save]
}

/// The value that a message asks to write, with the control it is for.
pub open spec fn requested_write(message: Message) -> Option<(u32, ControlValueView)> {
    match message {
        Message::Slider(id, value) => Some((id, ControlValueView::Integer(value))),
        Message::Boolean(id, value) => Some((id, ControlValueView::Boolean(value))),
        Message::Menu(id, item) => Some((id, ControlValueView::Integer(item as i64))),
        Message::ButtonPress(id) => Some((id, ControlValueView::Trigger)),
        _ => None,
    }
}

/// What the reset button of a row sends, if the row has one.
pub open spec fn row_reset(row: FormRowView) -> Option<Message> {
    match row {
        FormRowView::Toggle { reset, .. } => reset,
        FormRowView::Slider { reset, .. } => reset,
        FormRowView::Dropdown { reset, .. } => reset,
        _ => None,
    }
}

/// The value that a write of a control's recorded default carries: the
/// default itself, for a menu as a 32-bit number.
pub open spec fn default_value(node: ControlNode) -> Option<ControlValueView> {
    match node {
        ControlNode::Integer { default, .. } => Some(ControlValueView::Integer(default)),
        ControlNode::Boolean { default, .. } => Some(ControlValueView::Boolean(default)),
        ControlNode::Menu { default, .. } => Some(
            ControlValueView::Integer((default as u32) as i64),
        ),
        _ => None,
    }
}

/// Resetting goes the way of every other change: the reset button of a
/// control sends a message that asks to write the control's recorded
/// default to that control.
pub proof fn lemma_reset_writes_default(node: ControlNode)
    ensures
        member_rows(node).len() <= 1,
        member_rows(node).len() == 1 && row_reset(member_rows(node)[0]) is Some ==> default_value(
            node,
        ) is Some && requested_write(row_reset(member_rows(node)[0])->0) == Some(
            (node_id(node), default_value(node)->0),
        ),
{
}

/// Whether a value is of the kind that a control of this type takes: an
/// integer for an integer or a menu control, an on/off value for an on/off
/// control, and no payload for a button.
pub open spec fn value_fits(node: ControlNode, value: ControlValueView) -> bool {
    match node {
        ControlNode::Integer { .. } => value is Integer,
        ControlNode::Boolean { .. } => value is Boolean,
        ControlNode::Menu { .. } => value is Integer,
        ControlNode::Button { .. } => value is Trigger,
        _ => false,
    }
}

/// Whether `message` is one that the widgets of `row` send: what the reset
/// button holds, or what the widget makes of a new state, a position of the
/// slider, an item of the menu or a press.
pub open spec fn row_sends(row: FormRowView, message: Message) -> bool {
    ||| row_reset(row) == Some(message)
    ||| match (row, message) {
        (FormRowView::Toggle { id, .. }, Message::Boolean(target, _)) => target == id,
        (FormRowView::Slider { id, disabled, .. }, Message::Slider(target, _)) => target == id
            && !disabled,
        (FormRowView::Slider { disabled, .. }, Message::Ignored) => disabled,
        (FormRowView::Dropdown { id, items, .. }, Message::Menu(target, item)) => target == id
            && exists|k: int| 0 <= k < items.len() && (#[trigger] items[k]).id == item,
        (FormRowView::Dropdown { .. }, Message::Ignored) => true,
        (FormRowView::Trigger { id, .. }, Message::ButtonPress(target)) => target == id,
        _ => false,
    }
}

/// The form asks for typed writes only: whatever the row of a control
/// sends, it asks at most for a write to that very control, with a value of
/// the kind that the control's type takes.
pub proof fn lemma_row_writes_fit(node: ControlNode, message: Message)
    requires
        member_rows(node).len() == 1,
        row_sends(member_rows(node)[0], message),
    ensures
        requested_write(message) matches Some((id, value)) ==> id == node_id(node) && value_fits(
            node,
            value,
        ),
{
}

/// Whether `task` and the page `after` are what the page `before` makes of
/// `message` for the device `dev`: a write to the control that was changed,
/// with a value of the kind that the widget stands for, or the storing of
/// the profile, or nothing; and a dialog opened or closed by the message.
pub open spec fn updated(
    before: Content,
    after: Content,
    dev: VideoDevice,
    message: Message,
    task: Option<Task>,
) -> bool {
    &&& after.dialog() == (match message {
        Message::OpenDialog(dialog) => dialog,
        _ => before.dialog(),
    })
    &&& match requested_write(message) {
        Some((id, value)) => task matches Some(Task::Apply(write)) && write.path@ == dev.path@
            && write.id == id && write.value@ == value,
        None => task == (if message == Message::Save {
            Some(Task::Save)
        } else {
            None
        }),
    }
}

/// What a slider sends when it is moved to `value`: nothing to do where the
/// control is disabled.
pub fn slider_message(id: u32, disabled: bool, value: i64) -> (message: Message)
    ensures
        message == (if disabled {
            Message::Ignored
        } else {
            Message::Slider(id, value)
        }),
{
    if disabled {
        Message::Ignored
    } else {
        Message::Slider(id, value)
    }
}

/// What a menu sends when the item at `position` is picked: the item's
/// identifier; nothing to do where there is no such item.
pub fn menu_message(id: u32, items: &Vec<MenuItem>, position: usize) -> (message: Message)
    ensures
        message == (if position < items@.len() {
            Message::Menu(id, items@[position as int].id)
        } else {
            Message::Ignored
        }),
{
    if position < items.len() {
        Message::Menu(id, items[position].id)
    } else {
        Message::Ignored
    }
}

/// `item_position` is the position of the first item with that identifier.
pub proof fn lemma_item_position(items: Seq<MenuItemView>, wanted: u32)
    ensures
        0 <= item_position(items, wanted) <= items.len(),
        forall|i: int| 0 <= i < item_position(items, wanted) ==> (#[trigger] items[i]).id != wanted,
        item_position(items, wanted) < items.len() ==> items[item_position(items, wanted)].id
            == wanted,
    decreases items.len(),
{
    if items.len() > 0 && items[0].id != wanted {
        let rest = items.drop_first();
        lemma_item_position(rest, wanted);
        assert forall|i: int| 0 <= i < item_position(items, wanted) implies (
        #[trigger] items[i]).id != wanted by {
            if i > 0 {
                assert(items[i] == rest[i - 1]);
            }
        }
        if item_position(rest, wanted) < rest.len() {
            assert(items[item_position(items, wanted)] == rest[item_position(rest, wanted)]);
        }
    }
}

/// A copy of the items of a menu.
fn copy_items(items: &Vec<MenuItem>) -> (copy: Vec<MenuItem>)
    ensures
        item_views(copy@) == item_views(items@),
{
    let mut copy: Vec<MenuItem> = Vec::new();
    let mut i: usize = 0;
    while i < items.len()
        invariant
            0 <= i <= items@.len(),
            copy@.len() == i,
            forall|j: int| 0 <= j < i ==> (#[trigger] copy@[j])@ == items@[j]@,
        decreases items@.len() - i,
    {
        copy.push(MenuItem { id: items[i].id, label: items[i].label.clone() });
        i = i + 1;
    }
    proof {
        assert(item_views(copy@) =~= item_views(items@));
    }
    copy
}

/// The position of the item that a menu shows as selected.
fn selected_position(items: &Vec<MenuItem>, value: Option<usize>) -> (selected: Option<usize>)
    ensures
        selected == selected_item(item_views(items@), value),
{
    let wanted: u32 = match value {
        Some(value) => #[verifier::truncate]
        (value as u32),
        None => 0,
    };
    proof {
        lemma_item_position(item_views(items@), wanted);
    }
    let ghost first = item_position(item_views(items@), wanted);
    let mut i: usize = 0;
    while i < items.len()
        invariant
            0 <= i <= items@.len(),
            wanted == (match value {
                Some(value) => value as u32,
                None => 0u32,
            }),
            first == item_position(item_views(items@), wanted),
            0 <= first <= items@.len(),
            i <= first,
            first < items@.len() ==> item_views(items@)[first].id == wanted,
            forall|j: int| 0 <= j < first ==> (#[trigger] item_views(items@)[j]).id != wanted,
        decreases items@.len() - i,
    {
        if items[i].id == wanted {
            proof {
                assert(item_views(items@)[i as int].id == wanted);
                assert(first == i);
            }
            return Some(i);
        }
        proof {
            assert(item_views(items@)[i as int].id != wanted);
        }
        i = i + 1;
    }
    None
}

/// The low 32 bits of an item's identifier.
fn low_bits(value: usize) -> (bits: u32)
    ensures
        bits == value as u32,
{
    #[verifier::truncate]
    (value as u32)
}

/// The row for one member of a group, if it has one.
fn member_row(control: &DeviceControls) -> (row: Option<FormRow>)
    ensures
        match row {
            Some(row) => member_rows(control@) == seq![row@],
            None => member_rows(control@) == Seq::<FormRowView>::empty(),
        },
{
    match control {
        DeviceControls::ControlGroup(group) => {
            proof {
                lemma_group_entry_view(*group);
            }
            None
        },
        DeviceControls::Boolean(control) => {
            let disabled = control.is_disabled();
            let reset = if disabled || control.default == control.value {
                None
            } else {
                Some(Message::Boolean(control.id, control.default))
            };
            Some(
                FormRow::Toggle {
                    id: control.id,
                    label: control.name.clone(),
                    value: control.value,
                    reset,
                },
            )
        },
        DeviceControls::Integer(control) => {
            let disabled = control.is_disabled();
            let reset = if disabled || control.default == control.value {
                None
            } else {
                Some(Message::Slider(control.id, control.default))
            };
            let mut label = control.name.clone();
            label.append(": ");
            push_signed_decimal(&mut label, control.value);
            Some(
                FormRow::Slider {
                    id: control.id,
                    label,
                    min: control.min,
                    max: control.max,
                    value: control.value,
                    step: control.step,
                    disabled,
                    reset,
                },
            )
        },
        DeviceControls::Menu(control) => {
            let disabled = control.is_disabled();
            let default = low_bits(control.default);
            let current = match control.value {
                Some(value) => low_bits(value),
                None => 0,
            };
            let reset = if disabled || default == current {
                None
            } else {
                Some(Message::Menu(control.id, default))
            };
            Some(
                FormRow::Dropdown {
                    id: control.id,
                    label: control.name.clone(),
                    items: copy_items(&control.menu_items),
                    selected: selected_position(&control.menu_items, control.value),
                    reset,
                },
            )
        },
        DeviceControls::Button(control) => Some(
            FormRow::Trigger { id: control.id, label: control.name.clone() },
        ),
        DeviceControls::Control(control) => Some(
            FormRow::Unsupported {
                id: control.id,
                name: control.name.clone(),
                control_type: control.control_type,
            },
        ),
    }
}

/// Adds the rows for the members of a group.
fn push_group_rows(rows: &mut Vec<FormRow>, group: &ControlGroup)
    ensures
        row_views(final(rows)@) == row_views(old(rows)@) + group_rows(nodes(group.controls@)),
{
    let ghost before = row_views(rows@);
    let ghost members = nodes(group.controls@);
    proof {
        assert(members.take(0) =~= Seq::empty());
        assert(row_views(rows@) =~= before + group_rows(members.take(0)));
    }
    let mut i: usize = 0;
    while i < group.controls.len()
        invariant
            0 <= i <= group.controls@.len(),
            members == nodes(group.controls@),
            row_views(rows@) == before + group_rows(members.take(i as int)),
        decreases group.controls@.len() - i,
    {
        proof {
            let next = members.take(i + 1);
            assert(next.drop_last() =~= members.take(i as int));
            assert(next.last() == group.controls@[i as int]@);
        }
        let ghost shown = row_views(rows@);
        match member_row(&group.controls[i]) {
            Some(row) => {
                rows.push(row);
                proof {
                    assert(row_views(rows@) =~= shown + seq![row@]);
                    assert(row_views(rows@) =~= before + group_rows(members.take(i + 1)));
                }
            },
            None => {
                proof {
                    assert(row_views(rows@) =~= before + group_rows(members.take(i + 1)));
                }
            },
        }
        i = i + 1;
    }
    proof {
        assert(members.take(members.len() as int) =~= members);
    }
}

impl Content {
    /// The dialog that is open.
    pub closed spec fn dialog(&self) -> OpenDialog {
        self.open_dialog
    }

    /// A page with no dialog open.
    pub fn new() -> (content: Content)
        ensures
            content.dialog() == OpenDialog::Closed,
    {
        Content { open_dialog: OpenDialog::Closed }
    }

    /// The dialog that is open.
    pub fn open_dialog(&self) -> (dialog: OpenDialog)
        ensures
            dialog == self.dialog(),
    {
        self.open_dialog
    }

    /// Takes what the user did and says what is to be done: a write to the
    /// control that was changed, with a value of the kind that the widget
    /// stands for, or the storing of the profile. Only a message that opens
    /// or closes a dialog changes the page itself.
    pub fn update(&mut self, dev: &VideoDevice, message: Message) -> (task: Option<Task>)
        ensures
            updated(*old(self), *final(self), *dev, message, task),
    {
        match message {
            Message::Ignored => None,
            Message::Save => Some(Task::Save),
            Message::Slider(id, value) => Some(
                Task::Apply(set_control_val(dev, id, ControlValue::Integer(value))),
            ),
            Message::Boolean(id, value) => Some(
                Task::Apply(set_control_val(dev, id, ControlValue::Boolean(value))),
            ),
            Message::Menu(id, item) => Some(
                Task::Apply(set_control_val(dev, id, ControlValue::Integer(item as i64))),
            ),
            Message::ButtonPress(id) => Some(
                Task::Apply(set_control_val(dev, id, ControlValue::Trigger)),
            ),
            Message::OpenDialog(dialog) => {
                self.open_dialog = dialog;
                None
            },
        }
    }

    /// Lays out the form for a device: the title, the button for the
    /// summary of its capabilities, the heading, then the device's groups, each with its title and
    /// one row for each of its controls and with a divider before every
    /// group but the first, and at the end the button that stores the
    /// profile.
    pub fn device_controls(&self, dev: &VideoDevice) -> (rows: Vec<FormRow>)
        ensures
            row_views(rows@) == form(self.dialog(), dev@),
    {
        let mut rows: Vec<FormRow> = Vec::new();
        rows.push(FormRow::DeviceTitle(dev.name.clone()));
        rows.push(
            FormRow::DeviceInfo {
                open: match self.open_dialog {
                    OpenDialog::Info => true,
                    OpenDialog::Closed => false,
                },
                summary: dev.capabilities.summary.clone(),
            },
        );
        rows.push(FormRow::Heading);
        let ghost head = row_views(rows@);
        let ghost tree = nodes(dev.controls@);
        proof {
            assert(head =~= seq![
                FormRowView::DeviceTitle(dev.name@),
                FormRowView::DeviceInfo {
                    open: self.dialog() == OpenDialog::Info,
                    summary: dev.capabilities.summary@,
                },
                FormRowView::Heading,
            ]);
            assert(tree.take(0) =~= Seq::empty());
            assert(row_views(rows@) =~= head + tree_rows(tree.take(0)));
        }
        let mut groups: usize = 0;
        let mut i: usize = 0;
        while i < dev.controls.len()
            invariant
                0 <= i <= dev.controls@.len(),
                tree == nodes(dev.controls@),
                groups == group_count(tree.take(i as int)),
                groups <= i,
                row_views(rows@) == head + tree_rows(tree.take(i as int)),
            decreases dev.controls@.len() - i,
        {
            proof {
                let next = tree.take(i + 1);
                assert(next.drop_last() =~= tree.take(i as int));
                assert(next.last() == dev.controls@[i as int]@);
            }
            let ghost shown = row_views(rows@);
            match &dev.controls[i] {
                DeviceControls::ControlGroup(group) => {
                    proof {
                        lemma_group_entry_view(*group);
                    }
                    if groups > 0 {
                        rows.push(FormRow::Divider);
                    }
                    groups = groups + 1;
                    rows.push(FormRow::GroupTitle(group.name.clone()));
                    let ghost titled = row_views(rows@);
                    proof {
                        assert(titled =~= shown + (if groups > 1 {
                            seq![FormRowView::Divider]
                        } else {
                            Seq::empty()
                        }) + seq![FormRowView::GroupTitle(group.name@)]);
                    }
                    push_group_rows(&mut rows, group);
                    proof {
                        assert(row_views(rows@) =~= head + tree_rows(tree.take(i + 1)));
                    }
                },
                DeviceControls::Control(control) => {
                    rows.push(FormRow::Label(control.name.clone()));
                    proof {
                        assert(row_views(rows@) =~= shown + seq![FormRowView::Label(control.name@)]);
                        assert(dev.controls@[i as int]@ is Other);
                        assert(row_views(rows@) =~= head + tree_rows(tree.take(i + 1)));
                    }
                },
                _ => {
                    rows.push(FormRow::NoWidget);
                    proof {
                        assert(row_views(rows@) =~= shown + seq![FormRowView::NoWidget]);
                        assert(!(dev.controls@[i as int]@ is Other));
                        assert(!(dev.controls@[i as int]@ is Group));
                        assert(row_views(rows@) =~= head + tree_rows(tree.take(i + 1)));
                    }
                },
            }
            i = i + 1;
        }
        let ghost body = row_views(rows@);
        rows.push(FormRow::Save);
        proof {
            assert(tree.take(tree.len() as int) =~= tree);
            assert(row_views(rows@) =~= body + seq![FormRowView::Save]);
        }
        rows
    }
}

} // verus!
