//! What a video-capture device reports, as plain values: the definitions of
//! its controls, their current values and the device's capabilities. The
//! model in `device` is built from these records alone, so it never touches a
//! device itself.

use vstd::prelude::*;

verus! {

/// Flag of a control that is permanently disabled.
pub const CONTROL_DISABLED: u32 = 0x0001;

/// Flag of a control that another application has grabbed.
pub const CONTROL_GRABBED: u32 = 0x0002;

/// Flag of a control that can only be read.
pub const CONTROL_READ_ONLY: u32 = 0x0004;

/// Flag of a control whose change may change other controls.
pub const CONTROL_UPDATE: u32 = 0x0008;

/// Flag of a control that does not apply in the device's current state.
pub const CONTROL_INACTIVE: u32 = 0x0010;

/// Flag of a control that is best shown as a slider.
pub const CONTROL_SLIDER: u32 = 0x0020;

/// Flag of a control that can only be written.
pub const CONTROL_WRITE_ONLY: u32 = 0x0040;

/// Flag of a control whose value changes by itself.
pub const CONTROL_VOLATILE: u32 = 0x0080;

/// Capability flag of a device that captures video.
pub const CAPABILITY_VIDEO_CAPTURE: u32 = 0x0000_0001;

/// Capability flag of a device that only captures metadata.
pub const CAPABILITY_META_CAPTURE: u32 = 0x0080_0000;

/// Capability flag of a device that supports streaming.
pub const CAPABILITY_STREAMING: u32 = 0x0400_0000;

/// The flags of one control, as the bits that the device reports.
#[derive(Clone, Copy, Debug, PartialEq, Eq, Structural)]
pub struct ControlFlags {
    pub bits: u32,
}

impl ControlFlags {
    /// Whether this set and `other` have a flag in common.
    pub open spec fn spec_intersects(self, other: ControlFlags) -> bool {
        self.bits & other.bits != 0
    }

    /// Whether this set and `other` have a flag in common.
    #[verifier::when_used_as_spec(spec_intersects)]
    pub fn intersects(self, other: ControlFlags) -> (r: bool)
        ensures
            r == self.spec_intersects(other),
    {
        self.bits & other.bits != 0
    }

    /// Whether the flag `flag` (one of the `CONTROL_` constants) is set.
    pub open spec fn spec_has(self, flag: u32) -> bool {
        self.bits & flag != 0
    }

    /// Whether the flag `flag` (one of the `CONTROL_` constants) is set.
    #[verifier::when_used_as_spec(spec_has)]
    pub fn has(self, flag: u32) -> (r: bool)
        ensures
            r == self.spec_has(flag),
    {
        self.bits & flag != 0
    }
}

/// The capability flags of a device, as the bits that the device reports.
#[derive(Clone, Copy, Debug, PartialEq, Eq, Structural)]
pub struct CapabilityFlags {
    pub bits: u32,
}

impl CapabilityFlags {
    /// Whether every flag of `other` is set here too.
    pub open spec fn spec_contains(self, other: CapabilityFlags) -> bool {
        self.bits & other.bits == other.bits
    }

    /// Whether every flag of `other` is set here too.
    #[verifier::when_used_as_spec(spec_contains)]
    pub fn contains(self, other: CapabilityFlags) -> (r: bool)
        ensures
            r == self.spec_contains(other),
    {
        self.bits & other.bits == other.bits
    }
}

/// The data type that a device declares for a control.
#[derive(Clone, Copy, Debug, PartialEq, Eq, Structural)]
pub enum ControlType {
    Integer,
    Boolean,
    Menu,
    Button,
    Integer64,
    /// Not a control: the marker that opens a class of controls.
    CtrlClass,
    String,
    Bitmask,
    IntegerMenu,
    U8,
    U16,
    U32,
    Area,
}

/// The value of a control, as it is read from a device or written to it.
#[derive(Clone, Debug, PartialEq, Eq)]
pub enum ControlValue {
    /// No payload: what a button is pressed with.
    Trigger,
    Integer(i64),
    Boolean(bool),
    String(String),
    CompoundU8(Vec<u8>),
    CompoundU16(Vec<u16>),
    CompoundU32(Vec<u32>),
    CompoundPtr(Vec<u8>),
}

/// A control value as a mathematical value.
pub enum ControlValueView {
    Trigger,
    Integer(i64),
    Boolean(bool),
    String(Seq<char>),
    CompoundU8(Seq<u8>),
    CompoundU16(Seq<u16>),
    CompoundU32(Seq<u32>),
    CompoundPtr(Seq<u8>),
}

impl View for ControlValue {
    type V = ControlValueView;

    open spec fn view(&self) -> ControlValueView {
        match self {
            ControlValue::Trigger => ControlValueView::Trigger,
            ControlValue::Integer(v) => ControlValueView::Integer(*v),
            ControlValue::Boolean(v) => ControlValueView::Boolean(*v),
            ControlValue::String(v) => ControlValueView::String(v@),
            ControlValue::CompoundU8(v) => ControlValueView::CompoundU8(v@),
            ControlValue::CompoundU16(v) => ControlValueView::CompoundU16(v@),
            ControlValue::CompoundU32(v) => ControlValueView::CompoundU32(v@),
            ControlValue::CompoundPtr(v) => ControlValueView::CompoundPtr(v@),
        }
    }
}

/// One entry of a menu, as the device reports it: a name, or a bare number
/// where the device has no name for it.
#[derive(Clone, Debug, PartialEq, Eq)]
pub enum MenuEntry {
    Name(String),
    Value(i64),
}

/// The definition of one control, or of one class marker, as a device
/// reports it.
#[derive(Clone, Debug, PartialEq, Eq)]
pub struct ControlDefinition {
    /// Identifier of the control, from the device's own namespace.
    pub id: u32,
    /// Declared type.
    pub typ: ControlType,
    /// Name for the user.
    pub name: String,
    /// Smallest value, inclusive.
    pub minimum: i64,
    /// Largest value, inclusive.
    pub maximum: i64,
    /// Step between two values.
    pub step: u64,
    /// Default value.
    pub default: i64,
    /// Flags.
    pub flags: ControlFlags,
    /// The entries of a menu control, each with its index.
    pub items: Option<Vec<(u32, MenuEntry)>>,
}

/// One definition together with the outcome of reading the control's current
/// value: `None` where the read failed or was not made.
#[derive(Clone, Debug, PartialEq, Eq)]
pub struct ControlReading {
    pub definition: ControlDefinition,
    pub live: Option<ControlValue>,
}

/// The version of a driver.
#[derive(Clone, Copy, Debug, PartialEq, Eq, Structural)]
pub struct DriverVersion {
    pub major: u8,
    pub minor: u8,
    pub patch: u8,
}

/// What a device reports about itself.
#[derive(Clone, Debug, PartialEq, Eq)]
pub struct Capabilities {
    /// Name of the driver.
    pub driver: String,
    /// Name of the card.
    pub card: String,
    /// Where the device sits on its bus.
    pub bus: String,
    /// Version of the driver.
    pub version: DriverVersion,
    /// Capability flags.
    pub capabilities: CapabilityFlags,
    /// All of the above written out for the user.
    pub summary: String,
}

/// The capabilities of a device as a mathematical value.
pub struct CapabilitiesView {
    pub driver: Seq<char>,
    pub card: Seq<char>,
    pub bus: Seq<char>,
    pub version: DriverVersion,
    pub capabilities: CapabilityFlags,
    pub summary: Seq<char>,
}

impl View for Capabilities {
    type V = CapabilitiesView;

    open spec fn view(&self) -> CapabilitiesView {
        CapabilitiesView {
            driver: self.driver@,
            card: self.card@,
            bus: self.bus@,
            version: self.version,
            capabilities: self.capabilities,
            summary: self.summary@,
        }
    }
}

/// What the enumeration of the system's video devices found for one device
/// node. A field is `None` where it could not be read.
#[derive(Clone, Debug, PartialEq, Eq)]
pub struct DeviceProbe {
    /// Index that the system gave the node.
    pub index: usize,
    /// Display name.
    pub name: Option<String>,
    /// Path of the node.
    pub path: Option<String>,
    /// Capabilities that the device reported.
    pub capabilities: Option<Capabilities>,
}

} // verus!
