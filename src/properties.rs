//! Names for camera controls and their attributes.
use vstd::prelude::*;

verus! {

/// A platform's own control identifier.
pub type PlatformSpecificControlId = u64;

/// Which control of a camera.
#[derive(Copy, Clone, Debug, Hash, Ord, PartialOrd, Eq, PartialEq, Structural)]
pub enum ControlId {
    FocusMode,
    FocusAutoType,
    FocusAutoRange,
    FocusAbsolute,
    FocusRelative,
    FocusStatus,
    ExposureMode,
    ExposureBias,
    ExposureTime,
    ExposureAutoPriority,
    ExposureIsoMode,
    ExposureIsoSensitivity,
    ExposureApertureAbsolute,
    ExposureApertureRelative,
    WhiteBalanceMode,
    WhiteBalanceTemperature,
    ZoomMode,
    LightingMode,
    PlatformSpecific(PlatformSpecificControlId),
}

/// The kind of value a control takes.
#[derive(Copy, Clone, Debug, Hash, Ord, PartialOrd, Eq, PartialEq, Structural)]
pub enum ControlType {
    Button,
    Integer,
    Menu,
    IntegerMenu,
    BinaryMenu,
    Bitmask,
    String,
}

/// Attributes a control can carry.
#[derive(Copy, Clone, Debug, Hash, Ord, PartialOrd, Eq, PartialEq, Structural)]
pub enum ControlFlags {
    Disabled,
    Busy,
    ReadOnly,
    CascadingUpdates,
    Inactive,
    Slider,
    WriteOnly,
    ContinuousChange,
    ExecuteOnWrite,
}

/// The capture backends known to the library.
#[derive(Copy, Clone, Debug, Ord, PartialOrd, Eq, PartialEq)]
pub enum Backends {
    Video4Linux2,
    WebWASM,
    AVFoundation,
    MicrosoftMediaFoundation,
    Custom(&'static str),
}

} // verus!
