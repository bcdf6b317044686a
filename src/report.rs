//! Diagnostics, statistics and the report that a check produces, with the
//! mathematical views that contracts speak of.

use vstd::prelude::*;

verus! {

/// Kinds of error a check can report.
#[derive(Clone, Copy, Debug, PartialEq, Eq, Structural)]
pub enum ERCErrorType {
    UnconnectedPin,
    ShortCircuit,
    PowerGroundShort,
    MultipleDrivers,
    NoDriver,
    InvalidConnection,
    MissingGround,
    MissingPower,
    DuplicateReference,
    FloatingNet,
}

/// Kinds of warning a check can report.
#[derive(Clone, Copy, Debug, PartialEq, Eq, Structural)]
pub enum ERCWarningType {
    UnusedPin,
    PowerPinNotConnected,
    GroundPinNotConnected,
    NoDecouplingCapacitor,
    LongTrace,
    HighImpedanceNet,
    MissingPullResistor,
    UnlabeledNet,
    SinglePinNet,
}

#[derive(Clone, Copy, Debug, PartialEq, Eq, Structural)]
pub enum ERCSeverity {
    Critical,
    High,
    Medium,
    Low,
    Info,
}

/// Where a diagnostic applies: coordinates, and the component, wire or pin
/// concerned.
#[derive(Clone, Debug)]
pub struct ERCLocation {
    pub x: i32,
    pub y: i32,
    pub component_id: Option<String>,
    pub wire_id: Option<String>,
    pub pin_id: Option<String>,
}

#[derive(Clone, Debug)]
pub struct ERCError {
    pub error_type: ERCErrorType,
    pub message: String,
    pub location: Option<ERCLocation>,
    pub severity: ERCSeverity,
}

#[derive(Clone, Debug)]
pub struct ERCWarning {
    pub warning_type: ERCWarningType,
    pub message: String,
    pub location: Option<ERCLocation>,
    pub severity: ERCSeverity,
}

#[derive(Clone, Copy, Debug, PartialEq, Eq, Structural)]
pub struct ERCStatistics {
    pub total_components: usize,
    pub total_wires: usize,
    pub total_pins: usize,
    pub connected_pins: usize,
    pub unconnected_pins: usize,
    pub total_nets: usize,
    pub power_nets: usize,
    pub ground_nets: usize,
}

#[derive(Clone, Debug)]
pub struct ERCReport {
    pub errors: Vec<ERCError>,
    pub warnings: Vec<ERCWarning>,
    pub passed: bool,
    pub timestamp: i64,
    pub statistics: ERCStatistics,
}

/// A rule of the check as presented to users.
#[derive(Clone, Debug)]
pub struct ERCRule {
    pub id: String,
    pub name: String,
    pub description: String,
    pub enabled: bool,
    pub severity: ERCSeverity,
}

pub open spec fn text_view(o: Option<String>) -> Option<Seq<char>> {
    match o {
        Some(s) => Some(s@),
        None => None,
    }
}

pub struct LocationView {
    pub x: int,
    pub y: int,
    pub component_id: Option<Seq<char>>,
    pub wire_id: Option<Seq<char>>,
    pub pin_id: Option<Seq<char>>,
}

/// A diagnostic as a value: kind, message text, location and severity.
pub struct Finding<K> {
    pub kind: K,
    pub message: Seq<char>,
    pub location: Option<LocationView>,
    pub severity: ERCSeverity,
}

impl View for ERCLocation {
    type V = LocationView;

    open spec fn view(&self) -> LocationView {
        LocationView {
            x: self.x as int,
            y: self.y as int,
            component_id: text_view(self.component_id),
            wire_id: text_view(self.wire_id),
            pin_id: text_view(self.pin_id),
        }
    }
}

pub open spec fn location_view(o: Option<ERCLocation>) -> Option<LocationView> {
    match o {
        Some(l) => Some(l@),
        None => None,
    }
}

impl View for ERCError {
    type V = Finding<ERCErrorType>;

    open spec fn view(&self) -> Finding<ERCErrorType> {
        Finding {
            kind: self.error_type,
            message: self.message@,
            location: location_view(self.location),
            severity: self.severity,
        }
    }
}

impl View for ERCWarning {
    type V = Finding<ERCWarningType>;

    open spec fn view(&self) -> Finding<ERCWarningType> {
        Finding {
            kind: self.warning_type,
            message: self.message@,
            location: location_view(self.location),
            severity: self.severity,
        }
    }
}

pub open spec fn error_views(v: Seq<ERCError>) -> Seq<Finding<ERCErrorType>> {
    v.map_values(|e: ERCError| e@)
}

pub open spec fn warning_views(v: Seq<ERCWarning>) -> Seq<Finding<ERCWarningType>> {
    v.map_values(|w: ERCWarning| w@)
}

/// Appends an error, keeping the views in step.
pub fn push_error(v: &mut Vec<ERCError>, e: ERCError)
    ensures
        error_views(final(v)@) == error_views(old(v)@).push(e@),
{
    v.push(e);
    assert(error_views(v@) =~= error_views(old(v)@).push(e@));
}

/// Appends a warning, keeping the views in step.
pub fn push_warning(v: &mut Vec<ERCWarning>, w: ERCWarning)
    ensures
        warning_views(final(v)@) == warning_views(old(v)@).push(w@),
{
    v.push(w);
    assert(warning_views(v@) =~= warning_views(old(v)@).push(w@));
}

/// The findings `f(0)`, ..., `f(n - 1)` that are present, in order.
pub open spec fn gather<T>(n: nat, f: spec_fn(int) -> Option<T>) -> Seq<T>
    decreases n,
{
    if n == 0 {
        Seq::empty()
    } else {
        match f(n - 1) {
            Some(x) => gather((n - 1) as nat, f).push(x),
            None => gather((n - 1) as nat, f),
        }
    }
}

/// The concatenation `f(0) + ... + f(n - 1)`.
pub open spec fn gather_all<T>(n: nat, f: spec_fn(int) -> Seq<T>) -> Seq<T>
    decreases n,
{
    if n == 0 {
        Seq::empty()
    } else {
        gather_all((n - 1) as nat, f) + f(n - 1)
    }
}

} // verus!
