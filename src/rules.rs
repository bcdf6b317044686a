//! The rule battery: each rule reads the net table (and the schematic) and
//! appends its findings, in discovery order, to the error or warning list.

use vstd::prelude::*;
use crate::connectivity::{NetConnection, NetView, PinRef, net_views};
use crate::geometry::{Point, dist_sq, within_radius};
use crate::model::{Component, PinType, Wire};
use crate::report::{
    ERCLocation,
    LocationView,
    gather_all,
    ERCError,
    ERCErrorType,
    ERCSeverity,
    ERCWarning,
    ERCWarningType,
    Finding,
    error_views,
    gather,
    push_error,
    push_warning,
    warning_views,
};
use crate::text::{contains_seq, starts_with_seq, str_contains, str_starts_with};

verus! {

/// Every pin reference names an existing pin.
pub open spec fn pins_valid(comps: Seq<Component>, pins: Seq<PinRef>) -> bool {
    forall|t: int|
        0 <= t < pins.len() ==> (#[trigger] pins[t]).component < comps.len() && pins[t].pin
            < comps[pins[t].component as int].pins.len()
}

pub open spec fn nets_valid(comps: Seq<Component>, nets: Seq<NetConnection>) -> bool {
    forall|k: int| 0 <= k < nets.len() ==> pins_valid(comps, (#[trigger] nets[k]).pins@)
}

pub open spec fn role_of(comps: Seq<Component>, r: PinRef) -> PinType {
    comps[r.component as int].pins@[r.pin as int].pin_type
}

/// One of the pins has the given role.
pub open spec fn has_role(comps: Seq<Component>, pins: Seq<PinRef>, role: PinType) -> bool {
    exists|t: int| 0 <= t < pins.len() && role_of(comps, #[trigger] pins[t]) == role
}

/// Two distinct pins are outputs.
pub open spec fn two_outputs(comps: Seq<Component>, pins: Seq<PinRef>) -> bool {
    exists|t1: int, t2: int|
        0 <= t1 < t2 < pins.len() && role_of(comps, #[trigger] pins[t1]) == PinType::Output
            && role_of(comps, #[trigger] pins[t2]) == PinType::Output
}

/// A pin that can assert a signal: output, bidirectional or power.
pub open spec fn has_driver(comps: Seq<Component>, pins: Seq<PinRef>) -> bool {
    has_role(comps, pins, PinType::Output) || has_role(comps, pins, PinType::Bidirectional)
        || has_role(comps, pins, PinType::Power)
}

/// Whether one of `pins` has role `role`.
pub fn pins_have_role(comps: &Vec<Component>, pins: &Vec<PinRef>, role: PinType) -> (r: bool)
    requires
        pins_valid(comps@, pins@),
    ensures
        r == has_role(comps@, pins@, role),
{
    let mut t: usize = 0;
    while t < pins.len()
        invariant
            t <= pins.len(),
            pins_valid(comps@, pins@),
            forall|x: int| 0 <= x < t ==> role_of(comps@, #[trigger] pins@[x]) != role,
        decreases pins.len() - t,
    {
        let pr = pins[t];
        assert(pins_valid(comps@, pins@) ==> pr.component < comps.len());
        if comps[pr.component].pins[pr.pin].pin_type == role {
            return true;
        }
        t = t + 1;
    }
    false
}

/// Whether two distinct pins of `pins` are outputs.
pub fn pins_have_two_outputs(comps: &Vec<Component>, pins: &Vec<PinRef>) -> (r: bool)
    requires
        pins_valid(comps@, pins@),
    ensures
        r == two_outputs(comps@, pins@),
{
    let mut first: usize = 0;
    let mut seen = false;
    let mut t: usize = 0;
    while t < pins.len()
        invariant
            t <= pins.len(),
            pins_valid(comps@, pins@),
            seen ==> first < t && role_of(comps@, pins@[first as int]) == PinType::Output,
            !seen ==> forall|x: int| 0 <= x < t ==> role_of(comps@, #[trigger] pins@[x]) != PinType::Output,
            forall|x: int, y: int|
                0 <= x < y < t ==> !(role_of(comps@, #[trigger] pins@[x]) == PinType::Output && role_of(
                    comps@,
                    #[trigger] pins@[y],
                ) == PinType::Output),
        decreases pins.len() - t,
    {
        let pr = pins[t];
        assert(pins_valid(comps@, pins@) ==> pr.component < comps.len());
        if comps[pr.component].pins[pr.pin].pin_type == PinType::Output {
            if seen {
                assert(role_of(comps@, pins@[first as int]) == PinType::Output && role_of(comps@, pins@[t as int]) == PinType::Output);
                return true;
            }
            seen = true;
            first = t;
        }
        t = t + 1;
    }
    false
}

pub open spec fn short_finding(comps: Seq<Component>, nets: Seq<NetView>, k: int) -> Option<
    Finding<ERCErrorType>,
> {
    if has_role(comps, nets[k].pins, PinType::Power) && has_role(comps, nets[k].pins, PinType::Ground) {
        Some(
            Finding {
                kind: ERCErrorType::PowerGroundShort,
                message: "Power and ground are shorted in net "@ + nets[k].name,
                location: None,
                severity: ERCSeverity::Critical,
            },
        )
    } else {
        None
    }
}

pub open spec fn short_errors(comps: Seq<Component>, nets: Seq<NetView>, n: nat) -> Seq<
    Finding<ERCErrorType>,
> {
    gather(n, |k: int| short_finding(comps, nets, k))
}

/// A net whose pins include both a power pin and a ground pin shorts them.
pub fn check_power_ground_shorts(
    comps: &Vec<Component>,
    nets: &Vec<NetConnection>,
    errors: &mut Vec<ERCError>,
)
    requires
        nets_valid(comps@, nets@),
    ensures
        error_views(final(errors)@) == error_views(old(errors)@) + short_errors(
            comps@,
            net_views(nets@),
            nets.len() as nat,
        ),
{
    let ghost base = error_views(errors@);
    let mut k: usize = 0;
    while k < nets.len()
        invariant
            k <= nets.len(),
            nets_valid(comps@, nets@),
            error_views(errors@) == base + short_errors(comps@, net_views(nets@), k as nat),
        decreases nets.len() - k,
    {
        let net = &nets[k];
        assert(pins_valid(comps@, nets@[k as int].pins@));
        if pins_have_role(comps, &net.pins, PinType::Power) && pins_have_role(
            comps,
            &net.pins,
            PinType::Ground,
        ) {
            let mut message = String::from_str("Power and ground are shorted in net ");
            message.append(net.net_name.as_str());
            let e = ERCError {
                error_type: ERCErrorType::PowerGroundShort,
                message,
                location: None,
                severity: ERCSeverity::Critical,
            };
            push_error(errors, e);
            assert(base + short_errors(comps@, net_views(nets@), (k + 1) as nat) =~= (base + short_errors(
                comps@,
                net_views(nets@),
                k as nat,
            )).push(e@));
        } else {
            assert(short_errors(comps@, net_views(nets@), (k + 1) as nat) == short_errors(comps@, net_views(nets@), k as nat));
        }
        k = k + 1;
    }
}


/// `prefix`, then `name`, then `suffix`.
pub fn framed(prefix: &str, name: &String, suffix: &str) -> (r: String)
    ensures
        r@ == prefix@ + name@ + suffix@,
{
    let mut m = String::from_str(prefix);
    m.append(name.as_str());
    m.append(suffix);
    m
}

pub open spec fn multiple_driver_finding(comps: Seq<Component>, nets: Seq<NetView>, k: int) -> Option<
    Finding<ERCErrorType>,
> {
    if two_outputs(comps, nets[k].pins) {
        Some(
            Finding {
                kind: ERCErrorType::MultipleDrivers,
                message: "Net "@ + nets[k].name + " has multiple output drivers"@,
                location: None,
                severity: ERCSeverity::High,
            },
        )
    } else {
        None
    }
}

pub open spec fn multiple_driver_errors(comps: Seq<Component>, nets: Seq<NetView>, n: nat) -> Seq<
    Finding<ERCErrorType>,
> {
    gather(n, |k: int| multiple_driver_finding(comps, nets, k))
}

/// A net with more than one output pin has conflicting drivers.
pub fn check_multiple_drivers(
    comps: &Vec<Component>,
    nets: &Vec<NetConnection>,
    errors: &mut Vec<ERCError>,
)
    requires
        nets_valid(comps@, nets@),
    ensures
        error_views(final(errors)@) == error_views(old(errors)@) + multiple_driver_errors(
            comps@,
            net_views(nets@),
            nets.len() as nat,
        ),
{
    let ghost base = error_views(errors@);
    let mut k: usize = 0;
    while k < nets.len()
        invariant
            k <= nets.len(),
            nets_valid(comps@, nets@),
            error_views(errors@) == base + multiple_driver_errors(comps@, net_views(nets@), k as nat),
        decreases nets.len() - k,
    {
        let net = &nets[k];
        assert(pins_valid(comps@, nets@[k as int].pins@));
        if pins_have_two_outputs(comps, &net.pins) {
            let e = ERCError {
                error_type: ERCErrorType::MultipleDrivers,
                message: framed("Net ", &net.net_name, " has multiple output drivers"),
                location: None,
                severity: ERCSeverity::High,
            };
            push_error(errors, e);
            assert(base + multiple_driver_errors(comps@, net_views(nets@), (k + 1) as nat) =~= (base
                + multiple_driver_errors(comps@, net_views(nets@), k as nat)).push(e@));
        }
        k = k + 1;
    }
}

pub open spec fn no_driver_finding(comps: Seq<Component>, nets: Seq<NetView>, k: int) -> Option<
    Finding<ERCErrorType>,
> {
    if has_role(comps, nets[k].pins, PinType::Input) && !has_driver(comps, nets[k].pins) {
        Some(
            Finding {
                kind: ERCErrorType::NoDriver,
                message: "Net "@ + nets[k].name + " has input pins but no driver"@,
                location: None,
                severity: ERCSeverity::High,
            },
        )
    } else {
        None
    }
}

pub open spec fn no_driver_errors(comps: Seq<Component>, nets: Seq<NetView>, n: nat) -> Seq<
    Finding<ERCErrorType>,
> {
    gather(n, |k: int| no_driver_finding(comps, nets, k))
}

/// Whether one of `pins` drives the net.
pub fn pins_have_driver(comps: &Vec<Component>, pins: &Vec<PinRef>) -> (r: bool)
    requires
        pins_valid(comps@, pins@),
    ensures
        r == has_driver(comps@, pins@),
{
    pins_have_role(comps, pins, PinType::Output) || pins_have_role(comps, pins, PinType::Bidirectional)
        || pins_have_role(comps, pins, PinType::Power)
}

/// A net with an input pin and no driver is left undriven.
pub fn check_undriven_nets(
    comps: &Vec<Component>,
    nets: &Vec<NetConnection>,
    errors: &mut Vec<ERCError>,
)
    requires
        nets_valid(comps@, nets@),
    ensures
        error_views(final(errors)@) == error_views(old(errors)@) + no_driver_errors(
            comps@,
            net_views(nets@),
            nets.len() as nat,
        ),
{
    let ghost base = error_views(errors@);
    let mut k: usize = 0;
    while k < nets.len()
        invariant
            k <= nets.len(),
            nets_valid(comps@, nets@),
            error_views(errors@) == base + no_driver_errors(comps@, net_views(nets@), k as nat),
        decreases nets.len() - k,
    {
        let net = &nets[k];
        assert(pins_valid(comps@, nets@[k as int].pins@));
        if pins_have_role(comps, &net.pins, PinType::Input) && !pins_have_driver(comps, &net.pins) {
            let e = ERCError {
                error_type: ERCErrorType::NoDriver,
                message: framed("Net ", &net.net_name, " has input pins but no driver"),
                location: None,
                severity: ERCSeverity::High,
            };
            push_error(errors, e);
            assert(base + no_driver_errors(comps@, net_views(nets@), (k + 1) as nat) =~= (base
                + no_driver_errors(comps@, net_views(nets@), k as nat)).push(e@));
        }
        k = k + 1;
    }
}

pub open spec fn single_pin_finding(nets: Seq<NetView>, k: int) -> Option<Finding<ERCWarningType>> {
    if nets[k].pins.len() == 1 {
        Some(
            Finding {
                kind: ERCWarningType::SinglePinNet,
                message: "Net "@ + nets[k].name + " is connected to only one pin"@,
                location: None,
                severity: ERCSeverity::Low,
            },
        )
    } else {
        None
    }
}

pub open spec fn single_pin_warnings(nets: Seq<NetView>, n: nat) -> Seq<Finding<ERCWarningType>> {
    gather(n, |k: int| single_pin_finding(nets, k))
}

/// A net that reaches exactly one pin is floating.
pub fn check_single_pin_nets(nets: &Vec<NetConnection>, warnings: &mut Vec<ERCWarning>)
    ensures
        warning_views(final(warnings)@) == warning_views(old(warnings)@) + single_pin_warnings(
            net_views(nets@),
            nets.len() as nat,
        ),
{
    let ghost base = warning_views(warnings@);
    let mut k: usize = 0;
    while k < nets.len()
        invariant
            k <= nets.len(),
            warning_views(warnings@) == base + single_pin_warnings(net_views(nets@), k as nat),
        decreases nets.len() - k,
    {
        let net = &nets[k];
        if net.pins.len() == 1 {
            let w = ERCWarning {
                warning_type: ERCWarningType::SinglePinNet,
                message: framed("Net ", &net.net_name, " is connected to only one pin"),
                location: None,
                severity: ERCSeverity::Low,
            };
            push_warning(warnings, w);
            assert(base + single_pin_warnings(net_views(nets@), (k + 1) as nat) =~= (base + single_pin_warnings(
                net_views(nets@),
                k as nat,
            )).push(w@));
        }
        k = k + 1;
    }
}

/// One of the pins belongs to a component whose reference starts with `R`.
pub open spec fn has_resistor(comps: Seq<Component>, pins: Seq<PinRef>) -> bool {
    exists|t: int|
        0 <= t < pins.len() && starts_with_seq(
            comps[(#[trigger] pins[t]).component as int].reference@,
            "R"@,
        )
}

/// Whether one of `pins` belongs to a resistor.
pub fn pins_have_resistor(comps: &Vec<Component>, pins: &Vec<PinRef>) -> (r: bool)
    requires
        pins_valid(comps@, pins@),
    ensures
        r == has_resistor(comps@, pins@),
{
    let mut t: usize = 0;
    while t < pins.len()
        invariant
            t <= pins.len(),
            pins_valid(comps@, pins@),
            forall|x: int|
                0 <= x < t ==> !starts_with_seq(
                    comps@[(#[trigger] pins@[x]).component as int].reference@,
                    "R"@,
                ),
        decreases pins.len() - t,
    {
        let pr = pins[t];
        assert(pins_valid(comps@, pins@) ==> pr.component < comps.len());
        if str_starts_with(comps[pr.component].reference.as_str(), "R") {
            return true;
        }
        t = t + 1;
    }
    false
}

pub open spec fn pull_finding(comps: Seq<Component>, nets: Seq<NetView>, k: int) -> Option<
    Finding<ERCWarningType>,
> {
    if has_role(comps, nets[k].pins, PinType::Input) && !has_driver(comps, nets[k].pins)
        && !has_resistor(comps, nets[k].pins) {
        Some(
            Finding {
                kind: ERCWarningType::MissingPullResistor,
                message: "Net "@ + nets[k].name
                    + " has high-impedance inputs, consider adding a pull resistor"@,
                location: None,
                severity: ERCSeverity::Low,
            },
        )
    } else {
        None
    }
}

pub open spec fn pull_warnings(comps: Seq<Component>, nets: Seq<NetView>, n: nat) -> Seq<
    Finding<ERCWarningType>,
> {
    gather(n, |k: int| pull_finding(comps, nets, k))
}

/// An undriven net with inputs and no resistor on it may need a pull
/// resistor.
pub fn check_pull_resistors(
    comps: &Vec<Component>,
    nets: &Vec<NetConnection>,
    warnings: &mut Vec<ERCWarning>,
)
    requires
        nets_valid(comps@, nets@),
    ensures
        warning_views(final(warnings)@) == warning_views(old(warnings)@) + pull_warnings(
            comps@,
            net_views(nets@),
            nets.len() as nat,
        ),
{
    let ghost base = warning_views(warnings@);
    let mut k: usize = 0;
    while k < nets.len()
        invariant
            k <= nets.len(),
            nets_valid(comps@, nets@),
            warning_views(warnings@) == base + pull_warnings(comps@, net_views(nets@), k as nat),
        decreases nets.len() - k,
    {
        let net = &nets[k];
        assert(pins_valid(comps@, nets@[k as int].pins@));
        if pins_have_role(comps, &net.pins, PinType::Input) && !pins_have_driver(comps, &net.pins)
            && !pins_have_resistor(comps, &net.pins) {
            let w = ERCWarning {
                warning_type: ERCWarningType::MissingPullResistor,
                message: framed(
                    "Net ",
                    &net.net_name,
                    " has high-impedance inputs, consider adding a pull resistor",
                ),
                location: None,
                severity: ERCSeverity::Low,
            };
            push_warning(warnings, w);
            assert(base + pull_warnings(comps@, net_views(nets@), (k + 1) as nat) =~= (base + pull_warnings(
                comps@,
                net_views(nets@),
                k as nat,
            )).push(w@));
        }
        k = k + 1;
    }
}

pub open spec fn unlabeled_finding(nets: Seq<NetView>, k: int) -> Option<Finding<ERCWarningType>> {
    if !nets[k].labelled {
        Some(
            Finding {
                kind: ERCWarningType::UnlabeledNet,
                message: "Net "@ + nets[k].name
                    + " is not labeled, consider adding a descriptive name"@,
                location: None,
                severity: ERCSeverity::Info,
            },
        )
    } else {
        None
    }
}

pub open spec fn unlabeled_warnings(nets: Seq<NetView>, n: nat) -> Seq<Finding<ERCWarningType>> {
    gather(n, |k: int| unlabeled_finding(nets, k))
}

/// A net that kept its synthetic name is unlabeled.
pub fn check_net_labels(nets: &Vec<NetConnection>, warnings: &mut Vec<ERCWarning>)
    ensures
        warning_views(final(warnings)@) == warning_views(old(warnings)@) + unlabeled_warnings(
            net_views(nets@),
            nets.len() as nat,
        ),
{
    let ghost base = warning_views(warnings@);
    let mut k: usize = 0;
    while k < nets.len()
        invariant
            k <= nets.len(),
            warning_views(warnings@) == base + unlabeled_warnings(net_views(nets@), k as nat),
        decreases nets.len() - k,
    {
        let net = &nets[k];
        if !net.labelled {
            let w = ERCWarning {
                warning_type: ERCWarningType::UnlabeledNet,
                message: framed(
                    "Net ",
                    &net.net_name,
                    " is not labeled, consider adding a descriptive name",
                ),
                location: None,
                severity: ERCSeverity::Info,
            };
            push_warning(warnings, w);
            assert(base + unlabeled_warnings(net_views(nets@), (k + 1) as nat) =~= (base + unlabeled_warnings(
                net_views(nets@),
                k as nat,
            )).push(w@));
        }
        k = k + 1;
    }
}


/// Radius within which an integrated circuit expects a decoupling capacitor.
pub const DECOUPLING_RADIUS: u16 = 100;

pub open spec fn component_point(c: Component) -> Point {
    Point { x: c.x, y: c.y }
}

pub open spec fn component_location(c: Component) -> LocationView {
    LocationView {
        x: c.x as int,
        y: c.y as int,
        component_id: Some(c.id@),
        wire_id: None,
        pin_id: None,
    }
}

fn locate_component(c: &Component) -> (r: ERCLocation)
    ensures
        r@ == component_location(*c),
{
    ERCLocation { x: c.x, y: c.y, component_id: Some(c.id.clone()), wire_id: None, pin_id: None }
}

/// An earlier component carries the same reference as component `c`.
pub open spec fn reference_taken(comps: Seq<Component>, c: int) -> bool {
    exists|i: int| 0 <= i < c && (#[trigger] comps[i]).reference@ == comps[c].reference@
}

pub open spec fn duplicate_finding(comps: Seq<Component>, c: int) -> Option<Finding<ERCErrorType>> {
    if reference_taken(comps, c) {
        Some(
            Finding {
                kind: ERCErrorType::DuplicateReference,
                message: "Duplicate component reference: "@ + comps[c].reference@,
                location: Some(component_location(comps[c])),
                severity: ERCSeverity::High,
            },
        )
    } else {
        None
    }
}

pub open spec fn duplicate_errors(comps: Seq<Component>, n: nat) -> Seq<Finding<ERCErrorType>> {
    gather(n, |c: int| duplicate_finding(comps, c))
}

/// Whether an earlier component carries the reference of component `c`.
pub fn reference_seen(comps: &Vec<Component>, c: usize) -> (r: bool)
    requires
        c < comps.len(),
    ensures
        r == reference_taken(comps@, c as int),
{
    let mut i: usize = 0;
    while i < c
        invariant
            c < comps.len(),
            i <= c,
            forall|x: int| 0 <= x < i ==> (#[trigger] comps@[x]).reference@ != comps@[c as int].reference@,
        decreases c - i,
    {
        if comps[i].reference == comps[c].reference {
            return true;
        }
        i = i + 1;
    }
    false
}

/// Each component whose reference was already used by an earlier one is a
/// duplicate.
pub fn check_duplicate_references(comps: &Vec<Component>, errors: &mut Vec<ERCError>)
    ensures
        error_views(final(errors)@) == error_views(old(errors)@) + duplicate_errors(
            comps@,
            comps.len() as nat,
        ),
{
    let ghost base = error_views(errors@);
    let mut c: usize = 0;
    while c < comps.len()
        invariant
            c <= comps.len(),
            error_views(errors@) == base + duplicate_errors(comps@, c as nat),
        decreases comps.len() - c,
    {
        if reference_seen(comps, c) {
            let e = ERCError {
                error_type: ERCErrorType::DuplicateReference,
                message: framed("Duplicate component reference: ", &comps[c].reference, ""),
                location: Some(locate_component(&comps[c])),
                severity: ERCSeverity::High,
            };
            proof {
                reveal_strlit("");
                assert(e@.message =~= "Duplicate component reference: "@ + comps@[c as int].reference@);
            }
            push_error(errors, e);
            assert(base + duplicate_errors(comps@, (c + 1) as nat) =~= (base + duplicate_errors(
                comps@,
                c as nat,
            )).push(e@));
        }
        c = c + 1;
    }
}

/// The reference names an integrated circuit.
pub open spec fn is_ic_reference(r: Seq<char>) -> bool {
    starts_with_seq(r, "U"@) || starts_with_seq(r, "IC"@)
}

/// Some capacitor lies within the decoupling radius of component `c`.
pub open spec fn capacitor_near(comps: Seq<Component>, c: int) -> bool {
    exists|o: int|
        0 <= o < comps.len() && starts_with_seq((#[trigger] comps[o]).reference@, "C"@) && dist_sq(
            component_point(comps[c]),
            component_point(comps[o]),
        ) < DECOUPLING_RADIUS * DECOUPLING_RADIUS
}

pub open spec fn decoupling_finding(comps: Seq<Component>, c: int) -> Option<Finding<ERCWarningType>> {
    if is_ic_reference(comps[c].reference@) && !capacitor_near(comps, c) {
        Some(
            Finding {
                kind: ERCWarningType::NoDecouplingCapacitor,
                message: "IC "@ + comps[c].reference@ + " may need a decoupling capacitor"@,
                location: Some(component_location(comps[c])),
                severity: ERCSeverity::Low,
            },
        )
    } else {
        None
    }
}

pub open spec fn decoupling_warnings(comps: Seq<Component>, n: nat) -> Seq<Finding<ERCWarningType>> {
    gather(n, |c: int| decoupling_finding(comps, c))
}

fn has_capacitor_near(comps: &Vec<Component>, c: usize) -> (r: bool)
    requires
        c < comps.len(),
    ensures
        r == capacitor_near(comps@, c as int),
{
    let here = Point { x: comps[c].x, y: comps[c].y };
    let mut o: usize = 0;
    while o < comps.len()
        invariant
            c < comps.len(),
            o <= comps.len(),
            here == component_point(comps@[c as int]),
            forall|x: int|
                0 <= x < o ==> !(starts_with_seq((#[trigger] comps@[x]).reference@, "C"@) && dist_sq(
                    here,
                    component_point(comps@[x]),
                ) < DECOUPLING_RADIUS * DECOUPLING_RADIUS),
        decreases comps.len() - o,
    {
        let other = &comps[o];
        if str_starts_with(other.reference.as_str(), "C") && within_radius(
            here,
            Point { x: other.x, y: other.y },
            DECOUPLING_RADIUS,
        ) {
            return true;
        }
        o = o + 1;
    }
    false
}

/// An integrated circuit with no capacitor nearby may lack decoupling.
pub fn check_decoupling_capacitors(comps: &Vec<Component>, warnings: &mut Vec<ERCWarning>)
    ensures
        warning_views(final(warnings)@) == warning_views(old(warnings)@) + decoupling_warnings(
            comps@,
            comps.len() as nat,
        ),
{
    let ghost base = warning_views(warnings@);
    let mut c: usize = 0;
    while c < comps.len()
        invariant
            c <= comps.len(),
            warning_views(warnings@) == base + decoupling_warnings(comps@, c as nat),
        decreases comps.len() - c,
    {
        let comp = &comps[c];
        let is_ic = str_starts_with(comp.reference.as_str(), "U") || str_starts_with(
            comp.reference.as_str(),
            "IC",
        );
        if is_ic && !has_capacitor_near(comps, c) {
            let w = ERCWarning {
                warning_type: ERCWarningType::NoDecouplingCapacitor,
                message: framed("IC ", &comp.reference, " may need a decoupling capacitor"),
                location: Some(locate_component(comp)),
                severity: ERCSeverity::Low,
            };
            push_warning(warnings, w);
            assert(base + decoupling_warnings(comps@, (c + 1) as nat) =~= (base + decoupling_warnings(
                comps@,
                c as nat,
            )).push(w@));
        }
        c = c + 1;
    }
}


/// Pin `p` of component `c` appears among the pins of some net.
pub open spec fn pin_in_any_net(nets: Seq<NetView>, c: int, p: int) -> bool {
    exists|k: int|
        0 <= k < nets.len() && (#[trigger] nets[k]).pins.contains(
            PinRef { component: c as usize, pin: p as usize },
        )
}

pub open spec fn unconnected_finding(comps: Seq<Component>, nets: Seq<NetView>, c: int, p: int) -> Option<
    Finding<ERCErrorType>,
> {
    if !pin_in_any_net(nets, c, p) {
        let pin = comps[c].pins@[p];
        Some(
            Finding {
                kind: ERCErrorType::UnconnectedPin,
                message: "Pin "@ + pin.id@ + " of component "@ + comps[c].reference@
                    + " is not connected"@,
                location: Some(
                    LocationView {
                        x: pin.x as int,
                        y: pin.y as int,
                        component_id: Some(comps[c].id@),
                        wire_id: None,
                        pin_id: Some(pin.id@),
                    },
                ),
                severity: ERCSeverity::High,
            },
        )
    } else {
        None
    }
}

pub open spec fn unconnected_errors_of(comps: Seq<Component>, nets: Seq<NetView>, c: int, n: nat) -> Seq<
    Finding<ERCErrorType>,
> {
    gather(n, |p: int| unconnected_finding(comps, nets, c, p))
}

pub open spec fn unconnected_errors(comps: Seq<Component>, nets: Seq<NetView>, n: nat) -> Seq<
    Finding<ERCErrorType>,
> {
    gather_all(n, |c: int| unconnected_errors_of(comps, nets, c, comps[c].pins.len() as nat))
}

fn pin_listed(pins: &Vec<PinRef>, r: PinRef) -> (b: bool)
    ensures
        b == pins@.contains(r),
{
    let mut t: usize = 0;
    while t < pins.len()
        invariant
            t <= pins.len(),
            forall|x: int| 0 <= x < t ==> pins@[x] != r,
        decreases pins.len() - t,
    {
        if pins[t] == r {
            assert(pins@[t as int] == r);
            return true;
        }
        t = t + 1;
    }
    false
}

fn pin_in_some_net(nets: &Vec<NetConnection>, r: PinRef) -> (b: bool)
    ensures
        b == pin_in_any_net(net_views(nets@), r.component as int, r.pin as int),
{
    let mut k: usize = 0;
    while k < nets.len()
        invariant
            k <= nets.len(),
            forall|x: int| 0 <= x < k ==> !(#[trigger] nets@[x]).pins@.contains(r),
        decreases nets.len() - k,
    {
        if pin_listed(&nets[k].pins, r) {
            assert(net_views(nets@)[k as int] == nets@[k as int]@);
            return true;
        }
        k = k + 1;
    }
    false
}

/// Every pin that no net reaches is unconnected.
pub fn check_unconnected_pins(
    comps: &Vec<Component>,
    nets: &Vec<NetConnection>,
    errors: &mut Vec<ERCError>,
)
    ensures
        error_views(final(errors)@) == error_views(old(errors)@) + unconnected_errors(
            comps@,
            net_views(nets@),
            comps.len() as nat,
        ),
{
    let ghost base = error_views(errors@);
    let mut c: usize = 0;
    while c < comps.len()
        invariant
            c <= comps.len(),
            error_views(errors@) == base + unconnected_errors(comps@, net_views(nets@), c as nat),
        decreases comps.len() - c,
    {
        let comp = &comps[c];
        let ghost mid = error_views(errors@);
        let mut p: usize = 0;
        while p < comp.pins.len()
            invariant
                c < comps.len(),
                comp == &comps@[c as int],
                p <= comp.pins.len(),
                error_views(errors@) == mid + unconnected_errors_of(comps@, net_views(nets@), c as int, p as nat),
            decreases comp.pins.len() - p,
        {
            let pin = &comp.pins[p];
            if !pin_in_some_net(nets, PinRef { component: c, pin: p }) {
                let mut message = String::from_str("Pin ");
                message.append(pin.id.as_str());
                message.append(" of component ");
                message.append(comp.reference.as_str());
                message.append(" is not connected");
                let e = ERCError {
                    error_type: ERCErrorType::UnconnectedPin,
                    message,
                    location: Some(
                        ERCLocation {
                            x: pin.x,
                            y: pin.y,
                            component_id: Some(comp.id.clone()),
                            wire_id: None,
                            pin_id: Some(pin.id.clone()),
                        },
                    ),
                    severity: ERCSeverity::High,
                };
                push_error(errors, e);
                assert(mid + unconnected_errors_of(comps@, net_views(nets@), c as int, (p + 1) as nat) =~= (mid
                    + unconnected_errors_of(comps@, net_views(nets@), c as int, p as nat)).push(e@));
            }
            p = p + 1;
        }
        assert(base + unconnected_errors(comps@, net_views(nets@), (c + 1) as nat) =~= mid
            + unconnected_errors_of(comps@, net_views(nets@), c as int, comp.pins.len() as nat));
        c = c + 1;
    }
}

pub open spec fn wire_location(w: Wire) -> LocationView {
    LocationView {
        x: if w.points.len() > 0 { w.points@[0].x as int } else { 0 },
        y: if w.points.len() > 0 { w.points@[0].y as int } else { 0 },
        component_id: None,
        wire_id: Some(w.id@),
        pin_id: None,
    }
}

pub open spec fn malformed_wire_finding(ws: Seq<Wire>, j: int) -> Option<Finding<ERCErrorType>> {
    if ws[j].points.len() < 2 {
        Some(
            Finding {
                kind: ERCErrorType::InvalidConnection,
                message: "Invalid wire: "@ + ws[j].id@ + " has less than 2 points"@,
                location: Some(wire_location(ws[j])),
                severity: ERCSeverity::High,
            },
        )
    } else {
        None
    }
}

pub open spec fn malformed_wire_errors(ws: Seq<Wire>, n: nat) -> Seq<Finding<ERCErrorType>> {
    gather(n, |j: int| malformed_wire_finding(ws, j))
}

/// A wire with fewer than two points is not a polyline.
pub fn check_malformed_wires(wires: &Vec<Wire>, errors: &mut Vec<ERCError>)
    ensures
        error_views(final(errors)@) == error_views(old(errors)@) + malformed_wire_errors(
            wires@,
            wires.len() as nat,
        ),
{
    let ghost base = error_views(errors@);
    let mut j: usize = 0;
    while j < wires.len()
        invariant
            j <= wires.len(),
            error_views(errors@) == base + malformed_wire_errors(wires@, j as nat),
        decreases wires.len() - j,
    {
        let w = &wires[j];
        if w.points.len() < 2 {
            let (x, y) = if w.points.len() > 0 {
                (w.points[0].x, w.points[0].y)
            } else {
                (0, 0)
            };
            let e = ERCError {
                error_type: ERCErrorType::InvalidConnection,
                message: framed("Invalid wire: ", &w.id, " has less than 2 points"),
                location: Some(
                    ERCLocation {
                        x,
                        y,
                        component_id: None,
                        wire_id: Some(w.id.clone()),
                        pin_id: None,
                    },
                ),
                severity: ERCSeverity::High,
            };
            push_error(errors, e);
            assert(base + malformed_wire_errors(wires@, (j + 1) as nat) =~= (base
                + malformed_wire_errors(wires@, j as nat)).push(e@));
        }
        j = j + 1;
    }
}

/// The upper-case form of a text, as `str::to_uppercase` gives it.
pub uninterp spec fn upper_of(s: Seq<char>) -> Seq<char>;

/// Relies on `str::to_uppercase`: its result depends on the characters of
/// `s` alone.
#[verifier::external_body]
fn uppercase(s: &str) -> (r: String)
    ensures
        r@ == upper_of(s@),
{
    s.to_uppercase()
}

/// A net name whose upper-case form is `upper` indicates power.
pub open spec fn power_text(name: Seq<char>, upper: Seq<char>) -> bool {
    contains_seq(upper, "VCC"@) || contains_seq(upper, "VDD"@) || contains_seq(name, "+"@)
}

/// A net name whose upper-case form is `upper` indicates ground.
pub open spec fn ground_text(upper: Seq<char>) -> bool {
    contains_seq(upper, "GND"@) || contains_seq(upper, "VSS"@)
}

pub open spec fn is_power_name(name: Seq<char>) -> bool {
    power_text(name, upper_of(name))
}

pub open spec fn is_ground_name(name: Seq<char>) -> bool {
    ground_text(upper_of(name))
}

/// Whether the net name `name`, whose upper-case form is `upper`, indicates
/// power: it holds `VCC` or `VDD` in any case, or a `+`.
pub fn power_name_matches(name: &str, upper: &str) -> (r: bool)
    ensures
        r == power_text(name@, upper@),
{
    str_contains(upper, "VCC") || str_contains(upper, "VDD") || str_contains(name, "+")
}

/// Whether a net name whose upper-case form is `upper` indicates ground: it
/// holds `GND` or `VSS` in any case.
pub fn ground_name_matches(upper: &str) -> (r: bool)
    ensures
        r == ground_text(upper@),
{
    str_contains(upper, "GND") || str_contains(upper, "VSS")
}

/// Whether the net name indicates power.
pub fn is_power_net_name(name: &str) -> (r: bool)
    ensures
        r == is_power_name(name@),
{
    let upper = uppercase(name);
    power_name_matches(name, upper.as_str())
}

/// Whether the net name indicates ground.
pub fn is_ground_net_name(name: &str) -> (r: bool)
    ensures
        r == is_ground_name(name@),
{
    let upper = uppercase(name);
    ground_name_matches(upper.as_str())
}

pub open spec fn has_power_net(nets: Seq<NetView>) -> bool {
    exists|k: int| 0 <= k < nets.len() && is_power_name((#[trigger] nets[k]).name)
}

pub open spec fn has_ground_net(nets: Seq<NetView>) -> bool {
    exists|k: int| 0 <= k < nets.len() && is_ground_name((#[trigger] nets[k]).name)
}

fn any_power_net(nets: &Vec<NetConnection>) -> (r: bool)
    ensures
        r == has_power_net(net_views(nets@)),
{
    let mut k: usize = 0;
    while k < nets.len()
        invariant
            k <= nets.len(),
            forall|x: int| 0 <= x < k ==> !is_power_name((#[trigger] nets@[x]).net_name@),
        decreases nets.len() - k,
    {
        if is_power_net_name(nets[k].net_name.as_str()) {
            assert(net_views(nets@)[k as int] == nets@[k as int]@);
            return true;
        }
        k = k + 1;
    }
    false
}

fn any_ground_net(nets: &Vec<NetConnection>) -> (r: bool)
    ensures
        r == has_ground_net(net_views(nets@)),
{
    let mut k: usize = 0;
    while k < nets.len()
        invariant
            k <= nets.len(),
            forall|x: int| 0 <= x < k ==> !is_ground_name((#[trigger] nets@[x]).net_name@),
        decreases nets.len() - k,
    {
        if is_ground_net_name(nets[k].net_name.as_str()) {
            assert(net_views(nets@)[k as int] == nets@[k as int]@);
            return true;
        }
        k = k + 1;
    }
    false
}

/// Warnings for a schematic of more than two components that has no power
/// net, then for one that has no ground net.
pub open spec fn supply_warnings(comps: Seq<Component>, nets: Seq<NetView>) -> Seq<Finding<ERCWarningType>> {
    let power: Seq<Finding<ERCWarningType>> = if !has_power_net(nets) && comps.len() > 2 {
        seq![
            Finding {
                kind: ERCWarningType::PowerPinNotConnected,
                message: "No power net detected in the schematic"@,
                location: None,
                severity: ERCSeverity::Medium,
            },
        ]
    } else {
        Seq::empty()
    };
    let ground: Seq<Finding<ERCWarningType>> = if !has_ground_net(nets) && comps.len() > 2 {
        seq![
            Finding {
                kind: ERCWarningType::GroundPinNotConnected,
                message: "No ground net detected in the schematic"@,
                location: None,
                severity: ERCSeverity::Medium,
            },
        ]
    } else {
        Seq::empty()
    };
    power + ground
}

/// A schematic of more than two components should have a power net and a
/// ground net.
pub fn check_supply_nets(
    comps: &Vec<Component>,
    nets: &Vec<NetConnection>,
    warnings: &mut Vec<ERCWarning>,
)
    ensures
        warning_views(final(warnings)@) == warning_views(old(warnings)@) + supply_warnings(
            comps@,
            net_views(nets@),
        ),
{
    let ghost base = warning_views(warnings@);
    let has_power = any_power_net(nets);
    let has_ground = any_ground_net(nets);
    if !has_power && comps.len() > 2 {
        push_warning(
            warnings,
            ERCWarning {
                warning_type: ERCWarningType::PowerPinNotConnected,
                message: String::from_str("No power net detected in the schematic"),
                location: None,
                severity: ERCSeverity::Medium,
            },
        );
    }
    if !has_ground && comps.len() > 2 {
        push_warning(
            warnings,
            ERCWarning {
                warning_type: ERCWarningType::GroundPinNotConnected,
                message: String::from_str("No ground net detected in the schematic"),
                location: None,
                severity: ERCSeverity::Medium,
            },
        );
    }
    assert(warning_views(warnings@) =~= base + supply_warnings(comps@, net_views(nets@)));
}

} // verus!
