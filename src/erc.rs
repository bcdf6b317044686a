//! The electrical rule check: builds the net table once, runs the rules in
//! a fixed order and assembles the report with its statistics.

use vstd::prelude::*;
use crate::connectivity::{NetConnection, NetView, build_nets, is_net_table, net_ok, net_views};
use crate::error::AppError;
use crate::model::{Component, Schematic, Wire};
use crate::report::{
    ERCError,
    ERCReport,
    ERCRule,
    ERCSeverity,
    ERCStatistics,
    ERCWarning,
    ERCErrorType,
    ERCWarningType,
    Finding,
    error_views,
    warning_views,
};
use crate::rules::{
    check_decoupling_capacitors,
    check_duplicate_references,
    check_malformed_wires,
    check_multiple_drivers,
    check_net_labels,
    check_power_ground_shorts,
    check_pull_resistors,
    check_single_pin_nets,
    check_supply_nets,
    check_unconnected_pins,
    check_undriven_nets,
    decoupling_warnings,
    duplicate_errors,
    is_ground_name,
    is_ground_net_name,
    is_power_name,
    is_power_net_name,
    malformed_wire_errors,
    multiple_driver_errors,
    nets_valid,
    no_driver_errors,
    pins_valid,
    pull_warnings,
    short_errors,
    single_pin_warnings,
    supply_warnings,
    unconnected_errors,
    unlabeled_warnings,
};

verus! {

/// Pins over the first `n` components (saturating at `usize::MAX`).
pub open spec fn pin_total(comps: Seq<Component>, n: nat) -> usize
    decreases n,
{
    if n == 0 {
        0
    } else {
        pin_total(comps, (n - 1) as nat).saturating_add(comps[n - 1].pins.len())
    }
}

/// Connected pins over the first `n` nets, each net counting its own pins
/// (saturating at `usize::MAX`).
pub open spec fn connected_total(nets: Seq<NetView>, n: nat) -> usize
    decreases n,
{
    if n == 0 {
        0
    } else {
        connected_total(nets, (n - 1) as nat).saturating_add(nets[n - 1].pins.len() as usize)
    }
}

/// Among the first `n` nets, those whose name indicates power.
pub open spec fn power_net_count(nets: Seq<NetView>, n: nat) -> nat
    decreases n,
{
    if n == 0 {
        0
    } else {
        power_net_count(nets, (n - 1) as nat) + if is_power_name(nets[n - 1].name) {
            1nat
        } else {
            0nat
        }
    }
}

/// Among the first `n` nets, those whose name indicates ground.
pub open spec fn ground_net_count(nets: Seq<NetView>, n: nat) -> nat
    decreases n,
{
    if n == 0 {
        0
    } else {
        ground_net_count(nets, (n - 1) as nat) + if is_ground_name(nets[n - 1].name) {
            1nat
        } else {
            0nat
        }
    }
}

pub open spec fn statistics_of(
    comps: Seq<Component>,
    ws: Seq<Wire>,
    nets: Seq<NetView>,
) -> ERCStatistics {
    let total = pin_total(comps, comps.len());
    let connected = connected_total(nets, nets.len());
    ERCStatistics {
        total_components: comps.len() as usize,
        total_wires: ws.len() as usize,
        total_pins: total,
        connected_pins: connected,
        unconnected_pins: total.saturating_sub(connected),
        total_nets: nets.len() as usize,
        power_nets: power_net_count(nets, nets.len()) as usize,
        ground_nets: ground_net_count(nets, nets.len()) as usize,
    }
}

/// The errors of a check, in rule order.
pub open spec fn expected_errors(
    comps: Seq<Component>,
    ws: Seq<Wire>,
    nets: Seq<NetView>,
) -> Seq<Finding<ERCErrorType>> {
    malformed_wire_errors(ws, ws.len()) + unconnected_errors(comps, nets, comps.len()) + short_errors(
        comps,
        nets,
        nets.len(),
    ) + multiple_driver_errors(comps, nets, nets.len()) + no_driver_errors(comps, nets, nets.len())
        + duplicate_errors(comps, comps.len())
}

/// The warnings of a check, in rule order.
pub open spec fn expected_warnings(
    comps: Seq<Component>,
    nets: Seq<NetView>,
) -> Seq<Finding<ERCWarningType>> {
    supply_warnings(comps, nets) + single_pin_warnings(nets, nets.len()) + decoupling_warnings(
        comps,
        comps.len(),
    ) + pull_warnings(comps, nets, nets.len()) + unlabeled_warnings(nets, nets.len())
}

/// `r` is the report of checking a schematic with these components and
/// wires, whose net table is `nets`.
pub open spec fn report_matches(
    comps: Seq<Component>,
    ws: Seq<Wire>,
    nets: Seq<NetView>,
    r: ERCReport,
) -> bool {
    &&& error_views(r.errors@) == expected_errors(comps, ws, nets)
    &&& warning_views(r.warnings@) == expected_warnings(comps, nets)
    &&& r.passed == (r.errors.len() == 0)
    &&& r.statistics == statistics_of(comps, ws, nets)
}

/// `r` is the report of checking the schematic `s`.
pub open spec fn is_report_of(s: Schematic, r: ERCReport) -> bool {
    exists|nets: Seq<NetConnection>|
        is_net_table(s.wires@, s.components@, nets) && #[trigger] report_matches(
            s.components@,
            s.wires@,
            net_views(nets),
            r,
        )
}

proof fn lemma_table_valid(ws: Seq<Wire>, comps: Seq<Component>, nets: Seq<NetConnection>)
    requires
        is_net_table(ws, comps, nets),
    ensures
        nets_valid(comps, nets),
{
    assert forall|k: int| 0 <= k < nets.len() implies pins_valid(comps, (#[trigger] nets[k]).pins@) by {
        assert(net_ok(ws, comps, nets[k], k as nat));
    }
}

/// Computes the statistics of a check from the schematic and its net table.
pub fn calculate_statistics(
    comps: &Vec<Component>,
    wires: &Vec<Wire>,
    nets: &Vec<NetConnection>,
) -> (r: ERCStatistics)
    ensures
        r == statistics_of(comps@, wires@, net_views(nets@)),
{
    let mut total: usize = 0;
    let mut c: usize = 0;
    while c < comps.len()
        invariant
            c <= comps.len(),
            total == pin_total(comps@, c as nat),
        decreases comps.len() - c,
    {
        total = total.saturating_add(comps[c].pins.len());
        c = c + 1;
    }
    let mut connected: usize = 0;
    let mut power: usize = 0;
    let mut ground: usize = 0;
    let mut k: usize = 0;
    while k < nets.len()
        invariant
            k <= nets.len(),
            connected == connected_total(net_views(nets@), k as nat),
            power == power_net_count(net_views(nets@), k as nat),
            ground == ground_net_count(net_views(nets@), k as nat),
            power <= k,
            ground <= k,
        decreases nets.len() - k,
    {
        connected = connected.saturating_add(nets[k].pins.len());
        if is_power_net_name(nets[k].net_name.as_str()) {
            power = power + 1;
        }
        if is_ground_net_name(nets[k].net_name.as_str()) {
            ground = ground + 1;
        }
        k = k + 1;
    }
    ERCStatistics {
        total_components: comps.len(),
        total_wires: wires.len(),
        total_pins: total,
        connected_pins: connected,
        unconnected_pins: total.saturating_sub(connected),
        total_nets: nets.len(),
        power_nets: power,
        ground_nets: ground,
    }
}

/// Runs every rule against a schematic and its net table, returning the
/// errors and the warnings in rule order.
pub fn run_rules(
    comps: &Vec<Component>,
    wires: &Vec<Wire>,
    nets: &Vec<NetConnection>,
) -> (r: (Vec<ERCError>, Vec<ERCWarning>))
    requires
        nets_valid(comps@, nets@),
    ensures
        error_views(r.0@) == expected_errors(comps@, wires@, net_views(nets@)),
        warning_views(r.1@) == expected_warnings(comps@, net_views(nets@)),
{
    let mut errors: Vec<ERCError> = Vec::new();
    let mut warnings: Vec<ERCWarning> = Vec::new();
    assert(error_views(errors@) =~= Seq::empty());
    assert(warning_views(warnings@) =~= Seq::empty());
    check_malformed_wires(wires, &mut errors);
    check_unconnected_pins(comps, nets, &mut errors);
    check_power_ground_shorts(comps, nets, &mut errors);
    check_supply_nets(comps, nets, &mut warnings);
    check_multiple_drivers(comps, nets, &mut errors);
    check_single_pin_nets(nets, &mut warnings);
    check_undriven_nets(comps, nets, &mut errors);
    check_duplicate_references(comps, &mut errors);
    check_decoupling_capacitors(comps, &mut warnings);
    check_pull_resistors(comps, nets, &mut warnings);
    check_net_labels(nets, &mut warnings);
    assert(error_views(errors@) =~= expected_errors(comps@, wires@, net_views(nets@)));
    assert(warning_views(warnings@) =~= expected_warnings(comps@, net_views(nets@)));
    (errors, warnings)
}

/// Checks a schematic: builds its nets, runs the rules and assembles the
/// report, stamped with `timestamp`.
pub fn check_schematic(schematic: &Schematic, timestamp: i64) -> (r: ERCReport)
    ensures
        is_report_of(*schematic, r),
        r.timestamp == timestamp,
{
    let nets = build_nets(&schematic.wires, &schematic.components);
    proof {
        lemma_table_valid(schematic.wires@, schematic.components@, nets@);
    }
    let (errors, warnings) = run_rules(&schematic.components, &schematic.wires, &nets);
    let statistics = calculate_statistics(&schematic.components, &schematic.wires, &nets);
    let passed = errors.len() == 0;
    let r = ERCReport { errors, warnings, passed, timestamp, statistics };
    assert(report_matches(schematic.components@, schematic.wires@, net_views(nets@), r));
    r
}


/// Relies on `chrono::Utc::now` and `DateTime::timestamp`: the current time
/// in whole seconds since the Unix epoch. Nothing is known of its value.
#[verifier::external_body]
pub(crate) fn current_timestamp() -> (r: i64) {
    chrono::Utc::now().timestamp()
}

/// Holds a schematic to be checked.
pub struct ERCChecker {
    schematic: Schematic,
}

impl ERCChecker {
    pub closed spec fn schematic_view(&self) -> Schematic {
        self.schematic
    }

    pub fn new(schematic: Schematic) -> (r: Self)
        ensures
            r.schematic_view() == schematic,
    {
        ERCChecker { schematic }
    }

    /// Checks the schematic, stamping the report with the current time. The
    /// check never fails: every problem is a diagnostic inside the report.
    pub fn run_check(&mut self) -> (r: Result<ERCReport, AppError>)
        ensures
            final(self).schematic_view() == old(self).schematic_view(),
            r matches Ok(report) && is_report_of(old(self).schematic_view(), report),
    {
        let timestamp = current_timestamp();
        Ok(check_schematic(&self.schematic, timestamp))
    }
}


/// `r` is the rule `id`, enabled, with this name, description and severity.
pub open spec fn rule_is(r: ERCRule, id: Seq<char>, name: Seq<char>, description: Seq<char>, severity: ERCSeverity) -> bool {
    r.id@ == id && r.name@ == name && r.description@ == description && r.enabled && r.severity == severity
}

fn make_rule(id: &str, name: &str, description: &str, severity: ERCSeverity) -> (r: ERCRule)
    ensures
        rule_is(r, id@, name@, description@, severity),
{
    ERCRule {
        id: String::from_str(id),
        name: String::from_str(name),
        description: String::from_str(description),
        enabled: true,
        severity,
    }
}

/// The rules presented to users, in order.
pub fn get_erc_rules() -> (r: Result<Vec<ERCRule>, AppError>)
    ensures
        r matches Ok(rules) && rules.len() == 5 && rule_is(
            rules@[0],
            "unconnected_pins"@,
            "Unconnected Pins"@,
            "Check for pins that are not connected to any net"@,
            ERCSeverity::High,
        ) && rule_is(
            rules@[1],
            "power_ground_short"@,
            "Power/Ground Short"@,
            "Check for shorts between power and ground"@,
            ERCSeverity::Critical,
        ) && rule_is(
            rules@[2],
            "multiple_drivers"@,
            "Multiple Drivers"@,
            "Check for nets with multiple output drivers"@,
            ERCSeverity::High,
        ) && rule_is(
            rules@[3],
            "floating_nets"@,
            "Floating Nets"@,
            "Check for nets with no drivers"@,
            ERCSeverity::Medium,
        ) && rule_is(
            rules@[4],
            "duplicate_references"@,
            "Duplicate References"@,
            "Check for duplicate component references"@,
            ERCSeverity::High,
        ),
{
    let mut rules: Vec<ERCRule> = Vec::new();
    rules.push(
        make_rule(
            "unconnected_pins",
            "Unconnected Pins",
            "Check for pins that are not connected to any net",
            ERCSeverity::High,
        ),
    );
    rules.push(
        make_rule(
            "power_ground_short",
            "Power/Ground Short",
            "Check for shorts between power and ground",
            ERCSeverity::Critical,
        ),
    );
    rules.push(
        make_rule(
            "multiple_drivers",
            "Multiple Drivers",
            "Check for nets with multiple output drivers",
            ERCSeverity::High,
        ),
    );
    rules.push(
        make_rule(
            "floating_nets",
            "Floating Nets",
            "Check for nets with no drivers",
            ERCSeverity::Medium,
        ),
    );
    rules.push(
        make_rule(
            "duplicate_references",
            "Duplicate References",
            "Check for duplicate component references",
            ERCSeverity::High,
        ),
    );
    Ok(rules)
}

} // verus!
