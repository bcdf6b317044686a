use schematic_erc::connectivity::build_nets;
use schematic_erc::erc::{check_schematic, get_erc_rules, ERCChecker};
use schematic_erc::geometry::Point;
use schematic_erc::model::{Component, Pin, PinType, Schematic, SchematicMetadata, Wire};
use schematic_erc::report::{ERCErrorType, ERCReport, ERCSeverity, ERCWarningType};
use schematic_erc::rules::{is_ground_net_name, is_power_net_name};
use schematic_erc::validation::validate_schematic;

fn pin(id: &str, x: i32, y: i32, role: PinType) -> Pin {
    Pin { id: id.to_string(), name: id.to_string(), x, y, pin_type: role, connected: false }
}

fn part(id: &str, reference: &str, x: i32, y: i32, pins: Vec<Pin>) -> Component {
    Component {
        id: id.to_string(),
        type_id: "part".to_string(),
        library_id: None,
        reference: reference.to_string(),
        value: String::new(),
        x,
        y,
        pins,
    }
}

fn wire(id: &str, pts: &[(i32, i32)], label: Option<&str>) -> Wire {
    Wire {
        id: id.to_string(),
        points: pts.iter().map(|&(x, y)| Point { x, y }).collect(),
        net_id: label.map(|l| l.to_string()),
    }
}

fn sheet(components: Vec<Component>, wires: Vec<Wire>) -> Schematic {
    Schematic {
        id: "s".to_string(),
        name: "Sheet".to_string(),
        components,
        wires,
        metadata: SchematicMetadata::default(),
    }
}

fn error_count(r: &ERCReport, kind: ERCErrorType) -> usize {
    r.errors.iter().filter(|e| e.error_type == kind).count()
}

fn warning_count(r: &ERCReport, kind: ERCWarningType) -> usize {
    r.warnings.iter().filter(|w| w.warning_type == kind).count()
}

fn canonical_circuit() -> Schematic {
    sheet(
        vec![
            part(
                "c1",
                "R1",
                50,
                0,
                vec![pin("1", 0, 0, PinType::Passive), pin("2", 100, 0, PinType::Passive)],
            ),
            part("c2", "V1", 0, -50, vec![pin("1", 0, -50, PinType::Power)]),
            part("c3", "G1", 100, -50, vec![pin("1", 100, -50, PinType::Ground)]),
        ],
        vec![
            wire("w1", &[(0, 0), (0, -50)], Some("VCC")),
            wire("w2", &[(100, 0), (100, -50)], Some("GND")),
        ],
    )
}

#[test]
fn canonical_circuit_has_no_errors() {
    let r = check_schematic(&canonical_circuit(), 0);
    assert!(r.errors.is_empty());
    assert!(r.passed);
    assert!(r.warnings.len() <= 1);
    assert!(r.warnings.iter().all(|w| w.warning_type == ERCWarningType::UnlabeledNet));
    assert_eq!(r.statistics.power_nets, 1);
    assert_eq!(r.statistics.ground_nets, 1);
}

#[test]
fn part_without_wires_has_unconnected_pins() {
    let s = sheet(
        vec![part(
            "c1",
            "R1",
            0,
            0,
            vec![pin("1", 0, 0, PinType::Passive), pin("2", 100, 0, PinType::Passive)],
        )],
        vec![],
    );
    let r = check_schematic(&s, 7);
    assert_eq!(r.errors.len(), 2);
    assert_eq!(error_count(&r, ERCErrorType::UnconnectedPin), 2);
    assert!(!r.passed);
    assert_eq!(r.timestamp, 7);
    assert_eq!(r.errors[0].message, "Pin 1 of component R1 is not connected");
    assert_eq!(r.errors[0].severity, ERCSeverity::High);
    let loc = r.errors[1].location.as_ref().unwrap();
    assert_eq!((loc.x, loc.y), (100, 0));
    assert_eq!(loc.pin_id.as_deref(), Some("2"));
    assert_eq!(loc.component_id.as_deref(), Some("c1"));
}

#[test]
fn power_and_ground_on_one_net_short() {
    let s = sheet(
        vec![part(
            "c1",
            "J1",
            0,
            0,
            vec![pin("1", 0, 0, PinType::Power), pin("2", 100, 0, PinType::Ground)],
        )],
        vec![wire("w1", &[(0, 0), (100, 0)], None)],
    );
    let r = check_schematic(&s, 0);
    assert_eq!(error_count(&r, ERCErrorType::PowerGroundShort), 1);
    assert_eq!(r.errors.len(), 1);
    assert_eq!(r.errors[0].severity, ERCSeverity::Critical);
    assert_eq!(r.errors[0].message, "Power and ground are shorted in net NET_0");
}

#[test]
fn repeated_reference_is_reported_once() {
    let s = sheet(
        vec![
            part("a", "U1", 0, 0, vec![]),
            part("b", "U1", 500, 500, vec![]),
        ],
        vec![],
    );
    let r = check_schematic(&s, 0);
    assert_eq!(error_count(&r, ERCErrorType::DuplicateReference), 1);
    assert!(r.errors[0].message.contains("U1"));
    assert_eq!(r.errors[0].message, "Duplicate component reference: U1");
    let loc = r.errors[0].location.as_ref().unwrap();
    assert_eq!(loc.component_id.as_deref(), Some("b"));
    assert_eq!((loc.x, loc.y), (500, 500));
}

#[test]
fn wire_touching_one_pin_is_floating() {
    let s = sheet(
        vec![part("c1", "R1", 0, 0, vec![pin("1", 0, 0, PinType::Passive)])],
        vec![wire("w1", &[(0, 0), (50, 0)], None)],
    );
    let r = check_schematic(&s, 0);
    assert_eq!(warning_count(&r, ERCWarningType::SinglePinNet), 1);
    assert!(r.errors.is_empty());
    assert!(r.passed);
}

#[test]
fn single_point_wire_is_structural_error() {
    let s = sheet(vec![], vec![wire("w9", &[(3, 4)], None)]);
    let r = check_schematic(&s, 0);
    assert_eq!(r.errors.len(), 1);
    assert_eq!(r.errors[0].error_type, ERCErrorType::InvalidConnection);
    assert_eq!(r.errors[0].message, "Invalid wire: w9 has less than 2 points");
    let loc = r.errors[0].location.as_ref().unwrap();
    assert_eq!(loc.wire_id.as_deref(), Some("w9"));
    assert_eq!((loc.x, loc.y), (3, 4));
    let v = validate_schematic(&s);
    assert!(!v.is_valid);
    assert_eq!(v.errors, vec!["Invalid wire: w9 has less than 2 points".to_string()]);
}

#[test]
fn repeated_checks_agree() {
    let s = canonical_circuit();
    let mut checker = ERCChecker::new(s.clone());
    let a = checker.run_check().unwrap();
    let b = checker.run_check().unwrap();
    assert_eq!(a.statistics, b.statistics);
    assert_eq!(a.errors.len(), b.errors.len());
    assert_eq!(a.warnings.len(), b.warnings.len());
    for (x, y) in a.warnings.iter().zip(b.warnings.iter()) {
        assert_eq!(x.message, y.message);
        assert_eq!(x.warning_type, y.warning_type);
    }
    assert!(a.timestamp > 0);
}

#[test]
fn net_membership_ignores_wire_order() {
    let comps = vec![part("c1", "R1", 0, 0, vec![pin("1", 0, 0, PinType::Passive)])];
    let w1 = wire("a", &[(0, 0), (10, 0)], None);
    let w2 = wire("b", &[(12, 0), (30, 0)], None);
    let w3 = wire("c", &[(200, 0), (300, 0)], None);
    let forward = build_nets(&vec![w1.clone(), w2.clone(), w3.clone()], &comps);
    let backward = build_nets(&vec![w3, w2, w1], &comps);
    assert_eq!(forward.len(), 2);
    assert_eq!(backward.len(), 2);
    assert_eq!(forward[0].wires, vec![0, 1]);
    assert_eq!(forward[1].wires, vec![2]);
    assert_eq!(backward[0].wires, vec![0]);
    assert_eq!(backward[1].wires, vec![1, 2]);
    assert_eq!(forward[0].pins.len(), 1);
    assert_eq!(backward[1].pins.len(), 1);
    assert!(backward[0].pins.is_empty());
}

#[test]
fn net_membership_is_transitive_through_chains() {
    let comps = vec![];
    let wires = vec![
        wire("a", &[(0, 0), (10, 0)], None),
        wire("far", &[(500, 500), (600, 600)], None),
        wire("b", &[(10, 0), (20, 0)], None),
        wire("c", &[(20, 0), (20, 40)], Some("CLK")),
    ];
    let nets = build_nets(&wires, &comps);
    assert_eq!(nets.len(), 2);
    assert_eq!(nets[0].wires, vec![0, 2, 3]);
    assert_eq!(nets[0].net_name, "CLK");
    assert!(nets[0].labelled);
    assert_eq!(nets[1].wires, vec![1]);
    assert_eq!(nets[1].net_name, "NET_1");
    assert!(!nets[1].labelled);
}

#[test]
fn crossing_wires_stay_apart() {
    let wires = vec![
        wire("h", &[(0, 50), (100, 50)], None),
        wire("v", &[(50, 0), (50, 100)], None),
    ];
    let nets = build_nets(&wires, &vec![]);
    assert_eq!(nets.len(), 2);
}

#[test]
fn pin_on_wire_interior_is_connected() {
    let comps = vec![part("c1", "R1", 0, 0, vec![pin("1", 50, 3, PinType::Passive)])];
    let wires = vec![wire("w", &[(0, 0), (100, 0)], None)];
    let nets = build_nets(&wires, &comps);
    assert_eq!(nets[0].pins.len(), 1);
    let comps = vec![part("c1", "R1", 0, 0, vec![pin("1", 50, 5, PinType::Passive)])];
    let nets = build_nets(&wires, &comps);
    assert!(nets[0].pins.is_empty());
}

#[test]
fn pin_counts_add_up() {
    let s = sheet(
        vec![
            part(
                "c1",
                "R1",
                0,
                0,
                vec![pin("1", 0, 0, PinType::Passive), pin("2", 100, 0, PinType::Passive)],
            ),
            part("c2", "R2", 0, 0, vec![pin("1", 300, 300, PinType::Passive)]),
        ],
        vec![wire("w1", &[(0, 0), (0, 40)], None)],
    );
    let r = check_schematic(&s, 0);
    let st = r.statistics;
    assert_eq!(st.total_pins, 3);
    assert_eq!(st.connected_pins, 1);
    assert_eq!(st.unconnected_pins, 2);
    assert_eq!(st.unconnected_pins + st.connected_pins, st.total_pins);
    assert_eq!(st.total_components, 2);
    assert_eq!(st.total_wires, 1);
    assert_eq!(st.total_nets, 1);
    assert_eq!(st.power_nets, 0);
    assert_eq!(st.ground_nets, 0);
}

#[test]
fn drivers_and_inputs() {
    let s = sheet(
        vec![
            part("a", "Q1", 0, 0, vec![pin("o", 0, 0, PinType::Output)]),
            part("b", "Q2", 0, 0, vec![pin("o", 100, 0, PinType::Output)]),
            part("c", "Q3", 0, 0, vec![pin("i", 0, 500, PinType::Input)]),
            part("d", "Q4", 0, 0, vec![pin("i", 100, 500, PinType::Input)]),
        ],
        vec![
            wire("w1", &[(0, 0), (100, 0)], None),
            wire("w2", &[(0, 500), (100, 500)], None),
        ],
    );
    let r = check_schematic(&s, 0);
    assert_eq!(error_count(&r, ERCErrorType::MultipleDrivers), 1);
    assert_eq!(error_count(&r, ERCErrorType::NoDriver), 1);
    assert_eq!(r.errors[0].message, "Net NET_0 has multiple output drivers");
    assert_eq!(r.errors[1].message, "Net NET_1 has input pins but no driver");
    assert_eq!(warning_count(&r, ERCWarningType::MissingPullResistor), 1);
    assert_eq!(warning_count(&r, ERCWarningType::PowerPinNotConnected), 1);
    assert_eq!(warning_count(&r, ERCWarningType::GroundPinNotConnected), 1);
    assert_eq!(warning_count(&r, ERCWarningType::UnlabeledNet), 2);
    assert_eq!(r.warnings[0].message, "No power net detected in the schematic");
    assert_eq!(r.warnings[1].message, "No ground net detected in the schematic");
}

#[test]
fn resistor_on_input_net_silences_pull_warning() {
    let s = sheet(
        vec![
            part("c", "U3", 0, 0, vec![pin("i", 0, 500, PinType::Input)]),
            part("r", "R7", 0, 0, vec![pin("1", 100, 500, PinType::Passive)]),
        ],
        vec![wire("w2", &[(0, 500), (100, 500)], None)],
    );
    let r = check_schematic(&s, 0);
    assert_eq!(warning_count(&r, ERCWarningType::MissingPullResistor), 0);
    assert_eq!(error_count(&r, ERCErrorType::NoDriver), 1);
}

#[test]
fn decoupling_capacitor_distance() {
    let far = sheet(
        vec![part("u", "U1", 0, 0, vec![]), part("c", "C1", 60, 80, vec![])],
        vec![],
    );
    let r = check_schematic(&far, 0);
    assert_eq!(warning_count(&r, ERCWarningType::NoDecouplingCapacitor), 1);
    assert_eq!(r.warnings[0].message, "IC U1 may need a decoupling capacitor");
    let near = sheet(
        vec![part("u", "IC2", 0, 0, vec![]), part("c", "C1", 60, 79, vec![])],
        vec![],
    );
    let r = check_schematic(&near, 0);
    assert_eq!(warning_count(&r, ERCWarningType::NoDecouplingCapacitor), 0);
}

#[test]
fn power_and_ground_names_ignore_case() {
    assert!(is_power_net_name("vcc_main"));
    assert!(is_power_net_name("Vdd"));
    assert!(is_power_net_name("+5V"));
    assert!(!is_power_net_name("NET_3"));
    assert!(is_ground_net_name("agnd"));
    assert!(is_ground_net_name("vss"));
    assert!(!is_ground_net_name("VCC"));
}

#[test]
fn flagged_pins_are_validation_warnings() {
    let mut p = pin("1", 0, 0, PinType::Passive);
    p.name = "A".to_string();
    let mut q = pin("2", 0, 0, PinType::Passive);
    q.connected = true;
    let s = sheet(
        vec![part("x", "U1", 0, 0, vec![p, q]), part("y", "U1", 0, 0, vec![])],
        vec![],
    );
    let v = validate_schematic(&s);
    assert_eq!(v.warnings, vec!["Unconnected pin: A on component U1".to_string()]);
    assert_eq!(v.errors, vec!["Duplicate reference: U1".to_string()]);
    assert!(!v.is_valid);
}

#[test]
fn rules_are_listed_in_order() {
    let rules = get_erc_rules().unwrap();
    assert_eq!(rules.len(), 5);
    assert_eq!(rules[0].id, "unconnected_pins");
    assert_eq!(rules[1].severity, ERCSeverity::Critical);
    assert_eq!(rules[3].name, "Floating Nets");
    assert!(rules.iter().all(|r| r.enabled));
}

#[test]
fn pin_between_two_nets_counts_in_each() {
    let s = sheet(
        vec![part("c1", "R1", 0, 0, vec![pin("1", 0, 0, PinType::Passive)])],
        vec![
            wire("a", &[(4, 0), (40, 0)], None),
            wire("b", &[(-4, 0), (-40, 0)], None),
        ],
    );
    let r = check_schematic(&s, 0);
    assert_eq!(r.statistics.total_nets, 2);
    assert_eq!(r.statistics.total_pins, 1);
    assert_eq!(r.statistics.connected_pins, 2);
    assert_eq!(r.statistics.unconnected_pins, 0);
}
