use schematic_erc::export::ExportService;
use schematic_erc::files::FileService;
use schematic_erc::geometry::{point_near_segment, points_coincide, wires_touch, within_radius, Point};
use schematic_erc::model::{Component, Pin, PinType, Schematic, SchematicMetadata, Wire};
use schematic_erc::project::NetlistFormat;
use schematic_erc::text::decimal_string;

fn pt(x: i32, y: i32) -> Point {
    Point { x, y }
}

#[test]
fn coincidence_is_strict() {
    assert!(points_coincide(pt(0, 0), pt(4, -4)));
    assert!(!points_coincide(pt(0, 0), pt(5, 0)));
    assert!(!points_coincide(pt(0, 0), pt(0, -5)));
}

#[test]
fn segment_distance_cases() {
    let a = pt(0, 0);
    let b = pt(100, 0);
    assert!(point_near_segment(pt(50, 4), a, b));
    assert!(!point_near_segment(pt(50, 5), a, b));
    assert!(point_near_segment(pt(103, 3), a, b));
    assert!(!point_near_segment(pt(104, 3), a, b));
    assert!(point_near_segment(pt(-3, -3), a, b));
    assert!(point_near_segment(pt(3, 4), a, a) == false);
    assert!(point_near_segment(pt(3, 3), a, a));
    assert!(point_near_segment(pt(50, 50), pt(0, 0), pt(100, 101)));
    assert!(!point_near_segment(pt(i32::MAX, i32::MIN), pt(i32::MIN, i32::MIN), pt(i32::MIN, i32::MAX)));
}

#[test]
fn adjacency_is_symmetric() {
    let a = vec![pt(0, 0), pt(10, 0)];
    let b = vec![pt(13, 2), pt(13, 40)];
    let c = vec![pt(5, -50), pt(5, 50)];
    assert!(wires_touch(&a, &b));
    assert!(wires_touch(&b, &a));
    assert!(!wires_touch(&a, &c));
    assert!(!wires_touch(&c, &a));
    assert!(!wires_touch(&vec![], &a));
}

#[test]
fn radius_is_exclusive() {
    assert!(!within_radius(pt(0, 0), pt(60, 80), 100));
    assert!(within_radius(pt(0, 0), pt(60, 79), 100));
}

#[test]
fn decimal_rendering() {
    assert_eq!(decimal_string(0), "0");
    assert_eq!(decimal_string(1907), "1907");
    assert_eq!(decimal_string(usize::MAX), usize::MAX.to_string());
}

#[test]
fn grid_svg_text() {
    let g = ExportService::generate_grid_svg(10);
    assert!(g.starts_with("  <defs>\n    <pattern id=\"grid\" width=\"10\" height=\"10\""));
    assert!(g.contains("<path d=\"M 10 0 L 0 0 0 10\""));
    assert!(g.ends_with("fill=\"url(#grid)\"/>\n"));
}

#[test]
fn path_parts() {
    assert_eq!(FileService::get_file_extension("dir/Board.EDA"), Some("eda".to_string()));
    assert_eq!(FileService::get_file_name("dir/Board.EDA"), Some("Board.EDA".to_string()));
    assert_eq!(FileService::get_file_stem("dir/Board.EDA"), Some("Board".to_string()));
    assert_eq!(FileService::get_file_extension("dir/README"), None);
}

fn netlist_sheet() -> Schematic {
    let pin = |id: &str| Pin {
        id: id.to_string(),
        name: id.to_string(),
        x: 0,
        y: 0,
        pin_type: PinType::Passive,
        connected: false,
    };
    let part = |reference: &str, value: &str, type_id: &str, pins: usize| Component {
        id: reference.to_lowercase(),
        type_id: type_id.to_string(),
        library_id: None,
        reference: reference.to_string(),
        value: value.to_string(),
        x: 0,
        y: 0,
        pins: (1..=pins).map(|i| pin(&i.to_string())).collect(),
    };
    Schematic {
        id: "s".to_string(),
        name: "Power Stage".to_string(),
        components: vec![
            part("R1", "10k", "resistor", 2),
            part("D1", "1N4148", "diode", 2),
            part("U1", "", "op_amp", 3),
            part("", "", "blank", 0),
        ],
        wires: vec![
            Wire { id: "w".to_string(), points: vec![], net_id: None },
            Wire { id: "v".to_string(), points: vec![], net_id: None },
        ],
        metadata: SchematicMetadata::default(),
    }
}

#[test]
fn spice_netlist_lines() {
    let text = ExportService::generate_spice_netlist(&netlist_sheet(), "2024-01-02 03:04:05");
    assert_eq!(
        text,
        "* SPICE Netlist Generated by Rust EDA\n* Schematic: Power Stage\n* Date: 2024-01-02 03:04:05\n*\n\
R1 N1 N2 10k\nD1 N1 N2 DIODE\nXU1 N1 N2 N3 op_amp\nX blank\n\n* End of netlist\n.end\n"
    );
}

#[test]
fn kicad_netlist_lists_parts_and_wires() {
    let text = ExportService::generate_kicad_netlist(&netlist_sheet(), "d");
    assert!(text.starts_with("(export (version D)\n  (design\n    (source \"Power Stage\")\n    (date \"d\")\n"));
    assert!(text.contains("    (comp (ref R1)\n      (value 10k)\n    )\n"));
    assert!(text.contains("    (net (code 2) (name \"Net-1\")\n    )\n"));
    assert!(text.ends_with("  )\n)\n"));
}

#[test]
fn verilog_module_name_has_no_spaces() {
    let text = ExportService::generate_verilog_netlist(&netlist_sheet(), "d");
    assert!(text.contains("module Power_Stage (\n"));
    assert!(text.contains("  wire wire_0;\n  wire wire_1;\n"));
    assert!(text.contains("  // D1 - 1N4148\n"));
    assert!(text.ends_with("\nendmodule\n"));
}

#[test]
fn netlist_text_is_dated() {
    let text = ExportService::netlist_text(&netlist_sheet(), NetlistFormat::KiCad);
    assert!(text.contains("(date \"20"));
}
