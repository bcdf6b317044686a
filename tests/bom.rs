use schematic_erc::bom::{bom_lines, generate_csv_bom, generate_html_bom, part_count};
use schematic_erc::model::{Component, Schematic};
use schematic_erc::project::Project;

fn part(reference: &str, value: &str, type_id: &str) -> Component {
    Component {
        id: reference.to_lowercase(),
        type_id: type_id.to_string(),
        library_id: None,
        reference: reference.to_string(),
        value: value.to_string(),
        x: 0,
        y: 0,
        pins: vec![],
    }
}

fn project() -> Project {
    let mut p = Project::new("Amp".to_string()).unwrap();
    let mut a = Schematic::new("A".to_string()).unwrap();
    a.add_component(part("R1", "10k", "resistor")).unwrap();
    a.add_component(part("C1", "100n", "capacitor")).unwrap();
    a.add_component(part("R2", "10k", "resistor")).unwrap();
    let mut b = Schematic::new("B".to_string()).unwrap();
    b.add_component(part("R3", "10k", "resistor")).unwrap();
    b.add_component(part("R4", "1k", "resistor")).unwrap();
    p.add_schematic(a).unwrap();
    p.add_schematic(b).unwrap();
    p
}

#[test]
fn parts_are_grouped_by_value_and_type() {
    let lines = bom_lines(&project());
    let keys: Vec<&str> = lines.iter().map(|l| l.key.as_str()).collect();
    assert_eq!(keys, vec!["100n_capacitor", "10k_resistor", "1k_resistor"]);
    assert_eq!(lines[1].references, vec!["R1", "R2", "R3"]);
    assert_eq!(lines[1].quantity, 3);
    assert_eq!(lines[1].value, "10k");
    assert_eq!(lines[1].type_id, "resistor");
    assert_eq!(part_count(&project()), 5);
}

#[test]
fn csv_bill_of_materials() {
    assert_eq!(
        generate_csv_bom(&project()),
        "Reference,Value,Footprint,Quantity,Description\n\
\"C1\",\"100n\",\"capacitor\",1,\"Component\"\n\
\"R1, R2, R3\",\"10k\",\"resistor\",3,\"Component\"\n\
\"R4\",\"1k\",\"resistor\",1,\"Component\"\n"
    );
}

#[test]
fn html_bill_of_materials() {
    let html = generate_html_bom(&project());
    assert!(html.starts_with("<!DOCTYPE html>\n<html lang=\"en\">\n"));
    assert!(html.contains("  <title>Bill of Materials - Amp</title>\n"));
    assert!(html.contains("    <p>Version: 1.0.0</p>\n    <p>Author: Unknown</p>\n"));
    assert!(html.contains("        <td>R1, R2, R3</td>\n        <td>10k</td>\n        <td>resistor</td>\n        <td>3</td>\n"));
    assert!(html.contains("Total Components</td>\n        <td>5</td>\n"));
    assert!(html.ends_with("</body>\n</html>"));
}

#[test]
fn empty_project_has_only_a_header() {
    let p = Project::new("Empty".to_string()).unwrap();
    assert_eq!(generate_csv_bom(&p), "Reference,Value,Footprint,Quantity,Description\n");
    assert!(bom_lines(&p).is_empty());
}
