use schematic_erc::error::AppError;
use schematic_erc::geometry::Point;
use schematic_erc::model::{Component, Pin, PinType, Schematic, Wire};
use schematic_erc::project::Project;

fn resistor(id: &str, x: i32, y: i32) -> Component {
    Component {
        id: id.to_string(),
        type_id: "resistor".to_string(),
        library_id: None,
        reference: "R1".to_string(),
        value: "resistor".to_string(),
        x,
        y,
        pins: vec![Pin {
            id: "1".to_string(),
            name: "1".to_string(),
            x,
            y,
            pin_type: PinType::Passive,
            connected: false,
        }],
    }
}

#[test]
fn test_wire_creation() {
    let start = Point::new(0, 0);
    let end = Point::new(100, 100);
    let wire = Wire::new(start, end);

    assert_eq!(wire.points.len(), 2);
    assert_eq!(wire.points[0].x, 0);
    assert_eq!(wire.points[1].x, 100);
}

#[test]
fn test_wire_segments() {
    let mut wire = Wire::new(Point::new(0, 0), Point::new(100, 0));
    wire.add_point(Point::new(100, 100));

    let segments = wire.get_segments();
    assert_eq!(segments.len(), 2);
}

#[test]
fn test_point_distance() {
    let p1 = Point::new(0, 0);
    let p2 = Point::new(3, 4);
    assert_eq!(p1.manhattan_distance_to(&p2), 7);
}

#[test]
fn test_hit_test() {
    let wire = Wire::new(Point::new(0, 0), Point::new(100, 0));
    assert!(wire.hit_test(50, 0, 1));
    assert!(wire.hit_test(50, 1, 2));
    assert!(!wire.hit_test(50, 10, 1));
}

#[test]
fn test_schematic_creation() {
    let schematic = Schematic::new("Main Sheet".to_string()).unwrap();
    assert_eq!(schematic.name, "Main Sheet");
    assert!(schematic.components.is_empty());
    assert!(schematic.wires.is_empty());
}

#[test]
fn test_component_management() {
    let mut schematic = Schematic::new("Test".to_string()).unwrap();
    let component = resistor("c-100", 100, 100);
    let component_id = component.id.clone();

    schematic.add_component(component).unwrap();
    assert_eq!(schematic.components.len(), 1);

    let removed = schematic.remove_component(&component_id);
    assert!(removed.is_some());
    assert!(schematic.components.is_empty());
}

#[test]
fn wire_identifiers_are_fresh() {
    let a = Wire::new(Point::new(0, 0), Point::new(1, 1));
    let b = Wire::new(Point::new(0, 0), Point::new(1, 1));
    assert_ne!(a.id, b.id);
    assert!(a.net_id.is_none());
}

#[test]
fn hit_test_tolerance_is_inclusive() {
    let wire = Wire::new(Point::new(0, 0), Point::new(100, 0));
    assert!(wire.hit_test(50, 3, 3));
    assert!(wire.hit_test(103, 4, 5));
    assert!(!wire.hit_test(104, 4, 5));
}

#[test]
fn point_editing() {
    let mut wire = Wire::new(Point::new(0, 0), Point::new(100, 0));
    wire.insert_point(1, Point::new(50, 50));
    assert_eq!(wire.points[1], Point::new(50, 50));
    wire.insert_point(9, Point::new(1, 1));
    assert_eq!(wire.points.len(), 3);
    assert_eq!(wire.remove_point(1), Some(Point::new(50, 50)));
    assert_eq!(wire.remove_point(0), None);
    assert_eq!(wire.points.len(), 2);
}

#[test]
fn bounding_box_of_points() {
    let mut wire = Wire::new(Point::new(10, -5), Point::new(-20, 40));
    wire.add_point(Point::new(3, 100));
    assert_eq!(wire.get_bounding_box(), (-20, -5, 10, 100));
    let empty = Wire { id: "e".to_string(), points: vec![], net_id: None };
    assert_eq!(empty.get_bounding_box(), (i32::MAX, i32::MAX, i32::MIN, i32::MIN));
}

#[test]
fn split_on_first_touching_segment() {
    let mut wire = Wire::new(Point::new(0, 0), Point::new(100, 0));
    wire.add_point(Point::new(100, 100));
    wire.net_id = Some("CLK".to_string());
    let (a, b) = wire.split_at_point(Point::new(100, 50), 1).unwrap();
    assert_eq!(a.points, vec![Point::new(0, 0), Point::new(100, 0), Point::new(100, 50)]);
    assert_eq!(b.points, vec![Point::new(100, 50), Point::new(100, 100)]);
    assert_eq!(a.net_id.as_deref(), Some("CLK"));
    assert_ne!(a.id, b.id);
    assert!(wire.split_at_point(Point::new(50, 50), 1).is_none());
}

#[test]
fn schematic_limits_and_errors() {
    assert_eq!(
        Schematic::new(String::new()).unwrap_err(),
        AppError::InvalidInput("Invalid schematic name".to_string())
    );
    let mut s = Schematic::new("S".to_string()).unwrap();
    assert_eq!(
        s.add_component(resistor("c", 60000, 0)),
        Err(AppError::InvalidInput("Invalid component coordinates".to_string()))
    );
    let bad = Wire::new(Point::new(0, 0), Point::new(0, -70000));
    assert_eq!(
        s.add_wire(bad),
        Err(AppError::InvalidInput("Invalid wire coordinates".to_string()))
    );
    let good = Wire::new(Point::new(0, 0), Point::new(0, 10));
    let id = good.id.clone();
    assert_eq!(s.add_wire(good), Ok(()));
    assert_eq!(s.wire_count(), 1);
    assert!(s.can_add_wire());
    assert!(s.can_add_component());
    assert_eq!(s.component_count(), 0);
    assert!(s.remove_wire("missing").is_none());
    assert!(s.remove_wire(&id).is_some());
    assert_eq!(s.wire_count(), 0);
}

#[test]
fn component_lookup_and_moves() {
    let mut s = Schematic::new("S".to_string()).unwrap();
    s.add_component(resistor("a", 0, 0)).unwrap();
    s.add_component(resistor("b", 5, 5)).unwrap();
    assert_eq!(s.get_component("b").unwrap().x, 5);
    assert!(s.get_component("z").is_none());
    let mut c = resistor("c", 0, 0);
    assert_eq!(c.set_position(10, -10), Ok(()));
    assert_eq!((c.x, c.y), (10, -10));
    assert!(c.set_position(50001, 0).is_err());
    assert_eq!((c.x, c.y), (10, -10));
}

#[test]
fn test_component_creation() {
    let component = Component::new("resistor".to_string(), 100, 200).unwrap();
    assert_eq!(component.type_id, "resistor");
    assert_eq!(component.x, 100);
    assert_eq!(component.y, 200);
}

#[test]
fn test_project_creation() {
    let project = Project::new("Test Project".to_string()).unwrap();
    assert_eq!(project.name, "Test Project");
    assert_eq!(project.version, "1.0.0");
    assert!(project.schematics.is_empty());
}

#[test]
fn new_component_reference_is_numbered() {
    let c = Component::new("op_amp".to_string(), 0, 0).unwrap();
    assert!(c.reference.starts_with('U'));
    assert!(c.reference[1..].parse::<u16>().is_ok());
    assert_eq!(c.value, "op_amp");
    assert!(c.pins.is_empty());
    assert_eq!(
        Component::new("x".to_string(), 0, 90000).unwrap_err(),
        AppError::InvalidInput("Invalid coordinates".to_string())
    );
    let l = Component::from_library("lib".to_string(), "cap".to_string(), 1, 2).unwrap();
    assert_eq!(l.library_id.as_deref(), Some("lib"));
    assert_eq!(l.type_id, "cap");
}

#[test]
fn project_schematic_limit() {
    let mut p = Project::new("P".to_string()).unwrap();
    assert!(p.created_at > 0);
    assert_eq!(p.created_at, p.modified_at);
    for _ in 0..100 {
        assert!(p.can_add_schematic());
        p.add_schematic(Schematic::new("S".to_string()).unwrap()).unwrap();
    }
    assert_eq!(p.schematic_count(), 100);
    assert_eq!(
        p.add_schematic(Schematic::new("S".to_string()).unwrap()),
        Err(AppError::InvalidOperation("Maximum schematic limit (100) exceeded".to_string()))
    );
    assert!(Project::new(String::new()).is_err());
}

#[test]
fn recent_projects_move_to_front() {
    let mut recent = vec!["a".to_string(), "b".to_string(), "c".to_string()];
    schematic_erc::project::add_to_recent(&mut recent, "b".to_string());
    assert_eq!(recent, vec!["b", "a", "c"]);
    let mut many: Vec<String> = (0..10).map(|i| i.to_string()).collect();
    schematic_erc::project::add_to_recent(&mut many, "new".to_string());
    assert_eq!(many.len(), 10);
    assert_eq!(many[0], "new");
    assert_eq!(many[9], "8");
}
