//! The schematic document as the checker reads it: components with their
//! pins, and wires as polylines.

use vstd::prelude::*;
use crate::error::AppError;
use crate::text::{decimal, decimal_string};
use crate::geometry::{Point, point_at, point_within_segment, segment_within};
use crate::validators::{
    coordinate_ok,
    string_length_ok,
    validate_coordinate,
    validate_string_length,
    MAX_COMPONENTS,
    MAX_WIRES,
};

verus! {

/// The electrical role of a pin, supplied by the document.
#[derive(Clone, Copy, Debug, PartialEq, Eq, Structural)]
pub enum PinType {
    Input,
    Output,
    Bidirectional,
    Power,
    Ground,
    Passive,
    NotConnected,
}

/// A pin, positioned in document coordinates (placement, rotation and
/// mirroring of its component already applied).
#[derive(Clone, Debug)]
pub struct Pin {
    pub id: String,
    pub name: String,
    pub x: i32,
    pub y: i32,
    pub pin_type: PinType,
    pub connected: bool,
}

#[derive(Clone, Debug)]
pub struct Component {
    pub id: String,
    pub type_id: String,
    pub library_id: Option<String>,
    pub reference: String,
    pub value: String,
    pub x: i32,
    pub y: i32,
    pub pins: Vec<Pin>,
}

/// A wire: an ordered polyline. `net_id`, when present and not empty, is the
/// net name the wire has been labelled with.
#[derive(Clone, Debug)]
pub struct Wire {
    pub id: String,
    pub points: Vec<Point>,
    pub net_id: Option<String>,
}

#[derive(Clone, Debug)]
pub struct Schematic {
    pub id: String,
    pub name: String,
    pub components: Vec<Component>,
    pub wires: Vec<Wire>,
    pub metadata: SchematicMetadata,
}

/// Descriptive settings of a schematic sheet.
#[derive(Clone, Debug)]
pub struct SchematicMetadata {
    pub title: Option<String>,
    pub revision: Option<String>,
    pub date: Option<String>,
    pub sheet_size: String,
    pub grid_visible: bool,
    pub grid_size: u32,
}

impl Default for SchematicMetadata {
    /// An untitled A4 sheet with a visible grid of 10 units.
    fn default() -> (r: Self)
        ensures
            r.title is None,
            r.revision is None,
            r.date is None,
            r.sheet_size@ == "A4"@,
            r.grid_visible,
            r.grid_size == 10,
    {
        SchematicMetadata {
            title: None,
            revision: None,
            date: None,
            sheet_size: String::from_str("A4"),
            grid_visible: true,
            grid_size: 10,
        }
    }
}

/// Relies on `uuid::Uuid::new_v4` and its `to_string`: a fresh random
/// identifier. Nothing is known of its text.
#[verifier::external_body]
pub(crate) fn fresh_id() -> (r: String) {
    uuid::Uuid::new_v4().to_string()
}

/// The smallest of `init` and the values of `s`.
pub open spec fn fold_min(s: Seq<i32>, init: i32) -> i32
    decreases s.len(),
{
    if s.len() == 0 {
        init
    } else {
        let m = fold_min(s.drop_last(), init);
        if s.last() < m {
            s.last()
        } else {
            m
        }
    }
}

/// The largest of `init` and the values of `s`.
pub open spec fn fold_max(s: Seq<i32>, init: i32) -> i32
    decreases s.len(),
{
    if s.len() == 0 {
        init
    } else {
        let m = fold_max(s.drop_last(), init);
        if s.last() > m {
            s.last()
        } else {
            m
        }
    }
}

pub open spec fn xs_of(pts: Seq<Point>) -> Seq<i32> {
    pts.map_values(|p: Point| p.x)
}

pub open spec fn ys_of(pts: Seq<Point>) -> Seq<i32> {
    pts.map_values(|p: Point| p.y)
}

/// Segment `i` of the polyline is within distance `t` of `p`.
pub open spec fn segment_hit(pts: Seq<Point>, p: Point, t: int, i: int) -> bool {
    0 <= i < pts.len() - 1 && segment_within(p, pts[i], pts[i + 1], t)
}

/// The first segment of the polyline within distance `t` of `p`, if any.
pub open spec fn first_hit(pts: Seq<Point>, p: Point, t: int, i: int) -> bool {
    segment_hit(pts, p, t, i) && forall|j: int| 0 <= j < i ==> !#[trigger] segment_hit(pts, p, t, j)
}

/// The text of an optional label.
pub open spec fn label_text(l: Option<String>) -> Option<Seq<char>> {
    match l {
        Some(s) => Some(s@),
        None => None,
    }
}

fn label_copy(l: &Option<String>) -> (r: Option<String>)
    ensures
        label_text(r) == label_text(*l),
{
    match l {
        Some(s) => Some(s.clone()),
        None => None,
    }
}

impl Wire {
    /// A fresh unlabelled wire from `start` to `end`.
    pub fn new(start: Point, end: Point) -> (r: Self)
        ensures
            r.points@ == seq![start, end],
            r.net_id is None,
    {
        let mut points: Vec<Point> = Vec::new();
        points.push(start);
        points.push(end);
        Wire { id: fresh_id(), points, net_id: None }
    }

    pub fn add_point(&mut self, point: Point)
        ensures
            final(self).points@ == old(self).points@.push(point),
            final(self).id == old(self).id,
            final(self).net_id == old(self).net_id,
    {
        self.points.push(point);
    }

    /// Inserts a point before position `index`; an index past the end
    /// changes nothing.
    pub fn insert_point(&mut self, index: usize, point: Point)
        ensures
            final(self).points@ == if index <= old(self).points.len() {
                old(self).points@.insert(index as int, point)
            } else {
                old(self).points@
            },
            final(self).id == old(self).id,
            final(self).net_id == old(self).net_id,
    {
        if index <= self.points.len() {
            self.points.insert(index, point);
        }
    }

    /// Removes the point at `index`, unless that would leave fewer than two.
    pub fn remove_point(&mut self, index: usize) -> (r: Option<Point>)
        ensures
            if index < old(self).points.len() && old(self).points.len() > 2 {
                r == Some(old(self).points@[index as int]) && final(self).points@ == old(
                    self,
                ).points@.remove(index as int)
            } else {
                r is None && final(self).points@ == old(self).points@
            },
            final(self).id == old(self).id,
            final(self).net_id == old(self).net_id,
    {
        if index < self.points.len() && self.points.len() > 2 {
            Some(self.points.remove(index))
        } else {
            None
        }
    }

    /// The segments of the polyline, each pair of consecutive points.
    pub fn get_segments(&self) -> (r: Vec<(Point, Point)>)
        requires
            self.points.len() >= 1,
        ensures
            r.len() == self.points.len() - 1,
            forall|i: int|
                0 <= i < r.len() ==> #[trigger] r@[i] == (self.points@[i], self.points@[i + 1]),
    {
        let mut segments: Vec<(Point, Point)> = Vec::new();
        let mut i: usize = 0;
        while i + 1 < self.points.len()
            invariant
                self.points.len() >= 1,
                i + 1 <= self.points.len(),
                segments.len() == i,
                forall|j: int|
                    0 <= j < i ==> #[trigger] segments@[j] == (self.points@[j], self.points@[j + 1]),
            decreases self.points.len() - i,
        {
            segments.push((self.points[i], self.points[i + 1]));
            i = i + 1;
        }
        segments
    }

    /// The smallest and largest coordinates of the points, as
    /// `(min_x, min_y, max_x, max_y)`; without points the extremes of `i32`
    /// stand in their place.
    pub fn get_bounding_box(&self) -> (r: (i32, i32, i32, i32))
        ensures
            r == (
                fold_min(xs_of(self.points@), i32::MAX),
                fold_min(ys_of(self.points@), i32::MAX),
                fold_max(xs_of(self.points@), i32::MIN),
                fold_max(ys_of(self.points@), i32::MIN),
            ),
    {
        let ghost xs = xs_of(self.points@);
        let ghost ys = ys_of(self.points@);
        let mut min_x = i32::MAX;
        let mut min_y = i32::MAX;
        let mut max_x = i32::MIN;
        let mut max_y = i32::MIN;
        let mut i: usize = 0;
        while i < self.points.len()
            invariant
                i <= self.points.len(),
                xs == xs_of(self.points@),
                ys == ys_of(self.points@),
                min_x == fold_min(xs.subrange(0, i as int), i32::MAX),
                min_y == fold_min(ys.subrange(0, i as int), i32::MAX),
                max_x == fold_max(xs.subrange(0, i as int), i32::MIN),
                max_y == fold_max(ys.subrange(0, i as int), i32::MIN),
            decreases self.points.len() - i,
        {
            let p = self.points[i];
            assert(xs.subrange(0, i + 1).drop_last() == xs.subrange(0, i as int));
            assert(ys.subrange(0, i + 1).drop_last() == ys.subrange(0, i as int));
            if p.x < min_x {
                min_x = p.x;
            }
            if p.y < min_y {
                min_y = p.y;
            }
            if p.x > max_x {
                max_x = p.x;
            }
            if p.y > max_y {
                max_y = p.y;
            }
            i = i + 1;
        }
        assert(xs.subrange(0, i as int) == xs);
        assert(ys.subrange(0, i as int) == ys);
        (min_x, min_y, max_x, max_y)
    }

    /// Whether the point `(x, y)` lies within `tolerance` of a segment.
    pub fn hit_test(&self, x: i32, y: i32, tolerance: u16) -> (r: bool)
        ensures
            r == exists|i: int| #[trigger] segment_hit(self.points@, point_at(x, y), tolerance as int, i),
    {
        let p = Point::new(x, y);
        let mut i: usize = 0;
        while i < self.points.len() && i + 1 < self.points.len()
            invariant
                i <= self.points.len(),
                p == point_at(x, y),
                forall|j: int| 0 <= j < i ==> !#[trigger] segment_hit(self.points@, p, tolerance as int, j),
            decreases self.points.len() - i,
        {
            if point_within_segment(p, self.points[i], self.points[i + 1], tolerance) {
                assert(segment_hit(self.points@, p, tolerance as int, i as int));
                return true;
            }
            i = i + 1;
        }
        assert forall|j: int| !#[trigger] segment_hit(self.points@, p, tolerance as int, j) by {
            if 0 <= j < self.points@.len() - 1 {
                assert(j < i);
            }
        }
        false
    }

    /// Splits the wire at `point` on the first segment within `tolerance` of
    /// it: the first part ends at `point`, the second starts there. Both
    /// parts get fresh identifiers and keep the label.
    pub fn split_at_point(&self, point: Point, tolerance: u16) -> (r: Option<(Wire, Wire)>)
        ensures
            match r {
                None => forall|i: int| !#[trigger] segment_hit(self.points@, point, tolerance as int, i),
                Some((w1, w2)) => (exists|i: int|
                    #[trigger] first_hit(self.points@, point, tolerance as int, i) && w1.points@
                        == self.points@.subrange(0, i + 1).push(point) && w2.points@ == seq![point]
                        + self.points@.subrange(i + 1, self.points.len() as int)) && label_text(
                    w1.net_id,
                ) == label_text(self.net_id) && label_text(w2.net_id) == label_text(self.net_id),
            },
    {
        let n = self.points.len();
        let mut i: usize = 0;
        while i < n && i + 1 < n
            invariant
                n == self.points.len(),
                i <= n,
                forall|j: int| 0 <= j < i ==> !#[trigger] segment_hit(self.points@, point, tolerance as int, j),
            decreases n - i,
        {
            if point_within_segment(point, self.points[i], self.points[i + 1], tolerance) {
                assert(first_hit(self.points@, point, tolerance as int, i as int));
                let mut first: Vec<Point> = Vec::new();
                let mut k: usize = 0;
                while k <= i
                    invariant
                        i + 1 < n,
                        n == self.points.len(),
                        k <= i + 1,
                        first@ == self.points@.subrange(0, k as int),
                    decreases i + 1 - k,
                {
                    first.push(self.points[k]);
                    k = k + 1;
                }
                first.push(point);
                let mut second: Vec<Point> = Vec::new();
                second.push(point);
                let mut k: usize = i + 1;
                while k < n
                    invariant
                        i + 1 <= k <= n,
                        n == self.points.len(),
                        second@ == seq![point] + self.points@.subrange(i + 1, k as int),
                    decreases n - k,
                {
                    second.push(self.points[k]);
                    assert(self.points@.subrange(i + 1, k + 1) == self.points@.subrange(i + 1, k as int).push(self.points@[k as int]));
                    k = k + 1;
                }
                let w1 = Wire { id: fresh_id(), points: first, net_id: label_copy(&self.net_id) };
                let w2 = Wire { id: fresh_id(), points: second, net_id: label_copy(&self.net_id) };
                return Some((w1, w2));
            }
            i = i + 1;
        }
        assert forall|j: int| !#[trigger] segment_hit(self.points@, point, tolerance as int, j) by {
            if 0 <= j < self.points@.len() - 1 {
                assert(j < i);
            }
        }
        None
    }
}

/// Every point of the polyline lies within the document's extent.
pub open spec fn points_ok(pts: Seq<Point>) -> bool {
    forall|i: int| 0 <= i < pts.len() ==> coordinate_ok(#[trigger] pts[i].x) && coordinate_ok(pts[i].y)
}

/// Position of the first component with identifier `id`, if any.
pub open spec fn first_component(comps: Seq<Component>, id: Seq<char>, i: int) -> bool {
    0 <= i < comps.len() && comps[i].id@ == id && forall|j: int| 0 <= j < i ==> (#[trigger] comps[j]).id@ != id
}

/// Position of the first wire with identifier `id`, if any.
pub open spec fn first_wire(ws: Seq<Wire>, id: Seq<char>, i: int) -> bool {
    0 <= i < ws.len() && ws[i].id@ == id && forall|j: int| 0 <= j < i ==> (#[trigger] ws[j]).id@ != id
}

fn find_component(comps: &Vec<Component>, id: &str) -> (r: Option<usize>)
    ensures
        match r {
            Some(i) => first_component(comps@, id@, i as int),
            None => forall|j: int| 0 <= j < comps.len() ==> (#[trigger] comps@[j]).id@ != id@,
        },
{
    let key = String::from_str(id);
    let mut i: usize = 0;
    while i < comps.len()
        invariant
            i <= comps.len(),
            key@ == id@,
            forall|j: int| 0 <= j < i ==> (#[trigger] comps@[j]).id@ != id@,
        decreases comps.len() - i,
    {
        if comps[i].id == key {
            return Some(i);
        }
        i = i + 1;
    }
    None
}

fn find_wire(ws: &Vec<Wire>, id: &str) -> (r: Option<usize>)
    ensures
        match r {
            Some(i) => first_wire(ws@, id@, i as int),
            None => forall|j: int| 0 <= j < ws.len() ==> (#[trigger] ws@[j]).id@ != id@,
        },
{
    let key = String::from_str(id);
    let mut i: usize = 0;
    while i < ws.len()
        invariant
            i <= ws.len(),
            key@ == id@,
            forall|j: int| 0 <= j < i ==> (#[trigger] ws@[j]).id@ != id@,
        decreases ws.len() - i,
    {
        if ws[i].id == key {
            return Some(i);
        }
        i = i + 1;
    }
    None
}

impl Schematic {
    /// An empty sheet named `name`, which must be a valid name of at most
    /// 100 bytes.
    pub fn new(name: String) -> (r: Result<Self, AppError>)
        ensures
            r is Ok <==> string_length_ok(name@, 0, 100),
            r matches Ok(s) ==> s.name@ == name@ && s.components.len() == 0 && s.wires.len() == 0,
            r matches Err(e) ==> e matches AppError::InvalidInput(m) && m@ == "Invalid schematic name"@,
    {
        if !validate_string_length(name.as_str(), 100) {
            return Err(AppError::InvalidInput(String::from_str("Invalid schematic name")));
        }
        Ok(
            Schematic {
                id: fresh_id(),
                name,
                components: Vec::new(),
                wires: Vec::new(),
                metadata: SchematicMetadata::default(),
            },
        )
    }

    pub fn component_count(&self) -> (r: usize)
        ensures
            r == self.components.len(),
    {
        self.components.len()
    }

    pub fn wire_count(&self) -> (r: usize)
        ensures
            r == self.wires.len(),
    {
        self.wires.len()
    }

    pub fn can_add_component(&self) -> (r: bool)
        ensures
            r == (self.components.len() < MAX_COMPONENTS),
    {
        self.components.len() < MAX_COMPONENTS
    }

    pub fn can_add_wire(&self) -> (r: bool)
        ensures
            r == (self.wires.len() < MAX_WIRES),
    {
        self.wires.len() < MAX_WIRES
    }

    /// Adds a component placed within the document's extent, while the
    /// sheet holds fewer than the maximum.
    pub fn add_component(&mut self, component: Component) -> (r: Result<(), AppError>)
        ensures
            r is Ok <==> (old(self).components.len() < MAX_COMPONENTS && coordinate_ok(component.x)
                && coordinate_ok(component.y)),
            r is Ok ==> final(self).components@ == old(self).components@.push(component),
            r is Err ==> final(self).components@ == old(self).components@,
            old(self).components.len() >= MAX_COMPONENTS ==> (r matches Err(
                AppError::InvalidOperation(m),
            ) && m@ == "Maximum component limit (10000) exceeded"@),
            old(self).components.len() < MAX_COMPONENTS && !(coordinate_ok(component.x)
                && coordinate_ok(component.y)) ==> (r matches Err(AppError::InvalidInput(m)) && m@
                == "Invalid component coordinates"@),
            final(self).wires@ == old(self).wires@,
    {
        if self.components.len() >= MAX_COMPONENTS {
            return Err(
                AppError::InvalidOperation(String::from_str("Maximum component limit (10000) exceeded")),
            );
        }
        if !validate_coordinate(component.x) || !validate_coordinate(component.y) {
            return Err(AppError::InvalidInput(String::from_str("Invalid component coordinates")));
        }
        self.components.push(component);
        Ok(())
    }

    /// Adds a wire whose points all lie within the document's extent, while
    /// the sheet holds fewer than the maximum.
    pub fn add_wire(&mut self, wire: Wire) -> (r: Result<(), AppError>)
        ensures
            r is Ok <==> (old(self).wires.len() < MAX_WIRES && points_ok(wire.points@)),
            r is Ok ==> final(self).wires@ == old(self).wires@.push(wire),
            r is Err ==> final(self).wires@ == old(self).wires@,
            old(self).wires.len() >= MAX_WIRES ==> (r matches Err(AppError::InvalidOperation(m))
                && m@ == "Maximum wire limit (50000) exceeded"@),
            old(self).wires.len() < MAX_WIRES && !points_ok(wire.points@) ==> (r matches Err(
                AppError::InvalidInput(m),
            ) && m@ == "Invalid wire coordinates"@),
            final(self).components@ == old(self).components@,
    {
        if self.wires.len() >= MAX_WIRES {
            return Err(AppError::InvalidOperation(String::from_str("Maximum wire limit (50000) exceeded")));
        }
        let mut i: usize = 0;
        while i < wire.points.len()
            invariant
                i <= wire.points.len(),
                self.wires.len() < MAX_WIRES,
                self.wires@ == old(self).wires@,
                self.components@ == old(self).components@,
                forall|j: int| 0 <= j < i ==> coordinate_ok(#[trigger] wire.points@[j].x) && coordinate_ok(wire.points@[j].y),
            decreases wire.points.len() - i,
        {
            if !validate_coordinate(wire.points[i].x) || !validate_coordinate(wire.points[i].y) {
                return Err(AppError::InvalidInput(String::from_str("Invalid wire coordinates")));
            }
            assert(coordinate_ok(wire.points@[i as int].x) && coordinate_ok(wire.points@[i as int].y));
            i = i + 1;
        }
        self.wires.push(wire);
        Ok(())
    }

    /// Removes and returns the first component with identifier `id`.
    pub fn remove_component(&mut self, id: &str) -> (r: Option<Component>)
        ensures
            match r {
                Some(c) => exists|i: int| #[trigger] first_component(old(self).components@, id@, i) && c == old(self).components@[i] && final(self).components@ == old(self).components@.remove(i),
                None => final(self).components@ == old(self).components@ && forall|j: int| 0 <= j < old(self).components.len() ==> (#[trigger] old(self).components@[j]).id@ != id@,
            },
            final(self).wires@ == old(self).wires@,
    {
        match find_component(&self.components, id) {
            Some(i) => Some(self.components.remove(i)),
            None => None,
        }
    }

    /// Removes and returns the first wire with identifier `id`.
    pub fn remove_wire(&mut self, id: &str) -> (r: Option<Wire>)
        ensures
            match r {
                Some(w) => exists|i: int| #[trigger] first_wire(old(self).wires@, id@, i) && w == old(self).wires@[i] && final(self).wires@ == old(self).wires@.remove(i),
                None => final(self).wires@ == old(self).wires@ && forall|j: int| 0 <= j < old(self).wires.len() ==> (#[trigger] old(self).wires@[j]).id@ != id@,
            },
            final(self).components@ == old(self).components@,
    {
        match find_wire(&self.wires, id) {
            Some(i) => Some(self.wires.remove(i)),
            None => None,
        }
    }

    /// The first component with identifier `id`.
    pub fn get_component(&self, id: &str) -> (r: Option<&Component>)
        ensures
            match r {
                Some(c) => exists|i: int| #[trigger] first_component(self.components@, id@, i) && *c == self.components@[i],
                None => forall|j: int| 0 <= j < self.components.len() ==> (#[trigger] self.components@[j]).id@ != id@,
            },
    {
        match find_component(&self.components, id) {
            Some(i) => Some(&self.components[i]),
            None => None,
        }
    }
}

/// Relies on `rand::random::<u16>`: a random number. Nothing is known of
/// its value.
#[verifier::external_body]
fn random_u16() -> (r: u16) {
    rand::random::<u16>()
}

impl Component {
    /// A new component of type `type_id` at `(x, y)` with no pins, a fresh
    /// identifier and a reference `U` followed by a random number.
    pub fn new(type_id: String, x: i32, y: i32) -> (r: Result<Self, AppError>)
        ensures
            r is Ok <==> (coordinate_ok(x) && coordinate_ok(y)),
            r matches Ok(c) ==> c.type_id@ == type_id@ && c.value@ == type_id@ && c.x == x && c.y
                == y && c.pins.len() == 0 && c.library_id is None && exists|n: u16|
                c.reference@ == "U"@ + decimal(n as nat),
            r matches Err(e) ==> e matches AppError::InvalidInput(m) && m@ == "Invalid coordinates"@,
    {
        if !validate_coordinate(x) || !validate_coordinate(y) {
            return Err(AppError::InvalidInput(String::from_str("Invalid coordinates")));
        }
        let n = random_u16();
        let mut reference = String::from_str("U");
        reference.append(decimal_string(n as usize).as_str());
        let value = type_id.clone();
        Ok(
            Component {
                id: fresh_id(),
                type_id,
                library_id: None,
                reference,
                value,
                x,
                y,
                pins: Vec::new(),
            },
        )
    }

    /// A new component of the library's component `component_id`.
    pub fn from_library(library_id: String, component_id: String, x: i32, y: i32) -> (r: Result<
        Self,
        AppError,
    >)
        ensures
            r is Ok <==> (coordinate_ok(x) && coordinate_ok(y)),
            r matches Ok(c) ==> c.type_id@ == component_id@ && c.value@ == component_id@ && c.x == x
                && c.y == y && c.pins.len() == 0 && label_text(c.library_id) == Some(library_id@),
            r matches Err(e) ==> e matches AppError::InvalidInput(m) && m@ == "Invalid coordinates"@,
    {
        let mut component = Self::new(component_id, x, y)?;
        component.library_id = Some(library_id);
        Ok(component)
    }

    /// Moves the component, if the position lies within the document's
    /// extent.
    pub fn set_position(&mut self, x: i32, y: i32) -> (r: Result<(), AppError>)
        ensures
            r is Ok <==> (coordinate_ok(x) && coordinate_ok(y)),
            r is Ok ==> final(self).x == x && final(self).y == y,
            r is Err ==> final(self).x == old(self).x && final(self).y == old(self).y,
            r matches Err(e) ==> e matches AppError::InvalidInput(m) && m@ == "Invalid coordinates"@,
            final(self).pins@ == old(self).pins@,
            final(self).id == old(self).id,
            final(self).reference == old(self).reference,
    {
        if !validate_coordinate(x) || !validate_coordinate(y) {
            return Err(AppError::InvalidInput(String::from_str("Invalid coordinates")));
        }
        self.x = x;
        self.y = y;
        Ok(())
    }
}

pub open spec fn pin_point(p: Pin) -> Point {
    Point { x: p.x, y: p.y }
}

impl Pin {
    pub fn position(&self) -> (r: Point)
        ensures
            r == pin_point(*self),
    {
        Point { x: self.x, y: self.y }
    }
}

} // verus!
