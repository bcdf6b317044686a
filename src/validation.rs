//! Structural validation of a schematic document, independent of nets.

use vstd::prelude::*;
use crate::model::{Component, Schematic, Wire};
use crate::report::{gather, gather_all};
use crate::rules::{reference_seen, reference_taken};

verus! {

/// Outcome of validating a schematic: messages, and whether it had no error.
#[derive(Clone, Debug)]
pub struct ValidationResult {
    pub is_valid: bool,
    pub errors: Vec<String>,
    pub warnings: Vec<String>,
}

pub open spec fn texts(v: Seq<String>) -> Seq<Seq<char>> {
    v.map_values(|s: String| s@)
}

fn push_text(v: &mut Vec<String>, s: String)
    ensures
        texts(final(v)@) == texts(old(v)@).push(s@),
{
    v.push(s);
    assert(texts(v@) =~= texts(old(v)@).push(s@));
}

pub open spec fn pin_flag_warning(comps: Seq<Component>, c: int, p: int) -> Option<Seq<char>> {
    if !comps[c].pins@[p].connected {
        Some("Unconnected pin: "@ + comps[c].pins@[p].name@ + " on component "@ + comps[c].reference@)
    } else {
        None
    }
}

pub open spec fn pin_flag_warnings(comps: Seq<Component>) -> Seq<Seq<char>> {
    gather_all(
        comps.len(),
        |c: int| gather(comps[c].pins.len() as nat, |p: int| pin_flag_warning(comps, c, p)),
    )
}

pub open spec fn duplicate_message(comps: Seq<Component>, c: int) -> Option<Seq<char>> {
    if reference_taken(comps, c) {
        Some("Duplicate reference: "@ + comps[c].reference@)
    } else {
        None
    }
}

pub open spec fn short_wire_message(ws: Seq<Wire>, j: int) -> Option<Seq<char>> {
    if ws[j].points.len() < 2 {
        Some("Invalid wire: "@ + ws[j].id@ + " has less than 2 points"@)
    } else {
        None
    }
}

pub open spec fn validation_errors(comps: Seq<Component>, ws: Seq<Wire>) -> Seq<Seq<char>> {
    gather(comps.len(), |c: int| duplicate_message(comps, c)) + gather(
        ws.len(),
        |j: int| short_wire_message(ws, j),
    )
}

/// Validates a schematic: pins not marked connected are warnings; repeated
/// references and wires of fewer than two points are errors.
pub fn validate_schematic(schematic: &Schematic) -> (r: ValidationResult)
    ensures
        texts(r.warnings@) == pin_flag_warnings(schematic.components@),
        texts(r.errors@) == validation_errors(schematic.components@, schematic.wires@),
        r.is_valid == (r.errors.len() == 0),
{
    let comps = &schematic.components;
    let wires = &schematic.wires;
    let mut warnings: Vec<String> = Vec::new();
    let mut errors: Vec<String> = Vec::new();
    assert(texts(warnings@) =~= Seq::empty());
    assert(texts(errors@) =~= Seq::empty());
    let mut c: usize = 0;
    while c < comps.len()
        invariant
            c <= comps.len(),
            texts(warnings@) == gather_all(
                c as nat,
                |c: int| gather(comps@[c].pins.len() as nat, |p: int| pin_flag_warning(comps@, c, p)),
            ),
        decreases comps.len() - c,
    {
        let comp = &comps[c];
        let ghost mid = texts(warnings@);
        let mut p: usize = 0;
        while p < comp.pins.len()
            invariant
                c < comps.len(),
                comp == &comps@[c as int],
                p <= comp.pins.len(),
                texts(warnings@) == mid + gather(p as nat, |p: int| pin_flag_warning(comps@, c as int, p)),
            decreases comp.pins.len() - p,
        {
            let pin = &comp.pins[p];
            if !pin.connected {
                let mut m = String::from_str("Unconnected pin: ");
                m.append(pin.name.as_str());
                m.append(" on component ");
                m.append(comp.reference.as_str());
                let ghost before = texts(warnings@);
                push_text(&mut warnings, m);
                assert(mid + gather((p + 1) as nat, |q: int| pin_flag_warning(comps@, c as int, q)) =~= before.push(m@));
            }
            p = p + 1;
        }
        c = c + 1;
    }
    let mut c: usize = 0;
    while c < comps.len()
        invariant
            c <= comps.len(),
            texts(errors@) == gather(c as nat, |c: int| duplicate_message(comps@, c)),
        decreases comps.len() - c,
    {
        if reference_seen(comps, c) {
            let mut m = String::from_str("Duplicate reference: ");
            m.append(comps[c].reference.as_str());
            push_text(&mut errors, m);
        }
        c = c + 1;
    }
    let ghost dups = texts(errors@);
    let mut j: usize = 0;
    while j < wires.len()
        invariant
            j <= wires.len(),
            texts(errors@) == dups + gather(j as nat, |j: int| short_wire_message(wires@, j)),
        decreases wires.len() - j,
    {
        if wires[j].points.len() < 2 {
            let mut m = String::from_str("Invalid wire: ");
            m.append(wires[j].id.as_str());
            m.append(" has less than 2 points");
            let ghost before = texts(errors@);
            push_text(&mut errors, m);
            assert(dups + gather((j + 1) as nat, |q: int| short_wire_message(wires@, q)) =~= before.push(m@));
        }
        j = j + 1;
    }
    let is_valid = errors.len() == 0;
    ValidationResult { is_valid, errors, warnings }
}

} // verus!
