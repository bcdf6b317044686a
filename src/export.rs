//! Fragments of the vector export.

use vstd::prelude::*;
use crate::model::{Component, Schematic, Wire};
use crate::project::NetlistFormat;
use crate::report::gather_all;
use crate::text::{decimal, decimal_string};

verus! {

/// Export of schematics to drawing formats.
pub struct ExportService;

/// The SVG background grid of spacing `g`, as text.
pub open spec fn grid_svg(g: nat) -> Seq<char> {
    "  <defs>\n"@ + "    <pattern id=\"grid\" width=\""@ + decimal(g) + "\" height=\""@ + decimal(g)
        + "\" patternUnits=\"userSpaceOnUse\">"@ + "\n"@ + "      <path d=\"M "@ + decimal(g)
        + " 0 L 0 0 0 "@ + decimal(g)
        + "\" fill=\"none\" stroke=\"#e0e0e0\" stroke-width=\"0.5\"/>"@ + "\n"@
        + "    </pattern>\n"@ + "  </defs>\n"@
        + "  <rect width=\"100%\" height=\"100%\" fill=\"url(#grid)\"/>"@ + "\n"@
}

impl ExportService {
    /// A pattern of grid lines every `grid_size` units filling the drawing.
    pub fn generate_grid_svg(grid_size: u32) -> (r: String)
        ensures
            r@ == grid_svg(grid_size as nat),
    {
        let g = decimal_string(grid_size as usize);
        let mut grid = String::from_str("  <defs>\n");
        grid.append("    <pattern id=\"grid\" width=\"");
        grid.append(g.as_str());
        grid.append("\" height=\"");
        grid.append(g.as_str());
        grid.append("\" patternUnits=\"userSpaceOnUse\">");
        grid.append("\n");
        grid.append("      <path d=\"M ");
        grid.append(g.as_str());
        grid.append(" 0 L 0 0 0 ");
        grid.append(g.as_str());
        grid.append("\" fill=\"none\" stroke=\"#e0e0e0\" stroke-width=\"0.5\"/>");
        grid.append("\n");
        grid.append("    </pattern>\n");
        grid.append("  </defs>\n");
        grid.append("  <rect width=\"100%\" height=\"100%\" fill=\"url(#grid)\"/>");
        grid.append("\n");
        grid
    }
}


/// Relies on `chrono::Utc::now` and `DateTime::format`: the current UTC time
/// as `YYYY-MM-DD HH:MM:SS`. Nothing is known of its value.
#[verifier::external_body]
pub(crate) fn current_date_text() -> (r: String) {
    chrono::Utc::now().format("%Y-%m-%d %H:%M:%S").to_string()
}

/// `s` with every space replaced by `_`.
pub open spec fn spaces_to_underscores(s: Seq<char>) -> Seq<char> {
    s.map_values(|c: char| if c == ' ' { '_' } else { c })
}

fn underscore_spaces(s: &str) -> (r: String)
    ensures
        r@ == spaces_to_underscores(s@),
{
    let n = s.unicode_len();
    let mut out = String::new();
    let mut i: usize = 0;
    while i < n
        invariant
            n == s@.len(),
            i <= n,
            out@ == spaces_to_underscores(s@.subrange(0, i as int)),
        decreases n - i,
    {
        let c = s.get_char(i);
        if c == ' ' {
            out.append("_");
        } else {
            out.append(s.substring_char(i, i + 1));
        }
        proof {
            reveal_strlit("_");
            assert(spaces_to_underscores(s@.subrange(0, i + 1)) =~= spaces_to_underscores(
                s@.subrange(0, i as int),
            ).push(if c == ' ' { '_' } else { c }));
        }
        i = i + 1;
    }
    assert(s@.subrange(0, n as int) =~= s@);
    out
}

pub open spec fn kicad_component(c: Component) -> Seq<char> {
    "    (comp (ref "@ + c.reference@ + ")\n"@ + "      (value "@ + c.value@ + ")\n"@ + "    )\n"@
}

pub open spec fn kicad_net(i: nat) -> Seq<char> {
    "    (net (code "@ + decimal(i + 1) + ") (name \""@ + "Net-"@ + decimal(i) + "\")\n"@
        + "    )\n"@
}

/// A KiCad netlist of the schematic dated `date`: its components, then one
/// net per wire.
pub open spec fn kicad_netlist(s: Schematic, date: Seq<char>) -> Seq<char> {
    "(export (version D)\n"@ + "  (design\n"@ + "    (source \""@ + s.name@ + "\")\n"@
        + "    (date \""@ + date + "\")\n"@ + "    (tool \"Rust EDA\")\n"@ + "  )\n"@
        + "  (components\n"@ + gather_all(
        s.components@.len(),
        |c: int| kicad_component(s.components@[c]),
    ) + "  )\n"@ + "  (nets\n"@ + gather_all(s.wires@.len(), |i: int| kicad_net(i as nat))
        + "  )\n"@ + ")\n"@
}

pub open spec fn verilog_component(c: Component) -> Seq<char> {
    "  // "@ + c.reference@ + " - "@ + c.value@ + "\n"@
}

pub open spec fn verilog_wire(i: nat) -> Seq<char> {
    "  wire "@ + "wire_"@ + decimal(i) + ";\n"@
}

/// A Verilog module named after the schematic, dated `date`, declaring one
/// wire per schematic wire and listing the components.
pub open spec fn verilog_netlist(s: Schematic, date: Seq<char>) -> Seq<char> {
    "// Verilog netlist generated by Rust EDA\n"@ + "// Schematic: "@ + s.name@ + "\n"@
        + "// Date: "@ + date + "\n\n"@ + "module "@ + spaces_to_underscores(s.name@) + " (\n"@
        + "  // Define module ports here\n"@ + ");\n\n"@ + "  // Wire declarations\n"@
        + gather_all(s.wires@.len(), |i: int| verilog_wire(i as nat))
        + "\n  // Component instantiations\n"@ + gather_all(
        s.components@.len(),
        |c: int| verilog_component(s.components@[c]),
    ) + "\nendmodule\n"@
}

impl ExportService {
    /// The KiCad netlist of a schematic, dated `date`.
    pub fn generate_kicad_netlist(schematic: &Schematic, date: &str) -> (r: String)
        ensures
            r@ == kicad_netlist(*schematic, date@),
    {
        let mut out = String::from_str("(export (version D)\n");
        out.append("  (design\n");
        out.append("    (source \"");
        out.append(schematic.name.as_str());
        out.append("\")\n");
        out.append("    (date \"");
        out.append(date);
        out.append("\")\n");
        out.append("    (tool \"Rust EDA\")\n");
        out.append("  )\n");
        out.append("  (components\n");
        let ghost head = out@;
        let comps = &schematic.components;
        let mut c: usize = 0;
        while c < comps.len()
            invariant
                c <= comps.len(),
                comps == &schematic.components,
                out@ == head + gather_all(c as nat, |k: int| kicad_component(comps@[k])),
            decreases comps.len() - c,
        {
            out.append("    (comp (ref ");
            out.append(comps[c].reference.as_str());
            out.append(")\n");
            out.append("      (value ");
            out.append(comps[c].value.as_str());
            out.append(")\n");
            out.append("    )\n");
            assert(head + gather_all((c + 1) as nat, |k: int| kicad_component(comps@[k])) =~= out@);
            c = c + 1;
        }
        out.append("  )\n");
        out.append("  (nets\n");
        let ghost mid = out@;
        let wires = &schematic.wires;
        let mut i: usize = 0;
        while i < wires.len()
            invariant
                i <= wires.len(),
                wires == &schematic.wires,
                out@ == mid + gather_all(i as nat, |k: int| kicad_net(k as nat)),
            decreases wires.len() - i,
        {
            out.append("    (net (code ");
            out.append(decimal_string(i + 1).as_str());
            out.append(") (name \"");
            out.append("Net-");
            out.append(decimal_string(i).as_str());
            out.append("\")\n");
            out.append("    )\n");
            assert(mid + gather_all((i + 1) as nat, |k: int| kicad_net(k as nat)) =~= out@);
            i = i + 1;
        }
        out.append("  )\n");
        out.append(")\n");
        out
    }

    /// The Verilog netlist of a schematic, dated `date`.
    pub fn generate_verilog_netlist(schematic: &Schematic, date: &str) -> (r: String)
        ensures
            r@ == verilog_netlist(*schematic, date@),
    {
        let mut out = String::from_str("// Verilog netlist generated by Rust EDA\n");
        out.append("// Schematic: ");
        out.append(schematic.name.as_str());
        out.append("\n");
        out.append("// Date: ");
        out.append(date);
        out.append("\n\n");
        out.append("module ");
        out.append(underscore_spaces(schematic.name.as_str()).as_str());
        out.append(" (\n");
        out.append("  // Define module ports here\n");
        out.append(");\n\n");
        out.append("  // Wire declarations\n");
        let ghost head = out@;
        let wires = &schematic.wires;
        let mut i: usize = 0;
        while i < wires.len()
            invariant
                i <= wires.len(),
                wires == &schematic.wires,
                out@ == head + gather_all(i as nat, |k: int| verilog_wire(k as nat)),
            decreases wires.len() - i,
        {
            out.append("  wire ");
            out.append("wire_");
            out.append(decimal_string(i).as_str());
            out.append(";\n");
            assert(head + gather_all((i + 1) as nat, |k: int| verilog_wire(k as nat)) =~= out@);
            i = i + 1;
        }
        out.append("\n  // Component instantiations\n");
        let ghost mid = out@;
        let comps = &schematic.components;
        let mut c: usize = 0;
        while c < comps.len()
            invariant
                c <= comps.len(),
                comps == &schematic.components,
                out@ == mid + gather_all(c as nat, |k: int| verilog_component(comps@[k])),
            decreases comps.len() - c,
        {
            out.append("  // ");
            out.append(comps[c].reference.as_str());
            out.append(" - ");
            out.append(comps[c].value.as_str());
            out.append("\n");
            assert(mid + gather_all((c + 1) as nat, |k: int| verilog_component(comps@[k])) =~= out@);
            c = c + 1;
        }
        out.append("\nendmodule\n");
        out
    }

    /// The SPICE netlist of a schematic, dated `date`.
    pub fn generate_spice_netlist(schematic: &Schematic, date: &str) -> (r: String)
        ensures
            r@ == spice_netlist(*schematic, date@),
    {
        let mut out = String::from_str("* SPICE Netlist Generated by Rust EDA\n");
        out.append("* Schematic: ");
        out.append(schematic.name.as_str());
        out.append("\n");
        out.append("* Date: ");
        out.append(date);
        out.append("\n");
        out.append("*\n");
        let ghost head = out@;
        let comps = &schematic.components;
        let mut c: usize = 0;
        while c < comps.len()
            invariant
                c <= comps.len(),
                comps == &schematic.components,
                out@ == head + gather_all(c as nat, |k: int| spice_line(comps@[k])),
            decreases comps.len() - c,
        {
            let line = spice_component_line(&comps[c]);
            out.append(line.as_str());
            assert(head + gather_all((c + 1) as nat, |k: int| spice_line(comps@[k])) =~= out@);
            c = c + 1;
        }
        out.append("\n");
        out.append("* End of netlist\n");
        out.append(".end\n");
        out
    }

    /// The netlist of a schematic in the given format, dated now.
    pub fn netlist_text(schematic: &Schematic, format: NetlistFormat) -> (r: String)
        ensures
            exists|date: Seq<char>|
                r@ == match format {
                    NetlistFormat::Spice => spice_netlist(*schematic, date),
                    NetlistFormat::Verilog => verilog_netlist(*schematic, date),
                    NetlistFormat::KiCad => kicad_netlist(*schematic, date),
                },
    {
        let date = current_date_text();
        match format {
            NetlistFormat::Spice => Self::generate_spice_netlist(schematic, date.as_str()),
            NetlistFormat::Verilog => Self::generate_verilog_netlist(schematic, date.as_str()),
            NetlistFormat::KiCad => Self::generate_kicad_netlist(schematic, date.as_str()),
        }
    }
}

/// The kind letter of a reference: its first character, `X` when empty.
pub open spec fn kind_letter(reference: Seq<char>) -> char {
    if reference.len() == 0 {
        'X'
    } else {
        reference[0]
    }
}

/// `N1 N2 ... Nn `, one node per pin.
pub open spec fn spice_nodes(n: nat) -> Seq<char> {
    gather_all(n, |i: int| "N"@ + decimal((i + 1) as nat) + " "@)
}

/// The SPICE line of a component: passive parts and sources carry their
/// value, diodes and transistors a default model, anything else becomes a
/// subcircuit instance named by its type.
pub open spec fn spice_line(c: Component) -> Seq<char> {
    let k = kind_letter(c.reference@);
    let nodes = spice_nodes(c.pins@.len());
    if k == 'R' || k == 'C' || k == 'L' || k == 'V' || k == 'I' {
        c.reference@ + " "@ + nodes + c.value@ + "\n"@
    } else if k == 'D' {
        c.reference@ + " "@ + nodes + "DIODE"@ + "\n"@
    } else if k == 'Q' {
        c.reference@ + " "@ + nodes + "NPN"@ + "\n"@
    } else if k == 'M' {
        c.reference@ + " "@ + nodes + "NMOS"@ + "\n"@
    } else {
        "X"@ + c.reference@ + " "@ + nodes + c.type_id@ + "\n"@
    }
}

pub open spec fn spice_netlist(s: Schematic, date: Seq<char>) -> Seq<char> {
    "* SPICE Netlist Generated by Rust EDA\n"@ + "* Schematic: "@ + s.name@ + "\n"@ + "* Date: "@
        + date + "\n"@ + "*\n"@ + gather_all(
        s.components@.len(),
        |c: int| spice_line(s.components@[c]),
    ) + "\n"@ + "* End of netlist\n"@ + ".end\n"@
}

fn spice_component_line(c: &Component) -> (r: String)
    ensures
        r@ == spice_line(*c),
{
    let n = c.reference.as_str().unicode_len();
    let k = if n == 0 {
        'X'
    } else {
        c.reference.as_str().get_char(0)
    };
    let mut nodes = String::new();
    let mut i: usize = 0;
    while i < c.pins.len()
        invariant
            i <= c.pins.len(),
            nodes@ == spice_nodes(i as nat),
        decreases c.pins.len() - i,
    {
        nodes.append("N");
        nodes.append(decimal_string(i + 1).as_str());
        nodes.append(" ");
        assert(spice_nodes((i + 1) as nat) =~= nodes@);
        i = i + 1;
    }
    if k == 'R' || k == 'C' || k == 'L' || k == 'V' || k == 'I' {
        framed_line(c.reference.as_str(), nodes.as_str(), c.value.as_str())
    } else if k == 'D' {
        framed_line(c.reference.as_str(), nodes.as_str(), "DIODE")
    } else if k == 'Q' {
        framed_line(c.reference.as_str(), nodes.as_str(), "NPN")
    } else if k == 'M' {
        framed_line(c.reference.as_str(), nodes.as_str(), "NMOS")
    } else {
        let mut name = String::from_str("X");
        name.append(c.reference.as_str());
        framed_line(name.as_str(), nodes.as_str(), c.type_id.as_str())
    }
}

/// `head`, a space, `nodes`, `tail` and a line break.
fn framed_line(head: &str, nodes: &str, tail: &str) -> (r: String)
    ensures
        r@ == head@ + " "@ + nodes@ + tail@ + "\n"@,
{
    let mut line = String::from_str(head);
    line.append(" ");
    line.append(nodes);
    line.append(tail);
    line.append("\n");
    line
}

} // verus!
