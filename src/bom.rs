//! Bills of materials: the parts of a project grouped by value and type.

use vstd::prelude::*;
use crate::export::current_date_text;
use crate::model::{Component, Schematic};
use crate::project::Project;
use crate::report::gather_all;
use crate::rules::framed;
use crate::text::{chars_of, decimal, decimal_string};
use crate::validation::texts;

verus! {

/// A line of a bill of materials: the parts that share a value and a type.
#[derive(Clone, Debug)]
pub struct BomLine {
    pub key: String,
    pub value: String,
    pub type_id: String,
    pub references: Vec<String>,
    pub quantity: usize,
}

/// Character order: `a` sorts before `b`.
pub open spec fn text_lt(a: Seq<char>, b: Seq<char>) -> bool
    decreases a.len(),
{
    if a.len() == 0 {
        b.len() > 0
    } else if b.len() == 0 {
        false
    } else if a[0] != b[0] {
        a[0] < b[0]
    } else {
        text_lt(a.drop_first(), b.drop_first())
    }
}

proof fn lemma_text_lt_total(a: Seq<char>, b: Seq<char>)
    requires
        a != b,
    ensures
        text_lt(a, b) || text_lt(b, a),
    decreases a.len(),
{
    if a.len() > 0 && b.len() > 0 && a[0] == b[0] {
        if a.drop_first() == b.drop_first() {
            assert(a =~= seq![a[0]] + a.drop_first());
            assert(b =~= seq![b[0]] + b.drop_first());
        }
        lemma_text_lt_total(a.drop_first(), b.drop_first());
    } else if a.len() == 0 && b.len() == 0 {
        assert(a =~= b);
    }
}

/// Whether `a` sorts before `b`.
fn chars_lt(a: &Vec<char>, b: &Vec<char>) -> (r: bool)
    ensures
        r == text_lt(a@, b@),
{
    let mut i: usize = 0;
    assert(a@.skip(0) =~= a@);
    assert(b@.skip(0) =~= b@);
    while i < a.len() && i < b.len()
        invariant
            i <= a.len(),
            i <= b.len(),
            text_lt(a@, b@) == text_lt(a@.skip(i as int), b@.skip(i as int)),
        decreases a.len() - i,
    {
        assert(a@.skip(i as int)[0] == a@[i as int]);
        assert(b@.skip(i as int)[0] == b@[i as int]);
        if a[i] != b[i] {
            return a[i] < b[i];
        }
        assert(a@.skip(i as int).drop_first() =~= a@.skip(i + 1));
        assert(b@.skip(i as int).drop_first() =~= b@.skip(i + 1));
        i = i + 1;
    }
    assert(a@.skip(i as int).len() == a.len() - i);
    assert(b@.skip(i as int).len() == b.len() - i);
    i < b.len()
}

/// The grouping key of a part: its value and its type, joined by `_`.
pub open spec fn bom_key(c: Component) -> Seq<char> {
    c.value@ + "_"@ + c.type_id@
}

/// The parts among `cs` whose key is `k`, in order.
pub open spec fn keyed(cs: Seq<Component>, k: Seq<char>) -> Seq<Component> {
    cs.filter(key_is(k))
}

pub open spec fn key_is(k: Seq<char>) -> spec_fn(Component) -> bool {
    |c: Component| bom_key(c) == k
}

pub open spec fn references_of(cs: Seq<Component>) -> Seq<Seq<char>> {
    cs.map_values(|c: Component| c.reference@)
}

/// Every part of every schematic of the project, in order.
pub open spec fn project_parts(schematics: Seq<Schematic>) -> Seq<Component> {
    gather_all(schematics.len(), |s: int| schematics[s].components@)
}

/// `lines` is the bill of materials of the parts `cs`: one line per key, in
/// key order, each listing the references of its parts in order, their
/// number, and the value and type of the first of them.
pub open spec fn is_bom(cs: Seq<Component>, lines: Seq<BomLine>) -> bool {
    &&& forall|i: int| 0 <= i < lines.len() - 1 ==> text_lt(#[trigger] lines[i].key@, lines[i + 1].key@)
    &&& forall|i: int, j: int|
        0 <= i < lines.len() && 0 <= j < lines.len() && i != j ==> #[trigger] lines[i].key@
            != #[trigger] lines[j].key@
    &&& forall|i: int| 0 <= i < lines.len() ==> #[trigger] line_ok(cs, lines[i])
    &&& forall|j: int| 0 <= j < cs.len() ==> #[trigger] keyed_line(lines, bom_key(cs[j]))
}

pub open spec fn line_ok(cs: Seq<Component>, l: BomLine) -> bool {
    let group = keyed(cs, l.key@);
    &&& group.len() > 0
    &&& texts(l.references@) == references_of(group)
    &&& l.quantity == group.len()
    &&& l.value@ == group[0].value@
    &&& l.type_id@ == group[0].type_id@
}

/// Some line carries the key `k`.
pub open spec fn keyed_line(lines: Seq<BomLine>, k: Seq<char>) -> bool {
    exists|i: int| 0 <= i < lines.len() && #[trigger] lines[i].key@ == k
}

fn find_line(lines: &Vec<BomLine>, key: &String) -> (r: Option<usize>)
    ensures
        match r {
            Some(i) => i < lines.len() && lines@[i as int].key@ == key@,
            None => forall|i: int| 0 <= i < lines.len() ==> #[trigger] lines@[i].key@ != key@,
        },
{
    let mut i: usize = 0;
    while i < lines.len()
        invariant
            i <= lines.len(),
            forall|j: int| 0 <= j < i ==> #[trigger] lines@[j].key@ != key@,
        decreases lines.len() - i,
    {
        if lines[i].key == *key {
            return Some(i);
        }
        i = i + 1;
    }
    None
}

/// The position of the first line whose key sorts after `key`.
fn insert_position(lines: &Vec<BomLine>, key: &Vec<char>) -> (r: usize)
    ensures
        r <= lines.len(),
        forall|j: int| 0 <= j < r ==> !text_lt(key@, #[trigger] lines@[j].key@),
        r < lines.len() ==> text_lt(key@, lines@[r as int].key@),
{
    let mut i: usize = 0;
    while i < lines.len()
        invariant
            i <= lines.len(),
            forall|j: int| 0 <= j < i ==> !text_lt(key@, #[trigger] lines@[j].key@),
        decreases lines.len() - i,
    {
        let k = chars_of(lines[i].key.as_str());
        if chars_lt(key, &k) {
            return i;
        }
        i = i + 1;
    }
    i
}


fn part_key(part: &Component) -> (r: String)
    ensures
        r@ == bom_key(*part),
{
    let mut key = String::from_str(part.value.as_str());
    key.append("_");
    key.append(part.type_id.as_str());
    key
}

proof fn lemma_keyed_push(seen: Seq<Component>, part: Component, k: Seq<char>)
    ensures
        keyed(seen.push(part), k) == if bom_key(part) == k {
            keyed(seen, k).push(part)
        } else {
            keyed(seen, k)
        },
        keyed(seen, k).len() <= seen.len(),
{
    seen.lemma_filter_push(part, key_is(k));
    seen.lemma_filter_len(key_is(k));
}

proof fn lemma_unlisted_key_unseen(seen: Seq<Component>, lines: Seq<BomLine>, k: Seq<char>)
    requires
        is_bom(seen, lines),
        forall|i: int| 0 <= i < lines.len() ==> #[trigger] lines[i].key@ != k,
    ensures
        keyed(seen, k).len() == 0,
{
    if keyed(seen, k).len() > 0 {
        let e = keyed(seen, k)[0];
        seen.lemma_filter_pred(key_is(k), 0);
        assert(keyed(seen, k).contains(e));
        seen.lemma_filter_contains_rev(key_is(k), e);
        let j = choose|j: int| 0 <= j < seen.len() && seen[j] == e;
        assert(keyed_line(lines, bom_key(seen[j])));
    }
}

/// Adds a part to the bill of materials of the parts `seen`.
fn add_part(lines: &mut Vec<BomLine>, part: &Component, Ghost(seen): Ghost<Seq<Component>>)
    requires
        is_bom(seen, old(lines)@),
        seen.len() < usize::MAX,
    ensures
        is_bom(seen.push(*part), final(lines)@),
{
    let ghost old_lines = lines@;
    let ghost now = seen.push(*part);
    let key = part_key(part);
    let ghost k = key@;
    proof {
        assert forall|j: int| 0 <= j < old_lines.len() && old_lines[j].key@ != k implies keyed(now, #[trigger] old_lines[j].key@)
            == keyed(seen, old_lines[j].key@) by {
            lemma_keyed_push(seen, *part, old_lines[j].key@);
        }
        lemma_keyed_push(seen, *part, k);
    }
    match find_line(lines, &key) {
        Some(i) => {
            let mut line = lines.remove(i);
            let ghost old_line = line;
            proof {
                assert(line_ok(seen, old_lines[i as int]));
                assert(line.quantity == keyed(seen, k).len());
            }
            line.references.push(part.reference.clone());
            line.quantity = line.quantity + 1;
            lines.insert(i, line);
            proof {
                assert(lines@ =~= old_lines.update(i as int, line));
                assert(old_line == old_lines[i as int]);
                assert(line_ok(seen, old_line));
                assert(texts(line.references@) =~= texts(old_line.references@).push(part.reference@));
                assert(references_of(keyed(now, k)) =~= references_of(keyed(seen, k)).push(part.reference@));
                assert(line_ok(now, line));
                assert forall|j: int| 0 <= j < lines@.len() implies #[trigger] line_ok(now, lines@[j]) by {
                    if j != i {
                        assert(lines@[j] == old_lines[j]);
                        assert(line_ok(seen, old_lines[j]));
                        assert(old_lines[j].key@ != k);
                    }
                }
                assert forall|j: int| 0 <= j < now.len() implies #[trigger] keyed_line(lines@, bom_key(now[j])) by {
                    if j < seen.len() {
                        assert(keyed_line(old_lines, bom_key(seen[j])));
                        let x = choose|x: int| 0 <= x < old_lines.len() && #[trigger] old_lines[x].key@ == bom_key(seen[j]);
                        assert(lines@[x].key@ == old_lines[x].key@);
                    } else {
                        assert(lines@[i as int].key@ == bom_key(now[j]));
                    }
                }
                assert forall|a: int, b: int|
                    0 <= a < lines@.len() && 0 <= b < lines@.len() && a != b implies #[trigger] lines@[a].key@
                        != #[trigger] lines@[b].key@ by {
                    assert(lines@[a].key@ == old_lines[a].key@);
                    assert(lines@[b].key@ == old_lines[b].key@);
                }
                assert forall|a: int| 0 <= a < lines@.len() - 1 implies text_lt(#[trigger] lines@[a].key@, lines@[a + 1].key@) by {
                    assert(lines@[a].key@ == old_lines[a].key@);
                    assert(lines@[a + 1].key@ == old_lines[a + 1].key@);
                }
            }
        },
        None => {
            proof {
                lemma_unlisted_key_unseen(seen, old_lines, k);
            }
            let key_chars = chars_of(key.as_str());
            let pos = insert_position(lines, &key_chars);
            let mut references: Vec<String> = Vec::new();
            references.push(part.reference.clone());
            let line = BomLine {
                key,
                value: part.value.clone(),
                type_id: part.type_id.clone(),
                references,
                quantity: 1,
            };
            lines.insert(pos, line);
            proof {
                assert(lines@ == old_lines.insert(pos as int, line));
                assert(keyed(now, k) =~= seq![*part]);
                assert(texts(line.references@) =~= references_of(keyed(now, k)));
                assert(line_ok(now, line));
                assert forall|j: int| 0 <= j < lines@.len() implies #[trigger] line_ok(now, lines@[j]) by {
                    if j < pos {
                        assert(lines@[j] == old_lines[j]);
                        assert(line_ok(seen, old_lines[j]));
                    } else if j > pos {
                        assert(lines@[j] == old_lines[j - 1]);
                        assert(line_ok(seen, old_lines[j - 1]));
                    }
                }
                assert forall|j: int| 0 <= j < now.len() implies #[trigger] keyed_line(lines@, bom_key(now[j])) by {
                    if j < seen.len() {
                        assert(keyed_line(old_lines, bom_key(seen[j])));
                        let x = choose|x: int| 0 <= x < old_lines.len() && #[trigger] old_lines[x].key@ == bom_key(seen[j]);
                        if x < pos {
                            assert(lines@[x].key@ == old_lines[x].key@);
                        } else {
                            assert(lines@[x + 1].key@ == old_lines[x].key@);
                        }
                    } else {
                        assert(lines@[pos as int].key@ == bom_key(now[j]));
                    }
                }
                assert forall|a: int, b: int|
                    0 <= a < lines@.len() && 0 <= b < lines@.len() && a != b implies #[trigger] lines@[a].key@
                        != #[trigger] lines@[b].key@ by {
                    let oa = if a < pos { a } else { a - 1 };
                    let ob = if b < pos { b } else { b - 1 };
                    if a != pos && b != pos {
                        assert(lines@[a].key@ == old_lines[oa].key@);
                        assert(lines@[b].key@ == old_lines[ob].key@);
                    } else if a == pos {
                        assert(lines@[b].key@ == old_lines[ob].key@);
                    } else {
                        assert(lines@[a].key@ == old_lines[oa].key@);
                    }
                }
                assert forall|a: int| 0 <= a < lines@.len() - 1 implies text_lt(#[trigger] lines@[a].key@, lines@[a + 1].key@) by {
                    if a + 1 < pos {
                        assert(lines@[a].key@ == old_lines[a].key@);
                        assert(lines@[a + 1].key@ == old_lines[a + 1].key@);
                    } else if a + 1 == pos {
                        assert(lines@[a].key@ == old_lines[a].key@);
                        assert(!text_lt(k, old_lines[a].key@));
                        assert(old_lines[a].key@ != k);
                        lemma_text_lt_total(old_lines[a].key@, k);
                    } else if a == pos {
                        assert(lines@[a + 1].key@ == old_lines[a].key@);
                    } else {
                        assert(lines@[a].key@ == old_lines[a - 1].key@);
                        assert(lines@[a + 1].key@ == old_lines[a].key@);
                    }
                }
            }
        },
    }
}


proof fn lemma_parts_prefix(schematics: Seq<Schematic>, n: nat, m: nat)
    requires
        n <= m,
    ensures
        gather_all(n, |s: int| schematics[s].components@).len() <= gather_all(
            m,
            |s: int| schematics[s].components@,
        ).len(),
    decreases m - n,
{
    if n < m {
        lemma_parts_prefix(schematics, n, (m - 1) as nat);
    }
}

/// The bill of materials of all parts of the project.
pub fn bom_lines(project: &Project) -> (r: Vec<BomLine>)
    requires
        project_parts(project.schematics@).len() < usize::MAX,
    ensures
        is_bom(project_parts(project.schematics@), r@),
{
    let schematics = &project.schematics;
    let mut lines: Vec<BomLine> = Vec::new();
    let mut s: usize = 0;
    while s < schematics.len()
        invariant
            s <= schematics.len(),
            schematics == &project.schematics,
            project_parts(schematics@).len() < usize::MAX,
            is_bom(gather_all(s as nat, |k: int| schematics@[k].components@), lines@),
        decreases schematics.len() - s,
    {
        let comps = &schematics[s].components;
        let ghost before = gather_all(s as nat, |k: int| schematics@[k].components@);
        proof {
            lemma_parts_prefix(schematics@, (s + 1) as nat, schematics@.len());
            assert(before + comps@.subrange(0, 0) =~= before);
        }
        let mut c: usize = 0;
        while c < comps.len()
            invariant
                c <= comps.len(),
                comps == &schematics@[s as int].components,
                before == gather_all(s as nat, |k: int| schematics@[k].components@),
                before.len() + comps.len() < usize::MAX,
                is_bom(before + comps@.subrange(0, c as int), lines@),
            decreases comps.len() - c,
        {
            let ghost seen = before + comps@.subrange(0, c as int);
            add_part(&mut lines, &comps[c], Ghost(seen));
            assert(seen.push(comps@[c as int]) =~= before + comps@.subrange(0, c + 1));
            c = c + 1;
        }
        assert(before + comps@.subrange(0, c as int) =~= gather_all(
            (s + 1) as nat,
            |k: int| schematics@[k].components@,
        ));
        s = s + 1;
    }
    lines
}


/// The texts `ts` joined by `sep`.
pub open spec fn joined(ts: Seq<Seq<char>>, sep: Seq<char>) -> Seq<char>
    decreases ts.len(),
{
    if ts.len() == 0 {
        Seq::empty()
    } else if ts.len() == 1 {
        ts[0]
    } else {
        joined(ts.drop_last(), sep) + sep + ts.last()
    }
}

fn join_texts(ts: &Vec<String>, sep: &str) -> (r: String)
    ensures
        r@ == joined(texts(ts@), sep@),
{
    let mut out = String::new();
    let mut i: usize = 0;
    while i < ts.len()
        invariant
            i <= ts.len(),
            out@ == joined(texts(ts@.subrange(0, i as int)), sep@),
        decreases ts.len() - i,
    {
        if i > 0 {
            out.append(sep);
        }
        out.append(ts[i].as_str());
        proof {
            let pre = texts(ts@.subrange(0, i as int));
            let next = texts(ts@.subrange(0, i + 1));
            assert(next.drop_last() =~= pre);
            assert(next.last() == ts@[i as int]@);
            if i == 0 {
                assert(out@ =~= next[0]);
            }
        }
        i = i + 1;
    }
    assert(ts@.subrange(0, i as int) =~= ts@);
    out
}

pub open spec fn csv_line(l: BomLine) -> Seq<char> {
    "\""@ + joined(texts(l.references@), ", "@) + "\",\""@ + l.value@ + "\",\""@ + l.type_id@
        + "\","@
        + decimal(l.quantity as nat) + ",\""@ + "Component"@ + "\"\n"@
}

/// A CSV bill of materials: a header, then one row per line.
pub open spec fn csv_text(lines: Seq<BomLine>) -> Seq<char> {
    "Reference,Value,Footprint,Quantity,Description\n"@ + gather_all(
        lines.len(),
        |i: int| csv_line(lines[i]),
    )
}

fn render_csv_row(l: &BomLine) -> (r: String)
    ensures
        r@ == csv_line(*l),
{
    let mut out = String::new();
    out.append("\"");
    out.append(join_texts(&l.references, ", ").as_str());
    out.append("\",\"");
    out.append(l.value.as_str());
    out.append("\",\"");
    out.append(l.type_id.as_str());
    out.append("\",");
    out.append(decimal_string(l.quantity).as_str());
    out.append(",\"");
    out.append("Component");
    out.append("\"\n");
    out
}

/// Renders bill-of-materials lines as CSV.
pub fn render_csv_bom(lines: &Vec<BomLine>) -> (r: String)
    ensures
        r@ == csv_text(lines@),
{
    let mut out = String::from_str("Reference,Value,Footprint,Quantity,Description\n");
    let ghost head = out@;
    let mut i: usize = 0;
    while i < lines.len()
        invariant
            i <= lines.len(),
            head == "Reference,Value,Footprint,Quantity,Description\n"@,
            out@ == head + gather_all(i as nat, |k: int| csv_line(lines@[k])),
        decreases lines.len() - i,
    {
        out.append(render_csv_row(&lines[i]).as_str());
        assert(head + gather_all((i + 1) as nat, |k: int| csv_line(lines@[k])) =~= out@);
        i = i + 1;
    }
    out
}

/// The CSV bill of materials of the project.
pub fn generate_csv_bom(project: &Project) -> (r: String)
    requires
        project_parts(project.schematics@).len() < usize::MAX,
    ensures
        exists|lines: Seq<BomLine>|
            is_bom(project_parts(project.schematics@), lines) && r@ == csv_text(lines),
{
    let lines = bom_lines(project);
    render_csv_bom(&lines)
}


pub open spec fn html_row(l: BomLine) -> Seq<char> {
    "      <tr>\n"@ + "        <td>"@ + joined(texts(l.references@), ", "@) + "</td>\n"@
        + "        <td>"@ + l.value@ + "</td>\n"@ + "        <td>"@ + l.type_id@ + "</td>\n"@
        + "        <td>"@ + decimal(l.quantity as nat) + "</td>\n"@
        + "        <td>Component</td>\n"@ + "      </tr>\n"@
}

/// An HTML bill of materials for the project `name` at `version` by
/// `author`, generated at `date`: a table of the lines and a row with the
/// total number of parts.
pub open spec fn html_text(
    name: Seq<char>,
    date: Seq<char>,
    version: Seq<char>,
    author: Seq<char>,
    lines: Seq<BomLine>,
    total: nat,
) -> Seq<char> {
    ("<!DOCTYPE html>\n"@ + "<html lang=\"en\">\n"@ + "<head>\n"@ + "  <meta charset=\"UTF-8\">\n"@
        + "  <meta name=\"viewport\" content=\"width=device-width, initial-scale=1.0\">\n"@
        + "  <title>Bill of Materials - "@ + name + "</title>\n"@ + "  <style>\n"@
        + "    body { font-family: Arial, sans-serif; margin: 20px; }\n"@
        + "    h1 { color: #333; }\n"@
        + "    table { border-collapse: collapse; width: 100%; margin-top: 20px; }\n"@
        + "    th, td { border: 1px solid #ddd; padding: 12px; text-align: left; }\n"@
        + "    th { background-color: #4CAF50; color: white; }\n"@
        + "    tr:nth-child(even) { background-color: #f2f2f2; }\n"@
        + "    .metadata { margin: 20px 0; color: #666; }\n"@
        + "    .total { font-weight: bold; background-color: #e0e0e0; }\n"@ + "  </style>\n"@
        + "</head>\n"@ + "<body>\n"@ + "  <h1>Bill of Materials: "@ + name + "</h1>\n"@
        + "  <div class=\"metadata\">\n"@ + "    <p>Generated: "@ + date + "</p>\n"@
        + "    <p>Version: "@ + version + "</p>\n"@ + "    <p>Author: "@ + author + "</p>\n"@
        + "  </div>\n"@ + "  <table>\n"@ + "    <thead>\n"@ + "      <tr>\n"@
        + "        <th>Reference</th>\n"@ + "        <th>Value</th>\n"@
        + "        <th>Footprint</th>\n"@ + "        <th>Quantity</th>\n"@
        + "        <th>Description</th>\n"@ + "      </tr>\n"@ + "    </thead>\n"@
        + "    <tbody>\n"@) + gather_all(lines.len(), |i: int| html_row(lines[i]))
        + "      <tr class=\"total\">\n"@ + "        <td colspan=\"3\">Total Components</td>\n"@
        + "        <td>"@ + decimal(total) + "</td>\n"@ + "        <td></td>\n"@ + "      </tr>\n"@
        + "    </tbody>\n"@ + "  </table>\n"@ + "</body>\n"@ + "</html>"@
}

fn render_html_row(l: &BomLine) -> (r: String)
    ensures
        r@ == html_row(*l),
{
    let mut out = String::new();
    out.append("      <tr>\n");
    out.append("        <td>");
    out.append(join_texts(&l.references, ", ").as_str());
    out.append("</td>\n");
    out.append("        <td>");
    out.append(l.value.as_str());
    out.append("</td>\n");
    out.append("        <td>");
    out.append(l.type_id.as_str());
    out.append("</td>\n");
    out.append("        <td>");
    out.append(decimal_string(l.quantity).as_str());
    out.append("</td>\n");
    out.append("        <td>Component</td>\n");
    out.append("      </tr>\n");
    out
}

/// Renders bill-of-materials lines as an HTML page.
pub fn render_html_bom(
    name: &str,
    date: &str,
    version: &str,
    author: &str,
    lines: &Vec<BomLine>,
    total: usize,
) -> (r: String)
    ensures
        r@ == html_text(name@, date@, version@, author@, lines@, total as nat),
{
    let mut out = String::new();
    out.append("<!DOCTYPE html>\n");
    out.append("<html lang=\"en\">\n");
    out.append("<head>\n");
    out.append("  <meta charset=\"UTF-8\">\n");
    out.append("  <meta name=\"viewport\" content=\"width=device-width, initial-scale=1.0\">\n");
    out.append("  <title>Bill of Materials - ");
    out.append(name);
    out.append("</title>\n");
    out.append("  <style>\n");
    out.append("    body { font-family: Arial, sans-serif; margin: 20px; }\n");
    out.append("    h1 { color: #333; }\n");
    out.append("    table { border-collapse: collapse; width: 100%; margin-top: 20px; }\n");
    out.append("    th, td { border: 1px solid #ddd; padding: 12px; text-align: left; }\n");
    out.append("    th { background-color: #4CAF50; color: white; }\n");
    out.append("    tr:nth-child(even) { background-color: #f2f2f2; }\n");
    out.append("    .metadata { margin: 20px 0; color: #666; }\n");
    out.append("    .total { font-weight: bold; background-color: #e0e0e0; }\n");
    out.append("  </style>\n");
    out.append("</head>\n");
    out.append("<body>\n");
    out.append("  <h1>Bill of Materials: ");
    out.append(name);
    out.append("</h1>\n");
    out.append("  <div class=\"metadata\">\n");
    out.append("    <p>Generated: ");
    out.append(date);
    out.append("</p>\n");
    out.append("    <p>Version: ");
    out.append(version);
    out.append("</p>\n");
    out.append("    <p>Author: ");
    out.append(author);
    out.append("</p>\n");
    out.append("  </div>\n");
    out.append("  <table>\n");
    out.append("    <thead>\n");
    out.append("      <tr>\n");
    out.append("        <th>Reference</th>\n");
    out.append("        <th>Value</th>\n");
    out.append("        <th>Footprint</th>\n");
    out.append("        <th>Quantity</th>\n");
    out.append("        <th>Description</th>\n");
    out.append("      </tr>\n");
    out.append("    </thead>\n");
    out.append("    <tbody>\n");
    let ghost head = out@;
    let mut i: usize = 0;
    while i < lines.len()
        invariant
            i <= lines.len(),
            out@ == head + gather_all(i as nat, |k: int| html_row(lines@[k])),
        decreases lines.len() - i,
    {
        out.append(render_html_row(&lines[i]).as_str());
        assert(head + gather_all((i + 1) as nat, |k: int| html_row(lines@[k])) =~= out@);
        i = i + 1;
    }
    out.append("      <tr class=\"total\">\n");
    out.append("        <td colspan=\"3\">Total Components</td>\n");
    out.append("        <td>");
    out.append(decimal_string(total).as_str());
    out.append("</td>\n");
    out.append("        <td></td>\n");
    out.append("      </tr>\n");
    out.append("    </tbody>\n");
    out.append("  </table>\n");
    out.append("</body>\n");
    out.append("</html>");
    out
}

/// The author's name, `Unknown` when none is recorded.
pub open spec fn author_text(a: Option<String>) -> Seq<char> {
    match a {
        Some(s) => s@,
        None => "Unknown"@,
    }
}

/// The HTML bill of materials of the project, dated now.
pub fn generate_html_bom(project: &Project) -> (r: String)
    requires
        project_parts(project.schematics@).len() < usize::MAX,
    ensures
        exists|lines: Seq<BomLine>, date: Seq<char>|
            is_bom(project_parts(project.schematics@), lines) && r@ == #[trigger] html_text(
                project.name@,
                date,
                project.version@,
                author_text(project.author),
                lines,
                project_parts(project.schematics@).len(),
            ),
{
    let lines = bom_lines(project);
    let total = part_count(project);
    let date = current_date_text();
    let author: &str = match &project.author {
        Some(a) => a.as_str(),
        None => "Unknown",
    };
    let r = render_html_bom(project.name.as_str(), date.as_str(), project.version.as_str(), author, &lines, total);
    assert(author@ == author_text(project.author));
    assert(is_bom(project_parts(project.schematics@), lines@) && r@ == html_text(
        project.name@,
        date@,
        project.version@,
        author_text(project.author),
        lines@,
        project_parts(project.schematics@).len(),
    ));
    r
}

/// The number of parts of the project.
pub fn part_count(project: &Project) -> (r: usize)
    requires
        project_parts(project.schematics@).len() < usize::MAX,
    ensures
        r == project_parts(project.schematics@).len(),
{
    let schematics = &project.schematics;
    let mut total: usize = 0;
    let mut s: usize = 0;
    while s < schematics.len()
        invariant
            s <= schematics.len(),
            schematics == &project.schematics,
            project_parts(schematics@).len() < usize::MAX,
            total == gather_all(s as nat, |k: int| schematics@[k].components@).len(),
        decreases schematics.len() - s,
    {
        proof {
            lemma_parts_prefix(schematics@, (s + 1) as nat, schematics@.len());
        }
        total = total + schematics[s].components.len();
        s = s + 1;
    }
    total
}

} // verus!
