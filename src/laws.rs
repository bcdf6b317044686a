//! Properties of net construction that relate several nets or several
//! schematics, proved from the contract of `build_nets`.

use vstd::prelude::*;
use crate::connectivity::{
    NetConnection,
    PinRef,
    increasing,
    net_views,
    pin_ref_lt,
    pins_increasing,
    connected,
    in_some_net,
    is_net_table,
    is_walk,
    lemma_adjacent_symmetric,
    lemma_connected_reflexive,
    lemma_connected_symmetric,
    lemma_connected_transitive,
    net_ok,
    wire_adjacent,
};
use crate::geometry::pin_touches_wire;
use crate::erc::is_report_of;
use crate::erc::{connected_total, pin_total, report_matches, statistics_of};
use crate::connectivity::NetView;
use crate::model::{Component, Schematic, Wire, pin_point};
use crate::report::{error_views, warning_views, ERCReport};

verus! {

/// Wires `a` and `b` belong to one net of the table.
pub open spec fn same_net(nets: Seq<NetConnection>, a: int, b: int) -> bool {
    exists|k: int|
        0 <= k < nets.len() && #[trigger] nets[k].wires@.contains(a as usize)
            && nets[k].wires@.contains(b as usize)
}

/// In a net table two wires share a net exactly when a chain of wires, each
/// meeting the next at an endpoint, leads from one to the other.
pub proof fn law_same_net_iff_connected(
    ws: Seq<Wire>,
    comps: Seq<Component>,
    nets: Seq<NetConnection>,
    a: int,
    b: int,
)
    requires
        is_net_table(ws, comps, nets),
        0 <= a < ws.len(),
        0 <= b < ws.len(),
    ensures
        same_net(nets, a, b) <==> connected(ws, a, b),
{
    if same_net(nets, a, b) {
        let k = choose|k: int|
            0 <= k < nets.len() && #[trigger] nets[k].wires@.contains(a as usize)
                && nets[k].wires@.contains(b as usize);
        assert(net_ok(ws, comps, nets[k], k as nat));
        let s = nets[k].wires@[0] as int;
        lemma_connected_symmetric(ws, s, a);
        lemma_connected_transitive(ws, a, s, b);
    }
    if connected(ws, a, b) {
        assert(in_some_net(nets, a));
        let k = choose|k: int| 0 <= k < nets.len() && #[trigger] nets[k].wires@.contains(a as usize);
        assert(net_ok(ws, comps, nets[k], k as nat));
        let s = nets[k].wires@[0] as int;
        lemma_connected_transitive(ws, s, a, b);
        assert(nets[k].wires@.contains(b as usize));
    }
}

/// Wire adjacency is symmetric, and sharing a net is an equivalence
/// relation on the wires: reflexive, symmetric and transitive.
pub proof fn law_net_membership_is_equivalence(
    ws: Seq<Wire>,
    comps: Seq<Component>,
    nets: Seq<NetConnection>,
    a: int,
    b: int,
    c: int,
)
    requires
        is_net_table(ws, comps, nets),
        0 <= a < ws.len(),
        0 <= b < ws.len(),
        0 <= c < ws.len(),
    ensures
        wire_adjacent(ws, a, b) == wire_adjacent(ws, b, a),
        same_net(nets, a, a),
        same_net(nets, a, b) ==> same_net(nets, b, a),
        same_net(nets, a, b) && same_net(nets, b, c) ==> same_net(nets, a, c),
{
    lemma_adjacent_symmetric(ws, a, b);
    lemma_connected_reflexive(ws, a);
    law_same_net_iff_connected(ws, comps, nets, a, a);
    law_same_net_iff_connected(ws, comps, nets, a, b);
    law_same_net_iff_connected(ws, comps, nets, b, a);
    law_same_net_iff_connected(ws, comps, nets, b, c);
    law_same_net_iff_connected(ws, comps, nets, a, c);
    if connected(ws, a, b) {
        lemma_connected_symmetric(ws, a, b);
        if connected(ws, b, c) {
            lemma_connected_transitive(ws, a, b, c);
        }
    }
}

/// `ws2` holds the wires of `ws1`, wire `i` of `ws1` at position `perm[i]`.
pub open spec fn is_reordering(ws1: Seq<Wire>, ws2: Seq<Wire>, perm: Seq<int>, inv: Seq<int>) -> bool {
    &&& ws1.len() == ws2.len()
    &&& perm.len() == ws1.len()
    &&& inv.len() == ws1.len()
    &&& forall|i: int| 0 <= i < ws1.len() ==> 0 <= #[trigger] perm[i] < ws1.len() && inv[perm[i]] == i
    &&& forall|i: int| 0 <= i < ws1.len() ==> 0 <= #[trigger] inv[i] < ws1.len() && perm[inv[i]] == i
    &&& forall|i: int| 0 <= i < ws1.len() ==> ws2[#[trigger] perm[i]] == ws1[i]
}

proof fn lemma_connected_reordered(ws1: Seq<Wire>, ws2: Seq<Wire>, perm: Seq<int>, inv: Seq<int>, i: int, j: int)
    requires
        is_reordering(ws1, ws2, perm, inv),
        connected(ws1, i, j),
    ensures
        connected(ws2, perm[i], perm[j]),
{
    let w = choose|w: Seq<int>| #[trigger] is_walk(ws1, w) && w[0] == i && w.last() == j;
    let w2 = Seq::new(w.len(), |k: int| perm[w[k]]);
    assert forall|k: int| 0 <= k < w2.len() - 1 implies #[trigger] wire_adjacent(ws2, w2[k], w2[k + 1]) by {
        assert(wire_adjacent(ws1, w[k], w[k + 1]));
        assert(ws2[perm[w[k]]] == ws1[w[k]]);
        assert(ws2[perm[w[k + 1]]] == ws1[w[k + 1]]);
    }
    assert(is_walk(ws2, w2));
}

proof fn lemma_inverse_reordering(ws1: Seq<Wire>, ws2: Seq<Wire>, perm: Seq<int>, inv: Seq<int>)
    requires
        is_reordering(ws1, ws2, perm, inv),
    ensures
        is_reordering(ws2, ws1, inv, perm),
{
    assert forall|i: int| 0 <= i < ws2.len() implies ws1[#[trigger] inv[i]] == ws2[i] by {
        assert(ws2[perm[inv[i]]] == ws1[inv[i]]);
    }
}

/// Net membership does not depend on the order in which the wires are
/// supplied: two wires share a net of one schematic exactly when they share
/// a net of the same wires listed in another order.
pub proof fn law_net_membership_ignores_wire_order(
    ws1: Seq<Wire>,
    ws2: Seq<Wire>,
    perm: Seq<int>,
    inv: Seq<int>,
    comps: Seq<Component>,
    nets1: Seq<NetConnection>,
    nets2: Seq<NetConnection>,
    a: int,
    b: int,
)
    requires
        is_reordering(ws1, ws2, perm, inv),
        is_net_table(ws1, comps, nets1),
        is_net_table(ws2, comps, nets2),
        0 <= a < ws1.len(),
        0 <= b < ws1.len(),
    ensures
        same_net(nets1, a, b) == same_net(nets2, perm[a], perm[b]),
{
    law_same_net_iff_connected(ws1, comps, nets1, a, b);
    law_same_net_iff_connected(ws2, comps, nets2, perm[a], perm[b]);
    if connected(ws1, a, b) {
        lemma_connected_reordered(ws1, ws2, perm, inv, a, b);
    }
    if connected(ws2, perm[a], perm[b]) {
        lemma_inverse_reordering(ws1, ws2, perm, inv);
        lemma_connected_reordered(ws2, ws1, inv, perm, perm[a], perm[b]);
    }
}


/// Pin `r` belongs to the net that holds wire `a`.
pub open spec fn pin_with_wire(nets: Seq<NetConnection>, a: int, r: PinRef) -> bool {
    exists|k: int|
        0 <= k < nets.len() && #[trigger] nets[k].wires@.contains(a as usize)
            && nets[k].pins@.contains(r)
}

/// Pin `r` names a pin of the schematic that touches wire `j`.
pub open spec fn pin_touches(ws: Seq<Wire>, comps: Seq<Component>, r: PinRef, j: int) -> bool {
    &&& r.component < comps.len()
    &&& r.pin < comps[r.component as int].pins.len()
    &&& 0 <= j < ws.len()
    &&& pin_touches_wire(pin_point(comps[r.component as int].pins@[r.pin as int]), ws[j].points@)
}

proof fn lemma_pin_with_wire_iff(
    ws: Seq<Wire>,
    comps: Seq<Component>,
    nets: Seq<NetConnection>,
    a: int,
    r: PinRef,
)
    requires
        is_net_table(ws, comps, nets),
        0 <= a < ws.len(),
    ensures
        pin_with_wire(nets, a, r) <==> exists|j: int|
            connected(ws, a, j) && #[trigger] pin_touches(ws, comps, r, j),
{
    if pin_with_wire(nets, a, r) {
        let k = choose|k: int|
            0 <= k < nets.len() && #[trigger] nets[k].wires@.contains(a as usize)
                && nets[k].pins@.contains(r);
        assert(net_ok(ws, comps, nets[k], k as nat));
        let t = choose|t: int| 0 <= t < nets[k].pins@.len() && nets[k].pins@[t] == r;
        assert(crate::connectivity::pin_touches_net(
            ws,
            comps,
            nets[k].wires@,
            nets[k].pins@[t].component as int,
            nets[k].pins@[t].pin as int,
        ));
        let u = choose|u: int|
            0 <= u < nets[k].wires@.len() && #[trigger] pin_touches_wire(
                pin_point(comps[r.component as int].pins@[r.pin as int]),
                ws[nets[k].wires@[u] as int].points@,
            );
        let j = nets[k].wires@[u] as int;
        assert(nets[k].wires@.contains(j as usize));
        let s = nets[k].wires@[0] as int;
        lemma_connected_symmetric(ws, s, a);
        lemma_connected_transitive(ws, a, s, j);
        assert(pin_touches(ws, comps, r, j));
    }
    if exists|j: int| connected(ws, a, j) && #[trigger] pin_touches(ws, comps, r, j) {
        let j = choose|j: int| connected(ws, a, j) && #[trigger] pin_touches(ws, comps, r, j);
        assert(in_some_net(nets, a));
        let k = choose|k: int| 0 <= k < nets.len() && #[trigger] nets[k].wires@.contains(a as usize);
        assert(net_ok(ws, comps, nets[k], k as nat));
        let s = nets[k].wires@[0] as int;
        lemma_connected_transitive(ws, s, a, j);
        assert(nets[k].wires@.contains(j as usize));
        let u = choose|u: int| 0 <= u < nets[k].wires@.len() && nets[k].wires@[u] == j as usize;
        assert(nets[k].wires@[u] as int == j);
        assert(pin_touches_wire(
            pin_point(comps[r.component as int].pins@[r.pin as int]),
            ws[nets[k].wires@[u] as int].points@,
        ));
        assert(crate::connectivity::pin_touches_net(
            ws,
            comps,
            nets[k].wires@,
            r.component as int,
            r.pin as int,
        ));
        assert(nets[k].pins@.contains(PinRef { component: r.component, pin: r.pin }));
    }
}

/// The pins that share a net with a wire do not depend on the order in
/// which the wires are supplied either.
pub proof fn law_net_pins_ignore_wire_order(
    ws1: Seq<Wire>,
    ws2: Seq<Wire>,
    perm: Seq<int>,
    inv: Seq<int>,
    comps: Seq<Component>,
    nets1: Seq<NetConnection>,
    nets2: Seq<NetConnection>,
    a: int,
    r: PinRef,
)
    requires
        is_reordering(ws1, ws2, perm, inv),
        is_net_table(ws1, comps, nets1),
        is_net_table(ws2, comps, nets2),
        0 <= a < ws1.len(),
    ensures
        pin_with_wire(nets1, a, r) == pin_with_wire(nets2, perm[a], r),
{
    lemma_pin_with_wire_iff(ws1, comps, nets1, a, r);
    lemma_pin_with_wire_iff(ws2, comps, nets2, perm[a], r);
    if pin_with_wire(nets1, a, r) {
        let j = choose|j: int| connected(ws1, a, j) && #[trigger] pin_touches(ws1, comps, r, j);
        lemma_connected_reordered(ws1, ws2, perm, inv, a, j);
        assert(ws2[perm[j]] == ws1[j]);
        assert(pin_touches(ws2, comps, r, perm[j]));
    }
    if pin_with_wire(nets2, perm[a], r) {
        let j = choose|j: int| connected(ws2, perm[a], j) && #[trigger] pin_touches(ws2, comps, r, j);
        lemma_inverse_reordering(ws1, ws2, perm, inv);
        lemma_connected_reordered(ws2, ws1, inv, perm, perm[a], j);
        assert(ws1[inv[j]] == ws2[j]);
        assert(inv[perm[a]] == a);
        assert(pin_touches(ws1, comps, r, inv[j]));
    }
}

proof fn lemma_increasing_unique(s1: Seq<usize>, s2: Seq<usize>)
    requires
        increasing(s1),
        increasing(s2),
        forall|x: usize| s1.contains(x) <==> s2.contains(x),
    ensures
        s1 == s2,
    decreases s1.len(),
{
    if s1.len() == 0 {
        if s2.len() > 0 {
            assert(s2.contains(s2[0]));
        }
        assert(s1 =~= s2);
    } else {
        assert(s1.contains(s1[0]));
        if s2.len() == 0 {
            assert(false);
        }
        assert(s2.contains(s2[0]));
        let t2 = choose|t: int| 0 <= t < s2.len() && s2[t] == s1[0];
        let t1 = choose|t: int| 0 <= t < s1.len() && s1[t] == s2[0];
        if t2 > 0 {
            assert(s2[0] < s2[t2]);
        }
        if t1 > 0 {
            assert(s1[0] < s1[t1]);
        }
        assert(s1[0] == s2[0]);
        let d1 = s1.drop_first();
        let d2 = s2.drop_first();
        assert forall|x: usize| d1.contains(x) <==> d2.contains(x) by {
            if d1.contains(x) {
                let t = choose|t: int| 0 <= t < d1.len() && d1[t] == x;
                assert(s1[t + 1] == x);
                assert(s1[0] < s1[t + 1]);
                assert(s2.contains(x));
                let u = choose|u: int| 0 <= u < s2.len() && s2[u] == x;
                assert(u != 0);
                assert(d2[u - 1] == x);
            }
            if d2.contains(x) {
                let t = choose|t: int| 0 <= t < d2.len() && d2[t] == x;
                assert(s2[t + 1] == x);
                assert(s2[0] < s2[t + 1]);
                assert(s1.contains(x));
                let u = choose|u: int| 0 <= u < s1.len() && s1[u] == x;
                assert(u != 0);
                assert(d1[u - 1] == x);
            }
        }
        lemma_increasing_unique(d1, d2);
        assert forall|i: int| 0 <= i < s1.len() implies s1[i] == s2[i] by {
            if i > 0 {
                assert(s1[i] == d1[i - 1]);
                assert(s2[i] == d2[i - 1]);
            }
        }
        assert(s1 =~= s2);
    }
}

proof fn lemma_pins_increasing_unique(s1: Seq<PinRef>, s2: Seq<PinRef>)
    requires
        pins_increasing(s1),
        pins_increasing(s2),
        forall|x: PinRef| s1.contains(x) <==> s2.contains(x),
    ensures
        s1 == s2,
    decreases s1.len(),
{
    if s1.len() == 0 {
        if s2.len() > 0 {
            assert(s2.contains(s2[0]));
        }
        assert(s1 =~= s2);
    } else {
        assert(s1.contains(s1[0]));
        if s2.len() == 0 {
            assert(false);
        }
        assert(s2.contains(s2[0]));
        let t2 = choose|t: int| 0 <= t < s2.len() && s2[t] == s1[0];
        let t1 = choose|t: int| 0 <= t < s1.len() && s1[t] == s2[0];
        if t2 > 0 {
            assert(pin_ref_lt(s2[0], s2[t2]));
        }
        if t1 > 0 {
            assert(pin_ref_lt(s1[0], s1[t1]));
        }
        assert(s1[0] == s2[0]);
        let d1 = s1.drop_first();
        let d2 = s2.drop_first();
        assert forall|x: PinRef| d1.contains(x) <==> d2.contains(x) by {
            if d1.contains(x) {
                let t = choose|t: int| 0 <= t < d1.len() && d1[t] == x;
                assert(s1[t + 1] == x);
                assert(pin_ref_lt(s1[0], s1[t + 1]));
                assert(s2.contains(x));
                let u = choose|u: int| 0 <= u < s2.len() && s2[u] == x;
                assert(u != 0);
                assert(d2[u - 1] == x);
            }
            if d2.contains(x) {
                let t = choose|t: int| 0 <= t < d2.len() && d2[t] == x;
                assert(s2[t + 1] == x);
                assert(pin_ref_lt(s2[0], s2[t + 1]));
                assert(s1.contains(x));
                let u = choose|u: int| 0 <= u < s1.len() && s1[u] == x;
                assert(u != 0);
                assert(d1[u - 1] == x);
            }
        }
        lemma_pins_increasing_unique(d1, d2);
        assert forall|i: int| 0 <= i < s1.len() implies s1[i] == s2[i] by {
            if i > 0 {
                assert(s1[i] == d1[i - 1]);
                assert(s2[i] == d2[i - 1]);
            }
        }
        assert(s1 =~= s2);
    }
}

/// The first wire of a net is the smallest wire of its connected component.
proof fn lemma_first_wire_is_least(
    ws: Seq<Wire>,
    comps: Seq<Component>,
    nets: Seq<NetConnection>,
    k: int,
    j: int,
)
    requires
        is_net_table(ws, comps, nets),
        0 <= k < nets.len(),
        0 <= j < ws.len(),
        connected(ws, nets[k].wires@[0] as int, j),
    ensures
        nets[k].wires@[0] <= j,
        nets[k].wires@.contains(j as usize),
{
    assert(net_ok(ws, comps, nets[k], k as nat));
    assert(nets[k].wires@.contains(j as usize));
    let t = choose|t: int| 0 <= t < nets[k].wires@.len() && nets[k].wires@[t] == j as usize;
    if t > 0 {
        assert(nets[k].wires@[0] < nets[k].wires@[t]);
    }
}

/// The first wire of net `k` of one table is the first wire of some net of
/// any other table of the same schematic.
proof fn lemma_first_wire_shared(
    ws: Seq<Wire>,
    comps: Seq<Component>,
    nets1: Seq<NetConnection>,
    nets2: Seq<NetConnection>,
    k: int,
) -> (k2: int)
    requires
        is_net_table(ws, comps, nets1),
        is_net_table(ws, comps, nets2),
        0 <= k < nets1.len(),
    ensures
        0 <= k2 < nets2.len(),
        nets2[k2].wires@[0] == nets1[k].wires@[0],
{
    assert(net_ok(ws, comps, nets1[k], k as nat));
    let x = nets1[k].wires@[0] as int;
    assert(in_some_net(nets2, x));
    let k2 = choose|k2: int| 0 <= k2 < nets2.len() && #[trigger] nets2[k2].wires@.contains(x as usize);
    assert(net_ok(ws, comps, nets2[k2], k2 as nat));
    let y = nets2[k2].wires@[0] as int;
    assert(connected(ws, y, x));
    lemma_first_wire_is_least(ws, comps, nets2, k2, x);
    lemma_connected_symmetric(ws, y, x);
    lemma_first_wire_is_least(ws, comps, nets1, k, y);
    k2
}

/// A schematic has one net table: any two agree net by net.
pub proof fn lemma_net_table_unique(
    ws: Seq<Wire>,
    comps: Seq<Component>,
    nets1: Seq<NetConnection>,
    nets2: Seq<NetConnection>,
)
    requires
        is_net_table(ws, comps, nets1),
        is_net_table(ws, comps, nets2),
    ensures
        net_views(nets1) == net_views(nets2),
{
    let f1 = nets1.map_values(|n: NetConnection| n.wires@[0]);
    let f2 = nets2.map_values(|n: NetConnection| n.wires@[0]);
    assert forall|x: usize| f1.contains(x) <==> f2.contains(x) by {
        if f1.contains(x) {
            let k = choose|k: int| 0 <= k < f1.len() && f1[k] == x;
            let k2 = lemma_first_wire_shared(ws, comps, nets1, nets2, k);
            assert(f2[k2] == x);
        }
        if f2.contains(x) {
            let k = choose|k: int| 0 <= k < f2.len() && f2[k] == x;
            let k1 = lemma_first_wire_shared(ws, comps, nets2, nets1, k);
            assert(f1[k1] == x);
        }
    }
    lemma_increasing_unique(f1, f2);
    assert forall|k: int| 0 <= k < nets1.len() implies #[trigger] net_views(nets1)[k] == net_views(nets2)[k] by {
        assert(f1[k] == f2[k]);
        let n1 = nets1[k];
        let n2 = nets2[k];
        assert(net_ok(ws, comps, n1, k as nat));
        assert(net_ok(ws, comps, n2, k as nat));
        assert forall|x: usize| n1.wires@.contains(x) <==> n2.wires@.contains(x) by {
            if n1.wires@.contains(x) {
                let t = choose|t: int| 0 <= t < n1.wires@.len() && n1.wires@[t] == x;
                assert(n1.wires@[t] < ws.len());
            }
            if n2.wires@.contains(x) {
                let t = choose|t: int| 0 <= t < n2.wires@.len() && n2.wires@[t] == x;
                assert(n2.wires@[t] < ws.len());
            }
            if x < ws.len() {
                assert(n1.wires@.contains((x as int) as usize) == n2.wires@.contains((x as int) as usize));
            }
        }
        lemma_increasing_unique(n1.wires@, n2.wires@);
        assert forall|x: PinRef| n1.pins@.contains(x) <==> n2.pins@.contains(x) by {
            if n1.pins@.contains(x) {
                let t = choose|t: int| 0 <= t < n1.pins@.len() && n1.pins@[t] == x;
                assert(crate::connectivity::pin_touches_net(ws, comps, n1.wires@, n1.pins@[t].component as int, n1.pins@[t].pin as int));
            }
            if n2.pins@.contains(x) {
                let t = choose|t: int| 0 <= t < n2.pins@.len() && n2.pins@[t] == x;
                assert(crate::connectivity::pin_touches_net(ws, comps, n2.wires@, n2.pins@[t].component as int, n2.pins@[t].pin as int));
            }
        }
        lemma_pins_increasing_unique(n1.pins@, n2.pins@);
    }
    assert(net_views(nets1) =~= net_views(nets2));
}

/// Checking an unchanged schematic twice yields the same diagnostics, the
/// same verdict and the same statistics.
pub proof fn law_check_is_deterministic(s: Schematic, r1: ERCReport, r2: ERCReport)
    requires
        is_report_of(s, r1),
        is_report_of(s, r2),
    ensures
        error_views(r1.errors@) == error_views(r2.errors@),
        warning_views(r1.warnings@) == warning_views(r2.warnings@),
        r1.passed == r2.passed,
        r1.statistics == r2.statistics,
{
    let nets1 = choose|nets: Seq<NetConnection>|
        is_net_table(s.wires@, s.components@, nets) && #[trigger] report_matches(
            s.components@,
            s.wires@,
            net_views(nets),
            r1,
        );
    let nets2 = choose|nets: Seq<NetConnection>|
        is_net_table(s.wires@, s.components@, nets) && #[trigger] report_matches(
            s.components@,
            s.wires@,
            net_views(nets),
            r2,
        );
    lemma_net_table_unique(s.wires@, s.components@, nets1, nets2);
    assert(error_views(r1.errors@).len() == r1.errors@.len());
    assert(error_views(r2.errors@).len() == r2.errors@.len());
}


/// The unconnected and connected pin counts of a report add up to the total
/// pin count whenever the connected count, summed net by net, does not
/// exceed the total (a pin touching wires of two nets counts once per net).
pub proof fn law_pin_coverage(s: Schematic, r: ERCReport)
    requires
        is_report_of(s, r),
        r.statistics.connected_pins <= r.statistics.total_pins,
    ensures
        r.statistics.unconnected_pins + r.statistics.connected_pins == r.statistics.total_pins,
{
    let nets = choose|nets: Seq<NetConnection>|
        is_net_table(s.wires@, s.components@, nets) && #[trigger] report_matches(
            s.components@,
            s.wires@,
            net_views(nets),
            r,
        );
}


/// Number of the first pin of component `c` when all pins are numbered in
/// order.
pub open spec fn pin_offset(comps: Seq<Component>, c: int) -> int
    decreases c,
{
    if c <= 0 {
        0
    } else {
        pin_offset(comps, c - 1) + comps[c - 1].pins.len()
    }
}

pub open spec fn pin_number(comps: Seq<Component>, r: PinRef) -> int {
    pin_offset(comps, r.component as int) + r.pin
}

pub open spec fn pin_valid(comps: Seq<Component>, r: PinRef) -> bool {
    r.component < comps.len() && r.pin < comps[r.component as int].pins.len()
}

proof fn lemma_offset_monotone(comps: Seq<Component>, a: int, b: int)
    requires
        0 <= a <= b,
    ensures
        pin_offset(comps, a) <= pin_offset(comps, b),
    decreases b - a,
{
    if a < b {
        lemma_offset_monotone(comps, a, b - 1);
    }
}

proof fn lemma_pin_number_bounds(comps: Seq<Component>, r: PinRef)
    requires
        pin_valid(comps, r),
    ensures
        pin_offset(comps, r.component as int) <= pin_number(comps, r) < pin_offset(
            comps,
            r.component + 1,
        ),
        0 <= pin_number(comps, r) < pin_offset(comps, comps.len() as int),
{
    lemma_offset_monotone(comps, 0, r.component as int);
    lemma_offset_monotone(comps, r.component + 1, comps.len() as int);
}

proof fn lemma_pin_number_injective(comps: Seq<Component>, r1: PinRef, r2: PinRef)
    requires
        pin_valid(comps, r1),
        pin_valid(comps, r2),
        pin_number(comps, r1) == pin_number(comps, r2),
    ensures
        r1 == r2,
{
    lemma_pin_number_bounds(comps, r1);
    lemma_pin_number_bounds(comps, r2);
    if r1.component < r2.component {
        lemma_offset_monotone(comps, r1.component + 1, r2.component as int);
    } else if r2.component < r1.component {
        lemma_offset_monotone(comps, r2.component + 1, r1.component as int);
    }
}

/// The total of the pin counts of the first `n` nets, without saturation.
pub open spec fn pin_sum(nets: Seq<NetView>, n: int) -> int
    decreases n,
{
    if n <= 0 {
        0
    } else {
        pin_sum(nets, n - 1) + nets[n - 1].pins.len()
    }
}

proof fn lemma_pin_total_saturates(comps: Seq<Component>, n: nat)
    requires
        n <= comps.len(),
    ensures
        pin_total(comps, n) as int == if pin_offset(comps, n as int) > usize::MAX {
            usize::MAX as int
        } else {
            pin_offset(comps, n as int)
        },
    decreases n,
{
    if n > 0 {
        lemma_pin_total_saturates(comps, (n - 1) as nat);
        lemma_offset_monotone(comps, 0, n - 1);
    }
}

proof fn lemma_connected_total_saturates(nets: Seq<NetView>, n: nat)
    requires
        n <= nets.len(),
        forall|k: int| 0 <= k < nets.len() ==> #[trigger] nets[k].pins.len() <= usize::MAX,
    ensures
        connected_total(nets, n) as int == if pin_sum(nets, n as int) > usize::MAX {
            usize::MAX as int
        } else {
            pin_sum(nets, n as int)
        },
        pin_sum(nets, n as int) >= 0,
    decreases n,
{
    if n > 0 {
        lemma_connected_total_saturates(nets, (n - 1) as nat);
    }
}

/// The numbers of the pins of net `k`.
pub open spec fn net_pin_numbers(comps: Seq<Component>, nets: Seq<NetView>, k: int) -> Set<int> {
    nets[k].pins.map_values(|r: PinRef| pin_number(comps, r)).to_set()
}

/// The numbers of the pins of the first `n` nets.
pub open spec fn pin_numbers_upto(comps: Seq<Component>, nets: Seq<NetView>, n: int) -> Set<int>
    decreases n,
{
    if n <= 0 {
        Set::empty()
    } else {
        pin_numbers_upto(comps, nets, n - 1) + net_pin_numbers(comps, nets, n - 1)
    }
}

/// No pin belongs to two nets.
pub open spec fn pins_unshared(nets: Seq<NetView>) -> bool {
    forall|k1: int, k2: int, r: PinRef|
        0 <= k1 < nets.len() && 0 <= k2 < nets.len() && k1 != k2 && #[trigger] nets[k1].pins.contains(r)
            ==> !#[trigger] nets[k2].pins.contains(r)
}

proof fn lemma_net_pin_numbers(comps: Seq<Component>, nets: Seq<NetView>, k: int)
    requires
        0 <= k < nets.len(),
        pins_increasing(nets[k].pins),
        forall|t: int| 0 <= t < nets[k].pins.len() ==> pin_valid(comps, #[trigger] nets[k].pins[t]),
    ensures
        net_pin_numbers(comps, nets, k).finite(),
        net_pin_numbers(comps, nets, k).len() == nets[k].pins.len(),
        forall|x: int|
            #[trigger] net_pin_numbers(comps, nets, k).contains(x) ==> exists|t: int|
                0 <= t < nets[k].pins.len() && pin_number(comps, #[trigger] nets[k].pins[t]) == x,
{
    let ps = nets[k].pins;
    let m = ps.map_values(|r: PinRef| pin_number(comps, r));
    assert forall|a: int, b: int| 0 <= a < m.len() && 0 <= b < m.len() && a != b implies m[a] != m[b] by {
        if m[a] == m[b] {
            lemma_pin_number_injective(comps, ps[a], ps[b]);
            if a < b {
                assert(pin_ref_lt(ps[a], ps[b]));
            } else {
                assert(pin_ref_lt(ps[b], ps[a]));
            }
        }
    }
    assert(m.no_duplicates());
    m.unique_seq_to_set();
    vstd::seq_lib::seq_to_set_is_finite(m);
    assert forall|x: int| #[trigger] net_pin_numbers(comps, nets, k).contains(x) implies exists|t: int|
        0 <= t < ps.len() && pin_number(comps, #[trigger] ps[t]) == x by {
        assert(m.contains(x));
        let t = choose|t: int| 0 <= t < m.len() && m[t] == x;
        assert(pin_number(comps, ps[t]) == x);
    }
}

proof fn lemma_pin_numbers_upto(comps: Seq<Component>, nets: Seq<NetView>, n: int)
    requires
        0 <= n <= nets.len(),
        pins_unshared(nets),
        forall|k: int| 0 <= k < nets.len() ==> pins_increasing(#[trigger] nets[k].pins),
        forall|k: int, t: int|
            0 <= k < nets.len() && 0 <= t < nets[k].pins.len() ==> pin_valid(comps, #[trigger] nets[k].pins[t]),
    ensures
        pin_numbers_upto(comps, nets, n).finite(),
        pin_numbers_upto(comps, nets, n).len() == pin_sum(nets, n),
        pin_numbers_upto(comps, nets, n).subset_of(
            vstd::set_lib::set_int_range(0, pin_offset(comps, comps.len() as int)),
        ),
    decreases n,
{
    if n > 0 {
        lemma_pin_numbers_upto(comps, nets, n - 1);
        let k = n - 1;
        assert forall|t: int| 0 <= t < nets[k].pins.len() implies pin_valid(comps, #[trigger] nets[k].pins[t]) by {
        }
        lemma_net_pin_numbers(comps, nets, k);
        let a = pin_numbers_upto(comps, nets, n - 1);
        let b = net_pin_numbers(comps, nets, k);
        assert forall|x: int| #[trigger] b.contains(x) implies !a.contains(x) by {
            let t = choose|t: int| 0 <= t < nets[k].pins.len() && pin_number(comps, #[trigger] nets[k].pins[t]) == x;
            if a.contains(x) {
                lemma_number_in_earlier_net(comps, nets, n - 1, x);
                let (k2, t2) = choose|k2: int, t2: int|
                    0 <= k2 < n - 1 && 0 <= t2 < nets[k2].pins.len() && #[trigger] pin_number(comps, nets[k2].pins[t2]) == x;
                lemma_pin_number_injective(comps, nets[k].pins[t], nets[k2].pins[t2]);
                assert(nets[k].pins.contains(nets[k].pins[t]));
                assert(nets[k2].pins.contains(nets[k2].pins[t2]));
            }
        }
        assert(a.disjoint(b));
        vstd::set_lib::lemma_set_disjoint_lens(a, b);
        assert forall|x: int| #[trigger] b.contains(x) implies vstd::set_lib::set_int_range(0, pin_offset(comps, comps.len() as int)).contains(x) by {
            let t = choose|t: int| 0 <= t < nets[k].pins.len() && pin_number(comps, #[trigger] nets[k].pins[t]) == x;
            lemma_pin_number_bounds(comps, nets[k].pins[t]);
        }
    }
}

proof fn lemma_number_in_earlier_net(comps: Seq<Component>, nets: Seq<NetView>, n: int, x: int)
    requires
        0 <= n <= nets.len(),
        forall|k: int, t: int|
            0 <= k < nets.len() && 0 <= t < nets[k].pins.len() ==> pin_valid(comps, #[trigger] nets[k].pins[t]),
        forall|k: int| 0 <= k < nets.len() ==> pins_increasing(#[trigger] nets[k].pins),
        pin_numbers_upto(comps, nets, n).contains(x),
    ensures
        exists|k: int, t: int|
            0 <= k < n && 0 <= t < nets[k].pins.len() && #[trigger] pin_number(comps, nets[k].pins[t]) == x,
    decreases n,
{
    if n > 0 {
        let k = n - 1;
        if net_pin_numbers(comps, nets, k).contains(x) {
            assert forall|t: int| 0 <= t < nets[k].pins.len() implies pin_valid(comps, #[trigger] nets[k].pins[t]) by {
            }
            lemma_net_pin_numbers(comps, nets, k);
            let t = choose|t: int| 0 <= t < nets[k].pins.len() && pin_number(comps, #[trigger] nets[k].pins[t]) == x;
            assert(pin_number(comps, nets[k].pins[t]) == x);
        } else {
            lemma_number_in_earlier_net(comps, nets, n - 1, x);
        }
    }
}

/// When no pin belongs to two nets, the unconnected and connected pin counts
/// of the report add up to the total pin count.
pub proof fn law_pin_coverage_when_unshared(s: Schematic, nets: Seq<NetConnection>, r: ERCReport)
    requires
        is_net_table(s.wires@, s.components@, nets),
        report_matches(s.components@, s.wires@, net_views(nets), r),
        pins_unshared(net_views(nets)),
    ensures
        r.statistics.connected_pins <= r.statistics.total_pins,
        r.statistics.unconnected_pins + r.statistics.connected_pins == r.statistics.total_pins,
{
    let comps = s.components@;
    let ws = s.wires@;
    let views = net_views(nets);
    assert forall|k: int| 0 <= k < views.len() implies pins_increasing(#[trigger] views[k].pins) by {
        assert(net_ok(ws, comps, nets[k], k as nat));
    }
    assert forall|k: int| 0 <= k < views.len() implies #[trigger] views[k].pins.len() <= usize::MAX by {
        assert(net_ok(ws, comps, nets[k], k as nat));
    }
    assert forall|k: int, t: int|
        0 <= k < views.len() && 0 <= t < views[k].pins.len() implies pin_valid(comps, #[trigger] views[k].pins[t]) by {
        assert(net_ok(ws, comps, nets[k], k as nat));
        assert(crate::connectivity::pin_touches_net(ws, comps, nets[k].wires@, nets[k].pins@[t].component as int, nets[k].pins@[t].pin as int));
    }
    lemma_pin_numbers_upto(comps, views, views.len() as int);
    let total = pin_offset(comps, comps.len() as int);
    lemma_offset_monotone(comps, 0, comps.len() as int);
    vstd::set_lib::lemma_int_range(0, total);
    vstd::set_lib::lemma_len_subset(pin_numbers_upto(comps, views, views.len() as int), vstd::set_lib::set_int_range(0, total));
    lemma_pin_total_saturates(comps, comps.len());
    lemma_connected_total_saturates(views, views.len());
    assert(r.statistics == statistics_of(comps, ws, views));
}

} // verus!
