//! Reconstruction of nets from wire geometry.
//!
//! Wires are the nodes of a graph whose edges join two wires that meet at an
//! endpoint of each. A net is one connected component of that graph,
//! together with every pin that touches one of its wires.

use vstd::prelude::*;
use crate::geometry::{wires_meet, wires_touch};
use crate::geometry::{pin_touches_wire, pin_on_wire};
use crate::model::{Component, Wire, pin_point};
use crate::text::{decimal, decimal_string};

verus! {

/// Value of an entry of a net index that has not been given a net yet.
pub const UNASSIGNED: usize = usize::MAX;

/// Wires `i` and `j` are both in range and meet at an endpoint of each.
pub open spec fn wire_adjacent(ws: Seq<Wire>, i: int, j: int) -> bool {
    0 <= i < ws.len() && 0 <= j < ws.len() && wires_meet(ws[i].points@, ws[j].points@)
}

/// A non-empty sequence of wire indices, each adjacent to the next.
pub open spec fn is_walk(ws: Seq<Wire>, w: Seq<int>) -> bool {
    &&& w.len() > 0
    &&& forall|k: int| 0 <= k < w.len() ==> 0 <= #[trigger] w[k] < ws.len()
    &&& forall|k: int| 0 <= k < w.len() - 1 ==> #[trigger] wire_adjacent(ws, w[k], w[k + 1])
}

/// Wire `j` can be reached from wire `i` through a chain of adjacent wires.
pub open spec fn connected(ws: Seq<Wire>, i: int, j: int) -> bool {
    exists|w: Seq<int>| #[trigger] is_walk(ws, w) && w[0] == i && w.last() == j
}

pub proof fn lemma_adjacent_symmetric(ws: Seq<Wire>, i: int, j: int)
    ensures
        wire_adjacent(ws, i, j) == wire_adjacent(ws, j, i),
{
}

pub proof fn lemma_connected_reflexive(ws: Seq<Wire>, i: int)
    requires
        0 <= i < ws.len(),
    ensures
        connected(ws, i, i),
{
    let w = seq![i];
    assert(is_walk(ws, w));
}

pub proof fn lemma_connected_step(ws: Seq<Wire>, i: int, j: int, l: int)
    requires
        connected(ws, i, j),
        wire_adjacent(ws, j, l),
    ensures
        connected(ws, i, l),
{
    let w = choose|w: Seq<int>| #[trigger] is_walk(ws, w) && w[0] == i && w.last() == j;
    let w2 = w.push(l);
    assert forall|k: int| 0 <= k < w2.len() - 1 implies #[trigger] wire_adjacent(ws, w2[k], w2[k + 1]) by {
        if k < w.len() - 1 {
            assert(wire_adjacent(ws, w[k], w[k + 1]));
        }
    }
    assert(is_walk(ws, w2));
}

pub proof fn lemma_connected_symmetric(ws: Seq<Wire>, i: int, j: int)
    requires
        connected(ws, i, j),
    ensures
        connected(ws, j, i),
{
    let w = choose|w: Seq<int>| #[trigger] is_walk(ws, w) && w[0] == i && w.last() == j;
    let n = w.len();
    let r = Seq::new(n as nat, |k: int| w[n - 1 - k]);
    assert forall|k: int| 0 <= k < r.len() - 1 implies #[trigger] wire_adjacent(ws, r[k], r[k + 1]) by {
        let a = n - 2 - k;
        assert(wire_adjacent(ws, w[a], w[a + 1]));
    }
    assert(is_walk(ws, r));
}

pub proof fn lemma_connected_transitive(ws: Seq<Wire>, i: int, j: int, l: int)
    requires
        connected(ws, i, j),
        connected(ws, j, l),
    ensures
        connected(ws, i, l),
{
    let w1 = choose|w: Seq<int>| #[trigger] is_walk(ws, w) && w[0] == i && w.last() == j;
    let w2 = choose|w: Seq<int>| #[trigger] is_walk(ws, w) && w[0] == j && w.last() == l;
    let w = w1 + w2.drop_first();
    let n1 = w1.len();
    assert forall|k: int| 0 <= k < w.len() - 1 implies #[trigger] wire_adjacent(ws, w[k], w[k + 1]) by {
        if k < n1 - 1 {
            assert(wire_adjacent(ws, w1[k], w1[k + 1]));
        } else {
            let a = k - n1 + 1;
            assert(wire_adjacent(ws, w2[a], w2[a + 1]));
        }
    }
    assert(is_walk(ws, w));
}

/// A labelling in which adjacent wires always share a label gives every wire
/// reachable from `i` the label of `i`.
pub proof fn lemma_closed_labelling(ws: Seq<Wire>, label: Seq<usize>, i: int, j: int)
    requires
        label.len() == ws.len(),
        forall|a: int, b: int| #[trigger] wire_adjacent(ws, a, b) ==> label[a] == label[b],
        connected(ws, i, j),
    ensures
        label[i] == label[j],
{
    let w = choose|w: Seq<int>| #[trigger] is_walk(ws, w) && w[0] == i && w.last() == j;
    lemma_walk_keeps_label(ws, label, w, w.len() - 1);
}

proof fn lemma_walk_keeps_label(ws: Seq<Wire>, label: Seq<usize>, w: Seq<int>, k: int)
    requires
        label.len() == ws.len(),
        forall|a: int, b: int| #[trigger] wire_adjacent(ws, a, b) ==> label[a] == label[b],
        is_walk(ws, w),
        0 <= k < w.len(),
    ensures
        label[w[k]] == label[w[0]],
    decreases k,
{
    if k > 0 {
        lemma_walk_keeps_label(ws, label, w, k - 1);
        let j = k - 1;
        assert(wire_adjacent(ws, w[j], w[j + 1]));
    }
}


/// Number of entries of a net index that have no net yet.
pub open spec fn count_unassigned(s: Seq<usize>) -> nat
    decreases s.len(),
{
    if s.len() == 0 {
        0
    } else {
        count_unassigned(s.drop_last()) + if s.last() == UNASSIGNED {
            1nat
        } else {
            0nat
        }
    }
}

proof fn lemma_count_assign(s: Seq<usize>, j: int, v: usize)
    requires
        0 <= j < s.len(),
        s[j] == UNASSIGNED,
        v != UNASSIGNED,
    ensures
        count_unassigned(s.update(j, v)) + 1 == count_unassigned(s),
    decreases s.len(),
{
    if j == s.len() - 1 {
        assert(s.update(j, v).drop_last() =~= s.drop_last());
    } else {
        lemma_count_assign(s.drop_last(), j, v);
        assert(s.update(j, v).drop_last() =~= s.drop_last().update(j, v));
    }
}

/// `net_of` gives each wire the number of its net, and `seeds` the smallest
/// wire of each net: nets are numbered in the order of their first wire, and
/// two wires share a net exactly when they are connected.
pub open spec fn is_net_index(ws: Seq<Wire>, net_of: Seq<usize>, seeds: Seq<usize>) -> bool {
    &&& net_of.len() == ws.len()
    &&& forall|j: int| 0 <= j < ws.len() ==> #[trigger] net_of[j] < seeds.len()
    &&& forall|m: int|
        0 <= m < seeds.len() ==> #[trigger] seeds[m] < ws.len() && net_of[seeds[m] as int] == m
    &&& forall|m1: int, m2: int| 0 <= m1 < m2 < seeds.len() ==> seeds[m1] < seeds[m2]
    &&& forall|j: int| 0 <= j < ws.len() ==> seeds[#[trigger] net_of[j] as int] <= j
    &&& forall|a: int, b: int|
        0 <= a < ws.len() && 0 <= b < ws.len() ==> (net_of[a] == net_of[b] <==> #[trigger] connected(
            ws,
            a,
            b,
        ))
}

spec fn labels_below(net_of: Seq<usize>, k: int) -> bool {
    forall|j: int| 0 <= j < net_of.len() ==> #[trigger] net_of[j] == UNASSIGNED || net_of[j] < k
}

spec fn seeds_first(ws: Seq<Wire>, net_of: Seq<usize>, seeds: Seq<usize>) -> bool {
    &&& forall|m: int|
        0 <= m < seeds.len() ==> #[trigger] seeds[m] < ws.len() && net_of[seeds[m] as int] == m
    &&& forall|m1: int, m2: int| 0 <= m1 < m2 < seeds.len() ==> seeds[m1] < seeds[m2]
    &&& forall|j: int|
        0 <= j < net_of.len() && #[trigger] net_of[j] != UNASSIGNED ==> seeds[net_of[j] as int] <= j
}

spec fn labels_reached(ws: Seq<Wire>, net_of: Seq<usize>, seeds: Seq<usize>) -> bool {
    forall|j: int|
        0 <= j < net_of.len() && #[trigger] net_of[j] != UNASSIGNED ==> connected(
            ws,
            seeds[net_of[j] as int] as int,
            j,
        )
}

spec fn closed_below(ws: Seq<Wire>, net_of: Seq<usize>, k: int) -> bool {
    forall|a: int, b: int|
        #[trigger] wire_adjacent(ws, a, b) && net_of[a] != UNASSIGNED && net_of[a] < k ==> net_of[b]
            == net_of[a]
}

/// Numbers the nets of the schematic's wires: breadth-first search over
/// wire adjacency from each wire not yet reached.
pub fn assign_nets(wires: &Vec<Wire>) -> (r: (Vec<usize>, Vec<usize>))
    ensures
        is_net_index(wires@, r.0@, r.1@),
{
    let n = wires.len();
    let ghost ws = wires@;
    let mut net_of: Vec<usize> = Vec::new();
    let mut i: usize = 0;
    while i < n
        invariant
            i <= n,
            net_of.len() == i,
            forall|j: int| 0 <= j < i ==> net_of[j] == UNASSIGNED,
        decreases n - i,
    {
        net_of.push(UNASSIGNED);
        i = i + 1;
    }
    let mut seeds: Vec<usize> = Vec::new();
    let mut i: usize = 0;
    while i < n
        invariant
            n == ws.len(),
            wires@ == ws,
            i <= n,
            net_of.len() == n,
            seeds.len() <= i,
            forall|m: int| 0 <= m < seeds.len() ==> seeds[m] < i,
            labels_below(net_of@, seeds.len() as int),
            seeds_first(ws, net_of@, seeds@),
            labels_reached(ws, net_of@, seeds@),
            closed_below(ws, net_of@, seeds.len() as int),
            forall|j: int| 0 <= j < i ==> net_of[j] != UNASSIGNED,
        decreases n - i,
    {
        if net_of[i] == UNASSIGNED {
            let m = seeds.len();
            seeds.push(i);
            proof {
                lemma_connected_reflexive(ws, i as int);
                lemma_count_assign(net_of@, i as int, m);
            }
            net_of.set(i, m);
            let mut queue: Vec<usize> = Vec::new();
            queue.push(i);
            let mut head: usize = 0;
            assert(queue@[0] == i);
            while head < queue.len()
                invariant
                    n == ws.len(),
                    wires@ == ws,
                    i < n,
                    m < n,
                    net_of.len() == n,
                    seeds.len() == m + 1,
                    seeds[m as int] == i,
                    labels_below(net_of@, m + 1),
                    seeds_first(ws, net_of@, seeds@),
                    labels_reached(ws, net_of@, seeds@),
                    closed_below(ws, net_of@, m as int),
                    forall|j: int| 0 <= j < i ==> net_of[j] != UNASSIGNED && net_of[j] < m,
                    head <= queue.len(),
                    forall|q: int|
                        0 <= q < queue.len() ==> #[trigger] queue[q] < n && net_of[queue[q] as int]
                            == m,
                    forall|j: int| 0 <= j < n && net_of[j] == m ==> queue@.contains(j as usize),
                    forall|q: int, b: int|
                        0 <= q < head && #[trigger] wire_adjacent(ws, queue[q] as int, b)
                            ==> net_of[b] == m,
                decreases count_unassigned(net_of@), queue.len() - head,
            {
                let cur = queue[head];
                let ghost count0 = count_unassigned(net_of@);
                let ghost qlen0 = queue.len();
                let mut j: usize = 0;
                while j < n
                    invariant
                        n == ws.len(),
                        wires@ == ws,
                        i < n,
                        m < n,
                        net_of.len() == n,
                        seeds.len() == m + 1,
                        seeds[m as int] == i,
                        labels_below(net_of@, m + 1),
                        seeds_first(ws, net_of@, seeds@),
                        labels_reached(ws, net_of@, seeds@),
                        closed_below(ws, net_of@, m as int),
                        forall|j: int| 0 <= j < i ==> net_of[j] != UNASSIGNED && net_of[j] < m,
                        head < qlen0 <= queue.len(),
                        queue[head as int] == cur,
                        cur < n,
                        net_of[cur as int] == m,
                        j <= n,
                        count_unassigned(net_of@) + (queue.len() - qlen0) == count0,
                        forall|q: int|
                            0 <= q < queue.len() ==> #[trigger] queue[q] < n && net_of[queue[q] as int]
                                == m,
                        forall|j: int| 0 <= j < n && net_of[j] == m ==> queue@.contains(j as usize),
                        forall|q: int, b: int|
                            0 <= q < head && #[trigger] wire_adjacent(ws, queue[q] as int, b)
                                ==> net_of[b] == m,
                        forall|b: int| 0 <= b < j && wire_adjacent(ws, cur as int, b) ==> net_of[b] == m,
                    decreases n - j,
                {
                    let touch = wires_touch(&wires[cur].points, &wires[j].points);
                    if net_of[j] == UNASSIGNED && touch {
                        proof {
                            assert(wire_adjacent(ws, cur as int, j as int));
                            lemma_connected_step(ws, i as int, cur as int, j as int);
                            lemma_count_assign(net_of@, j as int, m);
                        }
                        let ghost oq = queue@;
                        let ghost on = net_of@;
                        net_of.set(j, m);
                        queue.push(j);
                        proof {
                            assert(queue@ == oq.push(j));
                            assert forall|x: int| 0 <= x < n && net_of[x] == m implies queue@.contains(
                                x as usize,
                            ) by {
                                if x == j {
                                    assert(queue@[queue.len() - 1] == j);
                                } else {
                                    assert(on[x] == m);
                                    assert(oq.contains(x as usize));
                                    let q0 = choose|q0: int|
                                        0 <= q0 < oq.len() && oq[q0] == x as usize;
                                    assert(queue@[q0] == x as usize);
                                }
                            }
                        }
                    } else if touch {
                        proof {
                            assert(wire_adjacent(ws, cur as int, j as int));
                            if net_of[j as int] != m {
                                lemma_adjacent_symmetric(ws, cur as int, j as int);
                                assert(wire_adjacent(ws, j as int, cur as int));
                            }
                        }
                    }
                    j = j + 1;
                }
                head = head + 1;
            }
            proof {
                assert forall|a: int, b: int|
                    #[trigger] wire_adjacent(ws, a, b) && net_of[a] != UNASSIGNED && net_of[a] < m
                        + 1 implies net_of[b] == net_of[a] by {
                    if net_of[a] == m {
                        assert(queue@.contains(a as usize));
                        let q = choose|q: int| 0 <= q < queue.len() && queue@[q] == a as usize;
                        assert(wire_adjacent(ws, queue[q] as int, b));
                    }
                }
            }
        }
        i = i + 1;
    }
    proof {
        let k = seeds.len() as int;
        assert forall|a: int, b: int| #[trigger] wire_adjacent(ws, a, b) implies net_of@[a]
            == net_of@[b] by {
            assert(net_of[a] != UNASSIGNED);
        }
        assert forall|a: int, b: int|
            0 <= a < ws.len() && 0 <= b < ws.len() implies (net_of@[a] == net_of@[b]
                <==> #[trigger] connected(ws, a, b)) by {
            if connected(ws, a, b) {
                lemma_closed_labelling(ws, net_of@, a, b);
            }
            if net_of@[a] == net_of@[b] {
                assert(net_of[a] != UNASSIGNED);
                assert(net_of[b] != UNASSIGNED);
                let s = seeds[net_of[a] as int] as int;
                lemma_connected_symmetric(ws, s, a);
                lemma_connected_transitive(ws, a, s, b);
            }
        }
        assert forall|j: int| 0 <= j < ws.len() implies #[trigger] net_of@[j] < seeds.len() by {
            assert(net_of[j] != UNASSIGNED);
        }
    }
    (net_of, seeds)
}


/// A pin named by the position of its component in the schematic and its own
/// position in that component.
#[derive(Clone, Copy, Debug, PartialEq, Eq, Structural)]
pub struct PinRef {
    pub component: usize,
    pub pin: usize,
}

/// A net: its name (and whether it came from a wire's label), its wires (as positions in the schematic's wire list,
/// ascending) and the pins that touch them (ascending by component, then
/// pin).
#[derive(Clone, Debug)]
pub struct NetConnection {
    pub net_name: String,
    pub labelled: bool,
    pub wires: Vec<usize>,
    pub pins: Vec<PinRef>,
}

/// A net as a value.
pub struct NetView {
    pub name: Seq<char>,
    pub labelled: bool,
    pub wires: Seq<usize>,
    pub pins: Seq<PinRef>,
}

impl View for NetConnection {
    type V = NetView;

    open spec fn view(&self) -> NetView {
        NetView { name: self.net_name@, labelled: self.labelled, wires: self.wires@, pins: self.pins@ }
    }
}

pub open spec fn net_views(nets: Seq<NetConnection>) -> Seq<NetView> {
    nets.map_values(|n: NetConnection| n@)
}

pub open spec fn increasing(s: Seq<usize>) -> bool {
    forall|a: int, b: int| 0 <= a < b < s.len() ==> s[a] < s[b]
}

pub open spec fn pin_ref_lt(a: PinRef, b: PinRef) -> bool {
    a.component < b.component || (a.component == b.component && a.pin < b.pin)
}

pub open spec fn pins_increasing(s: Seq<PinRef>) -> bool {
    forall|a: int, b: int| 0 <= a < b < s.len() ==> pin_ref_lt(s[a], s[b])
}

/// Pin `p` of component `c` touches one of the wires `members`.
pub open spec fn pin_touches_net(
    ws: Seq<Wire>,
    comps: Seq<Component>,
    members: Seq<usize>,
    c: int,
    p: int,
) -> bool {
    &&& 0 <= c < comps.len()
    &&& 0 <= p < comps[c].pins.len()
    &&& exists|t: int|
        0 <= t < members.len() && #[trigger] pin_touches_wire(
            pin_point(comps[c].pins@[p]),
            ws[members[t] as int].points@,
        )
}

/// The name a wire has been labelled with, if any.
pub open spec fn wire_label(w: Wire) -> Option<Seq<char>> {
    match w.net_id {
        Some(l) => if l@.len() > 0 {
            Some(l@)
        } else {
            None
        },
        None => None,
    }
}

/// The label of the first labelled wire among `members`.
pub open spec fn first_label(ws: Seq<Wire>, members: Seq<usize>) -> Option<Seq<char>>
    decreases members.len(),
{
    if members.len() == 0 {
        None
    } else {
        match wire_label(ws[members[0] as int]) {
            Some(l) => Some(l),
            None => first_label(ws, members.drop_first()),
        }
    }
}

/// The synthetic name of the net numbered `k`.
pub open spec fn default_net_name(k: nat) -> Seq<char> {
    "NET_"@ + decimal(k)
}

/// A net takes the label of its first labelled wire, else its synthetic name.
pub open spec fn net_name_of(ws: Seq<Wire>, members: Seq<usize>, k: nat) -> Seq<char> {
    match first_label(ws, members) {
        Some(l) => l,
        None => default_net_name(k),
    }
}

/// `n` is the net numbered `k`: the connected component of its first wire,
/// with every pin that touches it.
pub open spec fn net_ok(ws: Seq<Wire>, comps: Seq<Component>, n: NetConnection, k: nat) -> bool {
    &&& n.wires.len() > 0
    &&& increasing(n.wires@)
    &&& forall|t: int| 0 <= t < n.wires.len() ==> #[trigger] n.wires@[t] < ws.len()
    &&& forall|j: int|
        0 <= j < ws.len() ==> (#[trigger] n.wires@.contains(j as usize) <==> connected(
            ws,
            n.wires@[0] as int,
            j,
        ))
    &&& pins_increasing(n.pins@)
    &&& n.pins@.len() <= usize::MAX
    &&& forall|t: int|
        0 <= t < n.pins.len() ==> pin_touches_net(
            ws,
            comps,
            n.wires@,
            #[trigger] n.pins@[t].component as int,
            n.pins@[t].pin as int,
        )
    &&& forall|c: int, p: int|
        #[trigger] pin_touches_net(ws, comps, n.wires@, c, p) ==> n.pins@.contains(
            PinRef { component: c as usize, pin: p as usize },
        )
    &&& n.net_name@ == net_name_of(ws, n.wires@, k)
    &&& n.labelled == first_label(ws, n.wires@) is Some
}

/// `nets` lists every net of the schematic once, in the order of their
/// first wires.
pub open spec fn is_net_table(ws: Seq<Wire>, comps: Seq<Component>, nets: Seq<NetConnection>) -> bool {
    &&& ws.len() <= usize::MAX
    &&& forall|k: int| 0 <= k < nets.len() ==> net_ok(ws, comps, #[trigger] nets[k], k as nat)
    &&& forall|k1: int, k2: int|
        0 <= k1 < k2 < nets.len() ==> nets[k1].wires@[0] < nets[k2].wires@[0]
    &&& forall|j: int| 0 <= j < ws.len() ==> #[trigger] in_some_net(nets, j)
}

/// Wire `j` is among the wires of one of `nets`.
pub open spec fn in_some_net(nets: Seq<NetConnection>, j: int) -> bool {
    exists|k: int| 0 <= k < nets.len() && #[trigger] nets[k].wires@.contains(j as usize)
}

/// The wires numbered `k`, ascending.
fn members_of(net_of: &Vec<usize>, k: usize) -> (r: Vec<usize>)
    ensures
        increasing(r@),
        forall|t: int| 0 <= t < r.len() ==> #[trigger] r@[t] < net_of.len(),
        forall|j: int|
            0 <= j < net_of.len() ==> (#[trigger] r@.contains(j as usize) <==> net_of@[j] == k),
{
    let mut out: Vec<usize> = Vec::new();
    let mut j: usize = 0;
    while j < net_of.len()
        invariant
            j <= net_of.len(),
            increasing(out@),
            forall|t: int| 0 <= t < out.len() ==> #[trigger] out@[t] < j,
            forall|x: int| 0 <= x < j ==> (#[trigger] out@.contains(x as usize) <==> net_of@[x] == k),
        decreases net_of.len() - j,
    {
        let ghost old_out = out@;
        if net_of[j] == k {
            out.push(j);
            proof {
                assert(out@ == old_out.push(j));
                assert(out@[out.len() - 1] == j);
                assert forall|x: int| 0 <= x < j implies (#[trigger] out@.contains(x as usize)
                    <==> old_out.contains(x as usize)) by {
                    if old_out.contains(x as usize) {
                        let t = choose|t: int| 0 <= t < old_out.len() && old_out[t] == x as usize;
                        assert(out@[t] == x as usize);
                    }
                }
            }
        }
        j = j + 1;
    }
    out
}

/// Whether a pin at `p` touches one of the wires `members`.
fn pin_on_members(ws: &Vec<Wire>, members: &Vec<usize>, p: crate::geometry::Point) -> (r: bool)
    requires
        forall|t: int| 0 <= t < members.len() ==> #[trigger] members@[t] < ws.len(),
    ensures
        r == exists|t: int|
            0 <= t < members.len() && #[trigger] pin_touches_wire(
                p,
                ws@[members@[t] as int].points@,
            ),
{
    let mut t: usize = 0;
    while t < members.len()
        invariant
            t <= members.len(),
            forall|x: int| 0 <= x < members.len() ==> #[trigger] members@[x] < ws.len(),
            forall|x: int|
                0 <= x < t ==> !#[trigger] pin_touches_wire(p, ws@[members@[x] as int].points@),
        decreases members.len() - t,
    {
        if pin_on_wire(p, &ws[members[t]].points) {
            return true;
        }
        t = t + 1;
    }
    false
}

/// Every pin of the schematic that touches one of the wires `members`.
fn pins_on_members(ws: &Vec<Wire>, comps: &Vec<Component>, members: &Vec<usize>) -> (r: Vec<PinRef>)
    requires
        forall|t: int| 0 <= t < members.len() ==> #[trigger] members@[t] < ws.len(),
    ensures
        pins_increasing(r@),
        forall|t: int|
            0 <= t < r.len() ==> pin_touches_net(
                ws@,
                comps@,
                members@,
                #[trigger] r@[t].component as int,
                r@[t].pin as int,
            ),
        forall|c: int, p: int|
            #[trigger] pin_touches_net(ws@, comps@, members@, c, p) ==> r@.contains(
                PinRef { component: c as usize, pin: p as usize },
            ),
{
    let mut out: Vec<PinRef> = Vec::new();
    let mut c: usize = 0;
    while c < comps.len()
        invariant
            c <= comps.len(),
            forall|t: int| 0 <= t < members.len() ==> #[trigger] members@[t] < ws.len(),
            pins_increasing(out@),
            forall|t: int| 0 <= t < out.len() ==> (#[trigger] out@[t]).component < c,
            forall|t: int|
                0 <= t < out.len() ==> pin_touches_net(
                    ws@,
                    comps@,
                    members@,
                    #[trigger] out@[t].component as int,
                    out@[t].pin as int,
                ),
            forall|x: int, p: int|
                #[trigger] pin_touches_net(ws@, comps@, members@, x, p) && x < c ==> out@.contains(
                    PinRef { component: x as usize, pin: p as usize },
                ),
        decreases comps.len() - c,
    {
        let pins = &comps[c].pins;
        let mut p: usize = 0;
        while p < pins.len()
            invariant
                c < comps.len(),
                pins == &comps@[c as int].pins,
                p <= pins.len(),
                forall|t: int| 0 <= t < members.len() ==> #[trigger] members@[t] < ws.len(),
                pins_increasing(out@),
                forall|t: int|
                    0 <= t < out.len() ==> (#[trigger] out@[t]).component < c || (
                    out@[t].component == c && out@[t].pin < p),
                forall|t: int|
                    0 <= t < out.len() ==> pin_touches_net(
                        ws@,
                        comps@,
                        members@,
                        #[trigger] out@[t].component as int,
                        out@[t].pin as int,
                    ),
                forall|x: int, q: int|
                    #[trigger] pin_touches_net(ws@, comps@, members@, x, q) && (x < c || (x == c
                        && q < p)) ==> out@.contains(PinRef { component: x as usize, pin: q as usize }),
            decreases pins.len() - p,
        {
            let touches = pin_on_members(ws, members, pins[p].position());
            if touches {
                let ghost old_out = out@;
                out.push(PinRef { component: c, pin: p });
                proof {
                    assert forall|x: int, q: int|
                        #[trigger] pin_touches_net(ws@, comps@, members@, x, q) && (x < c || (x == c
                            && q < p + 1)) implies out@.contains(
                        PinRef { component: x as usize, pin: q as usize },
                    ) by {
                        if x == c && q == p {
                            assert(out@[out.len() - 1] == PinRef { component: x as usize, pin: q as usize });
                        } else {
                            assert(old_out.contains(PinRef { component: x as usize, pin: q as usize }));
                            let t = choose|t: int| 0 <= t < old_out.len() && old_out[t] == PinRef { component: x as usize, pin: q as usize };
                            assert(out@[t] == old_out[t]);
                        }
                    }
                }
            } else {
                proof {
                    assert(!pin_touches_net(ws@, comps@, members@, c as int, p as int));
                }
            }
            p = p + 1;
        }
        c = c + 1;
    }
    out
}


/// The label of the first labelled wire among `members`, if any.
fn first_wire_label(ws: &Vec<Wire>, members: &Vec<usize>) -> (r: Option<String>)
    requires
        forall|t: int| 0 <= t < members.len() ==> #[trigger] members@[t] < ws.len(),
    ensures
        match r {
            Some(l) => first_label(ws@, members@) == Some(l@),
            None => first_label(ws@, members@) is None,
        },
{
    let n = members.len();
    let mut t: usize = 0;
    assert(members@.subrange(0, n as int) == members@);
    while t < n
        invariant
            n == members.len(),
            t <= n,
            forall|x: int| 0 <= x < members.len() ==> #[trigger] members@[x] < ws.len(),
            first_label(ws@, members@) == first_label(ws@, members@.subrange(t as int, n as int)),
        decreases n - t,
    {
        let ghost rest = members@.subrange(t as int, n as int);
        assert(rest.drop_first() == members@.subrange(t + 1, n as int));
        assert(rest[0] == members@[t as int]);
        match &ws[members[t]].net_id {
            Some(l) => {
                if !l.as_str().is_empty() {
                    return Some(l.clone());
                }
            },
            None => {},
        }
        t = t + 1;
    }
    assert(members@.subrange(n as int, n as int).len() == 0);
    None
}

/// The synthetic name of the net numbered `k`.
pub fn default_name(k: usize) -> (r: String)
    ensures
        r@ == default_net_name(k as nat),
{
    let mut name = String::from_str("NET_");
    let digits = decimal_string(k);
    name.append(digits.as_str());
    name
}

/// Builds the net table of a schematic from its wires and components.
pub fn build_nets(wires: &Vec<Wire>, components: &Vec<Component>) -> (nets: Vec<NetConnection>)
    ensures
        is_net_table(wires@, components@, nets@),
{
    let ghost ws = wires@;
    let ghost comps = components@;
    let wire_count = wires.len();
    let (net_of, seeds) = assign_nets(wires);
    let mut nets: Vec<NetConnection> = Vec::new();
    let mut k: usize = 0;
    while k < seeds.len()
        invariant
            ws == wires@,
            comps == components@,
            is_net_index(ws, net_of@, seeds@),
            k <= seeds.len(),
            nets.len() == k,
            forall|kk: int| 0 <= kk < k ==> net_ok(ws, comps, #[trigger] nets@[kk], kk as nat),
            forall|kk: int| 0 <= kk < k ==> (#[trigger] nets@[kk]).wires@[0] == seeds@[kk],
            forall|kk: int, j: int|
                0 <= kk < k && 0 <= j < ws.len() ==> (#[trigger] nets@[kk].wires@.contains(j as usize)
                    <==> net_of@[j] == kk),
        decreases seeds.len() - k,
    {
        let members = members_of(&net_of, k);
        let ghost s = seeds@[k as int];
        proof {
            assert(s < ws.len() && net_of@[s as int] == k);
            assert(members@.contains((s as int) as usize));
            let t0 = choose|t0: int| 0 <= t0 < members.len() && members@[t0] == s;
            assert(members@[0] < ws.len());
            assert(members@.contains((members@[0] as int) as usize));
            assert(net_of@[members@[0] as int] == k);
            assert(s <= members@[0]);
            if t0 > 0 {
                assert(members@[0] < members@[t0]);
            }
            assert(members@[0] == s);
            assert forall|j: int| 0 <= j < ws.len() implies (#[trigger] members@.contains(j as usize)
                <==> connected(ws, members@[0] as int, j)) by {
                assert(net_of@[s as int] == k);
                assert(connected(ws, s as int, j) == (net_of@[s as int] == net_of@[j]));
            }
        }
        let pins = pins_on_members(wires, components, &members);
        let pin_count = pins.len();
        assert(pins@.len() == pin_count);
        let (name, labelled) = match first_wire_label(wires, &members) {
            Some(l) => (l, true),
            None => (default_name(k), false),
        };
        let net = NetConnection { net_name: name, labelled, wires: members, pins };
        nets.push(net);
        proof {
            assert(net_ok(ws, comps, nets@[k as int], k as nat));
        }
        k = k + 1;
    }
    proof {
        assert(ws.len() == wire_count);
        assert forall|j: int| 0 <= j < ws.len() implies #[trigger] in_some_net(nets@, j) by {
            let kk = net_of@[j] as int;
            assert(nets@[kk].wires@.contains(j as usize));
        }
    }
    nets
}

} // verus!
