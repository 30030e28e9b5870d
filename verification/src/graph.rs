//! The editable graph: ports and their compatibility, and the connections
//! between nodes with the edits that make, reroute and remove them.
use vstd::prelude::*;
use std::collections::HashSet;
use crate::strings::str_eq;

verus! {

broadcast use vstd::std_specs::hash::group_hash_axioms;

/// What flows through a port.
#[derive(Debug, Clone, Copy, PartialEq, Eq, Structural)]
pub enum PortType {
    Text,
    Image,
    Audio,
    File,
    Embeddings,
    Trigger,
}

/// Whether a port takes values in or sends them out.
#[derive(Debug, Clone, Copy, PartialEq, Eq, Structural)]
pub enum PortDirection {
    In,
    Out,
}

/// A named port of a node.
#[derive(Debug, Clone)]
pub struct Port {
    pub name: String,
    pub port_type: PortType,
    pub direction: PortDirection,
}

/// Trigger ports connect only to trigger ports; all other port types
/// connect to each other.
pub open spec fn compatible(source: PortType, target: PortType) -> bool {
    if source == PortType::Trigger || target == PortType::Trigger {
        source == target
    } else {
        true
    }
}

/// Checks if two ports are compatible for connection.
pub fn ports_compatible(source: &Port, target: &Port) -> (r: bool)
    ensures
        r == compatible(source.port_type, target.port_type),
{
    if source.port_type == PortType::Trigger || target.port_type == PortType::Trigger {
        return source.port_type == target.port_type;
    }
    true
}

/// Compatibility does not depend on which port is the source.
pub proof fn compatibility_is_symmetric(a: PortType, b: PortType)
    ensures
        compatible(a, b) == compatible(b, a),
{
}

/// The style class of a port on a node: its type and its side.
pub open spec fn port_class_of(t: PortType, d: PortDirection) -> Seq<char> {
    let kind = match t {
        PortType::Text => "text"@,
        PortType::Image => "image"@,
        PortType::Audio => "audio"@,
        PortType::File => "file"@,
        PortType::Embeddings => "embeddings"@,
        PortType::Trigger => "trigger"@,
    };
    let side = match d {
        PortDirection::In => "input"@,
        PortDirection::Out => "output"@,
    };
    "node-port "@ + kind + " "@ + side
}

/// The style class of a port (see `port_class_of`).
pub fn port_class(port: &Port) -> (r: String)
    ensures
        r@ == port_class_of(port.port_type, port.direction),
{
    let kind = match port.port_type {
        PortType::Text => "text",
        PortType::Image => "image",
        PortType::Audio => "audio",
        PortType::File => "file",
        PortType::Embeddings => "embeddings",
        PortType::Trigger => "trigger",
    };
    let mut r = String::from_str("node-port ");
    r.append(kind);
    r.append(" ");
    match port.direction {
        PortDirection::In => r.append("input"),
        PortDirection::Out => r.append("output"),
    }
    r
}

/// How many of `ports` face direction `d`.
pub open spec fn count_facing(ports: Seq<Port>, d: PortDirection) -> nat
    decreases ports.len(),
{
    if ports.len() == 0 {
        0
    } else {
        count_facing(ports.drop_last(), d) + if ports.last().direction == d { 1nat } else { 0nat }
    }
}

/// The rows of port slots above a node's body: one per port on the side
/// with more ports, and one more.
pub open spec fn port_rows_of(ports: Seq<Port>) -> nat {
    let i = count_facing(ports, PortDirection::In);
    let o = count_facing(ports, PortDirection::Out);
    (if i >= o { i } else { o }) + 1
}

/// The rows of port slots above a node's body (see `port_rows_of`).
pub fn port_rows(ports: &Vec<Port>) -> (r: usize)
    requires
        ports@.len() < usize::MAX,
    ensures
        r == port_rows_of(ports@),
{
    let n = ports.len();
    let mut ins: usize = 0;
    let mut outs: usize = 0;
    let mut i: usize = 0;
    assert(ports@.take(0) =~= Seq::<Port>::empty());
    while i < n
        invariant
            n == ports@.len(),
            n < usize::MAX,
            i <= n,
            ins == count_facing(ports@.take(i as int), PortDirection::In),
            outs == count_facing(ports@.take(i as int), PortDirection::Out),
            ins + outs == i,
        decreases n - i,
    {
        assert(ports@.take(i + 1).drop_last() =~= ports@.take(i as int));
        match ports[i].direction {
            PortDirection::In => ins = ins + 1,
            PortDirection::Out => outs = outs + 1,
        }
        i = i + 1;
    }
    assert(ports@.take(n as int) =~= ports@);
    (if ins >= outs { ins } else { outs }) + 1
}

/// A wire from an output port of one node to an input port of another.
#[derive(Debug, Clone)]
pub struct ConnectionState {
    pub id: u32,
    pub source_node_id: u32,
    pub source_port_name: String,
    pub target_node_id: u32,
    pub target_port_name: String,
    pub selected: bool,
}

impl ConnectionState {
    /// A field-by-field copy.
    pub fn copy(&self) -> (r: ConnectionState)
        ensures
            r == *self,
    {
        ConnectionState {
            id: self.id,
            source_node_id: self.source_node_id,
            source_port_name: self.source_port_name.clone(),
            target_node_id: self.target_node_id,
            target_port_name: self.target_port_name.clone(),
            selected: self.selected,
        }
    }
}

/// The elements of `s` that satisfy `keep`, in order.
pub open spec fn kept(s: Seq<ConnectionState>, keep: spec_fn(ConnectionState) -> bool) -> Seq<ConnectionState>
    decreases s.len(),
{
    if s.len() == 0 {
        Seq::empty()
    } else if keep(s.last()) {
        kept(s.drop_last(), keep).push(s.last())
    } else {
        kept(s.drop_last(), keep)
    }
}

/// The connections whose two ends are both in `ids`.
pub open spec fn within(ids: Set<u32>) -> spec_fn(ConnectionState) -> bool {
    |c: ConnectionState| ids.contains(c.source_node_id) && ids.contains(c.target_node_id)
}

/// The connections that touch none of `ids`.
pub open spec fn clear_of(ids: Set<u32>) -> spec_fn(ConnectionState) -> bool {
    |c: ConnectionState| !ids.contains(c.source_node_id) && !ids.contains(c.target_node_id)
}

/// The connections that do not end at `node_id`.
pub open spec fn not_into(node_id: u32) -> spec_fn(ConnectionState) -> bool {
    |c: ConnectionState| c.target_node_id != node_id
}

/// The connections other than those from `source` into `target`.
pub open spec fn not_link(source: u32, target: u32) -> spec_fn(ConnectionState) -> bool {
    |c: ConnectionState| !(c.source_node_id == source && c.target_node_id == target)
}

/// The connections other than those into port `port` of `node_id`.
pub open spec fn not_into_port(node_id: u32, port: Seq<char>) -> spec_fn(ConnectionState) -> bool {
    |c: ConnectionState| !(c.target_node_id == node_id && c.target_port_name@ == port)
}

/// The connections of a copied or saved selection: those whose two ends
/// are both selected.
pub fn connections_within(conns: &Vec<ConnectionState>, ids: &HashSet<u32>) -> (r: Vec<ConnectionState>)
    ensures
        r@ == kept(conns@, within(ids@)),
{
    let mut r: Vec<ConnectionState> = Vec::new();
    let n = conns.len();
    let mut i: usize = 0;
    assert(conns@.take(0) =~= Seq::<ConnectionState>::empty());
    while i < n
        invariant
            n == conns@.len(),
            i <= n,
            r@ == kept(conns@.take(i as int), within(ids@)),
        decreases n - i,
    {
        assert(conns@.take(i + 1).drop_last() =~= conns@.take(i as int));
        let c = &conns[i];
        if ids.contains(&c.source_node_id) && ids.contains(&c.target_node_id) {
            r.push(c.copy());
        }
        i = i + 1;
    }
    assert(conns@.take(n as int) =~= conns@);
    r
}

/// Which connections an edit keeps.
enum WireFilter<'a> {
    /// Those touching none of the given nodes.
    ClearOf(&'a HashSet<u32>),
    /// Those not ending at the node.
    NotInto(u32),
    /// Those other than the ones from the first node into the second.
    NotLink(u32, u32),
    /// Those other than the ones into the named port of the node.
    NotIntoPort(u32, &'a str),
}

/// The predicate a filter keeps connections by.
spec fn keeps(f: WireFilter) -> spec_fn(ConnectionState) -> bool {
    match f {
        WireFilter::ClearOf(ids) => clear_of(ids@),
        WireFilter::NotInto(node_id) => not_into(node_id),
        WireFilter::NotLink(source, target) => not_link(source, target),
        WireFilter::NotIntoPort(node_id, port) => not_into_port(node_id, port@),
    }
}

/// Whether `filter` keeps `c`.
fn filter_keeps(filter: &WireFilter, c: &ConnectionState) -> (r: bool)
    ensures
        r == keeps(*filter)(*c),
{
    match filter {
        WireFilter::ClearOf(ids) => !ids.contains(&c.source_node_id) && !ids.contains(&c.target_node_id),
        WireFilter::NotInto(node_id) => c.target_node_id != *node_id,
        WireFilter::NotLink(source, target) => !(c.source_node_id == *source && c.target_node_id == *target),
        WireFilter::NotIntoPort(node_id, port) =>
            !(c.target_node_id == *node_id && str_eq(c.target_port_name.as_str(), port)),
    }
}

/// Removes the connections that `filter` rejects, keeping the order of the rest.
fn retain_where(conns: &mut Vec<ConnectionState>, filter: WireFilter)
    ensures
        final(conns)@ == kept(old(conns)@, keeps(filter)),
{
    let ghost orig = conns@;
    let mut r: Vec<ConnectionState> = Vec::new();
    let n = conns.len();
    let mut i: usize = 0;
    assert(orig.take(0) =~= Seq::<ConnectionState>::empty());
    while i < n
        invariant
            n == orig.len(),
            conns@ == orig,
            i <= n,
            r@ == kept(orig.take(i as int), keeps(filter)),
        decreases n - i,
    {
        assert(orig.take(i + 1).drop_last() =~= orig.take(i as int));
        let c = &conns[i];
        if filter_keeps(&filter, c) {
            r.push(c.copy());
        }
        i = i + 1;
    }
    assert(orig.take(n as int) =~= orig);
    *conns = r;
}

/// Drops every connection that touches a deleted node.
pub fn remove_connections_of(conns: &mut Vec<ConnectionState>, deleted: &HashSet<u32>)
    ensures
        final(conns)@ == kept(old(conns)@, clear_of(deleted@)),
        ports_single_wired(old(conns)@) ==> ports_single_wired(final(conns)@),
{
    proof {
        if ports_single_wired(conns@) {
            filtering_keeps_ports_single_wired(conns@, clear_of(deleted@));
        }
    }
    retain_where(conns, WireFilter::ClearOf(deleted));
}

/// Drops every connection into `node_id` (a click on its input port).
pub fn disconnect_inputs(conns: &mut Vec<ConnectionState>, node_id: u32)
    ensures
        final(conns)@ == kept(old(conns)@, not_into(node_id)),
        ports_single_wired(old(conns)@) ==> ports_single_wired(final(conns)@),
{
    proof {
        if ports_single_wired(conns@) {
            filtering_keeps_ports_single_wired(conns@, not_into(node_id));
        }
    }
    retain_where(conns, WireFilter::NotInto(node_id));
}

/// Drops the connections from `source` into `target` (a rerouted wire let
/// go away from any port).
pub fn remove_link(conns: &mut Vec<ConnectionState>, source: u32, target: u32)
    ensures
        final(conns)@ == kept(old(conns)@, not_link(source, target)),
        ports_single_wired(old(conns)@) ==> ports_single_wired(final(conns)@),
{
    proof {
        if ports_single_wired(conns@) {
            filtering_keeps_ports_single_wired(conns@, not_link(source, target));
        }
    }
    retain_where(conns, WireFilter::NotLink(source, target));
}

/// The first connection into `node_id`, whatever its port.
pub open spec fn first_into_node(conns: Seq<ConnectionState>, node_id: u32) -> Option<ConnectionState>
    decreases conns.len(),
{
    if conns.len() == 0 {
        None
    } else if conns[0].target_node_id == node_id {
        Some(conns[0])
    } else {
        first_into_node(conns.drop_first(), node_id)
    }
}

/// The wire a reroute drag picks up at the input of `node_id`: the first
/// connection into that node, given by its source node and source port.
pub fn reroute_source(conns: &Vec<ConnectionState>, node_id: u32) -> (r: Option<(u32, String)>)
    ensures
        match first_into_node(conns@, node_id) {
            Some(c) => r matches Some(p) && p.0 == c.source_node_id && p.1 == c.source_port_name,
            None => r is None,
        },
{
    let n = conns.len();
    let mut i: usize = 0;
    assert(conns@.subrange(0, n as int) =~= conns@);
    while i < n
        invariant
            n == conns@.len(),
            i <= n,
            first_into_node(conns@.subrange(i as int, n as int), node_id) == first_into_node(conns@, node_id),
        decreases n - i,
    {
        assert(conns@.subrange(i as int, n as int).drop_first() =~= conns@.subrange(i + 1, n as int));
        let c = &conns[i];
        if c.target_node_id == node_id {
            return Some((c.source_node_id, c.source_port_name.clone()));
        }
        i = i + 1;
    }
    None
}

/// The first port in `ports` with `name` and direction `dir`.
pub open spec fn port_named(ports: Seq<Port>, name: Seq<char>, dir: PortDirection) -> Option<Port>
    decreases ports.len(),
{
    if ports.len() == 0 {
        None
    } else if ports[0].name@ == name && ports[0].direction == dir {
        Some(ports[0])
    } else {
        port_named(ports.drop_first(), name, dir)
    }
}

/// Finds the first port with `name` and direction `dir`.
pub fn find_port<'a>(ports: &'a Vec<Port>, name: &str, dir: PortDirection) -> (r: Option<&'a Port>)
    ensures
        r matches Some(p) ==> port_named(ports@, name@, dir) == Some(*p),
        r is None ==> port_named(ports@, name@, dir) is None,
{
    let n = ports.len();
    let mut i: usize = 0;
    assert(ports@.subrange(0, n as int) =~= ports@);
    while i < n
        invariant
            n == ports@.len(),
            i <= n,
            port_named(ports@.subrange(i as int, n as int), name@, dir) == port_named(ports@, name@, dir),
        decreases n - i,
    {
        assert(ports@.subrange(i as int, n as int).drop_first() =~= ports@.subrange(i + 1, n as int));
        let p = &ports[i];
        if str_eq(p.name.as_str(), name) && p.direction == dir {
            return Some(p);
        }
        i = i + 1;
    }
    None
}

/// A wire dragged from an output port and dropped on an input port may be
/// made: the nodes differ, the source node has that output port, the target
/// node has that input port, and their types are compatible.
pub open spec fn may_connect(source_node_id: u32, source_ports: Seq<Port>, source_port: Seq<char>,
    target_node_id: u32, target_ports: Seq<Port>, target_port: Seq<char>) -> bool {
    &&& source_node_id != target_node_id
    &&& port_named(source_ports, source_port, PortDirection::Out) is Some
    &&& port_named(target_ports, target_port, PortDirection::In) is Some
    &&& compatible(port_named(source_ports, source_port, PortDirection::Out)->0.port_type,
        port_named(target_ports, target_port, PortDirection::In)->0.port_type)
}

/// The wires that stay when a wire into port `target_port` of
/// `target_node_id` is made: a rerouted wire leaves its old input, and the
/// target port gives up the wire it had.
pub open spec fn cleared_for(conns: Seq<ConnectionState>, source_node_id: u32, target_node_id: u32,
    target_port: Seq<char>, reroute_from: Option<u32>) -> Seq<ConnectionState> {
    let rerouted = match reroute_from {
        Some(old_target) => kept(conns, not_link(source_node_id, old_target)),
        None => conns,
    };
    kept(rerouted, not_into_port(target_node_id, target_port))
}

/// `c` is the new, unselected wire with id `id` between the given ports.
pub open spec fn is_wire(c: ConnectionState, id: u32, source_node_id: u32, source_port: Seq<char>,
    target_node_id: u32, target_port: Seq<char>) -> bool {
    &&& c.id == id
    &&& c.source_node_id == source_node_id
    &&& c.source_port_name@ == source_port
    &&& c.target_node_id == target_node_id
    &&& c.target_port_name@ == target_port
    &&& !c.selected
}

/// Makes a dragged wire when it may be made (see `may_connect`), with the
/// next free connection id, after the wires it replaces are gone. Returns
/// whether it was made.
pub fn drop_wire(
    conns: &mut Vec<ConnectionState>,
    next_id: &mut u32,
    source_node_id: u32,
    source_ports: &Vec<Port>,
    source_port: &str,
    target_node_id: u32,
    target_ports: &Vec<Port>,
    target_port: &str,
    reroute_from: Option<u32>,
) -> (r: bool)
    requires
        *old(next_id) < u32::MAX,
    ensures
        r == may_connect(source_node_id, source_ports@, source_port@, target_node_id, target_ports@, target_port@),
        r ==> {
            &&& final(conns)@.len() > 0
            &&& final(conns)@.drop_last() == cleared_for(old(conns)@, source_node_id, target_node_id,
                target_port@, reroute_from)
            &&& is_wire(final(conns)@.last(), *old(next_id), source_node_id, source_port@, target_node_id, target_port@)
            &&& *final(next_id) == *old(next_id) + 1
        },
        !r ==> final(conns)@ == old(conns)@ && *final(next_id) == *old(next_id),
        ports_single_wired(old(conns)@) ==> ports_single_wired(final(conns)@),
{
    if source_node_id == target_node_id {
        return false;
    }
    let sp = find_port(source_ports, source_port, PortDirection::Out);
    let tp = find_port(target_ports, target_port, PortDirection::In);
    let ok = match (sp, tp) {
        (Some(s), Some(t)) => ports_compatible(s, t),
        _ => false,
    };
    if !ok {
        return false;
    }
    if let Some(old_target) = reroute_from {
        remove_link(conns, source_node_id, old_target);
    }
    retain_where(conns, WireFilter::NotIntoPort(target_node_id, target_port));
    let ghost cleared = conns@;
    let c = ConnectionState {
        id: *next_id,
        source_node_id,
        source_port_name: String::from_str(source_port),
        target_node_id,
        target_port_name: String::from_str(target_port),
        selected: false,
    };
    conns.push(c);
    assert(conns@.drop_last() =~= cleared);
    proof {
        if ports_single_wired(old(conns)@) {
            making_a_wire_keeps_ports_single_wired(old(conns)@, source_node_id, target_node_id, target_port@,
                reroute_from, conns@.last());
            assert(conns@ =~= cleared.push(conns@.last()));
        }
    }
    *next_id = *next_id + 1;
    true
}

/// After a wire is made, no other wire ends at its target port.
pub proof fn connected_port_has_one_wire(conns: Seq<ConnectionState>, source_node_id: u32, target_node_id: u32,
    target_port: Seq<char>, reroute_from: Option<u32>)
    ensures
        forall|i: int| 0 <= i < cleared_for(conns, source_node_id, target_node_id, target_port, reroute_from).len() ==>
            !(#[trigger] cleared_for(conns, source_node_id, target_node_id, target_port, reroute_from)[i].target_node_id
                == target_node_id && cleared_for(conns, source_node_id, target_node_id, target_port,
                reroute_from)[i].target_port_name@ == target_port),
{
    let rerouted = match reroute_from {
        Some(old_target) => kept(conns, not_link(source_node_id, old_target)),
        None => conns,
    };
    lemma_kept_satisfies(rerouted, not_into_port(target_node_id, target_port));
}

/// Every element `kept` keeps satisfies the predicate.
pub proof fn lemma_kept_satisfies(s: Seq<ConnectionState>, keep: spec_fn(ConnectionState) -> bool)
    ensures
        forall|i: int| 0 <= i < kept(s, keep).len() ==> keep(#[trigger] kept(s, keep)[i]),
    decreases s.len(),
{
    if s.len() > 0 {
        lemma_kept_satisfies(s.drop_last(), keep);
        let prev = kept(s.drop_last(), keep);
        assert forall|i: int| 0 <= i < kept(s, keep).len() implies keep(#[trigger] kept(s, keep)[i]) by {
            if i < prev.len() {
                assert(kept(s, keep)[i] == prev[i]);
            }
        }
    }
}

/// No two connections end at the same port of the same node.
pub open spec fn ports_single_wired(c: Seq<ConnectionState>) -> bool {
    forall|i: int, j: int| 0 <= i < j < c.len() ==> !(#[trigger] c[i].target_node_id == #[trigger] c[j].target_node_id
        && c[i].target_port_name@ == c[j].target_port_name@)
}

/// Every connection `kept` keeps comes from the list it filters.
proof fn lemma_kept_from(s: Seq<ConnectionState>, keep: spec_fn(ConnectionState) -> bool)
    ensures
        forall|i: int| 0 <= i < kept(s, keep).len() ==> exists|k: int| 0 <= k < s.len() && #[trigger] kept(s, keep)[i] == s[k],
    decreases s.len(),
{
    if s.len() > 0 {
        lemma_kept_from(s.drop_last(), keep);
        let prev = kept(s.drop_last(), keep);
        assert forall|i: int| 0 <= i < kept(s, keep).len() implies exists|k: int| 0 <= k < s.len()
            && #[trigger] kept(s, keep)[i] == s[k] by {
            if i < prev.len() {
                let k = choose|k: int| 0 <= k < s.drop_last().len() && prev[i] == s.drop_last()[k];
                assert(kept(s, keep)[i] == s[k]);
            } else {
                assert(kept(s, keep)[i] == s[s.len() - 1]);
            }
        }
    }
}

/// Removing connections keeps every input port single-wired: this covers
/// deleting nodes, a click on an input port, and a reroute let go away from
/// any port.
pub proof fn filtering_keeps_ports_single_wired(s: Seq<ConnectionState>, keep: spec_fn(ConnectionState) -> bool)
    requires
        ports_single_wired(s),
    ensures
        ports_single_wired(kept(s, keep)),
    decreases s.len(),
{
    if s.len() > 0 {
        let prev = kept(s.drop_last(), keep);
        assert(ports_single_wired(s.drop_last())) by {
            assert forall|i: int, j: int| 0 <= i < j < s.drop_last().len() implies !(#[trigger] s.drop_last()[i].target_node_id
                == #[trigger] s.drop_last()[j].target_node_id
                && s.drop_last()[i].target_port_name@ == s.drop_last()[j].target_port_name@) by {
                assert(s.drop_last()[i] == s[i] && s.drop_last()[j] == s[j]);
            }
        }
        filtering_keeps_ports_single_wired(s.drop_last(), keep);
        lemma_kept_from(s.drop_last(), keep);
        if keep(s.last()) {
            let r = kept(s, keep);
            assert forall|i: int, j: int| 0 <= i < j < r.len() implies !(#[trigger] r[i].target_node_id
                == #[trigger] r[j].target_node_id && r[i].target_port_name@ == r[j].target_port_name@) by {
                if j < prev.len() {
                    assert(r[i] == prev[i] && r[j] == prev[j]);
                } else {
                    assert(r[i] == prev[i]);
                    let k = choose|k: int| 0 <= k < s.drop_last().len() && prev[i] == s.drop_last()[k];
                    assert(prev[i] == s[k]);
                    assert(r[j] == s[s.len() - 1]);
                }
            }
        }
    }
}

/// Making a wire keeps every input port single-wired: the wires into its
/// target port are cleared before it is added.
pub proof fn making_a_wire_keeps_ports_single_wired(conns: Seq<ConnectionState>, source_node_id: u32,
    target_node_id: u32, target_port: Seq<char>, reroute_from: Option<u32>, wire: ConnectionState)
    requires
        ports_single_wired(conns),
        wire.target_node_id == target_node_id,
        wire.target_port_name@ == target_port,
    ensures
        ports_single_wired(cleared_for(conns, source_node_id, target_node_id, target_port, reroute_from).push(wire)),
{
    let rerouted = match reroute_from {
        Some(old_target) => kept(conns, not_link(source_node_id, old_target)),
        None => conns,
    };
    if let Some(old_target) = reroute_from {
        filtering_keeps_ports_single_wired(conns, not_link(source_node_id, old_target));
    }
    let cleared = cleared_for(conns, source_node_id, target_node_id, target_port, reroute_from);
    filtering_keeps_ports_single_wired(rerouted, not_into_port(target_node_id, target_port));
    connected_port_has_one_wire(conns, source_node_id, target_node_id, target_port, reroute_from);
    let r = cleared.push(wire);
    assert forall|i: int, j: int| 0 <= i < j < r.len() implies !(#[trigger] r[i].target_node_id
        == #[trigger] r[j].target_node_id && r[i].target_port_name@ == r[j].target_port_name@) by {
        assert(r[i] == cleared[i]);
        if j < cleared.len() {
            assert(r[j] == cleared[j]);
        } else {
            assert(r[j] == wire);
            assert(!(cleared[i].target_node_id == target_node_id && cleared[i].target_port_name@ == target_port));
        }
    }
}

/// Trigger ports pair only with trigger ports; every other pair of port
/// types may be wired.
pub proof fn compatibility_is_trigger_matching(a: PortType, b: PortType)
    ensures
        compatible(a, b) <==> ((a == PortType::Trigger) == (b == PortType::Trigger)),
{
}

/// Whether a dragged wire may be made does not depend on the two nodes'
/// ids, so not on which node was created first: only on the nodes being
/// different and on their ports. A wire from a node to itself is refused.
pub proof fn wiring_ignores_node_ids(s1: u32, t1: u32, s2: u32, t2: u32, source_ports: Seq<Port>,
    source_port: Seq<char>, target_ports: Seq<Port>, target_port: Seq<char>)
    ensures
        s1 != t1 && s2 != t2 ==> may_connect(s1, source_ports, source_port, t1, target_ports, target_port)
            == may_connect(s2, source_ports, source_port, t2, target_ports, target_port),
        !may_connect(s1, source_ports, source_port, s1, target_ports, target_port),
{
}

/// A wire between two different nodes may be made exactly when the source
/// has the output port, the target has the input port, and their types are
/// compatible.
pub proof fn wiring_needs_only_compatible_ports(source_node_id: u32, target_node_id: u32, source_ports: Seq<Port>,
    source_port: Seq<char>, target_ports: Seq<Port>, target_port: Seq<char>, s: Port, t: Port)
    requires
        source_node_id != target_node_id,
        port_named(source_ports, source_port, PortDirection::Out) == Some(s),
        port_named(target_ports, target_port, PortDirection::In) == Some(t),
    ensures
        may_connect(source_node_id, source_ports, source_port, target_node_id, target_ports, target_port)
            == ((s.port_type == PortType::Trigger) == (t.port_type == PortType::Trigger)),
{
}

} // verus!
