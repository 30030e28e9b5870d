use std::collections::HashSet;
use gent::graph::{
    connections_within, disconnect_inputs, drop_wire, find_port, ports_compatible, remove_connections_of,
    port_class, port_rows, remove_link, reroute_source, ConnectionState, Port, PortDirection, PortType,
};

fn port(name: &str, t: PortType, d: PortDirection) -> Port {
    Port { name: name.to_string(), port_type: t, direction: d }
}

fn conn(id: u32, s: u32, sp: &str, t: u32, tp: &str) -> ConnectionState {
    ConnectionState {
        id,
        source_node_id: s,
        source_port_name: sp.to_string(),
        target_node_id: t,
        target_port_name: tp.to_string(),
        selected: false,
    }
}

fn ids(c: &[ConnectionState]) -> Vec<u32> {
    c.iter().map(|c| c.id).collect()
}

#[test]
fn trigger_ports_only_meet_trigger_ports() {
    let t = port("go", PortType::Trigger, PortDirection::Out);
    let t2 = port("trigger", PortType::Trigger, PortDirection::In);
    let x = port("text", PortType::Text, PortDirection::In);
    let img = port("img", PortType::Image, PortDirection::Out);
    assert!(ports_compatible(&t, &t2));
    assert!(!ports_compatible(&t, &x));
    assert!(!ports_compatible(&x, &t));
    assert!(ports_compatible(&img, &x));
    assert_eq!(ports_compatible(&img, &t2), ports_compatible(&t2, &img));
}

#[test]
fn selection_keeps_inner_connections() {
    let c = vec![conn(1, 1, "output", 2, "trigger"), conn(2, 2, "output", 3, "response"), conn(3, 3, "o", 1, "i")];
    let sel: HashSet<u32> = [1u32, 2].into_iter().collect();
    assert_eq!(ids(&connections_within(&c, &sel)), vec![1]);
}

#[test]
fn deleting_nodes_drops_their_connections() {
    let mut c = vec![conn(1, 1, "output", 2, "trigger"), conn(2, 2, "output", 3, "response"), conn(3, 4, "o", 5, "i")];
    let del: HashSet<u32> = [2u32].into_iter().collect();
    remove_connections_of(&mut c, &del);
    assert_eq!(ids(&c), vec![3]);
}

#[test]
fn clicking_an_input_disconnects_it() {
    let mut c = vec![conn(1, 1, "o", 2, "a"), conn(2, 3, "o", 2, "b"), conn(3, 2, "o", 4, "a")];
    disconnect_inputs(&mut c, 2);
    assert_eq!(ids(&c), vec![3]);
}

#[test]
fn removing_a_link() {
    let mut c = vec![conn(1, 1, "o", 2, "a"), conn(2, 1, "o", 3, "a"), conn(3, 1, "p", 2, "b")];
    remove_link(&mut c, 1, 2);
    assert_eq!(ids(&c), vec![2]);
}

#[test]
fn finding_ports_by_name_and_direction() {
    let ports = vec![port("x", PortType::Text, PortDirection::Out), port("x", PortType::File, PortDirection::In)];
    assert_eq!(find_port(&ports, "x", PortDirection::In).unwrap().port_type, PortType::File);
    assert!(find_port(&ports, "y", PortDirection::In).is_none());
}

#[test]
fn dropping_a_wire_replaces_the_old_wire_of_the_port() {
    let out = vec![port("output", PortType::Text, PortDirection::Out)];
    let inp = vec![port("prompt", PortType::Text, PortDirection::In), port("config", PortType::Text, PortDirection::In)];
    let mut c = vec![conn(7, 5, "output", 2, "prompt"), conn(8, 6, "output", 2, "config")];
    let mut next = 100u32;
    assert!(drop_wire(&mut c, &mut next, 1, &out, "output", 2, &inp, "prompt", None));
    assert_eq!(ids(&c), vec![8, 100]);
    assert_eq!(c[1].source_node_id, 1);
    assert_eq!(c[1].target_port_name, "prompt");
    assert!(!c[1].selected);
    assert_eq!(next, 101);
}

#[test]
fn rerouting_moves_the_wire() {
    let out = vec![port("output", PortType::Text, PortDirection::Out)];
    let inp = vec![port("in", PortType::Text, PortDirection::In)];
    let mut c = vec![conn(1, 1, "output", 2, "in")];
    let mut next = 5u32;
    assert!(drop_wire(&mut c, &mut next, 1, &out, "output", 3, &inp, "in", Some(2)));
    assert_eq!(c.len(), 1);
    assert_eq!(c[0].id, 5);
    assert_eq!(c[0].target_node_id, 3);
}

#[test]
fn invalid_drops_change_nothing() {
    let out = vec![port("done", PortType::Trigger, PortDirection::Out)];
    let inp = vec![port("prompt", PortType::Text, PortDirection::In)];
    let mut c = vec![conn(1, 1, "done", 2, "x")];
    let mut next = 9u32;
    assert!(!drop_wire(&mut c, &mut next, 1, &out, "done", 2, &inp, "prompt", None));
    assert!(!drop_wire(&mut c, &mut next, 2, &out, "done", 2, &inp, "prompt", None));
    assert!(!drop_wire(&mut c, &mut next, 1, &out, "missing", 2, &inp, "prompt", None));
    assert_eq!(ids(&c), vec![1]);
    assert_eq!(next, 9);
}

#[test]
fn reroutes_pick_up_the_first_wire_into_the_node() {
    let c = vec![conn(1, 4, "output", 2, "trigger"), conn(2, 5, "out", 3, "prompt"), conn(3, 6, "x", 3, "config")];
    assert_eq!(reroute_source(&c, 3), Some((5, "out".to_string())));
    assert_eq!(reroute_source(&c, 2), Some((4, "output".to_string())));
    assert_eq!(reroute_source(&c, 9), None);
}

#[test]
fn port_classes_name_type_and_side() {
    assert_eq!(port_class(&port("a", PortType::Text, PortDirection::In)), "node-port text input");
    assert_eq!(port_class(&port("b", PortType::Trigger, PortDirection::Out)), "node-port trigger output");
    assert_eq!(port_class(&port("c", PortType::Embeddings, PortDirection::Out)), "node-port embeddings output");
}

#[test]
fn port_rows_follow_the_busier_side() {
    let react = vec![
        port("input", PortType::Text, PortDirection::In),
        port("config", PortType::Text, PortDirection::In),
        port("action_trigger", PortType::Trigger, PortDirection::Out),
        port("action_result", PortType::Text, PortDirection::In),
        port("done", PortType::Trigger, PortDirection::Out),
        port("output", PortType::Text, PortDirection::Out),
    ];
    assert_eq!(port_rows(&react), 4);
    assert_eq!(port_rows(&vec![]), 1);
    assert_eq!(port_rows(&vec![port("o", PortType::Text, PortDirection::Out)]), 2);
}

#[test]
fn input_ports_keep_a_single_wire_through_edits() {
    let out = vec![port("output", PortType::Text, PortDirection::Out)];
    let inp = vec![port("prompt", PortType::Text, PortDirection::In), port("config", PortType::Text, PortDirection::In)];
    let mut c: Vec<ConnectionState> = Vec::new();
    let mut next = 1u32;
    assert!(drop_wire(&mut c, &mut next, 1, &out, "output", 3, &inp, "prompt", None));
    assert!(drop_wire(&mut c, &mut next, 2, &out, "output", 3, &inp, "prompt", None));
    assert!(drop_wire(&mut c, &mut next, 2, &out, "output", 3, &inp, "config", None));
    assert!(drop_wire(&mut c, &mut next, 1, &out, "output", 3, &inp, "config", Some(3)));
    let mut seen = std::collections::HashSet::new();
    for w in &c {
        assert!(seen.insert((w.target_node_id, w.target_port_name.clone())));
    }
    assert_eq!(c.len(), 2);
}
