use std::collections::HashSet;
use gent::graph::ConnectionState;
use gent::selection::{click_node, delete_selection};

fn set(v: &[u32]) -> HashSet<u32> {
    v.iter().copied().collect()
}

#[test]
fn plain_click_on_unselected_node_selects_it_alone() {
    let mut ids = set(&[1, 2]);
    assert!(click_node(&mut ids, 3, false));
    assert_eq!(ids, set(&[3]));
}

#[test]
fn plain_click_on_selected_node_keeps_the_selection() {
    let mut ids = set(&[1, 2]);
    assert!(click_node(&mut ids, 2, false));
    assert_eq!(ids, set(&[1, 2]));
}

#[test]
fn shift_click_toggles_without_dragging() {
    let mut ids = set(&[1, 2]);
    assert!(!click_node(&mut ids, 2, true));
    assert_eq!(ids, set(&[1]));
    assert!(!click_node(&mut ids, 2, true));
    assert_eq!(ids, set(&[1, 2]));
}

fn wire(id: u32, s: u32, sp: &str, t: u32, tp: &str) -> ConnectionState {
    ConnectionState {
        id,
        source_node_id: s,
        source_port_name: sp.to_string(),
        target_node_id: t,
        target_port_name: tp.to_string(),
        selected: false,
    }
}

#[test]
fn deleting_the_selection_removes_nodes_wires_and_selection() {
    let mut nodes = vec![1u32, 2, 3];
    let mut conns = vec![wire(1, 1, "output", 2, "trigger"), wire(2, 2, "output", 3, "response")];
    let mut sel = set(&[2]);
    let mut ids = set(&[]);
    click_node(&mut ids, 2, false);
    assert_eq!(ids, sel);
    delete_selection(&mut nodes, &mut conns, &mut sel);
    assert_eq!(nodes, vec![1, 3]);
    assert!(conns.is_empty());
    assert!(sel.is_empty());
}
