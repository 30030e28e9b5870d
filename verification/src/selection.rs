//! Node selection on the canvas: what a click does to the set of selected
//! nodes, whether it starts dragging them, and deleting the selection.
use vstd::prelude::*;
use std::collections::HashSet;
use crate::graph::{clear_of, kept, ports_single_wired, remove_connections_of, ConnectionState};

verus! {

broadcast use vstd::std_specs::hash::group_hash_axioms;

/// The selection after a left click on node `node_id`. With Shift the node
/// is toggled; otherwise a click on an unselected node selects it alone,
/// and a click on a selected node keeps the whole selection.
pub open spec fn clicked_selection(ids: Set<u32>, node_id: u32, shift: bool) -> Set<u32> {
    if shift {
        if ids.contains(node_id) { ids.remove(node_id) } else { ids.insert(node_id) }
    } else if ids.contains(node_id) {
        ids
    } else {
        Set::empty().insert(node_id)
    }
}

/// Applies a left click on node `node_id` to the selection (see
/// `clicked_selection`). Returns whether the click starts dragging the
/// selected nodes: it does unless Shift is held.
pub fn click_node(ids: &mut HashSet<u32>, node_id: u32, shift: bool) -> (starts_drag: bool)
    ensures
        final(ids)@ == clicked_selection(old(ids)@, node_id, shift),
        starts_drag == (!shift && final(ids)@.contains(node_id)),
{
    if shift {
        if ids.contains(&node_id) {
            ids.remove(&node_id);
        } else {
            ids.insert(node_id);
        }
    } else if !ids.contains(&node_id) {
        ids.clear();
        ids.insert(node_id);
        assert(ids@ =~= Set::empty().insert(node_id));
    }
    !shift && ids.contains(&node_id)
}

/// A click without Shift always leaves the clicked node selected, so it
/// always starts a drag; a click with Shift never does.
pub proof fn plain_click_selects_and_drags(ids: Set<u32>, node_id: u32, shift: bool)
    ensures
        !shift ==> clicked_selection(ids, node_id, shift).contains(node_id),
        shift ==> (clicked_selection(ids, node_id, shift).contains(node_id) <==> !ids.contains(node_id)),
{
}

/// Two Shift-clicks on the same node leave the selection as it was.
pub proof fn shift_click_twice_restores(ids: Set<u32>, node_id: u32)
    ensures
        clicked_selection(clicked_selection(ids, node_id, true), node_id, true) == ids,
{
    if ids.contains(node_id) {
        assert(ids.remove(node_id).insert(node_id) =~= ids);
    } else {
        assert(ids.insert(node_id).remove(node_id) =~= ids);
    }
}

/// The node ids of `ids` that are not in `sel`, in order.
pub open spec fn ids_outside(ids: Seq<u32>, sel: Set<u32>) -> Seq<u32>
    decreases ids.len(),
{
    if ids.len() == 0 {
        Seq::empty()
    } else if sel.contains(ids.last()) {
        ids_outside(ids.drop_last(), sel)
    } else {
        ids_outside(ids.drop_last(), sel).push(ids.last())
    }
}

/// Deletes the selected nodes: they leave the graph's node list (given by
/// id, in order), every connection that touches one of them goes, and the
/// selection is cleared.
pub fn delete_selection(nodes: &mut Vec<u32>, conns: &mut Vec<ConnectionState>, sel: &mut HashSet<u32>)
    ensures
        final(nodes)@ == ids_outside(old(nodes)@, old(sel)@),
        final(conns)@ == kept(old(conns)@, clear_of(old(sel)@)),
        final(sel)@ == Set::<u32>::empty(),
        ports_single_wired(old(conns)@) ==> ports_single_wired(final(conns)@),
{
    let ghost orig = nodes@;
    let mut kept_ids: Vec<u32> = Vec::new();
    let n = nodes.len();
    let mut i: usize = 0;
    assert(orig.take(0) =~= Seq::<u32>::empty());
    while i < n
        invariant
            n == orig.len(),
            nodes@ == orig,
            i <= n,
            kept_ids@ == ids_outside(orig.take(i as int), sel@),
        decreases n - i,
    {
        assert(orig.take(i + 1).drop_last() =~= orig.take(i as int));
        let id = nodes[i];
        if !sel.contains(&id) {
            kept_ids.push(id);
        }
        i = i + 1;
    }
    assert(orig.take(n as int) =~= orig);
    *nodes = kept_ids;
    remove_connections_of(conns, sel);
    sel.clear();
}

} // verus!
