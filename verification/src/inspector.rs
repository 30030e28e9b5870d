//! The inspector panel's tabs: which nodes have a tab, which tab is a
//! preview, and which tab is shown.
use vstd::prelude::*;

verus! {

/// A tab in the inspector panel. A preview tab is replaced by the next node
/// inspected; a pinned one stays.
#[derive(Debug, Clone, Copy, PartialEq, Eq, Structural)]
pub struct InspectorTab {
    pub node_id: u32,
    pub is_preview: bool,
}

/// The first position holding a tab for `node_id` (a preview one only,
/// when `preview_only`).
pub open spec fn tab_position(tabs: Seq<InspectorTab>, node_id: u32, preview_only: bool) -> Option<int>
    decreases tabs.len(),
{
    if tabs.len() == 0 {
        None
    } else {
        match tab_position(tabs.drop_last(), node_id, preview_only) {
            Some(i) => Some(i),
            None => if tabs.last().node_id == node_id && (!preview_only || tabs.last().is_preview) {
                Some(tabs.len() - 1)
            } else {
                None
            },
        }
    }
}

/// The tabs and the shown tab after a node is inspected. A double click pins
/// the node's preview tab. Otherwise the node's tab is shown when it has
/// one; else the shown preview tab switches to the node; else the node gets
/// a new preview tab, which is shown.
pub open spec fn inspected(tabs: Seq<InspectorTab>, active: Option<usize>, node_id: u32, is_double_click: bool)
    -> (Seq<InspectorTab>, Option<usize>) {
    if is_double_click {
        match tab_position(tabs, node_id, true) {
            Some(i) => (tabs.update(i, InspectorTab { node_id: tabs[i].node_id, is_preview: false }), active),
            None => (tabs, active),
        }
    } else {
        match tab_position(tabs, node_id, false) {
            Some(i) => (tabs, Some(i as usize)),
            None => if active is Some && active->0 < tabs.len() && tabs[active->0 as int].is_preview {
                (tabs.update(active->0 as int, InspectorTab { node_id, is_preview: true }), active)
            } else {
                (tabs.push(InspectorTab { node_id, is_preview: true }), Some(tabs.len() as usize))
            },
        }
    }
}

fn position_of(tabs: &Vec<InspectorTab>, node_id: u32, preview_only: bool) -> (r: Option<usize>)
    ensures
        match tab_position(tabs@, node_id, preview_only) {
            Some(i) => r == Some(i as usize) && 0 <= i < tabs@.len(),
            None => r is None,
        },
{
    let n = tabs.len();
    let mut i: usize = 0;
    assert(tabs@.take(0) =~= Seq::<InspectorTab>::empty());
    while i < n
        invariant
            n == tabs@.len(),
            i <= n,
            tab_position(tabs@.take(i as int), node_id, preview_only) is None,
        decreases n - i,
    {
        assert(tabs@.take(i + 1).drop_last() =~= tabs@.take(i as int));
        let t = tabs[i];
        if t.node_id == node_id && (!preview_only || t.is_preview) {
            proof { lemma_tab_position_prefix(tabs@, node_id, preview_only, i as int); }
            return Some(i);
        }
        i = i + 1;
    }
    assert(tabs@.take(n as int) =~= tabs@);
    None
}

/// A position found in a prefix is the position in the whole list.
proof fn lemma_tab_position_prefix(tabs: Seq<InspectorTab>, node_id: u32, preview_only: bool, k: int)
    requires
        0 <= k < tabs.len(),
        tab_position(tabs.take(k + 1), node_id, preview_only) == Some(k),
    ensures
        tab_position(tabs, node_id, preview_only) == Some(k),
    decreases tabs.len(),
{
    if tabs.len() > k + 1 {
        assert(tabs.drop_last().take(k + 1) =~= tabs.take(k + 1));
        lemma_tab_position_prefix(tabs.drop_last(), node_id, preview_only, k);
    } else {
        assert(tabs.take(k + 1) =~= tabs);
    }
}

/// Opens, switches to or pins the inspector tab of a node (see `inspected`).
pub fn inspect_node(tabs: &mut Vec<InspectorTab>, active: &mut Option<usize>, node_id: u32, is_double_click: bool)
    requires
        old(tabs)@.len() < usize::MAX,
    ensures
        (final(tabs)@, *final(active)) == inspected(old(tabs)@, *old(active), node_id, is_double_click),
{
    if is_double_click {
        if let Some(i) = position_of(tabs, node_id, true) {
            let t = InspectorTab { node_id: tabs[i].node_id, is_preview: false };
            tabs.set(i, t);
        }
        return;
    }
    if let Some(i) = position_of(tabs, node_id, false) {
        *active = Some(i);
        return;
    }
    let replace = match *active {
        Some(a) => a < tabs.len() && tabs[a].is_preview,
        None => false,
    };
    if replace {
        let a = active.unwrap();
        tabs.set(a, InspectorTab { node_id, is_preview: true });
    } else {
        let len = tabs.len();
        tabs.push(InspectorTab { node_id, is_preview: true });
        *active = Some(len);
    }
}

/// The shown tab after tab `idx` is closed: none when no tab is left; the
/// tab before it when it was shown; else the same tab, one place earlier
/// when the closed tab stood before it.
pub open spec fn active_after_close(len_after: nat, active: Option<usize>, idx: usize) -> Option<usize> {
    if len_after == 0 {
        None
    } else if active == Some(idx) {
        Some(if idx == 0 { 0 } else { (idx - 1) as usize })
    } else {
        match active {
            Some(a) => if idx < a { Some((a - 1) as usize) } else { Some(a) },
            None => None,
        }
    }
}

/// Closes tab `idx`; nothing happens when there is no such tab.
pub fn close_tab(tabs: &mut Vec<InspectorTab>, active: &mut Option<usize>, idx: usize)
    ensures
        idx < old(tabs)@.len() ==> final(tabs)@ == old(tabs)@.remove(idx as int)
            && *final(active) == active_after_close((old(tabs)@.len() - 1) as nat, *old(active), idx),
        idx >= old(tabs)@.len() ==> final(tabs)@ == old(tabs)@ && *final(active) == *old(active),
{
    if idx < tabs.len() {
        let is_active = *active == Some(idx);
        tabs.remove(idx);
        let new_active = if tabs.len() == 0 {
            None
        } else if is_active {
            Some(if idx == 0 { 0 } else { idx - 1 })
        } else {
            match *active {
                Some(a) => if idx < a { Some(a - 1) } else { Some(a) },
                None => None,
            }
        };
        *active = new_active;
    }
}

/// The node whose properties the inspector shows: that of the shown tab.
pub fn shown_node(tabs: &Vec<InspectorTab>, active: Option<usize>) -> (r: Option<u32>)
    ensures
        r == (match active {
            Some(a) => if a < tabs@.len() { Some(tabs@[a as int].node_id) } else { None },
            None => None,
        }),
{
    match active {
        Some(a) => if a < tabs.len() { Some(tabs[a].node_id) } else { None },
        None => None,
    }
}

/// The shown tab is a real tab, and no node has two tabs.
pub open spec fn tabs_wf(tabs: Seq<InspectorTab>, active: Option<usize>) -> bool {
    &&& active matches Some(a) ==> a < tabs.len()
    &&& forall|i: int, j: int| 0 <= i < j < tabs.len() ==> #[trigger] tabs[i].node_id != #[trigger] tabs[j].node_id
}

proof fn lemma_tab_position_none(tabs: Seq<InspectorTab>, node_id: u32)
    ensures
        tab_position(tabs, node_id, false) is None ==> forall|i: int| 0 <= i < tabs.len() ==> #[trigger] tabs[i].node_id != node_id,
        tab_position(tabs, node_id, false) matches Some(i) ==> 0 <= i < tabs.len() && tabs[i].node_id == node_id,
        tab_position(tabs, node_id, true) matches Some(i) ==> 0 <= i < tabs.len() && tabs[i].node_id == node_id,
    decreases tabs.len(),
{
    if tabs.len() > 0 {
        lemma_tab_position_none(tabs.drop_last(), node_id);
        assert forall|i: int| 0 <= i < tabs.len() - 1 implies tabs.drop_last()[i] == #[trigger] tabs[i] by {}
    }
}

/// Inspecting a node keeps the inspector well formed: the shown tab exists
/// and every node has at most one tab.
pub proof fn inspecting_keeps_tabs_wf(tabs: Seq<InspectorTab>, active: Option<usize>, node_id: u32, is_double_click: bool)
    requires
        tabs_wf(tabs, active),
        tabs.len() < usize::MAX,
    ensures
        tabs_wf(inspected(tabs, active, node_id, is_double_click).0, inspected(tabs, active, node_id, is_double_click).1),
{
    lemma_tab_position_none(tabs, node_id);
    let (t2, a2) = inspected(tabs, active, node_id, is_double_click);
    assert forall|i: int, j: int| 0 <= i < j < t2.len() implies #[trigger] t2[i].node_id != #[trigger] t2[j].node_id by {
        if j < tabs.len() {
            assert(tabs[i].node_id != tabs[j].node_id);
        }
    }
}

/// Closing a tab keeps the inspector well formed.
pub proof fn closing_keeps_tabs_wf(tabs: Seq<InspectorTab>, active: Option<usize>, idx: usize)
    requires
        tabs_wf(tabs, active),
        idx < tabs.len(),
    ensures
        tabs_wf(tabs.remove(idx as int), active_after_close((tabs.len() - 1) as nat, active, idx)),
{
    let t2 = tabs.remove(idx as int);
    assert forall|i: int, j: int| 0 <= i < j < t2.len() implies #[trigger] t2[i].node_id != #[trigger] t2[j].node_id by {
        let i0 = if i < idx { i } else { i + 1 };
        let j0 = if j < idx { j } else { j + 1 };
        assert(t2[i] == tabs[i0]);
        assert(t2[j] == tabs[j0]);
    }
}

/// After a node is inspected with a single click, the shown tab is its tab.
pub proof fn inspected_node_is_shown(tabs: Seq<InspectorTab>, active: Option<usize>, node_id: u32)
    requires
        tabs.len() < usize::MAX,
    ensures
        ({
            let (t2, a2) = inspected(tabs, active, node_id, false);
            a2 matches Some(a) && a < t2.len() && t2[a as int].node_id == node_id
        }),
{
    lemma_tab_position_none(tabs, node_id);
}

} // verus!
