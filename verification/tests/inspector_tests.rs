use gent::inspector::{close_tab, inspect_node, shown_node, InspectorTab};

fn tab(node_id: u32, is_preview: bool) -> InspectorTab {
    InspectorTab { node_id, is_preview }
}

#[test]
fn first_inspection_opens_preview() {
    let mut tabs = vec![];
    let mut active = None;
    inspect_node(&mut tabs, &mut active, 7, false);
    assert_eq!(tabs, vec![tab(7, true)]);
    assert_eq!(active, Some(0));
    assert_eq!(shown_node(&tabs, active), Some(7));
}

#[test]
fn preview_is_replaced_by_next_node() {
    let mut tabs = vec![tab(7, true)];
    let mut active = Some(0);
    inspect_node(&mut tabs, &mut active, 8, false);
    assert_eq!(tabs, vec![tab(8, true)]);
    assert_eq!(active, Some(0));
}

#[test]
fn double_click_pins_and_next_node_gets_new_tab() {
    let mut tabs = vec![tab(7, true)];
    let mut active = Some(0);
    inspect_node(&mut tabs, &mut active, 7, true);
    assert_eq!(tabs, vec![tab(7, false)]);
    inspect_node(&mut tabs, &mut active, 8, false);
    assert_eq!(tabs, vec![tab(7, false), tab(8, true)]);
    assert_eq!(active, Some(1));
    inspect_node(&mut tabs, &mut active, 7, false);
    assert_eq!(active, Some(0));
    assert_eq!(tabs.len(), 2);
}

#[test]
fn closing_tabs() {
    let mut tabs = vec![tab(1, false), tab(2, false), tab(3, false)];
    let mut active = Some(2);
    close_tab(&mut tabs, &mut active, 0);
    assert_eq!(tabs, vec![tab(2, false), tab(3, false)]);
    assert_eq!(active, Some(1));
    close_tab(&mut tabs, &mut active, 1);
    assert_eq!(active, Some(0));
    close_tab(&mut tabs, &mut active, 5);
    assert_eq!(tabs.len(), 1);
    close_tab(&mut tabs, &mut active, 0);
    assert!(tabs.is_empty());
    assert_eq!(active, None);
    assert_eq!(shown_node(&tabs, active), None);
}

#[test]
fn closing_the_first_active_tab_shows_the_next() {
    let mut tabs = vec![tab(1, false), tab(2, false)];
    let mut active = Some(0);
    close_tab(&mut tabs, &mut active, 0);
    assert_eq!(active, Some(0));
    assert_eq!(shown_node(&tabs, active), Some(2));
}
