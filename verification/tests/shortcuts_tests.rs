use gent::shortcuts::{export_file_name, shortcut_for, Shortcut};

#[test]
fn ctrl_letters_edit_the_selection() {
    assert_eq!(shortcut_for(true, false, "c"), Shortcut::Copy);
    assert_eq!(shortcut_for(true, false, "v"), Shortcut::Paste);
    assert_eq!(shortcut_for(true, false, "s"), Shortcut::Save);
    assert_eq!(shortcut_for(true, false, "e"), Shortcut::Export);
    assert_eq!(shortcut_for(true, false, "i"), Shortcut::Import);
    assert_eq!(shortcut_for(true, false, "a"), Shortcut::SelectAll);
    assert_eq!(shortcut_for(true, false, "z"), Shortcut::Undo);
    assert_eq!(shortcut_for(true, true, "z"), Shortcut::Redo);
}

#[test]
fn letters_without_ctrl_do_nothing() {
    assert_eq!(shortcut_for(false, false, "c"), Shortcut::Nothing);
    assert_eq!(shortcut_for(false, true, "z"), Shortcut::Nothing);
    assert_eq!(shortcut_for(true, false, "q"), Shortcut::Nothing);
}

#[test]
fn delete_and_escape_work_with_or_without_ctrl() {
    assert_eq!(shortcut_for(false, false, "Delete"), Shortcut::DeleteSelection);
    assert_eq!(shortcut_for(true, false, "Backspace"), Shortcut::DeleteSelection);
    assert_eq!(shortcut_for(false, false, "Escape"), Shortcut::ClearSelection);
    assert_eq!(shortcut_for(true, true, "Escape"), Shortcut::ClearSelection);
}

#[test]
fn exported_file_names() {
    assert_eq!(export_file_name("Selection"), "selection.json");
    assert_eq!(export_file_name("My Saved Graph"), "my_saved_graph.json");
    assert_eq!(export_file_name(""), ".json");
}
