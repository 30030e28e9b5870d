//! Keyboard shortcuts of the canvas: which key press asks for which
//! editing action, and the file name a selection is exported under.
use vstd::prelude::*;
use crate::strings::str_eq;
use crate::react::{lowercase, to_lowercase};
use crate::strings::{chars_of, substring};

verus! {

/// What a key press asks the canvas to do.
#[derive(Debug, Clone, Copy, PartialEq, Eq, Structural)]
pub enum Shortcut {
    /// Copy the selection to the clipboard.
    Copy,
    /// Paste a selection from the clipboard.
    Paste,
    /// Save the selection among the saved selections.
    Save,
    /// Export the selection to a file.
    Export,
    /// Import a selection from a file.
    Import,
    /// Select every node.
    SelectAll,
    Undo,
    Redo,
    /// Delete the selected nodes and their connections.
    DeleteSelection,
    /// Clear the selection.
    ClearSelection,
    /// The key press means nothing to the canvas.
    Nothing,
}

/// The action of a key press: with Ctrl (or Cmd) held, `c`, `v`, `s`, `e`,
/// `i`, `a` and `z` (`Z` with Shift redoes); with or without it, Delete or
/// Backspace deletes and Escape clears the selection.
pub open spec fn shortcut_of(ctrl: bool, shift: bool, key: Seq<char>) -> Shortcut {
    if ctrl && key == "c"@ {
        Shortcut::Copy
    } else if ctrl && key == "v"@ {
        Shortcut::Paste
    } else if ctrl && key == "s"@ {
        Shortcut::Save
    } else if ctrl && key == "e"@ {
        Shortcut::Export
    } else if ctrl && key == "i"@ {
        Shortcut::Import
    } else if ctrl && key == "a"@ {
        Shortcut::SelectAll
    } else if ctrl && key == "z"@ {
        if shift { Shortcut::Redo } else { Shortcut::Undo }
    } else if key == "Delete"@ || key == "Backspace"@ {
        Shortcut::DeleteSelection
    } else if key == "Escape"@ {
        Shortcut::ClearSelection
    } else {
        Shortcut::Nothing
    }
}

/// The action of a key press (see `shortcut_of`). `ctrl` is true when Ctrl
/// or Cmd is held; `key` is the key's name as the browser reports it.
pub fn shortcut_for(ctrl: bool, shift: bool, key: &str) -> (r: Shortcut)
    ensures
        r == shortcut_of(ctrl, shift, key@),
{
    if ctrl && str_eq(key, "c") {
        Shortcut::Copy
    } else if ctrl && str_eq(key, "v") {
        Shortcut::Paste
    } else if ctrl && str_eq(key, "s") {
        Shortcut::Save
    } else if ctrl && str_eq(key, "e") {
        Shortcut::Export
    } else if ctrl && str_eq(key, "i") {
        Shortcut::Import
    } else if ctrl && str_eq(key, "a") {
        Shortcut::SelectAll
    } else if ctrl && str_eq(key, "z") {
        if shift { Shortcut::Redo } else { Shortcut::Undo }
    } else if str_eq(key, "Delete") || str_eq(key, "Backspace") {
        Shortcut::DeleteSelection
    } else if str_eq(key, "Escape") {
        Shortcut::ClearSelection
    } else {
        Shortcut::Nothing
    }
}

/// `s` with every space replaced by an underscore.
pub open spec fn spaces_to_underscores(s: Seq<char>) -> Seq<char> {
    s.map_values(|c: char| if c == ' ' { '_' } else { c })
}

/// The file a selection named `name` is exported to: the name lowercased,
/// spaces turned into underscores, with the `.json` extension.
pub open spec fn export_file_name_of(name: Seq<char>) -> Seq<char> {
    spaces_to_underscores(lowercase(name)) + ".json"@
}

/// The file name a selection is exported under (see `export_file_name_of`).
pub fn export_file_name(name: &str) -> (r: String)
    ensures
        r@ == export_file_name_of(name@),
{
    let lower = to_lowercase(name);
    let cs = chars_of(lower.as_str());
    let n = cs.len();
    let mut out = String::new();
    let mut i: usize = 0;
    while i < n
        invariant
            cs@ == lower@,
            n == lower@.len(),
            i <= n,
            out@ == spaces_to_underscores(lower@.take(i as int)),
        decreases n - i,
    {
        let ghost c = lower@[i as int];
        assert(lower@.take(i + 1) =~= lower@.take(i as int).push(c));
        assert(spaces_to_underscores(lower@.take(i + 1)) =~= spaces_to_underscores(lower@.take(i as int)).push(
            if c == ' ' { '_' } else { c }));
        proof { reveal_strlit("_"); }
        if cs[i] == ' ' {
            out.append("_");
        } else {
            out.append(substring(lower.as_str(), i, i + 1).as_str());
        }
        assert(out@ =~= spaces_to_underscores(lower@.take(i + 1)));
        i = i + 1;
    }
    assert(lower@.take(n as int) =~= lower@);
    out.append(".json");
    out
}

} // verus!
