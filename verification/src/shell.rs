use vstd::prelude::*;

use crate::text::text_equals;

verus! {

/// What a choice in the tray menu asks for.
#[derive(Clone, Copy, Debug, PartialEq, Eq)]
pub enum MenuAction {
    /// Show the main window (the `open` item).
    ShowWindow,
    /// Leave Colorify (the `quit` item).
    Quit,
    /// Any other item: nothing happens.
    Ignore,
}

/// What the tray menu item with id `id` asks for.
pub open spec fn spec_menu_action(id: Seq<char>) -> MenuAction {
    if id == "open"@ {
        MenuAction::ShowWindow
    } else if id == "quit"@ {
        MenuAction::Quit
    } else {
        MenuAction::Ignore
    }
}

/// Colorify starts hidden in the tray when one of its command-line
/// arguments is exactly `--start-minimized`.
pub open spec fn spec_starts_minimized(args: Seq<String>) -> bool {
    exists|i: int| 0 <= i < args.len() && #[trigger] args[i]@ == "--start-minimized"@
}

/// What the tray menu item with id `id` asks for.
pub fn menu_action(id: &str) -> (r: MenuAction)
    ensures
        r == spec_menu_action(id@),
{
    if text_equals(id, "open") {
        MenuAction::ShowWindow
    } else if text_equals(id, "quit") {
        MenuAction::Quit
    } else {
        MenuAction::Ignore
    }
}

/// Whether the command line `args` asks Colorify to start hidden.
pub fn starts_minimized(args: &Vec<String>) -> (r: bool)
    ensures
        r == spec_starts_minimized(args@),
{
    let mut i: usize = 0;
    while i < args.len()
        invariant
            i <= args@.len(),
            forall|k: int| 0 <= k < i ==> #[trigger] args@[k]@ != "--start-minimized"@,
        decreases args@.len() - i,
    {
        if text_equals(args[i].as_str(), "--start-minimized") {
            return true;
        }
        i += 1;
    }
    false
}

} // verus!
