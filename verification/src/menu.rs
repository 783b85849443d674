//! The menu in the menu bar, and what is shown of a sign-in.

use vstd::prelude::*;
use vstd::string::*;

use crate::text::same;

verus! {

/// The window that the web app is shown in.
pub const MAIN_WINDOW: &'static str = "main";

/// The event that tells the web app of a sign-in.
pub const AUTH_EVENT: &'static str = "donna://auth";

/// The title of the notice of a sign-in.
pub const NOTICE_TITLE: &'static str = "Donna";

/// The notice of a sign-in.
pub const NOTICE_BODY: &'static str = "Signed in. Local agent worker is starting.";

/// What an entry of the menu does.
#[derive(Clone, Copy, PartialEq, Eq, Structural, Debug)]
pub enum MenuAction {
    /// Shows the window.
    Open,
    /// Turns pausing on or off.
    TogglePause,
    /// Starts the worker anew.
    Restart,
    /// Stops the worker and ends the app.
    Quit,
    /// Does nothing.
    Ignore,
}

/// The entries of the menu: their ids and their labels.
pub open spec fn menu_entries() -> Seq<(Seq<char>, Seq<char>)> {
    seq![
        ("open"@, "Open Donna"@),
        ("pause"@, "Pause new runs"@),
        ("restart"@, "Restart worker"@),
        ("quit"@, "Quit Donna"@),
    ]
}

/// The entries of the menu: their ids and their labels.
pub fn build_tray() -> (entries: Vec<(String, String)>)
    ensures
        entries.deep_view() == menu_entries(),
{
    let mut entries: Vec<(String, String)> = Vec::new();
    entries.push(("open".to_owned(), "Open Donna".to_owned()));
    entries.push(("pause".to_owned(), "Pause new runs".to_owned()));
    entries.push(("restart".to_owned(), "Restart worker".to_owned()));
    entries.push(("quit".to_owned(), "Quit Donna".to_owned()));
    assert(entries.deep_view() =~= menu_entries());
    entries
}

/// What the entry with this id does.
pub open spec fn action_of(id: Seq<char>) -> MenuAction {
    if id == "open"@ {
        MenuAction::Open
    } else if id == "pause"@ {
        MenuAction::TogglePause
    } else if id == "restart"@ {
        MenuAction::Restart
    } else if id == "quit"@ {
        MenuAction::Quit
    } else {
        MenuAction::Ignore
    }
}

/// What the entry with this id does.
pub fn menu_action(id: &str) -> (action: MenuAction)
    ensures
        action == action_of(id@),
{
    if same(id, "open") {
        MenuAction::Open
    } else if same(id, "pause") {
        MenuAction::TogglePause
    } else if same(id, "restart") {
        MenuAction::Restart
    } else if same(id, "quit") {
        MenuAction::Quit
    } else {
        MenuAction::Ignore
    }
}

/// Each entry of the menu does something, no two do the same, and what is not in
/// the menu does nothing.
pub proof fn law_menu_is_handled(id: Seq<char>)
    ensures
        action_of(id) != MenuAction::Ignore <==> exists|i: int|
            0 <= i < menu_entries().len() && (#[trigger] menu_entries()[i]).0 == id,
        forall|i: int, j: int|
            0 <= i < j < menu_entries().len() ==> action_of((#[trigger] menu_entries()[i]).0)
                != action_of((#[trigger] menu_entries()[j]).0),
{
    reveal_strlit("open");
    reveal_strlit("pause");
    reveal_strlit("restart");
    reveal_strlit("quit");
    assert("open"@[0] != "quit"@[0]);
    let entries = menu_entries();
    assert(entries[0].0 == "open"@);
    assert(entries[1].0 == "pause"@);
    assert(entries[2].0 == "restart"@);
    assert(entries[3].0 == "quit"@);
    assert("open"@ != "pause"@ && "open"@ != "restart"@ && "open"@ != "quit"@);
    assert("pause"@.len() != "restart"@.len() && "pause"@.len() != "quit"@.len());
    assert("restart"@.len() != "quit"@.len());
}

/// What a chosen entry does is what its id says, and an id that is none of the four
/// does nothing.
pub proof fn law_entries_do_what_they_say(id: Seq<char>)
    ensures
        action_of(id) == MenuAction::Open <==> id == "open"@,
        action_of(id) == MenuAction::TogglePause <==> id == "pause"@,
        action_of(id) == MenuAction::Restart <==> id == "restart"@,
        action_of(id) == MenuAction::Quit <==> id == "quit"@,
{
    law_menu_is_handled(id);
    let entries = menu_entries();
    assert(entries[0].0 == "open"@);
    assert(entries[1].0 == "pause"@);
    assert(entries[2].0 == "restart"@);
    assert(entries[3].0 == "quit"@);
}

} // verus!
