//! The menu in the tray.

use vstd::prelude::*;
use vstd::string::*;

use crate::shortcuts::ImmediateMode;
use crate::text::same;

verus! {

/// What an item of the menu does.
#[derive(Debug, Clone, Copy, PartialEq, Eq, Structural)]
pub enum MenuAction {
    /// Open the overlay with the rectangle tool.
    Overlay,
    /// Capture at once.
    Immediate(ImmediateMode),
    StopRecording,
    /// Show the main window.
    Open,
    Quit,
}

/// A line of the menu.
#[derive(Debug)]
pub enum MenuLine {
    Item { id: String, label: String },
    Separator,
}

/// What a [`MenuLine`] holds: an identifier and a label, or nothing for a line
/// that only separates.
pub open spec fn line_view(line: MenuLine) -> Option<(Seq<char>, Seq<char>)> {
    match line {
        MenuLine::Item { id, label } => Some((id@, label@)),
        MenuLine::Separator => None,
    }
}

/// What a menu holds.
pub open spec fn menu_view(lines: Seq<MenuLine>) -> Seq<Option<(Seq<char>, Seq<char>)>> {
    lines.map_values(|line: MenuLine| line_view(line))
}

/// The lines of the menu, from the top. Stopping a recording is always offered.
pub open spec fn menu_lines() -> Seq<Option<(Seq<char>, Seq<char>)>> {
    seq![
        Some(("capture"@, "New capture"@)),
        Some(("fullscreen"@, "Capture full screen"@)),
        Some(("window"@, "Capture active window"@)),
        None,
        Some(("stop-recording"@, "Stop recording"@)),
        None,
        Some(("open"@, "Open Snipd"@)),
        None,
        Some(("quit"@, "Quit Snipd"@)),
    ]
}

fn item(id: &str, label: &str) -> (r: MenuLine)
    ensures
        line_view(r) == Some((id@, label@)),
{
    MenuLine::Item { id: id.to_owned(), label: label.to_owned() }
}

/// Makes the menu.
pub fn build() -> (r: Vec<MenuLine>)
    ensures
        menu_view(r@) == menu_lines(),
{
    let mut lines: Vec<MenuLine> = Vec::new();
    lines.push(item("capture", "New capture"));
    lines.push(item("fullscreen", "Capture full screen"));
    lines.push(item("window", "Capture active window"));
    lines.push(MenuLine::Separator);
    lines.push(item("stop-recording", "Stop recording"));
    lines.push(MenuLine::Separator);
    lines.push(item("open", "Open Snipd"));
    lines.push(MenuLine::Separator);
    lines.push(item("quit", "Quit Snipd"));
    assert(menu_view(lines@) =~= menu_lines());
    lines
}

/// What the item of an identifier does.
pub open spec fn action_of(id: Seq<char>) -> Option<MenuAction> {
    if id == "capture"@ {
        Some(MenuAction::Overlay)
    } else if id == "fullscreen"@ {
        Some(MenuAction::Immediate(ImmediateMode::FullScreen))
    } else if id == "window"@ {
        Some(MenuAction::Immediate(ImmediateMode::ActiveWindow))
    } else if id == "stop-recording"@ {
        Some(MenuAction::StopRecording)
    } else if id == "open"@ {
        Some(MenuAction::Open)
    } else if id == "quit"@ {
        Some(MenuAction::Quit)
    } else {
        None
    }
}

/// Decides what the item of an identifier does.
pub fn menu_action(id: &str) -> (r: Option<MenuAction>)
    ensures
        r == action_of(id@),
        r == Some(MenuAction::Overlay) <==> id@ == "capture"@,
        r == Some(MenuAction::Immediate(ImmediateMode::FullScreen)) <==> id@ == "fullscreen"@,
        r == Some(MenuAction::Immediate(ImmediateMode::ActiveWindow)) <==> id@ == "window"@,
        r == Some(MenuAction::StopRecording) <==> id@ == "stop-recording"@,
        r == Some(MenuAction::Open) <==> id@ == "open"@,
        r == Some(MenuAction::Quit) <==> id@ == "quit"@,
{
    proof {
        items_do_what_they_say(id@);
    }
    if same(id, "capture") {
        Some(MenuAction::Overlay)
    } else if same(id, "fullscreen") {
        Some(MenuAction::Immediate(ImmediateMode::FullScreen))
    } else if same(id, "window") {
        Some(MenuAction::Immediate(ImmediateMode::ActiveWindow))
    } else if same(id, "stop-recording") {
        Some(MenuAction::StopRecording)
    } else if same(id, "open") {
        Some(MenuAction::Open)
    } else if same(id, "quit") {
        Some(MenuAction::Quit)
    } else {
        None
    }
}

/// Every item of the menu does something.
pub proof fn every_item_does_something(i: int)
    requires
        0 <= i < menu_lines().len(),
    ensures
        menu_lines()[i] matches Some(line) ==> action_of(line.0) is Some,
{
}

/// Each identifier has its own action, and no action has two.
pub proof fn items_do_what_they_say(id: Seq<char>)
    ensures
        action_of(id) == Some(MenuAction::Overlay) <==> id == "capture"@,
        action_of(id) == Some(MenuAction::Immediate(ImmediateMode::FullScreen)) <==> id
            == "fullscreen"@,
        action_of(id) == Some(MenuAction::Immediate(ImmediateMode::ActiveWindow)) <==> id
            == "window"@,
        action_of(id) == Some(MenuAction::StopRecording) <==> id == "stop-recording"@,
        action_of(id) == Some(MenuAction::Open) <==> id == "open"@,
        action_of(id) == Some(MenuAction::Quit) <==> id == "quit"@,
{
    reveal_strlit("capture");
    reveal_strlit("fullscreen");
    reveal_strlit("window");
    reveal_strlit("stop-recording");
    reveal_strlit("open");
    reveal_strlit("quit");
    assert("capture"@.len() == 7 && "fullscreen"@.len() == 10 && "window"@.len() == 6
        && "stop-recording"@.len() == 14 && "open"@.len() == 4 && "quit"@.len() == 4);
    assert("open"@[0] != "quit"@[0]);
}

/// What the menu offers, from the top.
pub proof fn the_menu_offers(lines: Seq<MenuLine>)
    requires
        menu_view(lines) == menu_lines(),
    ensures
        lines.len() == 9,
        line_view(lines[0]) == Some(("capture"@, "New capture"@)),
        line_view(lines[1]) == Some(("fullscreen"@, "Capture full screen"@)),
        line_view(lines[2]) == Some(("window"@, "Capture active window"@)),
        lines[3] is Separator,
        line_view(lines[4]) == Some(("stop-recording"@, "Stop recording"@)),
        lines[5] is Separator,
        line_view(lines[6]) == Some(("open"@, "Open Snipd"@)),
        lines[7] is Separator,
        line_view(lines[8]) == Some(("quit"@, "Quit Snipd"@)),
{
    assert(menu_view(lines).len() == lines.len());
    assert forall|i: int| 0 <= i < lines.len() implies line_view(#[trigger] lines[i])
        == menu_lines()[i] by {
        assert(menu_view(lines)[i] == line_view(lines[i]));
    }
}

/// A line of the menu holds its identifier and its label.
pub proof fn lines_hold_their_words(line: MenuLine)
    ensures
        line is Separator <==> line_view(line) is None,
        line is Item ==> line_view(line) == Some((line->id@, line->label@)),
{
}

} // verus!
