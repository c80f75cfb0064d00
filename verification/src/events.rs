//! What the window does with an event: in the bubbling phase, a click on
//! the button `do_work` makes a bundle and one on `do_test` sends a test
//! event; everything else is left alone.

use vstd::prelude::*;
use crate::text::text_equal;

verus! {

/// What to do about an event of the window.
#[derive(PartialEq, Eq, Structural)]
pub enum UiAction {
    /// Nothing.
    Ignore,
    /// Make a bundle.
    RunUpdate,
    /// Send the test event to the message area.
    SendTestEvent,
}

/// The id of the button that makes a bundle.
pub open spec fn work_button_id() -> Seq<char> {
    "do_work"@
}

/// The id of the button that sends the test event.
pub open spec fn test_button_id() -> Seq<char> {
    "do_test"@
}

/// What an event calls for.
pub open spec fn event_action(bubbling: bool, button_click: bool, source_id: Option<Seq<char>>) -> UiAction {
    if !bubbling || !button_click {
        UiAction::Ignore
    } else {
        match source_id {
            Some(id) => if id == work_button_id() {
                UiAction::RunUpdate
            } else if id == test_button_id() {
                UiAction::SendTestEvent
            } else {
                UiAction::Ignore
            },
            None => UiAction::Ignore,
        }
    }
}

/// Decides what to do about an event, from its phase, its kind and the id
/// of the element it comes from.
pub fn route_event(bubbling: bool, button_click: bool, source_id: Option<&str>) -> (res: UiAction)
    ensures
        res == event_action(bubbling, button_click, match source_id {
            Some(id) => Some(id@),
            None => None,
        }),
{
    if !bubbling || !button_click {
        return UiAction::Ignore;
    }
    match source_id {
        Some(id) => {
            if text_equal(id, "do_work") {
                UiAction::RunUpdate
            } else if text_equal(id, "do_test") {
                UiAction::SendTestEvent
            } else {
                UiAction::Ignore
            }
        },
        None => UiAction::Ignore,
    }
}

/// Whether the event counts as handled: only a bundle that was made
/// successfully does.
pub fn event_handled(action: &UiAction, update_succeeded: bool) -> (res: bool)
    ensures
        res == (*action == UiAction::RunUpdate && update_succeeded),
{
    match action {
        UiAction::RunUpdate => update_succeeded,
        _ => false,
    }
}

} // verus!
