use update_generator::events::{event_handled, route_event, UiAction};

#[test]
fn work_button_makes_a_bundle() {
    assert!(route_event(true, true, Some("do_work")) == UiAction::RunUpdate);
}

#[test]
fn test_button_sends_the_test_event() {
    assert!(route_event(true, true, Some("do_test")) == UiAction::SendTestEvent);
}

#[test]
fn other_events_are_ignored() {
    assert!(route_event(false, true, Some("do_work")) == UiAction::Ignore);
    assert!(route_event(true, false, Some("do_work")) == UiAction::Ignore);
    assert!(route_event(true, true, Some("other")) == UiAction::Ignore);
    assert!(route_event(true, true, None) == UiAction::Ignore);
    assert!(route_event(true, true, Some("do_work ")) == UiAction::Ignore);
}

#[test]
fn only_a_successful_bundle_counts_as_handled() {
    assert!(event_handled(&UiAction::RunUpdate, true));
    assert!(!event_handled(&UiAction::RunUpdate, false));
    assert!(!event_handled(&UiAction::SendTestEvent, true));
    assert!(!event_handled(&UiAction::Ignore, true));
}
