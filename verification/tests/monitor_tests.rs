use ai_ask::monitor::CompletionAction;
use ai_ask::monitor::MonitorState;
use ai_ask::monitor::TriggerDecision;
use ai_ask::toolbar::compute_toolbar_position;
use ai_ask::toolbar::CursorPosition;
use ai_ask::toolbar::ToolbarState;
use ai_ask::toolbar::TOOLBAR_HEIGHT;
use ai_ask::toolbar::TOOLBAR_VERTICAL_OFFSET;
use ai_ask::toolbar::TOOLBAR_WIDTH;

#[test]
fn debounce_allows_only_one_capture() {
    let mut monitor = MonitorState::default();

    assert_eq!(monitor.on_button_release(true, false, 1000), TriggerDecision::StartCapture);
    let _ = monitor.on_capture_complete(Some("hello".to_string()));

    // A second release 100 ms later falls inside the debounce window.
    assert_eq!(monitor.on_button_release(true, false, 1100), TriggerDecision::Skip);
    // After the window has passed a new capture may start.
    assert_eq!(monitor.on_button_release(true, false, 1250), TriggerDecision::StartCapture);
}

#[test]
fn concurrency_guard_blocks_second_capture_and_resets_once() {
    let mut monitor = MonitorState::default();

    assert_eq!(monitor.on_button_release(true, false, 1000), TriggerDecision::StartCapture);
    // Past the debounce window but the capture is still running.
    assert_eq!(monitor.on_button_release(true, false, 1500), TriggerDecision::Skip);

    // Completion clears the guard whatever the outcome.
    let action = monitor.on_capture_complete(None);
    assert!(matches!(action, CompletionAction::Hide));

    // A second (stray) completion leaves the guard cleared and changes
    // nothing else.
    let action = monitor.on_capture_complete(None);
    assert!(matches!(action, CompletionAction::Hide));

    assert_eq!(monitor.on_button_release(true, false, 2000), TriggerDecision::StartCapture);
}

#[test]
fn disabled_feature_hides_and_host_focus_skips() {
    let mut monitor = MonitorState::default();
    assert_eq!(monitor.on_button_release(false, false, 1000), TriggerDecision::HideToolbar);
    assert_eq!(monitor.on_button_release(true, true, 1000), TriggerDecision::Skip);
    assert_eq!(monitor.on_button_release(true, false, 1000), TriggerDecision::StartCapture);
}

#[test]
fn duplicate_capture_is_suppressed_and_new_text_shown() {
    let mut monitor = MonitorState::default();
    monitor.on_mouse_move(40, 50);

    assert_eq!(monitor.on_button_release(true, false, 1000), TriggerDecision::StartCapture);
    let first = monitor.on_capture_complete(Some("same words".to_string()));
    assert!(matches!(first, CompletionAction::Show { .. }));

    assert_eq!(monitor.on_button_release(true, false, 1500), TriggerDecision::StartCapture);
    let repeat = monitor.on_capture_complete(Some("same words".to_string()));
    assert!(matches!(repeat, CompletionAction::Suppress));

    assert_eq!(monitor.on_button_release(true, false, 2000), TriggerDecision::StartCapture);
    let fresh = monitor.on_capture_complete(Some("new words".to_string()));
    match fresh {
        CompletionAction::Show { text, position } => {
            assert_eq!(text, "new words");
            assert_eq!(position, CursorPosition { x: 40, y: 50 });
        }
        other => panic!("expected a show, got {:?}", other),
    }
}

#[test]
fn end_to_end_mouse_selection_shows_toolbar_at_cursor() {
    let mut monitor = MonitorState::default();
    let mut toolbar = ToolbarState::default();
    let no_ids: Vec<String> = Vec::new();

    // The pointer moves to (100, 200); the button is released there.
    monitor.on_mouse_move(100, 200);
    assert_eq!(monitor.on_button_release(true, false, 1000), TriggerDecision::StartCapture);

    // The provider chain captures "Hello World".
    let action = monitor.on_capture_complete(Some("Hello World".to_string()));
    let (text, position) = match action {
        CompletionAction::Show { text, position } => (text, position),
        other => panic!("expected a show, got {:?}", other),
    };
    assert_eq!(text, "Hello World");
    assert_eq!(position, CursorPosition { x: 100, y: 200 });

    // The toolbar rules let it through and the window lands centered above
    // the cursor, clamped to non-negative coordinates.
    assert!(toolbar.should_show(&text, 1000, 1000, &no_ids));
    let at = compute_toolbar_position(
        position,
        TOOLBAR_WIDTH,
        TOOLBAR_HEIGHT,
        TOOLBAR_VERTICAL_OFFSET,
    );
    assert_eq!(at, CursorPosition { x: 100 - 80 / 2, y: 200 - 35 - 10 });
}

#[test]
fn mouse_move_only_updates_the_cached_position() {
    let mut monitor = MonitorState::default();
    monitor.on_mouse_move(-5, 17);
    assert_eq!(monitor.last_mouse_position, (-5, 17));
    assert!(!monitor.capture_in_progress);
    assert!(monitor.last_trigger_at.is_none());
}
