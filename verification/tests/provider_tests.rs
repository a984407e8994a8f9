use ai_ask::providers::capture_text_for_hotkey;
use ai_ask::providers::capture_with_providers;
use ai_ask::providers::extract_selection_from_edit;
use ai_ask::providers::is_supported_class;
use ai_ask::providers::obtain_text_pattern;
use ai_ask::providers::search_descendants_for_text_pattern;
use ai_ask::providers::SearchOutcome;
use ai_ask::providers::slice_selection;
use ai_ask::providers::supported_classes;
use ai_ask::providers::MacosAccessibilityProvider;
use ai_ask::providers::UiNode;
use ai_ask::providers::WindowsUIAutomationProvider;
use ai_ask::providers::WindowsWin32EditProvider;
use ai_ask::providers::UIA_MAX_DESCENDANT_DEPTH;
use ai_ask::providers::UIA_MAX_DESCENDANT_NODES;

#[test]
fn provider_names_identify_strategies() {
    assert_eq!(WindowsUIAutomationProvider::new().name(), "windows-uia");
    assert_eq!(WindowsWin32EditProvider::new().name(), "windows-win32-edit");
    assert_eq!(MacosAccessibilityProvider::new().name(), "macos-accessibility");
}

#[test]
fn chain_returns_first_successful_capture() {
    let results = vec![None, Some("first".to_string()), Some("second".to_string())];
    assert_eq!(capture_with_providers(&results), Some("first".to_string()));

    let empty: Vec<Option<String>> = vec![None, None];
    assert_eq!(capture_with_providers(&empty), None);
}

#[test]
fn hotkey_capture_prefers_chain_result() {
    assert_eq!(
        capture_text_for_hotkey(Some("from chain".to_string())),
        Some("from chain".to_string())
    );
    // With nothing from the chain the clipboard decides; whatever this
    // machine's clipboard held, a delivered text is a valid selection.
    if let Some(text) = capture_text_for_hotkey(None) {
        assert!(text.chars().filter(|c| !c.is_whitespace()).count() >= 2);
    }
}

#[test]
fn supported_edit_classes_are_recognized() {
    let classes = supported_classes();
    assert_eq!(classes.len(), 5);
    for class in classes {
        assert!(is_supported_class(class));
    }
    assert!(is_supported_class("Edit"));
    assert!(!is_supported_class("edit"));
    assert!(!is_supported_class("Chrome_WidgetWin_1"));
}

fn leaf(has_pattern: bool) -> UiNode {
    UiNode { has_text_pattern: has_pattern, children: Vec::new() }
}

#[test]
fn bounded_search_finds_shallow_pattern() {
    let root = UiNode {
        has_text_pattern: false,
        children: vec![leaf(false), UiNode { has_text_pattern: false, children: vec![leaf(true)] }],
    };
    assert_eq!(
        search_descendants_for_text_pattern(&root, UIA_MAX_DESCENDANT_DEPTH, UIA_MAX_DESCENDANT_NODES),
        SearchOutcome::Found
    );
    assert!(obtain_text_pattern(&root));
}

#[test]
fn bounded_search_respects_depth_ceiling() {
    // The only pattern sits four levels down; the standard depth is three.
    let deep = UiNode {
        has_text_pattern: false,
        children: vec![UiNode {
            has_text_pattern: false,
            children: vec![UiNode {
                has_text_pattern: false,
                children: vec![UiNode { has_text_pattern: false, children: vec![leaf(true)] }],
            }],
        }],
    };
    assert_eq!(
        search_descendants_for_text_pattern(&deep, UIA_MAX_DESCENDANT_DEPTH, UIA_MAX_DESCENDANT_NODES),
        SearchOutcome::NotFound
    );
    assert!(!obtain_text_pattern(&deep));
}

#[test]
fn bounded_search_respects_node_budget() {
    // The pattern hides behind more siblings than the budget allows.
    let mut children: Vec<UiNode> = Vec::new();
    for _ in 0..UIA_MAX_DESCENDANT_NODES {
        children.push(leaf(false));
    }
    children.push(leaf(true));
    let wide = UiNode { has_text_pattern: false, children };
    assert_eq!(
        search_descendants_for_text_pattern(&wide, UIA_MAX_DESCENDANT_DEPTH, UIA_MAX_DESCENDANT_NODES),
        SearchOutcome::BudgetExhausted
    );

    // The element's own pattern still counts.
    let own = UiNode { has_text_pattern: true, children: Vec::new() };
    assert!(obtain_text_pattern(&own));
}

fn utf16(text: &str) -> Vec<u16> {
    text.encode_utf16().collect()
}

#[test]
fn edit_selection_is_sliced_and_decoded() {
    let buffer = utf16("Hello World");
    let copied = buffer.len();

    assert_eq!(extract_selection_from_edit(&buffer, 0, 5, copied), Some("Hello".to_string()));
    assert_eq!(extract_selection_from_edit(&buffer, 6, 11, copied), Some("World".to_string()));
}

#[test]
fn edit_selection_rejects_bad_ranges() {
    let buffer = utf16("Hello World");
    let copied = buffer.len();

    // Inverted and empty ranges are no selection.
    assert_eq!(extract_selection_from_edit(&buffer, 5, 5, copied), None);
    assert_eq!(extract_selection_from_edit(&buffer, 7, 3, copied), None);
    // Nothing copied means nothing to slice.
    assert_eq!(extract_selection_from_edit(&buffer, 0, 5, 0), None);
    // The end is clamped to what was copied.
    assert_eq!(extract_selection_from_edit(&buffer, 0, 100, 5), Some("Hello".to_string()));
}

#[test]
fn edit_selection_rejects_ill_formed_utf16() {
    // A lone high surrogate is not well-formed UTF-16.
    let buffer: Vec<u16> = vec![0xD800, 0xD800];
    assert_eq!(extract_selection_from_edit(&buffer, 0, 2, 2), None);
}

#[test]
fn slice_selection_clamps_to_copied_units() {
    let buffer: Vec<u16> = vec![10, 20, 30, 40, 50];
    assert_eq!(slice_selection(&buffer, 1, 3, 5), Some(vec![20, 30]));
    assert_eq!(slice_selection(&buffer, 1, 5, 3), Some(vec![20, 30]));
    assert_eq!(slice_selection(&buffer, 3, 2, 5), None);
    assert_eq!(slice_selection(&buffer, 0, 4, 0), None);
}
