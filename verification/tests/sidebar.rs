use kopuz_components::navigation::Route;
use kopuz_components::sidebar::{section_items, tool_items, SidebarSize, COLLAPSED_WIDTH};

#[test]
fn sidebar_resizing() {
    let mut s = SidebarSize::new();
    assert_eq!(s.current_width(), 200);
    s.drag_to(300);
    assert_eq!(s.current_width(), 300);
    s.drag_to(500);
    assert_eq!(s.current_width(), 300);
    s.drag_to(100);
    assert!(s.collapsed);
    assert_eq!(s.current_width(), COLLAPSED_WIDTH);
    s.drag_to(150);
    assert!(s.collapsed);
    s.drag_to(600);
    assert!(!s.collapsed);
    assert_eq!(s.current_width(), 600);
}

#[test]
fn sidebar_links() {
    let with: Vec<Route> = section_items(true).iter().map(|i| i.route).collect();
    assert_eq!(with.len(), 10);
    assert_eq!(with[2], Route::Discover);
    let without: Vec<Route> = section_items(false).iter().map(|i| i.route).collect();
    assert_eq!(without.len(), 9);
    assert!(!without.contains(&Route::Discover));
    assert_eq!(section_items(true)[5].key, "albums");
    assert_eq!(section_items(true)[5].icon, "fa-solid fa-record-vinyl");
    let tools: Vec<&str> = tool_items(true).iter().map(|i| i.key).collect();
    assert_eq!(tools, vec!["ytdlp", "settings"]);
    assert_eq!(tool_items(false).len(), 1);
}
