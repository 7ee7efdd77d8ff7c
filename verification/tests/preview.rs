use markview::base_uri::DocumentIdentity;
use markview::preview::{PreviewEvent, PreviewSynchronizer, PreviewUpdate, Snapshot};
use markview::render::{build_html_page, render_fragment, PLACEHOLDER_FRAGMENT};
use markview::theme::{AppearanceMode, BackgroundColor};

fn snapshot(text: &str, system_dark: bool, working_directory: Option<&str>) -> Snapshot {
    Snapshot {
        text: text.to_string(),
        system_dark,
        working_directory: working_directory.map(|d| d.to_string()),
    }
}

fn same(a: &PreviewUpdate, b: &PreviewUpdate) -> bool {
    a.page.html == b.page.html
        && a.page.base_uri == b.page.base_uri
        && a.dark == b.dark
        && a.background == b.background
}

#[test]
fn new_document_shows_placeholder() {
    let sync = PreviewSynchronizer::new(AppearanceMode::SystemDefault);
    assert!(!sync.has_identity());
    let update = sync.handle(PreviewEvent::TextChanged, &snapshot("", false, Some("/work")));
    assert_eq!(update.page.html, build_html_page(PLACEHOLDER_FRAGMENT, false));
    assert_eq!(update.page.base_uri, Some("file:///work/".to_string()));
    assert!(!update.dark);
    assert_eq!(update.background, BackgroundColor { red: 980, green: 980, blue: 980 });
}

#[test]
fn text_change_renders_the_text() {
    let sync = PreviewSynchronizer::new(AppearanceMode::SystemDefault);
    let update = sync.handle(PreviewEvent::TextChanged, &snapshot("# Title", true, None));
    assert_eq!(update.page.html, build_html_page("<h1>Title</h1>\n", true));
    assert_eq!(update.page.html, build_html_page(&render_fragment("# Title"), true));
    assert_eq!(update.page.base_uri, None);
    assert!(update.dark);
    assert_eq!(update.background, BackgroundColor { red: 102, green: 102, blue: 102 });
}

#[test]
fn both_events_give_the_same_update() {
    let mut sync = PreviewSynchronizer::new(AppearanceMode::ForceLight);
    sync.set_identity(Some(DocumentIdentity { parent_uri: Some("file:///a/b".to_string()) }));
    for text in ["", "text", "# h\n\n- [ ] item"] {
        for system_dark in [false, true] {
            let s = snapshot(text, system_dark, Some("/w"));
            let on_text = sync.handle(PreviewEvent::TextChanged, &s);
            let on_look = sync.handle(PreviewEvent::AppearanceChanged, &s);
            assert!(same(&on_text, &on_look));
        }
    }
}

#[test]
fn saved_document_uses_its_directory() {
    let mut sync = PreviewSynchronizer::new(AppearanceMode::SystemDefault);
    sync.set_identity(Some(DocumentIdentity { parent_uri: Some("file:///a/b".to_string()) }));
    assert!(sync.has_identity());
    let update = sync.handle(PreviewEvent::TextChanged, &snapshot("x", false, Some("/work")));
    assert_eq!(update.page.base_uri, Some("file:///a/b/".to_string()));
    sync.set_identity(None);
    let update = sync.handle(PreviewEvent::TextChanged, &snapshot("x", false, Some("/work")));
    assert_eq!(update.page.base_uri, Some("file:///work/".to_string()));
}

#[test]
fn mode_decides_over_the_system() {
    let mut sync = PreviewSynchronizer::new(AppearanceMode::ForceDark);
    assert_eq!(sync.mode(), AppearanceMode::ForceDark);
    assert!(sync.handle(PreviewEvent::AppearanceChanged, &snapshot("x", false, None)).dark);
    sync.set_mode(AppearanceMode::ForceLight);
    assert!(!sync.handle(PreviewEvent::AppearanceChanged, &snapshot("x", true, None)).dark);
    sync.set_mode(AppearanceMode::SystemDefault);
    assert!(sync.handle(PreviewEvent::AppearanceChanged, &snapshot("x", true, None)).dark);
    assert!(!sync.handle(PreviewEvent::AppearanceChanged, &snapshot("x", false, None)).dark);
}

#[test]
fn live_signal_is_used_for_each_event() {
    let sync = PreviewSynchronizer::new(AppearanceMode::SystemDefault);
    let first = sync.handle(PreviewEvent::AppearanceChanged, &snapshot("x", false, None));
    let second = sync.handle(PreviewEvent::AppearanceChanged, &snapshot("x", true, None));
    assert_ne!(first.page.html, second.page.html);
    assert_ne!(first.background, second.background);
}

#[test]
fn every_event_is_answered_in_order() {
    let sync = PreviewSynchronizer::new(AppearanceMode::SystemDefault);
    let events = vec![
        (PreviewEvent::TextChanged, snapshot("a", false, None)),
        (PreviewEvent::TextChanged, snapshot("ab", false, None)),
        (PreviewEvent::AppearanceChanged, snapshot("ab", true, None)),
        (PreviewEvent::TextChanged, snapshot("ab", true, None)),
        (PreviewEvent::TextChanged, snapshot("", true, Some("/w"))),
    ];
    let updates = sync.handle_all(&events);
    assert_eq!(updates.len(), events.len());
    for (update, (event, snapshot)) in updates.iter().zip(events.iter()) {
        assert!(same(update, &sync.handle(*event, snapshot)));
    }
    assert!(same(&updates[2], &updates[3]));
    assert!(sync.handle_all(&Vec::new()).is_empty());
}
