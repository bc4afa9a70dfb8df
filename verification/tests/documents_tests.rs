use zeroengine::documents::{is_document, DocumentKind, DocumentState};

#[test]
fn only_assets_of_the_panel_kind_are_opened() {
    assert!(is_document(DocumentKind::TextureSheet, "/p/assets/hero.texturesheet.json"));
    assert!(!is_document(DocumentKind::TextureSheet, "/p/assets/hero.json"));
    assert!(!is_document(DocumentKind::TextureSheet, "/p/assets/hero.animationclip.json"));
    assert!(is_document(DocumentKind::AnimationClip, "/p/assets/walk.animationclip.json"));
    assert!(!is_document(DocumentKind::AnimationClip, "/p/assets/walk.png"));
}

#[test]
fn selecting_the_open_document_again_does_not_reload_it() {
    let mut doc = DocumentState::new(DocumentKind::AnimationClip);
    assert!(doc.should_open("/p/walk.animationclip.json"));
    doc.opened("/p/walk.animationclip.json".to_string(), Ok(()));
    assert!(!doc.should_open("/p/walk.animationclip.json"));
    assert!(!doc.should_open("/p//walk.animationclip.json"));
    assert!(doc.should_open("/p/run.animationclip.json"));
    assert_eq!(doc.header_label(), "walk.animationclip.json");
}

#[test]
fn a_failed_load_keeps_the_open_document_and_says_why() {
    let mut doc = DocumentState::new(DocumentKind::TextureSheet);
    assert_eq!(doc.header_label(), "No sheet open");
    doc.opened("/p/a.texturesheet.json".to_string(), Ok(()));
    doc.dirty = true;
    doc.opened("/p/b.texturesheet.json".to_string(), Err("missing file".to_string()));
    assert_eq!(doc.current_path.as_deref(), Some("/p/a.texturesheet.json"));
    assert!(doc.dirty);
    assert_eq!(doc.status.as_deref(), Some("Failed to load texture sheet: missing file"));
}

#[test]
fn edits_are_saved_once_the_panel_settles() {
    let mut doc = DocumentState::new(DocumentKind::AnimationClip);
    assert_eq!(doc.header_label(), "No animation clip open");
    doc.opened("/p/walk.animationclip.json".to_string(), Ok(()));
    assert!(!doc.autosave_due(true, true));
    doc.dirty = true;
    assert!(!doc.autosave_due(false, true));
    assert!(!doc.autosave_due(true, false));
    assert!(doc.autosave_due(true, true));
    doc.saved(Err("read-only".to_string()));
    assert!(doc.dirty);
    assert_eq!(doc.status.as_deref(), Some("Failed to save animation clip: read-only"));
    doc.saved(Ok(()));
    assert!(!doc.dirty);
    assert!(doc.status.is_none());
    assert!(!doc.autosave_due(true, true));
}
