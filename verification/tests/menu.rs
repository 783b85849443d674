use donna_desktop::menu::{build_tray, menu_action, MenuAction};

#[test]
fn entries() {
    let entries = build_tray();
    let expected = [
        ("open", "Open Donna"),
        ("pause", "Pause new runs"),
        ("restart", "Restart worker"),
        ("quit", "Quit Donna"),
    ];
    assert_eq!(entries.len(), expected.len());
    for (entry, (id, label)) in entries.iter().zip(expected) {
        assert_eq!((entry.0.as_str(), entry.1.as_str()), (id, label));
    }
}

#[test]
fn every_entry_is_handled() {
    let actions: Vec<MenuAction> = build_tray().iter().map(|e| menu_action(&e.0)).collect();
    assert_eq!(
        actions,
        vec![MenuAction::Open, MenuAction::TogglePause, MenuAction::Restart, MenuAction::Quit]
    );
    assert_eq!(menu_action("other"), MenuAction::Ignore);
    assert_eq!(menu_action(""), MenuAction::Ignore);
}
