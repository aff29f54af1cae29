use electrico::electron_types::Menu;
use electrico::menu::{
    app_menu_label, menu_item_kind, parse_accelerator, Accelerator, KeyCode, MenuItemKind, Modifiers, PredefinedItem,
    TargetOs,
};

fn mods(super_key: bool, control: bool, alt: bool, shift: bool) -> Modifiers {
    Modifiers { super_key, control, alt, shift }
}

#[test]
fn accelerator_cmd_or_ctrl_per_platform() {
    let acc = "CmdOrCtrl+Shift+A".to_string();
    assert_eq!(
        parse_accelerator(&acc, TargetOs::MacOs),
        Some(Accelerator { modifiers: Some(mods(true, false, false, true)), key: KeyCode::Letter('A') })
    );
    assert_eq!(
        parse_accelerator(&acc, TargetOs::Windows),
        Some(Accelerator { modifiers: Some(mods(false, true, false, true)), key: KeyCode::Letter('A') })
    );
    assert_eq!(
        parse_accelerator(&acc, TargetOs::Other),
        Some(Accelerator { modifiers: Some(mods(false, false, false, true)), key: KeyCode::Letter('A') })
    );
}

#[test]
fn accelerator_without_modifiers() {
    assert_eq!(
        parse_accelerator(&"Q".to_string(), TargetOs::Other),
        Some(Accelerator { modifiers: None, key: KeyCode::Letter('Q') })
    );
    assert_eq!(
        parse_accelerator(&"=".to_string(), TargetOs::Other),
        Some(Accelerator { modifiers: None, key: KeyCode::Equal })
    );
}

#[test]
fn accelerator_special_keys() {
    assert_eq!(
        parse_accelerator(&"Ctrl+-".to_string(), TargetOs::Other),
        Some(Accelerator { modifiers: Some(mods(false, true, false, false)), key: KeyCode::Minus })
    );
    assert_eq!(
        parse_accelerator(&"Alt+Cmd+Z".to_string(), TargetOs::Other),
        Some(Accelerator { modifiers: Some(mods(true, false, true, false)), key: KeyCode::Letter('Z') })
    );
    assert_eq!(
        parse_accelerator(&"Bogus+Z".to_string(), TargetOs::Other),
        Some(Accelerator { modifiers: Some(mods(false, false, false, false)), key: KeyCode::Letter('Z') })
    );
}

#[test]
fn accelerator_unknown_keys() {
    assert_eq!(parse_accelerator(&"Ctrl++".to_string(), TargetOs::Other), None);
    assert_eq!(parse_accelerator(&"F5".to_string(), TargetOs::Other), None);
    assert_eq!(parse_accelerator(&"Ctrl+a".to_string(), TargetOs::Other), None);
    assert_eq!(parse_accelerator(&"".to_string(), TargetOs::Other), None);
}

#[test]
fn accelerator_plus_key_alone() {
    assert_eq!(
        parse_accelerator(&"+".to_string(), TargetOs::Other),
        None
    );
}

fn item(label: Option<&str>, role: Option<&str>, item_type: Option<&str>, acc: Option<&str>, sub: bool) -> Menu {
    Menu {
        id: "m1".to_string(),
        label: label.map(|s| s.to_string()),
        accelerator: acc.map(|s| s.to_string()),
        role: role.map(|s| s.to_string()),
        item_type: item_type.map(|s| s.to_string()),
        submenu: if sub { Some(vec![]) } else { None },
    }
}

#[test]
fn labelled_items() {
    match menu_item_kind(&item(Some("File"), None, None, None, true), &None, TargetOs::Other) {
        MenuItemKind::Submenu { label } => assert_eq!(label, "File"),
        _ => panic!("not a submenu"),
    }
    match menu_item_kind(&item(Some("Open"), None, None, Some("Ctrl+O"), false), &None, TargetOs::Other) {
        MenuItemKind::Item { id, label, accelerator } => {
            assert_eq!(id, "m1");
            assert_eq!(label, "Open");
            assert_eq!(accelerator, Some(Accelerator { modifiers: Some(mods(false, true, false, false)), key: KeyCode::Letter('O') }));
        },
        _ => panic!("not an item"),
    }
}

#[test]
fn separators_and_skipped_types() {
    assert!(matches!(
        menu_item_kind(&item(None, None, Some("separator"), None, false), &None, TargetOs::Other),
        MenuItemKind::Separator
    ));
    assert!(matches!(
        menu_item_kind(&item(None, Some("copy"), Some("checkbox"), None, false), &None, TargetOs::Other),
        MenuItemKind::Skip
    ));
}

#[test]
fn quit_and_devtools_roles() {
    match menu_item_kind(&item(None, Some("quit"), None, Some("Cmd+Q"), false), &Some("App".to_string()), TargetOs::Other) {
        MenuItemKind::Item { id, label, accelerator } => {
            assert_eq!(id, "quit");
            assert_eq!(label, "Quit App");
            assert_eq!(accelerator, Some(Accelerator { modifiers: Some(mods(true, false, false, false)), key: KeyCode::Letter('Q') }));
        },
        _ => panic!("not an item"),
    }
    match menu_item_kind(&item(None, Some("quit"), None, None, false), &None, TargetOs::Other) {
        MenuItemKind::Item { label, .. } => assert_eq!(label, "Quit"),
        _ => panic!("not an item"),
    }
    match menu_item_kind(&item(None, Some("toggleDevTools"), None, None, false), &None, TargetOs::Other) {
        MenuItemKind::Item { id, label, accelerator } => {
            assert_eq!(id, "toggleDevTools");
            assert_eq!(label, "Toggle Developer Tools");
            assert_eq!(accelerator, None);
        },
        _ => panic!("not an item"),
    }
}

#[test]
fn predefined_roles() {
    let cases = [
        ("cut", PredefinedItem::Cut),
        ("copy", PredefinedItem::Copy),
        ("paste", PredefinedItem::Paste),
        ("undo", PredefinedItem::Undo),
        ("redo", PredefinedItem::Redo),
        ("hide", PredefinedItem::Hide),
        ("hideothers", PredefinedItem::HideOthers),
        ("unhide", PredefinedItem::BringAllToFront),
        ("close", PredefinedItem::CloseWindow),
    ];
    for (role, expected) in cases {
        match menu_item_kind(&item(None, Some(role), None, None, false), &None, TargetOs::Other) {
            MenuItemKind::Predefined { item } => assert_eq!(item, expected),
            _ => panic!("not predefined: {}", role),
        }
    }
    assert!(matches!(
        menu_item_kind(&item(None, Some("zoom"), None, None, false), &None, TargetOs::Other),
        MenuItemKind::Skip
    ));
    assert!(matches!(menu_item_kind(&item(None, None, None, None, false), &None, TargetOs::Other), MenuItemKind::Skip));
}

#[test]
fn top_menu_labels() {
    assert_eq!(app_menu_label(&Some("Edit".to_string())), "Edit");
    assert_eq!(app_menu_label(&None), "");
}
