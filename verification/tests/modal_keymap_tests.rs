use gwm_tui::keymap::{KeyCode, KeyModifiers, KeyStroke, Source};
use gwm_tui::modal_keymap::{parse_single, KeyContext, ModalAction, ModalKeymap, ModalKeymapError};

fn ch(c: char) -> KeyStroke {
    KeyStroke::new(KeyCode::Char(c), KeyModifiers::empty())
}

fn code(c: KeyCode) -> KeyStroke {
    KeyStroke::new(c, KeyModifiers::empty())
}

#[test]
fn context_paths_round_trip() {
    for c in KeyContext::all() {
        assert_eq!(KeyContext::from_config_path(c.config_path()), Some(c));
    }
    assert_eq!(KeyContext::from_config_path("link.choose_target"), Some(KeyContext::LinkChooseTarget));
    assert_eq!(KeyContext::from_config_path("nope"), None);
    assert_eq!(KeyContext::all().len(), 15);
}

#[test]
fn verbs_resolve_within_their_context() {
    assert_eq!(ModalAction::from_context_verb(KeyContext::Confirm, "cancel"), Some(ModalAction::ConfirmCancel));
    assert_eq!(ModalAction::from_context_verb(KeyContext::Create, "cancel"), Some(ModalAction::CreateCancel));
    assert_eq!(ModalAction::from_context_verb(KeyContext::Help, "submit"), None);
    assert_eq!(ModalAction::all().len(), 79);
}

#[test]
fn parse_single_accepts_one_stroke_only() {
    assert_eq!(parse_single("Esc").unwrap(), code(KeyCode::Esc));
    assert_eq!(parse_single("g g").unwrap_err(), ModalKeymapError::NotSingle { text: "g g".to_string() });
    assert_eq!(parse_single("Ctrl+c").unwrap_err(), ModalKeymapError::CtrlC { text: "Ctrl+c".to_string() });
    assert_eq!(parse_single("Ctrl+C").unwrap_err(), ModalKeymapError::CtrlC { text: "Ctrl+C".to_string() });
    assert!(matches!(parse_single("Nope"), Err(ModalKeymapError::Parse(_))));
}

#[test]
fn reserved_typing_strokes() {
    assert!(KeyContext::CommandPalette.reserved_typing_stroke(&ch('x')));
    assert!(!KeyContext::CommandPalette.reserved_typing_stroke(&ch('X')));
    assert!(KeyContext::LinkInputNumber.reserved_typing_stroke(&ch('7')));
    assert!(!KeyContext::LinkInputNumber.reserved_typing_stroke(&ch('x')));
    assert!(KeyContext::ConfigEdit.reserved_typing_stroke(&code(KeyCode::Backspace)));
    assert!(!KeyContext::Help.reserved_typing_stroke(&ch('x')));
    assert!(ModalAction::CreateSubmit.reserved_typing_stroke(&ch('s')));
    assert!(!ModalAction::CreateNextType.reserved_typing_stroke(&ch('s')));
}

#[test]
fn defaults_resolve_per_context() {
    let km = ModalKeymap::defaults();
    assert_eq!(km.resolve(KeyContext::Confirm, &ch('y')), Some(ModalAction::ConfirmConfirm));
    assert_eq!(km.resolve(KeyContext::Clean, &ch('y')), Some(ModalAction::CleanConfirm));
    assert_eq!(km.resolve(KeyContext::Help, &ch('y')), None);
    assert_eq!(km.primary_key(ModalAction::ConfirmCancel), Some("n".to_string()));
    assert_eq!(km.keys_display(ModalAction::ConfirmCancel), "n, Esc");
    assert_eq!(km.bindings_for(KeyContext::Confirm).len(), 6);
    assert_eq!(km.list().len(), 79);
}

#[test]
fn override_vacates_defaults_and_then_resolves() {
    let mut km = ModalKeymap::defaults();
    km.apply_override(ModalAction::ConfirmCancel, vec![ch('y')]).unwrap();
    assert_eq!(km.resolve(KeyContext::Confirm, &ch('y')), Some(ModalAction::ConfirmCancel));
    assert_eq!(km.keys_display(ModalAction::ConfirmConfirm), "");
    let b = km.bindings_for(KeyContext::Confirm).into_iter().find(|b| b.action == ModalAction::ConfirmCancel).unwrap();
    assert_eq!(b.source, Source::UserConfig);
}

#[test]
fn override_against_user_binding_conflicts() {
    let mut km = ModalKeymap::defaults();
    km.apply_override(ModalAction::ConfirmCancel, vec![ch('x')]).unwrap();
    let err = km.apply_override(ModalAction::ConfirmConfirm, vec![ch('x')]).unwrap_err();
    assert_eq!(err, ModalKeymapError::Conflict {
        context: KeyContext::Confirm,
        key: ch('x'),
        previous: ModalAction::ConfirmCancel,
        action: ModalAction::ConfirmConfirm,
    });
}

#[test]
fn override_reserved_key_is_refused() {
    let mut km = ModalKeymap::defaults();
    let err = km.apply_override(ModalAction::CommandPaletteClose, vec![ch('x')]).unwrap_err();
    assert_eq!(err, ModalKeymapError::Reserved {
        context: KeyContext::CommandPalette,
        key: ch('x'),
        action: ModalAction::CommandPaletteClose,
    });
    assert_eq!(km.resolve(KeyContext::CommandPalette, &code(KeyCode::Esc)), Some(ModalAction::CommandPaletteClose));
}

#[test]
fn every_verb_is_found_again_by_its_context_and_name() {
    for a in ModalAction::all() {
        assert_eq!(ModalAction::from_context_verb(a.context(), a.verb()), Some(a));
    }
    assert_eq!(ModalAction::from_context_verb(KeyContext::Help, "no_such_verb"), None);
}
