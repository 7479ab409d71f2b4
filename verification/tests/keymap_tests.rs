use gwm_tui::keymap::{
    dispatch_stroke, format_chord, key_matches_action, Action, ChordResolution, KeyCode, KeyModifiers, KeyStroke, Keymap, KeymapError, ParseFault, Source,
};

fn plain(code: KeyCode) -> KeyStroke {
    KeyStroke::new(code, KeyModifiers::empty())
}

fn ch(c: char) -> KeyStroke {
    plain(KeyCode::Char(c))
}

fn parse_fault(s: &str) -> (ParseFault, String, String) {
    match KeyStroke::parse_chord(s) {
        Err(KeymapError::Parse { fault, part, text }) => (fault, part, text),
        other => panic!("expected a parse error for {:?}, got {:?}", s, other),
    }
}

#[test]
fn slug_roundtrip_for_every_action() {
    for a in Action::all() {
        assert_eq!(Action::from_slug(a.slug()), Some(a));
    }
    assert_eq!(Action::from_slug("delete"), Some(Action::DeleteConfirm));
    assert_eq!(Action::from_slug("nope"), None);
    assert_eq!(Action::all().len(), 23);
}

#[test]
fn parse_single_keys_and_chords() {
    assert_eq!(KeyStroke::parse_chord("j").unwrap(), vec![ch('j')]);
    assert_eq!(KeyStroke::parse_chord("g g").unwrap(), vec![ch('g'), ch('g')]);
    assert_eq!(KeyStroke::parse_chord("  Space ").unwrap(), vec![ch(' ')]);
    assert_eq!(KeyStroke::parse_chord("PageDown").unwrap(), vec![plain(KeyCode::PageDown)]);
    assert_eq!(KeyStroke::parse_chord("F12").unwrap(), vec![plain(KeyCode::F(12))]);
    assert_eq!(KeyStroke::parse_chord("F").unwrap(), vec![ch('F')]);
    let ctrl_x = KeyStroke::new(KeyCode::Char('x'), KeyModifiers { ctrl: true, alt: false, shift: false });
    let ctrl_s = KeyStroke::new(KeyCode::Char('s'), KeyModifiers { ctrl: true, alt: false, shift: false });
    assert_eq!(KeyStroke::parse_chord("Ctrl+x Ctrl+s").unwrap(), vec![ctrl_x, ctrl_s]);
    let all_mods = KeyModifiers { ctrl: true, alt: true, shift: true };
    assert_eq!(KeyStroke::parse_chord("Shift+Alt+Ctrl+Up").unwrap(), vec![KeyStroke::new(KeyCode::Up, all_mods)]);
}

#[test]
fn parse_errors_name_the_fault() {
    assert_eq!(parse_fault("   ").0, ParseFault::EmptyKeyString);
    assert_eq!(parse_fault("a+").0, ParseFault::DanglingPlus);
    assert_eq!(parse_fault("+"), (ParseFault::DanglingPlus, String::new(), "+".to_string()));
    assert_eq!(parse_fault("Hyper+x"), (ParseFault::UnknownModifier, "Hyper".to_string(), "Hyper+x".to_string()));
    assert_eq!(parse_fault("Ctrl+Ctrl+x"), (ParseFault::DuplicateModifier, "Ctrl".to_string(), "Ctrl+Ctrl+x".to_string()));
    assert_eq!(parse_fault("F13"), (ParseFault::FunctionKeyOutOfRange, "F13".to_string(), "F13".to_string()));
    assert_eq!(parse_fault("F0").0, ParseFault::FunctionKeyOutOfRange);
    assert_eq!(parse_fault("Fx"), (ParseFault::InvalidFunctionKey, "Fx".to_string(), "Fx".to_string()));
    assert_eq!(parse_fault("F300").0, ParseFault::InvalidFunctionKey);
    assert_eq!(parse_fault("j Bogus"), (ParseFault::UnknownKey, "Bogus".to_string(), "Bogus".to_string()));
    assert_eq!(KeyStroke::parse_chord("F+5").unwrap_err(), KeymapError::Parse {
        fault: ParseFault::UnknownModifier,
        part: "F".to_string(),
        text: "F+5".to_string(),
    });
    assert_eq!(KeyStroke::parse_chord("F+05").is_err(), true);
    assert_eq!(KeyStroke::parse_chord("F05").unwrap(), vec![plain(KeyCode::F(5))]);
}

#[test]
fn stroke_text_is_canonical() {
    let k = KeyStroke::parse_chord("Shift+Alt+Ctrl+F5").unwrap()[0];
    assert_eq!(k.to_text(), "Ctrl+Alt+Shift+F5");
    assert_eq!(ch(' ').to_text(), "Space");
    assert_eq!(format_chord(&KeyStroke::parse_chord("g g").unwrap()), "g g");
    assert_eq!(format_chord(&[]), "");
}

#[test]
fn defaults_resolve_their_chords() {
    let km = Keymap::defaults();
    assert_eq!(km.lookup(&[ch('j')]), ChordResolution::Matched(Action::Down));
    assert_eq!(km.lookup(&[plain(KeyCode::End)]), ChordResolution::Matched(Action::Bottom));
    assert_eq!(km.lookup(&[ch('g')]), ChordResolution::PendingPrefix);
    assert_eq!(km.lookup(&[ch('g'), ch('g')]), ChordResolution::Matched(Action::Top));
    assert_eq!(km.lookup(&[ch('z')]), ChordResolution::NoMatch);
    assert_eq!(km.lookup(&[ch(':')]), ChordResolution::Matched(Action::CommandPalette));
    let list = km.list();
    assert_eq!(list.len(), 23);
    assert_eq!(list[0].action, Action::Down);
    assert!(list.iter().all(|b| b.source == Source::Default));
}

#[test]
fn default_chords_match_their_literals() {
    let km = Keymap::defaults();
    let top = km.list().into_iter().find(|b| b.action == Action::Top).unwrap();
    assert_eq!(top.chords, vec![KeyStroke::parse_chord("g g").unwrap()]);
    let refresh = km.list().into_iter().find(|b| b.action == Action::Refresh).unwrap();
    assert_eq!(refresh.chords, vec![KeyStroke::parse_chord("f").unwrap(), KeyStroke::parse_chord("r").unwrap()]);
}

#[test]
fn override_replaces_and_marks_user_config() {
    let mut km = Keymap::defaults();
    km.apply_override(Action::Quit, vec![vec![ch('x')]]).unwrap();
    assert_eq!(km.lookup(&[ch('x')]), ChordResolution::Matched(Action::Quit));
    assert_eq!(km.lookup(&[ch('q')]), ChordResolution::NoMatch);
    let quit = km.list().into_iter().find(|b| b.action == Action::Quit).unwrap();
    assert_eq!(quit.source, Source::UserConfig);
}

#[test]
fn override_conflict_is_refused_and_keymap_untouched() {
    let mut km = Keymap::defaults();
    let err = km.apply_override(Action::Quit, vec![vec![ch('j')]]).unwrap_err();
    assert_eq!(err, KeymapError::Conflict { chord: vec![ch('j')], first: Action::Down, second: Action::Quit });
    assert_eq!(km.lookup(&[ch('q')]), ChordResolution::Matched(Action::Quit));
}

#[test]
fn override_prefix_is_refused() {
    let mut km = Keymap::defaults();
    let err = km.apply_override(Action::Help, vec![vec![ch('g')]]).unwrap_err();
    assert_eq!(err, KeymapError::Prefix {
        short: vec![ch('g')],
        short_action: Action::Help,
        long: vec![ch('g'), ch('g')],
        long_action: Action::Top,
    });
}

#[test]
fn override_empty_chord_is_refused_and_empty_list_unbinds() {
    let mut km = Keymap::defaults();
    assert_eq!(km.apply_override(Action::Yank, vec![vec![]]).unwrap_err(), KeymapError::EmptyChord { action: Action::Yank });
    km.apply_override(Action::Yank, vec![]).unwrap();
    assert_eq!(km.lookup(&[ch('y')]), ChordResolution::NoMatch);
}

#[test]
fn chord_machine_waits_fires_and_falls_back() {
    let km = Keymap::defaults();
    let mut pending: Vec<KeyStroke> = Vec::new();
    assert_eq!(dispatch_stroke(&mut pending, &km, ch('g')), None);
    assert_eq!(pending, vec![ch('g')]);
    assert_eq!(dispatch_stroke(&mut pending, &km, ch('g')), Some(Action::Top));
    assert!(pending.is_empty());
    assert_eq!(dispatch_stroke(&mut pending, &km, ch('g')), None);
    assert_eq!(dispatch_stroke(&mut pending, &km, ch('j')), Some(Action::Down));
    assert!(pending.is_empty());
    assert_eq!(dispatch_stroke(&mut pending, &km, ch('Z')), None);
    assert!(pending.is_empty());
    assert!(key_matches_action(&km, ch('j'), Action::Down));
    assert!(!key_matches_action(&km, ch('j'), Action::Top));
}
