use nrc::keymap::{
    parse_lowered, Command, Commands, KeyCode, KeyCombo, KeyEvent, Keymap, CONTROL, NO_MODIFIERS, SHIFT,
};

#[test]
fn parses_key_names_in_any_case() {
    assert_eq!(KeyCombo::parse("Ctrl+C"), Ok(KeyCombo::ctrl(KeyCode::Char('c'))));
    assert_eq!(KeyCombo::parse("ESC"), Ok(KeyCombo::plain(KeyCode::Esc)));
    assert_eq!(KeyCombo::parse("escape"), Ok(KeyCombo::plain(KeyCode::Esc)));
    assert_eq!(KeyCombo::parse("PageDown"), Ok(KeyCombo::plain(KeyCode::PageDown)));
    assert_eq!(KeyCombo::parse("ctrl+Enter"), Ok(KeyCombo::ctrl(KeyCode::Enter)));
    assert_eq!(KeyCombo::parse("J"), Ok(KeyCombo::plain(KeyCode::Char('j'))));
    assert_eq!("del".parse::<KeyCombo>(), Ok(KeyCombo::plain(KeyCode::Delete)));
}

#[test]
fn refuses_unknown_key_names() {
    assert_eq!(KeyCombo::parse("Foo"), Err("unknown key: foo".to_string()));
    assert_eq!(KeyCombo::parse("ctrl+nope"), Err("unknown key: nope".to_string()));
    assert_eq!(parse_lowered("ctrl+x"), Ok(KeyCombo::ctrl(KeyCode::Char('x'))));
    assert_eq!(parse_lowered("é"), Err("unknown key: é".to_string()));
    assert_eq!(KeyCombo::parse("Ctrl+É"), Err("unknown key: é".to_string()));
}

#[test]
fn shift_is_ignored_on_characters_only() {
    let upper = KeyEvent {
        code: KeyCode::Char('G'),
        modifiers: SHIFT,
    };
    assert_eq!(
        KeyCombo::from_key_event(&upper),
        KeyCombo {
            code: KeyCode::Char('G'),
            modifiers: NO_MODIFIERS
        }
    );
    let shifted_tab = KeyEvent {
        code: KeyCode::Tab,
        modifiers: SHIFT,
    };
    assert_eq!(KeyCombo::from_key_event(&shifted_tab).modifiers, SHIFT);
    let ctrl_shift = KeyEvent {
        code: KeyCode::Char('c'),
        modifiers: SHIFT | CONTROL,
    };
    assert_eq!(KeyCombo::from_key_event(&ctrl_shift), KeyCombo::ctrl(KeyCode::Char('c')));
}

#[test]
fn presets_bind_their_home_keys() {
    let q = Keymap::qwerty();
    let c = Keymap::colemak_dh();
    let key = |ch: char| KeyEvent {
        code: KeyCode::Char(ch),
        modifiers: NO_MODIFIERS,
    };
    assert_eq!(q.lookup(&key('h')), Some(&[Command::LeftDwim][..]));
    assert_eq!(c.lookup(&key('m')), Some(&[Command::LeftDwim][..]));
    assert_eq!(c.lookup(&key('i')), Some(&[Command::RightDwim][..]));
    assert_eq!(q.lookup(&key('z')), None);
    let ctrl_c = KeyEvent {
        code: KeyCode::Char('c'),
        modifiers: CONTROL,
    };
    assert_eq!(q.lookup(&ctrl_c), Some(&[Command::Quit][..]));
}

#[test]
fn merge_lays_overrides_over_the_preset() {
    let mut km = Keymap::qwerty();
    let mut b = nrc::keymap::Bindings::new();
    b.insert(KeyCombo::plain(KeyCode::Char('q')), Commands::One(Command::Reload));
    km.merge(b);
    let q = KeyEvent {
        code: KeyCode::Char('q'),
        modifiers: NO_MODIFIERS,
    };
    assert_eq!(km.lookup(&q), Some(&[Command::Reload][..]));
    assert_eq!(Commands::One(Command::Quit).as_slice(), &[Command::Quit]);
}

#[test]
fn commands_from_one_or_many() {
    assert_eq!(Commands::from(Command::Quit).as_slice(), &[Command::Quit]);
    let many: Commands = vec![Command::ScrollDown, Command::SelectNext].into();
    assert_eq!(many.as_slice(), &[Command::ScrollDown, Command::SelectNext]);
}
