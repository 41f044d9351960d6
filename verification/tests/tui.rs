use wallet_core::tui::{
    center_span, frame_layout, key_hint, mnemonic_label, qr_box, qr_image, spaced_lines, truncate,
    Action, App, AppState, Key,
};

const ABANDON_12: &str = "abandon abandon abandon abandon abandon abandon abandon abandon abandon abandon abandon about";

#[test]
fn menu_starts_at_first_entry_and_wraps() {
    let mut app = App::new();
    assert!(matches!(app.state, AppState::Menu));
    assert_eq!(app.selected, Some(0));
    app.handle_key(Key::Up, "");
    assert_eq!(app.selected, Some(2));
    app.handle_key(Key::Down, "");
    assert_eq!(app.selected, Some(0));
    for _ in 0..3 {
        app.handle_key(Key::Down, "");
    }
    assert_eq!(app.selected, Some(0));
    assert!(matches!(app.handle_key(Key::Esc, ""), Action::Nothing));
    assert!(matches!(app.handle_key(Key::Char('q'), ""), Action::Quit));
}

#[test]
fn creating_a_wallet_through_the_screens() {
    let mut app = App::new();
    app.handle_key(Key::Down, "");
    assert!(matches!(app.handle_key(Key::Enter, ""), Action::NewInput));
    match &app.state {
        AppState::InputPassphrase { mnemonic: None, word_count } => assert_eq!(*word_count, 24),
        _ => panic!("expected the passphrase screen"),
    }
    assert!(matches!(app.handle_key(Key::Char('q'), ""), Action::EditInput));
    assert!(matches!(app.handle_key(Key::Enter, "  "), Action::Nothing));
    let mnemonic = match &app.state {
        AppState::WalletView(w, pass) => {
            assert!(pass.is_none());
            w.mnemonic.clone()
        }
        _ => panic!("expected the wallet view"),
    };
    assert_eq!(mnemonic.split(' ').count(), 24);
    app.handle_key(Key::Char('v'), "");
    match &app.state {
        AppState::QrView { content, title, .. } => {
            assert_eq!(content, &mnemonic);
            assert_eq!(title, " Seed QR ");
        }
        _ => panic!("expected the QR view"),
    }
    app.handle_key(Key::Esc, "");
    assert!(matches!(app.state, AppState::WalletView(..)));
    assert!(matches!(app.handle_key(Key::Char('q'), ""), Action::Quit));
}

#[test]
fn importing_a_wallet_through_the_screens() {
    let mut app = App::new();
    app.handle_key(Key::Up, "");
    assert!(matches!(app.handle_key(Key::Enter, ""), Action::NewInput));
    assert!(matches!(app.state, AppState::InputMnemonic));
    assert!(matches!(app.handle_key(Key::Enter, "abandon abandon"), Action::Nothing));
    assert!(matches!(app.state, AppState::InputMnemonic));
    let line = format!("  {}  ", ABANDON_12);
    assert!(matches!(app.handle_key(Key::Enter, &line), Action::NewInput));
    match &app.state {
        AppState::InputPassphrase { mnemonic: Some(m), .. } => assert_eq!(m, ABANDON_12),
        _ => panic!("expected the passphrase screen"),
    }
    app.handle_key(Key::Enter, " 1234 ");
    match &app.state {
        AppState::WalletView(w, pass) => {
            assert_eq!(w.mnemonic, ABANDON_12);
            assert_eq!(pass.as_deref(), Some("1234"));
        }
        _ => panic!("expected the wallet view"),
    }
    app.handle_key(Key::Char('e'), "");
    match &app.state {
        AppState::QrView { content, title, .. } => {
            assert_eq!(title, " ETH QR ");
            assert!(content.starts_with("0x") && content.len() == 42);
        }
        _ => panic!("expected the QR view"),
    }
    app.handle_key(Key::Esc, "");
    app.handle_key(Key::Char('s'), "");
    match &app.state {
        AppState::QrView { title, .. } => assert_eq!(title, " SOL QR "),
        _ => panic!("expected the QR view"),
    }
    app.handle_key(Key::Esc, "");
    app.handle_key(Key::Esc, "");
    assert!(matches!(app.state, AppState::Menu));
}

#[test]
fn truncate_keeps_short_and_shortens_long_addresses() {
    let addr = "0xa3611257ea0f2360811a9c44fa6d908939165252";
    assert_eq!(truncate(addr, 60), addr);
    assert_eq!(truncate(addr, 40), "0xa36112...39165252");
    assert_eq!(truncate(addr, 25), addr);
    assert_eq!(truncate(addr, 5), addr);
}

#[test]
fn center_span_cuts_and_centres() {
    assert_eq!(center_span(80, 35), (22, 35));
    assert_eq!(center_span(30, 35), (0, 30));
    assert_eq!(center_span(7, 4), (1, 4));
}

#[test]
fn q_quits_from_the_qr_screen() {
    let mut app = App::new();
    app.handle_key(Key::Enter, "");
    app.handle_key(Key::Enter, "");
    app.handle_key(Key::Char('v'), "");
    assert!(matches!(app.state, AppState::QrView { .. }));
    assert!(matches!(app.handle_key(Key::Char('x'), ""), Action::Nothing));
    assert!(matches!(app.handle_key(Key::Char('q'), ""), Action::Quit));
    assert!(matches!(app.state, AppState::QrView { .. }));
}

#[test]
fn typing_keeps_the_menu_selection() {
    let mut app = App::new();
    app.handle_key(Key::Up, "");
    app.handle_key(Key::Enter, "");
    assert!(matches!(app.state, AppState::InputMnemonic));
    app.handle_key(Key::Down, "");
    app.handle_key(Key::Up, "");
    assert_eq!(app.selected, Some(2));
}

#[test]
fn frame_layout_adapts_to_small_screens() {
    let small = frame_layout(30, 10);
    assert_eq!(small.header, "VIBE Wallet");
    assert_eq!(small.footer, "[Q]Quit [ESC]Back");
    assert_eq!((small.bar_height, small.margin), (1, 0));
    let large = frame_layout(80, 30);
    assert_eq!(large.header, "VIBE Airgapped Wallet Core");
    assert_eq!(
        large.footer,
        " [Q]Quit | [UP/DOWN]Nav | [ENT]Sel | [ESC]Back | [V/E/S]QR "
    );
    assert_eq!((large.bar_height, large.margin), (3, 1));
    let middle = frame_layout(45, 15);
    assert_eq!(middle.footer, "[Q]Quit [ESC]Back");
    assert_eq!((middle.bar_height, middle.margin), (3, 1));
    assert_eq!(key_hint(39), "[V]Seed [E]Eth [S]Sol");
    assert_eq!(key_hint(40), "Press [V]Seed [E]Eth [S]Sol QR");
    assert!(spaced_lines(20) && !spaced_lines(19));
}

#[test]
fn qr_box_and_mnemonic_label() {
    assert_eq!(qr_box(100, 50), (80, 40, true));
    assert_eq!(qr_box(24, 30), (24, 30, false));
    assert_eq!(qr_box(30, 14), (30, 14, false));
    assert_eq!(qr_box(25, 15), (25, 15, true));
    assert_eq!(mnemonic_label(ABANDON_12, 49), "abandon ab...");
    assert_eq!(mnemonic_label(ABANDON_12, 50), ABANDON_12);
}

#[test]
fn qr_image_is_dense_and_refuses_too_long_text() {
    let image = qr_image("0xa3611257ea0f2360811a9c44fa6d908939165252").unwrap();
    assert!(image.lines().count() > 10);
    assert!(image.chars().any(|c| c == '\u{2580}' || c == '\u{2584}' || c == '\u{2588}'));
    let long = "x".repeat(5000);
    assert!(qr_image(&long).is_none());
}

#[test]
fn a_passphrase_of_unicode_whitespace_is_no_passphrase() {
    let mut app = App::new();
    app.handle_key(Key::Enter, "");
    app.handle_key(Key::Enter, "\u{3000} \t\u{a0}");
    match &app.state {
        AppState::WalletView(w, pass) => {
            assert!(pass.is_none());
            assert_eq!(w.mnemonic.split(' ').count(), 12);
        }
        _ => panic!("expected the wallet view"),
    }
}
