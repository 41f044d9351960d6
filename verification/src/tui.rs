use crate::application::wallet_service::WalletService;
use crate::domain::chain::Chain;
use crate::domain::crypto::{is_phrase_of, MnemonicProvider};
use crate::domain::wallet::Wallet;
use crate::ffi::opt_string;
use crate::infrastructure::bip39_adapter::{bip39_phrase_error, Bip39Adapter};
use crate::infrastructure::crypto_adapter::CryptoAdapter;
use qrcode::render::unicode;
use qrcode::QrCode;
use std::sync::Arc;
use vstd::prelude::*;
use vstd::string::StringSliceAdditionalSpecFns;
use vstd::utf8::{decode_utf8, encode_utf8_decode_utf8, is_char_boundary};

verus! {

/// The characters with the Unicode `White_Space` property, which
/// `char::is_whitespace` and `str::trim` go by.
pub open spec fn is_whitespace(c: char) -> bool {
    ||| ('\u{9}' <= c && c <= '\u{d}')
    ||| c == ' '
    ||| c == '\u{85}'
    ||| c == '\u{a0}'
    ||| c == '\u{1680}'
    ||| ('\u{2000}' <= c && c <= '\u{200a}')
    ||| c == '\u{2028}'
    ||| c == '\u{2029}'
    ||| c == '\u{202f}'
    ||| c == '\u{205f}'
    ||| c == '\u{3000}'
}

/// `s` without its leading whitespace.
pub open spec fn trim_start(s: Seq<char>) -> Seq<char>
    decreases s.len(),
{
    if s.len() > 0 && is_whitespace(s[0]) {
        trim_start(s.drop_first())
    } else {
        s
    }
}

/// `s` without its trailing whitespace.
pub open spec fn trim_end(s: Seq<char>) -> Seq<char>
    decreases s.len(),
{
    if s.len() > 0 && is_whitespace(s.last()) {
        trim_end(s.drop_last())
    } else {
        s
    }
}

/// What `str::trim` gives for `s`: `s` without its leading and trailing whitespace.
pub open spec fn str_trim(s: Seq<char>) -> Seq<char> {
    trim_end(trim_start(s))
}

/// `str::trim`: the text without leading and trailing Unicode whitespace, as
/// its documentation states.
#[verifier::external_body]
fn trim_text(s: &str) -> (t: &str)
    ensures
        t@ == str_trim(s@),
{
    s.trim()
}

/// A key press, as the terminal application reads it.
#[derive(Clone, Copy, Debug, PartialEq, Eq, Structural)]
pub enum Key {
    Char(char),
    Up,
    Down,
    Enter,
    Esc,
    Other,
}

/// The screen the terminal application shows.
pub enum AppState {
    /// The main menu.
    Menu,
    /// Typing a mnemonic to import.
    InputMnemonic,
    /// Typing the optional passphrase, for an imported mnemonic or a new
    /// wallet of `word_count` words.
    InputPassphrase { mnemonic: Option<String>, word_count: u8 },
    /// A wallet with its passphrase.
    WalletView(Wallet, Option<String>),
    /// `content` shown as a QR code under `title`, over a wallet view.
    QrView { content: String, title: String, wallet: Wallet, pass: Option<String> },
}

/// What the terminal application does after a key press.
pub enum Action {
    /// Nothing beyond redrawing.
    Nothing,
    /// Leave the application.
    Quit,
    /// Hand the key to the text field.
    EditInput,
    /// Start an empty text field.
    NewInput,
    /// Stop with this message: the wallet's address could not be derived.
    Abort(String),
}

/// The menu entry below `selected`, wrapping around the three entries.
pub open spec fn menu_down(selected: Option<usize>) -> usize {
    match selected {
        Some(i) => if i >= 2 {
            0
        } else {
            (i + 1) as usize
        },
        None => 0,
    }
}

/// The menu entry above `selected`, wrapping around the three entries.
pub open spec fn menu_up(selected: Option<usize>) -> usize {
    match selected {
        Some(i) => if i == 0 {
            2
        } else {
            (i - 1) as usize
        },
        None => 0,
    }
}

/// The passphrase typed on `line`: none when the trimmed line is empty.
pub open spec fn typed_pass(line: Seq<char>) -> Option<Seq<char>> {
    if str_trim(line).len() == 0 {
        None
    } else {
        Some(str_trim(line))
    }
}

/// `s` is the passphrase screen for `mnemonic` and `word_count`.
pub open spec fn is_pass_input(s: AppState, mnemonic: Option<Seq<char>>, word_count: u8) -> bool {
    s matches AppState::InputPassphrase { mnemonic: m, word_count: w } && opt_string(m) == mnemonic
        && w == word_count
}

/// `s` shows the wallet of `mnemonic` under `pass`.
pub open spec fn shows_wallet(s: AppState, mnemonic: Seq<char>, pass: Option<Seq<char>>) -> bool {
    s matches AppState::WalletView(w, p) && w.mnemonic@ == mnemonic && opt_string(p) == pass
}

/// `s` shows `content` as a QR code titled `title` over the wallet of
/// `mnemonic` under `pass`.
pub open spec fn shows_qr(
    s: AppState,
    content: Seq<char>,
    title: Seq<char>,
    mnemonic: Seq<char>,
    pass: Option<Seq<char>>,
) -> bool {
    s matches AppState::QrView { content: c, title: t, wallet: w, pass: p } && c@ == content && t@
        == title && w.mnemonic@ == mnemonic && opt_string(p) == pass
}

/// The terminal application's state: its screen, the menu selection and the
/// wallet service.
pub struct App {
    pub state: AppState,
    pub selected: Option<usize>,
    pub service: Arc<WalletService<Bip39Adapter, CryptoAdapter>>,
}

impl App {
    /// Every wallet on screen holds an accepted mnemonic, and the passphrase
    /// screen leads to an accepted mnemonic or to a wallet of a BIP-39 length.
    pub open spec fn wf(&self) -> bool {
        match self.state {
            AppState::InputPassphrase { mnemonic: Some(m), .. } => bip39_phrase_error(m@) is None,
            AppState::InputPassphrase { mnemonic: None, word_count } => Bip39Adapter.supports_word_count(
                word_count,
            ),
            AppState::WalletView(w, _) => bip39_phrase_error(w.mnemonic@) is None,
            AppState::QrView { wallet, .. } => bip39_phrase_error(wallet.mnemonic@) is None,
            _ => true,
        }
    }

    /// The address on `chain` of the wallet with `mnemonic` under `pass`.
    pub open spec fn address(&self, mnemonic: Seq<char>, chain: Chain, pass: Option<Seq<char>>) -> Result<
        Seq<char>,
        Seq<char>,
    > {
        (*self.service).address_result(mnemonic, chain, pass)
    }

    /// What a key press does: `new` and `action` follow from `self`, `key` and
    /// the text `line` of the text field.
    pub open spec fn transition(self, key: Key, line: Seq<char>, new: App, action: Action) -> bool {
        let unchanged = new.state == self.state;
        &&& new.service == self.service
        &&& (key != Key::Down && key != Key::Up) ==> new.selected == self.selected
        &&& !(self.state is Menu) ==> new.selected == self.selected
        &&& match self.state {
            AppState::Menu => match key {
                Key::Char(c) => unchanged && if c == 'q' {
                    action is Quit
                } else {
                    action is Nothing
                },
                Key::Down => new.state is Menu && new.selected == Some(menu_down(self.selected))
                    && action is Nothing,
                Key::Up => new.state is Menu && new.selected == Some(menu_up(self.selected))
                    && action is Nothing,
                Key::Enter => match self.selected {
                    Some(i) => if i == 0 {
                        is_pass_input(new.state, None, 12) && action is NewInput
                    } else if i == 1 {
                        is_pass_input(new.state, None, 24) && action is NewInput
                    } else if i == 2 {
                        new.state is InputMnemonic && action is NewInput
                    } else {
                        unchanged && action is Nothing
                    },
                    None => unchanged && action is Nothing,
                },
                _ => unchanged && action is Nothing,
            },
            AppState::InputMnemonic => match key {
                Key::Esc => new.state is Menu && action is Nothing,
                Key::Enter => if bip39_phrase_error(str_trim(line)) is None {
                    is_pass_input(new.state, Some(str_trim(line)), 0) && action is NewInput
                } else {
                    unchanged && action is Nothing
                },
                _ => unchanged && action is EditInput,
            },
            AppState::InputPassphrase { mnemonic, word_count } => match key {
                Key::Esc => new.state is Menu && action is Nothing,
                Key::Enter => action is Nothing && match new.state {
                    AppState::WalletView(w, p) => opt_string(p) == typed_pass(line) && match mnemonic {
                        Some(m) => w.mnemonic@ == m@,
                        None => is_phrase_of(w.mnemonic@, word_count as nat) && bip39_phrase_error(
                            w.mnemonic@,
                        ) is None,
                    },
                    _ => false,
                },
                _ => unchanged && action is EditInput,
            },
            AppState::WalletView(w, p) => match key {
                Key::Esc => new.state is Menu && action is Nothing,
                Key::Char(c) => if c == 'q' {
                    unchanged && action is Quit
                } else if c == 'v' {
                    shows_qr(new.state, w.mnemonic@, " Seed QR "@, w.mnemonic@, opt_string(p))
                        && action is Nothing
                } else if c == 'e' || c == 's' {
                    let chain = if c == 'e' {
                        Chain::Evm
                    } else {
                        Chain::Solana
                    };
                    let title = if c == 'e' {
                        " ETH QR "@
                    } else {
                        " SOL QR "@
                    };
                    match self.address(w.mnemonic@, chain, opt_string(p)) {
                        Ok(a) => shows_qr(new.state, a, title, w.mnemonic@, opt_string(p))
                            && action is Nothing,
                        Err(e) => unchanged && (action matches Action::Abort(m) && m@ == e),
                    }
                } else {
                    unchanged && action is Nothing
                },
                _ => unchanged && action is Nothing,
            },
            AppState::QrView { wallet, pass, .. } => match key {
                Key::Esc => new.state == AppState::WalletView(wallet, pass) && action is Nothing,
                Key::Char(c) => unchanged && if c == 'q' {
                    action is Quit
                } else {
                    action is Nothing
                },
                _ => unchanged && action is Nothing,
            },
        }
    }

    /// The application at start: the menu, its first entry selected.
    pub fn new() -> (app: App)
        ensures
            app.state is Menu,
            app.selected == Some(0usize),
            app.wf(),
    {
        let bip39 = Arc::new(Bip39Adapter);
        let crypto = Arc::new(CryptoAdapter);
        let service = Arc::new(WalletService::new(bip39, crypto));
        App { state: AppState::Menu, selected: Some(0), service }
    }

    /// The QR screen of the address on `chain` of `wallet`, or, when it cannot
    /// be derived, the wallet view again and the message.
    fn address_qr(&self, wallet: Wallet, pass: Option<String>, chain: Chain) -> (r: (
        AppState,
        Action,
    ))
        ensures
            ({
                let title = if chain == Chain::Evm {
                    " ETH QR "@
                } else {
                    " SOL QR "@
                };
                match self.address(wallet.mnemonic@, chain, opt_string(pass)) {
                    Ok(a) => shows_qr(r.0, a, title, wallet.mnemonic@, opt_string(pass))
                        && r.1 is Nothing,
                    Err(e) => r.0 == AppState::WalletView(wallet, pass) && (r.1 matches Action::Abort(
                        m,
                    ) && m@ == e),
                }
            }),
    {
        let pin: Option<&str> = match &pass {
            Some(p) => Some(p.as_str()),
            None => None,
        };
        match self.service.derive_address(&wallet, chain, pin) {
            Ok(addr) => {
                let title = match chain {
                    Chain::Evm => String::from_str(" ETH QR "),
                    Chain::Solana => String::from_str(" SOL QR "),
                };
                (AppState::QrView { content: addr, title, wallet, pass }, Action::Nothing)
            },
            Err(e) => (AppState::WalletView(wallet, pass), Action::Abort(e)),
        }
    }

    /// Handles one key press; `input_line` is the text field's first line.
    pub fn handle_key(&mut self, key: Key, input_line: &str) -> (action: Action)
        requires
            old(self).wf(),
        ensures
            final(self).wf(),
            old(self).transition(key, input_line@, *final(self), action),
    {
        let mut state = AppState::Menu;
        std::mem::swap(&mut state, &mut self.state);
        match state {
            AppState::Menu => match key {
                Key::Char(c) => {
                    if c == 'q' {
                        Action::Quit
                    } else {
                        Action::Nothing
                    }
                },
                Key::Down => {
                    let i: usize = match self.selected {
                        Some(i) => if i >= 2 {
                            0
                        } else {
                            i + 1
                        },
                        None => 0,
                    };
                    self.selected = Some(i);
                    Action::Nothing
                },
                Key::Up => {
                    let i: usize = match self.selected {
                        Some(i) => if i == 0 {
                            2
                        } else {
                            i - 1
                        },
                        None => 0,
                    };
                    self.selected = Some(i);
                    Action::Nothing
                },
                Key::Enter => match self.selected {
                    Some(i) => {
                        if i == 0 {
                            self.state = AppState::InputPassphrase { mnemonic: None, word_count: 12 };
                            Action::NewInput
                        } else if i == 1 {
                            self.state = AppState::InputPassphrase { mnemonic: None, word_count: 24 };
                            Action::NewInput
                        } else if i == 2 {
                            self.state = AppState::InputMnemonic;
                            Action::NewInput
                        } else {
                            Action::Nothing
                        }
                    },
                    None => Action::Nothing,
                },
                _ => Action::Nothing,
            },
            AppState::InputMnemonic => match key {
                Key::Esc => Action::Nothing,
                Key::Enter => {
                    let mnemonic = trim_text(input_line).to_owned();
                    if self.service.import_wallet(mnemonic.as_str()).is_ok() {
                        self.state = AppState::InputPassphrase {
                            mnemonic: Some(mnemonic),
                            word_count: 0,
                        };
                        Action::NewInput
                    } else {
                        self.state = AppState::InputMnemonic;
                        Action::Nothing
                    }
                },
                _ => {
                    self.state = AppState::InputMnemonic;
                    Action::EditInput
                },
            },
            AppState::InputPassphrase { mnemonic, word_count } => match key {
                Key::Esc => Action::Nothing,
                Key::Enter => {
                    let passphrase = trim_text(input_line).to_owned();
                    let pass_opt = if passphrase.as_str().is_empty() {
                        None
                    } else {
                        Some(passphrase)
                    };
                    let wallet = match mnemonic {
                        Some(m) => match self.service.import_wallet(m.as_str()) {
                            Ok(w) => w,
                            Err(e) => {
                                proof {
                                    assert(false);
                                }
                                return Action::Abort(e);
                            },
                        },
                        None => match self.service.create_random_wallet(word_count) {
                            Ok(w) => w,
                            Err(e) => {
                                proof {
                                    assert(false);
                                }
                                return Action::Abort(e);
                            },
                        },
                    };
                    self.state = AppState::WalletView(wallet, pass_opt);
                    Action::Nothing
                },
                _ => {
                    self.state = AppState::InputPassphrase { mnemonic, word_count };
                    Action::EditInput
                },
            },
            AppState::WalletView(wallet, pass) => match key {
                Key::Esc => Action::Nothing,
                Key::Char(c) => {
                    if c == 'q' {
                        self.state = AppState::WalletView(wallet, pass);
                        Action::Quit
                    } else if c == 'v' {
                        let content = wallet.mnemonic.clone();
                        self.state = AppState::QrView {
                            content,
                            title: String::from_str(" Seed QR "),
                            wallet,
                            pass,
                        };
                        Action::Nothing
                    } else if c == 'e' || c == 's' {
                        let chain = if c == 'e' {
                            Chain::Evm
                        } else {
                            Chain::Solana
                        };
                        let (next, action) = self.address_qr(wallet, pass, chain);
                        self.state = next;
                        action
                    } else {
                        self.state = AppState::WalletView(wallet, pass);
                        Action::Nothing
                    }
                },
                _ => {
                    self.state = AppState::WalletView(wallet, pass);
                    Action::Nothing
                },
            },
            AppState::QrView { content, title, wallet, pass } => match key {
                Key::Esc => {
                    self.state = AppState::WalletView(wallet, pass);
                    Action::Nothing
                },
                Key::Char(c) => {
                    self.state = AppState::QrView { content, title, wallet, pass };
                    if c == 'q' {
                        Action::Quit
                    } else {
                        Action::Nothing
                    }
                },
                _ => {
                    self.state = AppState::QrView { content, title, wallet, pass };
                    Action::Nothing
                },
            },
        }
    }
}

/// The text width left for an address in a pane of `width` columns.
pub open spec fn address_room(width: u16) -> int {
    if width >= 10 {
        width - 10
    } else {
        0
    }
}

/// Whether `truncate` shortens `addr` in a pane of `width` columns: when it is
/// longer (in bytes) than the room, and the room exceeds 15.
pub open spec fn truncates(addr: &str, width: u16) -> bool {
    addr.spec_bytes().len() > address_room(width) && address_room(width) > 15
}

/// `addr` as shown in a pane of `width` columns: unchanged when it fits, else
/// its first and last 8 bytes around `...`.
pub fn truncate(addr: &str, width: u16) -> (r: String)
    requires
        addr.spec_bytes().len() <= usize::MAX,
        truncates(addr, width) ==> is_char_boundary(addr.spec_bytes(), 8) && is_char_boundary(
            addr.spec_bytes(),
            addr.spec_bytes().len() - 8,
        ),
    ensures
        truncates(addr, width) ==> r@ == decode_utf8(addr.spec_bytes().take(8)) + "..."@
            + decode_utf8(addr.spec_bytes().skip(addr.spec_bytes().len() - 8)),
        !truncates(addr, width) ==> r@ == addr@,
{
    let limit = (width as usize).saturating_sub(10);
    let len = addr.len();
    assert(limit == address_room(width));
    assert(len == addr.spec_bytes().len());
    if len > limit && limit > 15 {
        assert(truncates(addr, width));
        let (head, _) = addr.split_at(8);
        let (_, tail) = addr.split_at(len - 8);
        proof {
            encode_utf8_decode_utf8(head@);
            encode_utf8_decode_utf8(tail@);
            assert(head.spec_bytes() =~= addr.spec_bytes().take(8));
            assert(tail.spec_bytes() =~= addr.spec_bytes().skip(len - 8));
        }
        let mut text = head.to_owned();
        text.append("...");
        text.append(tail);
        text
    } else {
        addr.to_owned()
    }
}

/// A box of `wanted` cells centred in `total` cells: its offset and its size,
/// which is `wanted` cut to `total`.
pub fn center_span(total: u16, wanted: u16) -> (r: (u16, u16))
    ensures
        r.1 == if wanted <= total {
            wanted
        } else {
            total
        },
        r.0 == (total - r.1) / 2,
        r.0 + r.1 <= total,
{
    let size = if wanted <= total {
        wanted
    } else {
        total
    };
    ((total - size) / 2, size)
}

/// Moving down through the three menu entries three times comes back to the
/// same entry, and moving up undoes moving down.
pub proof fn law_menu_cycles(i: usize)
    requires
        i <= 2,
    ensures
        menu_down(Some(menu_down(Some(menu_down(Some(i)))))) == i,
        menu_up(Some(menu_down(Some(i)))) == i,
        menu_down(Some(menu_up(Some(i)))) == i,
        menu_down(Some(i)) <= 2 && menu_up(Some(i)) <= 2,
{
}

/// The application quits only on `q`, and only from the menu, a wallet view or
/// a QR code (not while text is typed), leaving the screen as it was.
pub proof fn law_quit_only_on_q(app: App, key: Key, line: Seq<char>, new: App, action: Action)
    requires
        app.transition(key, line, new, action),
        action is Quit,
    ensures
        key == Key::Char('q'),
        app.state is Menu || app.state is WalletView || app.state is QrView,
        new.state == app.state,
{
}

/// Escape leaves every screen but the menu: back to the menu, or from a QR
/// code back to its wallet view.
pub proof fn law_escape_goes_back(app: App, line: Seq<char>, new: App, action: Action)
    requires
        app.transition(Key::Esc, line, new, action),
        !(app.state is Menu),
    ensures
        action is Nothing,
        match app.state {
            AppState::QrView { wallet, pass, .. } => new.state == AppState::WalletView(wallet, pass),
            _ => new.state is Menu,
        },
{
}

/// `q` quits from the menu, a wallet view and a QR code, as the footer says.
pub proof fn law_q_quits(app: App, line: Seq<char>, new: App, action: Action)
    requires
        app.transition(Key::Char('q'), line, new, action),
        app.state is Menu || app.state is WalletView || app.state is QrView,
    ensures
        action is Quit,
{
}

/// What frames every screen: header and footer texts, the height of the header
/// and footer bars, and the margin around the panes.
pub struct FrameLayout {
    pub header: String,
    pub footer: String,
    pub bar_height: u16,
    pub margin: u16,
}

/// The frame for a terminal of `width` by `height` cells: short texts, thin
/// bars and no margin on small screens.
pub fn frame_layout(width: u16, height: u16) -> (r: FrameLayout)
    ensures
        r.header@ == (if height < 15 {
            "VIBE Wallet"@
        } else {
            "VIBE Airgapped Wallet Core"@
        }),
        r.footer@ == (if width < 50 {
            "[Q]Quit [ESC]Back"@
        } else {
            " [Q]Quit | [UP/DOWN]Nav | [ENT]Sel | [ESC]Back | [V/E/S]QR "@
        }),
        r.bar_height == (if height < 15 {
            1u16
        } else {
            3u16
        }),
        r.margin == (if width < 40 {
            0u16
        } else {
            1u16
        }),
{
    let header = if height < 15 {
        String::from_str("VIBE Wallet")
    } else {
        String::from_str("VIBE Airgapped Wallet Core")
    };
    let footer = if width < 50 {
        String::from_str("[Q]Quit [ESC]Back")
    } else {
        String::from_str(" [Q]Quit | [UP/DOWN]Nav | [ENT]Sel | [ESC]Back | [V/E/S]QR ")
    };
    let bar_height: u16 = if height < 15 {
        1
    } else {
        3
    };
    let margin: u16 = if width < 40 {
        0
    } else {
        1
    };
    FrameLayout { header, footer, bar_height, margin }
}

/// The key hint under a wallet in a pane of `pane_width` columns.
pub fn key_hint(pane_width: u16) -> (r: String)
    ensures
        r@ == (if pane_width < 40 {
            "[V]Seed [E]Eth [S]Sol"@
        } else {
            "Press [V]Seed [E]Eth [S]Sol QR"@
        }),
{
    if pane_width < 40 {
        String::from_str("[V]Seed [E]Eth [S]Sol")
    } else {
        String::from_str("Press [V]Seed [E]Eth [S]Sol QR")
    }
}

/// Whether the wallet pane of a terminal `height` rows high spaces its lines out.
pub fn spaced_lines(height: u16) -> (r: bool)
    ensures
        r == (height >= 20),
{
    height >= 20
}

/// The QR box for a pane of `pane_width` by `pane_height`: at most 80 by 40,
/// and whether it is large enough (25 by 15) to show a code at all.
pub fn qr_box(pane_width: u16, pane_height: u16) -> (r: (u16, u16, bool))
    ensures
        r.0 == (if pane_width < 80 {
            pane_width
        } else {
            80
        }),
        r.1 == (if pane_height < 40 {
            pane_height
        } else {
            40
        }),
        r.2 == (r.0 >= 25 && r.1 >= 15),
{
    let w: u16 = if pane_width < 80 {
        pane_width
    } else {
        80
    };
    let h: u16 = if pane_height < 40 {
        pane_height
    } else {
        40
    };
    (w, h, w >= 25 && h >= 15)
}

/// The mnemonic as shown in a pane of `pane_width` columns: in full from 50
/// columns on, else its first 10 bytes and `...`.
pub fn mnemonic_label(mnemonic: &str, pane_width: u16) -> (r: String)
    requires
        pane_width < 50 ==> is_char_boundary(mnemonic.spec_bytes(), 10),
    ensures
        pane_width < 50 ==> r@ == decode_utf8(mnemonic.spec_bytes().take(10)) + "..."@,
        pane_width >= 50 ==> r@ == mnemonic@,
{
    if pane_width < 50 {
        let (head, _) = mnemonic.split_at(10);
        proof {
            encode_utf8_decode_utf8(head@);
            assert(head.spec_bytes() =~= mnemonic.spec_bytes().take(10));
        }
        let mut text = head.to_owned();
        text.append("...");
        text
    } else {
        mnemonic.to_owned()
    }
}

/// The dense text picture of the QR code of `text`: `QrCode::new` on its bytes
/// (error correction M), drawn with `unicode::Dense1x2` (two modules per
/// character) with dark and light swapped; `None` when the text does not fit a
/// QR code.
pub uninterp spec fn qr_dense_text(text: Seq<char>) -> Option<Seq<char>>;

/// `QrCode::new(text)` then `render::<unicode::Dense1x2>()` with dark and light
/// swapped and `build()`; the refusal of `QrCode::new` becomes `None`. The
/// picture is named by `qr_dense_text`.
#[verifier::external_body]
fn qr_render(text: &str) -> (r: Option<String>)
    ensures
        opt_string(r) == qr_dense_text(text@),
{
    match QrCode::new(text) {
        Ok(code) => Some(
            code.render::<unicode::Dense1x2>().dark_color(unicode::Dense1x2::Light).light_color(
                unicode::Dense1x2::Dark,
            ).build(),
        ),
        Err(_) => None,
    }
}

/// The QR picture of `text` for the terminal, or `None` when `text` is too
/// long for a QR code.
pub fn qr_image(text: &str) -> (r: Option<String>)
    ensures
        opt_string(r) == qr_dense_text(text@),
{
    qr_render(text)
}

/// Without leading whitespace nothing is left exactly when all is whitespace,
/// and what is left starts with a character that is not whitespace.
pub proof fn lemma_trim_start(s: Seq<char>)
    ensures
        (trim_start(s).len() == 0) == (forall|i: int| 0 <= i < s.len() ==> is_whitespace(#[trigger] s[i])),
        trim_start(s).len() > 0 ==> !is_whitespace(trim_start(s)[0]),
    decreases s.len(),
{
    if s.len() > 0 && is_whitespace(s[0]) {
        let rest = s.drop_first();
        lemma_trim_start(rest);
        if trim_start(s).len() == 0 {
            assert forall|i: int| 0 <= i < s.len() implies is_whitespace(#[trigger] s[i]) by {
                if i > 0 {
                    assert(s[i] == rest[i - 1]);
                }
            }
        } else {
            let i = choose|i: int| 0 <= i < rest.len() && !is_whitespace(#[trigger] rest[i]);
            assert(s[i + 1] == rest[i]);
        }
    }
}

/// Without trailing whitespace nothing is left exactly when all is whitespace.
pub proof fn lemma_trim_end(s: Seq<char>)
    ensures
        (trim_end(s).len() == 0) == (forall|i: int| 0 <= i < s.len() ==> is_whitespace(#[trigger] s[i])),
    decreases s.len(),
{
    if s.len() > 0 && is_whitespace(s.last()) {
        let init = s.drop_last();
        lemma_trim_end(init);
        if trim_end(s).len() == 0 {
            assert forall|i: int| 0 <= i < s.len() implies is_whitespace(#[trigger] s[i]) by {
                if i < s.len() - 1 {
                    assert(s[i] == init[i]);
                }
            }
        } else {
            let i = choose|i: int| 0 <= i < init.len() && !is_whitespace(#[trigger] init[i]);
            assert(s[i] == init[i]);
        }
    }
}

/// A passphrase line of nothing but whitespace gives no passphrase, and any
/// other line gives one.
pub proof fn law_blank_line_is_no_passphrase(line: Seq<char>)
    ensures
        (typed_pass(line) is None) == (forall|i: int|
            0 <= i < line.len() ==> is_whitespace(#[trigger] line[i])),
{
    lemma_trim_start(line);
    let t = trim_start(line);
    lemma_trim_end(t);
    if t.len() > 0 {
        assert(!is_whitespace(t[0]));
    }
}

} // verus!
