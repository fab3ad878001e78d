//! The program around the game: the start menu, the game, and leaving;
//! what a key press or a frame does to them, and what the terminal loop is
//! asked to do in turn (load or save the high scores, pause the title
//! animation, wait for input, sleep).
use crate::bits::Bits;
use crate::game::{get_fps_mode, BinaryNumbersGame, FpsMode};
use crate::high_scores::HighScores;
use crate::keys::{is_select, spec_is_select, Key};
use crate::start_menu::{
    handle_start_input, AppPreferences, MenuOutcome, NumberMode, StartMenu, MENU_LEN,
};
use vstd::prelude::*;

verus! {

/// Where the program stands.
pub enum AppModel {
    /// The start menu, with the preferences it came from.
    Start(StartMenu, AppPreferences),
    /// A game, with the preferences to return to.
    Playing(BinaryNumbersGame, AppPreferences),
    /// The program is over.
    Exit,
}

/// A key event from the terminal.
#[derive(Clone, Copy, PartialEq, Eq, Debug, Structural)]
pub struct KeyPress {
    pub key: Key,
    /// Control, and no other modifier, was held.
    pub ctrl: bool,
    /// The key went down (rather than up or repeating).
    pub press: bool,
}

/// What the terminal loop is asked to do after a key press.
#[derive(Clone, Copy, PartialEq, Eq, Debug, Structural)]
pub enum AppAction {
    Nothing,
    /// Pause or resume the title animation.
    ToggleAnimation,
    /// Load the high scores and start a game of this mode through
    /// `start_game`, with these preferences.
    Play(Bits, NumberMode, AppPreferences),
    /// Write the game's high-score table back.
    SaveScores,
}

/// How the terminal loop waits for the next key, in microseconds.
#[derive(Clone, Copy, PartialEq, Eq, Debug, Structural)]
pub enum InputWait {
    /// Wait at most this long.
    Poll(u64),
    /// Wait until a key comes.
    Block,
}

/// The length of a frame, about a thirtieth of a second, in microseconds.
pub const FRAME_US: u64 = 33_000;

/// Control and C (or Shift-C) end the program from anywhere.
pub open spec fn is_interrupt(ev: KeyPress) -> bool {
    ev.ctrl && (ev.key == Key::Char('c') || ev.key == Key::Char('C'))
}

/// `ev` can be handled in `state`: Enter in the menu needs the cursor on
/// an entry, and a game needs `accepts_key`.
pub open spec fn app_accepts_key(state: &AppModel, ev: KeyPress) -> bool {
    ev.press && !is_interrupt(ev) ==> match state {
        AppModel::Start(menu, _) => spec_is_select(ev.key) ==> menu.spec_selected() < MENU_LEN,
        AppModel::Playing(game, _) => game.accepts_key(ev.key),
        AppModel::Exit => true,
    }
}

/// `post` and `action` follow `ev` in `pre`: only key presses count;
/// Control-C ends the program; otherwise the menu or the game takes the key.
/// In the menu, Enter asks for a game (the menu stays until the caller
/// starts it), Esc or Q ends the program. In a game, the caller is asked to
/// save the table whenever the key changed it.
pub open spec fn app_after_key(pre: &AppModel, ev: KeyPress, post: &AppModel, action: AppAction) -> bool {
    if !ev.press {
        *post == *pre && action == AppAction::Nothing
    } else if is_interrupt(ev) {
        *post == AppModel::Exit && action == AppAction::Nothing
    } else {
        match *pre {
            AppModel::Start(menu, prefs) => {
                let out = menu.outcome(ev.key, prefs);
                match out {
                    MenuOutcome::Exit(_) => *post == AppModel::Exit && action == AppAction::Nothing,
                    _ => {
                        &&& post matches AppModel::Start(m2, p2) && p2 == prefs
                            && StartMenu::after_key(&menu, &m2, ev.key, prefs, out)
                        &&& action == match out {
                            MenuOutcome::ToggleAnimation => AppAction::ToggleAnimation,
                            MenuOutcome::Play(b, m, p) => AppAction::Play(b, m, p),
                            _ => AppAction::Nothing,
                        }
                    },
                }
            },
            AppModel::Playing(game, prefs) => {
                &&& post matches AppModel::Playing(g2, p2) && p2 == prefs
                    && BinaryNumbersGame::after_key(&game, &g2, ev.key)
                    && action == if g2.high_scores@ != game.high_scores@ {
                    AppAction::SaveScores
                } else {
                    AppAction::Nothing
                }
            },
            AppModel::Exit => *post == AppModel::Exit && action == AppAction::Nothing,
        }
    }
}

/// Handles a key event.
pub fn on_key(state: AppModel, ev: KeyPress) -> (r: (AppModel, AppAction))
    requires
        app_accepts_key(&state, ev),
    ensures
        app_after_key(&state, ev, &r.0, r.1),
{
    if !ev.press {
        return (state, AppAction::Nothing);
    }
    if ev.ctrl && (ev.key == Key::Char('c') || ev.key == Key::Char('C')) {
        return (AppModel::Exit, AppAction::Nothing);
    }
    match state {
        AppModel::Start(menu, prefs) => {
            let mut menu = menu;
            let out = handle_start_input(&mut menu, ev.key, prefs);
            match out {
                MenuOutcome::Stay => (AppModel::Start(menu, prefs), AppAction::Nothing),
                MenuOutcome::ToggleAnimation => (
                    AppModel::Start(menu, prefs),
                    AppAction::ToggleAnimation,
                ),
                MenuOutcome::Play(b, m, p) => (AppModel::Start(menu, prefs), AppAction::Play(b, m, p)),
                MenuOutcome::Exit(_) => (AppModel::Exit, AppAction::Nothing),
            }
        },
        AppModel::Playing(game, prefs) => {
            let mut game = game;
            let saved = game.handle_game_input(ev.key);
            let action = if saved {
                AppAction::SaveScores
            } else {
                AppAction::Nothing
            };
            (AppModel::Playing(game, prefs), action)
        },
        AppModel::Exit => (AppModel::Exit, AppAction::Nothing),
    }
}

/// Whether `on_key` can take `ev` in `state` (see `app_accepts_key`).
pub fn can_take_key(state: &AppModel, ev: KeyPress) -> (r: bool)
    ensures
        r == app_accepts_key(state, ev),
{
    if !ev.press || (ev.ctrl && (ev.key == Key::Char('c') || ev.key == Key::Char('C'))) {
        return true;
    }
    match state {
        AppModel::Start(menu, _) => !is_select(ev.key) || menu.selected_index() < MENU_LEN,
        AppModel::Playing(game, _) => game.can_take_key(ev.key),
        AppModel::Exit => true,
    }
}

/// The start of a game of mode `bits` with the high-score table `table`.
pub fn start_game(bits: Bits, prefs: AppPreferences, table: HighScores) -> (r: AppModel)
    ensures
        r matches AppModel::Playing(g, p) && p == prefs && g.is_new(bits, 3, table@)
            && g.consistent(),
{
    AppModel::Playing(BinaryNumbersGame::new(bits, table), prefs)
}

/// `dt` can pass in `state` (see `accepts_tick`).
pub open spec fn app_accepts_tick(state: &AppModel, dt: u64) -> bool {
    state matches AppModel::Playing(g, _) ==> g.accepts_tick(dt)
}

/// `post` follows `pre` after `dt` milliseconds: a game plays on (see
/// `ticked`) and, once asked to leave, gives way to the start menu built
/// from the game's preferences; `table` is the game's high-score table when
/// the tick changed it, for the caller to save. Nothing else moves.
pub open spec fn app_after_tick(pre: &AppModel, dt: u64, post: &AppModel, table: Option<HighScores>) -> bool {
    match *pre {
        AppModel::Playing(g, p) => exists|g2: BinaryNumbersGame|
            {
                &&& #[trigger] BinaryNumbersGame::ticked(&g, &g2, dt)
                &&& match table {
                    Some(t) => t@ == g2.high_scores@ && g2.high_scores@ != g.high_scores@,
                    None => g2.high_scores@ == g.high_scores@,
                }
                &&& if g2.exit_intended {
                    post matches AppModel::Start(m, p2) && p2 == p && m.spec_selected()
                        == p.last_selected_index && m.spec_number_mode() == p.last_number_mode
                } else {
                    *post == AppModel::Playing(g2, p)
                }
            },
        _ => *post == *pre && table is None,
    }
}

/// Lets `dt` milliseconds pass: the game runs, and a game the player asked
/// to leave returns to the start menu with its preferences.
pub fn after_tick(state: AppModel, dt: u64) -> (r: (AppModel, Option<HighScores>))
    requires
        app_accepts_tick(&state, dt),
    ensures
        app_after_tick(&state, dt, &r.0, r.1),
{
    match state {
        AppModel::Playing(game, prefs) => {
            let mut game = game;
            let saved = game.run(dt);
            let ghost g2 = game;
            let table = if saved {
                Some(game.high_scores.duplicate())
            } else {
                None
            };
            if game.is_exit_intended() {
                let r = (AppModel::Start(StartMenu::with_preferences(prefs), prefs), table);
                assert(BinaryNumbersGame::ticked(&state->Playing_0, &g2, dt));
                r
            } else {
                let r = (AppModel::Playing(game, prefs), table);
                assert(BinaryNumbersGame::ticked(&state->Playing_0, &g2, dt));
                r
            }
        },
        other => (other, None),
    }
}

/// Whether `after_tick` can take a tick of `dt` milliseconds (see
/// `app_accepts_tick`).
pub fn can_take_tick(state: &AppModel, dt: u64) -> (r: bool)
    ensures
        r == app_accepts_tick(state, dt),
{
    match state {
        AppModel::Playing(game, _) => game.can_take_tick(dt),
        _ => true,
    }
}

/// How to wait for a key: in a game while its clock runs, and in the menu
/// while the title animation moves, poll for at most the time the last
/// frame took (and at most a frame); otherwise block. Nothing once the
/// program is over.
pub fn input_wait(state: &AppModel, animation_paused: bool, dt_us: u64) -> (r: Option<InputWait>)
    ensures
        r == match *state {
            AppModel::Playing(g, _) => Some(
                if g.game_state == crate::puzzle::GameState::Active {
                    InputWait::Poll(if dt_us < FRAME_US { dt_us } else { FRAME_US })
                } else {
                    InputWait::Block
                },
            ),
            AppModel::Start(_, _) => Some(
                if !animation_paused {
                    InputWait::Poll(if dt_us < FRAME_US { dt_us } else { FRAME_US })
                } else {
                    InputWait::Block
                },
            ),
            AppModel::Exit => None,
        },
{
    let poll = InputWait::Poll(if dt_us < FRAME_US { dt_us } else { FRAME_US });
    match state {
        AppModel::Playing(game, _) => {
            if get_fps_mode(game) == FpsMode::RealTime {
                Some(poll)
            } else {
                Some(InputWait::Block)
            }
        },
        AppModel::Start(_, _) => {
            if !animation_paused {
                Some(poll)
            } else {
                Some(InputWait::Block)
            }
        },
        AppModel::Exit => None,
    }
}

/// How long to sleep after a frame that took `elapsed_us` microseconds, to
/// keep to one frame per `FRAME_US`.
pub fn frame_sleep(elapsed_us: u64) -> (r: u64)
    ensures
        r == if elapsed_us < FRAME_US { FRAME_US - elapsed_us } else { 0 },
{
    if elapsed_us < FRAME_US {
        FRAME_US - elapsed_us
    } else {
        0
    }
}

/// Whether the program goes on.
pub fn is_running(state: &AppModel) -> (r: bool)
    ensures
        r == !(*state is Exit),
{
    match state {
        AppModel::Exit => false,
        _ => true,
    }
}

/// Control-C ends the program from the menu and from a game alike.
pub proof fn lemma_interrupt_exits(pre: &AppModel, ev: KeyPress, post: &AppModel, action: AppAction)
    requires
        ev.press,
        is_interrupt(ev),
        app_after_key(pre, ev, post, action),
    ensures
        *post is Exit,
{
}

/// Key releases and repeats change nothing.
pub proof fn lemma_only_presses_count(pre: &AppModel, ev: KeyPress, post: &AppModel, action: AppAction)
    requires
        !ev.press,
        app_after_key(pre, ev, post, action),
    ensures
        *post == *pre,
        action == AppAction::Nothing,
{
}

} // verus!
