use binbreak::app_model::{
    after_tick, can_take_key, can_take_tick, frame_sleep, input_wait, is_running, on_key,
    start_game, AppAction, AppModel, InputWait, KeyPress, FRAME_US,
};
use binbreak::bits::Bits;
use binbreak::high_scores::HighScores;
use binbreak::keys::Key;
use binbreak::puzzle::GameState;
use binbreak::start_menu::{AppPreferences, NumberMode, StartMenu};

fn press(key: Key) -> KeyPress {
    KeyPress { key, ctrl: false, press: true }
}

fn menu_state() -> AppModel {
    let prefs = AppPreferences::default();
    AppModel::Start(StartMenu::new(prefs), prefs)
}

#[test]
fn control_c_ends_the_program_from_the_menu_and_from_a_game() {
    let ctrl_c = KeyPress { key: Key::Char('c'), ctrl: true, press: true };
    let (s, a) = on_key(menu_state(), ctrl_c);
    assert!(matches!(s, AppModel::Exit));
    assert_eq!(a, AppAction::Nothing);
    assert!(!is_running(&s));
    let game = start_game(Bits::Four, AppPreferences::default(), HighScores::empty());
    let (s2, _) = on_key(game, KeyPress { key: Key::Char('C'), ctrl: true, press: true });
    assert!(matches!(s2, AppModel::Exit));
}

#[test]
fn plain_c_is_just_a_key() {
    let (s, a) = on_key(menu_state(), press(Key::Char('c')));
    assert!(matches!(s, AppModel::Start(..)));
    assert_eq!(a, AppAction::Nothing);
}

#[test]
fn releases_are_ignored() {
    let ev = KeyPress { key: Key::Down, ctrl: false, press: false };
    let (s, a) = on_key(menu_state(), ev);
    assert_eq!(a, AppAction::Nothing);
    match s {
        AppModel::Start(menu, _) => assert_eq!(menu.selected_index(), 4),
        _ => panic!("left the menu"),
    }
}

#[test]
fn enter_in_the_menu_asks_for_a_game() {
    let (s, _) = on_key(menu_state(), press(Key::Down));
    let (s, a) = on_key(s, press(Key::Enter));
    let prefs = AppPreferences { last_selected_index: 5, last_number_mode: NumberMode::Unsigned };
    assert_eq!(a, AppAction::Play(Bits::Twelve, NumberMode::Unsigned, prefs));
    assert!(matches!(s, AppModel::Start(..)));
    let playing = start_game(Bits::Twelve, prefs, HighScores::empty());
    match &playing {
        AppModel::Playing(g, p) => {
            assert_eq!(g.bits, Bits::Twelve);
            assert_eq!(*p, prefs);
        },
        _ => panic!("no game"),
    }
    assert_eq!(input_wait(&playing, true, 10_000), Some(InputWait::Poll(10_000)));
}

#[test]
fn menu_keys_for_animation_and_leaving() {
    let (s, a) = on_key(menu_state(), press(Key::Char('a')));
    assert_eq!(a, AppAction::ToggleAnimation);
    let (s, _) = on_key(s, press(Key::Esc));
    assert!(matches!(s, AppModel::Exit));
    assert_eq!(input_wait(&s, false, 5), None);
}

#[test]
fn leaving_a_game_returns_to_the_menu_with_its_preferences() {
    let prefs = AppPreferences { last_selected_index: 2, last_number_mode: NumberMode::Signed };
    let state = start_game(Bits::FourShift8, prefs, HighScores::empty());
    assert!(can_take_key(&state, press(Key::Char('q'))));
    let (state, a) = on_key(state, press(Key::Char('q')));
    assert_eq!(a, AppAction::Nothing);
    assert!(matches!(state, AppModel::Playing(..)));
    assert!(can_take_tick(&state, 30));
    let (state, table) = after_tick(state, 30);
    assert!(table.is_none());
    match state {
        AppModel::Start(menu, p) => {
            assert_eq!(p, prefs);
            assert_eq!(menu.selected_index(), 2);
            assert_eq!(menu.number_mode(), NumberMode::Signed);
        },
        _ => panic!("not back in the menu"),
    }
}

#[test]
fn a_winning_answer_asks_for_the_table_to_be_saved() {
    let state = start_game(Bits::Four, AppPreferences::default(), HighScores::empty());
    let answer = match &state {
        AppModel::Playing(g, _) => g.puzzle.current_number,
        _ => unreachable!(),
    };
    let mut state = state;
    for _ in 0..3 {
        let selected = match &state {
            AppModel::Playing(g, _) => g.puzzle.selected_suggestion,
            _ => unreachable!(),
        };
        if selected == Some(answer) {
            break;
        }
        state = on_key(state, press(Key::Right)).0;
    }
    let (state, a) = on_key(state, press(Key::Enter));
    assert_eq!(a, AppAction::SaveScores);
    match &state {
        AppModel::Playing(g, _) => {
            assert_eq!(g.high_scores.get(4), 10);
            assert_eq!(g.game_state, GameState::Result);
        },
        _ => panic!("not playing"),
    }
    assert_eq!(input_wait(&state, false, 50_000), Some(InputWait::Block));
}

#[test]
fn a_timeout_on_the_clock_is_settled_by_the_tick() {
    let mut table = HighScores::empty();
    table.update(4, 3);
    let state = start_game(Bits::Four, AppPreferences::default(), table);
    let (state, t) = after_tick(state, 1);
    assert!(t.is_none());
    let (state, t) = after_tick(state, 9000);
    assert!(t.is_none());
    match &state {
        AppModel::Playing(g, _) => {
            assert_eq!(g.lives, 2);
            assert_eq!(g.game_state, GameState::Result);
        },
        _ => panic!("not playing"),
    }
}

#[test]
fn waiting_and_sleeping() {
    let menu = menu_state();
    assert_eq!(input_wait(&menu, false, 100_000), Some(InputWait::Poll(FRAME_US)));
    assert_eq!(input_wait(&menu, true, 100), Some(InputWait::Block));
    assert_eq!(frame_sleep(3_000), 30_000);
    assert_eq!(frame_sleep(40_000), 0);
    let (menu, t) = after_tick(menu, 12);
    assert!(t.is_none());
    assert!(is_running(&menu));
}
