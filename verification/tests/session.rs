use platformer_core::character::{steer, CharacterState, CHARACTER_SPEED};
use platformer_core::modes::{
    overlay_alpha_millis, FrameInput, GameMode, MenuButtonAction, SceneItem, Session,
};
use platformer_core::tiles::TileKind;

fn idle() -> FrameInput {
    FrameInput { left: false, right: false, pressed: None }
}

fn session_in_menu() -> Session {
    let mut s = Session::new();
    s.intro_frame(3000);
    s.apply_pending(0);
    assert_eq!(s.mode, GameMode::Menu);
    s
}

fn session_in_game(seed: u64) -> Session {
    let mut s = session_in_menu();
    s.menu_frame(Some(MenuButtonAction::StartSinglePlayerGame));
    s.apply_pending(seed);
    assert_eq!(s.mode, GameMode::SingleplayerGame);
    s
}

#[test]
fn a_fresh_session_shows_the_intro_splash() {
    let s = Session::new();
    assert_eq!(s.mode, GameMode::Intro);
    assert_eq!(s.pending, None);
    assert_eq!(s.entities.len(), 2);
    assert!(matches!(s.entities[0].item, SceneItem::SplashBackdrop));
    assert!(matches!(s.entities[1].item, SceneItem::LogoOverlay));
    assert!(s.entities.iter().all(|e| e.tag == GameMode::Intro));
    assert!(s.character.is_none());
}

#[test]
fn intro_below_the_threshold_requests_nothing() {
    let mut s = Session::new();
    s.intro_frame(1999);
    assert_eq!(s.pending, None);
    s.intro_frame(2000);
    assert_eq!(s.pending, None);
    assert_eq!(s.mode, GameMode::Intro);
}

#[test]
fn intro_redraws_the_elapsed_readout() {
    let mut s = Session::new();
    s.intro_frame(100);
    s.intro_frame(200);
    let readouts: Vec<u64> = s
        .entities
        .iter()
        .filter_map(|e| match e.item {
            SceneItem::ElapsedReadout(ms) => Some(ms),
            _ => None,
        })
        .collect();
    assert_eq!(readouts, vec![200]);
}

#[test]
fn crossing_the_intro_threshold_transitions_exactly_once() {
    let mut s = Session::new();
    s.intro_frame(2001);
    assert_eq!(s.pending, Some(GameMode::Menu));
    s.intro_frame(2500);
    assert_eq!(s.pending, Some(GameMode::Menu));
    s.apply_pending(0);
    assert_eq!(s.mode, GameMode::Menu);
    assert_eq!(s.pending, None);
    s.intro_frame(9000);
    assert_eq!(s.mode, GameMode::Menu);
    assert_eq!(s.pending, None);
}

#[test]
fn entering_the_menu_destroys_the_intro_and_spawns_one_button_per_action() {
    let s = session_in_menu();
    assert!(s.entities.iter().all(|e| e.tag != GameMode::Intro));
    let actions: Vec<&MenuButtonAction> = s
        .entities
        .iter()
        .filter_map(|e| match &e.item {
            SceneItem::MenuButton(a) => Some(a),
            _ => None,
        })
        .collect();
    assert_eq!(
        actions,
        vec![
            &MenuButtonAction::StartSinglePlayerGame,
            &MenuButtonAction::StartPlayingWithFriend,
            &MenuButtonAction::StartPlayingForMoney,
            &MenuButtonAction::OpenSettings,
            &MenuButtonAction::Quit,
        ]
    );
}

#[test]
fn each_menu_button_dispatches_its_mode() {
    let cases = [
        (MenuButtonAction::StartSinglePlayerGame, GameMode::SingleplayerGame),
        (MenuButtonAction::StartPlayingWithFriend, GameMode::GameWithFriend),
        (MenuButtonAction::StartPlayingForMoney, GameMode::GameForMoney),
        (MenuButtonAction::OpenSettings, GameMode::Settings),
        (MenuButtonAction::Quit, GameMode::Quit),
    ];
    for (action, mode) in cases {
        let mut s = session_in_menu();
        s.menu_frame(Some(action));
        assert_eq!(s.pending, Some(mode));
        s.apply_pending(0);
        assert_eq!(s.mode, mode);
        assert!(s.entities.iter().all(|e| e.tag != GameMode::Menu));
    }
}

#[test]
fn a_menu_frame_without_a_press_changes_nothing() {
    let mut s = session_in_menu();
    let before = s.entities.len();
    s.menu_frame(None);
    assert_eq!(s.pending, None);
    assert_eq!(s.entities.len(), before);
}

#[test]
fn refused_transition_requests_are_noops() {
    let mut s = Session::new();
    s.request_transition(GameMode::Settings);
    assert_eq!(s.pending, None);
    s.request_transition(GameMode::Intro);
    assert_eq!(s.pending, None);
    let mut q = session_in_menu();
    q.menu_frame(Some(MenuButtonAction::Quit));
    q.apply_pending(0);
    assert_eq!(q.mode, GameMode::Quit);
    q.request_transition(GameMode::Menu);
    assert_eq!(q.pending, None);
}

#[test]
fn entering_gameplay_spawns_the_character_and_the_map() {
    let s = session_in_game(7);
    assert_eq!(s.character, Some(CharacterState { vx: 0, vy: 0 }));
    assert!(s.entities.iter().all(|e| e.tag == GameMode::SingleplayerGame));
    assert!(matches!(s.entities[0].item, SceneItem::CharacterBody));
    let ground_tiles = s
        .entities
        .iter()
        .filter(|e| match &e.item {
            SceneItem::PlacedTile(t) => t.y == -200 && t.kind == TileKind::Ground,
            _ => false,
        })
        .count();
    assert_eq!(ground_tiles, 100);
    let background_tiles = s
        .entities
        .iter()
        .filter(|e| match &e.item {
            SceneItem::PlacedTile(t) => t.kind == TileKind::Background,
            _ => false,
        })
        .count();
    assert_eq!(background_tiles, 2000);
}

#[test]
fn leaving_gameplay_destroys_every_gameplay_entity() {
    let mut s = session_in_game(11);
    s.request_transition(GameMode::Menu);
    s.apply_pending(0);
    assert_eq!(s.mode, GameMode::Menu);
    assert!(s.entities.iter().all(|e| e.tag != GameMode::SingleplayerGame));
    assert_eq!(s.character, None);
}

#[test]
fn the_controller_never_blends_velocities() {
    let mut s = session_in_game(3);
    s.game_frame(false, false);
    assert_eq!(s.character.unwrap().vx, 0);
    s.game_frame(false, true);
    assert_eq!(s.character.unwrap().vx, CHARACTER_SPEED);
    s.game_frame(true, false);
    assert_eq!(s.character.unwrap().vx, -CHARACTER_SPEED);
    s.game_frame(true, true);
    assert_eq!(s.character.unwrap().vx, -CHARACTER_SPEED);
    s.game_frame(false, false);
    assert_eq!(s.character.unwrap().vx, -CHARACTER_SPEED);
}

#[test]
fn steering_touches_only_the_horizontal_component() {
    let mut c = CharacterState { vx: 7, vy: -3 };
    steer(&mut c, false, false);
    assert_eq!(c, CharacterState { vx: 7, vy: -3 });
    steer(&mut c, false, true);
    assert_eq!(c, CharacterState { vx: 100, vy: -3 });
    steer(&mut c, true, false);
    assert_eq!(c, CharacterState { vx: -100, vy: -3 });
    steer(&mut c, true, true);
    assert_eq!(c, CharacterState { vx: -100, vy: -3 });
}

#[test]
fn the_overlay_fades_linearly() {
    assert_eq!(overlay_alpha_millis(0), 1000);
    assert_eq!(overlay_alpha_millis(2500), 950);
    assert_eq!(overlay_alpha_millis(25000), 500);
    assert_eq!(overlay_alpha_millis(49999), 1);
    assert_eq!(overlay_alpha_millis(50000), 0);
    assert_eq!(overlay_alpha_millis(u64::MAX), 0);
}

#[test]
fn ticks_apply_transitions_before_the_frame_step() {
    let mut s = Session::new();
    s.tick(500, idle(), 0);
    assert_eq!(s.mode, GameMode::Intro);
    assert_eq!(s.pending, None);
    s.tick(2500, idle(), 0);
    assert_eq!(s.mode, GameMode::Intro);
    assert_eq!(s.pending, Some(GameMode::Menu));
    s.tick(2600, idle(), 0);
    assert_eq!(s.mode, GameMode::Menu);
    let press = FrameInput {
        left: false,
        right: false,
        pressed: Some(MenuButtonAction::StartSinglePlayerGame),
    };
    s.tick(2700, press, 0);
    assert_eq!(s.pending, Some(GameMode::SingleplayerGame));
    let run_right = FrameInput { left: false, right: true, pressed: None };
    s.tick(2800, run_right, 99);
    assert_eq!(s.mode, GameMode::SingleplayerGame);
    assert_eq!(s.character.unwrap().vx, 100);
}
