use squaretap::dice::Dice;
use squaretap::game::{Game, GameState, MenuSelect};
use squaretap::pattern::FrameInput;
use squaretap::settings::{color_from_channels, GameSettings, Rgba};

fn idle(now_us: u64) -> FrameInput {
    FrameInput {
        key_up: false,
        key_down: false,
        key_enter: false,
        key_escape: false,
        key_r: false,
        key_tab: false,
        key_g: false,
        key_page_up: false,
        key_page_down: false,
        mouse_left: false,
        mouse_x: 0,
        mouse_y: 0,
        screen_w: 4000,
        screen_h: 4000,
        frame_us: 16_000,
        now_us,
    }
}

#[test]
fn menu_moves_and_clamps() {
    let mut g = Game::new(Dice::seeded(1));
    g.update(&FrameInput { key_up: true, ..idle(0) });
    assert_eq!(g.menu_selected, MenuSelect::Run);
    for _ in 0..5 {
        g.update(&FrameInput { key_down: true, ..idle(0) });
    }
    assert_eq!(g.menu_selected, MenuSelect::Close);
    g.update(&FrameInput { key_up: true, ..idle(0) });
    assert_eq!(g.menu_selected, MenuSelect::Settings);
    assert_eq!(g.state, GameState::Menu);
}

#[test]
fn menu_opens_screens() {
    let mut g = Game::new(Dice::seeded(1));
    g.update(&FrameInput { key_down: true, ..idle(0) });
    g.update(&FrameInput { key_enter: true, ..idle(0) });
    assert_eq!(g.state, GameState::Highscore);
    g.update(&FrameInput { key_escape: true, ..idle(0) });
    assert_eq!(g.state, GameState::Menu);
    g.update(&FrameInput { key_down: true, ..idle(0) });
    g.update(&FrameInput { key_enter: true, ..idle(0) });
    assert_eq!(g.state, GameState::Settings);
    g.update(&FrameInput { key_escape: true, ..idle(0) });
    g.update(&FrameInput { key_down: true, ..idle(0) });
    g.update(&FrameInput { key_enter: true, ..idle(0) });
    assert_eq!(g.state, GameState::Closing);
    g.update(&FrameInput { key_escape: true, key_enter: true, ..idle(0) });
    assert_eq!(g.state, GameState::Closing);
}

#[test]
fn start_begins_round_and_escape_leaves() {
    let mut g = Game::new(Dice::seeded(1));
    g.update(&FrameInput { key_enter: true, ..idle(5_000_000) });
    assert_eq!(g.state, GameState::Running);
    assert_eq!(g.pattern.last_time_clicked, 5_000_000);
    assert_eq!(g.pattern.time, 30_000_000);
    g.update(&FrameInput { key_escape: true, ..idle(5_016_000) });
    assert_eq!(g.state, GameState::Menu);
}

#[test]
fn timeout_leaves_table_unchanged() {
    let mut g = Game::new(Dice::seeded(1));
    g.update(&FrameInput { key_enter: true, ..idle(0) });
    let mut now = 0;
    for _ in 0..31 {
        now += 1_000_000;
        g.update(&FrameInput { frame_us: 1_000_000, ..idle(now) });
    }
    g.update(&FrameInput { frame_us: 1_000, ..idle(now + 1_000) });
    assert!(g.pattern.done);
    assert_eq!(g.pattern.time, 0);
    assert_eq!(g.highscore.scores(), [0; 9]);
}

#[test]
fn finished_round_enters_table_once() {
    let mut g = Game::new(Dice::scripted(1, vec![0, 0, 0, 0, 0, 0, 0, 0, 0, 0]));
    g.update(&FrameInput { key_enter: true, ..idle(0) });
    let filled: Vec<usize> = (0..16).filter(|&i| g.pattern.grid.is_filled(i)).collect();
    assert_eq!(filled.len(), 3);
    let c = filled[0] as i64;
    let (x, y) = (1500 + (c % 4) * 250 + 10, 1500 + (c / 4) * 250 + 10);
    g.update(&FrameInput { mouse_left: true, mouse_x: x, mouse_y: y, ..idle(1_000_000) });
    assert_eq!(g.pattern.score, 1);
    let empty = (0..16).find(|&i| !g.pattern.grid.is_filled(i)).unwrap() as i64;
    let (x, y) = (1500 + (empty % 4) * 250 + 10, 1500 + (empty / 4) * 250 + 10);
    g.update(&FrameInput { mouse_left: true, mouse_x: x, mouse_y: y, ..idle(2_000_000) });
    assert!(g.pattern.done);
    assert_eq!(g.highscore.scores(), [1, 0, 0, 0, 0, 0, 0, 0, 0]);
    g.update(&idle(3_000_000));
    assert_eq!(g.highscore.scores(), [1, 0, 0, 0, 0, 0, 0, 0, 0]);
}

#[test]
fn settings_defaults() {
    let s = GameSettings::defaults();
    assert_eq!(s.filled_color, Rgba { r: 45, g: 55, b: 65, a: 255 });
    assert_eq!(s.empty_color, Rgba { r: 40, g: 130, b: 115, a: 255 });
    assert_eq!(s.border_color, Rgba { r: 255, g: 255, b: 255, a: 255 });
    assert_eq!(s.scale, 100);
}

#[test]
fn colors_from_channels() {
    assert_eq!(color_from_channels(&vec![1, 2, 3, 4]), Some(Rgba { r: 1, g: 2, b: 3, a: 4 }));
    assert_eq!(color_from_channels(&vec![1, 2, 3]), None);
    assert_eq!(color_from_channels(&vec![1, 2, 3, 4, 5]), None);
    assert_eq!(color_from_channels(&vec![1, 256, 3, 4]), None);
    assert_eq!(color_from_channels(&vec![1, 2, -1, 4]), None);
}

#[test]
fn options_from_file_values() {
    let c = vec![10, 20, 30, 255];
    let o = GameSettings::from_options(&c, &c, &c, &c, &c, 125).unwrap();
    assert_eq!(o.filled_color, Rgba { r: 10, g: 20, b: 30, a: 255 });
    assert_eq!(o.scale, 125);
    assert_eq!(GameSettings::from_options(&c, &c, &c, &c, &c, 900).unwrap().scale, 300);
    assert_eq!(GameSettings::from_options(&c, &c, &c, &c, &c, 10).unwrap().scale, 50);
    assert!(GameSettings::from_options(&c, &c, &vec![1], &c, &c, 100).is_none());
}

#[test]
fn applied_settings_set_scale() {
    let mut g = Game::new(Dice::seeded(1));
    let c = vec![10, 20, 30, 255];
    g.apply_settings(&GameSettings::from_options(&c, &c, &c, &c, &c, 200).unwrap());
    assert_eq!(g.pattern.scale, 200);
}

#[test]
fn new_game_round_is_fresh() {
    let g = Game::new(Dice::scripted(2, vec![0, 4, 8]));
    assert_eq!(g.state, GameState::Menu);
    assert_eq!(g.menu_selected, MenuSelect::Run);
    assert_eq!(g.pattern.score, 0);
    assert_eq!(g.pattern.time, 30_000_000);
    assert_eq!(g.pattern.scale, 100);
    assert!(!g.pattern.done);
    assert!(g.pattern.display_info && g.pattern.display_grid);
    let filled: Vec<usize> = (0..16).filter(|&i| g.pattern.grid.is_filled(i)).collect();
    assert_eq!(filled, vec![0, 5, 10]);
}

#[test]
fn timeout_keeps_restored_table() {
    let mut g = Game::new(Dice::seeded(3));
    let mut t = squaretap::highscore::Highscore::new();
    t.add_score(9);
    t.add_score(7);
    g.restore_scores(t);
    g.update(&FrameInput { key_enter: true, ..idle(0) });
    let mut now = 0;
    for _ in 0..3_001 {
        now += 10_000;
        g.update(&FrameInput { frame_us: 10_000, ..idle(now) });
    }
    assert_eq!(g.state, GameState::Running);
    assert!(g.pattern.done);
    assert_eq!(g.pattern.time, 0);
    assert_eq!(g.pattern.score, 0);
    assert_eq!(g.highscore.scores(), [9, 7, 0, 0, 0, 0, 0, 0, 0]);
}
