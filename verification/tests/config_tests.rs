use snake::config::{Board as BoardSettings, ComputedConfig, Config, Game, GlobalConfig};
use snake::food::Food;
use snake::game_mode::{GameMode, Mode, Wall};
use snake::score::Score;
use snake::snake::FrameHandler;

fn make_config(mode: &str, wall: &str, level: u32) -> GlobalConfig {
    GlobalConfig::new(Config {
        board: BoardSettings { board_block_length: 20, block_size: 25 },
        game: Game { mode: String::from(mode), wall: String::from(wall), level },
    })
}

#[test]
fn computed_config_derives_the_quantities() {
    let cfg = make_config("default", "solid", 3);
    let cc: ComputedConfig = cfg.computed_config;
    assert_eq!(cc.board_size, 500);
    assert_eq!(cc.block_size, 25);
    assert_eq!(cc.move_delay_num, 3);
    assert_eq!(cc.score_size, 150);
    assert_eq!(cc.fps, 60);
}

#[test]
fn move_distance_formula() {
    // block_size / fps * move_delay cells per tick: 25 / 60 * 0.3 cells is
    // exactly 75 sub-units of the 600-per-cell grid.
    let cfg = make_config("default", "solid", 3);
    let fh = FrameHandler::new(cfg.computed_config);
    assert_eq!(fh.scale(), 600);
    assert_eq!(fh.get_move_distance(), 75);
    assert_eq!(fh.frame_time(), 16_666_666);
}

#[test]
fn game_mode_parses_the_settings_strings() {
    let portal = GameMode::new(&make_config("portal", "fluid", 1));
    assert!(portal.mode == Mode::Portal);
    assert!(portal.wall == Wall::Fluid);
    let plain = GameMode::new(&make_config("default", "solid", 1));
    assert!(plain.mode == Mode::Default);
    assert!(plain.wall == Wall::Solid);
    let odd = GameMode::new(&make_config("arcade", "bouncy", 1));
    assert!(odd.mode == Mode::Default);
    assert!(odd.wall == Wall::Solid);
}

#[test]
fn config_duplicate_copies_every_field() {
    let cfg = make_config("portal", "fluid", 7);
    let copy = cfg.duplicate();
    assert_eq!(copy.computed_config, cfg.computed_config);
    assert_eq!(copy.config.board.block_size, 25);
    assert_eq!(copy.config.board.board_block_length, 20);
    assert_eq!(copy.config.game.mode, "portal");
    assert_eq!(copy.config.game.wall, "fluid");
    assert_eq!(copy.config.game.level, 7);
}

#[test]
fn settings_at_their_upper_bound() {
    let cfg = GlobalConfig::new(Config {
        board: BoardSettings { board_block_length: 4096, block_size: 4096 },
        game: Game { mode: String::from("default"), wall: String::from("solid"), level: 4096 },
    });
    assert_eq!(cfg.computed_config.board_size, 4096 * 4096);
    assert_eq!(cfg.computed_config.move_delay_num, 4096);
    let fh = FrameHandler::new(cfg.computed_config);
    assert_eq!(fh.get_move_distance(), 4096 * 4096);
}

#[test]
fn seed_food_is_active_at_its_cell() {
    let f = Food::new();
    assert_eq!((f.x, f.y, f.exists), (15, 15, true));
}

#[test]
fn score_tracks_current_best_and_deaths() {
    let mut s = Score::new();
    assert_eq!(s.title, "Scores");
    assert_eq!(
        (s.current.count, s.best.count, s.death.count),
        (0, 0, 0)
    );
    assert_eq!((s.current.title.as_str(), s.best.title.as_str()), ("current", "best"));
    assert_eq!(s.death.title, "death");
    s.update_score();
    s.update_score();
    assert_eq!((s.current.count, s.best.count), (2, 2));
    s.reset();
    assert_eq!((s.current.count, s.best.count, s.death.count), (0, 2, 1));
    s.update_score();
    assert_eq!((s.current.count, s.best.count), (1, 2));
}
