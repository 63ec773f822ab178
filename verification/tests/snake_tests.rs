use snake::board_controller::BoardController;
use snake::config::{Board as BoardSettings, Config, Game, GlobalConfig};
use snake::food::Food;
use snake::game_mode::{GameMode, Mode, Wall};
use snake::score::Score;
use snake::snake::{Direction, FrameHandler, Point, Snake};

fn make_config(block_size: u32, board_block_length: u32, level: u32) -> GlobalConfig {
    GlobalConfig::new(Config {
        board: BoardSettings { board_block_length, block_size },
        game: Game { mode: String::from("default"), wall: String::from("solid"), level },
    })
}

fn make_snake(cfg: &GlobalConfig, wall: Wall, body_cells: &[(i64, i64)]) -> Snake {
    let frame_handler = FrameHandler::new(cfg.computed_config);
    let scale = frame_handler.scale() as i64;
    let body: Vec<Point> =
        body_cells.iter().map(|&(x, y)| Point { x: x * scale, y: y * scale }).collect();
    Snake {
        body,
        direction: Direction::Right,
        request_direction: Direction::Right,
        request_position: None,
        just_eat: false,
        next_head: None,
        frame_handler,
        blocks_to_add: 0,
        middle_block_passed: false,
        game_mode: GameMode { mode: Mode::Default, wall },
        jump: None,
    }
}

fn frame_nanos(cfg: &GlobalConfig) -> u64 {
    1_000_000_000 / cfg.computed_config.fps
}

#[test]
fn opposite_is_involutive() {
    for d in [Direction::Up, Direction::Down, Direction::Left, Direction::Right] {
        assert!(d.opposite().opposite() == d);
        assert!(d.opposite() != d);
    }
}

#[test]
fn discrete_eat_scenario_grows_to_four() {
    // A 20 x 20 board with a move distance of exactly one cell per tick.
    let cfg = make_config(60, 20, 10);
    let scale = 600i64;
    let mut s = make_snake(&cfg, Wall::Solid, &[(6, 4), (5, 4), (4, 4)]);
    assert_eq!(s.frame_handler.get_move_distance(), 600);
    let food = Food { x: 7, y: 4, exists: true };

    let next = s.get_next_point(1200, 60);
    assert_eq!((next.x, next.y), (7 * scale, 4 * scale));
    s.next_head = Some(next);
    assert!(s.next_move_eat(&food));
    s.just_eat = true;
    s.update(frame_nanos(&cfg));
    assert_eq!(s.body.len(), 4);
    assert_eq!((s.body[0].x, s.body[0].y), (7 * scale, 4 * scale));
    assert_eq!(s.blocks_to_add, 0);
}

#[test]
fn solid_wall_step_past_edge_dies() {
    // Head at x = max_distance heading Right: the next head exceeds the
    // edge and the snake is dead.
    let cfg = make_config(60, 20, 10);
    let scale = 600i64;
    let mut s = make_snake(&cfg, Wall::Solid, &[(19, 4)]);
    let next = s.get_next_point(1200, 60);
    assert_eq!((next.x, next.y), (20 * scale, 4 * scale));
    s.next_head = Some(next);
    s.update(frame_nanos(&cfg));
    assert_eq!(s.body[0].x, 20 * scale);
    assert!(s.is_dead(1200, 60));
}

#[test]
fn fluid_wall_step_past_edge_wraps() {
    // Same step with Fluid walls: the head wraps to x = 0, the orthogonal
    // coordinate is unchanged, and the snake is alive.
    let cfg = make_config(60, 20, 10);
    let scale = 600i64;
    let mut s = make_snake(&cfg, Wall::Fluid, &[(19, 4)]);
    let next = s.get_next_point(1200, 60);
    assert_eq!((next.x, next.y), (0, 4 * scale));
    s.next_head = Some(next);
    s.update(frame_nanos(&cfg));
    assert_eq!((s.body[0].x, s.body[0].y), (0, 4 * scale));
    assert!(!s.is_dead(1200, 60));
}

#[test]
fn straight_tick_moves_by_move_distance() {
    // Sub-cell stepping: block 25, level 2 gives 50 sub-units per tick
    // (one twelfth of a cell).
    let cfg = make_config(25, 20, 2);
    let mut s = make_snake(&cfg, Wall::Solid, &[(6, 4), (5, 4), (4, 4)]);
    assert_eq!(s.frame_handler.get_move_distance(), 50);
    let before = s.body[0].x;
    let next = s.get_next_point(500, 25);
    assert_eq!((next.x, next.y), (before + 50, s.body[0].y));
    s.next_head = Some(next);
    s.update(frame_nanos(&cfg));
    assert_eq!(s.body[0].x, before + 50);
    assert_eq!(s.body.len(), 3);
}

#[test]
fn growth_lasts_one_cell_of_sub_steps() {
    // Move distance of half a cell: an eaten food adds ceil(1 / 0.5) = 2
    // sub-steps of growth, so the tail pops again only on the third tick.
    let cfg = make_config(60, 20, 5);
    let mut s = make_snake(&cfg, Wall::Solid, &[(6, 4), (5, 4), (4, 4)]);
    assert_eq!(s.frame_handler.get_move_distance(), 300);
    let ft = frame_nanos(&cfg);

    s.next_head = Some(s.get_next_point(1200, 60));
    s.just_eat = true;
    s.update(ft);
    assert_eq!(s.body.len(), 4);
    assert_eq!(s.blocks_to_add, 1);

    s.next_head = Some(s.get_next_point(1200, 60));
    s.update(ft);
    assert_eq!(s.body.len(), 5);
    assert_eq!(s.blocks_to_add, 0);

    s.next_head = Some(s.get_next_point(1200, 60));
    s.update(ft);
    assert_eq!(s.body.len(), 5);
    assert_eq!(s.blocks_to_add, 0);
}

#[test]
fn reversal_request_is_never_committed() {
    let cfg = make_config(60, 20, 10);
    let mut s = make_snake(&cfg, Wall::Solid, &[(6, 4), (5, 4), (4, 4)]);
    let ft = frame_nanos(&cfg);
    s.request_direction(Some(Direction::Left));
    for _ in 0..8 {
        s.next_head = Some(s.get_next_point(1200, 60));
        s.update(ft);
        assert!(s.direction == Direction::Right);
    }
}

#[test]
fn unrecognized_input_keeps_prior_request() {
    let cfg = make_config(60, 20, 10);
    let mut s = make_snake(&cfg, Wall::Solid, &[(6, 4), (5, 4), (4, 4)]);
    s.request_direction(Some(Direction::Up));
    s.request_direction(None);
    assert!(s.request_direction == Direction::Up);
}

#[test]
fn turn_commits_only_at_cell_boundary() {
    // With a whole-cell move distance every tick sits at a boundary; after
    // one full cell has been traversed the buffered turn commits.
    let cfg = make_config(60, 20, 10);
    let scale = 600i64;
    let mut s = make_snake(&cfg, Wall::Solid, &[(6, 4), (5, 4), (4, 4)]);
    let ft = frame_nanos(&cfg);
    s.request_direction(Some(Direction::Down));
    s.next_head = Some(s.get_next_point(1200, 60));
    s.update(ft);
    // First tick: the anchor arms; the snake still travels right.
    assert!(s.direction == Direction::Right);
    assert_eq!((s.body[0].x, s.body[0].y), (7 * scale, 4 * scale));
    s.next_head = Some(s.get_next_point(1200, 60));
    s.update(ft);
    // A whole cell has passed since the anchor: the turn commits.
    assert!(s.direction == Direction::Down);
    assert_eq!((s.body[0].x, s.body[0].y), (7 * scale, 4 * scale));
    s.next_head = Some(s.get_next_point(1200, 60));
    s.update(ft);
    assert_eq!((s.body[0].x, s.body[0].y), (7 * scale, 5 * scale));
}

#[test]
fn overlap_tail_ignores_straight_line_bodies() {
    // Straight-line travel never reads as a self-collision, here with a
    // fractional move distance and a long body.
    let cfg = make_config(25, 20, 2);
    let step = 50i64;
    let frame_handler = FrameHandler::new(cfg.computed_config);
    let body: Vec<Point> =
        (0..40).map(|i| Point { x: 6 * 600 - i * step, y: 4 * 600 }).collect();
    let s = Snake {
        body,
        direction: Direction::Right,
        request_direction: Direction::Right,
        request_position: None,
        just_eat: false,
        next_head: None,
        frame_handler,
        blocks_to_add: 0,
        middle_block_passed: false,
        game_mode: GameMode { mode: Mode::Default, wall: Wall::Solid },
        jump: None,
    };
    let (hx, hy) = s.head_position();
    assert!(!s.overlap_tail(hx, hy));
    assert!(!s.is_dead(500, 25));
}

#[test]
fn overlap_window_scales_with_move_distance() {
    // With a twelfth of a cell per tick the skip window is
    // ceil((1 / md) / 2) = 6: a coincidence at index 6 is ignored as a
    // near-head segment, one at index 7 is a collision.
    let cfg = make_config(25, 20, 2);
    let mut s = make_snake(
        &cfg,
        Wall::Solid,
        &[(6, 4), (5, 4), (4, 4), (3, 4), (2, 4), (1, 4), (6, 4), (1, 2), (1, 3), (2, 3)],
    );
    let (hx, hy) = s.head_position();
    assert!(!s.overlap_tail(hx, hy));
    s.body[7] = Point { x: hx, y: hy };
    assert!(s.overlap_tail(hx, hy));
}

#[test]
fn overlap_tail_detects_exact_coincidence() {
    let cfg = make_config(60, 20, 10);
    let mut s = make_snake(&cfg, Wall::Solid, &[(6, 4), (5, 4), (4, 4), (4, 5), (5, 5), (6, 5)]);
    // The head's cell also appears beyond the skip window.
    s.body.push(Point { x: 6 * 600, y: 4 * 600 });
    let (hx, hy) = s.head_position();
    assert!(s.overlap_tail(hx, hy));
    assert!(s.is_dead(1200, 60));
}

#[test]
fn accumulator_fires_one_tick_per_frame() {
    // Two half-frames accumulate without a tick; the second crossing fires
    // exactly one tick, never more. A buffered reversal keeps the turn
    // machinery inert so every fired tick is a plain straight advance.
    let cfg = make_config(60, 20, 10);
    let mut s = make_snake(&cfg, Wall::Solid, &[(6, 4), (5, 4), (4, 4)]);
    s.request_direction(Some(Direction::Left));
    let ft = frame_nanos(&cfg);
    let before = s.body[0].x;
    s.next_head = Some(s.get_next_point(1200, 60));
    s.update(ft / 2);
    assert_eq!(s.body[0].x, before);
    s.update(ft / 2 + 1);
    assert_eq!(s.body[0].x, before + 600);
    // A huge delta still advances by exactly one step.
    let before2 = s.body[0].x;
    s.next_head = Some(s.get_next_point(1200, 60));
    s.update(10 * ft);
    assert_eq!(s.body[0].x, before2 + 600);
}

#[test]
fn controller_frame_moves_snake() {
    let cfg = make_config(60, 20, 10);
    let game_mode = GameMode::new(&cfg);
    assert!(game_mode.mode == Mode::Default);
    let board = snake::board::Board::new(cfg, game_mode);
    let mut c = BoardController::new(board, Score::new());
    assert!(c.board.portal.is_none());
    let head0 = c.board.snake.body[0].x;
    c.resolve_death();
    c.advance(1_000_000_000 / 60);
    assert_eq!(c.board.snake.body[0].x, head0 + 600);
    assert_eq!(c.score.current.count, 0);
}

#[test]
fn controller_resets_session_on_death() {
    let cfg = make_config(60, 20, 10);
    let game_mode = GameMode::new(&cfg);
    let board = snake::board::Board::new(cfg, game_mode);
    let mut c = BoardController::new(board, Score::new());
    // Drive the snake off the right edge; Solid walls kill it.
    let mut saw_death = false;
    for _ in 0..100 {
        c.advance(1_000_000_000 / 60);
        if c.board.snake.is_dead(1200, 60) {
            saw_death = true;
            break;
        }
    }
    assert!(saw_death);
    // The reset counts the death and rebuilds the session from scratch.
    c.resolve_death();
    assert_eq!(c.score.death.count, 1);
    assert_eq!(c.score.current.count, 0);
    assert!(!c.board.snake.is_dead(1200, 60));
    assert_eq!(c.board.snake.body[0].x, 4 * 600);
    assert_eq!(c.board.snake.body.len(), 2);
}
