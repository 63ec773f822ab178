use snake::board::Board;
use snake::board_controller::BoardController;
use snake::config::{Board as BoardSettings, Config, Game, GlobalConfig};
use snake::game_mode::{GameMode, Mode, Wall};
use snake::portal::{choose_second_gate, Gate, Portal};
use snake::score::Score;
use snake::snake::{Direction, FrameHandler, Point, Snake};

fn make_config(mode: &str) -> GlobalConfig {
    GlobalConfig::new(Config {
        board: BoardSettings { board_block_length: 20, block_size: 60 },
        game: Game { mode: String::from(mode), wall: String::from("solid"), level: 10 },
    })
}

fn make_snake(cfg: &GlobalConfig, body_cells: &[(i64, i64)]) -> Snake {
    let frame_handler = FrameHandler::new(cfg.computed_config);
    let scale = frame_handler.scale() as i64;
    let body: Vec<Point> =
        body_cells.iter().map(|&(x, y)| Point { x: x * scale, y: y * scale }).collect();
    Snake {
        body,
        direction: Direction::Right,
        request_direction: Direction::Right,
        request_position: None,
        just_eat: false,
        next_head: None,
        frame_handler,
        blocks_to_add: 0,
        middle_block_passed: false,
        game_mode: GameMode { mode: Mode::Portal, wall: Wall::Solid },
        jump: None,
    }
}

#[test]
fn second_gate_takes_first_separated_candidate() {
    // Separation is the drop in taxicab norm from the first gate; the first
    // candidate reaching the minimum wins.
    let first = (15, 10);
    assert_eq!(choose_second_gate(first, (10, 5), (1, 1), (9, 9), 10), (10, 5));
    assert_eq!(choose_second_gate(first, (10, 6), (10, 5), (9, 9), 10), (10, 5));
}

#[test]
fn second_gate_falls_back_to_third_candidate() {
    // When all three draws fail the separation test, the third is accepted
    // unconditionally: generation terminates with two gates regardless.
    let first = (3, 3);
    assert_eq!(choose_second_gate(first, (10, 10), (6, 6), (12, 13), 4), (12, 13));
}

#[test]
fn portal_generates_two_unused_gates_on_free_cells() {
    let cfg = make_config("portal");
    let game_mode = GameMode::new(&cfg);
    assert!(game_mode.mode == Mode::Portal);
    let board = Board::new(cfg, game_mode);
    let p = Portal::new(&board);
    assert_eq!(p.gates.len(), 2);
    assert!(!p.gates[0].used && !p.gates[1].used);
    assert!((p.gates[0].x, p.gates[0].y) != (p.gates[1].x, p.gates[1].y));
    for g in p.gates.iter() {
        assert!(1 <= g.x && g.x <= 19 && 1 <= g.y && g.y <= 19);
        assert!((g.x, g.y) != (board.food.x, board.food.y));
        for b in board.snake.body.iter() {
            assert!((b.x, b.y) != (g.x * 600, g.y * 600));
        }
    }
    assert_eq!(p.next, Some(0));
}

#[test]
fn controller_arms_portal_in_portal_mode() {
    let cfg = make_config("portal");
    let game_mode = GameMode::new(&cfg);
    let board = Board::new(cfg, game_mode);
    let c = BoardController::new(board, Score::new());
    let p = c.board.portal.as_ref().expect("portal mode arms a gate pair");
    assert_eq!(p.gates.len(), 2);
}

#[test]
fn take_gate_marks_only_first_unused_hit() {
    let cfg = make_config("portal");
    let scale = 600i64;
    let mut s = make_snake(&cfg, &[(6, 4), (5, 4)]);
    let mut portal = Portal {
        gates: vec![Gate { x: 7, y: 4, used: false }, Gate { x: 12, y: 12, used: false }],
        next: Some(0),
    };
    s.next_head = Some(Point { x: 7 * scale, y: 4 * scale });
    assert!(s.next_move_take_gate(&mut portal));
    assert!(portal.gates[0].used);
    assert!(!portal.gates[1].used);
    // A used gate cannot re-trigger.
    assert!(!s.next_move_take_gate(&mut portal));
    assert!(portal.gates[0].used);
}

#[test]
fn take_gate_misses_when_no_gate_there() {
    let cfg = make_config("portal");
    let scale = 600i64;
    let mut s = make_snake(&cfg, &[(6, 4), (5, 4)]);
    let mut portal = Portal {
        gates: vec![Gate { x: 9, y: 9, used: false }, Gate { x: 12, y: 12, used: false }],
        next: Some(0),
    };
    s.next_head = Some(Point { x: 7 * scale, y: 4 * scale });
    assert!(!s.next_move_take_gate(&mut portal));
    assert!(!portal.gates[0].used && !portal.gates[1].used);
}

#[test]
fn teleport_and_jump_resolution() {
    let cfg = make_config("portal");
    let scale = 600i64;
    let mut s = make_snake(&cfg, &[(6, 4), (5, 4)]);
    let mut portal = Portal {
        gates: vec![Gate { x: 7, y: 4, used: false }, Gate { x: 12, y: 12, used: false }],
        next: Some(0),
    };
    s.next_head = Some(Point { x: 7 * scale, y: 4 * scale });
    assert!(s.next_move_take_gate(&mut portal));
    assert!(portal.has_unused());
    // The destination is the remaining unused gate.
    s.teleport(&portal);
    let j = s.jump.expect("teleport arms the in-flight record");
    assert!(j.is_jumping);
    assert_eq!(j.gate_head.map(|p| (p.x, p.y)), Some((12 * scale, 12 * scale)));
    assert_eq!(j.gate_end_position, Some((12 * scale, 12 * scale)));
    // The next tick relocates the head to the destination and consumes the
    // pending record; nothing else moves that tick.
    let len_before = s.body.len();
    s.update(1_000_000_000 / 60);
    assert_eq!((s.body[0].x, s.body[0].y), (12 * scale, 12 * scale));
    assert_eq!(s.body.len(), len_before + 1);
    let j2 = s.jump.expect("the record stays until the tail catches up");
    assert!(j2.gate_head.is_none());
    assert!(j2.is_jumping);
    // The tail has not reached the destination yet.
    assert!(s.in_gate());
}

#[test]
fn portal_is_used_counts_used_gates() {
    let p = Portal {
        gates: vec![Gate { x: 7, y: 4, used: false }, Gate { x: 12, y: 12, used: false }],
        next: Some(0),
    };
    let used = Portal {
        gates: vec![Gate { x: 7, y: 4, used: true }, Gate { x: 12, y: 12, used: false }],
        next: Some(0),
    };
    assert!(!p.is_used(Some(p.clone())));
    assert!(p.is_used(Some(used)));
}
