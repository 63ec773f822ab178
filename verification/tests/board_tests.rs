use snake::board::{Board, Grid};
use snake::board_controller::BoardController;
use snake::config::{Board as BoardSettings, Config, Game, GlobalConfig};
use snake::food::Food;
use snake::game_mode::GameMode;
use snake::portal::Gate;
use snake::score::Score;
use snake::snake::Point;

fn make_config(block_size: u32, board_block_length: u32, level: u32, mode: &str) -> GlobalConfig {
    GlobalConfig::new(Config {
        board: BoardSettings { board_block_length, block_size },
        game: Game { mode: String::from(mode), wall: String::from("solid"), level },
    })
}

#[test]
fn grid_enumerates_the_interior() {
    let g = Grid::new(1200, 60);
    // 20 cells per side leave a 19 x 19 interior.
    assert_eq!(g.list.len(), 19 * 19);
    assert!(g.list.contains(&(1, 1)));
    assert!(g.list.contains(&(19, 19)));
    assert!(g.list.contains(&(7, 12)));
    assert!(!g.list.contains(&(0, 5)));
    assert!(!g.list.contains(&(20, 5)));
    assert!(!g.list.contains(&(5, 0)));
}

#[test]
fn grid_of_a_tiny_board_is_empty() {
    let g = Grid::new(60, 60);
    assert_eq!(g.list.len(), 0);
}

#[test]
fn remove_occupied_filters_body_food_and_gates() {
    let g = Grid::new(1200, 60);
    let scale = 600i64;
    // A body point covers a cell only when it sits exactly on it.
    let body = vec![
        Point { x: 3 * scale, y: 3 * scale },
        Point { x: 3 * scale - 300, y: 3 * scale },
        Point { x: 4 * scale, y: 9 * scale },
    ];
    let food = Food { x: 15, y: 15, exists: true };
    let gates = Some(vec![Some(Gate { x: 9, y: 9, used: false }), None]);
    let free = g.remove_occupied_positions(&body, &food, gates, scale);
    assert!(!free.list.contains(&(3, 3)));
    assert!(!free.list.contains(&(4, 9)));
    assert!(!free.list.contains(&(15, 15)));
    assert!(!free.list.contains(&(9, 9)));
    // The mid-transit body point at x = 2.5 covers no cell.
    assert!(free.list.contains(&(2, 3)));
    assert!(free.list.contains(&(3, 4)));
    assert_eq!(free.list.len(), 19 * 19 - 4);
}

#[test]
fn random_position_comes_from_the_grid() {
    // On a single-cell grid the draw has exactly one admissible answer; a
    // draw that handed back anything else (say, the list length) would fail.
    let g = Grid { list: vec![(7, 11)] };
    for _ in 0..10 {
        assert_eq!(g.get_random_position(), (7, 11));
    }
    let g2 = Grid::new(1200, 60);
    for _ in 0..50 {
        let c = g2.get_random_position();
        assert!(g2.list.contains(&c));
    }
}

#[test]
fn fresh_board_layout() {
    let cfg = make_config(60, 20, 10, "default");
    let game_mode = GameMode::new(&cfg);
    let b = Board::new(cfg, game_mode);
    assert_eq!(b.snake.body.len(), 2);
    assert_eq!((b.snake.body[0].x, b.snake.body[0].y), (4 * 600, 4 * 600));
    assert_eq!((b.snake.body[1].x, b.snake.body[1].y), (4 * 600 - 600, 4 * 600));
    assert_eq!((b.food.x, b.food.y, b.food.exists), (15, 15, true));
    assert!(b.next_food.is_none());
    assert!(b.portal.is_none());
    assert_eq!(b.grid.list.len(), 19 * 19);
}

#[test]
fn fresh_board_sub_cell_body() {
    // A quarter-cell move distance lays out round(2 / 0.25) = 8 trailing
    // points, one step apart.
    let cfg = make_config(15, 20, 10, "default");
    let game_mode = GameMode::new(&cfg);
    let b = Board::new(cfg, game_mode);
    assert_eq!(b.snake.frame_handler.get_move_distance(), 150);
    assert_eq!(b.snake.body.len(), 8);
    for (i, p) in b.snake.body.iter().enumerate() {
        assert_eq!((p.x, p.y), (4 * 600 - (i as i64) * 150, 4 * 600));
    }
}

#[test]
fn eating_replaces_food_and_scores() {
    let cfg = make_config(60, 20, 10, "default");
    let game_mode = GameMode::new(&cfg);
    let mut board = Board::new(cfg, game_mode);
    // Put the food directly ahead of the head.
    board.food = Food { x: 5, y: 4, exists: true };
    let mut c = BoardController::new(board, Score::new());
    c.advance(1_000_000_000 / 60);
    assert_eq!(c.score.current.count, 1);
    assert_eq!(c.score.best.count, 1);
    assert!(c.board.snake.body.len() == 3);
    // The replacement food is active, on the interior, and off the body.
    let f = c.board.food;
    assert!(f.exists);
    assert!(1 <= f.x && f.x <= 19 && 1 <= f.y && f.y <= 19);
    for p in c.board.snake.body.iter() {
        assert!((p.x, p.y) != (f.x * 600, f.y * 600));
    }
}
