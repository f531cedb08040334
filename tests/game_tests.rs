use tetris_core::{ActiveFigure, Block, FigureType, Game, Point, Size};

fn draw_to_cartesian(draw: Vec<Block>) -> Vec<Point> {
    draw.iter().map(|block| block.position()).collect()
}

fn get_game() -> Game {
    Game::new(Size { height: 40, width: 20 })
}

#[test]
fn test_active_figure_is_draw() {
    let game = get_game();
    let active_points = game.active().to_cartesian();
    let drawed_points = draw_to_cartesian(game.draw());
    assert_eq!(drawed_points, active_points);
}

#[test]
fn test_active_figure_moves_down() {
    let mut game = get_game();
    let first_position = game.active().to_cartesian();
    let expected: Vec<Point> = first_position
        .iter()
        .map(|point| Point { x: point.x, y: point.y + 1 })
        .collect();
    game.move_down();
    let drawed_points = draw_to_cartesian(game.draw());
    assert_eq!(drawed_points, expected);
}

#[test]
fn test_active_figure_does_not_move_lower_than_floor() {
    let mut game = get_game();
    let y = game.board().height() as i32 - 3;
    game.set_active(ActiveFigure::new(FigureType::O, Point { x: 10, y }));
    game.move_down();
    game.move_down();
    game.move_down();
    game.move_down();
    assert!(game.is_at_the_bottom());
}

#[test]
fn test_rotate_active_figure() {
    let mut game = get_game();
    let rotated = game.active().rotated();
    game.rotate();
    let drawed_points = draw_to_cartesian(game.draw());
    assert_eq!(drawed_points, rotated.to_cartesian());
}

#[test]
fn test_active_figure_is_at_the_bottom() {
    let mut game = Game::new(Size { height: 4, width: 20 });
    game.move_down();
    assert!(!game.is_at_the_bottom());
    game.move_down();
    assert!(game.is_at_the_bottom());
}

#[test]
fn test_will_colide_with_block() {
    let mut game = Game::new(Size { height: 4, width: 4 });
    let board = game
        .board()
        .replacing_figure_at_xy(0, 3, Some(FigureType::T))
        .replacing_figure_at_xy(1, 3, Some(FigureType::T))
        .replacing_figure_at_xy(2, 3, Some(FigureType::T))
        .replacing_figure_at_xy(3, 3, Some(FigureType::T));
    game.set_board(board);

    let colider = ActiveFigure::new(FigureType::I, Point { x: 0, y: 0 });
    let rotated = colider.rotated();

    assert!(!game.will_colide_with_block(game.active()));
    assert!(game.will_colide_with_block(&rotated));
}

#[test]
fn test_move_left() {
    let mut game = get_game();
    game.set_active(ActiveFigure::new(FigureType::L, Point { x: 10, y: 0 }));
    assert_eq!(game.active().left_edge(), 10);
    game.move_left();
    assert_eq!(game.active().left_edge(), 9);
}

#[test]
fn test_move_left_does_not_go_beyond_zero() {
    let mut game = get_game();
    game.set_active(ActiveFigure::new(FigureType::L, Point { x: 2, y: 0 }).rotated());
    assert_eq!(game.active().left_edge(), 3);
    game.move_left();
    game.move_left();
    game.move_left();
    game.move_left();
    assert_eq!(game.active().left_edge(), 0);
}

#[test]
fn test_move_right() {
    let mut game = get_game();
    game.set_active(ActiveFigure::new(FigureType::L, Point { x: 0, y: 0 }));
    game.move_right();
    assert_eq!(game.active().position(), Point { x: 1, y: 0 });
}

#[test]
fn test_move_right_does_not_go_beyond_board_edge() {
    let mut game = get_game();
    game.set_active(ActiveFigure::new(FigureType::I, Point { x: 16, y: 0 }).rotated());
    assert_eq!(game.active().left_edge(), 18);
    game.move_right();
    game.move_right();
    assert_eq!(game.active().right_edge(), 19);
}

#[test]
fn test_add_active_figure_to_board() {
    let mut game = get_game();
    assert!(game.draw_board().is_empty());
    game.add_active_figure_to_board();
    assert_eq!(game.draw_board().len(), 4);
}

#[test]
fn test_active_figure_is_added_when_it_touches_the_floor() {
    let mut game = Game::new(Size { height: 4, width: 10 });
    assert_eq!(game.active().position().y, 0);
    assert!(game.draw_board().is_empty());
    game.update(10_000);
    game.update(10_000);
    game.update(10_000);

    assert_eq!(game.active().position().y, 0);
    assert_eq!(game.draw_board().len(), 4);
}

#[test]
fn test_active_figure_is_added_when_touches_block() {
    let mut game = Game::new(Size { height: 7, width: 10 });
    game.set_active(ActiveFigure::new(FigureType::T, Point { x: 0, y: 5 }));
    game.update(10_000);
    assert_eq!(game.draw_board().len(), 4);

    game.update(10_000);
    game.update(10_000);
    game.update(10_000);
    game.update(10_000);

    assert_eq!(game.active().position().y, 0);
    assert_eq!(game.draw_board().len(), 8);
}

#[test]
fn extra_move_down_at_the_bottom_is_a_no_op() {
    let mut game = Game::new(Size { height: 4, width: 20 });
    assert_eq!(game.active().position(), Point { x: 0, y: 0 });
    while !game.is_at_the_bottom() {
        game.move_down();
    }
    let anchor = game.active().position();
    assert_eq!(anchor, Point { x: 0, y: 2 });
    game.move_down();
    assert_eq!(game.active().position(), anchor);
}

#[test]
fn moves_at_the_walls_are_no_ops() {
    let mut game = Game::new(Size { height: 10, width: 6 });
    assert_eq!(game.active().left_edge(), 0);
    game.move_left();
    assert_eq!(game.active().left_edge(), 0);
    game.set_active(ActiveFigure::new(FigureType::T, Point { x: 3, y: 0 }));
    assert_eq!(game.active().right_edge(), 5);
    game.move_right();
    assert_eq!(game.active().right_edge(), 5);
}

#[test]
fn clearing_one_line_scores_one_hundred() {
    let mut game = Game::new(Size { height: 4, width: 4 });
    game.set_active(ActiveFigure::new(FigureType::I, Point { x: 0, y: 2 }));
    assert_eq!(game.points(), 0);
    game.update(300);
    assert_eq!(game.points(), 100);
    assert!(game.draw_board().is_empty());
    assert_eq!(game.active().get_type(), FigureType::I);
    assert_eq!(game.active().position(), Point { x: 0, y: 0 });
}

#[test]
fn locking_without_a_full_line_scores_nothing() {
    let mut game = Game::new(Size { height: 4, width: 4 });
    game.set_active(ActiveFigure::new(FigureType::T, Point { x: 0, y: 2 }));
    game.update(300);
    assert_eq!(game.points(), 0);
    assert_eq!(game.draw_board().len(), 4);
}

#[test]
fn clearing_two_lines_scores_two_hundred_and_compacts() {
    let mut game = Game::new(Size { height: 5, width: 4 });
    let mut board = game.board().replacing_figure_at_xy(1, 2, Some(FigureType::O));
    for x in 0..2 {
        board = board.replacing_figure_at_xy(x, 3, Some(FigureType::Z));
        board = board.replacing_figure_at_xy(x, 4, Some(FigureType::Z));
    }
    game.set_board(board);
    game.set_active(ActiveFigure::new(FigureType::O, Point { x: 2, y: 3 }));
    game.update(201);
    assert_eq!(game.points(), 200);
    let blocks = game.draw_board();
    assert_eq!(blocks.len(), 1);
    assert_eq!(blocks[0].position(), Point { x: 1, y: 4 });
    assert_eq!(blocks[0].color, FigureType::O.color());
}

#[test]
fn gravity_waits_for_the_moving_period() {
    let mut game = Game::new(Size { height: 10, width: 10 });
    game.update(150);
    assert_eq!(game.active().position(), Point { x: 0, y: 0 });
    game.update(50);
    assert_eq!(game.active().position(), Point { x: 0, y: 0 });
    game.update(1);
    assert_eq!(game.active().position(), Point { x: 0, y: 1 });
    game.update(200);
    assert_eq!(game.active().position(), Point { x: 0, y: 1 });
}

#[test]
fn rotation_near_a_wall_is_kicked_inward() {
    let mut game = Game::new(Size { height: 10, width: 6 });
    game.set_active(ActiveFigure::new(FigureType::I, Point { x: 3, y: 0 }).rotated());
    assert_eq!(game.active().left_edge(), 5);
    game.rotate();
    assert_eq!(game.active().position(), Point { x: 2, y: 0 });
    assert_eq!(game.active().right_edge(), 5);
}

#[test]
fn next_figure_can_be_chosen() {
    let mut game = Game::new(Size { height: 4, width: 10 });
    game.set_next_figure(FigureType::O);
    game.update(1_000);
    game.update(1_000);
    game.update(1_000);
    assert_eq!(game.active().get_type(), FigureType::O);
    assert_eq!(game.active().position(), Point { x: 0, y: 0 });
}

#[test]
fn draw_puts_the_active_figure_last() {
    let mut game = Game::new(Size { height: 4, width: 10 });
    game.add_active_figure_to_board();
    let blocks = game.draw();
    assert_eq!(blocks.len(), 8);
    assert_eq!(blocks[0].position(), Point { x: 1, y: 0 });
    assert_eq!(blocks[4].position(), Point { x: 1, y: 0 });
    assert_eq!(blocks[7].size().width, 1);
    assert_eq!(blocks[7].color, FigureType::T.color());
}

#[test]
fn game_is_over_when_the_next_piece_cannot_spawn() {
    let mut game = Game::new(Size { height: 4, width: 4 });
    assert!(!game.is_game_over());
    let board = game.board().replacing_figure_at_xy(3, 1, Some(FigureType::S));
    game.set_board(board);
    assert!(game.is_game_over());
    game.set_next_figure(FigureType::O);
    assert!(!game.is_game_over());
}

#[test]
fn a_board_too_small_for_the_piece_keeps_working() {
    let mut game = Game::new(Size { height: 1, width: 2 });
    assert_eq!(game.board().width(), 2);
    game.update(1_000);
    assert_eq!(game.draw_board().len(), 1);
    assert_eq!(game.draw_board()[0].position(), Point { x: 1, y: 0 });
    assert_eq!(game.active().get_type(), FigureType::T);
    assert!(game.is_game_over());
    game.move_left();
    game.rotate();
    game.update(1_000);
    assert_eq!(game.draw_board().len(), 1);
}

#[test]
fn a_game_without_rows_never_locks_anything() {
    let mut game = Game::new(Size { height: 0, width: 6 });
    game.update(1_000);
    game.move_down();
    assert!(game.draw_board().is_empty());
    assert_eq!(game.points(), 0);
}
