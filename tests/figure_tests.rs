use tetris_core::{Figure, FigureType, Matrix, Point};

fn matrix(data: Vec<Vec<u8>>) -> Matrix<u8> {
    Matrix::new(data)
}

fn four_rotations(figure_type: FigureType) -> (Figure, Figure, Figure, Figure, Figure) {
    let figure = Figure::new(figure_type);
    let first_rotation = figure.rotated();
    let second_rotation = first_rotation.rotated();
    let third_rotation = second_rotation.rotated();
    let full_loop_rotation = third_rotation.rotated();
    (figure, first_rotation, second_rotation, third_rotation, full_loop_rotation)
}

#[test]
#[allow(non_snake_case)]
fn test_T_figure_rotation() {
    let (_, first_rotation, second_rotation, third_rotation, full_loop_rotation) =
        four_rotations(FigureType::T);
    assert_eq!(first_rotation.matrix(), &matrix(vec![vec![0, 1, 0], vec![0, 1, 1], vec![0, 1, 0]]));
    assert_eq!(second_rotation.matrix(), &matrix(vec![vec![0, 0, 0], vec![1, 1, 1], vec![0, 1, 0]]));
    assert_eq!(third_rotation.matrix(), &matrix(vec![vec![0, 1, 0], vec![1, 1, 0], vec![0, 1, 0]]));
    assert_eq!(full_loop_rotation.matrix(), &matrix(vec![vec![0, 1, 0], vec![1, 1, 1], vec![0, 0, 0]]));
}

#[test]
#[allow(non_snake_case)]
fn test_I_figure_rotation() {
    let (_, first_rotation, second_rotation, third_rotation, full_loop_rotation) =
        four_rotations(FigureType::I);
    assert_eq!(
        first_rotation.matrix(),
        &matrix(vec![vec![0, 0, 1, 0], vec![0, 0, 1, 0], vec![0, 0, 1, 0], vec![0, 0, 1, 0]])
    );
    assert_eq!(
        second_rotation.matrix(),
        &matrix(vec![vec![0, 0, 0, 0], vec![0, 0, 0, 0], vec![1, 1, 1, 1], vec![0, 0, 0, 0]])
    );
    assert_eq!(
        third_rotation.matrix(),
        &matrix(vec![vec![0, 1, 0, 0], vec![0, 1, 0, 0], vec![0, 1, 0, 0], vec![0, 1, 0, 0]])
    );
    assert_eq!(
        full_loop_rotation.matrix(),
        &matrix(vec![vec![0, 0, 0, 0], vec![1, 1, 1, 1], vec![0, 0, 0, 0], vec![0, 0, 0, 0]])
    );
}

#[test]
#[allow(non_snake_case)]
fn test_L_figure_rotation() {
    let (_, first_rotation, second_rotation, third_rotation, full_loop_rotation) =
        four_rotations(FigureType::L);
    assert_eq!(first_rotation.matrix(), &matrix(vec![vec![0, 1, 0], vec![0, 1, 0], vec![0, 1, 1]]));
    assert_eq!(second_rotation.matrix(), &matrix(vec![vec![0, 0, 0], vec![1, 1, 1], vec![1, 0, 0]]));
    assert_eq!(third_rotation.matrix(), &matrix(vec![vec![1, 1, 0], vec![0, 1, 0], vec![0, 1, 0]]));
    assert_eq!(full_loop_rotation.matrix(), &matrix(vec![vec![0, 0, 1], vec![1, 1, 1], vec![0, 0, 0]]));
}

#[test]
#[allow(non_snake_case)]
fn test_J_figure_rotation() {
    let (_, first_rotation, second_rotation, third_rotation, full_loop_rotation) =
        four_rotations(FigureType::J);
    assert_eq!(first_rotation.matrix(), &matrix(vec![vec![0, 1, 1], vec![0, 1, 0], vec![0, 1, 0]]));
    assert_eq!(second_rotation.matrix(), &matrix(vec![vec![0, 0, 0], vec![1, 1, 1], vec![0, 0, 1]]));
    assert_eq!(third_rotation.matrix(), &matrix(vec![vec![0, 1, 0], vec![0, 1, 0], vec![1, 1, 0]]));
    assert_eq!(full_loop_rotation.matrix(), &matrix(vec![vec![1, 0, 0], vec![1, 1, 1], vec![0, 0, 0]]));
}

#[test]
#[allow(non_snake_case)]
fn test_S_figure_rotation() {
    let (_, first_rotation, second_rotation, third_rotation, full_loop_rotation) =
        four_rotations(FigureType::S);
    assert_eq!(first_rotation.matrix(), &matrix(vec![vec![0, 1, 0], vec![0, 1, 1], vec![0, 0, 1]]));
    assert_eq!(second_rotation.matrix(), &matrix(vec![vec![0, 0, 0], vec![0, 1, 1], vec![1, 1, 0]]));
    assert_eq!(third_rotation.matrix(), &matrix(vec![vec![1, 0, 0], vec![1, 1, 0], vec![0, 1, 0]]));
    assert_eq!(full_loop_rotation.matrix(), &matrix(vec![vec![0, 1, 1], vec![1, 1, 0], vec![0, 0, 0]]));
}

#[test]
#[allow(non_snake_case)]
fn test_Z_figure_rotation() {
    let (_, first_rotation, second_rotation, third_rotation, full_loop_rotation) =
        four_rotations(FigureType::Z);
    assert_eq!(first_rotation.matrix(), &matrix(vec![vec![0, 0, 1], vec![0, 1, 1], vec![0, 1, 0]]));
    assert_eq!(second_rotation.matrix(), &matrix(vec![vec![0, 0, 0], vec![1, 1, 0], vec![0, 1, 1]]));
    assert_eq!(third_rotation.matrix(), &matrix(vec![vec![0, 1, 0], vec![1, 1, 0], vec![1, 0, 0]]));
    assert_eq!(full_loop_rotation.matrix(), &matrix(vec![vec![1, 1, 0], vec![0, 1, 1], vec![0, 0, 0]]));
}

#[test]
#[allow(non_snake_case)]
fn test_O_figure_rotation() {
    let (_, first_rotation, second_rotation, third_rotation, full_loop_rotation) =
        four_rotations(FigureType::O);
    let how_it_should_always_look_like = matrix(vec![vec![1, 1], vec![1, 1]]);
    assert_eq!(first_rotation.matrix(), &how_it_should_always_look_like);
    assert_eq!(second_rotation.matrix(), &how_it_should_always_look_like);
    assert_eq!(third_rotation.matrix(), &how_it_should_always_look_like);
    assert_eq!(full_loop_rotation.matrix(), &how_it_should_always_look_like);
}

#[test]
fn test_draw() {
    let figure = Figure::new(FigureType::T);
    let drawed = figure.to_cartesian();
    assert_eq!(drawed.len(), 4);
    assert_eq!(drawed[0], Point { x: 1, y: 0 });
    assert_eq!(drawed[1], Point { x: 0, y: 1 });
    assert_eq!(drawed[2], Point { x: 1, y: 1 });
    assert_eq!(drawed[3], Point { x: 2, y: 1 });
}

#[test]
fn four_rotations_restore_every_shape() {
    for figure_type in [
        FigureType::I,
        FigureType::J,
        FigureType::L,
        FigureType::O,
        FigureType::S,
        FigureType::T,
        FigureType::Z,
    ] {
        let (figure, _, _, _, full_loop_rotation) = four_rotations(figure_type);
        assert_eq!(full_loop_rotation.matrix(), figure.matrix());
        assert_eq!(full_loop_rotation.matrix(), &figure_type.initial_matrix());
        assert_eq!(full_loop_rotation.get_type(), figure_type);
    }
}

#[test]
fn every_orientation_has_four_cells_in_a_stable_order() {
    for figure_type in [
        FigureType::I,
        FigureType::J,
        FigureType::L,
        FigureType::O,
        FigureType::S,
        FigureType::T,
        FigureType::Z,
    ] {
        let mut figure = Figure::new(figure_type);
        for _ in 0..4 {
            let cells = figure.to_cartesian();
            assert_eq!(cells.len(), 4);
            assert_eq!(cells, figure.to_cartesian());
            figure = figure.rotated();
        }
    }
}

#[test]
fn i_figure_cells_cover_its_whole_matrix() {
    let figure = Figure::new(FigureType::I).rotated();
    assert_eq!(
        figure.to_cartesian(),
        vec![Point { x: 2, y: 0 }, Point { x: 2, y: 1 }, Point { x: 2, y: 2 }, Point { x: 2, y: 3 }]
    );
}

#[test]
fn figure_color_follows_its_type() {
    let figure = Figure::new(FigureType::S);
    assert_eq!(figure.color(), FigureType::S.color());
    assert_eq!(FigureType::I.color().red, 108);
    assert_eq!(FigureType::J.color().blue, 230);
    assert_eq!(FigureType::T.color().alpha, 255);
}

#[test]
fn matrix_rotation_and_single_cell_write() {
    let m = matrix(vec![vec![1, 2, 3], vec![4, 5, 6], vec![7, 8, 9]]);
    assert_eq!(m.rotated(), matrix(vec![vec![7, 4, 1], vec![8, 5, 2], vec![9, 6, 3]]));
    assert_eq!(m.rotated().rotated().rotated().rotated(), m);
    let written = m.replacing_at_xy(2, 0, 0);
    assert_eq!(written, matrix(vec![vec![1, 2, 0], vec![4, 5, 6], vec![7, 8, 9]]));
    assert_eq!(*written.at_xy(2, 0), 0);
    assert_eq!(*m.at_xy(2, 0), 3);
    assert_eq!(m.height(), 3);
    assert_eq!(m.width(), 3);
    let wide = matrix(vec![vec![1, 2, 3, 4], vec![5, 6, 7, 8]]);
    assert_eq!(wide.height(), 2);
    assert_eq!(wide.width(), 4);
    assert_eq!(*wide.at_xy(3, 1), 8);
}
