use snake_game::food::{first_free_cell, RELOCATION_DRAWS};
use snake_game::{Board, Direction, Food, Point, Snake};

fn column(x: i16, from: i16, to: i16) -> Vec<Point> {
    (from..=to).map(|y| Point { x, y }).collect()
}

/// A snake that covers the whole interior of a board of `height` by `width`
/// but for the cells in `spare`.
fn snake_covering(height: i16, width: i16, spare: &[Point]) -> Snake {
    let mut cells = Vec::new();
    for x in 1..width - 1 {
        for y in 1..height - 1 {
            let p = Point { x, y };
            if !spare.contains(&p) {
                cells.push(p);
            }
        }
    }
    let head = cells.remove(0);
    Snake { head, direction: Direction::Up, body: cells, growing: false }
}

#[test]
fn the_first_free_cell_of_an_empty_board_is_its_corner() {
    let board = Board::new(24, 24).unwrap();
    let snake = Snake::new(Point { x: 12, y: 12 }, Direction::Up);
    assert_eq!(first_free_cell(&board, &snake), Some(Point { x: 1, y: 1 }));
}

#[test]
fn the_first_free_cell_skips_the_snake() {
    let board = Board::new(6, 6).unwrap();
    let snake = Snake {
        head: Point { x: 1, y: 1 },
        direction: Direction::Up,
        body: vec![Point { x: 1, y: 2 }, Point { x: 1, y: 3 }],
        growing: false,
    };
    assert_eq!(first_free_cell(&board, &snake), Some(Point { x: 1, y: 4 }));
}

#[test]
fn the_first_free_cell_goes_down_a_column_before_the_next() {
    let board = Board::new(6, 6).unwrap();
    let snake = Snake {
        head: Point { x: 1, y: 1 },
        direction: Direction::Up,
        body: column(1, 2, 4),
        growing: false,
    };
    assert_eq!(first_free_cell(&board, &snake), Some(Point { x: 2, y: 1 }));
}

#[test]
fn the_last_free_cell_is_found() {
    let spare = Point { x: 4, y: 3 };
    let board = Board::new(6, 6).unwrap();
    let snake = snake_covering(6, 6, &[spare]);
    assert_eq!(first_free_cell(&board, &snake), Some(spare));
}

#[test]
fn no_cell_is_free_on_a_full_board() {
    let board = Board::new(5, 4).unwrap();
    let snake = snake_covering(5, 4, &[]);
    assert_eq!(first_free_cell(&board, &snake), None);
}

#[test]
fn cells_on_the_ring_are_never_free() {
    let board = Board::new(3, 3).unwrap();
    let snake = Snake::new(Point { x: 1, y: 1 }, Direction::Up);
    assert_eq!(first_free_cell(&board, &snake), None);
}

#[test]
fn a_free_candidate_is_taken() {
    let board = Board::new(24, 24).unwrap();
    let snake = Snake::new(Point { x: 5, y: 5 }, Direction::Up);
    let mut food = Food { position: Point { x: 5, y: 5 } };
    let placed = food.place(&board, &snake, Point { x: 9, y: 3 });
    assert_eq!(placed, Some(Point { x: 9, y: 3 }));
    assert_eq!(food.position, Point { x: 9, y: 3 });
}

#[test]
fn a_candidate_on_the_snake_gives_way_to_the_first_free_cell() {
    let board = Board::new(24, 24).unwrap();
    let snake = Snake {
        head: Point { x: 1, y: 1 },
        direction: Direction::Down,
        body: vec![Point { x: 2, y: 1 }],
        growing: false,
    };
    let mut food = Food { position: Point { x: 1, y: 1 } };
    assert_eq!(food.place(&board, &snake, Point { x: 1, y: 1 }), Some(Point { x: 1, y: 2 }));
    assert_eq!(food.position, Point { x: 1, y: 2 });
    assert_eq!(food.place(&board, &snake, Point { x: 2, y: 1 }), Some(Point { x: 1, y: 2 }));
}

#[test]
fn a_candidate_on_the_ring_gives_way_to_the_first_free_cell() {
    let board = Board::new(24, 24).unwrap();
    let snake = Snake::new(Point { x: 5, y: 5 }, Direction::Up);
    let mut food = Food { position: Point { x: 5, y: 5 } };
    assert_eq!(food.place(&board, &snake, Point { x: 0, y: 7 }), Some(Point { x: 1, y: 1 }));
    assert_eq!(food.place(&board, &snake, Point { x: 23, y: 23 }), Some(Point { x: 1, y: 1 }));
    assert_eq!(food.place(&board, &snake, Point { x: -3, y: 400 }), Some(Point { x: 1, y: 1 }));
}

#[test]
fn food_stays_put_when_no_cell_is_free() {
    let board = Board::new(4, 5).unwrap();
    let snake = snake_covering(4, 5, &[]);
    let mut food = Food { position: Point { x: 2, y: 2 } };
    assert_eq!(food.place(&board, &snake, Point { x: 1, y: 1 }), None);
    assert_eq!(food.position, Point { x: 2, y: 2 });
    assert_eq!(food.relocate(&board, &snake), None);
    assert_eq!(food.position, Point { x: 2, y: 2 });
}

#[test]
fn relocated_food_is_off_the_snake_and_off_the_ring() {
    let board = Board::new(8, 8).unwrap();
    let snake = Snake {
        head: Point { x: 3, y: 3 },
        direction: Direction::Up,
        body: vec![Point { x: 3, y: 4 }, Point { x: 3, y: 5 }, Point { x: 4, y: 5 }],
        growing: true,
    };
    let mut food = Food { position: Point { x: 3, y: 3 } };
    for _ in 0..300 {
        let placed = food.relocate(&board, &snake).unwrap();
        assert_eq!(food.position, placed);
        assert!(board.is_interior(placed));
        assert!(!snake.occupies(placed));
        assert_ne!(placed, snake.head);
    }
}

#[test]
fn relocation_finds_the_one_free_cell() {
    let spare = Point { x: 20, y: 17 };
    let board = Board::new(24, 24).unwrap();
    let snake = snake_covering(24, 24, &[spare]);
    let mut food = Food { position: snake.head };
    for _ in 0..20 {
        assert_eq!(food.relocate(&board, &snake), Some(spare));
        assert_eq!(food.position, spare);
    }
}

#[test]
fn relocation_chooses_among_the_free_cells() {
    let spare = [Point { x: 2, y: 2 }, Point { x: 9, y: 4 }];
    let board = Board::new(12, 12).unwrap();
    let snake = snake_covering(12, 12, &spare);
    let mut food = Food { position: snake.head };
    for _ in 0..50 {
        let placed = food.relocate(&board, &snake).unwrap();
        assert!(spare.contains(&placed));
    }
}

#[test]
fn relocation_on_an_open_board_does_not_always_take_the_first_cell() {
    let board = Board::new(24, 24).unwrap();
    let snake = Snake::new(Point { x: 12, y: 12 }, Direction::Up);
    let mut food = Food { position: Point { x: 12, y: 12 } };
    let mut elsewhere = false;
    for _ in 0..200 {
        let placed = food.relocate(&board, &snake).unwrap();
        elsewhere = elsewhere || placed != Point { x: 1, y: 1 };
    }
    assert!(elsewhere);
}

#[test]
fn relocation_draws_a_bounded_number_of_times() {
    assert_eq!(RELOCATION_DRAWS, 64);
}
