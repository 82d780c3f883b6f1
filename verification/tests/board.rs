use loong_ctrl::board::{copy_points, is_chained, is_linked, is_on_grid, occupies, SPAWN_ATTEMPTS};
use loong_ctrl::{
    Board, Direction, Food, InnerCfg, Loong, LoongCtrlErr, LoongCtrlOptions, Point,
};

fn cfg(x: u16, y: u16, size: u16, wrap: bool, auto_food: bool) -> InnerCfg {
    InnerCfg::from_options(
        &LoongCtrlOptions::default()
            .dimension_x(x)
            .dimension_y(y)
            .initial_loong_size(size)
            .walking_through_the_walls(wrap)
            .auto_gen_food(auto_food),
    )
}

fn board(c: InnerCfg, body: Vec<Point>, food: Vec<Point>) -> Board {
    let b = Board { cfg: c, loong: Loong { body }, food: Food { positions: food } };
    assert!(b.is_well_formed());
    b
}

fn no_repeats(cells: &[Point]) -> bool {
    for i in 0..cells.len() {
        for j in (i + 1)..cells.len() {
            if cells[i] == cells[j] {
                return false;
            }
        }
    }
    true
}

#[test]
fn initial_body_runs_left_from_the_centre() {
    let l = Loong::new(Point(7, 5), 7).unwrap();
    assert_eq!(
        l.body,
        vec![
            Point(7, 5),
            Point(6, 5),
            Point(5, 5),
            Point(4, 5),
            Point(3, 5),
            Point(2, 5),
            Point(1, 5)
        ]
    );
    assert_eq!(Loong::create(Point(7, 5), 2).unwrap(), vec![Point(7, 5), Point(6, 5)]);
    assert_eq!(Loong::new(Point(7, 5), 0).unwrap().body, Vec::<Point>::new());
}

#[test]
fn initial_body_that_does_not_fit_is_refused() {
    assert_eq!(Loong::new(Point(7, 5), 9).unwrap_err(), LoongCtrlErr::InitLoongSizeIsBig);
    assert_eq!(Loong::new(Point(3, 5), 5).unwrap_err(), LoongCtrlErr::InitLoongSizeIsBig);
    assert_eq!(Loong::create(Point(0, 0), 2).unwrap_err(), LoongCtrlErr::InitLoongSizeIsBig);
    assert_eq!(
        Loong::new(Point(65535, 0), 0).unwrap().body,
        Vec::<Point>::new()
    );
    assert!(matches!(
        Board::new(cfg(15, 10, 9, false, false)),
        Err(LoongCtrlErr::InitLoongSizeIsBig)
    ));
    assert!(Board::new(cfg(15, 10, 8, false, false)).is_ok());
    assert!(Board::new(cfg(15, 10, 7, false, false)).is_ok());
    assert!(matches!(
        Board::new(cfg(0, 10, 1, false, false)),
        Err(LoongCtrlErr::InitLoongSizeIsBig)
    ));
    assert!(Board::new(cfg(1, 1, 1, false, false)).is_ok());
    assert!(Board::new(cfg(0, 0, 0, false, true)).is_ok());
    assert!(matches!(
        Board::new(cfg(15, 0, 1, false, false)),
        Err(LoongCtrlErr::InitLoongSizeIsBig)
    ));
    assert!(matches!(
        Board::new(cfg(0, 0, 1, false, true)),
        Err(LoongCtrlErr::InitLoongSizeIsBig)
    ));
}

#[test]
fn centre_is_half_of_each_dimension() {
    assert_eq!(Board::center_of(15, 10), Point(7, 5));
    assert_eq!(Board::center_of(20, 20), Point(10, 10));
    assert_eq!(Board::center_of(1, 1), Point(0, 0));
    assert_eq!(Board::center_of(65535, 0), Point(32767, 0));
}

#[test]
fn fresh_board_without_food() {
    let b = Board::new(cfg(15, 10, 7, false, false)).unwrap();
    assert_eq!(b.loong.body.len(), 7);
    assert_eq!(b.loong.body[0], Point(7, 5));
    assert_eq!(b.loong.body[6], Point(1, 5));
    assert!(b.food.positions.is_empty());
    assert!(b.is_well_formed());
}

#[test]
fn fresh_board_with_food_has_one_free_item() {
    for _ in 0..50 {
        let b = Board::new(cfg(15, 10, 7, false, true)).unwrap();
        assert_eq!(b.food.positions.len(), 1);
        let f = b.food.positions[0];
        assert!(f.0 < 15 && f.1 < 10);
        assert!(!b.loong.body.contains(&f));
    }
}

#[test]
fn candidate_on_the_grid_is_kept() {
    let c = cfg(15, 10, 7, false, false);
    assert_eq!(Loong::try_teleport_head_if_need(&c, (3, 4)).unwrap(), Point(3, 4));
    assert_eq!(Loong::try_teleport_head_if_need(&c, (0, 0)).unwrap(), Point(0, 0));
    assert_eq!(Loong::try_teleport_head_if_need(&c, (14, 9)).unwrap(), Point(14, 9));
}

#[test]
fn candidate_off_the_grid_hits_a_solid_wall() {
    let c = cfg(15, 10, 7, false, false);
    for cand in [(-1, 5), (15, 5), (3, -1), (3, 10)] {
        assert_eq!(
            Loong::try_teleport_head_if_need(&c, cand).unwrap_err(),
            LoongCtrlErr::LoongHitTheWall
        );
    }
}

#[test]
fn candidate_off_the_grid_enters_at_the_opposite_edge() {
    let c = cfg(15, 10, 7, true, false);
    assert_eq!(Loong::try_teleport_head_if_need(&c, (-1, 5)).unwrap(), Point(14, 5));
    assert_eq!(Loong::try_teleport_head_if_need(&c, (15, 5)).unwrap(), Point(0, 5));
    assert_eq!(Loong::try_teleport_head_if_need(&c, (3, -1)).unwrap(), Point(3, 9));
    assert_eq!(Loong::try_teleport_head_if_need(&c, (3, 10)).unwrap(), Point(3, 0));
}

#[test]
fn plain_move_shifts_the_body() {
    let mut b = board(
        cfg(15, 10, 3, false, false),
        vec![Point(3, 5), Point(2, 5), Point(1, 5)],
        vec![Point(9, 9)],
    );
    assert_eq!(b.move_loong(Direction::Top), Ok(false));
    assert_eq!(b.loong.body, vec![Point(3, 6), Point(3, 5), Point(2, 5)]);
    assert_eq!(b.move_loong(Direction::Left), Ok(false));
    assert_eq!(b.loong.body, vec![Point(2, 6), Point(3, 6), Point(3, 5)]);
    assert_eq!(b.move_loong(Direction::Bottom), Ok(false));
    assert_eq!(b.loong.body, vec![Point(2, 5), Point(2, 6), Point(3, 6)]);
    assert_eq!(b.move_loong(Direction::Right), Ok(false));
    assert_eq!(b.loong.body, vec![Point(3, 5), Point(2, 5), Point(2, 6)]);
    assert_eq!(b.food.positions, vec![Point(9, 9)]);
}

#[test]
fn loong_move_returns_the_cell_the_tail_gave_up() {
    let c = cfg(15, 10, 3, false, false);
    let mut l = Loong { body: vec![Point(3, 5), Point(2, 5), Point(1, 5)] };
    assert_eq!(Loong::move_loong(&c, &mut l, Direction::Right), Ok(Point(1, 5)));
    assert_eq!(l.body, vec![Point(4, 5), Point(3, 5), Point(2, 5)]);
}

#[test]
fn eating_grows_the_body_and_removes_the_food() {
    let mut b = board(
        cfg(15, 10, 3, false, false),
        vec![Point(3, 5), Point(2, 5), Point(1, 5)],
        vec![Point(0, 0), Point(4, 5), Point(9, 9)],
    );
    assert_eq!(b.move_loong(Direction::Right), Ok(true));
    assert_eq!(b.loong.body, vec![Point(4, 5), Point(3, 5), Point(2, 5), Point(1, 5)]);
    assert_eq!(b.food.positions, vec![Point(0, 0), Point(9, 9)]);
    assert!(b.is_well_formed());
}

#[test]
fn eating_with_replenishing_places_new_food_on_a_free_cell() {
    for _ in 0..50 {
        let mut b = board(
            cfg(15, 10, 3, false, true),
            vec![Point(3, 5), Point(2, 5), Point(1, 5)],
            vec![Point(4, 5)],
        );
        assert_eq!(b.move_loong(Direction::Right), Ok(true));
        assert_eq!(b.loong.body, vec![Point(4, 5), Point(3, 5), Point(2, 5), Point(1, 5)]);
        assert_eq!(b.food.positions.len(), 1);
        let f = b.food.positions[0];
        assert!(f.0 < 15 && f.1 < 10);
        assert!(!b.loong.body.contains(&f));
    }
}

#[test]
fn wrap_around_moves_the_head_to_the_opposite_edge() {
    let mut b = board(
        cfg(15, 10, 3, true, false),
        vec![Point(0, 5), Point(1, 5), Point(2, 5)],
        vec![],
    );
    assert_eq!(b.move_loong(Direction::Left), Ok(false));
    assert_eq!(b.loong.body, vec![Point(14, 5), Point(0, 5), Point(1, 5)]);
    assert!(b.is_well_formed());
    assert!(!b.loong.body[0].is_near_with(&b.loong.body[1]));
    assert!(b.loong.body[1].is_near_with(&b.loong.body[2]));

    let mut up = board(cfg(15, 10, 2, true, false), vec![Point(4, 9), Point(4, 8)], vec![]);
    assert_eq!(up.move_loong(Direction::Top), Ok(false));
    assert_eq!(up.loong.body, vec![Point(4, 0), Point(4, 9)]);

    let mut down = board(cfg(15, 10, 2, true, false), vec![Point(4, 0), Point(4, 1)], vec![]);
    assert_eq!(down.move_loong(Direction::Bottom), Ok(false));
    assert_eq!(down.loong.body, vec![Point(4, 9), Point(4, 0)]);

    let mut right = board(cfg(15, 10, 2, true, false), vec![Point(14, 3), Point(13, 3)], vec![]);
    assert_eq!(right.move_loong(Direction::Right), Ok(false));
    assert_eq!(right.loong.body, vec![Point(0, 3), Point(14, 3)]);
}

#[test]
fn solid_wall_stops_the_move_and_keeps_the_body() {
    let mut b = board(
        cfg(15, 10, 3, false, false),
        vec![Point(0, 5), Point(1, 5), Point(2, 5)],
        vec![Point(3, 3)],
    );
    assert_eq!(b.move_loong(Direction::Left), Err(LoongCtrlErr::LoongHitTheWall));
    assert_eq!(b.loong.body, vec![Point(0, 5), Point(1, 5), Point(2, 5)]);
    assert_eq!(b.food.positions, vec![Point(3, 3)]);
}

#[test]
fn self_collision_is_reported_after_the_head_moved() {
    let mut b = board(
        cfg(15, 10, 5, false, false),
        vec![Point(2, 2), Point(2, 1), Point(1, 1), Point(1, 2), Point(0, 2)],
        vec![],
    );
    assert_eq!(b.move_loong(Direction::Left), Err(LoongCtrlErr::LoongAteItself));
    assert_eq!(
        b.loong.body,
        vec![Point(1, 2), Point(2, 2), Point(2, 1), Point(1, 1), Point(1, 2)]
    );
}

#[test]
fn head_may_enter_the_cell_the_tail_leaves() {
    let mut b = board(
        cfg(15, 10, 4, false, false),
        vec![Point(1, 1), Point(1, 0), Point(0, 0), Point(0, 1)],
        vec![],
    );
    assert_eq!(b.move_loong(Direction::Left), Ok(false));
    assert_eq!(b.loong.body, vec![Point(0, 1), Point(1, 1), Point(1, 0), Point(0, 0)]);
}

#[test]
fn empty_body_cannot_move() {
    let mut b = board(cfg(15, 10, 0, false, false), vec![], vec![Point(1, 1)]);
    assert_eq!(b.move_loong(Direction::Left), Err(LoongCtrlErr::LoongIsZero));
    assert!(b.loong.body.is_empty());
    assert_eq!(b.food.positions, vec![Point(1, 1)]);
    let mut l = Loong { body: vec![] };
    assert_eq!(
        Loong::move_loong(&cfg(15, 10, 0, false, false), &mut l, Direction::Top),
        Err(LoongCtrlErr::LoongIsZero)
    );
}

#[test]
fn single_segment_moves() {
    let mut b = board(cfg(15, 10, 1, false, false), vec![Point(3, 3)], vec![]);
    assert_eq!(b.move_loong(Direction::Top), Ok(false));
    assert_eq!(b.loong.body, vec![Point(3, 4)]);
}

#[test]
fn clear_eaten_takes_out_the_first_occurrence() {
    let mut f = Food { positions: vec![Point(1, 1), Point(2, 2), Point(1, 1)] };
    Food::clear_eaten(&mut f, &Point(1, 1));
    assert_eq!(f.positions, vec![Point(2, 2), Point(1, 1)]);
    Food::clear_eaten(&mut f, &Point(7, 7));
    assert_eq!(f.positions, vec![Point(2, 2), Point(1, 1)]);
    Food::clear_eaten(&mut f, &Point(1, 1));
    assert_eq!(f.positions, vec![Point(2, 2)]);
    assert!(Food::new().positions.is_empty());
}

#[test]
fn has_eaten_looks_under_the_head() {
    let l = Loong { body: vec![Point(3, 5), Point(2, 5)] };
    assert_eq!(
        Loong::has_eaten(&l, &Food { positions: vec![Point(2, 5), Point(3, 5)] }),
        Some(Point(3, 5))
    );
    assert_eq!(Loong::has_eaten(&l, &Food { positions: vec![Point(2, 5)] }), None);
    assert_eq!(Loong::has_eaten(&l, &Food::new()), None);
}

#[test]
fn is_ate_itself_compares_the_head_with_the_rest() {
    assert!(Loong::is_ate_itself(&Loong { body: vec![Point(1, 1), Point(1, 2), Point(1, 1)] }));
    assert!(!Loong::is_ate_itself(&Loong { body: vec![Point(1, 1), Point(1, 2), Point(1, 3)] }));
    assert!(!Loong::is_ate_itself(&Loong { body: vec![Point(1, 1)] }));
}

#[test]
fn is_free_checks_body_and_food() {
    let l = Loong { body: vec![Point(3, 5), Point(2, 5)] };
    let f = Food { positions: vec![Point(0, 0)] };
    assert!(!Food::is_free(&l, &f, &Point(3, 5)));
    assert!(!Food::is_free(&l, &f, &Point(2, 5)));
    assert!(!Food::is_free(&l, &f, &Point(0, 0)));
    assert!(Food::is_free(&l, &f, &Point(1, 5)));
}

#[test]
fn generate_finds_the_only_cell_of_a_tiny_grid() {
    let c = cfg(1, 1, 0, false, true);
    let p = Food::generate(&c, &Loong { body: vec![] }, &Food::new());
    assert_eq!(p, Some(Point(0, 0)));
}

#[test]
fn generate_finds_the_only_free_cell() {
    let c = cfg(2, 2, 0, false, true);
    let l = Loong { body: vec![Point(0, 0), Point(1, 0)] };
    let f = Food { positions: vec![Point(1, 1)] };
    assert_eq!(Food::generate(&c, &l, &f), Some(Point(0, 1)));
}

#[test]
fn generate_gives_up_on_a_full_or_empty_grid() {
    let c = cfg(2, 1, 0, false, true);
    let l = Loong { body: vec![Point(0, 0), Point(1, 0)] };
    assert_eq!(Food::generate(&c, &l, &Food::new()), None);
    assert_eq!(Food::generate(&cfg(0, 5, 0, false, true), &Loong { body: vec![] }, &Food::new()), None);
    assert_eq!(Food::generate(&cfg(5, 0, 0, false, true), &Loong { body: vec![] }, &Food::new()), None);
}

#[test]
fn generate_food_adds_at_most_one_free_cell() {
    let mut b = board(
        cfg(3, 1, 2, false, true),
        vec![Point(1, 0), Point(0, 0)],
        vec![],
    );
    b.generate_food();
    assert_eq!(b.food.positions, vec![Point(2, 0)]);
    b.generate_food();
    assert_eq!(b.food.positions, vec![Point(2, 0)]);
    assert_eq!(b.loong.body, vec![Point(1, 0), Point(0, 0)]);
}

#[test]
fn restart_gives_a_fresh_board() {
    let mut b = board(
        cfg(15, 10, 7, false, false),
        vec![Point(3, 5), Point(2, 5), Point(1, 5)],
        vec![Point(9, 9)],
    );
    assert_eq!(b.restart(), Ok(()));
    assert_eq!(b.loong.body.len(), 7);
    assert_eq!(b.loong.body[0], Point(7, 5));
    assert!(b.food.positions.is_empty());

    let mut bad = Board {
        cfg: cfg(15, 10, 9, false, false),
        loong: Loong { body: vec![Point(3, 5)] },
        food: Food { positions: vec![Point(9, 9)] },
    };
    assert_eq!(bad.restart(), Err(LoongCtrlErr::InitLoongSizeIsBig));
    assert_eq!(bad.loong.body, vec![Point(3, 5)]);
    assert_eq!(bad.food.positions, vec![Point(9, 9)]);
}

#[test]
fn clones_copy_the_cells() {
    let b = board(
        cfg(15, 10, 3, false, false),
        vec![Point(3, 5), Point(2, 5), Point(1, 5)],
        vec![Point(9, 9)],
    );
    assert_eq!(b.clone_loong().body, vec![Point(3, 5), Point(2, 5), Point(1, 5)]);
    assert_eq!(b.clone_food(), vec![Point(9, 9)]);
    assert_eq!(copy_points(&vec![Point(1, 2), Point(3, 4)]), vec![Point(1, 2), Point(3, 4)]);
    assert!(occupies(&vec![Point(1, 2), Point(3, 4)], &Point(3, 4)));
    assert!(!occupies(&vec![Point(1, 2), Point(3, 4)], &Point(4, 3)));
}

#[test]
fn well_formedness_is_checked_cell_by_cell() {
    let solid = cfg(15, 10, 3, false, false);
    let open = cfg(15, 10, 3, true, false);
    assert!(is_on_grid(&vec![Point(14, 9), Point(0, 0)], &solid));
    assert!(!is_on_grid(&vec![Point(15, 9)], &solid));
    assert!(!is_on_grid(&vec![Point(0, 10)], &solid));
    assert!(is_linked(&Point(1, 1), &Point(1, 2), &solid));
    assert!(!is_linked(&Point(0, 5), &Point(14, 5), &solid));
    assert!(is_linked(&Point(0, 5), &Point(14, 5), &open));
    assert!(is_linked(&Point(4, 9), &Point(4, 0), &open));
    assert!(!is_linked(&Point(0, 5), &Point(13, 5), &open));
    assert!(!is_linked(&Point(0, 5), &Point(14, 6), &open));
    assert!(is_chained(&vec![Point(14, 5), Point(0, 5), Point(1, 5)], &open));
    assert!(!is_chained(&vec![Point(14, 5), Point(0, 5), Point(1, 5)], &solid));
    assert!(!is_chained(&vec![Point(1, 1), Point(2, 2)], &open));
    assert!(is_chained(&vec![], &solid));
    let off = Board {
        cfg: solid,
        loong: Loong { body: vec![Point(1, 1)] },
        food: Food { positions: vec![Point(15, 0)] },
    };
    assert!(!off.is_well_formed());
}

#[test]
fn ticks_keep_cells_distinct_and_neighbours_linked() {
    let mut b = Board::new(cfg(6, 6, 3, true, true)).unwrap();
    let route = [
        Direction::Right,
        Direction::Right,
        Direction::Top,
        Direction::Top,
        Direction::Top,
        Direction::Left,
        Direction::Left,
        Direction::Left,
        Direction::Bottom,
        Direction::Bottom,
        Direction::Bottom,
        Direction::Right,
    ];
    for round in 0..20 {
        for d in route {
            let before = b.loong.body.len();
            match b.move_loong(d) {
                Ok(ate) => {
                    assert_eq!(b.loong.body.len(), before + if ate { 1 } else { 0 });
                    assert!(b.is_well_formed());
                    assert!(no_repeats(&b.loong.body));
                    assert!(no_repeats(&b.food.positions));
                    for f in &b.food.positions {
                        assert!(!b.loong.body.contains(f));
                    }
                }
                Err(e) => {
                    assert_eq!(e, LoongCtrlErr::LoongAteItself, "round {}", round);
                    assert!(b.is_well_formed());
                    return;
                }
            }
        }
    }
}

#[test]
fn place_food_appends_the_cell_it_is_given() {
    let mut b = board(
        cfg(15, 10, 2, false, true),
        vec![Point(1, 0), Point(0, 0)],
        vec![Point(5, 5)],
    );
    b.place_food(None);
    assert_eq!(b.food.positions, vec![Point(5, 5)]);
    b.place_food(Some(Point(6, 6)));
    assert_eq!(b.food.positions, vec![Point(5, 5), Point(6, 6)]);
    assert_eq!(b.loong.body, vec![Point(1, 0), Point(0, 0)]);
}

#[test]
fn creature_may_reach_the_left_edge() {
    let l = Loong::new(Point(3, 5), 4).unwrap();
    assert_eq!(l.body, vec![Point(3, 5), Point(2, 5), Point(1, 5), Point(0, 5)]);
    assert_eq!(Loong::create(Point(0, 0), 1).unwrap(), vec![Point(0, 0)]);
    let b = Board::new(cfg(15, 10, 8, false, false)).unwrap();
    assert_eq!(b.loong.body.len(), 8);
    assert_eq!(b.loong.body[0], Point(7, 5));
    assert_eq!(b.loong.body[7], Point(0, 5));
    assert!(b.is_well_formed());
}

#[test]
fn draw_cells_draws_on_the_grid() {
    let c = cfg(3, 2, 0, false, true);
    let cells = Food::draw_cells(&c, 500);
    assert_eq!(cells.len(), 500);
    for p in &cells {
        assert!(p.0 < 3 && p.1 < 2);
    }
    assert!(Food::draw_cells(&c, 0).is_empty());
    assert!(Food::draw_cells(&cfg(0, 2, 0, false, true), 5).is_empty());
    assert!(Food::draw_cells(&cfg(2, 0, 0, false, true), 5).is_empty());
    assert_eq!(SPAWN_ATTEMPTS, 10000);
}

#[test]
fn first_free_is_the_first_vacant_draw() {
    let c = cfg(5, 5, 0, false, true);
    let l = Loong { body: vec![Point(1, 1), Point(0, 1)] };
    let f = Food { positions: vec![Point(2, 2)] };
    let draws = vec![Point(1, 1), Point(2, 2), Point(9, 9), Point(3, 4), Point(0, 0), Point(3, 4)];
    assert_eq!(Food::first_free(&c, &l, &f, &draws), Some(Point(3, 4)));
    assert_eq!(Food::first_free(&c, &l, &f, &vec![Point(0, 0), Point(3, 4)]), Some(Point(0, 0)));
    assert_eq!(Food::first_free(&c, &l, &f, &vec![Point(0, 1), Point(2, 2), Point(5, 0)]), None);
    assert_eq!(Food::first_free(&c, &l, &f, &vec![]), None);
}

#[test]
fn new_from_places_the_first_vacant_draw() {
    let draws = vec![Point(7, 5), Point(1, 5), Point(15, 0), Point(3, 3), Point(4, 4)];
    let b = Board::new_from(cfg(15, 10, 7, false, true), &draws).unwrap();
    assert_eq!(b.loong.body.len(), 7);
    assert_eq!(b.loong.body[0], Point(7, 5));
    assert_eq!(b.food.positions, vec![Point(3, 3)]);
    let none = Board::new_from(cfg(15, 10, 7, false, true), &vec![Point(7, 5)]).unwrap();
    assert!(none.food.positions.is_empty());
    let off = Board::new_from(cfg(15, 10, 7, false, false), &draws).unwrap();
    assert!(off.food.positions.is_empty());
    assert!(matches!(
        Board::new_from(cfg(15, 10, 9, false, true), &draws),
        Err(LoongCtrlErr::InitLoongSizeIsBig)
    ));
}

#[test]
fn restart_from_places_the_first_vacant_draw() {
    let mut b = board(
        cfg(15, 10, 7, false, true),
        vec![Point(3, 5), Point(2, 5), Point(1, 5)],
        vec![Point(9, 9), Point(8, 8)],
    );
    assert_eq!(b.restart_from(&vec![Point(6, 5), Point(9, 9)]), Ok(()));
    assert_eq!(b.loong.body.len(), 7);
    assert_eq!(b.loong.body[0], Point(7, 5));
    assert_eq!(b.food.positions, vec![Point(9, 9)]);
}

#[test]
fn move_from_replaces_the_eaten_food_by_the_first_vacant_draw() {
    let mut b = board(
        cfg(15, 10, 3, false, true),
        vec![Point(3, 5), Point(2, 5), Point(1, 5)],
        vec![Point(0, 0), Point(4, 5), Point(9, 9)],
    );
    // the head's new cell, the tail, food that is left and a cell off the grid are passed over
    let draws = vec![Point(4, 5), Point(1, 5), Point(9, 9), Point(15, 1), Point(6, 6), Point(7, 7)];
    assert_eq!(b.move_loong_from(Direction::Right, &draws), Ok(true));
    assert_eq!(b.loong.body, vec![Point(4, 5), Point(3, 5), Point(2, 5), Point(1, 5)]);
    assert_eq!(b.food.positions, vec![Point(0, 0), Point(9, 9), Point(6, 6)]);
    // no meal, no placement
    assert_eq!(b.move_loong_from(Direction::Right, &draws), Ok(false));
    assert_eq!(b.food.positions, vec![Point(0, 0), Point(9, 9), Point(6, 6)]);
    // no vacant draw, no placement
    let mut full = board(
        cfg(15, 10, 3, false, true),
        vec![Point(3, 5), Point(2, 5), Point(1, 5)],
        vec![Point(4, 5)],
    );
    assert_eq!(full.move_loong_from(Direction::Right, &vec![Point(4, 5), Point(3, 5)]), Ok(true));
    assert!(full.food.positions.is_empty());
    // food that does not replenish itself ignores the draws
    let mut plain = board(
        cfg(15, 10, 3, false, false),
        vec![Point(3, 5), Point(2, 5), Point(1, 5)],
        vec![Point(4, 5)],
    );
    assert_eq!(plain.move_loong_from(Direction::Right, &draws), Ok(true));
    assert!(plain.food.positions.is_empty());
    // errors are those of a plain move
    let mut wall = board(cfg(15, 10, 1, false, true), vec![Point(0, 0)], vec![]);
    assert_eq!(wall.move_loong_from(Direction::Left, &draws), Err(LoongCtrlErr::LoongHitTheWall));
    assert_eq!(wall.loong.body, vec![Point(0, 0)]);
}

#[test]
fn advance_eats_and_places_nothing() {
    let mut b = board(
        cfg(15, 10, 3, false, true),
        vec![Point(3, 5), Point(2, 5), Point(1, 5)],
        vec![Point(0, 0), Point(4, 5)],
    );
    assert_eq!(b.advance(Direction::Right), Ok(true));
    assert_eq!(b.loong.body, vec![Point(4, 5), Point(3, 5), Point(2, 5), Point(1, 5)]);
    assert_eq!(b.food.positions, vec![Point(0, 0)]);
    assert_eq!(b.advance(Direction::Top), Ok(false));
    assert_eq!(b.loong.body, vec![Point(4, 6), Point(4, 5), Point(3, 5), Point(2, 5)]);
    assert_eq!(b.advance(Direction::Bottom), Err(LoongCtrlErr::LoongAteItself));
}

#[test]
fn spawn_from_adds_the_first_vacant_draw() {
    let mut b = board(
        cfg(3, 1, 2, false, true),
        vec![Point(1, 0), Point(0, 0)],
        vec![],
    );
    b.spawn_from(&vec![Point(0, 0), Point(2, 0), Point(2, 0)]);
    assert_eq!(b.food.positions, vec![Point(2, 0)]);
    b.spawn_from(&vec![Point(0, 0), Point(2, 0), Point(1, 0)]);
    assert_eq!(b.food.positions, vec![Point(2, 0)]);
}
