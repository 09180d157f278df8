use city_builder::pos::Pos;

#[test]
fn new_takes_two_numbers() {
    assert_eq!(Pos::new(3, -4), Pos { x: 3, y: -4 });
    assert_eq!(Pos::new(3i8, -4i8), Pos { x: 3, y: -4 });
    assert_eq!(Pos::new(300i16, 7i16), Pos { x: 300, y: 7 });
    assert_eq!(Pos::default(), Pos { x: 0, y: 0 });
}

#[test]
fn to_string_writes_both_coordinates() {
    assert_eq!(Pos { x: 0, y: 0 }.to_string(), "(0,0)");
    assert_eq!(Pos { x: 12, y: -7 }.to_string(), "(12,-7)");
    assert_eq!(Pos { x: -100, y: 90210 }.to_string(), "(-100,90210)");
    assert_eq!(
        Pos { x: i32::MIN, y: i32::MAX }.to_string(),
        format!("({},{})", i32::MIN, i32::MAX)
    );
}

#[test]
fn added_sums_the_coordinates() {
    assert_eq!(Pos { x: 2, y: 3 }.added(Pos { x: -5, y: 10 }), Pos { x: -3, y: 13 });
}

#[test]
fn get_adjacent_gives_the_four_neighbors_and_the_position() {
    let around = Pos { x: 2, y: -3 }.get_adjacent();
    assert_eq!(
        around,
        [
            Pos { x: 1, y: -3 },
            Pos { x: 3, y: -3 },
            Pos { x: 2, y: -4 },
            Pos { x: 2, y: -2 },
            Pos { x: 2, y: -3 }
        ]
    );
}

#[test]
fn cost_is_the_cube_of_the_distance_plus_one_times_a_hundred() {
    assert_eq!(Pos { x: 0, y: 0 }.cost(), Some(100));
    assert_eq!(Pos { x: 1, y: 0 }.cost(), Some(800));
    assert_eq!(Pos { x: 0, y: -1 }.cost(), Some(800));
    assert_eq!(Pos { x: -1, y: 1 }.cost(), Some(800));
    assert_eq!(Pos { x: 2, y: -1 }.cost(), Some(2700));
    assert_eq!(Pos { x: -3, y: 9 }.cost(), Some(100000));
}

#[test]
fn cost_at_the_end_of_the_range() {
    assert_eq!(Pos { x: 276, y: 0 }.cost(), Some(277 * 277 * 277 * 100));
    assert_eq!(Pos { x: 277, y: 0 }.cost(), None);
    assert_eq!(Pos { x: 0, y: -277 }.cost(), None);
    assert_eq!(Pos { x: i32::MIN, y: i32::MAX }.cost(), None);
}

#[test]
fn cost_grows_with_the_distance() {
    let mut last = 0;
    for d in 0..277 {
        let cost = Pos { x: d, y: -d / 2 }.cost().unwrap();
        assert!(cost >= last);
        last = cost;
    }
}
