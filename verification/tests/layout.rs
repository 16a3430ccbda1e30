use mehen::{ring_layout, GameState, SquarePosition};

#[test]
fn layout_has_a_place_for_each_square() {
    assert_eq!(ring_layout().len(), 36);
}

#[test]
fn outer_ring_ends_at_340_and_middle_ring_starts_at_355() {
    let layout = ring_layout();
    assert_eq!(layout[17], SquarePosition { angle: 340, radius: 85 });
    assert_eq!(layout[18], SquarePosition { angle: 355, radius: 55 });
}

#[test]
fn inner_ring_starts_30_degrees_past_the_middle_ring() {
    let layout = ring_layout();
    assert_eq!(layout[29], SquarePosition { angle: 325, radius: 55 });
    assert_eq!(layout[30], SquarePosition { angle: 355, radius: 25 });
    assert_eq!(layout[35], SquarePosition { angle: 295, radius: 25 });
}

#[test]
fn every_angle_of_the_layout() {
    let angles: Vec<u16> = ring_layout().iter().map(|square| square.angle).collect();
    let expected: Vec<u16> = vec![
        0, 20, 40, 60, 80, 100, 120, 140, 160, 180, 200, 220, 240, 260, 280, 300, 320, 340,
        355, 25, 55, 85, 115, 145, 175, 205, 235, 265, 295, 325,
        355, 55, 115, 175, 235, 295,
    ];
    assert_eq!(angles, expected);
}

#[test]
fn every_radius_of_the_layout() {
    let layout = ring_layout();
    for (index, square) in layout.iter().enumerate() {
        let expected = if index < 18 {
            85
        } else if index < 30 {
            55
        } else {
            25
        };
        assert_eq!(square.radius, expected);
    }
}

#[test]
fn layout_does_not_depend_on_the_game() {
    let mut game = GameState::new();
    assert_eq!(game.get_spiral_positions(), ring_layout());
    game.roll_dice(5);
    assert!(game.make_move(0));
    assert_eq!(game.get_spiral_positions(), ring_layout());
}
