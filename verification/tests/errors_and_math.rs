use pumpkin::world::math::{Position, Vector2, Vector3, WorldPosition, UNITS_PER_BLOCK};
use pumpkin::world::{GetBlockError, Severity};

#[test]
fn block_errors_are_warnings_and_never_kick() {
    for error in [GetBlockError::BlockOutOfWorldBounds, GetBlockError::InvalidBlockId] {
        assert!(!error.is_kick());
        assert_eq!(error.severity(), Severity::Warn);
        assert_eq!(error.client_kick_reason(), None);
    }
}

#[test]
fn block_errors_are_shown_by_name() {
    assert_eq!(GetBlockError::BlockOutOfWorldBounds.to_string(), "BlockOutOfWorldBounds");
    assert_eq!(GetBlockError::InvalidBlockId.to_string(), "InvalidBlockId");
}

#[test]
fn a_block_lies_in_the_chunk_that_its_coordinates_divide_into() {
    let (chunk, relative) =
        WorldPosition(Vector3::new(10, 118, 10)).chunk_and_chunk_relative_position();
    assert_eq!(chunk, Vector2::new(0, 0));
    assert_eq!(relative, Vector3::new(10, 118, 10));

    let (chunk, relative) =
        WorldPosition(Vector3::new(35, -64, 16)).chunk_and_chunk_relative_position();
    assert_eq!(chunk, Vector2::new(2, 1));
    assert_eq!(relative, Vector3::new(3, -64, 0));
}

#[test]
fn negative_coordinates_round_down_to_their_chunk() {
    let (chunk, relative) =
        WorldPosition(Vector3::new(-1, 0, -16)).chunk_and_chunk_relative_position();
    assert_eq!(chunk, Vector2::new(-1, -1));
    assert_eq!(relative, Vector3::new(15, 0, 0));

    let (chunk, relative) =
        WorldPosition(Vector3::new(-17, 7, -33)).chunk_and_chunk_relative_position();
    assert_eq!(chunk, Vector2::new(-2, -3));
    assert_eq!(relative, Vector3::new(15, 7, 15));
}

#[test]
fn the_furthest_blocks_have_a_chunk_too() {
    let (chunk, relative) = WorldPosition(Vector3::new(i32::MIN, 0, i32::MAX))
        .chunk_and_chunk_relative_position();
    assert_eq!(chunk, Vector2::new(-134_217_728, 134_217_727));
    assert_eq!(relative, Vector3::new(0, 0, 15));
}

#[test]
fn squared_distance_between_columns_is_exact() {
    let center = Vector2::new(0, 0);
    assert_eq!(Vector2::new(0, 0).distance_squared(center), 0);
    assert_eq!(Vector2::new(1, 0).distance_squared(center), 1);
    assert_eq!(Vector2::new(5, 5).distance_squared(center), 50);
    assert_eq!(Vector2::new(-3, 4).distance_squared(Vector2::new(1, 1)), 25);
}

#[test]
fn squared_distance_never_overflows() {
    let far = Vector2::new(i32::MIN, i32::MIN).distance_squared(Vector2::new(i32::MAX, i32::MAX));
    let side: u128 = (1u128 << 32) - 1;
    assert_eq!(far, 2 * side * side);
}

#[test]
fn a_place_lies_in_the_block_below_and_behind_it() {
    let place = Position::new(10 * UNITS_PER_BLOCK + 1, 119 * UNITS_PER_BLOCK, 10 * UNITS_PER_BLOCK + 4095);
    assert_eq!(place.block_pos(), WorldPosition(Vector3::new(10, 119, 10)));

    let place = Position::new(-1, -UNITS_PER_BLOCK, -UNITS_PER_BLOCK - 1);
    assert_eq!(place.block_pos(), WorldPosition(Vector3::new(-1, -1, -2)));
}

#[test]
fn a_place_too_far_out_lies_in_the_last_block() {
    let place = Position::new(i64::MAX, i64::MIN, 0);
    assert_eq!(place.block_pos(), WorldPosition(Vector3::new(i32::MAX, i32::MIN, 0)));
    assert_eq!(place.rounded(), WorldPosition(Vector3::new(i32::MAX, i32::MIN, 0)));
}

#[test]
fn rounding_takes_a_half_away_from_zero() {
    let half = UNITS_PER_BLOCK / 2;
    let place = Position::new(half, half - 1, -half);
    assert_eq!(place.rounded(), WorldPosition(Vector3::new(1, 0, -1)));

    let place = Position::new(-half + 1, 3 * UNITS_PER_BLOCK + half, -7 * UNITS_PER_BLOCK - half);
    assert_eq!(place.rounded(), WorldPosition(Vector3::new(0, 4, -8)));
}

#[test]
fn blocks_have_a_corner_and_a_middle() {
    let block = Vector3::new(10, 120, -3);
    assert_eq!(Position::from_block(block), Position::new(40_960, 491_520, -12_288));
    assert_eq!(Position::block_center(block), Position::new(43_008, 493_568, -10_240));
}

#[test]
fn the_surface_of_the_ball_is_within_it() {
    let center = Position::new(0, 0, 0);
    let on_surface = Position::new(5 * UNITS_PER_BLOCK, 0, 0);
    assert!(on_surface.within(&center, 5));
    let just_outside = Position::new(5 * UNITS_PER_BLOCK + 1, 0, 0);
    assert!(!just_outside.within(&center, 5));
    let diagonal = Position::new(3 * UNITS_PER_BLOCK, 4 * UNITS_PER_BLOCK, 0);
    assert!(diagonal.within(&center, 5));
    let past_diagonal = Position::new(3 * UNITS_PER_BLOCK, 4 * UNITS_PER_BLOCK, 1);
    assert!(!past_diagonal.within(&center, 5));
}

#[test]
fn a_ball_of_no_radius_holds_its_center_alone() {
    let center = Position::new(7, -7, 7);
    assert!(center.within(&center, 0));
    assert!(!Position::new(8, -7, 7).within(&center, 0));
}

#[test]
fn places_at_the_ends_of_the_grid_are_compared_without_overflow() {
    let low = Position::new(i64::MIN, i64::MIN, i64::MIN);
    let high = Position::new(i64::MAX, i64::MAX, i64::MAX);
    assert!(!low.within(&high, u16::MAX));
    assert!(high.within(&high, u16::MAX));
}
