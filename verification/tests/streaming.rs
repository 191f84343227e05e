use pumpkin::world::entity::{
    Client, DimensionType, Entity, EntityPose, GameMode, GameProfile, LivingEntity, Player,
    FULL_HEALTH,
};
use pumpkin::world::math::{Position, Vector2};
use pumpkin::world::streaming::{sort_by_distance, Arrival, ChunkRequest, StreamAction};
use pumpkin::world::World;

fn player(uuid: u128, client: Option<Client>) -> Player {
    Player {
        gameprofile: GameProfile { id: uuid, name: format!("player{uuid}") },
        living_entity: LivingEntity {
            entity: Entity {
                entity_id: uuid as i32,
                entity_uuid: uuid,
                pos: Position::new(0, 0, 0),
                yaw: 0,
                pitch: 0,
                head_yaw: 0,
                pose: EntityPose::Standing,
            },
            last_pos: Position::new(0, 0, 0),
            health: FULL_HEALTH,
        },
        client,
        gamemode: GameMode::Survival,
    }
}

fn world() -> World {
    let mut world = World::load(DimensionType::Overworld);
    world.add_player(1, player(1, Some(Client { closed: false, config: None })));
    world.add_player(2, player(2, Some(Client { closed: true, config: None })));
    world.add_player(3, player(3, None));
    world
}

fn columns(pairs: &[(i32, i32)]) -> Vec<Vector2> {
    pairs.iter().map(|(x, z)| Vector2::new(*x, *z)).collect()
}

fn arrival(x: i32, z: i32, watched: bool, closed: bool) -> Arrival {
    Arrival { position: Vector2::new(x, z), watched, closed }
}

#[test]
fn chunks_are_asked_for_nearest_first() {
    let stream = world()
        .spawn_world_chunks(1, columns(&[(0, 0), (5, 5), (1, 0)]), Vector2::new(0, 0))
        .unwrap();
    assert_eq!(stream.request.chunks, columns(&[(0, 0), (1, 0), (5, 5)]));
    assert_eq!(stream.request.capacity, 3);
    assert_eq!(stream.player, 1);
    assert!(!stream.stopped);
}

#[test]
fn chunks_that_are_delivered_as_they_arrive_come_nearest_first() {
    let mut stream = world()
        .spawn_world_chunks(1, columns(&[(0, 0), (5, 5), (1, 0)]), Vector2::new(0, 0))
        .unwrap();
    let mut delivered = Vec::new();
    for position in stream.request.chunks.clone() {
        match stream.on_arrival(Arrival { position, watched: true, closed: false }) {
            StreamAction::Deliver(position) => delivered.push(position),
            other => panic!("a delivery was expected, not {other:?}"),
        }
    }
    assert_eq!(delivered, columns(&[(0, 0), (1, 0), (5, 5)]));
}

#[test]
fn chunks_equally_far_keep_their_order() {
    let center = Vector2::new(3, -2);
    let ring = columns(&[(4, -2), (3, -1), (2, -2), (3, -3)]);
    assert_eq!(sort_by_distance(&ring, center), ring);
    let mixed = columns(&[(5, -2), (3, -1), (3, -2), (4, -2), (1, -2), (3, -3), (3, -2)]);
    assert_eq!(
        sort_by_distance(&mixed, center),
        columns(&[(3, -2), (3, -2), (3, -1), (4, -2), (3, -3), (5, -2), (1, -2)])
    );
}

#[test]
fn sorting_keeps_every_chunk() {
    let center = Vector2::new(-7, 9);
    let mut chunks = Vec::new();
    for x in -12..=-2 {
        for z in (4..=14).rev() {
            chunks.push(Vector2::new(x, z));
        }
    }
    let sorted = sort_by_distance(&chunks, center);
    assert_eq!(sorted.len(), chunks.len());
    assert_eq!(sorted[0], center);
    for pair in sorted.windows(2) {
        assert!(pair[0].distance_squared(center) <= pair[1].distance_squared(center));
    }
    for chunk in &chunks {
        assert_eq!(sorted.iter().filter(|other| *other == chunk).count(), 1);
    }
    assert_eq!(sort_by_distance(&Vec::new(), center), Vec::new());
}

#[test]
fn the_furthest_chunks_are_sorted_too() {
    let center = Vector2::new(i32::MIN, i32::MIN);
    let chunks = columns(&[(i32::MAX, i32::MAX), (i32::MIN, i32::MIN), (0, 0), (i32::MIN, i32::MAX)]);
    assert_eq!(
        sort_by_distance(&chunks, center),
        columns(&[(i32::MIN, i32::MIN), (0, 0), (i32::MIN, i32::MAX), (i32::MAX, i32::MAX)])
    );
}

#[test]
fn nothing_is_asked_for_where_there_is_nothing_to_send() {
    let world = world();
    assert_eq!(world.spawn_world_chunks(1, Vec::new(), Vector2::new(0, 0)), None);
    assert_eq!(world.receive_chunks(Vec::new()), None);
}

#[test]
fn nothing_begins_for_a_player_that_cannot_be_reached() {
    let world = world();
    let chunks = columns(&[(0, 0), (1, 1)]);
    assert_eq!(world.spawn_world_chunks(2, chunks.clone(), Vector2::new(0, 0)), None);
    assert_eq!(world.spawn_world_chunks(3, chunks.clone(), Vector2::new(0, 0)), None);
    assert_eq!(world.spawn_world_chunks(4, chunks, Vector2::new(0, 0)), None);
}

#[test]
fn as_many_chunks_may_wait_as_are_asked_for() {
    let world = world();
    let chunks = columns(&[(3, 3), (0, 0), (2, 2), (0, 0)]);
    assert_eq!(
        world.receive_chunks(chunks.clone()),
        Some(ChunkRequest { chunks, capacity: 4 })
    );
    assert_eq!(
        world.receive_chunk(Vector2::new(7, -7)),
        ChunkRequest { chunks: columns(&[(7, -7)]), capacity: 1 }
    );
}

#[test]
fn one_chunk_is_handed_on_where_somebody_watches_it() {
    let world = world();
    let position = Vector2::new(7, -7);
    assert_eq!(world.on_single_arrival(position, true), StreamAction::Deliver(position));
}

#[test]
fn one_chunk_is_discarded_and_withheld_where_nobody_watches_it() {
    let world = world();
    let position = Vector2::new(7, -7);
    assert_eq!(world.on_single_arrival(position, false), StreamAction::Discard(position));
    // The stream decides in the same way.
    let mut stream =
        world.spawn_world_chunks(1, columns(&[(7, -7)]), Vector2::new(0, 0)).unwrap();
    assert_eq!(
        stream.on_arrival(arrival(7, -7, false, false)),
        world.on_single_arrival(position, false)
    );
    assert_eq!(
        stream.on_arrival(arrival(7, -7, true, false)),
        world.on_single_arrival(position, true)
    );
}

#[test]
fn a_chunk_that_nobody_wants_is_discarded_once_and_never_delivered() {
    let mut stream =
        world().spawn_world_chunks(1, columns(&[(0, 0), (1, 0), (2, 0)]), Vector2::new(0, 0)).unwrap();
    let actions: Vec<StreamAction> = [
        arrival(0, 0, true, false),
        arrival(1, 0, false, false),
        arrival(2, 0, true, false),
    ]
    .into_iter()
    .map(|arrival| stream.on_arrival(arrival))
    .collect();
    assert_eq!(
        actions,
        vec![
            StreamAction::Deliver(Vector2::new(0, 0)),
            StreamAction::Discard(Vector2::new(1, 0)),
            StreamAction::Deliver(Vector2::new(2, 0)),
        ]
    );
    assert!(!stream.stopped);
}

#[test]
fn an_unwanted_chunk_is_discarded_though_the_connection_is_closed() {
    let mut stream =
        world().spawn_world_chunks(1, columns(&[(0, 0)]), Vector2::new(0, 0)).unwrap();
    assert_eq!(
        stream.on_arrival(arrival(0, 0, false, true)),
        StreamAction::Discard(Vector2::new(0, 0))
    );
    assert!(!stream.stopped);
}

#[test]
fn a_closed_connection_stops_the_stream_for_good() {
    let mut stream = world()
        .spawn_world_chunks(1, columns(&[(0, 0), (1, 0), (2, 0), (3, 0)]), Vector2::new(0, 0))
        .unwrap();
    assert_eq!(
        stream.on_arrival(arrival(0, 0, true, false)),
        StreamAction::Deliver(Vector2::new(0, 0))
    );
    assert_eq!(stream.on_arrival(arrival(1, 0, true, true)), StreamAction::Stop);
    assert!(stream.stopped);
    assert_eq!(stream.on_arrival(arrival(2, 0, true, false)), StreamAction::Stop);
    // What nobody wants is discarded even then.
    assert_eq!(
        stream.on_arrival(arrival(3, 0, false, false)),
        StreamAction::Discard(Vector2::new(3, 0))
    );
    assert!(stream.stopped);
    assert_eq!(stream.request.capacity, 4);
    assert_eq!(stream.player, 1);
}
