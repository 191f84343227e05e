use pumpkin::world::block::{
    Block, BlockRegistry, ChunkBlocks, ChunkData, ChunkRelativeBlockCoordinates, State,
};
use pumpkin::world::entity::{
    Client, DimensionType, Entity, EntityPose, GameMode, GameProfile, LivingEntity, Player,
    PlayerConfig, FULL_HEALTH,
};
use pumpkin::world::math::{Position, Vector2, Vector3, WorldPosition};
use pumpkin::world::packet::{Outbound, Packet, Step, BLOCK_BREAK_EVENT};
use pumpkin::world::terrain::AIR;
use pumpkin::world::{GetBlockError, World};

const STONE: u16 = 1;
const GRASS: u16 = 9;
const UNKNOWN: u16 = 3;

fn registry() -> BlockRegistry {
    let mut states = vec![None; 10];
    states[AIR as usize] = Some(State { block: 0, air: true, luminance: 0 });
    states[STONE as usize] = Some(State { block: 1, air: false, luminance: 0 });
    states[GRASS as usize] = Some(State { block: 2, air: false, luminance: 0 });
    // A state whose block the registry does not have.
    states[4] = Some(State { block: 7, air: false, luminance: 0 });
    BlockRegistry {
        blocks: vec![
            Block { id: 0, name: "air".to_string(), default_state_id: AIR },
            Block { id: 1, name: "stone".to_string(), default_state_id: STONE },
            Block { id: 2, name: "grass_block".to_string(), default_state_id: GRASS },
        ],
        states,
    }
}

fn chunk_of_air(x: i32, z: i32) -> ChunkData {
    ChunkData { position: Vector2::new(x, z), blocks: ChunkBlocks::filled(AIR) }
}

fn at(x: i32, y: i32, z: i32) -> WorldPosition {
    WorldPosition(Vector3::new(x, y, z))
}

fn player(uuid: u128, name: &str, entity_id: i32, connected: bool) -> Player {
    Player {
        gameprofile: GameProfile { id: uuid, name: name.to_string() },
        living_entity: LivingEntity {
            entity: Entity {
                entity_id,
                entity_uuid: uuid,
                pos: Position::from_block(Vector3::new(10, 119, 10)),
                yaw: 0,
                pitch: 0,
                head_yaw: 0,
                pose: EntityPose::Standing,
            },
            last_pos: Position::new(0, 0, 0),
            health: FULL_HEALTH,
        },
        client: if connected {
            Some(Client {
                closed: false,
                config: Some(PlayerConfig { skin_parts: 0x7f, view_distance: 8 }),
            })
        } else {
            None
        },
        gamemode: GameMode::Survival,
    }
}

fn sorted(mut uuids: Vec<u128>) -> Vec<u128> {
    uuids.sort();
    uuids
}

fn sent(step: &Step) -> &Outbound {
    match step {
        Step::Send(outbound) => outbound,
        Step::Call(callout) => panic!("a packet was expected, not {callout:?}"),
    }
}

#[test]
fn a_block_that_was_set_is_read_back() {
    let world = World::load(DimensionType::Overworld);
    let mut chunk = chunk_of_air(0, 0);
    let position = at(10, 118, 10);
    let change = world.set_block_state(Some(&mut chunk), position, STONE).unwrap();
    assert_eq!(change.replaced, AIR);
    assert_eq!(world.get_block_state_id(Some(&chunk), position), Ok(STONE));
}

#[test]
fn setting_a_block_returns_what_was_there() {
    let world = World::load(DimensionType::Overworld);
    let mut chunk = chunk_of_air(-1, 2);
    let position = at(-3, -64, 47);
    let a: u16 = 17;
    let b: u16 = 4242;
    world.set_block_state(Some(&mut chunk), position, a).unwrap();
    let second = world.set_block_state(Some(&mut chunk), position, b).unwrap();
    assert_eq!(second.replaced, a);
    assert_eq!(world.get_block_state_id(Some(&chunk), position), Ok(b));
}

#[test]
fn setting_a_block_leaves_its_neighbours() {
    let world = World::load(DimensionType::Overworld);
    let mut chunk = chunk_of_air(0, 0);
    world.set_block_state(Some(&mut chunk), at(5, 10, 5), STONE).unwrap();
    for neighbour in
        [at(4, 10, 5), at(6, 10, 5), at(5, 9, 5), at(5, 11, 5), at(5, 10, 4), at(5, 10, 6)]
    {
        assert_eq!(world.get_block_state_id(Some(&chunk), neighbour), Ok(AIR));
    }
}

#[test]
fn the_corners_of_a_chunk_are_stored_apart() {
    let world = World::load(DimensionType::Overworld);
    let mut chunk = chunk_of_air(0, 0);
    let corners = [
        at(0, -64, 0),
        at(15, -64, 0),
        at(0, -64, 15),
        at(15, -64, 15),
        at(0, 319, 0),
        at(15, 319, 0),
        at(0, 319, 15),
        at(15, 319, 15),
    ];
    for (i, corner) in corners.iter().enumerate() {
        world.set_block_state(Some(&mut chunk), *corner, 100 + i as u16).unwrap();
    }
    for (i, corner) in corners.iter().enumerate() {
        assert_eq!(world.get_block_state_id(Some(&chunk), *corner), Ok(100 + i as u16));
    }
}

#[test]
fn heights_beyond_the_chunk_are_out_of_bounds() {
    let world = World::load(DimensionType::Overworld);
    let mut chunk = chunk_of_air(0, 0);
    for y in [320, -65, i32::MAX, i32::MIN] {
        assert_eq!(
            world.get_block_state_id(Some(&chunk), at(1, y, 1)),
            Err(GetBlockError::BlockOutOfWorldBounds)
        );
        assert_eq!(
            world.set_block_state(Some(&mut chunk), at(1, y, 1), STONE),
            Err(GetBlockError::BlockOutOfWorldBounds)
        );
    }
    assert_eq!(chunk, chunk_of_air(0, 0));
}

#[test]
fn a_block_of_another_chunk_is_out_of_bounds() {
    let world = World::load(DimensionType::Overworld);
    let mut chunk = chunk_of_air(0, 0);
    assert_eq!(
        world.get_block_state_id(Some(&chunk), at(16, 0, 0)),
        Err(GetBlockError::BlockOutOfWorldBounds)
    );
    assert_eq!(
        world.set_block_state(Some(&mut chunk), at(-1, 0, 0), STONE),
        Err(GetBlockError::BlockOutOfWorldBounds)
    );
    assert_eq!(world.break_block(Some(&mut chunk), at(0, 0, 16), None), Err(GetBlockError::BlockOutOfWorldBounds));
    assert_eq!(chunk, chunk_of_air(0, 0));
}

#[test]
fn chunk_blocks_tell_where_they_end() {
    let mut blocks = ChunkBlocks::filled(STONE);
    let inside = ChunkRelativeBlockCoordinates { x: 15, y: 319, z: 15 };
    assert_eq!(blocks.get_block(inside), Some(STONE));
    assert_eq!(blocks.set_block(inside, GRASS), Some(STONE));
    assert_eq!(blocks.get_block(inside), Some(GRASS));
    for outside in [
        ChunkRelativeBlockCoordinates { x: 16, y: 0, z: 0 },
        ChunkRelativeBlockCoordinates { x: 0, y: 0, z: 16 },
        ChunkRelativeBlockCoordinates { x: 0, y: 320, z: 0 },
        ChunkRelativeBlockCoordinates { x: 0, y: -65, z: 0 },
    ] {
        assert_eq!(blocks.get_block(outside), None);
        assert_eq!(blocks.set_block(outside, GRASS), None);
    }
}

#[test]
fn relative_coordinates_must_lie_in_a_chunk() {
    assert_eq!(
        ChunkRelativeBlockCoordinates::from_relative(Vector3::new(3, 500, 15)),
        Some(ChunkRelativeBlockCoordinates { x: 3, y: 500, z: 15 })
    );
    assert_eq!(ChunkRelativeBlockCoordinates::from_relative(Vector3::new(16, 0, 0)), None);
    assert_eq!(ChunkRelativeBlockCoordinates::from_relative(Vector3::new(0, 0, -1)), None);
}

#[test]
fn blocks_and_states_are_looked_up_by_state_id() {
    let world = World::load(DimensionType::Overworld);
    let registry = registry();
    let mut chunk = chunk_of_air(0, 0);
    let position = at(1, 2, 3);
    world.set_block_state(Some(&mut chunk), position, GRASS).unwrap();
    assert_eq!(world.get_block(Some(&chunk), &registry, position).unwrap().name, "grass_block");
    assert!(!world.get_block_state(Some(&chunk), &registry, position).unwrap().air);
    let (block, state) = world.get_block_and_block_state(Some(&chunk), &registry, position).unwrap();
    assert_eq!(block.id, 2);
    assert_eq!(state.block, 2);
    assert!(world.get_block_state(Some(&chunk), &registry, at(1, 3, 3)).unwrap().air);
}

#[test]
fn an_id_that_the_registry_does_not_know_is_invalid() {
    let world = World::load(DimensionType::Overworld);
    let registry = registry();
    let mut chunk = chunk_of_air(0, 0);
    // No state at this id, a state without a block, an id past the table.
    for (y, id) in [(0, UNKNOWN), (1, 4), (2, 60_000)] {
        let position = at(0, y, 0);
        world.set_block_state(Some(&mut chunk), position, id).unwrap();
        assert_eq!(
            world.get_block(Some(&chunk), &registry, position),
            Err(GetBlockError::InvalidBlockId)
        );
        assert_eq!(
            world.get_block_state(Some(&chunk), &registry, position),
            Err(GetBlockError::InvalidBlockId)
        );
        assert_eq!(
            world.get_block_and_block_state(Some(&chunk), &registry, position),
            Err(GetBlockError::InvalidBlockId)
        );
    }
    assert_eq!(
        world.get_block(Some(&chunk), &registry, at(0, 400, 0)),
        Err(GetBlockError::BlockOutOfWorldBounds)
    );
    assert_eq!(registry.get_block_by_state_id(UNKNOWN), None);
    assert_eq!(registry.get_state_by_state_id(4), None);
    assert_eq!(registry.get_block_and_state_by_state_id(STONE).unwrap().0.name, "stone");
}

#[test]
fn the_top_block_is_the_highest_that_is_not_air() {
    let world = World::load(DimensionType::Overworld);
    let registry = registry();
    let mut chunk = chunk_of_air(0, 0);
    world.set_block_state(Some(&mut chunk), at(10, 60, 10), STONE).unwrap();
    world.set_block_state(Some(&mut chunk), at(10, 118, 10), GRASS).unwrap();
    world.set_block_state(Some(&mut chunk), at(11, 200, 10), STONE).unwrap();
    assert_eq!(world.get_top_block(Some(&chunk), &registry, Vector2::new(10, 10)), 118);
    assert_eq!(world.get_top_block(Some(&chunk), &registry, Vector2::new(11, 10)), 200);
}

#[test]
fn a_column_of_air_has_its_top_at_the_bottom() {
    let world = World::load(DimensionType::Overworld);
    let registry = registry();
    let chunk = chunk_of_air(0, 0);
    assert_eq!(world.get_top_block(Some(&chunk), &registry, Vector2::new(10, 10)), -64);
}

#[test]
fn the_top_block_may_be_the_highest_or_the_lowest_of_all() {
    let world = World::load(DimensionType::Overworld);
    let registry = registry();
    let mut chunk = chunk_of_air(0, 0);
    world.set_block_state(Some(&mut chunk), at(0, -64, 0), STONE).unwrap();
    assert_eq!(world.get_top_block(Some(&chunk), &registry, Vector2::new(0, 0)), -64);
    world.set_block_state(Some(&mut chunk), at(0, 319, 0), STONE).unwrap();
    assert_eq!(world.get_top_block(Some(&chunk), &registry, Vector2::new(0, 0)), 319);
}

#[test]
fn a_block_that_cannot_be_read_is_not_air() {
    let world = World::load(DimensionType::Overworld);
    let registry = registry();
    let mut chunk = chunk_of_air(0, 0);
    world.set_block_state(Some(&mut chunk), at(3, 70, 3), UNKNOWN).unwrap();
    assert_eq!(world.get_top_block(Some(&chunk), &registry, Vector2::new(3, 3)), 70);
    // The column lies in another chunk: nothing of it can be read.
    assert_eq!(world.get_top_block(Some(&chunk), &registry, Vector2::new(16, 3)), 319);
}

#[test]
fn a_block_update_is_for_every_connected_player() {
    let mut world = World::load(DimensionType::Overworld);
    world.add_player(1, player(1, "alex", 1, true));
    world.add_player(2, player(2, "steve", 2, true));
    world.add_player(3, player(3, "ghost", 3, false));
    let mut chunk = chunk_of_air(0, 0);
    let position = at(10, 118, 10);
    let change = world.set_block_state(Some(&mut chunk), position, STONE).unwrap();
    assert_eq!(change.update.packet, Packet::BlockUpdate { location: position, block_state_id: STONE });
    assert_eq!(sorted(change.update.recipients), vec![1, 2]);
}

#[test]
fn breaking_the_surface_block_shows_particles_to_the_others() {
    let mut world = World::load(DimensionType::Overworld);
    let breaker: u128 = 1;
    world.add_player(breaker, player(breaker, "alex", 1, true));
    world.add_player(2, player(2, "steve", 2, true));
    world.add_player(3, player(3, "herobrine", 3, true));
    let mut chunk = chunk_of_air(0, 0);
    let position = at(10, 118, 10);
    world.set_block_state(Some(&mut chunk), position, GRASS).unwrap();
    assert_eq!(
        world.get_player_by_uuid(breaker).unwrap().living_entity.entity.pos.block_pos(),
        at(10, 119, 10)
    );

    let broken = world.break_block(Some(&mut chunk), position, Some(breaker)).unwrap();

    assert_eq!(broken.replaced, GRASS);
    assert_eq!(world.get_block_state_id(Some(&chunk), position), Ok(AIR));
    // The update comes first, the particles after it.
    assert_eq!(broken.plan.len(), 2);
    let update = sent(&broken.plan[0]);
    assert_eq!(update.packet, Packet::BlockUpdate { location: position, block_state_id: AIR });
    assert_eq!(sorted(update.recipients.clone()), vec![1, 2, 3]);
    let particles = sent(&broken.plan[1]);
    assert_eq!(
        particles.packet,
        Packet::WorldEvent { event: BLOCK_BREAK_EVENT, location: position, data: GRASS as i32 }
    );
    assert_eq!(sorted(particles.recipients.clone()), vec![2, 3]);
}

#[test]
fn a_block_that_breaks_by_itself_shows_particles_to_all() {
    let mut world = World::load(DimensionType::Overworld);
    world.add_player(1, player(1, "alex", 1, true));
    world.add_player(2, player(2, "steve", 2, true));
    let mut chunk = chunk_of_air(0, 0);
    let position = at(0, 0, 0);
    world.set_block_state(Some(&mut chunk), position, STONE).unwrap();
    let broken = world.break_block(Some(&mut chunk), position, None).unwrap();
    assert_eq!(broken.replaced, STONE);
    assert_eq!(broken.plan.len(), 2);
    let update = sent(&broken.plan[0]);
    assert_eq!(update.packet, Packet::BlockUpdate { location: position, block_state_id: AIR });
    assert_eq!(sorted(update.recipients.clone()), vec![1, 2]);
    let particles = sent(&broken.plan[1]);
    assert_eq!(sorted(particles.recipients.clone()), vec![1, 2]);
    assert_eq!(particles.packet, Packet::WorldEvent { event: 2001, location: position, data: 1 });
}

#[test]
fn a_block_breaks_unseen_where_nobody_has_a_connection() {
    let mut world = World::load(DimensionType::Overworld);
    world.add_player(1, player(1, "ghost", 1, false));
    let mut chunk = chunk_of_air(0, 0);
    let position = at(0, 0, 0);
    world.set_block_state(Some(&mut chunk), position, STONE).unwrap();
    let broken = world.break_block(Some(&mut chunk), position, Some(1)).unwrap();
    assert_eq!(broken.replaced, STONE);
    assert_eq!(
        broken.plan,
        vec![
            Step::Send(Outbound {
                packet: Packet::BlockUpdate { location: position, block_state_id: AIR },
                recipients: vec![],
            }),
            Step::Send(Outbound {
                packet: Packet::WorldEvent { event: 2001, location: position, data: 1 },
                recipients: vec![],
            }),
        ]
    );
}

#[test]
fn a_chunk_that_was_withheld_has_no_blocks() {
    let mut world = World::load(DimensionType::Overworld);
    world.add_player(1, player(1, "alex", 1, true));
    let registry = registry();
    let position = at(10, 118, 10);
    assert_eq!(world.get_block_state_id(None, position), Err(GetBlockError::BlockOutOfWorldBounds));
    assert_eq!(world.get_block(None, &registry, position), Err(GetBlockError::BlockOutOfWorldBounds));
    assert_eq!(
        world.get_block_state(None, &registry, position),
        Err(GetBlockError::BlockOutOfWorldBounds)
    );
    assert_eq!(
        world.get_block_and_block_state(None, &registry, position),
        Err(GetBlockError::BlockOutOfWorldBounds)
    );
    assert_eq!(
        world.set_block_state(None, position, STONE),
        Err(GetBlockError::BlockOutOfWorldBounds)
    );
    assert_eq!(
        world.break_block(None, position, Some(1)),
        Err(GetBlockError::BlockOutOfWorldBounds)
    );
    // Nothing of the column can be read: its highest block is not known
    // to be air.
    assert_eq!(world.get_top_block(None, &registry, Vector2::new(10, 10)), 319);
}
