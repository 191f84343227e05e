use pumpkin::world::entity::{
    Client, DimensionType, Entity, EntityPose, GameMode, GameProfile, LivingEntity, Player,
    FULL_HEALTH,
};
use pumpkin::world::level_time::LevelTime;
use pumpkin::world::math::{Position, Vector3, WorldPosition};
use pumpkin::world::packet::{Callout, Outbound, Packet, SoundCategory, Step};
use pumpkin::world::sound::SEED_LIMIT;
use pumpkin::world::World;

fn player(uuid: u128, connected: bool) -> Player {
    Player {
        gameprofile: GameProfile { id: uuid, name: format!("player{uuid}") },
        living_entity: LivingEntity {
            entity: Entity {
                entity_id: uuid as i32,
                entity_uuid: uuid,
                pos: Position::new(0, 0, 0),
                yaw: 0,
                pitch: 0,
                head_yaw: 0,
                pose: EntityPose::Standing,
            },
            last_pos: Position::new(0, 0, 0),
            health: FULL_HEALTH,
        },
        client: if connected { Some(Client { closed: false, config: None }) } else { None },
        gamemode: GameMode::Creative,
    }
}

fn world_of(connected: &[u128], unconnected: &[u128]) -> World {
    let mut world = World::load(DimensionType::Overworld);
    for uuid in connected {
        world.add_player(*uuid, player(*uuid, true));
    }
    for uuid in unconnected {
        world.add_player(*uuid, player(*uuid, false));
    }
    world
}

fn sorted(mut uuids: Vec<u128>) -> Vec<u128> {
    uuids.sort();
    uuids
}

#[test]
fn a_broadcast_reaches_every_connected_player_once() {
    let world = world_of(&[1, 2, 3, 4, 5], &[6, 7]);
    let out = world.broadcast_packet_all(Packet::StartWaitingChunks);
    assert_eq!(out.packet, Packet::StartWaitingChunks);
    assert_eq!(sorted(out.recipients), vec![1, 2, 3, 4, 5]);
}

#[test]
fn a_broadcast_in_an_empty_world_reaches_nobody() {
    let world = world_of(&[], &[]);
    let out = world.broadcast_packet_all(Packet::RemoveEntities { entity_id: 1 });
    assert_eq!(out, Outbound { packet: Packet::RemoveEntities { entity_id: 1 }, recipients: vec![] });
}

#[test]
fn nothing_is_sent_to_an_excluded_player() {
    for excluded in 1..=5u128 {
        let world = world_of(&[1, 2, 3, 4, 5], &[6]);
        let out = world.broadcast_packet_except(&[excluded], Packet::StartWaitingChunks);
        assert!(!out.recipients.contains(&excluded));
        let expected: Vec<u128> = (1..=5).filter(|uuid| *uuid != excluded).collect();
        assert_eq!(sorted(out.recipients), expected);
    }
}

#[test]
fn excluding_strangers_or_nobody_changes_nothing() {
    let world = world_of(&[1, 2], &[3]);
    let out = world.broadcast_packet_except(&[], Packet::StartWaitingChunks);
    assert_eq!(sorted(out.recipients), vec![1, 2]);
    let out = world.broadcast_packet_except(&[3, 99, 99], Packet::StartWaitingChunks);
    assert_eq!(sorted(out.recipients), vec![1, 2]);
    let out = world.broadcast_packet_except(&[2, 1, 2], Packet::StartWaitingChunks);
    assert_eq!(out.recipients, Vec::<u128>::new());
}

#[test]
fn a_sound_takes_the_upper_bits_as_its_seed() {
    let world = world_of(&[1, 2], &[3]);
    let position = Position::new(1, 2, 3);
    let sound = world.play_sound_seeded(42, SoundCategory::Hostile, &position, u64::MAX);
    assert_eq!(
        sound.packet,
        Packet::SoundEffect {
            sound_id: 42,
            category: SoundCategory::Hostile,
            position,
            seed: SEED_LIMIT - 1
        }
    );
    assert_eq!(sorted(sound.recipients), vec![1, 2]);
    let sound = world.play_sound_seeded(42, SoundCategory::Hostile, &position, 2047);
    assert_eq!(
        sound.packet,
        Packet::SoundEffect { sound_id: 42, category: SoundCategory::Hostile, position, seed: 0 }
    );
    let sound = world.play_sound_seeded(42, SoundCategory::Hostile, &position, 0x8000_0000_0000_0000);
    assert_eq!(
        sound.packet,
        Packet::SoundEffect {
            sound_id: 42,
            category: SoundCategory::Hostile,
            position,
            seed: SEED_LIMIT / 2
        }
    );
}

#[test]
fn a_sound_with_a_random_seed_says_what_was_asked() {
    let world = world_of(&[1], &[]);
    let position = Position::new(-5, 6, 7);
    let mut seeds = Vec::new();
    for _ in 0..16 {
        let sound = world.play_sound(7, SoundCategory::Music, &position);
        assert_eq!(sound.recipients, vec![1]);
        match sound.packet {
            Packet::SoundEffect { sound_id, category, position: at, seed } => {
                assert_eq!(sound_id, 7);
                assert_eq!(category, SoundCategory::Music);
                assert_eq!(at, position);
                assert!(seed < SEED_LIMIT);
                seeds.push(seed);
            },
            other => panic!("a sound was expected, not {other:?}"),
        }
    }
    seeds.dedup();
    assert!(seeds.len() > 1);
}

#[test]
fn a_block_sounds_from_its_middle() {
    let world = world_of(&[1], &[2]);
    let sound = world.play_block_sound(3, WorldPosition(Vector3::new(1, -2, 3)));
    assert_eq!(sound.recipients, vec![1]);
    match sound.packet {
        Packet::SoundEffect { sound_id, category, position, seed } => {
            assert_eq!(sound_id, 3);
            assert_eq!(category, SoundCategory::Blocks);
            assert_eq!(position, Position::new(4096 + 2048, -8192 + 2048, 12288 + 2048));
            assert!(seed < SEED_LIMIT);
        },
        other => panic!("a sound was expected, not {other:?}"),
    }
}

#[test]
fn records_start_and_stop() {
    let world = world_of(&[1, 2], &[]);
    let position = WorldPosition(Vector3::new(4, 5, 6));
    let start = world.play_record(2256, position);
    assert_eq!(start.packet, Packet::LevelEvent { event: 1010, location: position, data: 2256 });
    assert_eq!(sorted(start.recipients), vec![1, 2]);
    let stop = world.stop_record(position);
    assert_eq!(stop.packet, Packet::LevelEvent { event: 1011, location: position, data: 0 });
    assert_eq!(sorted(stop.recipients), vec![1, 2]);
}

#[test]
fn the_time_is_told_at_every_twentieth_tick() {
    let mut world = world_of(&[1, 2], &[3]);
    for tick in 1..=60i64 {
        let plan = world.tick();
        assert_eq!(world.level_time, LevelTime { world_age: tick, time_of_day: tick });
        let mut ticked = Vec::new();
        let mut times = Vec::new();
        for step in &plan {
            match step {
                Step::Call(Callout::Tick { player }) => ticked.push(*player),
                Step::Send(outbound) => times.push(outbound.clone()),
                other => panic!("unexpected step {other:?}"),
            }
        }
        assert_eq!(sorted(ticked), vec![1, 2, 3]);
        if tick % 20 == 0 {
            assert_eq!(times.len(), 1);
            assert_eq!(times[0].packet, Packet::UpdateTime { world_age: tick, time_of_day: tick });
            assert_eq!(sorted(times[0].recipients.clone()), vec![1, 2]);
            assert!(matches!(plan[0], Step::Send(_)));
        } else {
            assert!(times.is_empty());
        }
    }
}

#[test]
fn a_world_that_began_before_zero_tells_the_time_at_multiples_of_twenty() {
    let mut world = world_of(&[1], &[]);
    world.level_time = LevelTime { world_age: -41, time_of_day: 5 };
    let plan = world.tick();
    assert_eq!(plan.len(), 2);
    assert!(matches!(plan[0], Step::Send(_)));
    let plan = world.tick();
    assert_eq!(plan.len(), 1);
    assert_eq!(world.level_time, LevelTime { world_age: -39, time_of_day: 7 });
    assert!(LevelTime { world_age: -20, time_of_day: 0 }.is_broadcast_tick());
    assert!(!LevelTime { world_age: -1, time_of_day: 0 }.is_broadcast_tick());
    assert!(LevelTime { world_age: 0, time_of_day: 0 }.is_broadcast_tick());
    assert!(!LevelTime { world_age: i64::MIN, time_of_day: 0 }.is_broadcast_tick());
}

#[test]
fn an_empty_world_ticks_too() {
    let mut world = world_of(&[], &[]);
    assert!(world.tick().is_empty());
    assert_eq!(world.level_time, LevelTime { world_age: 1, time_of_day: 1 });
    let mut clock = LevelTime::new();
    clock.tick_time();
    assert_eq!(clock, world.level_time);
}
