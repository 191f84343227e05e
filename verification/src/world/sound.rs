//! Sounds and records: packets for everybody.

use super::math::{Position, WorldPosition};
use super::packet::{
    Outbound, Packet, PacketView, SoundCategory, PLAY_RECORD_EVENT, STOP_RECORD_EVENT,
};
use super::World;
use rand::Rng;
use vstd::prelude::*;

verus! {

/// One more than the largest seed of a sound: `2^53`.
pub const SEED_LIMIT: u64 = 0x20_0000_0000_0000;

/// The seed that is made of 64 random bits: the upper 53 of them. Read as
/// a count of steps of `2^-53`, it is a number from 0 up to 1, each as
/// likely as the other.
pub open spec fn seed_from(bits: u64) -> u64 {
    bits / 2048
}

/// Draws 64 bits from the random number generator of the current thread:
/// `rand::thread_rng`, then `Rng::gen`. Nothing is known of the bits that
/// come back. The generator seeds itself from the operating system when a
/// thread first uses it.
#[verifier::external_body]
fn random_bits() -> u64 {
    rand::thread_rng().gen::<u64>()
}

impl World {
    /// Plays a sound at `position` for every player with a connection,
    /// with the seed made of `bits`.
    pub fn play_sound_seeded(
        &self,
        sound_id: u16,
        category: SoundCategory,
        position: &Position,
        bits: u64,
    ) -> (sound: Outbound)
        ensures
            sound.packet@ == (PacketView::SoundEffect {
                sound_id,
                category,
                position: *position,
                seed: seed_from(bits),
            }),
            seed_from(bits) < SEED_LIMIT,
            sound.recipients@.no_duplicates(),
            forall|uuid: u128| #[trigger] sound.recipients@.contains(uuid) <==> self.connected(uuid),
    {
        self.broadcast_packet_all(
            Packet::SoundEffect { sound_id, category, position: *position, seed: bits / 2048 },
        )
    }

    /// Plays a sound at `position` for every player with a connection. The
    /// seed is drawn at random.
    pub fn play_sound(&self, sound_id: u16, category: SoundCategory, position: &Position) -> (sound:
        Outbound)
        ensures
            exists|bits: u64|
                sound.packet@ == (PacketView::SoundEffect {
                    sound_id,
                    category,
                    position: *position,
                    seed: #[trigger] seed_from(bits),
                }),
            sound.recipients@.no_duplicates(),
            forall|uuid: u128| #[trigger] sound.recipients@.contains(uuid) <==> self.connected(uuid),
    {
        let bits = random_bits();
        self.play_sound_seeded(sound_id, category, position, bits)
    }

    /// Plays the sound of a block in the middle of that block.
    pub fn play_block_sound(&self, sound_id: u16, position: WorldPosition) -> (sound: Outbound)
        ensures
            exists|bits: u64|
                sound.packet@ == (PacketView::SoundEffect {
                    sound_id,
                    category: SoundCategory::Blocks,
                    position: Position::spec_block_center(position.0),
                    seed: #[trigger] seed_from(bits),
                }),
            sound.recipients@.no_duplicates(),
            forall|uuid: u128| #[trigger] sound.recipients@.contains(uuid) <==> self.connected(uuid),
    {
        let middle = Position::block_center(position.0);
        self.play_sound(sound_id, SoundCategory::Blocks, &middle)
    }

    /// Starts the record `record_id` in the jukebox at `position`.
    pub fn play_record(&self, record_id: i32, position: WorldPosition) -> (event: Outbound)
        ensures
            event.packet@ == (PacketView::LevelEvent {
                event: PLAY_RECORD_EVENT,
                location: position,
                data: record_id,
            }),
            event.recipients@.no_duplicates(),
            forall|uuid: u128| #[trigger] event.recipients@.contains(uuid) <==> self.connected(uuid),
    {
        self.broadcast_packet_all(
            Packet::LevelEvent { event: PLAY_RECORD_EVENT, location: position, data: record_id },
        )
    }

    /// Stops the record in the jukebox at `position`.
    pub fn stop_record(&self, position: WorldPosition) -> (event: Outbound)
        ensures
            event.packet@ == (PacketView::LevelEvent {
                event: STOP_RECORD_EVENT,
                location: position,
                data: 0,
            }),
            event.recipients@.no_duplicates(),
            forall|uuid: u128| #[trigger] event.recipients@.contains(uuid) <==> self.connected(uuid),
    {
        self.broadcast_packet_all(
            Packet::LevelEvent { event: STOP_RECORD_EVENT, location: position, data: 0 },
        )
    }
}

} // verus!
