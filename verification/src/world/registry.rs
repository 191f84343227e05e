//! Who is in the world: adding, removing and finding players and living
//! entities.

use super::broadcast::keys_of;
use super::entity::{Entity, EntityId, EntityPose, LivingEntity, Player};
use super::math::{Position, WorldPosition};
use super::packet::{
    lemma_plan_view_push, plan_view, send, NamedColor, Outbound, Packet, PacketView, Step,
    StepView,
};
use super::World;
use std::collections::HashMap;
use vstd::prelude::*;
use vstd::string::StringExecFns;

verus! {

/// Milliseconds between the death of a living entity and its removal: the
/// time in which clients show it dying.
pub const GRACE_DELAY_MILLIS: u64 = 2000;

/// A player that has left, and what the others are told.
#[derive(Clone, Debug, PartialEq, Eq)]
pub struct Departure {
    pub player: Player,
    pub plan: Vec<Step>,
}

/// The removal of a living entity that has died, to be carried out with
/// [`World::despawn_living_entity`] once the delay is over.
#[derive(Clone, Copy, Debug, PartialEq, Eq, Structural)]
pub struct DeferredRemoval {
    pub uuid: u128,
    pub entity_id: EntityId,
    pub delay_millis: u64,
}

/// The first `i + 1` items of a sequence are its first `i` items and the
/// one that follows them.
proof fn lemma_one_more(order: Seq<u128>, i: int)
    requires
        0 <= i < order.len(),
    ensures
        forall|uuid: u128| #[trigger]
            order.take(i + 1).contains(uuid) <==> order.take(i).contains(uuid) || order[i] == uuid,
{
    let longer = order.take(i + 1);
    let shorter = order.take(i);
    assert forall|uuid: u128| #[trigger]
        longer.contains(uuid) <==> shorter.contains(uuid) || order[i] == uuid by {
        if longer.contains(uuid) {
            let k = choose|k: int| 0 <= k < longer.len() && longer[k] == uuid;
            if k < i {
                assert(shorter[k] == uuid);
            }
        }
        if shorter.contains(uuid) {
            let k = choose|k: int| 0 <= k < shorter.len() && shorter[k] == uuid;
            assert(longer[k] == uuid);
        }
        assert(longer[i] == order[i]);
    }
}

/// A change to the players of a world.
pub enum RegistryChange {
    Added { uuid: u128, player: Player },
    Removed { uuid: u128 },
}

impl RegistryChange {
    /// The UUID that the change is about.
    pub open spec fn uuid(self) -> u128 {
        match self {
            RegistryChange::Added { uuid, .. } => uuid,
            RegistryChange::Removed { uuid } => uuid,
        }
    }
}

/// The players after one change, as [`World::add_player`] and
/// [`World::remove_player`] make it.
pub open spec fn after_change(players: Map<u128, Player>, change: RegistryChange) -> Map<
    u128,
    Player,
> {
    match change {
        RegistryChange::Added { uuid, player } => players.insert(uuid, player),
        RegistryChange::Removed { uuid } => players.remove(uuid),
    }
}

/// The players after a row of changes, made one after the other.
pub open spec fn after_changes(players: Map<u128, Player>, changes: Seq<RegistryChange>) -> Map<
    u128,
    Player,
>
    decreases changes.len(),
{
    if changes.len() == 0 {
        players
    } else {
        after_change(after_changes(players, changes.drop_last()), changes.last())
    }
}

/// Whatever is added and removed, and in whatever order: a player that
/// was added is found under its UUID as long as that UUID is not removed.
pub proof fn lemma_added_player_is_found(
    players: Map<u128, Player>,
    changes: Seq<RegistryChange>,
    i: int,
)
    requires
        0 <= i < changes.len(),
        changes[i] is Added,
        forall|j: int|
            i < j < changes.len() ==> !(changes[j] is Removed && changes[j].uuid()
                == changes[i].uuid()),
    ensures
        after_changes(players, changes).contains_key(changes[i].uuid()),
    decreases changes.len(),
{
    if i < changes.len() - 1 {
        lemma_added_player_is_found(players, changes.drop_last(), i);
    }
}

/// The player that is found under a UUID is the one that was added under
/// it last.
pub proof fn lemma_last_added_player_is_kept(
    players: Map<u128, Player>,
    changes: Seq<RegistryChange>,
    i: int,
)
    requires
        0 <= i < changes.len(),
        changes[i] is Added,
        forall|j: int| i < j < changes.len() ==> changes[j].uuid() != changes[i].uuid(),
    ensures
        after_changes(players, changes).contains_key(changes[i].uuid()),
        after_changes(players, changes)[changes[i].uuid()] == changes[i]->player,
    decreases changes.len(),
{
    if i < changes.len() - 1 {
        lemma_last_added_player_is_kept(players, changes.drop_last(), i);
    }
}

/// Whatever is added and removed: no UUID is ever in the world twice. The
/// players are counted by their UUIDs: adding under a UUID that is taken
/// replaces the player and adds none, adding under a new one adds one, and
/// removing takes away at most one.
pub proof fn lemma_one_player_for_each_uuid(players: Map<u128, Player>, change: RegistryChange)
    requires
        players.dom().finite(),
    ensures
        after_change(players, change).dom().finite(),
        after_change(players, change).dom().len() == match change {
            RegistryChange::Added { uuid, .. } => if players.contains_key(uuid) {
                players.dom().len() as int
            } else {
                players.dom().len() as int + 1
            },
            RegistryChange::Removed { uuid } => if players.contains_key(uuid) {
                players.dom().len() as int - 1
            } else {
                players.dom().len() as int
            },
        },
{
    match change {
        RegistryChange::Added { uuid, player } => {
            assert(players.insert(uuid, player).dom() =~= players.dom().insert(uuid));
        },
        RegistryChange::Removed { uuid } => {
            assert(players.remove(uuid).dom() =~= players.dom().remove(uuid));
        },
    }
}

impl World {
    /// What the others are told when the player `uuid` has left: that its
    /// entry is gone, that its entity is gone, and the message that names
    /// it. `self` is the world without the player, whose players are
    /// walked in `order`.
    pub open spec fn leave_plan(&self, uuid: u128, player: Player, order: Seq<u128>) -> Seq<
        StepView,
    > {
        seq![
            send(PacketView::RemovePlayerInfo { player: uuid }, self.audience(order, seq![uuid])),
            send(
                PacketView::RemoveEntities { entity_id: player.living_entity.entity.entity_id },
                self.audience(order, Seq::empty()),
            ),
            send(
                PacketView::SystemMessage {
                    text: player.gameprofile.name@ + " left the game."@,
                    color: NamedColor::Yellow,
                },
                self.audience(order, Seq::empty()),
            ),
        ]
    }

    /// Whether the player `uuid` stands in the block at `position`.
    pub open spec fn stands_at(&self, uuid: u128, position: WorldPosition) -> bool {
        &&& self.current_players@.contains_key(uuid)
        &&& self.current_players@[uuid].living_entity.entity.pos.spec_block_pos() == position
    }

    /// Whether the player `uuid` is within `radius` blocks of `pos`.
    pub open spec fn is_near(&self, uuid: u128, pos: Position, radius: u16) -> bool {
        &&& self.current_players@.contains_key(uuid)
        &&& self.current_players@[uuid].living_entity.entity.pos.spec_within(pos, radius)
    }

    /// Puts a player into the world under `uuid`, in place of any player
    /// that was there under that UUID, and tells every player with a
    /// connection, the new one too, who has joined.
    pub fn add_player(&mut self, uuid: u128, player: Player) -> (announcement: Outbound)
        ensures
            final(self).current_players@ == old(self).current_players@.insert(uuid, player),
            final(self).current_living_entities@ == old(self).current_living_entities@,
            final(self).level_time == old(self).level_time,
            final(self).dimension_type == old(self).dimension_type,
            final(self).spawn_column == old(self).spawn_column,
            announcement.packet@ == (PacketView::SystemMessage {
                text: player.gameprofile.name@ + " joined the game."@,
                color: NamedColor::Yellow,
            }),
            announcement.recipients@.no_duplicates(),
            forall|other: u128| #[trigger]
                announcement.recipients@.contains(other) <==> final(self).connected(other),
    {
        broadcast use vstd::std_specs::hash::group_hash_axioms;

        let mut text = player.gameprofile.name.clone();
        text.append(" joined the game.");
        self.current_players.insert(uuid, player);
        self.broadcast_packet_all(Packet::SystemMessage { text, color: NamedColor::Yellow })
    }

    /// Takes the player `uuid` out of the world and says what the others
    /// are told: first that the player's entry is gone, then that its
    /// entity is gone, then the message that it has left.
    ///
    /// The player must be in the world: to remove one that is not there is
    /// a fault of the caller.
    pub fn remove_player(&mut self, uuid: u128) -> (departure: Departure)
        requires
            old(self).current_players@.contains_key(uuid),
        ensures
            final(self).current_players@ == old(self).current_players@.remove(uuid),
            final(self).current_living_entities@ == old(self).current_living_entities@,
            final(self).level_time == old(self).level_time,
            final(self).dimension_type == old(self).dimension_type,
            final(self).spawn_column == old(self).spawn_column,
            departure.player == old(self).current_players@[uuid],
            exists|order: Seq<u128>| #[trigger]
                final(self).enumerates_players(order) && plan_view(departure.plan@) == final(self).leave_plan(uuid, departure.player, order),
    {
        broadcast use vstd::std_specs::hash::group_hash_axioms;

        let player = self.current_players.remove(&uuid).unwrap();
        let order = self.player_uuids();
        let nobody: Vec<u128> = Vec::new();
        let gone: [u128; 1] = [uuid];
        assert(nobody@ =~= Seq::<u128>::empty());
        assert(gone@ =~= seq![uuid]);
        let mut text = player.gameprofile.name.clone();
        text.append(" left the game.");
        let mut plan: Vec<Step> = Vec::new();
        let entry_gone = Step::Send(
            Outbound {
                packet: Packet::RemovePlayerInfo { player: uuid },
                recipients: self.audience_among(&order, gone.as_slice()),
            },
        );
        let entity_gone = Step::Send(
            Outbound {
                packet: Packet::RemoveEntities { entity_id: player.entity_id() },
                recipients: self.audience_among(&order, nobody.as_slice()),
            },
        );
        let message = Step::Send(
            Outbound {
                packet: Packet::SystemMessage { text, color: NamedColor::Yellow },
                recipients: self.audience_among(&order, nobody.as_slice()),
            },
        );
        proof {
            lemma_plan_view_push(plan@, entry_gone);
            lemma_plan_view_push(plan@.push(entry_gone), entity_gone);
            lemma_plan_view_push(plan@.push(entry_gone).push(entity_gone), message);
        }
        plan.push(entry_gone);
        plan.push(entity_gone);
        plan.push(message);
        assert(plan_view(plan@) =~= self.leave_plan(uuid, player, order@));
        assert(self.enumerates_players(order@));
        Departure { player, plan }
    }

    /// Puts a living entity into the world under `uuid`.
    pub fn add_living_entity(&mut self, uuid: u128, living_entity: LivingEntity)
        ensures
            final(self).current_living_entities@ == old(self).current_living_entities@.insert(
                uuid,
                living_entity,
            ),
            final(self).current_players@ == old(self).current_players@,
            final(self).level_time == old(self).level_time,
            final(self).dimension_type == old(self).dimension_type,
            final(self).spawn_column == old(self).spawn_column,
    {
        broadcast use vstd::std_specs::hash::group_hash_axioms;

        self.current_living_entities.insert(uuid, living_entity);
    }

    /// Lets the living entity `uuid` die. It takes the pose of the dying
    /// and stays in the world, where it is still found, until
    /// [`World::despawn_living_entity`] is called with the removal that
    /// comes back; the caller does so when the delay named there is over.
    ///
    /// Where there is no such entity, nothing changes and nothing is to be
    /// done later.
    pub fn remove_living_entity(&mut self, uuid: u128) -> (removal: Option<DeferredRemoval>)
        ensures
            final(self).current_players@ == old(self).current_players@,
            final(self).level_time == old(self).level_time,
            final(self).dimension_type == old(self).dimension_type,
            final(self).spawn_column == old(self).spawn_column,
            match removal {
                Some(removal) => {
                    &&& old(self).current_living_entities@.contains_key(uuid)
                    &&& removal == (DeferredRemoval {
                        uuid,
                        entity_id: old(self).current_living_entities@[uuid].entity.entity_id,
                        delay_millis: GRACE_DELAY_MILLIS,
                    })
                    &&& final(self).current_living_entities@ == old(self).current_living_entities@.insert(
                        uuid,
                        old(self).current_living_entities@[uuid].dying(),
                    )
                },
                None => {
                    &&& !old(self).current_living_entities@.contains_key(uuid)
                    &&& final(self).current_living_entities@ == old(self).current_living_entities@
                },
            },
    {
        broadcast use vstd::std_specs::hash::group_hash_axioms;

        match self.current_living_entities.remove(&uuid) {
            Some(living_entity) => {
                let mut living_entity = living_entity;
                living_entity.entity.pose = EntityPose::Dying;
                self.current_living_entities.insert(uuid, living_entity);
                assert(self.current_living_entities@ =~= old(self).current_living_entities@.insert(
                    uuid,
                    old(self).current_living_entities@[uuid].dying(),
                ));
                Some(
                    DeferredRemoval {
                        uuid,
                        entity_id: living_entity.entity.entity_id,
                        delay_millis: GRACE_DELAY_MILLIS,
                    },
                )
            },
            None => {
                assert(self.current_living_entities@ =~= old(self).current_living_entities@);
                None
            },
        }
    }

    /// Carries out the removal of a living entity that has died: every
    /// player with a connection is told once that the entity is gone, and
    /// the entity is in the world no longer.
    pub fn despawn_living_entity(&mut self, removal: DeferredRemoval) -> (news: Outbound)
        ensures
            final(self).current_living_entities@ == old(self).current_living_entities@.remove(
                removal.uuid,
            ),
            final(self).current_players@ == old(self).current_players@,
            final(self).level_time == old(self).level_time,
            final(self).dimension_type == old(self).dimension_type,
            final(self).spawn_column == old(self).spawn_column,
            news.packet@ == (PacketView::RemoveEntities { entity_id: removal.entity_id }),
            news.recipients@.no_duplicates(),
            forall|uuid: u128| #[trigger] news.recipients@.contains(uuid) <==> old(self).connected(uuid),
    {
        broadcast use vstd::std_specs::hash::group_hash_axioms;

        let news = self.broadcast_packet_all(Packet::RemoveEntities { entity_id: removal.entity_id });
        self.current_living_entities.remove(&removal.uuid);
        news
    }

    /// Tells every player with a connection that an entity is gone.
    pub fn remove_entity(&self, entity: &Entity) -> (news: Outbound)
        ensures
            news.packet@ == (PacketView::RemoveEntities { entity_id: entity.entity_id }),
            news.recipients@.no_duplicates(),
            forall|uuid: u128| #[trigger] news.recipients@.contains(uuid) <==> self.connected(uuid),
    {
        self.broadcast_packet_all(Packet::RemoveEntities { entity_id: entity.entity_id })
    }

    /// The player with the UUID `id`.
    pub fn get_player_by_uuid(&self, id: u128) -> (found: Option<&Player>)
        ensures
            match found {
                Some(player) => self.current_players@.contains_key(id) && *player
                    == self.current_players@[id],
                None => !self.current_players@.contains_key(id),
            },
    {
        broadcast use vstd::std_specs::hash::group_hash_axioms;

        self.current_players.get(&id)
    }

    /// A player whose entity has the id `id`: the one there is, as long as
    /// entity ids are given out once.
    pub fn get_player_by_entityid(&self, id: EntityId) -> (found: Option<&Player>)
        ensures
            match found {
                Some(player) => player.spec_entity_id() == id && exists|uuid: u128|
                    #[trigger] self.current_players@.contains_key(uuid)
                        && self.current_players@[uuid] == *player,
                None => forall|uuid: u128| #[trigger]
                    self.current_players@.contains_key(uuid)
                        ==> self.current_players@[uuid].spec_entity_id() != id,
            },
    {
        broadcast use vstd::std_specs::hash::group_hash_axioms;

        let order = keys_of(&self.current_players);
        let mut i: usize = 0;
        while i < order.len()
            invariant
                i <= order.len(),
                order@.to_set() == self.current_players@.dom(),
                forall|k: int|
                    0 <= k < i ==> self.current_players@[#[trigger] order@[k]].spec_entity_id()
                        != id,
            decreases order.len() - i,
        {
            assert(order@.to_set().contains(order@[i as int]));
            match self.current_players.get(&order[i]) {
                Some(player) => {
                    if player.entity_id() == id {
                        return Some(player);
                    }
                },
                None => {},
            }
            i = i + 1;
        }
        assert forall|uuid: u128| #[trigger]
            self.current_players@.contains_key(uuid) implies self.current_players@[uuid].spec_entity_id()
            != id by {
            assert(order@.to_set().contains(uuid));
            let k = choose|k: int| 0 <= k < order@.len() && order@[k] == uuid;
            assert(self.current_players@[order@[k]].spec_entity_id() != id);
        }
        None
    }

    /// A living entity with the id `id`.
    pub fn get_living_entity_by_entityid(&self, id: EntityId) -> (found: Option<&LivingEntity>)
        ensures
            match found {
                Some(living_entity) => living_entity.entity.entity_id == id && exists|uuid: u128|
                    #[trigger] self.current_living_entities@.contains_key(uuid)
                        && self.current_living_entities@[uuid] == *living_entity,
                None => forall|uuid: u128| #[trigger]
                    self.current_living_entities@.contains_key(uuid)
                        ==> self.current_living_entities@[uuid].entity.entity_id != id,
            },
    {
        broadcast use vstd::std_specs::hash::group_hash_axioms;

        let order = keys_of(&self.current_living_entities);
        let mut i: usize = 0;
        while i < order.len()
            invariant
                i <= order.len(),
                order@.to_set() == self.current_living_entities@.dom(),
                forall|k: int|
                    0 <= k < i ==> self.current_living_entities@[#[trigger] order@[k]].entity.entity_id
                        != id,
            decreases order.len() - i,
        {
            assert(order@.to_set().contains(order@[i as int]));
            match self.current_living_entities.get(&order[i]) {
                Some(living_entity) => {
                    if living_entity.entity.entity_id == id {
                        return Some(living_entity);
                    }
                },
                None => {},
            }
            i = i + 1;
        }
        assert forall|uuid: u128| #[trigger]
            self.current_living_entities@.contains_key(
                uuid,
            ) implies self.current_living_entities@[uuid].entity.entity_id != id by {
            assert(order@.to_set().contains(uuid));
            let k = choose|k: int| 0 <= k < order@.len() && order@[k] == uuid;
            assert(self.current_living_entities@[order@[k]].entity.entity_id != id);
        }
        None
    }

    /// A player with the name `name`.
    pub fn get_player_by_name(&self, name: &str) -> (found: Option<&Player>)
        ensures
            match found {
                Some(player) => player.gameprofile.name@ == name@ && exists|uuid: u128|
                    #[trigger] self.current_players@.contains_key(uuid)
                        && self.current_players@[uuid] == *player,
                None => forall|uuid: u128| #[trigger]
                    self.current_players@.contains_key(uuid)
                        ==> self.current_players@[uuid].gameprofile.name@ != name@,
            },
    {
        broadcast use vstd::std_specs::hash::group_hash_axioms;

        let wanted = String::from_str(name);
        let order = keys_of(&self.current_players);
        let mut i: usize = 0;
        while i < order.len()
            invariant
                i <= order.len(),
                wanted@ == name@,
                order@.to_set() == self.current_players@.dom(),
                forall|k: int|
                    0 <= k < i ==> self.current_players@[#[trigger] order@[k]].gameprofile.name@
                        != name@,
            decreases order.len() - i,
        {
            assert(order@.to_set().contains(order@[i as int]));
            match self.current_players.get(&order[i]) {
                Some(player) => {
                    if player.gameprofile.name == wanted {
                        return Some(player);
                    }
                },
                None => {},
            }
            i = i + 1;
        }
        assert forall|uuid: u128| #[trigger]
            self.current_players@.contains_key(uuid) implies self.current_players@[uuid].gameprofile.name@
            != name@ by {
            assert(order@.to_set().contains(uuid));
            let k = choose|k: int| 0 <= k < order@.len() && order@[k] == uuid;
            assert(self.current_players@[order@[k]].gameprofile.name@ != name@);
        }
        None
    }

    /// The players that stand in the block at `position`, each under its
    /// UUID.
    pub fn get_players_by_pos(&self, position: WorldPosition) -> (found: HashMap<u128, &Player>)
        ensures
            forall|uuid: u128| #[trigger] found@.contains_key(uuid) <==> self.stands_at(uuid, position),
            forall|uuid: u128| #[trigger]
                found@.contains_key(uuid) ==> *found@[uuid] == self.current_players@[uuid],
    {
        broadcast use vstd::std_specs::hash::group_hash_axioms;

        let order = keys_of(&self.current_players);
        let mut found: HashMap<u128, &Player> = HashMap::new();
        let mut i: usize = 0;
        while i < order.len()
            invariant
                i <= order.len(),
                order@.no_duplicates(),
                order@.to_set() == self.current_players@.dom(),
                forall|uuid: u128| #[trigger]
                    found@.contains_key(uuid) <==> order@.take(i as int).contains(uuid)
                        && self.stands_at(uuid, position),
                forall|uuid: u128| #[trigger]
                    found@.contains_key(uuid) ==> *found@[uuid] == self.current_players@[uuid],
            decreases order.len() - i,
        {
            let uuid = order[i];
            assert(order@.to_set().contains(uuid));
            proof {
                lemma_one_more(order@, i as int);
            }
            match self.current_players.get(&uuid) {
                Some(player) => {
                    if player.living_entity.entity.pos.block_pos() == position {
                        found.insert(uuid, player);
                    }
                },
                None => {},
            }
            i = i + 1;
        }
        assert(order@.take(order.len() as int) =~= order@);
        assert forall|uuid: u128| #[trigger] found@.contains_key(uuid) <==> self.stands_at(
            uuid,
            position,
        ) by {
            assert(order@.to_set().contains(uuid) <==> order@.contains(uuid));
        }
        found
    }

    /// The players within `radius` blocks of `pos`, each under its UUID:
    /// those inside the ball and those on its surface.
    pub fn get_nearby_players(&self, pos: Position, radius: u16) -> (found: HashMap<u128, &Player>)
        ensures
            forall|uuid: u128| #[trigger] found@.contains_key(uuid) <==> self.is_near(uuid, pos, radius),
            forall|uuid: u128| #[trigger]
                found@.contains_key(uuid) ==> *found@[uuid] == self.current_players@[uuid],
    {
        broadcast use vstd::std_specs::hash::group_hash_axioms;

        let order = keys_of(&self.current_players);
        let mut found: HashMap<u128, &Player> = HashMap::new();
        let mut i: usize = 0;
        while i < order.len()
            invariant
                i <= order.len(),
                order@.no_duplicates(),
                order@.to_set() == self.current_players@.dom(),
                forall|uuid: u128| #[trigger]
                    found@.contains_key(uuid) <==> order@.take(i as int).contains(uuid)
                        && self.is_near(uuid, pos, radius),
                forall|uuid: u128| #[trigger]
                    found@.contains_key(uuid) ==> *found@[uuid] == self.current_players@[uuid],
            decreases order.len() - i,
        {
            let uuid = order[i];
            assert(order@.to_set().contains(uuid));
            proof {
                lemma_one_more(order@, i as int);
            }
            match self.current_players.get(&uuid) {
                Some(player) => {
                    if player.living_entity.entity.pos.within(&pos, radius) {
                        found.insert(uuid, player);
                    }
                },
                None => {},
            }
            i = i + 1;
        }
        assert(order@.take(order.len() as int) =~= order@);
        assert forall|uuid: u128| #[trigger] found@.contains_key(uuid) <==> self.is_near(
            uuid,
            pos,
            radius,
        ) by {
            assert(order@.to_set().contains(uuid) <==> order@.contains(uuid));
        }
        found
    }
}

} // verus!
