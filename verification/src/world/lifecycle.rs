//! Joining and respawning: the steps that bring a player into view, in the
//! order in which clients expect them.

use super::block::{BlockRegistry, ChunkData};
use super::entity::{
    BasicConfiguration, LivingEntity, Player, FULL_FOOD, FULL_HEALTH, FULL_SATURATION,
};
use super::math::{Position, Vector3};
use super::packet::{
    lemma_plan_view_push, plan_view, send, Callout, Outbound, Packet, PacketView, Step, StepView,
};
use super::terrain::{handed_on, top_block};
use super::World;
use vstd::prelude::*;

verus! {

/// The way a player faces after a spawn, in steps of the fine grid.
pub const SPAWN_YAW: i32 = 10 * 4096;

pub const SPAWN_PITCH: i32 = 10 * 4096;

/// The packet that shows `player`, known as `uuid`, where it stands.
pub open spec fn shows(uuid: u128, player: Player) -> PacketView {
    PacketView::SpawnEntity {
        entity_id: player.living_entity.entity.entity_id,
        uuid,
        position: player.living_entity.entity.pos,
        pitch: player.living_entity.entity.pitch,
        yaw: player.living_entity.entity.yaw,
        head_yaw: player.living_entity.entity.head_yaw,
    }
}

/// The packet that shows `player`, known as `uuid`, at the spawn point.
pub open spec fn shows_spawned(uuid: u128, player: Player, position: Position) -> PacketView {
    PacketView::SpawnEntity {
        entity_id: player.living_entity.entity.entity_id,
        uuid,
        position,
        pitch: SPAWN_PITCH,
        yaw: SPAWN_YAW,
        head_yaw: SPAWN_YAW,
    }
}

/// The test that every player but `uuid` meets.
pub open spec fn is_other_than(uuid: u128) -> spec_fn(u128) -> bool {
    |other: u128| other != uuid
}

/// `order` without `uuid`.
pub open spec fn others_of(order: Seq<u128>, uuid: u128) -> Seq<u128> {
    order.filter(is_other_than(uuid))
}

/// Leaving one player out keeps the others in their order.
pub proof fn lemma_others_of_push(order: Seq<u128>, next: u128, uuid: u128)
    ensures
        others_of(order.push(next), uuid) == if next != uuid {
            others_of(order, uuid).push(next)
        } else {
            others_of(order, uuid)
        },
{
    order.lemma_filter_push(next, is_other_than(uuid));
}

/// The others are the players that `order` names, but for `uuid`, each
/// once.
pub proof fn lemma_others_of(order: Seq<u128>, uuid: u128)
    requires
        order.no_duplicates(),
    ensures
        others_of(order, uuid).no_duplicates(),
        forall|other: u128| #[trigger]
            others_of(order, uuid).contains(other) <==> order.contains(other) && other != uuid,
{
    super::broadcast::lemma_filter_distinct(order, is_other_than(uuid));
}

/// `player` after it was put at `position`.
pub open spec fn placed(player: Player, position: Position) -> Player {
    Player { living_entity: player.living_entity.placed_at(position), ..player }
}

/// `player` after it was put at `position` in full health.
pub open spec fn revived(player: Player, position: Position) -> Player {
    Player {
        living_entity: LivingEntity {
            health: FULL_HEALTH,
            ..player.living_entity.placed_at(position)
        },
        ..player
    }
}

impl World {
    /// Where a player appears when the top block of the spawn column is at
    /// height `top`: on that block.
    pub open spec fn spawn_position(&self, top: int) -> Position {
        Position::spec_from_block(
            Vector3 { x: self.spawn_column.x, y: (top + 1) as i32, z: self.spawn_column.z },
        )
    }

    /// `uuid` alone, if that player has a connection; else nobody.
    pub open spec fn to_one(&self, uuid: u128) -> Seq<u128> {
        if self.connected(uuid) {
            seq![uuid]
        } else {
            Seq::empty()
        }
    }

    /// The first steps of a join: from the login to the packet that shows
    /// the new player to the others.
    pub open spec fn join_head(
        &self,
        config: BasicConfiguration,
        uuid: u128,
        top: int,
        order: Seq<u128>,
    ) -> Seq<StepView> {
        let player = self.current_players@[uuid];
        let position = self.spawn_position(top);
        seq![
            send(
                PacketView::Login {
                    entity_id: player.living_entity.entity.entity_id,
                    hardcore: config.hardcore,
                    max_players: config.max_players,
                    view_distance: config.view_distance,
                    simulation_distance: config.simulation_distance,
                    dimension: self.dimension_type,
                    game_mode: player.gamemode,
                    previous_game_mode: config.default_gamemode,
                },
                self.to_one(uuid),
            ),
            StepView::Call(Callout::PermissionLevel { player: uuid }),
            StepView::Call(Callout::CommandSuggestions { player: uuid }),
            StepView::Call(
                Callout::Teleport { player: uuid, position, yaw: SPAWN_YAW, pitch: SPAWN_PITCH },
            ),
            send(
                PacketView::PlayerInfoUpdate { players: seq![uuid] },
                self.audience(order, Seq::empty()),
            ),
            StepView::Call(Callout::ClientInformation { player: uuid }),
            send(
                PacketView::PlayerInfoUpdate { players: others_of(order, uuid) },
                self.to_one(uuid),
            ),
            send(shows_spawned(uuid, player, position), self.audience(order, seq![uuid])),
        ]
    }

    /// One packet for `uuid` for each of `others`, which shows that player.
    pub open spec fn shown_to(&self, uuid: u128, others: Seq<u128>) -> Seq<StepView> {
        others.map_values(
            |other: u128| send(shows(other, self.current_players@[other]), self.to_one(uuid)),
        )
    }

    /// The skin of `uuid`, for everybody: one step, or none where the
    /// client has not said which parts it shows.
    pub open spec fn skin_steps(&self, uuid: u128, order: Seq<u128>) -> Seq<StepView> {
        let player = self.current_players@[uuid];
        match player.spec_skin_parts() {
            Some(skin_parts) => seq![
                send(
                    PacketView::SetEntityMetadata {
                        entity_id: player.living_entity.entity.entity_id,
                        skin_parts,
                    },
                    self.audience(order, Seq::empty()),
                ),
            ],
            None => Seq::empty(),
        }
    }

    /// The last steps of a join: from the waiting screen to the terrain.
    pub open spec fn join_tail(&self, uuid: u128) -> Seq<StepView> {
        seq![
            send(PacketView::StartWaitingChunks, self.to_one(uuid)),
            StepView::Call(Callout::WorldBorder { player: uuid }),
            send(
                PacketView::UpdateTime {
                    world_age: self.level_time.world_age,
                    time_of_day: self.level_time.time_of_day,
                },
                self.to_one(uuid),
            ),
            StepView::Call(Callout::InitialChunks { player: uuid }),
        ]
    }

    /// All that is done when the player `uuid` joins, in order, where the
    /// top block of the spawn column is at height `top` and the players of
    /// the world are walked in `order`.
    pub open spec fn spawn_plan(
        &self,
        config: BasicConfiguration,
        uuid: u128,
        top: int,
        order: Seq<u128>,
    ) -> Seq<StepView> {
        self.join_head(config, uuid, top, order) + self.shown_to(uuid, others_of(order, uuid))
            + self.skin_steps(uuid, order) + self.join_tail(uuid)
    }

    /// All that is done when the player `uuid` respawns, in order.
    pub open spec fn respawn_plan(&self, uuid: u128, alive: bool, top: int, order: Seq<u128>) -> Seq<
        StepView,
    > {
        let player = self.current_players@[uuid];
        let position = self.spawn_position(top);
        seq![
            send(
                PacketView::Respawn {
                    dimension: self.dimension_type,
                    game_mode: player.gamemode,
                    death_dimension: self.dimension_type,
                    death_location: player.living_entity.last_pos.spec_rounded(),
                    data_kept: if alive {
                        1u8
                    } else {
                        0u8
                    },
                },
                self.to_one(uuid),
            ),
            StepView::Call(Callout::Abilities { player: uuid }),
            StepView::Call(Callout::PermissionLevel { player: uuid }),
            StepView::Call(
                Callout::Teleport { player: uuid, position, yaw: SPAWN_YAW, pitch: SPAWN_PITCH },
            ),
            StepView::Call(Callout::WorldBorder { player: uuid }),
            send(PacketView::StartWaitingChunks, self.to_one(uuid)),
            send(shows_spawned(uuid, player, position), self.audience(order, seq![uuid])),
            StepView::Call(Callout::InitialChunks { player: uuid }),
        ] + self.skin_steps(uuid, order) + seq![
            StepView::Call(
                Callout::Health {
                    player: uuid,
                    health: FULL_HEALTH,
                    food: FULL_FOOD,
                    saturation: FULL_SATURATION,
                },
            ),
        ]
    }

    /// `uuid` alone, if that player has a connection; else nobody.
    fn only(&self, uuid: u128) -> (recipients: Vec<u128>)
        ensures
            recipients@ == self.to_one(uuid),
    {
        broadcast use vstd::std_specs::hash::group_hash_axioms;

        let connected = match self.current_players.get(&uuid) {
            Some(player) => player.has_client(),
            None => false,
        };
        let mut recipients: Vec<u128> = Vec::new();
        if connected {
            recipients.push(uuid);
            assert(recipients@ =~= seq![uuid]);
        }
        recipients
    }

    /// The spawn point: on the top block of the spawn column.
    fn resolve_spawn(&self, chunk: Option<&ChunkData>, registry: &BlockRegistry) -> (position:
        Position)
        ensures
            position == self.spawn_position(top_block(handed_on(chunk), *registry, self.spawn_column)),
    {
        let top = self.get_top_block(chunk, registry, self.spawn_column);
        Position::from_block(Vector3 { x: self.spawn_column.x, y: top + 1, z: self.spawn_column.z })
    }

    /// The skin of `player`, for everybody.
    fn push_skin(&self, plan: &mut Vec<Step>, uuid: u128, player: &Player, order: &Vec<u128>)
        requires
            self.current_players@.contains_key(uuid),
            self.current_players@[uuid] == *player,
        ensures
            plan_view(final(plan)@) == plan_view(old(plan)@) + self.skin_steps(uuid, order@),
    {
        match player.skin_parts() {
            Some(skin_parts) => {
                let nobody: Vec<u128> = Vec::new();
                let everybody = self.audience_among(order, nobody.as_slice());
                assert(nobody@ =~= Seq::<u128>::empty());
                push_step(
                    plan,
                    send_to(
                        Packet::SetEntityMetadata { entity_id: player.entity_id(), skin_parts },
                        everybody,
                    ),
                );
                assert(plan_view(plan@) =~= plan_view(old(plan)@) + self.skin_steps(uuid, order@));
            },
            None => {
                assert(plan_view(plan@) =~= plan_view(old(plan)@) + self.skin_steps(uuid, order@));
            },
        }
    }

    /// Brings the player `uuid`, who is in the world already, into view.
    ///
    /// The plan is carried out step by step: the login first, then
    /// permissions and commands, the teleport to the spawn point, the new
    /// player's entry in everybody's list, everybody else's entry in the
    /// new player's list, the new player's entity for the others and
    /// theirs for the new player, the skin, the waiting screen, the world
    /// border, the time, and at last the terrain. A step that sends to a
    /// player without a connection has no recipient.
    ///
    /// `chunk` is the chunk of the spawn column, if it was handed on; where
    /// it was not, the column cannot be read and the player appears above
    /// its highest block. The player is recorded as put at the spawn
    /// point; nothing else in the world changes.
    pub fn spawn_player(
        &mut self,
        base_config: &BasicConfiguration,
        uuid: u128,
        chunk: Option<&ChunkData>,
        registry: &BlockRegistry,
    ) -> (plan: Vec<Step>)
        requires
            old(self).current_players@.contains_key(uuid),
        ensures
            exists|order: Seq<u128>| #[trigger]
                old(self).enumerates_players(order) && plan_view(plan@) == old(self).spawn_plan(
                    *base_config,
                    uuid,
                    top_block(handed_on(chunk), *registry, old(self).spawn_column),
                    order,
                ),
            final(self).current_players@ == old(self).current_players@.insert(
                uuid,
                placed(
                    old(self).current_players@[uuid],
                    old(self).spawn_position(top_block(handed_on(chunk), *registry, old(self).spawn_column)),
                ),
            ),
            final(self).current_living_entities@ == old(self).current_living_entities@,
            final(self).level_time == old(self).level_time,
            final(self).dimension_type == old(self).dimension_type,
            final(self).spawn_column == old(self).spawn_column,
    {
        broadcast use vstd::std_specs::hash::group_hash_axioms;

        let ghost top = top_block(handed_on(chunk), *registry, self.spawn_column);
        let position = self.resolve_spawn(chunk, registry);
        let order = self.player_uuids();
        let others = without(&order, uuid);
        let roster = without(&order, uuid);
        let nobody: Vec<u128> = Vec::new();
        let me: [u128; 1] = [uuid];
        assert(nobody@ =~= Seq::<u128>::empty());
        assert(me@ =~= seq![uuid]);
        let player = match self.current_players.get(&uuid) {
            Some(player) => player,
            None => {
                assert(false);
                return Vec::new();
            },
        };
        let mut plan: Vec<Step> = Vec::new();
        assert(plan_view(plan@) =~= Seq::<StepView>::empty());
        push_step(
            &mut plan,
            send_to(
                Packet::Login {
                    entity_id: player.entity_id(),
                    hardcore: base_config.hardcore,
                    max_players: base_config.max_players,
                    view_distance: base_config.view_distance,
                    simulation_distance: base_config.simulation_distance,
                    dimension: self.dimension_type,
                    game_mode: player.gamemode,
                    previous_game_mode: base_config.default_gamemode,
                },
                self.only(uuid),
            ),
        );
        push_step(&mut plan, Step::Call(Callout::PermissionLevel { player: uuid }));
        push_step(&mut plan, Step::Call(Callout::CommandSuggestions { player: uuid }));
        push_step(
            &mut plan,
            Step::Call(
                Callout::Teleport { player: uuid, position, yaw: SPAWN_YAW, pitch: SPAWN_PITCH },
            ),
        );
        let mut newcomer: Vec<u128> = Vec::new();
        newcomer.push(uuid);
        assert(newcomer@ =~= seq![uuid]);
        push_step(
            &mut plan,
            send_to(
                Packet::PlayerInfoUpdate { players: newcomer },
                self.audience_among(&order, nobody.as_slice()),
            ),
        );
        push_step(&mut plan, Step::Call(Callout::ClientInformation { player: uuid }));
        push_step(
            &mut plan,
            send_to(Packet::PlayerInfoUpdate { players: roster }, self.only(uuid)),
        );
        push_step(
            &mut plan,
            send_to(
                Packet::SpawnEntity {
                    entity_id: player.entity_id(),
                    uuid,
                    position,
                    pitch: SPAWN_PITCH,
                    yaw: SPAWN_YAW,
                    head_yaw: SPAWN_YAW,
                },
                self.audience_among(&order, me.as_slice()),
            ),
        );
        let ghost head = self.join_head(*base_config, uuid, top, order@);
        assert(plan_view(plan@) =~= head);
        proof {
            lemma_others_of(order@, uuid);
            assert forall|other: u128| #[trigger] others@.contains(other) implies self.current_players@.contains_key(
                other,
            ) by {
                assert(order@.to_set().contains(other));
            }
        }
        let mut i: usize = 0;
        assert(others@.take(0) =~= Seq::<u128>::empty());
        assert(plan_view(plan@) =~= head + self.shown_to(uuid, others@.take(0)));
        while i < others.len()
            invariant
                i <= others.len(),
                forall|other: u128| #[trigger]
                    others@.contains(other) ==> self.current_players@.contains_key(other),
                plan_view(plan@) == head + self.shown_to(uuid, others@.take(i as int)),
            decreases others.len() - i,
        {
            let other = others[i];
            assert(others@.contains(other));
            match self.current_players.get(&other) {
                Some(existing) => {
                    let entity = &existing.living_entity.entity;
                    push_step(
                        &mut plan,
                        send_to(
                            Packet::SpawnEntity {
                                entity_id: entity.entity_id,
                                uuid: other,
                                position: entity.pos,
                                pitch: entity.pitch,
                                yaw: entity.yaw,
                                head_yaw: entity.head_yaw,
                            },
                            self.only(uuid),
                        ),
                    );
                },
                None => {
                    assert(false);
                },
            }
            proof {
                assert(others@.take(i + 1) =~= others@.take(i as int).push(other));
                assert(self.shown_to(uuid, others@.take(i + 1)) =~= self.shown_to(
                    uuid,
                    others@.take(i as int),
                ).push(send(shows(other, self.current_players@[other]), self.to_one(uuid))));
                assert(plan_view(plan@) =~= head + self.shown_to(uuid, others@.take(i + 1)));
            }
            i = i + 1;
        }
        assert(others@.take(others.len() as int) =~= others@);
        self.push_skin(&mut plan, uuid, player, &order);
        let ghost before_tail = plan_view(plan@);
        push_step(&mut plan, send_to(Packet::StartWaitingChunks, self.only(uuid)));
        push_step(&mut plan, Step::Call(Callout::WorldBorder { player: uuid }));
        push_step(
            &mut plan,
            send_to(
                Packet::UpdateTime {
                    world_age: self.level_time.world_age,
                    time_of_day: self.level_time.time_of_day,
                },
                self.only(uuid),
            ),
        );
        push_step(&mut plan, Step::Call(Callout::InitialChunks { player: uuid }));
        assert(plan_view(plan@) =~= before_tail + self.join_tail(uuid));
        assert(plan_view(plan@) == self.spawn_plan(*base_config, uuid, top, order@));
        assert(self.enumerates_players(order@));
        self.place(uuid, position, false);
        plan
    }

    /// Brings the player `uuid` back after a death or a change of world.
    ///
    /// The plan: the respawn packet, which carries the place of death and
    /// whether the player keeps what it had; abilities and permissions; the
    /// teleport to the spawn point; the world border; the waiting screen;
    /// the player's entity for everybody else; the terrain; the skin; full
    /// health.
    ///
    /// `chunk` is the chunk of the spawn column, if it was handed on. The
    /// player's own record is changed where it stands: it is put at the
    /// spawn point in full health. No record is added or removed.
    pub fn respawn_player(
        &mut self,
        uuid: u128,
        alive: bool,
        chunk: Option<&ChunkData>,
        registry: &BlockRegistry,
    ) -> (plan: Vec<Step>)
        requires
            old(self).current_players@.contains_key(uuid),
        ensures
            exists|order: Seq<u128>| #[trigger]
                old(self).enumerates_players(order) && plan_view(plan@) == old(self).respawn_plan(
                    uuid,
                    alive,
                    top_block(handed_on(chunk), *registry, old(self).spawn_column),
                    order,
                ),
            final(self).current_players@ == old(self).current_players@.insert(
                uuid,
                revived(
                    old(self).current_players@[uuid],
                    old(self).spawn_position(top_block(handed_on(chunk), *registry, old(self).spawn_column)),
                ),
            ),
            final(self).current_players@.dom() == old(self).current_players@.dom(),
            final(self).current_living_entities@ == old(self).current_living_entities@,
            final(self).level_time == old(self).level_time,
            final(self).dimension_type == old(self).dimension_type,
            final(self).spawn_column == old(self).spawn_column,
    {
        broadcast use vstd::std_specs::hash::group_hash_axioms;

        let ghost top = top_block(handed_on(chunk), *registry, self.spawn_column);
        let position = self.resolve_spawn(chunk, registry);
        let order = self.player_uuids();
        let me: [u128; 1] = [uuid];
        assert(me@ =~= seq![uuid]);
        let player = match self.current_players.get(&uuid) {
            Some(player) => player,
            None => {
                assert(false);
                return Vec::new();
            },
        };
        let mut plan: Vec<Step> = Vec::new();
        assert(plan_view(plan@) =~= Seq::<StepView>::empty());
        push_step(
            &mut plan,
            send_to(
                Packet::Respawn {
                    dimension: self.dimension_type,
                    game_mode: player.gamemode,
                    death_dimension: self.dimension_type,
                    death_location: player.living_entity.last_pos.rounded(),
                    data_kept: if alive {
                        1
                    } else {
                        0
                    },
                },
                self.only(uuid),
            ),
        );
        push_step(&mut plan, Step::Call(Callout::Abilities { player: uuid }));
        push_step(&mut plan, Step::Call(Callout::PermissionLevel { player: uuid }));
        push_step(
            &mut plan,
            Step::Call(
                Callout::Teleport { player: uuid, position, yaw: SPAWN_YAW, pitch: SPAWN_PITCH },
            ),
        );
        push_step(&mut plan, Step::Call(Callout::WorldBorder { player: uuid }));
        push_step(&mut plan, send_to(Packet::StartWaitingChunks, self.only(uuid)));
        push_step(
            &mut plan,
            send_to(
                Packet::SpawnEntity {
                    entity_id: player.entity_id(),
                    uuid,
                    position,
                    pitch: SPAWN_PITCH,
                    yaw: SPAWN_YAW,
                    head_yaw: SPAWN_YAW,
                },
                self.audience_among(&order, me.as_slice()),
            ),
        );
        push_step(&mut plan, Step::Call(Callout::InitialChunks { player: uuid }));
        let ghost head = plan_view(plan@);
        self.push_skin(&mut plan, uuid, player, &order);
        push_step(
            &mut plan,
            Step::Call(
                Callout::Health {
                    player: uuid,
                    health: FULL_HEALTH,
                    food: FULL_FOOD,
                    saturation: FULL_SATURATION,
                },
            ),
        );
        assert(plan_view(plan@) =~= self.respawn_plan(uuid, alive, top, order@));
        assert(self.enumerates_players(order@));
        self.place(uuid, position, true);
        assert(self.current_players@.dom() =~= old(self).current_players@.dom());
        plan
    }

    /// Records that the player `uuid` was put at `position`, in full
    /// health where `heal` is set.
    fn place(&mut self, uuid: u128, position: Position, heal: bool)
        requires
            old(self).current_players@.contains_key(uuid),
        ensures
            final(self).current_players@ == old(self).current_players@.insert(
                uuid,
                if heal {
                    revived(old(self).current_players@[uuid], position)
                } else {
                    placed(old(self).current_players@[uuid], position)
                },
            ),
            final(self).current_living_entities@ == old(self).current_living_entities@,
            final(self).level_time == old(self).level_time,
            final(self).dimension_type == old(self).dimension_type,
            final(self).spawn_column == old(self).spawn_column,
    {
        broadcast use vstd::std_specs::hash::group_hash_axioms;

        match self.current_players.remove(&uuid) {
            Some(player) => {
                let mut player = player;
                player.living_entity.last_pos = position;
                if heal {
                    player.living_entity.health = FULL_HEALTH;
                }
                self.current_players.insert(uuid, player);
                assert(self.current_players@ =~= old(self).current_players@.insert(uuid, player));
            },
            None => {
                assert(false);
            },
        }
    }
}

/// `packet`, for `recipients`.
fn send_to(packet: Packet, recipients: Vec<u128>) -> (step: Step)
    ensures
        step@ == send(packet@, recipients@),
{
    Step::Send(Outbound { packet, recipients })
}

/// Adds a step to the end of a plan.
fn push_step(plan: &mut Vec<Step>, step: Step)
    ensures
        final(plan)@ == old(plan)@.push(step),
        plan_view(final(plan)@) == plan_view(old(plan)@).push(step@),
{
    proof {
        lemma_plan_view_push(plan@, step);
    }
    plan.push(step);
}

/// `order` without `uuid`.
fn without(order: &Vec<u128>, uuid: u128) -> (others: Vec<u128>)
    ensures
        others@ == others_of(order@, uuid),
{
    let mut others: Vec<u128> = Vec::new();
    let mut i: usize = 0;
    assert(order@.take(0) =~= Seq::<u128>::empty());
    assert(others_of(Seq::<u128>::empty(), uuid) =~= Seq::<u128>::empty()) by {
        reveal(Seq::filter);
    }
    while i < order.len()
        invariant
            i <= order.len(),
            others@ == others_of(order@.take(i as int), uuid),
        decreases order.len() - i,
    {
        let other = order[i];
        proof {
            assert(order@.take(i + 1) =~= order@.take(i as int).push(other));
            lemma_others_of_push(order@.take(i as int), other, uuid);
        }
        if other != uuid {
            others.push(other);
        }
        i = i + 1;
    }
    assert(order@.take(order.len() as int) =~= order@);
    others
}

} // verus!
