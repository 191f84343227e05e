//! One tick of the world.

use super::packet::{
    lemma_plan_view_push, plan_view, send, Callout, Outbound, Packet, PacketView, Step, StepView,
};
use super::World;
use vstd::prelude::*;

verus! {

/// A tick for each player of `order`.
pub open spec fn player_ticks(order: Seq<u128>) -> Seq<StepView> {
    order.map_values(|uuid: u128| StepView::Call(Callout::Tick { player: uuid }))
}

impl World {
    /// The time for everybody, at the ticks at which it is told.
    pub open spec fn time_steps(&self, order: Seq<u128>) -> Seq<StepView> {
        if self.level_time.spec_is_broadcast_tick() {
            seq![
                send(
                    PacketView::UpdateTime {
                        world_age: self.level_time.world_age,
                        time_of_day: self.level_time.time_of_day,
                    },
                    self.audience(order, Seq::empty()),
                ),
            ]
        } else {
            Seq::empty()
        }
    }

    /// What is done in a tick, once the clock has moved: the time for
    /// everybody, at every twentieth tick, and then a tick for each
    /// player.
    pub open spec fn tick_plan(&self, order: Seq<u128>) -> Seq<StepView> {
        self.time_steps(order) + player_ticks(order)
    }

    /// Moves the world on by one tick.
    ///
    /// The clock moves first. A player that has left by the time its own
    /// tick is due is passed over by the caller.
    pub fn tick(&mut self) -> (plan: Vec<Step>)
        requires
            old(self).level_time.can_tick(),
        ensures
            final(self).level_time == old(self).level_time.ticked(),
            final(self).current_players@ == old(self).current_players@,
            final(self).current_living_entities@ == old(self).current_living_entities@,
            final(self).dimension_type == old(self).dimension_type,
            final(self).spawn_column == old(self).spawn_column,
            exists|order: Seq<u128>| #[trigger]
                final(self).enumerates_players(order) && plan_view(plan@) == final(self).tick_plan(
                    order,
                ),
    {
        self.level_time.tick_time();
        let order = self.player_uuids();
        let mut plan: Vec<Step> = Vec::new();
        assert(plan_view(plan@) =~= Seq::<StepView>::empty());
        if self.level_time.is_broadcast_tick() {
            let nobody: Vec<u128> = Vec::new();
            assert(nobody@ =~= Seq::<u128>::empty());
            let time = Step::Send(
                Outbound {
                    packet: Packet::UpdateTime {
                        world_age: self.level_time.world_age,
                        time_of_day: self.level_time.time_of_day,
                    },
                    recipients: self.audience_among(&order, nobody.as_slice()),
                },
            );
            proof {
                lemma_plan_view_push(plan@, time);
            }
            plan.push(time);
        }
        let ghost head = self.time_steps(order@);
        assert(plan_view(plan@) =~= head);
        let mut i: usize = 0;
        assert(plan_view(plan@) =~= head + player_ticks(order@.take(0)));
        while i < order.len()
            invariant
                i <= order.len(),
                plan_view(plan@) == head + player_ticks(order@.take(i as int)),
            decreases order.len() - i,
        {
            let step = Step::Call(Callout::Tick { player: order[i] });
            proof {
                lemma_plan_view_push(plan@, step);
                assert(order@.take(i + 1) =~= order@.take(i as int).push(order@[i as int]));
                assert(player_ticks(order@.take(i + 1)) =~= player_ticks(order@.take(i as int)).push(
                    step@,
                ));
            }
            plan.push(step);
            assert(plan_view(plan@) =~= head + player_ticks(order@.take(i + 1)));
            i = i + 1;
        }
        assert(order@.take(order.len() as int) =~= order@);
        assert(self.enumerates_players(order@));
        plan
    }
}

} // verus!
