//! Who gets a packet.

use super::packet::{Outbound, Packet, PacketView};
use super::World;
use std::collections::HashMap;
use vstd::prelude::*;
use vstd::std_specs::iter::IteratorSpec;

verus! {

/// What is left of a sequence without repeats, when only the items that
/// meet a test are kept: those items, each once.
pub proof fn lemma_filter_distinct<A>(s: Seq<A>, keep: spec_fn(A) -> bool)
    requires
        s.no_duplicates(),
    ensures
        s.filter(keep).no_duplicates(),
        forall|a: A| #[trigger] s.filter(keep).contains(a) <==> s.contains(a) && keep(a),
    decreases s.len(),
{
    reveal(Seq::filter);
    if s.len() > 0 {
        let front = s.drop_last();
        lemma_filter_distinct(front, keep);
        assert(s =~= front.push(s.last()));
        front.lemma_filter_push(s.last(), keep);
        assert forall|a: A| #[trigger] s.filter(keep).contains(a) <==> s.contains(a) && keep(
            a,
        ) by {
            if s.contains(a) {
                let i = choose|i: int| 0 <= i < s.len() && s[i] == a;
                if i < front.len() {
                    assert(front[i] == a);
                }
            }
            if front.contains(a) {
                let i = choose|i: int| 0 <= i < front.len() && front[i] == a;
                assert(s[i] == a);
            }
            if keep(s.last()) {
                let kept = front.filter(keep);
                assert(kept.push(s.last())[kept.len() as int] == s.last());
                if kept.contains(a) {
                    let i = choose|i: int| 0 <= i < kept.len() && kept[i] == a;
                    assert(kept.push(s.last())[i] == a);
                }
            }
        }
        if keep(s.last()) {
            let kept = front.filter(keep);
            let all = kept.push(s.last());
            assert(!front.contains(s.last())) by {
                if front.contains(s.last()) {
                    let i = choose|i: int| 0 <= i < front.len() && front[i] == s.last();
                    assert(s[i] == s[s.len() - 1]);
                }
            }
            assert forall|i: int, j: int| 0 <= i < j < all.len() implies all[i] != all[j] by {
                if j == kept.len() {
                    assert(kept.contains(kept[i]));
                }
            }
        }
    }
}

/// The keys of a map, each once, in the order in which the map hands them
/// out.
pub(crate) fn keys_of<V>(map: &HashMap<u128, V>) -> (order: Vec<u128>)
    ensures
        order@.no_duplicates(),
        order@.to_set() == map@.dom(),
{
    broadcast use vstd::std_specs::hash::group_hash_axioms;

    let mut order: Vec<u128> = Vec::new();
    for uuid in walk: map.keys()
        invariant
            order@ == walk.seq().unref().take(walk.index() as int),
            walk.seq() == map.keys().remaining(),
    {
        order.push(*uuid);
    }
    assert(order@ == map.keys().remaining().unref());
    order
}

impl World {
    /// Whether `uuid` is a player of this world that has a connection.
    pub open spec fn connected(&self, uuid: u128) -> bool {
        self.current_players@.contains_key(uuid) && self.current_players@[uuid].client is Some
    }

    /// Whether `order` names each player of this world once.
    pub open spec fn enumerates_players(&self, order: Seq<u128>) -> bool {
        order.no_duplicates() && order.to_set() == self.current_players@.dom()
    }

    /// The test that a player meets who gets a packet: it has a
    /// connection and is not in `except`.
    pub open spec fn hears(&self, except: Seq<u128>) -> spec_fn(u128) -> bool {
        |uuid: u128| self.connected(uuid) && !except.contains(uuid)
    }

    /// Those in `order` that get a packet: the players with a connection
    /// that are not in `except`.
    pub open spec fn audience(&self, order: Seq<u128>, except: Seq<u128>) -> Seq<u128> {
        order.filter(self.hears(except))
    }

    /// Whether `out` is `packet`, for every player with a connection that
    /// is not in `except`, each once.
    pub open spec fn tells(&self, out: Outbound, packet: PacketView, except: Seq<u128>) -> bool {
        &&& out.packet@ == packet
        &&& out.recipients@.no_duplicates()
        &&& forall|uuid: u128| #[trigger]
            out.recipients@.contains(uuid) <==> self.connected(uuid) && !except.contains(uuid)
    }

    /// Nobody is sent a packet twice, nobody without a connection and
    /// nobody in `except` is sent one, and everybody else in `order` is.
    pub proof fn lemma_audience(&self, order: Seq<u128>, except: Seq<u128>)
        requires
            order.no_duplicates(),
        ensures
            self.audience(order, except).no_duplicates(),
            forall|uuid: u128| #[trigger]
                self.audience(order, except).contains(uuid) <==> order.contains(uuid)
                    && self.connected(uuid) && !except.contains(uuid),
    {
        lemma_filter_distinct(order, self.hears(except));
    }

    /// Whoever the world holds and in whatever order they are walked:
    /// nothing is sent to a player that is excluded.
    pub proof fn lemma_excluded_never_hears(&self, order: Seq<u128>, except: Seq<u128>, uuid: u128)
        requires
            except.contains(uuid),
        ensures
            !self.audience(order, except).contains(uuid),
    {
        let heard = self.audience(order, except);
        if heard.contains(uuid) {
            let i = choose|i: int| 0 <= i < heard.len() && heard[i] == uuid;
            order.lemma_filter_pred(self.hears(except), i);
        }
    }

    /// The UUIDs of the players of this world: each player once, in no
    /// order that can be relied on.
    pub fn player_uuids(&self) -> (order: Vec<u128>)
        ensures
            self.enumerates_players(order@),
    {
        keys_of(&self.current_players)
    }

    /// Those in `order` that get a packet.
    pub(crate) fn audience_among(&self, order: &Vec<u128>, except: &[u128]) -> (recipients: Vec<
        u128,
    >)
        ensures
            recipients@ == self.audience(order@, except@),
    {
        broadcast use vstd::std_specs::hash::group_hash_axioms;

        let ghost keep = self.hears(except@);
        let mut recipients: Vec<u128> = Vec::new();
        let mut i: usize = 0;
        assert(order@.take(0) =~= Seq::<u128>::empty());
        while i < order.len()
            invariant
                i <= order.len(),
                keep == self.hears(except@),
                recipients@ == order@.take(i as int).filter(keep),
            decreases order.len() - i,
        {
            let uuid = order[i];
            let connected = match self.current_players.get(&uuid) {
                Some(player) => player.has_client(),
                None => false,
            };
            let excepted = is_among(except, uuid);
            proof {
                assert(order@.take(i + 1) =~= order@.take(i as int).push(uuid));
                order@.take(i as int).lemma_filter_push(uuid, keep);
            }
            if connected && !excepted {
                recipients.push(uuid);
            }
            i = i + 1;
        }
        assert(order@.take(order.len() as int) =~= order@);
        recipients
    }

    /// Sends a packet to every player of the world that has a connection.
    /// A player without one is passed over.
    pub fn broadcast_packet_all(&self, packet: Packet) -> (out: Outbound)
        ensures
            out.packet == packet,
            out.recipients@.no_duplicates(),
            forall|uuid: u128| #[trigger] out.recipients@.contains(uuid) <==> self.connected(uuid),
    {
        let order = self.player_uuids();
        let nobody: Vec<u128> = Vec::new();
        let recipients = self.audience_among(&order, nobody.as_slice());
        proof {
            self.lemma_audience(order@, nobody@);
            assert forall|uuid: u128| #[trigger]
                recipients@.contains(uuid) <==> self.connected(uuid) by {
                assert(order@.to_set().contains(uuid) <==> order@.contains(uuid));
            }
        }
        Outbound { packet, recipients }
    }

    /// Sends a packet to every player of the world that has a connection
    /// and is not in `except`.
    pub fn broadcast_packet_except(&self, except: &[u128], packet: Packet) -> (out: Outbound)
        ensures
            out.packet == packet,
            out.recipients@.no_duplicates(),
            forall|uuid: u128| #[trigger]
                out.recipients@.contains(uuid) <==> self.connected(uuid) && !except@.contains(uuid),
    {
        let order = self.player_uuids();
        let recipients = self.audience_among(&order, except);
        proof {
            self.lemma_audience(order@, except@);
            assert forall|uuid: u128| #[trigger]
                recipients@.contains(uuid) <==> self.connected(uuid) && !except@.contains(
                    uuid,
                ) by {
                assert(order@.to_set().contains(uuid) <==> order@.contains(uuid));
            }
        }
        Outbound { packet, recipients }
    }
}

/// Whether `uuid` occurs in `list`.
pub(crate) fn is_among(list: &[u128], uuid: u128) -> (found: bool)
    ensures
        found == list@.contains(uuid),
{
    let mut i: usize = 0;
    while i < list.len()
        invariant
            i <= list.len(),
            forall|j: int| 0 <= j < i ==> list@[j] != uuid,
        decreases list.len() - i,
    {
        if list[i] == uuid {
            return true;
        }
        i = i + 1;
    }
    false
}

} // verus!
