//! The client registry: one entry per live connection, each with a unique
//! numeric id and the set of channels the client has advertised.
//!
//! Other components hold only the id, never a live reference; the registry
//! is the single mapping from client id to connection state.  The transport
//! guards it with an exclusive-access discipline; the logic here is what
//! runs inside that discipline.

use vstd::prelude::*;

verus! {

/// A read-only projection of a client-advertised channel: its numeric id,
/// unique within the owning client's advertised-channel set, and its topic
/// name.  Never mutated by the core after construction.
#[derive(PartialEq, Debug)]
pub struct ClientChannelView {
    /// Channel id, chosen by the advertising client.
    pub id: u32,
    /// Topic name of the channel.
    pub topic: String,
}

/// Mathematical model of a [`ClientChannelView`].
#[verifier::ext_equal]
pub struct ChannelModel {
    /// Channel id.
    pub id: u32,
    /// Topic name as a character sequence.
    pub topic: Seq<char>,
}

impl View for ClientChannelView {
    type V = ChannelModel;

    open spec fn view(&self) -> ChannelModel {
        ChannelModel { id: self.id, topic: self.topic@ }
    }
}

/// Registry entry for one connected client.
pub struct ClientEntry {
    /// The client's unique id, assigned at connect time.
    pub id: u32,
    /// The channels this client currently advertises.
    pub channels: Vec<ClientChannelView>,
}

/// Mathematical model of a registry entry.
#[verifier::ext_equal]
pub struct ClientModel {
    /// The client's id.
    pub id: u32,
    /// The advertised channels, in advertisement order.
    pub channels: Seq<ChannelModel>,
}

impl View for ClientEntry {
    type V = ClientModel;

    open spec fn view(&self) -> ClientModel {
        ClientModel { id: self.id, channels: self.channels@.map_values(|c: ClientChannelView| c@) }
    }
}

/// The outcome of a channel advertisement.
#[derive(PartialEq, Eq, Structural, Debug, Clone, Copy)]
pub enum AdvertiseOutcome {
    /// The channel was recorded.
    Accepted,
    /// The client already advertises a channel with this id; the
    /// advertisement is rejected and the registry is unchanged.
    DuplicateChannel,
    /// No connected client has this id; the registry is unchanged.
    UnknownClient,
}

/// Tracks the connected clients and their advertised channels.  Ids are
/// assigned from a monotonic counter, so no two simultaneously-connected
/// clients ever share one.
pub struct ClientRegistry {
    /// One entry per live connection.
    pub clients: Vec<ClientEntry>,
    /// The id the next connection will receive; strictly above every id in
    /// use.
    pub next_id: u32,
}

impl View for ClientRegistry {
    type V = Seq<ClientModel>;

    open spec fn view(&self) -> Seq<ClientModel> {
        self.clients@.map_values(|e: ClientEntry| e@)
    }
}

/// Index of the entry for `id` in a registry model, meaningful only when
/// such an entry exists.
pub open spec fn client_index(s: Seq<ClientModel>, id: u32) -> int {
    choose|i: int| 0 <= i < s.len() && s[i].id == id
}

/// Whether a registry model has an entry for `id`.
pub open spec fn has_client(s: Seq<ClientModel>, id: u32) -> bool {
    exists|i: int| 0 <= i < s.len() && s[i].id == id
}

/// Index of the channel `channel_id` within one client model, meaningful
/// only when such a channel exists.
pub open spec fn channel_index(c: ClientModel, channel_id: u32) -> int {
    choose|i: int| 0 <= i < c.channels.len() && c.channels[i].id == channel_id
}

/// Whether a client model advertises a channel with `channel_id`.
pub open spec fn has_channel(c: ClientModel, channel_id: u32) -> bool {
    exists|i: int| 0 <= i < c.channels.len() && c.channels[i].id == channel_id
}

impl ClientRegistry {
    /// Well-formedness: client ids are pairwise distinct and below the
    /// counter, and each client's channel ids are pairwise distinct.
    pub open spec fn wf(self) -> bool {
        &&& forall|i: int, j: int| 0 <= i < j < self@.len() ==> self@[i].id != self@[j].id
        &&& forall|i: int| 0 <= i < self@.len() ==> (#[trigger] self@[i]).id < self.next_id
        &&& forall|i: int, a: int, b: int|
            #![trigger self@[i].channels[a], self@[i].channels[b]]
            0 <= i < self@.len() && 0 <= a < b < self@[i].channels.len()
                ==> self@[i].channels[a].id != self@[i].channels[b].id
    }

    /// An empty registry.
    pub fn new() -> (r: ClientRegistry)
        ensures
            r.wf(),
            r@.len() == 0,
            r.next_id == 0,
    {
        ClientRegistry { clients: Vec::new(), next_id: 0 }
    }

    /// The ids of all currently-connected clients, in registration order.
    pub open spec fn spec_ids(self) -> Seq<u32> {
        self@.map_values(|c: ClientModel| c.id)
    }

    /// Registers a new connection and assigns it a fresh id: one that no
    /// currently-connected client holds.  The id bound is a machine limit
    /// of the `u32` id space.
    pub fn register(&mut self) -> (id: u32)
        requires
            old(self).wf(),
            old(self).next_id < u32::MAX,
        ensures
            final(self).wf(),
            !has_client(old(self)@, id),
            forall|i: int| 0 <= i < old(self)@.len() ==> (#[trigger] old(self)@[i]).id != id,
            final(self)@ == old(self)@.push(ClientModel { id, channels: Seq::empty() }),
            final(self).next_id == old(self).next_id + 1,
    {
        let id = self.next_id;
        self.next_id = self.next_id + 1;
        self.clients.push(ClientEntry { id, channels: Vec::new() });
        proof {
            assert(self@ =~~= old(self)@.push(ClientModel { id, channels: Seq::empty() }));
        }
        id
    }

    /// Finds the position of the entry for `id`, if the client is
    /// connected.
    fn find_client(&self, id: u32) -> (r: Option<usize>)
        ensures
            match r {
                Some(i) => i < self@.len() && self@[i as int].id == id,
                None => !has_client(self@, id),
            },
    {
        let mut i: usize = 0;
        while i < self.clients.len()
            invariant
                i <= self.clients.len(),
                forall|j: int| 0 <= j < i ==> (#[trigger] self@[j]).id != id,
            decreases self.clients.len() - i,
        {
            if self.clients[i].id == id {
                return Some(i);
            }
            i = i + 1;
        }
        None
    }

    /// Finds the position of `channel_id` within one entry's advertised
    /// channels.
    fn find_channel_pos(entry: &ClientEntry, channel_id: u32) -> (r: Option<usize>)
        ensures
            match r {
                Some(j) => j < entry@.channels.len() && entry@.channels[j as int].id == channel_id,
                None => !has_channel(entry@, channel_id),
            },
    {
        let mut j: usize = 0;
        while j < entry.channels.len()
            invariant
                j <= entry.channels.len(),
                forall|a: int| 0 <= a < j ==> (#[trigger] entry@.channels[a]).id != channel_id,
            decreases entry.channels.len() - j,
        {
            proof {
                assert(entry@.channels[j as int] == entry.channels@[j as int]@);
            }
            if entry.channels[j].id == channel_id {
                return Some(j);
            }
            j = j + 1;
        }
        None
    }

    /// Whether a client with this id is currently connected.
    pub fn is_connected(&self, id: u32) -> (r: bool)
        ensures
            r == has_client(self@, id),
    {
        self.find_client(id).is_some()
    }

    /// Releases a client's id and all its channels.  A no-op when no such
    /// client is connected; afterwards the id may be reassigned.
    pub fn unregister(&mut self, id: u32) -> (was_connected: bool)
        requires
            old(self).wf(),
        ensures
            final(self).wf(),
            final(self).next_id == old(self).next_id,
            !has_client(final(self)@, id),
            was_connected == has_client(old(self)@, id),
            was_connected ==> final(self)@ == old(self)@.remove(client_index(old(self)@, id)),
            !was_connected ==> final(self)@ == old(self)@,
    {
        match self.find_client(id) {
            Some(i) => {
                self.clients.remove(i);
                proof {
                    let k = client_index(old(self)@, id);
                    assert(old(self)@[i as int].id == id);
                    assert(0 <= k < old(self)@.len() && old(self)@[k].id == id);
                    assert(k == i);
                    assert(self@ =~= old(self)@.remove(i as int));
                    assert forall|j: int| 0 <= j < self@.len() implies (#[trigger] self@[j]).id
                        != id by {
                        if j < i {
                            assert(self@[j] == old(self)@[j]);
                        } else {
                            assert(self@[j] == old(self)@[j + 1]);
                        }
                    }
                }
                true
            },
            None => false,
        }
    }

    /// Records a channel advertisement for a connected client.  Accepted
    /// exactly when the client is connected and does not already advertise
    /// a channel with this id; the capability gate is the caller's duty.
    pub fn advertise_channel(&mut self, client_id: u32, channel_id: u32, topic: String) -> (r:
        AdvertiseOutcome)
        requires
            old(self).wf(),
        ensures
            final(self).wf(),
            r == AdvertiseOutcome::UnknownClient <==> !has_client(old(self)@, client_id),
            r == AdvertiseOutcome::DuplicateChannel <==> has_client(old(self)@, client_id)
                && has_channel(old(self)@[client_index(old(self)@, client_id)], channel_id),
            r == AdvertiseOutcome::Accepted ==> {
                let k = client_index(old(self)@, client_id);
                final(self)@ == old(self)@.update(
                    k,
                    ClientModel {
                        id: client_id,
                        channels: old(self)@[k].channels.push(
                            ChannelModel { id: channel_id, topic: topic@ },
                        ),
                    },
                )
            },
            r != AdvertiseOutcome::Accepted ==> final(self)@ == old(self)@,
    {
        match self.find_client(client_id) {
            Some(i) => {
                let ghost k = client_index(old(self)@, client_id);
                proof {
                    assert(has_client(old(self)@, client_id)) by {
                        assert(old(self)@[i as int].id == client_id);
                    }
                    assert(0 <= k < old(self)@.len() && old(self)@[k].id == client_id);
                    assert(k == i);
                    assert(self@[i as int] == self.clients@[i as int]@);
                }
                match Self::find_channel_pos(&self.clients[i], channel_id) {
                    Some(_) => AdvertiseOutcome::DuplicateChannel,
                    None => {
                        let view = ClientChannelView { id: channel_id, topic };
                        let ghost t = view.topic@;
                        let entry = &mut self.clients[i];
                        entry.channels.push(view);
                        proof {
                            assert(self@ =~~= old(self)@.update(
                                k,
                                ClientModel {
                                    id: client_id,
                                    channels: old(self)@[k].channels.push(
                                        ChannelModel { id: channel_id, topic: t },
                                    ),
                                },
                            ));
                        }
                        AdvertiseOutcome::Accepted
                    },
                }
            },
            None => AdvertiseOutcome::UnknownClient,
        }
    }

    /// Withdraws one advertised channel of a connected client.  True
    /// exactly when the client was connected and the channel present.
    pub fn withdraw_channel(&mut self, client_id: u32, channel_id: u32) -> (removed: bool)
        requires
            old(self).wf(),
        ensures
            final(self).wf(),
            removed <==> has_client(old(self)@, client_id) && has_channel(
                old(self)@[client_index(old(self)@, client_id)],
                channel_id,
            ),
            removed ==> {
                let k = client_index(old(self)@, client_id);
                final(self)@ == old(self)@.update(
                    k,
                    ClientModel {
                        id: client_id,
                        channels: old(self)@[k].channels.remove(
                            channel_index(old(self)@[k], channel_id),
                        ),
                    },
                )
            },
            !removed ==> final(self)@ == old(self)@,
    {
        match self.find_client(client_id) {
            Some(i) => {
                let ghost k = client_index(old(self)@, client_id);
                proof {
                    assert(has_client(old(self)@, client_id)) by {
                        assert(old(self)@[i as int].id == client_id);
                    }
                    assert(0 <= k < old(self)@.len() && old(self)@[k].id == client_id);
                    assert(k == i);
                    assert(self@[i as int] == self.clients@[i as int]@);
                }
                match Self::find_channel_pos(&self.clients[i], channel_id) {
                    Some(j) => {
                        let ghost ci = channel_index(old(self)@[k], channel_id);
                        proof {
                            assert(has_channel(old(self)@[k], channel_id)) by {
                                assert(old(self)@[k].channels[j as int].id == channel_id);
                            }
                            assert(0 <= ci < old(self)@[k].channels.len() && old(
                                self,
                            )@[k].channels[ci].id == channel_id);
                            assert(ci == j);
                        }
                        let entry = &mut self.clients[i];
                        entry.channels.remove(j);
                        proof {
                            assert(self@ =~~= old(self)@.update(
                                k,
                                ClientModel {
                                    id: client_id,
                                    channels: old(self)@[k].channels.remove(ci),
                                },
                            ));
                        }
                        true
                    },
                    None => false,
                }
            },
            None => false,
        }
    }

    /// Looks up the topic of one advertised channel, for routing an inbound
    /// data message.  Returns a copy of the channel projection.
    pub fn channel_view(&self, client_id: u32, channel_id: u32) -> (r: Option<ClientChannelView>)
        requires
            self.wf(),
        ensures
            match r {
                Some(view) => has_client(self@, client_id) && has_channel(
                    self@[client_index(self@, client_id)],
                    channel_id,
                ) && view@ == self@[client_index(self@, client_id)].channels[channel_index(
                    self@[client_index(self@, client_id)],
                    channel_id,
                )],
                None => !has_client(self@, client_id) || !has_channel(
                    self@[client_index(self@, client_id)],
                    channel_id,
                ),
            },
    {
        match self.find_client(client_id) {
            Some(i) => {
                let ghost k = client_index(self@, client_id);
                proof {
                    assert(has_client(self@, client_id)) by {
                        assert(self@[i as int].id == client_id);
                    }
                    assert(0 <= k < self@.len() && self@[k].id == client_id);
                    assert(k == i);
                    assert(self@[i as int] == self.clients@[i as int]@);
                }
                match Self::find_channel_pos(&self.clients[i], channel_id) {
                    Some(j) => {
                        let ghost ci = channel_index(self@[k], channel_id);
                        proof {
                            assert(has_channel(self@[k], channel_id)) by {
                                assert(self@[k].channels[j as int].id == channel_id);
                            }
                            assert(0 <= ci < self@[k].channels.len() && self@[k].channels[ci].id
                                == channel_id);
                            assert(ci == j);
                        }
                        let c = &self.clients[i].channels[j];
                        Some(ClientChannelView { id: c.id, topic: c.topic.clone() })
                    },
                    None => None,
                }
            },
            None => None,
        }
    }

    /// The ids of all currently-connected clients, in registration order.
    pub fn connected_ids(&self) -> (ids: Vec<u32>)
        ensures
            ids@ == self.spec_ids(),
    {
        let mut ids: Vec<u32> = Vec::new();
        let mut i: usize = 0;
        while i < self.clients.len()
            invariant
                i <= self.clients.len(),
                ids@.len() == i,
                forall|j: int| 0 <= j < i ==> ids@[j] == (#[trigger] self@[j]).id,
            decreases self.clients.len() - i,
        {
            ids.push(self.clients[i].id);
            i = i + 1;
        }
        proof {
            assert(ids@ =~= self.spec_ids());
        }
        ids
    }
}

/// Client ids are unique among all currently-connected clients at any
/// instant: in a well-formed registry no two distinct entries share an id.
pub proof fn lemma_client_ids_unique(r: ClientRegistry, i: int, j: int)
    requires
        r.wf(),
        0 <= i < r@.len(),
        0 <= j < r@.len(),
        i != j,
    ensures
        r@[i].id != r@[j].id,
{
}

} // verus!
