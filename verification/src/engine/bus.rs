//! The message bus: a registry of queues, one for each address that is registered.
//!
//! Messages to an address are taken out in the order in which they were sent.
//! Registering an address again starts its queue afresh; unregistering it drops
//! what was left in the queue.
use std::collections::VecDeque;
use vstd::prelude::*;

use crate::engine::BusAddress;
use crate::util::chunk_map::{
    distinct_keys, has_key, key_position, lemma_position, lemma_put, lemma_take, map_of,
};

verus! {

/// The queue of each entry, as a sequence.
pub open spec fn queues_of<M>(peers: Seq<(BusAddress, VecDeque<M>)>) -> Seq<(BusAddress, Seq<M>)> {
    Seq::new(peers.len(), |i: int| (peers[i].0, peers[i].1@))
}

/// A registry of message queues by address.
pub struct Bus<M> {
    peers: Vec<(BusAddress, VecDeque<M>)>,
}

impl<M> View for Bus<M> {
    type V = Map<BusAddress, Seq<M>>;

    closed spec fn view(&self) -> Map<BusAddress, Seq<M>> {
        map_of(queues_of(self.peers@))
    }
}

/// Why a message was not sent.
#[derive(Debug, Clone, Copy, PartialEq, Eq)]
pub enum BusError {
    /// Nobody is registered under the address.
    NoSuchAddress,
}

impl<M> Default for Bus<M> {
    /// A bus with nobody on it.
    fn default() -> (bus: Bus<M>)
        ensures
            bus@ == Map::<BusAddress, Seq<M>>::empty(),
    {
        Bus::new()
    }
}

impl<M> Bus<M> {
    #[verifier::type_invariant]
    spec fn well_formed(&self) -> bool {
        distinct_keys(queues_of(self.peers@))
    }

    /// A bus with nobody on it.
    pub fn new() -> (bus: Self)
        ensures
            bus@ == Map::<BusAddress, Seq<M>>::empty(),
    {
        let bus = Bus { peers: Vec::new() };
        assert(queues_of(bus.peers@) =~= Seq::<(BusAddress, Seq<M>)>::empty());
        assert(bus@ =~= Map::<BusAddress, Seq<M>>::empty());
        bus
    }

    /// The number of addresses that are registered.
    pub fn peers(&self) -> (n: usize)
        ensures
            n == 0 <==> self@ == Map::<BusAddress, Seq<M>>::empty(),
    {
        proof {
            let queues = queues_of(self.peers@);
            if queues.len() > 0 {
                assert(has_key(queues, queues[0].0));
                assert(self@.dom().contains(queues[0].0));
            } else {
                assert(self@ =~= Map::<BusAddress, Seq<M>>::empty());
            }
        }
        self.peers.len()
    }

    fn find(&self, id: BusAddress) -> (at: Option<usize>)
        ensures
            at is Some <==> self@.dom().contains(id),
            at matches Some(i) ==> i < self.peers@.len() && self.peers@[i as int].0 == id
                && self@[id] == self.peers@[i as int].1@ && i == key_position(
                queues_of(self.peers@),
                id,
            ),
    {
        proof {
            use_type_invariant(self);
        }
        let ghost queues = queues_of(self.peers@);
        let mut i: usize = 0;
        while i < self.peers.len()
            invariant
                0 <= i <= self.peers@.len(),
                queues == queues_of(self.peers@),
                distinct_keys(queues),
                forall|j: int| 0 <= j < i ==> (#[trigger] queues[j]).0 != id,
            decreases self.peers@.len() - i,
        {
            if self.peers[i].0 == id {
                proof {
                    assert(queues[i as int].0 == id);
                    lemma_position(queues, i as int);
                }
                return Some(i);
            }
            i = i + 1;
        }
        proof {
            if has_key(queues, id) {
                let k = key_position(queues, id);
                assert(queues[k].0 != id);
            }
        }
        None
    }

    fn take_peers(&mut self) -> (peers: Vec<(BusAddress, VecDeque<M>)>)
        ensures
            peers@ == old(self).peers@,
            distinct_keys(queues_of(peers@)),
    {
        proof {
            use_type_invariant(&*self);
        }
        let mut taken = Bus { peers: Vec::new() };
        assert(queues_of(taken.peers@) =~= Seq::<(BusAddress, Seq<M>)>::empty());
        core::mem::swap(self, &mut taken);
        taken.peers
    }

    /// The number of messages that wait under an address, if it is registered.
    pub fn unread(&self, id: BusAddress) -> (n: Option<usize>)
        ensures
            n is Some <==> self@.dom().contains(id),
            n matches Some(k) ==> k == self@[id].len(),
    {
        match self.find(id) {
            Some(i) => Some(self.peers[i].1.len()),
            None => None,
        }
    }

    /// Registers an address with an empty queue. What waited under the address
    /// before is dropped.
    pub fn register(&mut self, id: BusAddress)
        ensures
            final(self)@ == old(self)@.insert(id, Seq::<M>::empty()),
    {
        let found = self.find(id);
        let mut peers = self.take_peers();
        let ghost before = queues_of(peers@);
        let queue: VecDeque<M> = VecDeque::new();
        match found {
            Some(i) => {
                peers.set(i, (id, queue));
                proof {
                    assert(queues_of(peers@) =~= before.update(i as int, (id, Seq::<M>::empty())));
                    lemma_put(before, queues_of(peers@), id, Seq::<M>::empty());
                }
            },
            None => {
                peers.push((id, queue));
                proof {
                    assert(queues_of(peers@) =~= before.push((id, Seq::<M>::empty())));
                    lemma_put(before, queues_of(peers@), id, Seq::<M>::empty());
                }
            },
        }
        *self = Bus { peers };
    }

    /// Takes an address off the bus, and with it what waited under it.
    pub fn unregister(&mut self, id: BusAddress)
        ensures
            final(self)@ == old(self)@.remove(id),
    {
        let found = self.find(id);
        let mut peers = self.take_peers();
        let ghost before = queues_of(peers@);
        match found {
            Some(i) => {
                let _ = peers.remove(i);
                proof {
                    assert(queues_of(peers@) =~= before.remove(i as int));
                    lemma_take(before, i as int);
                }
            },
            None => {
                assert(map_of(before) =~= map_of(before).remove(id));
            },
        }
        *self = Bus { peers };
    }

    /// Puts a message at the end of the queue of an address. Where nobody is
    /// registered under the address the message comes back.
    pub fn send(&mut self, to: BusAddress, msg: M) -> (r: Result<(), M>)
        ensures
            match r {
                Ok(_) => old(self)@.dom().contains(to) && final(self)@ == old(self)@.insert(
                    to,
                    old(self)@[to].push(msg),
                ),
                Err(back) => !old(self)@.dom().contains(to) && back == msg
                    && final(self)@ == old(self)@,
            },
    {
        let found = self.find(to);
        match found {
            Some(i) => {
                let mut peers = self.take_peers();
                let ghost before = queues_of(peers@);
                let mut entry: (BusAddress, VecDeque<M>) = (to, VecDeque::new());
                peers.set_and_swap(i, &mut entry);
                let (id, mut queue) = entry;
                queue.push_back(msg);
                let ghost after = queue@;
                peers.set(i, (id, queue));
                proof {
                    assert(queues_of(peers@) =~= before.update(i as int, (to, after)));
                    lemma_put(before, queues_of(peers@), to, after);
                }
                *self = Bus { peers };
                Ok(())
            },
            None => Err(msg),
        }
    }

    /// Takes the message at the head of the queue of an address, if one waits there.
    pub fn recv(&mut self, at: BusAddress) -> (r: Option<M>)
        ensures
            match r {
                Some(msg) => old(self)@.dom().contains(at) && old(self)@[at].len() > 0 && msg
                    == old(self)@[at][0] && final(self)@ == old(self)@.insert(
                    at,
                    old(self)@[at].drop_first(),
                ),
                None => (!old(self)@.dom().contains(at) || old(self)@[at].len() == 0)
                    && final(self)@ == old(self)@,
            },
    {
        let found = self.find(at);
        match found {
            Some(i) => {
                if self.peers[i].1.len() == 0 {
                    return None;
                }
                let mut peers = self.take_peers();
                let ghost before = queues_of(peers@);
                let mut entry: (BusAddress, VecDeque<M>) = (at, VecDeque::new());
                peers.set_and_swap(i, &mut entry);
                let (id, mut queue) = entry;
                let ghost waiting = queue@;
                let msg = queue.pop_front();
                let ghost after = queue@;
                peers.set(i, (id, queue));
                proof {
                    assert(after =~= waiting.drop_first());
                    assert(queues_of(peers@) =~= before.update(i as int, (at, after)));
                    lemma_put(before, queues_of(peers@), at, after);
                }
                *self = Bus { peers };
                msg
            },
            None => None,
        }
    }
}

/// Messages to one address come out in the order in which they went in: after two
/// messages are sent to an address whose queue is empty, the first one received is
/// the first one sent, and the second the second.
pub proof fn lemma_fifo<M>(bus: Map<BusAddress, Seq<M>>, to: BusAddress, first: M, second: M)
    requires
        bus.dom().contains(to),
        bus[to].len() == 0,
    ensures
        ({
            let sent = bus.insert(to, bus[to].push(first));
            let sent_both = sent.insert(to, sent[to].push(second));
            let taken = sent_both.insert(to, sent_both[to].drop_first());
            &&& sent_both[to][0] == first
            &&& taken[to][0] == second
            &&& taken[to].len() == 1
        }),
{
}

} // verus!
