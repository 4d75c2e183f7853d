//! The DSU server's decisions: who is subscribed, what a request is answered
//! with, when the controller is wanted, and which motion packets go to whom.
//! Sockets, clocks and threads stay with the caller, which hands in the
//! current time in microseconds and performs the sends this module returns.

use vstd::prelude::*;
use crate::bytes::{put_u32_le, ReadError};
use crate::dsu::{
    data_packet_spec, data_template, finalize_crc, our_mac, parse_request,
    request_model, slot_info_packet, slot_info_packet_spec, version_packet, version_packet_spec,
    with_crc, data_packet_template, DataSample, Request, RequestModel, CLIENT_TIMEOUT_US, DATA_PACKET_LEN,
    MAX_SUBSCRIBERS, OUR_SLOT, PACKET_NUM_OFFSET,
};
use crate::bytes::{le32, splice};
use crate::dsu::lemma_crc_ignores_crc_field;

verus! {

/// A client subscribed to controller data.
#[derive(Clone, Copy, Debug)]
pub struct Subscriber<A> {
    pub client_id: u32,
    pub addr: A,
    /// When the client last asked for data, in microseconds.
    pub last_request_us: u64,
    /// Number of the last data packet sent to this client.
    pub packet_counter: u32,
}

/// Whether some subscriber in `s` has id `id`.
pub open spec fn has_id<A>(s: Seq<Subscriber<A>>, id: u32) -> bool {
    exists|i: int| 0 <= i < s.len() && s[i].client_id == id
}

/// No two subscribers in `s` share an id.
pub open spec fn ids_unique<A>(s: Seq<Subscriber<A>>) -> bool {
    forall|i: int, j: int| 0 <= i < j < s.len() ==> s[i].client_id != s[j].client_id
}

/// Whether a data request with these selectors asks for the controller this
/// server serves: all controllers, our slot, or our MAC.
pub open spec fn selects_our_controller(reg_type: u8, slot: u8, mac: Seq<u8>) -> bool {
    ||| reg_type == 0
    ||| (reg_type % 2 == 1 && slot == OUR_SLOT)
    ||| ((reg_type / 2) % 2 == 1 && mac == our_mac())
}

/// `s` with the subscriber `id` moved to `addr` and renewed at `now_us`.
pub open spec fn renewed<A>(s: Seq<Subscriber<A>>, id: u32, addr: A, now_us: u64) -> Seq<Subscriber<A>> {
    Seq::new(
        s.len(),
        |i: int|
            if s[i].client_id == id {
                Subscriber { client_id: id, addr, last_request_us: now_us, packet_counter: s[i].packet_counter }
            } else {
                s[i]
            },
    )
}

/// The subscribers after a data request from `id` at `addr`, and whether the
/// controller must be woken (the first subscriber arrived). A request that
/// does not select our controller changes nothing; a known client is
/// renewed; a new client is added, unless the table is full.
pub open spec fn after_data_request<A>(
    s: Seq<Subscriber<A>>,
    id: u32,
    reg_type: u8,
    slot: u8,
    mac: Seq<u8>,
    addr: A,
    now_us: u64,
) -> (Seq<Subscriber<A>>, bool) {
    if !selects_our_controller(reg_type, slot, mac) {
        (s, false)
    } else if has_id(s, id) {
        (renewed(s, id, addr, now_us), false)
    } else if s.len() >= MAX_SUBSCRIBERS {
        (s, false)
    } else {
        (s.push(Subscriber { client_id: id, addr, last_request_us: now_us, packet_counter: 0 }), s.len() == 0)
    }
}

/// Whether `sub` has asked for data within the timeout before `now_us`
/// (a request stamped after `now_us` counts as just made).
pub open spec fn is_alive<A>(sub: Subscriber<A>, now_us: u64) -> bool {
    (if now_us >= sub.last_request_us { now_us - sub.last_request_us } else { 0 }) < CLIENT_TIMEOUT_US
}

/// The packet number that follows `c`, wrapping at 2^32.
pub open spec fn next_counter(c: u32) -> u32 {
    if c == u32::MAX { 0 } else { (c + 1) as u32 }
}

/// The clients subscribed to controller data, in the order they subscribed.
pub struct SubscriberTable<A> {
    entries: Vec<Subscriber<A>>,
}

impl<A: Copy> View for SubscriberTable<A> {
    type V = Seq<Subscriber<A>>;

    closed spec fn view(&self) -> Seq<Subscriber<A>> {
        self.entries@
    }
}

impl<A: Copy> SubscriberTable<A> {
    /// At most `MAX_SUBSCRIBERS` subscribers, no two with the same id.
    pub open spec fn wf(&self) -> bool {
        self@.len() <= MAX_SUBSCRIBERS && ids_unique(self@)
    }

    /// A table with nobody subscribed.
    pub fn new() -> (t: Self)
        ensures
            t@ == Seq::<Subscriber<A>>::empty(),
            t.wf(),
    {
        let t = SubscriberTable { entries: Vec::new() };
        assert(t@ =~= Seq::<Subscriber<A>>::empty());
        t
    }

    /// Number of subscribers.
    pub fn len(&self) -> (n: usize)
        ensures
            n == self@.len(),
    {
        self.entries.len()
    }

    /// Whether nobody is subscribed.
    pub fn is_empty(&self) -> (b: bool)
        ensures
            b == (self@.len() == 0),
    {
        self.entries.len() == 0
    }

    /// The subscriber with id `client_id`, if there is one.
    pub fn find(&self, client_id: u32) -> (r: Option<Subscriber<A>>)
        requires
            self.wf(),
        ensures
            r is Some <==> has_id(self@, client_id),
            r matches Some(s) ==> exists|i: int| 0 <= i < self@.len() && self@[i] == s && s.client_id == client_id,
    {
        let n = self.entries.len();
        let mut i: usize = 0;
        while i < n
            invariant
                n == self@.len(),
                i <= n,
                forall|k: int| 0 <= k < i ==> self@[k].client_id != client_id,
            decreases n - i,
        {
            let s = self.entries[i];
            if s.client_id == client_id {
                assert(self@[i as int] == s);
                return Some(s);
            }
            i = i + 1;
        }
        None
    }

    /// Handles a data request from `client_id` at `addr`, at time `now_us`;
    /// returns whether the controller must now be woken.
    pub fn handle_data_request(
        &mut self,
        client_id: u32,
        reg_type: u8,
        slot: u8,
        mac: &[u8],
        addr: A,
        now_us: u64,
    ) -> (wake: bool)
        requires
            old(self).wf(),
        ensures
            final(self).wf(),
            (final(self)@, wake) == after_data_request(old(self)@, client_id, reg_type, slot, mac@, addr, now_us),
    {
        proof {
            assert((reg_type & 1u8 != 0) == (reg_type % 2 == 1)) by (bit_vector);
            assert((reg_type & 2u8 != 0) == ((reg_type / 2) % 2 == 1)) by (bit_vector);
        }
        let mac_is_ours = mac.len() == 6 && mac[0] == 0x02 && mac[1] == 0x28 && mac[2] == 0xDE
            && mac[3] == 0x13 && mac[4] == 0x04 && mac[5] == OUR_SLOT;
        assert(mac_is_ours == (mac@ == our_mac())) by {
            if mac@ == our_mac() {
                assert(mac@[0] == our_mac()[0]);
            }
            if mac_is_ours {
                assert(mac@ =~= our_mac());
            }
        }
        let wants_us = reg_type == 0 || (reg_type & 0b01 != 0 && slot == OUR_SLOT) || (reg_type & 0b10 != 0
            && mac_is_ours);
        if !wants_us {
            return false;
        }
        let n = self.entries.len();
        let mut i: usize = 0;
        while i < n
            invariant
                n == self@.len(),
                self@ == old(self)@,
                self.wf(),
                selects_our_controller(reg_type, slot, mac@),
                i <= n,
                forall|k: int| 0 <= k < i ==> self@[k].client_id != client_id,
            decreases n - i,
        {
            if self.entries[i].client_id == client_id {
                let ghost before = self@;
                assert(before[i as int].client_id == client_id);
                assert(has_id(before, client_id));
                let old_entry = self.entries[i];
                self.entries[i] = Subscriber {
                    client_id,
                    addr,
                    last_request_us: now_us,
                    packet_counter: old_entry.packet_counter,
                };
                assert forall|k: int| 0 <= k < before.len() && k != i implies before[k].client_id != client_id by {
                    if k > i {
                        assert(before[i as int].client_id != before[k].client_id);
                    }
                }
                assert(self@ =~= renewed(before, client_id, addr, now_us));
                return false;
            }
            i = i + 1;
        }
        if n >= MAX_SUBSCRIBERS {
            return false;
        }
        let was_empty = n == 0;
        self.entries.push(Subscriber { client_id, addr, last_request_us: now_us, packet_counter: 0 });
        was_empty
    }

    /// Drops the subscribers that have not renewed within the timeout before
    /// `now_us`; returns whether the last subscriber just went away.
    pub fn cleanup(&mut self, now_us: u64) -> (released: bool)
        requires
            old(self).wf(),
        ensures
            final(self).wf(),
            final(self)@ == old(self)@.filter(|s: Subscriber<A>| is_alive(s, now_us)),
            released == (old(self)@.len() > 0 && final(self)@.len() == 0),
    {
        let ghost pred = |s: Subscriber<A>| is_alive(s, now_us);
        let ghost orig = self@;
        let was_empty = self.entries.len() == 0;
        let n = self.entries.len();
        let mut kept: Vec<Subscriber<A>> = Vec::new();
        let mut i: usize = 0;
        while i < n
            invariant
                n == orig.len(),
                orig == self@,
                pred == (|s: Subscriber<A>| is_alive(s, now_us)),
                orig.len() <= MAX_SUBSCRIBERS,
                ids_unique(orig),
                i <= n,
                kept@ == orig.take(i as int).filter(pred),
                kept@.len() <= i,
                ids_unique(kept@),
                forall|k: int| #![trigger kept@[k]] 0 <= k < kept@.len() ==> exists|j: int| #![trigger orig[j]] 0 <= j < i && kept@[k] == orig[j],
            decreases n - i,
        {
            let s = self.entries[i];
            proof {
                reveal_with_fuel(Seq::filter, 1);
                assert(orig.take(i + 1).drop_last() =~= orig.take(i as int));
            }
            let alive = if now_us >= s.last_request_us {
                now_us - s.last_request_us < CLIENT_TIMEOUT_US
            } else {
                0 < CLIENT_TIMEOUT_US
            };
            assert(s == orig[i as int]);
            assert(orig.take(i + 1).last() == s);
            assert(pred(s) == alive);
            if alive {
                let ghost before = kept@;
                assert forall|k: int| 0 <= k < before.len() implies before[k].client_id != s.client_id by {
                    let j = choose|j: int| 0 <= j < i && before[k] == orig[j];
                    assert(orig[j].client_id != orig[i as int].client_id);
                }
                kept.push(s);
                assert forall|k: int| #![trigger kept@[k]] 0 <= k < kept@.len() implies exists|j: int| #![trigger orig[j]] 0 <= j < i + 1 && kept@[k] == orig[j] by {
                    if k < before.len() {
                        let j = choose|j: int| 0 <= j < i && before[k] == orig[j];
                        assert(kept@[k] == orig[j]);
                    } else {
                        assert(kept@[k] == orig[i as int]);
                    }
                }
            }
            i = i + 1;
        }
        assert(orig.take(n as int) =~= orig);
        self.entries = kept;
        !was_empty && self.entries.len() == 0
    }

    /// Numbers the next data packet of every subscriber and builds it: one
    /// `(address, packet)` per subscriber, in table order, each subscriber's
    /// packet number advanced by one (wrapping).
    pub fn broadcast(&mut self, server_id: u32, sample: &DataSample) -> (r: Vec<(A, Vec<u8>)>)
        requires
            old(self).wf(),
        ensures
            final(self).wf(),
            final(self)@.len() == old(self)@.len(),
            forall|i: int| #![trigger final(self)@[i]] 0 <= i < old(self)@.len() ==> final(self)@[i] == (Subscriber {
                packet_counter: next_counter(old(self)@[i].packet_counter),
                ..old(self)@[i]
            }),
            r@.len() == old(self)@.len(),
            forall|i: int| #![trigger r@[i]] 0 <= i < r@.len() ==> r@[i].0 == old(self)@[i].addr
                && r@[i].1@ == data_packet_spec(server_id, *sample, next_counter(old(self)@[i].packet_counter)),
    {
        let mut result: Vec<(A, Vec<u8>)> = Vec::new();
        let n = self.entries.len();
        if n == 0 {
            return result;
        }
        let mut out = data_packet_template(server_id, sample);
        let ghost tmpl = out@;
        let ghost orig = self@;
        let mut i: usize = 0;
        while i < n
            invariant
                n == orig.len(),
                orig == old(self)@,
                ids_unique(orig),
                orig.len() <= MAX_SUBSCRIBERS,
                tmpl == data_template(server_id, *sample),
                tmpl.len() == DATA_PACKET_LEN,
                i <= n,
                self@.len() == n,
                out@.len() == DATA_PACKET_LEN,
                forall|k: int| 0 <= k < DATA_PACKET_LEN && !(8 <= k < 12) && !(PACKET_NUM_OFFSET <= k < PACKET_NUM_OFFSET + 4)
                    ==> out@[k] == tmpl[k],
                forall|k: int| #![trigger self@[k]] 0 <= k < i ==> self@[k] == (Subscriber {
                    packet_counter: next_counter(orig[k].packet_counter),
                    ..orig[k]
                }),
                forall|k: int| #![trigger self@[k]] i <= k < n ==> self@[k] == orig[k],
                result@.len() == i,
                forall|k: int| #![trigger result@[k]] 0 <= k < i ==> result@[k].0 == orig[k].addr
                    && result@[k].1@ == data_packet_spec(server_id, *sample, next_counter(orig[k].packet_counter)),
            decreases n - i,
        {
            let e = self.entries[i];
            let c = if e.packet_counter == u32::MAX { 0 } else { e.packet_counter + 1 };
            self.entries[i] = Subscriber { packet_counter: c, ..e };
            let ghost before = out@;
            put_u32_le(&mut out, PACKET_NUM_OFFSET, c);
            proof {
                let target = splice(tmpl, PACKET_NUM_OFFSET as int, le32(c));
                lemma_crc_ignores_crc_field(out@, target);
                assert(with_crc(out@) =~= with_crc(target));
            }
            finalize_crc(&mut out);
            let packet = out.clone();
            assert(packet@ =~= out@);
            result.push((e.addr, packet));
            i = i + 1;
        }
        assert(ids_unique(self@)) by {
            assert forall|a: int, b: int| 0 <= a < b < self@.len() implies self@[a].client_id != self@[b].client_id by {
                assert(self@[a].client_id == orig[a].client_id);
                assert(self@[b].client_id == orig[b].client_id);
            }
        }
        result
    }
}

/// What the server sends back for one request, and whether the controller
/// is wanted now when it was not before.
pub struct Response {
    pub replies: Vec<Vec<u8>>,
    pub wake_device: bool,
}

/// The server's protocol state: its id and its subscribers.
pub struct ServerState<A> {
    pub server_id: u32,
    pub subscribers: SubscriberTable<A>,
}

/// The byte contents of each packet in `v`.
pub open spec fn packets_view(v: Seq<Vec<u8>>) -> Seq<Seq<u8>> {
    v.map_values(|p: Vec<u8>| p@)
}

/// The replies the server owes for a request with content `m`.
pub open spec fn replies_for(m: RequestModel, server_id: u32, replies: Seq<Seq<u8>>) -> bool {
    match m {
        RequestModel::Version { .. } => replies == seq![version_packet_spec(server_id)],
        RequestModel::Ports { slots, .. } => replies.len() == slots.len() && forall|i: int|
            #![trigger replies[i]]
            0 <= i < slots.len() ==> replies[i] == slot_info_packet_spec(server_id, slots[i]),
        _ => replies.len() == 0,
    }
}

/// The subscribers and wake decision after a request with content `m` from `src`.
pub open spec fn subscribers_after<A>(m: RequestModel, s: Seq<Subscriber<A>>, src: A, now_us: u64) -> (Seq<Subscriber<A>>, bool) {
    match m {
        RequestModel::Data { client_id, reg_type, slot, mac } => after_data_request(s, client_id, reg_type, slot, mac, src, now_us),
        _ => (s, false),
    }
}

impl<A: Copy> ServerState<A> {
    pub open spec fn wf(&self) -> bool {
        self.subscribers.wf()
    }

    /// A server with id `server_id` and nobody subscribed.
    pub fn new(server_id: u32) -> (s: Self)
        ensures
            s.wf(),
            s.server_id == server_id,
            s.subscribers@ == Seq::<Subscriber<A>>::empty(),
    {
        ServerState { server_id, subscribers: SubscriberTable::new() }
    }

    /// Handles one datagram from `src` received at `now_us`: a version
    /// request is answered with the version, a ports request with one slot
    /// description per requested slot, a data request (re)subscribes the
    /// client; anything else is dropped. A cut-short body is an error and
    /// changes nothing.
    pub fn handle_request(&mut self, msg: &[u8], src: A, now_us: u64) -> (r: Result<Response, ReadError>)
        requires
            old(self).wf(),
        ensures
            final(self).wf(),
            final(self).server_id == old(self).server_id,
            r is Err <==> request_model(msg@) is None,
            r is Err ==> final(self).subscribers@ == old(self).subscribers@,
            r matches Ok(resp) ==> {
                let m = request_model(msg@)->0;
                &&& replies_for(m, old(self).server_id, packets_view(resp.replies@))
                &&& (final(self).subscribers@, resp.wake_device) == subscribers_after(m, old(self).subscribers@, src, now_us)
            },
    {
        let req = match parse_request(msg) {
            Ok(req) => req,
            Err(e) => return Err(e),
        };
        let mut replies: Vec<Vec<u8>> = Vec::new();
        let mut wake_device = false;
        match req {
            Request::Ignore => {},
            Request::Version { client_id: _ } => {
                replies.push(version_packet(self.server_id));
                assert(packets_view(replies@) =~= seq![version_packet_spec(self.server_id)]);
            },
            Request::Ports { client_id: _, slots } => {
                let n = slots.len();
                let mut i: usize = 0;
                while i < n
                    invariant
                        n == slots@.len(),
                        i <= n,
                        replies@.len() == i,
                        forall|k: int| #![trigger replies@[k]] 0 <= k < i ==> replies@[k]@ == slot_info_packet_spec(self.server_id, slots@[k]),
                    decreases n - i,
                {
                    replies.push(slot_info_packet(self.server_id, slots[i]));
                    i = i + 1;
                }
                assert forall|k: int| 0 <= k < n implies #[trigger] packets_view(replies@)[k] == slot_info_packet_spec(self.server_id, slots@[k]) by {
                    assert(replies@[k]@ == slot_info_packet_spec(self.server_id, slots@[k]));
                }
            },
            Request::Data { client_id, reg_type, slot, mac } => {
                wake_device = self.subscribers.handle_data_request(client_id, reg_type, slot, mac.as_slice(), src, now_us);
            },
        }
        Ok(Response { replies, wake_device })
    }

    /// Drops subscribers that timed out by `now_us`; returns whether the
    /// controller is no longer wanted (the last subscriber went away).
    pub fn cleanup_subscribers(&mut self, now_us: u64) -> (released: bool)
        requires
            old(self).wf(),
        ensures
            final(self).wf(),
            final(self).server_id == old(self).server_id,
            final(self).subscribers@ == old(self).subscribers@.filter(|s: Subscriber<A>| is_alive(s, now_us)),
            released == (old(self).subscribers@.len() > 0 && final(self).subscribers@.len() == 0),
    {
        self.subscribers.cleanup(now_us)
    }

    /// The motion packets for `sample`, one per subscriber (see [`SubscriberTable::broadcast`]).
    pub fn broadcast_data_packet(&mut self, sample: &DataSample) -> (r: Vec<(A, Vec<u8>)>)
        requires
            old(self).wf(),
        ensures
            final(self).wf(),
            final(self).server_id == old(self).server_id,
            final(self).subscribers@.len() == old(self).subscribers@.len(),
            forall|i: int| #![trigger final(self).subscribers@[i]] 0 <= i < old(self).subscribers@.len() ==> final(self).subscribers@[i] == (Subscriber {
                packet_counter: next_counter(old(self).subscribers@[i].packet_counter),
                ..old(self).subscribers@[i]
            }),
            r@.len() == old(self).subscribers@.len(),
            forall|i: int| #![trigger r@[i]] 0 <= i < r@.len() ==> r@[i].0 == old(self).subscribers@[i].addr
                && r@[i].1@ == data_packet_spec(old(self).server_id, *sample, next_counter(old(self).subscribers@[i].packet_counter)),
    {
        let sid = self.server_id;
        self.subscribers.broadcast(sid, sample)
    }
}


/// A client whose data request is admitted keeps its subscription through
/// every cleanup during the timeout that follows, and loses it at the first
/// cleanup at or after the timeout unless it asks again.
pub proof fn lemma_subscription_lasts_for_timeout<A>(
    s: Seq<Subscriber<A>>,
    id: u32,
    reg_type: u8,
    slot: u8,
    mac: Seq<u8>,
    addr: A,
    now_us: u64,
    later_us: u64,
)
    requires
        ids_unique(s),
        selects_our_controller(reg_type, slot, mac),
        has_id(s, id) || s.len() < MAX_SUBSCRIBERS,
    ensures
        ({
            let after = after_data_request(s, id, reg_type, slot, mac, addr, now_us).0;
            let kept = after.filter(|x: Subscriber<A>| is_alive(x, later_us));
            &&& (now_us <= later_us < now_us + CLIENT_TIMEOUT_US ==> has_id(kept, id))
            &&& (later_us >= now_us + CLIENT_TIMEOUT_US ==> !has_id(kept, id))
        }),
{
    let after = after_data_request(s, id, reg_type, slot, mac, addr, now_us).0;
    let pred = |x: Subscriber<A>| is_alive(x, later_us);
    let kept = after.filter(pred);
    let e = Subscriber { client_id: id, addr, last_request_us: now_us, packet_counter: 0 };
    // The entry for `id` after the request: where it is and what it holds.
    let i: int = if has_id(s, id) {
        choose|i: int| 0 <= i < s.len() && s[i].client_id == id
    } else {
        s.len() as int
    };
    assert(0 <= i < after.len() && after[i].client_id == id && after[i].last_request_us == now_us);
    assert forall|j: int| 0 <= j < after.len() && after[j].client_id == id implies after[j].last_request_us == now_us by {
        if has_id(s, id) {
            if s[j].client_id != id {
            }
        } else {
            if j < s.len() {
                assert(s[j] == after[j]);
            }
        }
    }
    if now_us <= later_us && later_us < now_us + CLIENT_TIMEOUT_US {
        after.lemma_filter_contains(pred, i);
        let k = choose|k: int| 0 <= k < kept.len() && kept[k] == after[i];
        assert(kept[k].client_id == id);
    }
    if later_us >= now_us + CLIENT_TIMEOUT_US {
        assert forall|k: int| 0 <= k < kept.len() implies kept[k].client_id != id by {
            after.lemma_filter_pred(pred, k);
            if kept[k].client_id == id {
                assert(kept.contains(kept[k]));
                after.lemma_filter_contains_rev(pred, kept[k]);
                let j = choose|j: int| 0 <= j < after.len() && after[j] == kept[k];
                assert(after[j].last_request_us == now_us);
            }
        }
    }
}


/// A data request from a client that is already subscribed renews it in
/// place: the table keeps its length and order, the client gets the new
/// address and request time, its packet numbering carries on, and every
/// other subscriber is untouched; the controller is not woken again.
pub proof fn lemma_renewal_keeps_packet_numbering<A>(
    s: Seq<Subscriber<A>>,
    id: u32,
    reg_type: u8,
    slot: u8,
    mac: Seq<u8>,
    addr: A,
    now_us: u64,
)
    requires
        has_id(s, id),
    ensures
        ({
            let (after, wake) = after_data_request(s, id, reg_type, slot, mac, addr, now_us);
            &&& after.len() == s.len()
            &&& !wake
            &&& forall|i: int| #![trigger after[i]] 0 <= i < s.len() ==> {
                &&& after[i].packet_counter == s[i].packet_counter
                &&& after[i].client_id == s[i].client_id
                &&& (s[i].client_id != id ==> after[i] == s[i])
                &&& (s[i].client_id == id && selects_our_controller(reg_type, slot, mac) ==> after[i].addr == addr
                    && after[i].last_request_us == now_us)
            }
        }),
{
}

/// A data request from a new client, when there is room, appends it with
/// packet numbering starting from zero and leaves everyone else as they were.
pub proof fn lemma_new_subscriber_starts_numbering<A>(
    s: Seq<Subscriber<A>>,
    id: u32,
    reg_type: u8,
    slot: u8,
    mac: Seq<u8>,
    addr: A,
    now_us: u64,
)
    requires
        !has_id(s, id),
        s.len() < MAX_SUBSCRIBERS,
        selects_our_controller(reg_type, slot, mac),
    ensures
        ({
            let (after, wake) = after_data_request(s, id, reg_type, slot, mac, addr, now_us);
            &&& after.len() == s.len() + 1
            &&& after.subrange(0, s.len() as int) == s
            &&& after[s.len() as int].client_id == id
            &&& after[s.len() as int].addr == addr
            &&& after[s.len() as int].last_request_us == now_us
            &&& after[s.len() as int].packet_counter == 0
            &&& wake == (s.len() == 0)
        }),
{
    let after = after_data_request(s, id, reg_type, slot, mac, addr, now_us).0;
    assert(after.subrange(0, s.len() as int) =~= s);
}


/// Which data requests select the served controller: registration type 0
/// selects every controller; bit 0 selects by slot (ours is slot 0); bit 1
/// selects by MAC (ours is 02:28:DE:13:04:00).
pub proof fn lemma_data_request_selection(slot: u8, mac: Seq<u8>)
    ensures
        selects_our_controller(0, slot, mac),
        selects_our_controller(1, 0, mac),
        slot != 0 ==> !selects_our_controller(1, slot, mac),
        selects_our_controller(2, slot, seq![0x02u8, 0x28u8, 0xDEu8, 0x13u8, 0x04u8, 0x00u8]),
        mac != seq![0x02u8, 0x28u8, 0xDEu8, 0x13u8, 0x04u8, 0x00u8] ==> !selects_our_controller(2, slot, mac),
        slot != 0 && mac != seq![0x02u8, 0x28u8, 0xDEu8, 0x13u8, 0x04u8, 0x00u8] ==> !selects_our_controller(3, slot, mac),
{
}

/// A data request that does not select the served controller changes
/// nothing, and a new client finds no room in a full table; neither wakes
/// the controller.
pub proof fn lemma_unselected_or_full_changes_nothing<A>(
    s: Seq<Subscriber<A>>,
    id: u32,
    reg_type: u8,
    slot: u8,
    mac: Seq<u8>,
    addr: A,
    now_us: u64,
)
    requires
        !selects_our_controller(reg_type, slot, mac) || (!has_id(s, id) && s.len() >= 16),
    ensures
        after_data_request(s, id, reg_type, slot, mac, addr, now_us) == (s, false),
{
}

/// Packet numbers count up by one and wrap from 2^32 - 1 to 0.
pub proof fn lemma_next_counter_wraps(c: u32)
    ensures
        next_counter(c) == (c + 1) % 0x1_0000_0000,
{
}

/// A subscriber is alive exactly while less than five seconds have passed
/// since its last request.
pub proof fn lemma_alive_for_five_seconds<A>(sub: Subscriber<A>, now_us: u64)
    ensures
        now_us >= sub.last_request_us ==> (is_alive(sub, now_us) <==> now_us - sub.last_request_us < 5_000_000),
        now_us < sub.last_request_us ==> is_alive(sub, now_us),
{
}

} // verus!
