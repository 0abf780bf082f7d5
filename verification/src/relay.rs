//! The relay hub: real-time forwarding of move payloads.
//!
//! The hub maps a `(session, player)` pair to the player's transport
//! registration, which carries an opaque transport handle and a FIFO outbox
//! of payloads waiting to be delivered. `relay` appends a payload to the
//! outbox of every *other* participant registered under the same session —
//! in arrival order, so a receiver observes a sender's payloads in the order
//! they were sent. A payload relayed into a session with no other registered
//! participant is dropped: the hub buffers nothing for absent peers; the
//! session store's move log is the system of record.

use vstd::prelude::*;
use vstd::std_specs::vec::vec_index_mut;

verus! {

/// One registered transport connection: which session and player it serves,
/// an opaque transport handle, and the FIFO outbox of payloads enqueued for
/// delivery to it.
pub struct Registration {
    pub session: u64,
    pub player: String,
    pub handle: u64,
    pub outbox: Vec<String>,
}

/// Mathematical value of a [`Registration`].
#[verifier::ext_equal]
pub ghost struct RegView {
    pub session: u64,
    pub player: Seq<char>,
    pub handle: u64,
    pub outbox: Seq<Seq<char>>,
}

impl View for Registration {
    type V = RegView;

    open spec fn view(&self) -> RegView {
        RegView {
            session: self.session,
            player: self.player@,
            handle: self.handle,
            outbox: self.outbox.deep_view(),
        }
    }
}

impl DeepView for Registration {
    type V = RegView;

    open spec fn deep_view(&self) -> RegView {
        self.view()
    }
}

impl RegView {
    /// Whether this registration is keyed by the given session and player.
    pub open spec fn is_for(self, session: u64, player: Seq<char>) -> bool {
        self.session == session && self.player == player
    }

    /// Whether a relay into `session` from `sender` delivers to this
    /// registration: same session, a different player.
    pub open spec fn delivers_to(self, session: u64, sender: Seq<char>) -> bool {
        self.session == session && self.player != sender
    }
}

/// The relay hub: every currently registered transport connection.
pub struct RelayHub {
    pub entries: Vec<Registration>,
}

impl View for RelayHub {
    type V = Seq<RegView>;

    open spec fn view(&self) -> Seq<RegView> {
        self.entries.deep_view()
    }
}

/// The registrations kept by an unregister of `(session, player)`: those
/// under any other key.
pub open spec fn keeps(session: u64, player: Seq<char>) -> spec_fn(RegView) -> bool {
    |e: RegView| !e.is_for(session, player)
}

/// What a relay into `session` from `sender` does to one registration:
/// appends the payload to the outbox of every other participant of the
/// session, and leaves every other registration alone.
pub open spec fn relay_step(session: u64, sender: Seq<char>, payload: Seq<char>) -> spec_fn(
    RegView,
) -> RegView {
    |e: RegView|
        if e.delivers_to(session, sender) {
            RegView { outbox: e.outbox.push(payload), ..e }
        } else {
            e
        }
}

/// What draining `(session, player)` does to one registration: empties that
/// outbox and leaves every other registration alone.
pub open spec fn drain_step(session: u64, player: Seq<char>) -> spec_fn(RegView) -> RegView {
    |e: RegView|
        if e.is_for(session, player) {
            RegView { outbox: Seq::empty(), ..e }
        } else {
            e
        }
}

/// Registrations after removing the one keyed `(session, player)`, if any.
pub open spec fn spec_unregister(es: Seq<RegView>, session: u64, player: Seq<char>) -> Seq<
    RegView,
> {
    es.filter(keeps(session, player))
}

/// Registrations after `(session, player)` (re)registers with `handle`: any
/// old registration under the same key is dropped — outbox included — and a
/// fresh one with an empty outbox is appended.
pub open spec fn spec_register(
    es: Seq<RegView>,
    session: u64,
    player: Seq<char>,
    handle: u64,
) -> Seq<RegView> {
    spec_unregister(es, session, player).push(
        RegView { session, player, handle, outbox: Seq::empty() },
    )
}

/// Registrations after `sender` relays `payload` into `session`.
pub open spec fn spec_relay(
    es: Seq<RegView>,
    session: u64,
    sender: Seq<char>,
    payload: Seq<char>,
) -> Seq<RegView> {
    es.map_values(relay_step(session, sender, payload))
}

/// How many registrations a relay into `session` from `sender` delivers to.
pub open spec fn peer_count(es: Seq<RegView>, session: u64, sender: Seq<char>) -> nat
    decreases es.len(),
{
    if es.len() == 0 {
        0
    } else {
        peer_count(es.drop_last(), session, sender) + if es.last().delivers_to(
            session,
            sender,
        ) {
            1nat
        } else {
            0nat
        }
    }
}

/// A sequence whose members all satisfy a predicate is unchanged by
/// filtering with it.
proof fn lemma_filter_all_pos<A>(s: Seq<A>, pred: spec_fn(A) -> bool)
    requires
        forall|i: int| 0 <= i < s.len() ==> pred(#[trigger] s[i]),
    ensures
        s.filter(pred) == s,
    decreases s.len(),
{
    reveal(Seq::filter);
    if s.len() > 0 {
        assert(forall|i: int| 0 <= i < s.drop_last().len() ==> pred(#[trigger] s.drop_last()[i]));
        lemma_filter_all_pos(s.drop_last(), pred);
        assert(s.filter(pred) =~= s.drop_last().push(s.last()));
        assert(s.drop_last().push(s.last()) =~= s);
    } else {
        assert(s.filter(pred) =~= s);
    }
}

impl RelayHub {
    /// Hub invariant: at most one registration per `(session, player)` key.
    pub open spec fn wf(self) -> bool {
        forall|i: int, j: int|
            0 <= i < j < self@.len() ==> !(#[trigger] self@[i]).is_for(
                self@[j].session,
                (#[trigger] self@[j]).player,
            )
    }

    /// An empty hub: no transport connection registered.
    pub fn new() -> (hub: Self)
        ensures
            hub@ =~= Seq::<RegView>::empty(),
            hub.wf(),
    {
        let hub = RelayHub { entries: Vec::new() };
        proof {
            assert(hub@ =~= Seq::<RegView>::empty());
        }
        hub
    }

    /// Remove the registration keyed `(session, player)`.
    ///
    /// Idempotent: removing an absent key changes nothing. Afterwards no
    /// registration carries the key; all other registrations — handles and
    /// outboxes included — are exactly as before.
    pub fn unregister(&mut self, session: u64, player: &String)
        requires
            old(self).wf(),
        ensures
            final(self).wf(),
            final(self)@ == spec_unregister(old(self)@, session, player@),
            forall|i: int|
                0 <= i < final(self)@.len() ==> !(#[trigger] final(self)@[i]).is_for(
                    session,
                    player@,
                ),
    {
        let mut i: usize = 0;
        while i < self.entries.len()
            invariant
                0 <= i <= self.entries.len(),
                old(self).wf(),
                self == old(self),
                forall|j: int|
                    0 <= j < i ==> !(#[trigger] old(self)@[j]).is_for(session, player@),
            decreases self.entries.len() - i,
        {
            let hit = self.entries[i].session == session && self.entries[i].player == *player;
            if hit {
                let ghost es = old(self)@;
                let ghost k = i as int;
                self.entries.remove(i);
                proof {
                    let pred = keeps(session, player@);
                    let left = es.subrange(0, k);
                    let mid = es.subrange(k, k + 1);
                    let right = es.subrange(k + 1, es.len() as int);
                    assert(es[k].is_for(session, player@));
                    assert(es =~= (left + mid) + right);
                    Seq::filter_distributes_over_add(left + mid, right, pred);
                    Seq::filter_distributes_over_add(left, mid, pred);
                    assert forall|j: int| 0 <= j < left.len() implies pred(
                        #[trigger] left[j],
                    ) by {
                        assert(left[j] == es[j]);
                        assert(!es[j].is_for(session, player@));
                        assert(keeps(session, player@)(es[j]) == !es[j].is_for(session, player@));
                    }
                    lemma_filter_all_pos(left, pred);
                    assert forall|j: int| 0 <= j < right.len() implies pred(
                        #[trigger] right[j],
                    ) by {
                        let ej = k + 1 + j;
                        assert(right[j] == es[ej]);
                        if es[ej].is_for(session, player@) {
                            // the hub invariant: entry `k` already carries
                            // the key, so no later entry may
                            assert(!es[k].is_for(es[ej].session, es[ej].player));
                            assert(false);
                        }
                        assert(keeps(session, player@)(es[ej]) == !es[ej].is_for(
                            session,
                            player@,
                        ));
                    }
                    lemma_filter_all_pos(right, pred);
                    reveal(Seq::filter);
                    assert(mid.drop_last() =~= Seq::<RegView>::empty());
                    assert(Seq::<RegView>::empty().filter(pred) =~= Seq::<RegView>::empty());
                    assert(!pred(mid.last()));
                    assert(mid.filter(pred) =~= Seq::<RegView>::empty());
                    assert(es.filter(pred) =~= left + right);
                    assert(self@ =~= left + right);
                }
                return ;
            }
            i += 1;
        }
        proof {
            let pred = keeps(session, player@);
            assert forall|j: int| 0 <= j < self@.len() implies pred(#[trigger] self@[j]) by {
                assert(!old(self)@[j].is_for(session, player@));
            }
            lemma_filter_all_pos(self@, pred);
        }
    }

    /// Register — or re-register — a transport connection for
    /// `(session, player)`.
    ///
    /// Any old registration under the same key is dropped first (a
    /// reconnect replaces the handle and discards the stale outbox); the new
    /// registration starts with an empty outbox.
    pub fn register(&mut self, session: u64, player: String, handle: u64)
        requires
            old(self).wf(),
        ensures
            final(self).wf(),
            final(self)@ == spec_register(old(self)@, session, player@, handle),
    {
        self.unregister(session, &player);
        let ghost mid = self@;
        let ghost pv = player@;
        self.entries.push(Registration { session, player, handle, outbox: Vec::new() });
        proof {
            assert(self@ =~~= mid.push(
                RegView { session, player: pv, handle, outbox: Seq::empty() },
            ));
        }
    }

    /// Register — or re-register — a transport connection for
    /// `(session, player)` whose outbox starts with a backlog of payloads,
    /// oldest first, instead of empty. Any old registration under the same
    /// key is dropped first, as in [`RelayHub::register`].
    pub fn register_with_backlog(
        &mut self,
        session: u64,
        player: String,
        handle: u64,
        backlog: Vec<String>,
    )
        requires
            old(self).wf(),
        ensures
            final(self).wf(),
            final(self)@ == spec_unregister(old(self)@, session, player@).push(
                RegView { session, player: player@, handle, outbox: backlog.deep_view() },
            ),
    {
        self.unregister(session, &player);
        let ghost mid = self@;
        let ghost pv = player@;
        let ghost bv = backlog.deep_view();
        self.entries.push(Registration { session, player, handle, outbox: backlog });
        proof {
            assert(self@ =~~= mid.push(RegView { session, player: pv, handle, outbox: bv }));
        }
    }

    /// Relay a payload from `sender` into `session`.
    ///
    /// The payload goes to the end of the outbox of every other participant
    /// registered under the session — FIFO per destination — and nowhere
    /// else; registrations of other sessions and of the sender itself are
    /// untouched. Returns how many registrations were delivered to; zero
    /// means the payload was dropped (no peer connected).
    pub fn relay(&mut self, session: u64, sender: &String, payload: &String) -> (delivered: usize)
        requires
            old(self).wf(),
        ensures
            final(self).wf(),
            final(self)@ == spec_relay(old(self)@, session, sender@, payload@),
            delivered == peer_count(old(self)@, session, sender@),
    {
        let mut delivered: usize = 0;
        let mut i: usize = 0;
        while i < self.entries.len()
            invariant
                0 <= i <= self.entries.len(),
                self@.len() == old(self)@.len(),
                delivered <= i,
                forall|j: int|
                    0 <= j < i ==> self@[j] == relay_step(session, sender@, payload@)(
                        #[trigger] old(self)@[j],
                    ),
                forall|j: int| i <= j < self@.len() ==> self@[j] == old(self)@[j],
                delivered == peer_count(old(self)@.subrange(0, i as int), session, sender@),
            decreases self.entries.len() - i,
        {
            let ghost before = old(self)@.subrange(0, i as int);
            let ghost after = old(self)@.subrange(0, i as int + 1);
            let deliver_here = self.entries[i].session == session && !(self.entries[i].player
                == *sender);
            if deliver_here {
                let slot = vec_index_mut(&mut self.entries, i);
                slot.outbox.push(payload.clone());
                delivered = delivered + 1;
                proof {
                    assert(self@[i as int] =~~= relay_step(session, sender@, payload@)(
                        old(self)@[i as int],
                    ));
                }
            } else {
                proof {
                    assert(!old(self)@[i as int].delivers_to(session, sender@));
                }
            }
            proof {
                assert(after.drop_last() =~= before);
                assert(after.last() == old(self)@[i as int]);
            }
            i += 1;
        }
        proof {
            assert(old(self)@.subrange(0, old(self)@.len() as int) =~= old(self)@);
            assert(self@ =~= spec_relay(old(self)@, session, sender@, payload@));
            assert forall|i2: int, j2: int|
                0 <= i2 < j2 < self@.len() implies !(#[trigger] self@[i2]).is_for(
                self@[j2].session,
                (#[trigger] self@[j2]).player,
            ) by {
                assert(self@[i2].is_for(self@[j2].session, self@[j2].player) == old(
                    self,
                )@[i2].is_for(old(self)@[j2].session, old(self)@[j2].player));
            }
        }
        delivered
    }

    /// Take everything queued for `(session, player)`, in FIFO order,
    /// leaving its outbox empty. Whoever drives the transport sends the
    /// returned payloads, oldest first. An absent key yields nothing and
    /// changes nothing.
    pub fn drain_outbox(&mut self, session: u64, player: &String) -> (r: Vec<String>)
        requires
            old(self).wf(),
        ensures
            final(self).wf(),
            final(self)@ == old(self)@.map_values(drain_step(session, player@)),
            forall|i: int|
                0 <= i < old(self)@.len() && (#[trigger] old(self)@[i]).is_for(session, player@)
                    ==> r.deep_view() == old(self)@[i].outbox,
            (forall|i: int|
                0 <= i < old(self)@.len() ==> !(#[trigger] old(self)@[i]).is_for(
                    session,
                    player@,
                )) ==> r@.len() == 0,
    {
        let mut i: usize = 0;
        while i < self.entries.len()
            invariant
                0 <= i <= self.entries.len(),
                old(self).wf(),
                self == old(self),
                forall|j: int|
                    0 <= j < i ==> !(#[trigger] old(self)@[j]).is_for(session, player@),
            decreases self.entries.len() - i,
        {
            let hit = self.entries[i].session == session && self.entries[i].player == *player;
            if hit {
                let ghost es = old(self)@;
                let ghost k = i as int;
                let slot = vec_index_mut(&mut self.entries, i);
                let out = slot.outbox.split_off(0);
                proof {
                    assert(self@[k] =~~= drain_step(session, player@)(es[k]));
                    assert forall|j: int|
                        0 <= j < self@.len() && j != k implies self@[j] == drain_step(
                        session,
                        player@,
                    )(#[trigger] es[j]) by {
                        if es[j].is_for(session, player@) {
                            // the hub invariant: entry `k` already carries
                            // the key, so no other entry may
                            if j < k {
                                assert(!es[j].is_for(es[k].session, es[k].player));
                            } else {
                                assert(!es[k].is_for(es[j].session, es[j].player));
                            }
                            assert(false);
                        }
                    }
                    assert(self@ =~= es.map_values(drain_step(session, player@)));
                    assert(out.deep_view() =~= es[k].outbox);
                    assert forall|i2: int, j2: int|
                        0 <= i2 < j2 < self@.len() implies !(#[trigger] self@[i2]).is_for(
                        self@[j2].session,
                        (#[trigger] self@[j2]).player,
                    ) by {
                        let a = es[i2];
                        let b = es[j2];
                        assert(self@[i2].is_for(self@[j2].session, self@[j2].player) == a.is_for(
                            b.session,
                            b.player,
                        ));
                    }
                }
                return out;
            }
            i += 1;
        }
        proof {
            assert(self@ =~= old(self)@.map_values(drain_step(session, player@)));
        }
        Vec::new()
    }
}

/// Relays from one sender reach a co-session receiver in sending order:
/// after `m1` and then `m2` are relayed, with any one relay of unrelated
/// traffic on another session between them, the receiver's outbox holds
/// exactly its old content followed by `m1` and then `m2`.
pub proof fn lemma_relay_fifo(
    es: Seq<RegView>,
    session: u64,
    sender: Seq<char>,
    m1: Seq<char>,
    m2: Seq<char>,
    other_session: u64,
    other_sender: Seq<char>,
    other_payload: Seq<char>,
    i: int,
)
    requires
        0 <= i < es.len(),
        es[i].delivers_to(session, sender),
        other_session != session,
    ensures
        spec_relay(
            spec_relay(spec_relay(es, session, sender, m1), other_session, other_sender, other_payload),
            session,
            sender,
            m2,
        )[i].outbox == es[i].outbox + seq![m1, m2],
{
    let s1 = spec_relay(es, session, sender, m1);
    let s2 = spec_relay(s1, other_session, other_sender, other_payload);
    let s3 = spec_relay(s2, session, sender, m2);
    assert(s1[i] == relay_step(session, sender, m1)(es[i]));
    assert(s1[i].outbox == es[i].outbox.push(m1));
    assert(s1[i].session == session && s1[i].player == es[i].player);
    assert(!s1[i].delivers_to(other_session, other_sender));
    assert(s2[i] == relay_step(other_session, other_sender, other_payload)(s1[i]));
    assert(s2[i] == s1[i]);
    assert(s3[i] == relay_step(session, sender, m2)(s2[i]));
    assert(s3[i].outbox == es[i].outbox.push(m1).push(m2));
    assert(es[i].outbox.push(m1).push(m2) =~= es[i].outbox + seq![m1, m2]);
}

/// A relay into one session never touches a registration of another
/// session: outbox, handle and key all stand.
pub proof fn lemma_relay_isolated(
    es: Seq<RegView>,
    session: u64,
    sender: Seq<char>,
    payload: Seq<char>,
    i: int,
)
    requires
        0 <= i < es.len(),
        es[i].session != session,
    ensures
        spec_relay(es, session, sender, payload)[i] == es[i],
{
    assert(spec_relay(es, session, sender, payload)[i] == relay_step(session, sender, payload)(
        es[i],
    ));
}

/// Removing a registration twice is the same as removing it once: the
/// second removal finds nothing and leaves the hub exactly as the first
/// left it.
pub proof fn lemma_unregister_idempotent(es: Seq<RegView>, session: u64, player: Seq<char>)
    ensures
        spec_unregister(spec_unregister(es, session, player), session, player) == spec_unregister(
            es,
            session,
            player,
        ),
{
    let pred = keeps(session, player);
    let once = es.filter(pred);
    assert forall|i: int| 0 <= i < once.len() implies pred(#[trigger] once[i]) by {
        broadcast use Seq::lemma_filter_pred;

    }
    lemma_filter_all_pos(once, pred);
}

} // verus!
