//! Subsystems and the dispatch router.
//!
//! A subsystem is a pluggable handler that consumes one envelope at a time
//! and rolls its per-batch state at drain-cycle boundaries. The router holds
//! a registry of subsystems, each with the set of message types it is
//! interested in, and fans every queued envelope out to all interested
//! subsystems in registration order.

use vstd::prelude::*;
use crate::msg::{views_of, MessageType, Msg, MsgView};

verus! {

/// The identities under which subsystems register.
#[derive(Clone, Copy, Debug, PartialEq, Eq, Structural)]
pub enum SystemType {
    Tcp,
    Motor,
    Quit,
    Join,
}

/// A pluggable handler. `batch` is its per-batch state: the envelopes
/// handled since the last rollup.
pub trait SubSystem: Sized {
    /// The envelopes handled since the last rollup, oldest first.
    spec fn batch(&self) -> Seq<MsgView>;

    /// Handles one envelope, appending it to the batch.
    fn exec(&mut self, msg: &Msg)
        ensures
            final(self).batch() == old(self).batch().push(msg@),
    ;

    /// Clears the per-batch state; called once per drain cycle, never per
    /// message.
    fn rollup(&mut self)
        ensures
            final(self).batch() == Seq::<MsgView>::empty(),
    ;
}

/// A registry entry: a subsystem, its identity, and its interest set.
pub struct Registration<S> {
    pub system_type: SystemType,
    pub handler: S,
    pub interests: Vec<MessageType>,
}

/// The envelopes of `bus` that a subsystem with the given interest set
/// receives: exactly those whose type is in the set, in bus order.
pub open spec fn routed(bus: Seq<MsgView>, interests: Seq<MessageType>) -> Seq<MsgView>
    decreases bus.len(),
{
    if bus.len() == 0 {
        Seq::empty()
    } else {
        let head = routed(bus.drop_last(), interests);
        if interests.contains(bus.last().msg_type) {
            head.push(bus.last())
        } else {
            head
        }
    }
}

/// Whether `v` holds `t`.
fn contains_type(v: &Vec<MessageType>, t: MessageType) -> (r: bool)
    ensures
        r == v@.contains(t),
{
    let mut i: usize = 0;
    while i < v.len()
        invariant
            i <= v@.len(),
            forall|j: int| 0 <= j < i ==> v@[j] != t,
        decreases v@.len() - i,
    {
        if v[i] == t {
            proof {
                assert(v@[i as int] == t);
            }
            return true;
        }
        i = i + 1;
    }
    false
}

/// The dispatch router: a queue of envelopes awaiting delivery and the
/// registry of subsystems they are fanned out to.
pub struct CenterSubsystem<S> {
    bus: Vec<Msg>,
    subsystems: Vec<Registration<S>>,
}

impl<S: SubSystem> CenterSubsystem<S> {
    /// The envelopes queued for the next drain, oldest first.
    pub closed spec fn bus_spec(&self) -> Seq<MsgView> {
        views_of(self.bus@)
    }

    /// How many subsystems are registered.
    pub closed spec fn n_subsystems(&self) -> nat {
        self.subsystems@.len()
    }

    /// The identity of the subsystem registered at position `i`.
    pub closed spec fn id_of(&self, i: int) -> SystemType {
        self.subsystems@[i].system_type
    }

    /// The interest set of the subsystem registered at position `i`.
    pub closed spec fn interests_of(&self, i: int) -> Seq<MessageType> {
        self.subsystems@[i].interests@
    }

    /// The batch state of the subsystem registered at position `i`.
    pub closed spec fn batch_of(&self, i: int) -> Seq<MsgView> {
        self.subsystems@[i].handler.batch()
    }

    /// Whether the registry at positions `lo..hi` is unchanged between two
    /// router values.
    pub open spec fn same_registry(self, other: Self) -> bool {
        &&& self.n_subsystems() == other.n_subsystems()
        &&& forall|i: int|
            0 <= i < self.n_subsystems() ==> #[trigger] self.id_of(i) == other.id_of(i)
                && self.interests_of(i) == other.interests_of(i)
    }

    /// An empty router: nothing queued, nothing registered.
    pub fn new() -> (r: CenterSubsystem<S>)
        ensures
            r.bus_spec() == Seq::<MsgView>::empty(),
            r.n_subsystems() == 0,
    {
        let r = CenterSubsystem { bus: Vec::new(), subsystems: Vec::new() };
        proof {
            assert(r.bus_spec() =~= Seq::<MsgView>::empty());
        }
        r
    }

    /// Registers a subsystem under a fresh identity with its interest set;
    /// it is appended to the registry, so it receives envelopes after every
    /// subsystem registered before it.
    pub fn register(&mut self, system_type: SystemType, handler: S, interests: Vec<MessageType>)
        requires
            forall|i: int|
                0 <= i < old(self).n_subsystems() ==> #[trigger] old(self).id_of(i) != system_type,
        ensures
            final(self).n_subsystems() == old(self).n_subsystems() + 1,
            forall|i: int|
                0 <= i < old(self).n_subsystems() ==> #[trigger] final(self).id_of(i) == old(self).id_of(i) && final(self).interests_of(i) == old(self).interests_of(i) && final(self).batch_of(i) == old(self).batch_of(i),
            final(self).id_of(old(self).n_subsystems() as int) == system_type,
            final(self).interests_of(old(self).n_subsystems() as int) == interests@,
            final(self).batch_of(old(self).n_subsystems() as int) == handler.batch(),
            final(self).bus_spec() == old(self).bus_spec(),
    {
        self.subsystems.push(Registration { system_type, handler, interests });
    }

    /// Queues an envelope for the next drain, behind everything queued
    /// before it.
    pub fn enqueue(&mut self, msg: Msg)
        ensures
            final(self).bus_spec() == old(self).bus_spec().push(msg@),
            old(self).same_registry(*final(self)),
            forall|i: int|
                0 <= i < old(self).n_subsystems() ==> #[trigger] final(self).batch_of(i) == old(self).batch_of(i),
    {
        self.bus.push(msg);
        proof {
            assert(final(self).bus_spec() =~= old(self).bus_spec().push(msg@));
        }
    }

    /// How many envelopes are queued.
    pub fn bus_len(&self) -> (r: usize)
        ensures
            r == self.bus_spec().len(),
    {
        self.bus.len()
    }

    /// How many subsystems are registered.
    pub fn subsystem_count(&self) -> (r: usize)
        ensures
            r == self.n_subsystems(),
    {
        self.subsystems.len()
    }

    /// The subsystem registered at position `j`.
    pub fn handler_at(&self, j: usize) -> (r: &S)
        requires
            j < self.n_subsystems(),
        ensures
            r.batch() == self.batch_of(j as int),
    {
        &self.subsystems[j].handler
    }

    /// Drains the queue: every queued envelope is delivered, in queue order,
    /// to every subsystem whose interest set contains the envelope's type,
    /// in registration order; no other subsystem sees it.
    pub fn dispatch(&mut self)
        ensures
            final(self).bus_spec() == Seq::<MsgView>::empty(),
            old(self).same_registry(*final(self)),
            forall|i: int|
                0 <= i < old(self).n_subsystems() ==> #[trigger] final(self).batch_of(i) == old(
                    self,
                ).batch_of(i) + routed(old(self).bus_spec(), old(self).interests_of(i)),
    {
        let ghost old_bus = self.bus_spec();
        let ghost n = self.n_subsystems();
        let mut k: usize = 0;
        while k < self.bus.len()
            invariant
                k <= self.bus@.len(),
                self.bus@ == old(self).bus@,
                old_bus == old(self).bus_spec(),
                n == self.n_subsystems(),
                old(self).same_registry(*self),
                forall|i: int|
                    0 <= i < n ==> #[trigger] self.batch_of(i) == old(self).batch_of(i) + routed(
                        old_bus.subrange(0, k as int),
                        self.interests_of(i),
                    ),
            decreases self.bus@.len() - k,
        {
            let ghost m = old_bus[k as int];
            let mut j: usize = 0;
            while j < self.subsystems.len()
                invariant
                    j <= self.subsystems@.len(),
                    k < self.bus@.len(),
                    self.bus@ == old(self).bus@,
                    old_bus == old(self).bus_spec(),
                    m == old_bus[k as int],
                    n == self.n_subsystems(),
                    old(self).same_registry(*self),
                    forall|i: int|
                        j <= i < n ==> #[trigger] self.batch_of(i) == old(self).batch_of(i)
                            + routed(old_bus.subrange(0, k as int), self.interests_of(i)),
                    forall|i: int|
                        0 <= i < j ==> #[trigger] self.batch_of(i) == old(self).batch_of(i)
                            + routed(old_bus.subrange(0, k as int + 1), self.interests_of(i)),
                decreases self.subsystems@.len() - j,
            {
                let ghost prev = *self;
                let ghost subs_before = self.subsystems@;
                let mut entry = self.subsystems.remove(j);
                let msg = &self.bus[k];
                let hit = contains_type(&entry.interests, msg.get_msg_type());
                if hit {
                    entry.handler.exec(msg);
                }
                let ghost gentry = entry;
                self.subsystems.insert(j, entry);
                j = j + 1;
                proof {
                    let jj = j - 1;
                    assert(self.subsystems@ =~= subs_before.update(jj, gentry));
                    assert(msg@ == m);
                    assert(hit == prev.interests_of(jj).contains(m.msg_type));
                    lemma_routed_push(old_bus.subrange(0, k as int), prev.interests_of(jj), m);
                    assert(old_bus.subrange(0, k as int).push(m) =~= old_bus.subrange(
                        0,
                        k as int + 1,
                    ));
                    assert forall|i: int| 0 <= i < n && i != jj implies #[trigger] self.batch_of(i)
                        == prev.batch_of(i) && self.interests_of(i) == prev.interests_of(i) by {
                        assert(self.subsystems@[i] == subs_before[i]);
                    }
                    assert(self.batch_of(jj) == gentry.handler.batch());
                    assert(self.interests_of(jj) == prev.interests_of(jj));
                    assert(prev.batch_of(jj) == old(self).batch_of(jj) + routed(
                        old_bus.subrange(0, k as int),
                        prev.interests_of(jj),
                    ));
                    if hit {
                        assert(gentry.handler.batch() == prev.batch_of(jj).push(m));
                        assert(routed(old_bus.subrange(0, k as int + 1), prev.interests_of(jj))
                            == routed(old_bus.subrange(0, k as int), prev.interests_of(jj)).push(
                            m,
                        ));
                        assert(self.batch_of(jj) =~= old(self).batch_of(jj) + routed(
                            old_bus.subrange(0, k as int + 1),
                            self.interests_of(jj),
                        ));
                    } else {
                        assert(self.batch_of(jj) =~= old(self).batch_of(jj) + routed(
                            old_bus.subrange(0, k as int + 1),
                            self.interests_of(jj),
                        ));
                    }
                }
            }
            k = k + 1;
        }
        let ghost at_exit = *self;
        self.bus.clear();
        proof {
            assert(final(self).bus_spec() =~= Seq::<MsgView>::empty());
            assert(old_bus.subrange(0, old_bus.len() as int) =~= old_bus);
            assert forall|i: int| 0 <= i < n implies #[trigger] final(self).batch_of(i) == old(
                self,
            ).batch_of(i) + routed(old(self).bus_spec(), old(self).interests_of(i)) by {
                assert(old(self).id_of(i) == at_exit.id_of(i));
                assert(old(self).interests_of(i) == at_exit.interests_of(i));
                assert(at_exit.batch_of(i) == old(self).batch_of(i) + routed(
                    old_bus.subrange(0, old_bus.len() as int),
                    at_exit.interests_of(i),
                ));
                assert(self.batch_of(i) == at_exit.batch_of(i));
                assert(self.interests_of(i) == at_exit.interests_of(i));
            }
        }
    }

    /// Marks the drain-cycle boundary: every subsystem's batch state is
    /// cleared.
    pub fn rollup(&mut self)
        ensures
            final(self).bus_spec() == old(self).bus_spec(),
            old(self).same_registry(*final(self)),
            forall|i: int|
                0 <= i < old(self).n_subsystems() ==> #[trigger] final(self).batch_of(i)
                    == Seq::<MsgView>::empty(),
    {
        let ghost n = self.n_subsystems();
        let mut j: usize = 0;
        while j < self.subsystems.len()
            invariant
                j <= self.subsystems@.len(),
                self.bus@ == old(self).bus@,
                n == self.n_subsystems(),
                old(self).same_registry(*self),
                forall|i: int|
                    0 <= i < j ==> #[trigger] self.batch_of(i) == Seq::<MsgView>::empty(),
            decreases self.subsystems@.len() - j,
        {
            let ghost prev = *self;
            let ghost subs_before = self.subsystems@;
            let mut entry = self.subsystems.remove(j);
            entry.handler.rollup();
            let ghost gentry = entry;
            self.subsystems.insert(j, entry);
            j = j + 1;
            proof {
                assert(self.subsystems@ =~= subs_before.update(j - 1, gentry));
                assert(self.batch_of(j - 1) == gentry.handler.batch());
                assert forall|i: int| 0 <= i < n && i != j - 1 implies #[trigger] self.batch_of(i)
                    == prev.batch_of(i) && self.interests_of(i) == prev.interests_of(i)
                    && self.id_of(i) == prev.id_of(i) by {
                    assert(self.subsystems@[i] == subs_before[i]);
                }
                assert forall|i: int| 0 <= i < j implies #[trigger] self.batch_of(i)
                    == Seq::<MsgView>::empty() by {
                    if i < j - 1 {
                        assert(prev.batch_of(i) == Seq::<MsgView>::empty());
                    }
                }
            }
        }
    }
}

/// Routing correctness: the envelopes routed to an interest set are exactly
/// the bus envelopes whose type is in that set, in bus order. A subsystem
/// registered for `Move` alone receives every envelope tagged `Move` and
/// none tagged `Quit`; one registered for both receives both.
pub proof fn lemma_routing_correctness(bus: Seq<MsgView>, interests: Seq<MessageType>)
    ensures
        routed(bus, interests) == bus.filter(|m: MsgView| interests.contains(m.msg_type)),
        forall|j: int|
            0 <= j < routed(bus, interests).len() ==> interests.contains(
                (#[trigger] routed(bus, interests)[j]).msg_type,
            ),
        forall|j: int|
            0 <= j < bus.len() && interests.contains((#[trigger] bus[j]).msg_type) ==> routed(
                bus,
                interests,
            ).contains(bus[j]),
    decreases bus.len(),
{
    let pred = |m: MsgView| interests.contains(m.msg_type);
    reveal(Seq::filter);
    if bus.len() > 0 {
        lemma_routing_correctness(bus.drop_last(), interests);
    }
    bus.filter_lemma(pred);
}

/// Appending one envelope to the bus appends it to the routed sequence of
/// exactly the interest sets that contain its type.
pub proof fn lemma_routed_push(bus: Seq<MsgView>, interests: Seq<MessageType>, m: MsgView)
    ensures
        interests.contains(m.msg_type) ==> routed(bus.push(m), interests) == routed(
            bus,
            interests,
        ).push(m),
        !interests.contains(m.msg_type) ==> routed(bus.push(m), interests) == routed(
            bus,
            interests,
        ),
{
    assert(bus.push(m).drop_last() =~= bus);
    assert(bus.push(m).last() == m);
}

/// The motor-control handler: it records the motor commands of its current
/// batch.
pub struct MotorSystem {
    msgs: Vec<Msg>,
}

impl MotorSystem {
    /// A motor handler with an empty batch.
    pub fn new() -> (r: MotorSystem)
        ensures
            r.batch() == Seq::<MsgView>::empty(),
    {
        let r = MotorSystem { msgs: Vec::new() };
        proof {
            assert(r.batch() =~= Seq::<MsgView>::empty());
        }
        r
    }

    /// The envelopes of the current batch, oldest first.
    pub fn msgs(&self) -> (r: &Vec<Msg>)
        ensures
            views_of(r@) == self.batch(),
    {
        &self.msgs
    }
}

impl SubSystem for MotorSystem {
    closed spec fn batch(&self) -> Seq<MsgView> {
        views_of(self.msgs@)
    }

    fn exec(&mut self, msg: &Msg) {
        let copy = msg.duplicate();
        self.msgs.push(copy);
        proof {
            assert(final(self).batch() =~= old(self).batch().push(msg@));
        }
    }

    fn rollup(&mut self) {
        self.msgs.clear();
        proof {
            assert(final(self).batch() =~= Seq::<MsgView>::empty());
        }
    }
}

} // verus!
