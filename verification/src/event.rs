//! Front-end intent events and the manager that collects them.
//!
//! Events are what the excluded front-end produces; the business loop turns
//! some of them into outbound envelopes. The manager is a simple ordered
//! store with type-based removal.

use vstd::prelude::*;

verus! {

/// The kinds of front-end events.
#[derive(Clone, Copy, Debug, PartialEq, Eq, Structural)]
pub enum EventType {
    NoneType,
    KeyPress,
    MouseClick,
    HomeEvent,
    MotorEvent,
}

/// A trait that all events must implement: each event knows its kind.
pub trait Event: Sized {
    /// The kind of this event.
    spec fn event_type_spec(&self) -> EventType;

    /// Returns the kind of this event.
    fn get_type(&self) -> (t: EventType)
        ensures
            t == self.event_type_spec(),
    ;
}

/// The events of `s` whose kind is not `t`, in order: what removing the
/// events of kind `t` keeps.
pub open spec fn without_type<E: Event>(s: Seq<E>, t: EventType) -> Seq<E>
    decreases s.len(),
{
    if s.len() == 0 {
        Seq::empty()
    } else {
        let head = without_type(s.drop_last(), t);
        if s.last().event_type_spec() == t {
            head
        } else {
            head.push(s.last())
        }
    }
}

/// A store of events in arrival order.
pub struct EventManager<E: Event> {
    events: Vec<E>,
}

impl<E: Event> View for EventManager<E> {
    type V = Seq<E>;

    closed spec fn view(&self) -> Seq<E> {
        self.events@
    }
}

impl<E: Event> EventManager<E> {
    /// An empty manager.
    pub fn new() -> (r: EventManager<E>)
        ensures
            r@ == Seq::<E>::empty(),
    {
        EventManager { events: Vec::new() }
    }

    /// Adds an event behind everything added before it.
    pub fn add_event(&mut self, event: E)
        ensures
            final(self)@ == old(self)@.push(event),
    {
        self.events.push(event);
    }

    /// Removes every stored event of the same kind as `event`; the rest keep
    /// their order.
    pub fn remove_event(&mut self, event: E)
        ensures
            final(self)@ == without_type(old(self)@, event.event_type_spec()),
    {
        let t = event.get_type();
        let mut rest: Vec<E> = Vec::new();
        core::mem::swap(&mut rest, &mut self.events);
        let ghost orig = rest@;
        let total = rest.len();
        let mut processed: usize = 0;
        while rest.len() > 0
            invariant
                orig.len() == total,
                processed + rest@.len() == orig.len(),
                rest@ == orig.subrange(processed as int, orig.len() as int),
                self.events@ == without_type(orig.subrange(0, processed as int), t),
                t == event.event_type_spec(),
            decreases rest@.len(),
        {
            let e = rest.remove(0);
            processed = processed + 1;
            proof {
                assert(e == orig[processed as int - 1]);
                assert(rest@ =~= orig.subrange(processed as int, orig.len() as int));
            }
            let keep = !(e.get_type() == t);
            if keep {
                self.events.push(e);
            }
            proof {
                let prefix = orig.subrange(0, processed as int);
                assert(prefix.drop_last() =~= orig.subrange(0, processed as int - 1));
                assert(prefix.last() == e);
                assert(self.events@ =~= without_type(prefix, t));
            }
        }
        proof {
            assert(orig.subrange(0, orig.len() as int) =~= orig);
        }
    }

    /// The stored events, oldest first.
    pub fn iter(&self) -> (r: &Vec<E>)
        ensures
            r@ == self@,
    {
        &self.events
    }

    /// Removes and returns the most recently added event.
    pub fn pop(&mut self) -> (r: Option<E>)
        ensures
            old(self)@.len() > 0 ==> (r == Some(old(self)@.last()) && final(self)@ == old(
                self,
            )@.drop_last()),
            old(self)@.len() == 0 ==> r is None && final(self)@ == old(self)@,
    {
        self.events.pop()
    }

    /// Removes every stored event.
    pub fn clear(&mut self)
        ensures
            final(self)@ == Seq::<E>::empty(),
    {
        self.events.clear();
    }

    /// How many events are stored.
    pub fn len(&self) -> (r: usize)
        ensures
            r == self@.len(),
    {
        self.events.len()
    }

    /// Whether no event is stored.
    pub fn is_empty(&self) -> (r: bool)
        ensures
            r == (self@.len() == 0),
    {
        self.events.is_empty()
    }
}

/// A key was pressed.
#[derive(Clone, Copy, Debug, PartialEq, Eq, Structural)]
pub struct KeyPressEvent {
    pub key_code: u32,
}

impl Event for KeyPressEvent {
    open spec fn event_type_spec(&self) -> EventType {
        EventType::KeyPress
    }

    fn get_type(&self) -> EventType {
        EventType::KeyPress
    }
}

/// The mouse was clicked at a position.
#[derive(Clone, Copy, Debug, PartialEq, Eq, Structural)]
pub struct MouseClickEvent {
    pub x: i32,
    pub y: i32,
}

impl Event for MouseClickEvent {
    open spec fn event_type_spec(&self) -> EventType {
        EventType::MouseClick
    }

    fn get_type(&self) -> EventType {
        EventType::MouseClick
    }
}

/// The front-end asked for a motor movement.
#[derive(Clone, Copy, Debug, PartialEq, Eq, Structural)]
pub struct MotorEvent {
    pub x: i32,
    pub y: i32,
}

impl Default for MotorEvent {
    /// A motor event at the origin.
    fn default() -> (r: MotorEvent)
        ensures
            r == (MotorEvent { x: 0, y: 0 }),
    {
        MotorEvent { x: 0, y: 0 }
    }
}

impl Event for MotorEvent {
    open spec fn event_type_spec(&self) -> EventType {
        EventType::MotorEvent
    }

    fn get_type(&self) -> EventType {
        EventType::MotorEvent
    }
}

/// The closed union of front-end events, so one store can hold events of
/// different kinds.
#[derive(Clone, Copy, Debug, PartialEq, Eq, Structural)]
pub enum AppEvent {
    Key(KeyPressEvent),
    Mouse(MouseClickEvent),
    Motor(MotorEvent),
}

impl Event for AppEvent {
    open spec fn event_type_spec(&self) -> EventType {
        match self {
            AppEvent::Key(e) => e.event_type_spec(),
            AppEvent::Mouse(e) => e.event_type_spec(),
            AppEvent::Motor(e) => e.event_type_spec(),
        }
    }

    fn get_type(&self) -> EventType {
        match self {
            AppEvent::Key(e) => e.get_type(),
            AppEvent::Mouse(e) => e.get_type(),
            AppEvent::Motor(e) => e.get_type(),
        }
    }
}

} // verus!
