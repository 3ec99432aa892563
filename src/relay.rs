//! The relay engine's bookkeeping: a full-duplex splice between two streams,
//! as a state machine from events (data read, end of stream, error) to the
//! action that the caller performs.
use vstd::prelude::*;

verus! {

/// A direction of the splice.
#[derive(Clone, Copy, Debug, PartialEq, Eq, Structural)]
pub enum Direction {
    AToB,
    BToA,
}

/// What happened on the read side of a direction.
#[derive(Clone, Copy, Debug, PartialEq, Eq, Structural)]
pub enum RelayEvent {
    /// This many bytes were read from the direction's source.
    Data(Direction, u64),
    /// The direction's source reached its end.
    Eof(Direction),
    /// A hard I/O error on the direction.
    Error(Direction),
}

/// What the caller does next.
#[derive(Clone, Copy, Debug, PartialEq, Eq, Structural)]
pub enum RelayAction {
    /// Write the bytes just read, unchanged, to the direction's destination.
    Forward(Direction, u64),
    /// Shut down the write side of the direction's destination; the other
    /// direction goes on.
    ShutdownWrite(Direction),
    /// Stop both directions and surface the error.
    Abort,
}

/// The state of one splice.
#[derive(Clone, Copy, Debug, PartialEq, Eq, Structural)]
pub struct RelayState {
    /// Whether the direction a to b still reads.
    pub a_to_b_open: bool,
    /// Whether the direction b to a still reads.
    pub b_to_a_open: bool,
    /// Bytes forwarded from a to b.
    pub a_to_b: u64,
    /// Bytes forwarded from b to a.
    pub b_to_a: u64,
    /// Whether an error ended the splice.
    pub aborted: bool,
}

impl RelayState {
    /// An aborted splice has no open direction.
    pub open spec fn wf(&self) -> bool {
        self.aborted ==> !self.a_to_b_open && !self.b_to_a_open
    }

    /// Whether direction `d` still reads.
    pub open spec fn is_open(&self, d: Direction) -> bool {
        match d {
            Direction::AToB => self.a_to_b_open,
            Direction::BToA => self.b_to_a_open,
        }
    }

    /// Whether an event may arrive now: only on a direction that still reads,
    /// and never so many bytes that a counter would overflow.
    pub open spec fn accepts(&self, ev: RelayEvent) -> bool {
        match ev {
            RelayEvent::Data(d, n) => self.is_open(d) && match d {
                Direction::AToB => self.a_to_b + n <= u64::MAX,
                Direction::BToA => self.b_to_a + n <= u64::MAX,
            },
            RelayEvent::Eof(d) => self.is_open(d),
            RelayEvent::Error(d) => self.is_open(d),
        }
    }

    /// The state after an event.
    pub open spec fn next(&self, ev: RelayEvent) -> RelayState {
        match ev {
            RelayEvent::Data(Direction::AToB, n) => RelayState {
                a_to_b: (self.a_to_b + n) as u64,
                ..*self
            },
            RelayEvent::Data(Direction::BToA, n) => RelayState {
                b_to_a: (self.b_to_a + n) as u64,
                ..*self
            },
            RelayEvent::Eof(Direction::AToB) => RelayState { a_to_b_open: false, ..*self },
            RelayEvent::Eof(Direction::BToA) => RelayState { b_to_a_open: false, ..*self },
            RelayEvent::Error(_) => RelayState {
                a_to_b_open: false,
                b_to_a_open: false,
                aborted: true,
                ..*self
            },
        }
    }

    /// The action for an event.
    pub open spec fn action(ev: RelayEvent) -> RelayAction {
        match ev {
            RelayEvent::Data(d, n) => RelayAction::Forward(d, n),
            RelayEvent::Eof(d) => RelayAction::ShutdownWrite(d),
            RelayEvent::Error(_) => RelayAction::Abort,
        }
    }

    /// A splice with both directions open and nothing forwarded.
    pub fn new() -> (r: RelayState)
        ensures
            r == fresh_relay(),
            r.wf(),
    {
        RelayState { a_to_b_open: true, b_to_a_open: true, a_to_b: 0, b_to_a: 0, aborted: false }
    }

    /// Takes one event into account and says what to do.
    pub fn step(&mut self, ev: RelayEvent) -> (r: RelayAction)
        requires
            old(self).wf(),
            old(self).accepts(ev),
        ensures
            *final(self) == old(self).next(ev),
            final(self).wf(),
            r == RelayState::action(ev),
    {
        match ev {
            RelayEvent::Data(Direction::AToB, n) => {
                self.a_to_b = self.a_to_b + n;
                RelayAction::Forward(Direction::AToB, n)
            },
            RelayEvent::Data(Direction::BToA, n) => {
                self.b_to_a = self.b_to_a + n;
                RelayAction::Forward(Direction::BToA, n)
            },
            RelayEvent::Eof(d) => {
                match d {
                    Direction::AToB => self.a_to_b_open = false,
                    Direction::BToA => self.b_to_a_open = false,
                }
                RelayAction::ShutdownWrite(d)
            },
            RelayEvent::Error(d) => {
                self.a_to_b_open = false;
                self.b_to_a_open = false;
                self.aborted = true;
                RelayAction::Abort
            },
        }
    }

    /// Whether both directions have ended.
    pub fn is_done(&self) -> (r: bool)
        ensures
            r == (!self.a_to_b_open && !self.b_to_a_open),
    {
        !self.a_to_b_open && !self.b_to_a_open
    }

    /// The bytes forwarded each way, once both directions ended without error.
    pub fn result(&self) -> (r: Option<(u64, u64)>)
        ensures
            r == if !self.a_to_b_open && !self.b_to_a_open && !self.aborted {
                Some((self.a_to_b, self.b_to_a))
            } else {
                None::<(u64, u64)>
            },
    {
        if !self.a_to_b_open && !self.b_to_a_open && !self.aborted {
            Some((self.a_to_b, self.b_to_a))
        } else {
            None
        }
    }
}

/// A half-close of one direction leaves the other reading, and leaves what
/// was forwarded so far as it was.
pub proof fn lemma_half_close_keeps_other_direction(s: RelayState, d: Direction)
    requires
        s.wf(),
        s.accepts(RelayEvent::Eof(d)),
    ensures
        s.next(RelayEvent::Eof(d)).is_open(Direction::AToB) == (d != Direction::AToB
            && s.a_to_b_open),
        s.next(RelayEvent::Eof(d)).is_open(Direction::BToA) == (d != Direction::BToA
            && s.b_to_a_open),
        s.next(RelayEvent::Eof(d)).a_to_b == s.a_to_b,
        s.next(RelayEvent::Eof(d)).b_to_a == s.b_to_a,
        !s.next(RelayEvent::Eof(d)).aborted,
{
}

/// An error on either direction ends both, and the splice yields no result.
pub proof fn lemma_error_ends_both(s: RelayState, d: Direction)
    requires
        s.wf(),
    ensures
        !s.next(RelayEvent::Error(d)).is_open(Direction::AToB),
        !s.next(RelayEvent::Error(d)).is_open(Direction::BToA),
        s.next(RelayEvent::Error(d)).aborted,
{
}

/// A splice with both directions open and nothing forwarded.
pub open spec fn fresh_relay() -> RelayState {
    RelayState { a_to_b_open: true, b_to_a_open: true, a_to_b: 0, b_to_a: 0, aborted: false }
}

/// The state after a sequence of events.
pub open spec fn run(s: RelayState, evs: Seq<RelayEvent>) -> RelayState
    decreases evs.len(),
{
    if evs.len() == 0 {
        s
    } else {
        run(s, evs.drop_last()).next(evs.last())
    }
}

/// Whether each event of the sequence may arrive in the state before it.
pub open spec fn run_ok(s: RelayState, evs: Seq<RelayEvent>) -> bool
    decreases evs.len(),
{
    if evs.len() == 0 {
        true
    } else {
        run_ok(s, evs.drop_last()) && run(s, evs.drop_last()).accepts(evs.last())
    }
}

/// The bytes read on direction `d` over a sequence of events.
pub open spec fn bytes_read(evs: Seq<RelayEvent>, d: Direction) -> int
    decreases evs.len(),
{
    if evs.len() == 0 {
        0
    } else {
        bytes_read(evs.drop_last(), d) + match evs.last() {
            RelayEvent::Data(e, n) => if e == d {
                n as int
            } else {
                0
            },
            _ => 0,
        }
    }
}

/// Over any admissible sequence of events, each direction has forwarded
/// exactly the bytes read from its source, whatever happened on the other
/// direction in between.
pub proof fn lemma_run_forwards_all_bytes(evs: Seq<RelayEvent>)
    requires
        run_ok(fresh_relay(), evs),
    ensures
        run(fresh_relay(), evs).a_to_b
            == bytes_read(evs, Direction::AToB),
        run(fresh_relay(), evs).b_to_a
            == bytes_read(evs, Direction::BToA),
        run(fresh_relay(), evs).wf(),
    decreases evs.len(),
{
    if evs.len() > 0 {
        lemma_run_forwards_all_bytes(evs.drop_last());
    }
}

} // verus!
