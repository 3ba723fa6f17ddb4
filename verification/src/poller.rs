//! The decisions of a controller written as a hand-rolled future: each time
//! it is polled it polls the sensor's stream of readings, then either waits
//! for an actor to connect, sends the connected actor a toggle request when a
//! new reading came in, or polls the request that is in flight. A driver
//! performs each `Action` and hands back what came of it as an `Event`.

use vstd::prelude::*;

use crate::controller::{next_on, update};

verus! {

/// The connection to an actor.
#[derive(Debug, Clone, Copy, PartialEq, Eq, Structural)]
pub enum Link {
    /// No actor is connected; new connections are awaited.
    Absent,
    /// An actor is connected and no request to it is in flight.
    Idle,
    /// A toggle request to the connected actor is in flight.
    Awaiting,
}

/// What came of the work that the last `Action` asked for.
#[derive(Debug, Clone, Copy, PartialEq, Eq, Structural)]
pub enum Event {
    /// The sensor has no new reading yet.
    SensorPending,
    /// The sensor's stream ended.
    SensorEnded,
    /// The sensor's stream failed.
    SensorFailed,
    /// A new reading: whether it is above the target, and whether it is
    /// below the target minus the hysteresis.
    Reading { above_target: bool, below_band: bool },
    /// No actor has connected yet.
    IncomingPending,
    /// The stream of incoming actors ended.
    IncomingEnded,
    /// Accepting an actor failed.
    IncomingFailed,
    /// An actor connected.
    Connected,
    /// The request in flight has no reply yet.
    ReplyPending,
    /// The request in flight was answered.
    ReplyReceived,
    /// The request in flight failed because the actor disconnected.
    Disconnected,
    /// The request in flight failed for another reason.
    CallFailed,
}

/// What the driver must do next.
#[derive(Debug, Clone, Copy, PartialEq, Eq, Structural)]
pub enum Action {
    /// Poll the sensor's stream.
    PollSensor,
    /// Poll the stream of incoming actors.
    PollIncoming,
    /// Send the connected actor a toggle request with this state, keep it as
    /// the request in flight, then poll the sensor's stream.
    SendToggle(bool),
    /// Poll the request in flight.
    PollReply,
    /// Return "not ready": the future waits to be polled again.
    Wait,
    /// Return "ready": the controller is done.
    Finish,
    /// Return the error that the last poll gave.
    Fail,
}

/// The controller's state between two steps.
#[derive(Debug, Clone, Copy, PartialEq, Eq, Structural)]
pub struct Poller {
    /// Whether the heating is on.
    pub on: bool,
    /// The connection to an actor.
    pub link: Link,
    /// Whether the next event answers a poll of the sensor (otherwise it
    /// answers a poll of the incoming actors or of the request in flight).
    pub at_sensor: bool,
}

impl Poller {
    /// A poll of the connection is only ever made while it is absent or awaiting a reply.
    pub open spec fn wf(self) -> bool {
        !self.at_sensor ==> self.link != Link::Idle
    }

    /// The events that can answer the poll that the state stands for.
    pub open spec fn expects(self, e: Event) -> bool {
        if self.at_sensor {
            e is SensorPending || e is SensorEnded || e is SensorFailed || e is Reading
        } else if self.link == Link::Absent {
            e is IncomingPending || e is IncomingEnded || e is IncomingFailed || e is Connected
        } else {
            e is ReplyPending || e is ReplyReceived || e is Disconnected || e is CallFailed
        }
    }

    /// The state and action once the sensor gave a reading (`fresh`) or none,
    /// with the heating state `on`.
    pub open spec fn after_sensor(self, on: bool, fresh: bool) -> (Poller, Action) {
        match self.link {
            Link::Absent => (Poller { on, link: Link::Absent, at_sensor: false }, Action::PollIncoming),
            Link::Idle => if fresh {
                (Poller { on, link: Link::Awaiting, at_sensor: true }, Action::SendToggle(on))
            } else {
                (Poller { on, link: Link::Idle, at_sensor: true }, Action::Wait)
            },
            Link::Awaiting => (
                Poller { on, link: Link::Awaiting, at_sensor: false },
                Action::PollReply,
            ),
        }
    }

    /// One step: the state after event `e`, and what to do next.
    pub open spec fn step_spec(self, e: Event) -> (Poller, Action) {
        let back = Poller { on: self.on, link: self.link, at_sensor: true };
        match e {
            Event::SensorPending => self.after_sensor(self.on, false),
            Event::SensorEnded => (back, Action::Finish),
            Event::SensorFailed => (back, Action::Fail),
            Event::Reading { above_target, below_band } => self.after_sensor(
                next_on(self.on, above_target, below_band),
                true,
            ),
            Event::IncomingPending => (back, Action::Wait),
            Event::IncomingEnded => (back, Action::Finish),
            Event::IncomingFailed => (back, Action::Fail),
            Event::Connected => (
                Poller { on: self.on, link: Link::Idle, at_sensor: true },
                Action::PollSensor,
            ),
            Event::ReplyPending => (back, Action::Wait),
            Event::ReplyReceived => (
                Poller { on: self.on, link: Link::Idle, at_sensor: true },
                Action::PollSensor,
            ),
            Event::Disconnected => (
                Poller { on: self.on, link: Link::Absent, at_sensor: true },
                Action::PollSensor,
            ),
            Event::CallFailed => (back, Action::Fail),
        }
    }

    /// The state before the first poll: heating off, no actor connected.
    pub fn new() -> (p: Poller)
        ensures
            p.wf(),
            p == (Poller { on: false, link: Link::Absent, at_sensor: true }),
    {
        Poller { on: false, link: Link::Absent, at_sensor: true }
    }

    /// What to do when the future is polled: always start with the sensor.
    pub fn start(&mut self) -> (a: Action)
        requires
            old(self).wf(),
        ensures
            final(self).wf(),
            *final(self) == (Poller { on: old(self).on, link: old(self).link, at_sensor: true }),
            a == Action::PollSensor,
    {
        self.at_sensor = true;
        Action::PollSensor
    }

    fn after_sensor_exec(&mut self, fresh: bool) -> (a: Action)
        requires
            old(self).at_sensor,
        ensures
            (*final(self), a) == old(self).after_sensor(old(self).on, fresh),
    {
        match self.link {
            Link::Absent => {
                self.at_sensor = false;
                Action::PollIncoming
            },
            Link::Idle => if fresh {
                self.link = Link::Awaiting;
                Action::SendToggle(self.on)
            } else {
                Action::Wait
            },
            Link::Awaiting => {
                self.at_sensor = false;
                Action::PollReply
            },
        }
    }

    /// Takes in what came of the last action and decides the next one.
    pub fn step(&mut self, e: Event) -> (a: Action)
        requires
            old(self).wf(),
            old(self).expects(e),
        ensures
            final(self).wf(),
            (*final(self), a) == old(self).step_spec(e),
            final(self).link == link_after(old(self).link, e),
            a == Action::Finish <==> (e is SensorEnded || e is IncomingEnded),
            a == Action::Fail <==> (e is SensorFailed || e is IncomingFailed || e is CallFailed),
            final(self).on == match e {
                Event::Reading { above_target, below_band } => next_on(
                    old(self).on,
                    above_target,
                    below_band,
                ),
                _ => old(self).on,
            },
            e is Reading ==> a == match old(self).link {
                Link::Absent => Action::PollIncoming,
                Link::Idle => Action::SendToggle(final(self).on),
                Link::Awaiting => Action::PollReply,
            },
    {
        proof {
            lemma_link_changes(*old(self), e);
            lemma_ends_and_failures(*old(self), e);
            lemma_heating_follows_readings(*old(self), e);
            if e is Reading {
                lemma_reading_continues(*old(self), e);
            }
        }
        match e {
            Event::SensorPending => self.after_sensor_exec(false),
            Event::Reading { above_target, below_band } => {
                let mut on = self.on;
                update(&mut on, above_target, below_band);
                self.on = on;
                self.after_sensor_exec(true)
            },
            Event::SensorEnded | Event::IncomingEnded => {
                self.at_sensor = true;
                Action::Finish
            },
            Event::SensorFailed | Event::IncomingFailed | Event::CallFailed => {
                self.at_sensor = true;
                Action::Fail
            },
            Event::IncomingPending | Event::ReplyPending => {
                self.at_sensor = true;
                Action::Wait
            },
            Event::Connected | Event::ReplyReceived => {
                self.link = Link::Idle;
                self.at_sensor = true;
                Action::PollSensor
            },
            Event::Disconnected => {
                self.link = Link::Absent;
                self.at_sensor = true;
                Action::PollSensor
            },
        }
    }
}

/// The connection to an actor after an event: it becomes idle when an actor
/// connects or answers, awaiting when a reading is forwarded to an idle actor,
/// absent when the actor disconnects, and stays as it was on every other event.
pub open spec fn link_after(link: Link, e: Event) -> Link {
    match e {
        Event::Connected => Link::Idle,
        Event::ReplyReceived => Link::Idle,
        Event::Disconnected => Link::Absent,
        Event::Reading { .. } => if link == Link::Idle {
            Link::Awaiting
        } else {
            link
        },
        _ => link,
    }
}

/// The connection changes only on `Connected` (to idle), on a reading while
/// idle (to awaiting, with a toggle request), on `ReplyReceived` (to idle) and
/// on `Disconnected` (to absent). In particular, while no actor is connected,
/// every event but `Connected` leaves it absent, and the next poll (which
/// starts with the sensor) that finds no new reading polls the incoming
/// actors again.
pub proof fn lemma_link_changes(p: Poller, e: Event)
    requires
        p.wf(),
        p.expects(e),
    ensures
        p.step_spec(e).0.link == link_after(p.link, e),
        p.link == Link::Absent && !(e is Connected) ==> p.step_spec(e).0.link == Link::Absent,
        p.step_spec(e).0.link != p.link ==> (e is Connected || e is ReplyReceived
            || e is Disconnected || (e is Reading && p.link == Link::Idle)),
        p.link == Link::Absent && !(e is Connected) ==> (Poller {
            on: p.step_spec(e).0.on,
            link: p.step_spec(e).0.link,
            at_sensor: true,
        }).step_spec(Event::SensorPending).1 == Action::PollIncoming,
{
}

/// The controller finishes only when the sensor's stream or the stream of
/// incoming actors ends, and fails only when one of its polls failed; it
/// waits only when nothing it polled is ready (and, with an idle actor, no
/// new reading came in); it goes back to the sensor after an actor connected,
/// answered or disconnected; and it polls the incoming actors or the request
/// in flight, whichever the connection calls for, once the sensor was polled.
pub proof fn lemma_ends_and_failures(p: Poller, e: Event)
    requires
        p.wf(),
        p.expects(e),
    ensures
        p.step_spec(e).1 == Action::Finish <==> (e is SensorEnded || e is IncomingEnded),
        p.step_spec(e).1 == Action::Fail <==> (e is SensorFailed || e is IncomingFailed
            || e is CallFailed),
        p.step_spec(e).1 == Action::Wait <==> (e is IncomingPending || e is ReplyPending || (
        e is SensorPending && p.link == Link::Idle)),
        p.step_spec(e).1 == Action::PollSensor <==> (e is Connected || e is ReplyReceived
            || e is Disconnected),
        p.step_spec(e).1 == Action::PollIncoming <==> ((e is SensorPending || e is Reading)
            && p.link == Link::Absent),
        p.step_spec(e).1 == Action::PollReply <==> ((e is SensorPending || e is Reading)
            && p.link == Link::Awaiting),
{
}

/// A reading never ends the controller: it goes on to wait for an actor when
/// none is connected, forwards the new state to an idle actor, and polls the
/// request in flight otherwise.
pub proof fn lemma_reading_continues(p: Poller, e: Event)
    requires
        p.wf(),
        p.expects(e),
        e is Reading,
    ensures
        p.step_spec(e).1 == match p.link {
            Link::Absent => Action::PollIncoming,
            Link::Idle => Action::SendToggle(p.step_spec(e).0.on),
            Link::Awaiting => Action::PollReply,
        },
{
}

/// A toggle request is only sent right after a new reading, to an actor that
/// is connected with no request in flight, and it carries the heating state
/// that the reading led to; the request is then in flight.
pub proof fn lemma_toggle_only_after_reading(p: Poller, e: Event, b: bool)
    requires
        p.wf(),
        p.expects(e),
        p.step_spec(e).1 == Action::SendToggle(b),
    ensures
        e is Reading,
        p.link == Link::Idle,
        b == next_on(p.on, e->above_target, e->below_band),
        b == p.step_spec(e).0.on,
        p.step_spec(e).0.link == Link::Awaiting,
{
}

/// The heating state changes only with a reading, and then as the
/// controller's rule says.
pub proof fn lemma_heating_follows_readings(p: Poller, e: Event)
    ensures
        p.step_spec(e).0.on == match e {
            Event::Reading { above_target, below_band } => next_on(p.on, above_target, below_band),
            _ => p.on,
        },
{
}

/// Every step keeps the state well formed, and the next event it asks for
/// answers the action it returns.
pub proof fn lemma_step_keeps_wf(p: Poller, e: Event)
    requires
        p.wf(),
        p.expects(e),
    ensures
        p.step_spec(e).0.wf(),
        p.step_spec(e).1 is PollIncoming ==> !p.step_spec(e).0.at_sensor
            && p.step_spec(e).0.link == Link::Absent,
        p.step_spec(e).1 is PollReply ==> !p.step_spec(e).0.at_sensor
            && p.step_spec(e).0.link == Link::Awaiting,
        p.step_spec(e).1 is PollSensor || p.step_spec(e).1 is SendToggle
            ==> p.step_spec(e).0.at_sensor,
{
}

/// An actor that disconnects is dropped, the heating state is kept, and the
/// controller goes back to the sensor and then to waiting for a new actor.
pub proof fn lemma_disconnect_drops_actor(p: Poller)
    requires
        p.wf(),
        p.expects(Event::Disconnected),
    ensures
        p.step_spec(Event::Disconnected) == (
            Poller { on: p.on, link: Link::Absent, at_sensor: true },
            Action::PollSensor,
        ),
{
}

} // verus!
