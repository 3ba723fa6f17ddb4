use pimostat::poller::{Action, Event, Link, Poller};

fn reading(above_target: bool, below_band: bool) -> Event {
    Event::Reading { above_target, below_band }
}

#[test]
fn poller_waits_for_actor_then_toggles() {
    let mut p = Poller::new();
    assert_eq!(p.start(), Action::PollSensor);
    // A cold reading with no actor: heating on, wait for an actor.
    assert_eq!(p.step(reading(false, true)), Action::PollIncoming);
    assert!(p.on);
    assert_eq!(p.step(Event::Connected), Action::PollSensor);
    assert_eq!(p.link, Link::Idle);
    // No new reading in this round: nothing is sent.
    assert_eq!(p.step(Event::SensorPending), Action::Wait);
    assert_eq!(p.start(), Action::PollSensor);
    // A hot reading: send "off".
    assert_eq!(p.step(reading(true, false)), Action::SendToggle(false));
    assert_eq!(p.link, Link::Awaiting);
    assert_eq!(p.step(Event::SensorPending), Action::PollReply);
    assert_eq!(p.step(Event::ReplyPending), Action::Wait);
    assert_eq!(p.start(), Action::PollSensor);
    assert_eq!(p.step(Event::SensorPending), Action::PollReply);
    assert_eq!(p.step(Event::ReplyReceived), Action::PollSensor);
    assert_eq!(p.link, Link::Idle);
}

#[test]
fn poller_disconnect_drops_actor() {
    let mut p = Poller::new();
    p.start();
    p.step(reading(false, true));
    p.step(Event::Connected);
    assert_eq!(p.step(reading(false, false)), Action::SendToggle(true));
    assert_eq!(p.step(Event::SensorPending), Action::PollReply);
    assert_eq!(p.step(Event::Disconnected), Action::PollSensor);
    assert_eq!(p.link, Link::Absent);
    assert!(p.on);
    assert_eq!(p.step(Event::SensorPending), Action::PollIncoming);
}

#[test]
fn poller_ends_and_fails() {
    let mut p = Poller::new();
    p.start();
    assert_eq!(p.step(Event::SensorEnded), Action::Finish);
    p.start();
    assert_eq!(p.step(Event::SensorFailed), Action::Fail);
    p.start();
    assert_eq!(p.step(Event::SensorPending), Action::PollIncoming);
    assert_eq!(p.step(Event::IncomingEnded), Action::Finish);
    p.start();
    p.step(Event::SensorPending);
    assert_eq!(p.step(Event::IncomingFailed), Action::Fail);
    p.start();
    p.step(Event::SensorPending);
    assert_eq!(p.step(Event::IncomingPending), Action::Wait);
    p.start();
    p.step(Event::SensorPending);
    p.step(Event::Connected);
    p.step(reading(true, false));
    p.step(Event::SensorPending);
    assert_eq!(p.step(Event::CallFailed), Action::Fail);
}
