use vstd::prelude::*;
use crate::bus::EventBus;
use crate::bus::has_sub;
use crate::replay::MAX_REPLAY_COUNT;
use crate::wire::parse_control_spec;
use crate::wire::parse_control_message;

verus! {

/// One thing arriving on a session's inbound direction.
pub enum InboundEvent {
    /// A text frame, to be read as a control message.
    Text(String),
    /// A binary frame of so many bytes; it carries no control meaning.
    Binary(usize),
    /// The peer closed the connection.
    Close,
    Ping,
    Pong,
    /// The read failed; the session cannot go on.
    ReadError,
}

/// What the session does next with one inbound event.
#[derive(Clone, Copy, PartialEq, Eq, Structural, Debug)]
pub enum SessionAction {
    /// Serve a catch-up request for this many recent events.
    Replay(u64),
    /// Nothing: the event carries no request.
    Ignore,
    /// Tear the session down: detach from the bus and stop both directions.
    Terminate,
}

/// Decides the inbound direction's next step for one wire event. A text
/// frame asking for recent items starts a replay with its clamped count; any
/// other text — malformed ones included — and any binary frame, ping or pong
/// is ignored, the session staying open; a close frame or a read failure
/// terminates the session.
pub fn handle_inbound(ev: &InboundEvent) -> (a: SessionAction)
    ensures
        match ev {
            InboundEvent::Text(s) => if parse_control_spec(s@) is Some {
                a == SessionAction::Replay(
                    vstd::math::min(parse_control_spec(s@)->0, MAX_REPLAY_COUNT as int) as u64,
                )
            } else {
                a == SessionAction::Ignore
            },
            InboundEvent::Binary(_) => a == SessionAction::Ignore,
            InboundEvent::Ping => a == SessionAction::Ignore,
            InboundEvent::Pong => a == SessionAction::Ignore,
            InboundEvent::Close => a == SessionAction::Terminate,
            InboundEvent::ReadError => a == SessionAction::Terminate,
        },
{
    match ev {
        InboundEvent::Text(s) => match parse_control_message(s.as_str()) {
            Some(count) => SessionAction::Replay(count),
            None => SessionAction::Ignore,
        },
        InboundEvent::Binary(_) => SessionAction::Ignore,
        InboundEvent::Ping => SessionAction::Ignore,
        InboundEvent::Pong => SessionAction::Ignore,
        InboundEvent::Close => SessionAction::Terminate,
        InboundEvent::ReadError => SessionAction::Terminate,
    }
}

/// One connection's registration with the bus. It is detached exactly once,
/// on teardown; a second teardown finds nothing attached and is a no-op.
pub struct Session {
    pub handle: u64,
    pub attached: bool,
}

impl Session {
    /// Opens a session: registers a fresh queue with the bus.
    pub fn open(bus: &mut EventBus) -> (r: Session)
        requires
            old(bus).wf(),
            old(bus).spec_next_handle() < u64::MAX,
        ensures
            final(bus).wf(),
            r.attached,
            r.handle == old(bus).spec_next_handle(),
            !has_sub(old(bus)@, r.handle),
            final(bus)@ == old(bus)@.push((r.handle, Seq::<crate::feed::FeedItem>::empty())),
            final(bus).spec_capacity() == old(bus).spec_capacity(),
            final(bus).spec_next_handle() == r.handle + 1,
    {
        let h = bus.attach();
        Session { handle: h, attached: true }
    }

    /// Tears the session down: detaches its queue from the bus. Only the
    /// first teardown touches the bus; afterwards the session is marked
    /// detached and a repeated teardown changes nothing.
    pub fn teardown(&mut self, bus: &mut EventBus)
        requires
            old(bus).wf(),
        ensures
            final(bus).wf(),
            !final(self).attached,
            final(self).handle == old(self).handle,
            !old(self).attached ==> *final(bus) == *old(bus),
            old(self).attached ==> {
                &&& !has_sub(final(bus)@, old(self).handle)
                &&& (!has_sub(old(bus)@, old(self).handle) ==> final(bus)@ == old(bus)@)
                &&& (has_sub(old(bus)@, old(self).handle) ==> exists|i: int|
                    0 <= i < old(bus)@.len() && (#[trigger] old(bus)@[i]).0 == old(self).handle
                        && final(bus)@ == old(bus)@.remove(i))
            },
            final(bus).spec_capacity() == old(bus).spec_capacity(),
            final(bus).spec_next_handle() == old(bus).spec_next_handle(),
    {
        if self.attached {
            bus.detach(self.handle);
            self.attached = false;
        }
    }
}

} // verus!
