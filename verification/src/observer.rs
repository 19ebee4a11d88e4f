//! A bounded event observer: buffers the most recent events and tracks the
//! overlay state they imply, for the execution layer to inspect.

use vstd::prelude::*;

verus! {

/// Default number of events to retain in the observer buffer.
pub const DEFAULT_BUFFER_CAPACITY: usize = 512;

/// A completed task's closing message, when it produced one.
#[derive(Debug)]
pub struct TaskCompleteEvent {
    pub last_agent_message: Option<String>,
}

/// A free-form background notice.
#[derive(Debug)]
pub struct BackgroundEventEvent {
    pub message: String,
}

/// The event payloads the observer distinguishes.
#[derive(Debug)]
pub enum EventMsg {
    TaskComplete(TaskCompleteEvent),
    BackgroundEvent(BackgroundEventEvent),
}

/// One event from the execution layer: an identifier and its payload.
#[derive(Debug)]
pub struct Event {
    pub id: String,
    pub msg: EventMsg,
}

fn clone_opt_string(s: &Option<String>) -> (r: Option<String>)
    ensures
        r == *s,
{
    match s {
        Some(m) => Some(m.clone()),
        None => None,
    }
}

impl Clone for EventMsg {
    fn clone(&self) -> (r: Self)
        ensures
            r == *self,
    {
        match self {
            EventMsg::TaskComplete(tc) => EventMsg::TaskComplete(
                TaskCompleteEvent { last_agent_message: clone_opt_string(&tc.last_agent_message) },
            ),
            EventMsg::BackgroundEvent(be) => EventMsg::BackgroundEvent(
                BackgroundEventEvent { message: be.message.clone() },
            ),
        }
    }
}

/// Additional state the overlay attaches to the executor: the last closing
/// message a completed task reported.
#[derive(Debug)]
pub struct ExecOverlayState {
    pub last_agent_message: Option<String>,
}

impl Clone for ExecOverlayState {
    fn clone(&self) -> (r: Self)
        ensures
            r == *self,
    {
        ExecOverlayState { last_agent_message: clone_opt_string(&self.last_agent_message) }
    }
}

impl Default for ExecOverlayState {
    fn default() -> (r: Self)
        ensures
            r.last_agent_message is None,
    {
        ExecOverlayState { last_agent_message: None }
    }
}

/// The overlay state after seeing one event payload: a task completion
/// replaces the last message; anything else leaves it.
pub open spec fn state_after(pre: ExecOverlayState, msg: EventMsg) -> ExecOverlayState {
    match msg {
        EventMsg::TaskComplete(tc) => ExecOverlayState {
            last_agent_message: tc.last_agent_message,
        },
        _ => pre,
    }
}

impl ExecOverlayState {
    /// Forgets the last message.
    pub fn clear(&mut self)
        ensures
            final(self).last_agent_message is None,
    {
        self.last_agent_message = None;
    }

    fn update_from_msg(&mut self, msg: &EventMsg)
        ensures
            *final(self) == state_after(*old(self), *msg),
    {
        match msg {
            EventMsg::TaskComplete(tc) => {
                self.last_agent_message = clone_opt_string(&tc.last_agent_message);
            },
            _ => {},
        }
    }
}

/// A clonable buffered form of one event.
#[derive(Debug)]
pub struct BufferedEvent {
    pub id: String,
    pub msg: EventMsg,
}

impl Clone for BufferedEvent {
    fn clone(&self) -> (r: Self)
        ensures
            r == *self,
    {
        BufferedEvent { id: self.id.clone(), msg: self.msg.clone() }
    }
}

impl BufferedEvent {
    /// Wraps an identifier and payload.
    pub fn new(id: String, msg: EventMsg) -> (r: Self)
        ensures
            r.id == id,
            r.msg == msg,
    {
        BufferedEvent { id, msg }
    }

    /// A buffered copy of the given event.
    pub fn from_event(event: &Event) -> (r: Self)
        ensures
            r.id == event.id,
            r.msg == event.msg,
    {
        BufferedEvent { id: event.id.clone(), msg: event.msg.clone() }
    }
}

/// Retains the most recent events, up to a fixed capacity, together with
/// the overlay state they imply.
#[derive(Debug)]
pub struct EventObserver {
    pub capacity: usize,
    pub events: Vec<BufferedEvent>,
    pub state: ExecOverlayState,
}

impl EventObserver {
    /// The buffer never outgrows its (positive) capacity.
    pub open spec fn wf(self) -> bool {
        1 <= self.capacity && self.events@.len() <= self.capacity
    }

    /// An empty observer retaining up to `capacity` events (at least one).
    pub fn with_capacity(capacity: usize) -> (r: Self)
        ensures
            r.wf(),
            r.capacity == (if capacity < 1 {
                1
            } else {
                capacity
            }),
            r.events@.len() == 0,
            r.state.last_agent_message is None,
    {
        let capacity = if capacity < 1 {
            1
        } else {
            capacity
        };
        EventObserver { capacity, events: Vec::new(), state: ExecOverlayState::default() }
    }

    /// Records one event (see `record_buffered`).
    pub fn record(&mut self, event: &Event)
        requires
            old(self).wf(),
        ensures
            final(self).wf(),
            final(self).capacity == old(self).capacity,
            final(self).state == state_after(old(self).state, event.msg),
            final(self).events@ == (if old(self).events@.len() == old(self).capacity {
                old(self).events@.drop_first()
            } else {
                old(self).events@
            }).push((BufferedEvent { id: event.id, msg: event.msg })),
    {
        self.record_buffered(BufferedEvent::from_event(event));
    }

    /// Records one event: the overlay state absorbs its payload, and the
    /// event joins the buffer, evicting the oldest one when full.
    pub fn record_buffered(&mut self, event: BufferedEvent)
        requires
            old(self).wf(),
        ensures
            final(self).wf(),
            final(self).capacity == old(self).capacity,
            final(self).state == state_after(old(self).state, event.msg),
            final(self).events@ == (if old(self).events@.len() == old(self).capacity {
                old(self).events@.drop_first()
            } else {
                old(self).events@
            }).push(event),
    {
        self.state.update_from_msg(&event.msg);
        if self.events.len() == self.capacity {
            self.events.remove(0);
            proof {
                assert(self.events@ =~= old(self).events@.drop_first());
            }
        }
        self.events.push(event);
    }

    /// A copy of the buffered events, oldest first.
    pub fn snapshot(&self) -> (r: Vec<BufferedEvent>)
        ensures
            r@ == self.events@,
    {
        let mut r: Vec<BufferedEvent> = Vec::new();
        let mut i: usize = 0;
        while i < self.events.len()
            invariant
                i <= self.events@.len(),
                r@ == self.events@.subrange(0, i as int),
            decreases self.events@.len() - i,
        {
            r.push(self.events[i].clone());
            proof {
                assert(r@ =~= self.events@.subrange(0, i + 1));
            }
            i += 1;
        }
        proof {
            assert(r@ =~= self.events@);
        }
        r
    }

    /// A copy of the current overlay state.
    pub fn state(&self) -> (r: ExecOverlayState)
        ensures
            r == self.state,
    {
        self.state.clone()
    }

    /// How many events are buffered.
    pub fn len(&self) -> (r: usize)
        ensures
            r == self.events@.len(),
    {
        self.events.len()
    }

    /// How many events the buffer retains at most.
    pub fn capacity(&self) -> (r: usize)
        ensures
            r == self.capacity,
    {
        self.capacity
    }

    /// Drops all buffered events and forgets the overlay state.
    pub fn clear(&mut self)
        ensures
            final(self).capacity == old(self).capacity,
            final(self).events@.len() == 0,
            final(self).state.last_agent_message is None,
    {
        self.events.clear();
        self.state.clear();
    }
}

impl Default for EventObserver {
    fn default() -> (r: Self)
        ensures
            r.wf(),
            r.capacity == DEFAULT_BUFFER_CAPACITY,
            r.events@.len() == 0,
            r.state.last_agent_message is None,
    {
        EventObserver::with_capacity(DEFAULT_BUFFER_CAPACITY)
    }
}

} // verus!
