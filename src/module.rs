//! The capability every module of the hub offers, and the messages that
//! modules ask the transport to send.
use vstd::prelude::*;

use crate::state::State;
use crate::text::{last_segment, last_segment_of};

verus! {

/// Delivery guarantee asked of the transport.
#[derive(Clone, Copy, Debug, PartialEq, Eq, Structural)]
pub enum QoS {
    AtMostOnce,
    AtLeastOnce,
    ExactlyOnce,
}

/// A message to publish.
#[derive(Clone, Debug)]
pub struct Publish {
    pub topic: String,
    pub payload: String,
    pub retain: bool,
    pub qos: QoS,
}

/// A publish as plain text.
pub struct PublishView {
    pub topic: Seq<char>,
    pub payload: Seq<char>,
    pub retain: bool,
    pub qos: QoS,
}

impl View for Publish {
    type V = PublishView;

    open spec fn view(&self) -> PublishView {
        PublishView { topic: self.topic@, payload: self.payload@, retain: self.retain, qos: self.qos }
    }
}

/// A subscription to request.
#[derive(Clone, Debug)]
pub struct Subscribe {
    pub topic: String,
    pub qos: QoS,
}

/// A subscription as plain text.
pub struct SubscribeView {
    pub topic: Seq<char>,
    pub qos: QoS,
}

impl View for Subscribe {
    type V = SubscribeView;

    open spec fn view(&self) -> SubscribeView {
        SubscribeView { topic: self.topic@, qos: self.qos }
    }
}

/// What a module asks for after handling a message.
#[derive(Clone, Debug)]
pub enum Reaction {
    /// Nothing to send.
    Idle,
    /// Publish `message`; if the transport accepts it, the shared state
    /// becomes `on_accepted`, and otherwise it stays as it is.
    Send { message: Publish, on_accepted: State },
}

/// A reaction as plain values.
pub enum ReactionView {
    Idle,
    Send { message: PublishView, on_accepted: State },
}

impl View for Reaction {
    type V = ReactionView;

    open spec fn view(&self) -> ReactionView {
        match self {
            Reaction::Idle => ReactionView::Idle,
            Reaction::Send { message, on_accepted } => ReactionView::Send {
                message: message@,
                on_accepted: *on_accepted,
            },
        }
    }
}

/// The shared state after a reaction, given whether the transport accepted
/// its publish.
pub open spec fn settled(state: State, reaction: ReactionView, accepted: bool) -> State {
    match reaction {
        ReactionView::Send { on_accepted, .. } => if accepted {
            on_accepted
        } else {
            state
        },
        ReactionView::Idle => state,
    }
}

/// Applies the outcome of a reaction's publish to the shared state.
pub fn settle(state: &mut State, reaction: &Reaction, accepted: bool)
    ensures
        *final(state) == settled(*old(state), reaction@, accepted),
{
    match reaction {
        Reaction::Send { on_accepted, .. } => {
            if accepted {
                *state = *on_accepted;
            }
        },
        Reaction::Idle => {},
    }
}

/// Text pairs as plain sequences.
pub open spec fn pairs_view(v: Seq<(String, String)>) -> Seq<(Seq<char>, Seq<char>)> {
    v.map_values(|p: (String, String)| (p.0@, p.1@))
}

/// A unit of the hub: it owns a topic prefix, exposes its settings as text
/// pairs, and handles the messages published under its topic.
pub trait ClientModule: Sized {
    /// The topic prefix, such as `home/sensor`.
    spec fn spec_topic(&self) -> Seq<char>;

    /// The settings, field name and textual value, one pair per field.
    spec fn spec_settings(&self) -> Seq<(Seq<char>, Seq<char>)>;

    /// The shared state right after handling `(topic, payload)` in `state`,
    /// and what the module then asks for.
    spec fn spec_handle(&self, topic: Seq<char>, payload: Seq<char>, state: State) -> (State, ReactionView);

    /// The topic prefix.
    fn topic(&self) -> (r: String)
        ensures
            r@ == self.spec_topic(),
    ;

    /// The name of the module: the last segment of its topic.
    fn name(&self) -> (r: String)
        ensures
            r@ == last_segment(self.spec_topic()),
    {
        let t = self.topic();
        last_segment_of(t.as_str())
    }

    /// The settings, one text pair per field.
    fn settings(&self) -> (r: Vec<(String, String)>)
        ensures
            pairs_view(r@) == self.spec_settings(),
    ;

    /// Handles a message published on `topic`.
    fn handle(&self, topic: &str, payload: &str, state: &mut State) -> (r: Reaction)
        ensures
            (*final(state), r@) == self.spec_handle(topic@, payload@, *old(state)),
    ;
}

} // verus!
