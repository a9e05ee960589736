//! The interaction router: from an event to the outside work it calls for.
//!
//! The router holds only configuration fixed at startup. Handling an event is
//! a short conversation: `dispatch` names the first piece of outside work, the
//! caller performs it and reports how it ended, and `resume` names the next
//! piece, until none is left. Events are handled independently of each other.

use vstd::prelude::*;
use crate::address::{is_address_text, parse_text};
use crate::error::{ConfigError, RegistrationError};
use crate::event::{
    AckKind, Action, ActionView, CommandDescriptor, ConfirmationControl, ControlView,
    DescriptorView, EventView, Fault, InteractionEvent, Outcome, Pending,
};
use crate::packet::{build, packet_bytes, MagicPacket};

verus! {

/// The router's configuration.
#[derive(Debug, Clone)]
pub struct Router {
    descriptor: CommandDescriptor,
    control: ConfirmationControl,
    channel: u64,
    packet: MagicPacket,
}

/// The mathematical content of a [`Router`].
pub struct RouterView {
    /// The command that is declared and listened for.
    pub descriptor: DescriptorView,
    /// The control that is posted; its token is the launch token.
    pub control: ControlView,
    /// The channel into which the control is posted.
    pub channel: u64,
    /// The wake payload.
    pub payload: Seq<u8>,
}

impl View for Router {
    type V = RouterView;

    closed spec fn view(&self) -> RouterView {
        RouterView {
            descriptor: self.descriptor@,
            control: self.control@,
            channel: self.channel,
            payload: self.packet@,
        }
    }
}

/// A piece of outside work, and what the handling waits for while it runs.
#[derive(Debug, Clone, PartialEq, Eq)]
pub struct Step {
    pub pending: Pending,
    pub action: Action,
}

/// The mathematical content of a [`Step`].
pub struct StepView {
    pub pending: Pending,
    pub action: ActionView,
}

impl View for Step {
    type V = StepView;

    open spec fn view(&self) -> StepView {
        StepView { pending: self.pending, action: self.action@ }
    }
}

/// What the router decides when an event arrives.
#[derive(Debug, Clone, PartialEq, Eq)]
pub enum Dispatch {
    /// The event is not for the bridge; nothing is done.
    Ignored,
    /// The bridge does not serve this kind of event; nothing is done.
    Unsupported,
    /// Handling begins with this step.
    Started(Step),
}

/// The mathematical content of a [`Dispatch`].
pub enum DispatchView {
    Ignored,
    Unsupported,
    Started(StepView),
}

impl View for Dispatch {
    type V = DispatchView;

    open spec fn view(&self) -> DispatchView {
        match *self {
            Dispatch::Ignored => DispatchView::Ignored,
            Dispatch::Unsupported => DispatchView::Unsupported,
            Dispatch::Started(step) => DispatchView::Started(step@),
        }
    }
}

/// What the router decides when a piece of outside work has ended.
#[derive(Debug, Clone, PartialEq, Eq)]
pub struct Resumption {
    /// The next step, or `None` when the event is finished.
    pub next: Option<Step>,
    /// The failure to report, if the work failed.
    pub fault: Option<Fault>,
}

/// The mathematical content of a [`Resumption`].
pub struct ResumptionView {
    pub next: Option<StepView>,
    pub fault: Option<Fault>,
}

impl View for Resumption {
    type V = ResumptionView;

    open spec fn view(&self) -> ResumptionView {
        ResumptionView {
            next: match self.next {
                Some(step) => Some(step@),
                None => None,
            },
            fault: self.fault,
        }
    }
}

/// The step that posts the confirmation control.
pub open spec fn post_step(r: RouterView) -> StepView {
    StepView {
        pending: Pending::Post,
        action: ActionView::PostControl { channel: r.channel, control: r.control },
    }
}

/// The step that sends the wake payload for the event `event_id`.
pub open spec fn broadcast_step(r: RouterView, event_id: u64) -> StepView {
    StepView {
        pending: Pending::Broadcast { event_id },
        action: ActionView::Broadcast { payload: r.payload },
    }
}

/// The step that acknowledges the event `event_id`.
pub open spec fn acknowledge_step(event_id: u64) -> StepView {
    StepView {
        pending: Pending::Acknowledgment,
        action: ActionView::Acknowledge { event_id, kind: AckKind::DeferredUpdate },
    }
}

/// The router's decision on an arriving event.
pub open spec fn dispatch_spec(r: RouterView, e: EventView) -> DispatchView {
    match e {
        EventView::CommandInvocation { id, name } => if name == r.descriptor.name {
            DispatchView::Started(post_step(r))
        } else {
            DispatchView::Ignored
        },
        EventView::ControlActivation { id, token } => if token == r.control.token {
            DispatchView::Started(broadcast_step(r, id))
        } else {
            DispatchView::Ignored
        },
        EventView::ConnectivityProbe { id } => DispatchView::Unsupported,
    }
}

/// The failure that a piece of work reports when it ends as `outcome`.
pub open spec fn fault_of(pending: Pending, outcome: Outcome) -> Option<Fault> {
    match outcome {
        Outcome::Done => None,
        Outcome::Failed => match pending {
            Pending::Broadcast { .. } => Some(Fault::Network),
            _ => Some(Fault::InteractionApi),
        },
    }
}

/// The router's decision when the work it waited for has ended. The
/// acknowledgment follows the broadcast however the broadcast ended; a post
/// or an acknowledgment ends the event.
pub open spec fn resume_spec(pending: Pending, outcome: Outcome) -> ResumptionView {
    ResumptionView {
        next: match pending {
            Pending::Broadcast { event_id } => Some(acknowledge_step(event_id)),
            _ => None,
        },
        fault: fault_of(pending, outcome),
    }
}

/// How many further steps can follow the work that is waited for.
pub open spec fn steps_after(pending: Pending) -> nat {
    match pending {
        Pending::Broadcast { .. } => 1,
        _ => 0,
    }
}

/// The actions performed from `step` on, in order, when the k-th of them ends
/// as `outcomes[k]` (and as `Done` where `outcomes` is too short).
pub open spec fn actions_from(step: StepView, outcomes: Seq<Outcome>) -> Seq<ActionView>
    decreases steps_after(step.pending),
{
    let outcome = if outcomes.len() > 0 {
        outcomes[0]
    } else {
        Outcome::Done
    };
    match resume_spec(step.pending, outcome).next {
        Some(next) if steps_after(next.pending) < steps_after(step.pending) => seq![step.action]
            + actions_from(next, outcomes.drop_first()),
        _ => seq![step.action],
    }
}

/// The actions performed for the event `e`, in order, under `outcomes`.
pub open spec fn actions_for(r: RouterView, e: EventView, outcomes: Seq<Outcome>) -> Seq<
    ActionView,
> {
    match dispatch_spec(r, e) {
        DispatchView::Started(step) => actions_from(step, outcomes),
        _ => Seq::empty(),
    }
}

impl Router {
    /// A router for the given command, control, channel and payload.
    pub fn new(
        descriptor: CommandDescriptor,
        control: ConfirmationControl,
        channel: u64,
        packet: MagicPacket,
    ) -> (router: Router)
        ensures
            router@ == (RouterView {
                descriptor: descriptor@,
                control: control@,
                channel,
                payload: packet@,
            }),
    {
        Router { descriptor, control, channel, packet }
    }

    /// A router whose payload wakes the address written in `mac_text`.
    ///
    /// Fails, before any event can arrive, exactly when the text is no address.
    pub fn configure(
        descriptor: CommandDescriptor,
        control: ConfirmationControl,
        channel: u64,
        mac_text: &str,
    ) -> (r: Result<Router, ConfigError>)
        ensures
            r is Ok <==> is_address_text(mac_text@),
            match r {
                Ok(router) => parse_text(mac_text@) is Ok && router@ == (RouterView {
                    descriptor: descriptor@,
                    control: control@,
                    channel,
                    payload: packet_bytes(parse_text(mac_text@)->Ok_0),
                }),
                Err(e) => parse_text(mac_text@) == Err::<Seq<u8>, Seq<char>>(e.offending()),
            },
    {
        match build(mac_text) {
            Ok(packet) => Ok(Router::new(descriptor, control, channel, packet)),
            Err(e) => Err(e),
        }
    }

    /// The command to declare to the platform once the connection is ready.
    pub fn descriptor(&self) -> (d: &CommandDescriptor)
        ensures
            d@ == self@.descriptor,
    {
        &self.descriptor
    }

    /// Whether the bridge is ready once the declaration of its command has
    /// ended as `outcome`: a declaration that failed is fatal.
    pub fn registered(&self, outcome: Outcome) -> (r: Result<(), RegistrationError>)
        ensures
            r is Ok <==> outcome == Outcome::Done,
    {
        match outcome {
            Outcome::Done => Ok(()),
            Outcome::Failed => Err(RegistrationError),
        }
    }

    /// The wake payload.
    pub fn packet(&self) -> (p: MagicPacket)
        ensures
            p@ == self@.payload,
    {
        self.packet
    }

    /// Decides what an arriving event calls for.
    pub fn dispatch(&self, event: &InteractionEvent) -> (d: Dispatch)
        ensures
            d@ == dispatch_spec(self@, event@),
    {
        match event {
            InteractionEvent::CommandInvocation { id: _, name } => {
                if *name == self.descriptor.name {
                    Dispatch::Started(
                        Step {
                            pending: Pending::Post,
                            action: Action::PostControl {
                                channel: self.channel,
                                control: self.control.clone(),
                            },
                        },
                    )
                } else {
                    Dispatch::Ignored
                }
            },
            InteractionEvent::ControlActivation { id, token } => {
                if *token == self.control.token {
                    Dispatch::Started(
                        Step {
                            pending: Pending::Broadcast { event_id: *id },
                            action: Action::Broadcast { payload: self.packet },
                        },
                    )
                } else {
                    Dispatch::Ignored
                }
            },
            InteractionEvent::ConnectivityProbe { id: _ } => Dispatch::Unsupported,
        }
    }

    /// Decides what follows when the work that was waited for has ended.
    pub fn resume(&self, pending: Pending, outcome: Outcome) -> (r: Resumption)
        ensures
            r@ == resume_spec(pending, outcome),
    {
        let fault = match outcome {
            Outcome::Done => None,
            Outcome::Failed => match pending {
                Pending::Broadcast { event_id: _ } => Some(Fault::Network),
                _ => Some(Fault::InteractionApi),
            },
        };
        let next = match pending {
            Pending::Broadcast { event_id } => Some(
                Step {
                    pending: Pending::Acknowledgment,
                    action: Action::Acknowledge { event_id, kind: AckKind::DeferredUpdate },
                },
            ),
            _ => None,
        };
        Resumption { next, fault }
    }
}

/// A command invocation under another name than the declared one leads to no
/// action at all: no control is posted and nothing is acknowledged.
pub proof fn lemma_foreign_command_is_ignored(
    r: RouterView,
    id: u64,
    name: Seq<char>,
    outcomes: Seq<Outcome>,
)
    requires
        name != r.descriptor.name,
    ensures
        dispatch_spec(r, EventView::CommandInvocation { id, name }) == DispatchView::Ignored,
        actions_for(r, EventView::CommandInvocation { id, name }, outcomes) == Seq::<
            ActionView,
        >::empty(),
{
}

/// An invocation of the declared command posts the control into the router's
/// channel and does nothing else.
pub proof fn lemma_command_posts_control(
    r: RouterView,
    id: u64,
    outcomes: Seq<Outcome>,
)
    ensures
        actions_for(r, EventView::CommandInvocation { id, name: r.descriptor.name }, outcomes)
            == seq![ActionView::PostControl { channel: r.channel, control: r.control }],
{
}

/// An activation that carries the launch token leads to exactly one broadcast
/// of the router's payload and then exactly one acknowledgment of that event,
/// however either ends.
pub proof fn lemma_launch_broadcasts_then_acknowledges(
    r: RouterView,
    id: u64,
    outcomes: Seq<Outcome>,
)
    ensures
        actions_for(r, EventView::ControlActivation { id, token: r.control.token }, outcomes)
            == seq![
            ActionView::Broadcast { payload: r.payload },
            ActionView::Acknowledge { event_id: id, kind: AckKind::DeferredUpdate },
        ],
{
    let first = broadcast_step(r, id);
    let second = acknowledge_step(id);
    assert(actions_from(second, outcomes.drop_first()) == seq![second.action]);
    assert(actions_from(first, outcomes) == seq![first.action] + seq![second.action]);
    assert(seq![first.action] + seq![second.action] =~= seq![first.action, second.action]);
}

/// An activation that carries another token leads to no action at all:
/// nothing is broadcast and nothing is acknowledged.
pub proof fn lemma_foreign_token_is_ignored(
    r: RouterView,
    id: u64,
    token: Seq<char>,
    outcomes: Seq<Outcome>,
)
    requires
        token != r.control.token,
    ensures
        dispatch_spec(r, EventView::ControlActivation { id, token }) == DispatchView::Ignored,
        actions_for(r, EventView::ControlActivation { id, token }, outcomes) == Seq::<
            ActionView,
        >::empty(),
{
}

/// A failed broadcast is reported as a network fault of that one event, and
/// the event is still acknowledged. No failure ends anything but the work that
/// failed: the actions performed for an event are the same under every run of
/// outcomes.
pub proof fn lemma_failure_is_contained(
    r: RouterView,
    e: EventView,
    id: u64,
    outcomes: Seq<Outcome>,
)
    ensures
        resume_spec(Pending::Broadcast { event_id: id }, Outcome::Failed) == (ResumptionView {
            next: Some(acknowledge_step(id)),
            fault: Some(Fault::Network),
        }),
        actions_for(r, e, outcomes) == actions_for(r, e, Seq::<Outcome>::empty()),
{
    match dispatch_spec(r, e) {
        DispatchView::Started(step) => {
            lemma_actions_ignore_outcomes(step, outcomes);
        },
        _ => {},
    }
}

/// The actions that follow a step do not depend on how any of them ends.
pub proof fn lemma_actions_ignore_outcomes(step: StepView, outcomes: Seq<Outcome>)
    ensures
        actions_from(step, outcomes) == actions_from(step, Seq::<Outcome>::empty()),
    decreases steps_after(step.pending),
{
    match step.pending {
        Pending::Broadcast { event_id } => {
            let next = acknowledge_step(event_id);
            lemma_actions_ignore_outcomes(next, outcomes.drop_first());
            lemma_actions_ignore_outcomes(next, Seq::<Outcome>::empty().drop_first());
        },
        _ => {},
    }
}

/// A launch on a router configured from an address text broadcasts the
/// payload of exactly that address.
pub proof fn lemma_launch_payload(r: RouterView, mac: Seq<u8>, id: u64, outcomes: Seq<Outcome>)
    requires
        r.payload == packet_bytes(mac),
    ensures
        actions_for(r, EventView::ControlActivation { id, token: r.control.token }, outcomes)[0]
            == (ActionView::Broadcast { payload: packet_bytes(mac) }),
{
    lemma_launch_broadcasts_then_acknowledges(r, id, outcomes);
}

} // verus!
