//! What arrives from the chat platform and what the bridge does in return.

use vstd::prelude::*;
use crate::packet::MagicPacket;

verus! {

/// An interaction event as the platform delivers it. `id` correlates the
/// event with the acknowledgment that may be owed for it.
#[derive(Debug, Clone, PartialEq, Eq)]
pub enum InteractionEvent {
    /// A user invoked the command called `name`.
    CommandInvocation { id: u64, name: String },
    /// A user activated the control that carries `token`.
    ControlActivation { id: u64, token: String },
    /// The platform probes whether the bridge is alive.
    ConnectivityProbe { id: u64 },
}

/// The mathematical content of an [`InteractionEvent`].
pub enum EventView {
    CommandInvocation { id: u64, name: Seq<char> },
    ControlActivation { id: u64, token: Seq<char> },
    ConnectivityProbe { id: u64 },
}

impl View for InteractionEvent {
    type V = EventView;

    open spec fn view(&self) -> EventView {
        match *self {
            InteractionEvent::CommandInvocation { id, name } => EventView::CommandInvocation {
                id,
                name: name@,
            },
            InteractionEvent::ControlActivation { id, token } => EventView::ControlActivation {
                id,
                token: token@,
            },
            InteractionEvent::ConnectivityProbe { id } => EventView::ConnectivityProbe { id },
        }
    }
}

impl EventView {
    /// The identifier that the event carries.
    pub open spec fn id(self) -> u64 {
        match self {
            EventView::CommandInvocation { id, .. } => id,
            EventView::ControlActivation { id, .. } => id,
            EventView::ConnectivityProbe { id } => id,
        }
    }
}

impl InteractionEvent {
    /// The identifier that the event carries.
    pub fn id(&self) -> (id: u64)
        ensures
            id == self@.id(),
    {
        match self {
            InteractionEvent::CommandInvocation { id, .. } => *id,
            InteractionEvent::ControlActivation { id, .. } => *id,
            InteractionEvent::ConnectivityProbe { id } => *id,
        }
    }
}

/// The command that the bridge declares to the platform.
#[derive(Debug, PartialEq, Eq)]
pub struct CommandDescriptor {
    pub name: String,
    pub description: String,
    pub default_permission: bool,
}

/// The mathematical content of a [`CommandDescriptor`].
pub struct DescriptorView {
    pub name: Seq<char>,
    pub description: Seq<char>,
    pub default_permission: bool,
}

impl View for CommandDescriptor {
    type V = DescriptorView;

    open spec fn view(&self) -> DescriptorView {
        DescriptorView {
            name: self.name@,
            description: self.description@,
            default_permission: self.default_permission,
        }
    }
}

impl Clone for CommandDescriptor {
    fn clone(&self) -> (copy: Self)
        ensures
            copy@ == self@,
    {
        CommandDescriptor {
            name: self.name.clone(),
            description: self.description.clone(),
            default_permission: self.default_permission,
        }
    }
}

/// The one-button message that asks for confirmation. Every instance carries
/// the same `token`, by which an activation is recognised.
#[derive(Debug, PartialEq, Eq)]
pub struct ConfirmationControl {
    pub content: String,
    pub label: String,
    pub token: String,
}

/// The mathematical content of a [`ConfirmationControl`].
pub struct ControlView {
    pub content: Seq<char>,
    pub label: Seq<char>,
    pub token: Seq<char>,
}

impl View for ConfirmationControl {
    type V = ControlView;

    open spec fn view(&self) -> ControlView {
        ControlView { content: self.content@, label: self.label@, token: self.token@ }
    }
}

impl Clone for ConfirmationControl {
    fn clone(&self) -> (copy: Self)
        ensures
            copy@ == self@,
    {
        ConfirmationControl {
            content: self.content.clone(),
            label: self.label.clone(),
            token: self.token.clone(),
        }
    }
}

/// How an interaction is acknowledged to the platform.
#[derive(Debug, Clone, Copy, PartialEq, Eq)]
pub enum AckKind {
    /// A silent update, after which the control stops showing as pending.
    DeferredUpdate,
}

/// One piece of outside work that the bridge asks for.
#[derive(Debug, Clone, PartialEq, Eq)]
pub enum Action {
    /// Post `control` into `channel`.
    PostControl { channel: u64, control: ConfirmationControl },
    /// Send `payload` as one broadcast datagram.
    Broadcast { payload: MagicPacket },
    /// Acknowledge the event `event_id`.
    Acknowledge { event_id: u64, kind: AckKind },
}

/// The mathematical content of an [`Action`].
pub enum ActionView {
    PostControl { channel: u64, control: ControlView },
    Broadcast { payload: Seq<u8> },
    Acknowledge { event_id: u64, kind: AckKind },
}

impl View for Action {
    type V = ActionView;

    open spec fn view(&self) -> ActionView {
        match *self {
            Action::PostControl { channel, control } => ActionView::PostControl {
                channel,
                control: control@,
            },
            Action::Broadcast { payload } => ActionView::Broadcast { payload: payload@ },
            Action::Acknowledge { event_id, kind } => ActionView::Acknowledge { event_id, kind },
        }
    }
}

/// How a piece of outside work ended.
#[derive(Debug, Clone, Copy, PartialEq, Eq)]
pub enum Outcome {
    Done,
    Failed,
}

/// A failure while one event was handled. It ends at most that event.
#[derive(Debug, Clone, Copy, PartialEq, Eq)]
pub enum Fault {
    /// Posting a message or acknowledging an interaction failed.
    InteractionApi,
    /// The broadcast could not be sent.
    Network,
}

/// The outside work that an event's handling waits for.
#[derive(Debug, Clone, Copy, PartialEq, Eq)]
pub enum Pending {
    Post,
    Broadcast { event_id: u64 },
    Acknowledgment,
}

} // verus!
