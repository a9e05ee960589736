use wol_bridge::error::{ConfigError, RegistrationError};
use wol_bridge::event::{
    AckKind, Action, CommandDescriptor, ConfirmationControl, Fault, InteractionEvent, Outcome,
    Pending,
};
use wol_bridge::packet::build;
use wol_bridge::router::{Dispatch, Resumption, Router, Step};

const CHANNEL: u64 = 4242;

fn descriptor() -> CommandDescriptor {
    CommandDescriptor {
        name: String::from("wol"),
        description: String::from("Init launch PC button"),
        default_permission: true,
    }
}

fn control() -> ConfirmationControl {
    ConfirmationControl {
        content: String::from("Launch PC button"),
        label: String::from("Launch!"),
        token: String::from("button_launch"),
    }
}

fn router() -> Router {
    Router::configure(descriptor(), control(), CHANNEL, "AA-BB-CC-DD-EE-FF").unwrap()
}

fn command(id: u64, name: &str) -> InteractionEvent {
    InteractionEvent::CommandInvocation { id, name: String::from(name) }
}

fn activation(id: u64, token: &str) -> InteractionEvent {
    InteractionEvent::ControlActivation { id, token: String::from(token) }
}

/// Handles one event to its end, with the given outcomes for the actions in
/// turn, and returns the actions performed and the faults reported.
fn run(router: &Router, event: &InteractionEvent, outcomes: &[Outcome]) -> (Vec<Action>, Vec<Fault>) {
    let mut actions = Vec::new();
    let mut faults = Vec::new();
    let mut step = match router.dispatch(event) {
        Dispatch::Started(step) => Some(step),
        _ => None,
    };
    let mut k = 0;
    while let Some(Step { pending, action }) = step {
        actions.push(action);
        let outcome = outcomes.get(k).copied().unwrap_or(Outcome::Done);
        k += 1;
        let Resumption { next, fault } = router.resume(pending, outcome);
        faults.extend(fault);
        step = next;
    }
    (actions, faults)
}

#[test]
fn foreign_command_posts_and_acknowledges_nothing() {
    let router = router();
    assert_eq!(router.dispatch(&command(1, "sleep")), Dispatch::Ignored);
    assert_eq!(router.dispatch(&command(1, "")), Dispatch::Ignored);
    assert_eq!(router.dispatch(&command(1, "WOL")), Dispatch::Ignored);
    let (actions, faults) = run(&router, &command(1, "wol2"), &[]);
    assert!(actions.is_empty());
    assert!(faults.is_empty());
}

#[test]
fn declared_command_posts_the_control() {
    let router = router();
    let decision = router.dispatch(&command(7, "wol"));
    let expected = Action::PostControl { channel: CHANNEL, control: control() };
    assert_eq!(
        decision,
        Dispatch::Started(Step { pending: Pending::Post, action: expected.clone() })
    );
    let (actions, faults) = run(&router, &command(7, "wol"), &[]);
    assert_eq!(actions, vec![expected]);
    assert!(faults.is_empty());
}

#[test]
fn launch_broadcasts_once_then_acknowledges_once() {
    let router = router();
    let payload = build("AA-BB-CC-DD-EE-FF").unwrap();
    let (actions, faults) = run(&router, &activation(99, "button_launch"), &[]);
    assert_eq!(
        actions,
        vec![
            Action::Broadcast { payload },
            Action::Acknowledge { event_id: 99, kind: AckKind::DeferredUpdate },
        ]
    );
    assert!(faults.is_empty());
}

#[test]
fn launch_starts_with_the_broadcast() {
    let router = router();
    let payload = build("AA-BB-CC-DD-EE-FF").unwrap();
    assert_eq!(
        router.dispatch(&activation(5, "button_launch")),
        Dispatch::Started(Step {
            pending: Pending::Broadcast { event_id: 5 },
            action: Action::Broadcast { payload },
        })
    );
}

#[test]
fn foreign_token_broadcasts_and_acknowledges_nothing() {
    let router = router();
    assert_eq!(router.dispatch(&activation(3, "button_other")), Dispatch::Ignored);
    assert_eq!(router.dispatch(&activation(3, "")), Dispatch::Ignored);
    let (actions, faults) = run(&router, &activation(3, "wol"), &[]);
    assert!(actions.is_empty());
    assert!(faults.is_empty());
}

#[test]
fn connectivity_probe_is_unsupported() {
    let router = router();
    let probe = InteractionEvent::ConnectivityProbe { id: 11 };
    assert_eq!(router.dispatch(&probe), Dispatch::Unsupported);
    let (actions, faults) = run(&router, &probe, &[]);
    assert!(actions.is_empty());
    assert!(faults.is_empty());
}

#[test]
fn failed_broadcast_is_reported_and_still_acknowledged() {
    let router = router();
    let resumption = router.resume(Pending::Broadcast { event_id: 8 }, Outcome::Failed);
    assert_eq!(resumption.fault, Some(Fault::Network));
    assert_eq!(
        resumption.next,
        Some(Step {
            pending: Pending::Acknowledgment,
            action: Action::Acknowledge { event_id: 8, kind: AckKind::DeferredUpdate },
        })
    );
    let (actions, faults) = run(&router, &activation(8, "button_launch"), &[Outcome::Failed]);
    assert_eq!(actions.len(), 2);
    assert_eq!(faults, vec![Fault::Network]);
}

#[test]
fn events_after_a_failure_are_handled_as_before() {
    let router = router();
    let before = run(&router, &activation(1, "button_launch"), &[]);
    let failed = run(
        &router,
        &activation(1, "button_launch"),
        &[Outcome::Failed, Outcome::Failed],
    );
    assert_eq!(failed.0, before.0);
    assert_eq!(failed.1, vec![Fault::Network, Fault::InteractionApi]);
    let after = run(&router, &activation(1, "button_launch"), &[]);
    assert_eq!(after, before);
    let (actions, _) = run(&router, &command(2, "wol"), &[]);
    assert_eq!(actions.len(), 1);
}

#[test]
fn successful_broadcast_reports_no_fault() {
    let router = router();
    let resumption = router.resume(Pending::Broadcast { event_id: 8 }, Outcome::Done);
    assert_eq!(resumption.fault, None);
    assert!(resumption.next.is_some());
}

#[test]
fn failed_post_ends_the_event_with_a_fault() {
    let router = router();
    assert_eq!(
        router.resume(Pending::Post, Outcome::Failed),
        Resumption { next: None, fault: Some(Fault::InteractionApi) }
    );
    assert_eq!(
        router.resume(Pending::Post, Outcome::Done),
        Resumption { next: None, fault: None }
    );
}

#[test]
fn failed_acknowledgment_ends_the_event_with_a_fault() {
    let router = router();
    assert_eq!(
        router.resume(Pending::Acknowledgment, Outcome::Failed),
        Resumption { next: None, fault: Some(Fault::InteractionApi) }
    );
    assert_eq!(
        router.resume(Pending::Acknowledgment, Outcome::Done),
        Resumption { next: None, fault: None }
    );
}

#[test]
fn command_then_launch_sends_the_configured_payload() {
    let router = Router::configure(descriptor(), control(), CHANNEL, "AA-BB-CC-DD-EE-FF").unwrap();
    let (posted, _) = run(&router, &command(1, "wol"), &[]);
    let token = match &posted[0] {
        Action::PostControl { channel, control } => {
            assert_eq!(*channel, CHANNEL);
            control.token.clone()
        }
        other => panic!("unexpected action {:?}", other),
    };
    let (actions, faults) = run(&router, &activation(2, &token), &[]);
    assert!(faults.is_empty());
    assert_eq!(actions.len(), 2);
    let datagram = match &actions[0] {
        Action::Broadcast { payload } => payload.payload().to_vec(),
        other => panic!("unexpected action {:?}", other),
    };
    let mut expected = vec![0xFFu8; 6];
    for _ in 0..16 {
        expected.extend_from_slice(&[0xAA, 0xBB, 0xCC, 0xDD, 0xEE, 0xFF]);
    }
    assert_eq!(datagram.len(), 102);
    assert_eq!(datagram, expected);
    assert_eq!(actions[1], Action::Acknowledge { event_id: 2, kind: AckKind::DeferredUpdate });
}

#[test]
fn configure_fails_on_a_malformed_address() {
    let result = Router::configure(descriptor(), control(), CHANNEL, "AA-BB-CC-DD-EE-ZZ");
    assert_eq!(
        result.unwrap_err(),
        ConfigError::InvalidAddress { token: String::from("ZZ") }
    );
}

#[test]
fn router_keeps_its_configuration() {
    let router = router();
    assert_eq!(router.descriptor(), &descriptor());
    assert_eq!(router.packet(), build("AA-BB-CC-DD-EE-FF").unwrap());
}

#[test]
fn registration_failure_is_fatal() {
    let router = router();
    assert_eq!(router.registered(Outcome::Done), Ok(()));
    assert_eq!(router.registered(Outcome::Failed), Err(RegistrationError));
}

#[test]
fn event_identifier() {
    assert_eq!(command(17, "wol").id(), 17);
    assert_eq!(activation(18, "x").id(), 18);
    assert_eq!(InteractionEvent::ConnectivityProbe { id: 19 }.id(), 19);
}
