use edge_actors::link::DynSender;
use edge_actors::link::NoConfig;
use edge_actors::link::ServiceProvider;
use edge_actors::link::SignalSender;
use edge_actors::mailbox::Delivery;
use edge_actors::mailbox::SendError;
use edge_actors::runtime::Built;
use edge_actors::runtime::Envelope;
use edge_actors::runtime::Exit;
use edge_actors::runtime::Phase;
use edge_actors::runtime::Runtime;
use edge_actors::runtime::RuntimeError;
use edge_actors::runtime::RuntimeRequest;
use edge_actors::runtime::Wake;
use std::collections::VecDeque;

/// Registers an actor without links and builds it.
fn built_actor(runtime: &mut Runtime<&'static str>, name: &str, capacity: usize) -> (DynSender, Built) {
    let mut builder: ServiceProvider<NoConfig> =
        ServiceProvider::new(name.to_string(), runtime, capacity, 0);
    let built = builder.seal();
    (builder.request_sender(), built)
}

fn running_actor(runtime: &mut Runtime<&'static str>, name: &str, capacity: usize) -> DynSender {
    let (sender, built) = built_actor(runtime, name, capacity);
    runtime.built(&built).unwrap();
    runtime.spawn(sender.target).unwrap();
    sender
}

#[test]
fn shutdown_while_an_actor_handles_a_message() {
    let mut runtime: Runtime<&'static str> = Runtime::new();
    let worker = running_actor(&mut runtime, "worker", 10);
    let peer = running_actor(&mut runtime, "peer", 10);
    assert_eq!(runtime.send(&worker, "first"), Ok(Delivery::Buffered));
    assert_eq!(runtime.send(&worker, "second"), Ok(Delivery::Buffered));

    // The worker takes its first message and is busy with it when shutdown is requested.
    assert_eq!(runtime.next(worker.target), Wake::Message("first"));
    runtime.shutdown();
    // The handler still completes: what it sends is accepted.
    assert_eq!(runtime.send(&peer, "result of first"), Ok(Delivery::Buffered));
    assert_eq!(runtime.run_to_completion(), None);

    // The worker reads no further message, though one waits.
    assert_eq!(runtime.next(worker.target), Wake::Stop);
    assert_eq!(runtime.next(worker.target), Wake::Stop);
    assert_eq!(runtime.terminated(worker.target, Exit::Finished), Ok(()));
    assert_eq!(runtime.run_to_completion(), None);

    assert_eq!(runtime.next(peer.target), Wake::Stop);
    assert_eq!(runtime.terminated(peer.target, Exit::Finished), Ok(()));
    assert_eq!(runtime.run_to_completion(), Some(Ok(())));
    assert_eq!(runtime.phase(worker.target), Some(Phase::Terminated));
    assert_eq!(runtime.phase(peer.target), Some(Phase::Terminated));
}

#[test]
fn shutdown_is_seen_before_a_flood_of_messages() {
    let mut runtime: Runtime<&'static str> = Runtime::new();
    let actor = running_actor(&mut runtime, "busy", 2);
    assert_eq!(runtime.send(&actor, "a"), Ok(Delivery::Buffered));
    assert_eq!(runtime.send(&actor, "b"), Ok(Delivery::Buffered));
    assert_eq!(runtime.send(&actor, "c"), Ok(Delivery::Suspended("c")));
    runtime.shutdown();
    assert!(runtime.is_stopping());
    assert_eq!(runtime.next(actor.target), Wake::Stop);
    assert_eq!(runtime.terminated(actor.target, Exit::Finished), Ok(()));
    // The suspended sender learns that its peer has ended.
    assert_eq!(runtime.send(&actor, "c"), Err(SendError));
}

#[test]
fn a_signal_travels_on_its_own_channel() {
    let mut runtime: Runtime<&'static str> = Runtime::new();
    let actor = running_actor(&mut runtime, "actor", 1);
    let bystander = running_actor(&mut runtime, "bystander", 1);
    let handle = SignalSender { target: actor.target };
    // The mailbox of messages is full; the request is taken all the same.
    assert_eq!(runtime.send(&actor, "waiting"), Ok(Delivery::Buffered));
    assert_eq!(runtime.send(&actor, "more"), Ok(Delivery::Suspended("more")));
    assert_eq!(runtime.signal(&handle, RuntimeRequest::Shutdown), Ok(Delivery::Buffered));
    assert!(!runtime.is_stopping());
    // It is seen before the message that waits, and by this actor only.
    assert_eq!(runtime.next(actor.target), Wake::Stop);
    assert_eq!(runtime.next(bystander.target), Wake::Idle);
    assert_eq!(runtime.terminated(actor.target, Exit::Finished), Ok(()));
    assert_eq!(runtime.signal(&handle, RuntimeRequest::Shutdown), Err(SendError));
    assert_eq!(
        runtime.signal(&SignalSender { target: 9 }, RuntimeRequest::Shutdown),
        Err(SendError)
    );
}

#[test]
fn the_channel_of_requests_is_bounded() {
    let mut runtime: Runtime<&'static str> = Runtime::new();
    let actor = running_actor(&mut runtime, "actor", 1);
    let handle = SignalSender { target: actor.target };
    for _ in 0..10 {
        assert_eq!(runtime.signal(&handle, RuntimeRequest::Shutdown), Ok(Delivery::Buffered));
    }
    assert_eq!(
        runtime.signal(&handle, RuntimeRequest::Shutdown),
        Ok(Delivery::Suspended(RuntimeRequest::Shutdown))
    );
    assert_eq!(runtime.next(actor.target), Wake::Stop);
}

#[test]
fn an_actor_moves_through_its_phases_in_order() {
    let mut runtime: Runtime<&'static str> = Runtime::new();
    assert_eq!(runtime.phase(0), None);
    let (actor, built) = built_actor(&mut runtime, "actor", 1);
    assert_eq!(actor.target, 0);
    assert_eq!(built.target(), 0);
    assert_eq!(runtime.actor_count(), 1);
    assert_eq!(runtime.phase(0), Some(Phase::Constructing));
    assert_eq!(
        runtime.spawn(0),
        Err(RuntimeError::WrongPhase { address: 0, phase: Phase::Constructing })
    );
    assert_eq!(runtime.next(0), Wake::Gone);
    assert_eq!(runtime.built(&built), Ok(()));
    assert_eq!(runtime.phase(0), Some(Phase::Built));
    assert_eq!(
        runtime.built(&built),
        Err(RuntimeError::WrongPhase { address: 0, phase: Phase::Built })
    );
    assert_eq!(
        runtime.terminated(0, Exit::Finished),
        Err(RuntimeError::WrongPhase { address: 0, phase: Phase::Built })
    );
    assert_eq!(runtime.spawn(0), Ok(()));
    assert_eq!(runtime.phase(0), Some(Phase::Spawned));
    assert_eq!(
        runtime.spawn(0),
        Err(RuntimeError::WrongPhase { address: 0, phase: Phase::Spawned })
    );
    assert_eq!(runtime.next(0), Wake::Idle);
    assert_eq!(runtime.phase(0), Some(Phase::Running));
    assert_eq!(runtime.terminated(0, Exit::Finished), Ok(()));
    assert_eq!(runtime.phase(0), Some(Phase::Terminated));
    assert_eq!(
        runtime.terminated(0, Exit::Finished),
        Err(RuntimeError::WrongPhase { address: 0, phase: Phase::Terminated })
    );
    assert_eq!(runtime.next(0), Wake::Gone);
}

#[test]
fn unknown_addresses_are_refused() {
    let mut runtime: Runtime<&'static str> = Runtime::new();
    let mut elsewhere: Runtime<&'static str> = Runtime::new();
    built_actor(&mut elsewhere, "first", 1);
    let (_, foreign) = built_actor(&mut elsewhere, "second", 1);
    assert_eq!(runtime.built(&foreign), Err(RuntimeError::UnknownActor { address: 1 }));
    assert_eq!(runtime.spawn(3), Err(RuntimeError::UnknownActor { address: 3 }));
    assert_eq!(
        runtime.terminated(3, Exit::Failed),
        Err(RuntimeError::UnknownActor { address: 3 })
    );
    assert_eq!(runtime.next(3), Wake::Gone);
    assert_eq!(runtime.send(&DynSender { target: 3 }, "lost"), Err(SendError));
    assert_eq!(runtime.run_to_completion(), Some(Ok(())));
}

#[test]
fn no_actor_is_spawned_after_shutdown() {
    let mut runtime: Runtime<&'static str> = Runtime::new();
    let (late, built) = built_actor(&mut runtime, "late", 1);
    runtime.built(&built).unwrap();
    runtime.shutdown();
    assert_eq!(runtime.spawn(late.target), Err(RuntimeError::ShuttingDown));
    assert_eq!(runtime.phase(late.target), Some(Phase::Built));
    assert_eq!(runtime.run_to_completion(), Some(Ok(())));
}

#[test]
fn the_failure_of_an_actor_is_fatal() {
    let mut runtime: Runtime<&'static str> = Runtime::new();
    let sound = running_actor(&mut runtime, "sound", 1);
    let faulty = running_actor(&mut runtime, "faulty", 1);
    let other = running_actor(&mut runtime, "other", 1);
    assert_eq!(runtime.send(&sound, "kept"), Ok(Delivery::Buffered));
    assert_eq!(runtime.next(faulty.target), Wake::Idle);
    assert!(!runtime.is_stopping());
    assert_eq!(runtime.terminated(other.target, Exit::Failed), Ok(()));

    // The failure asks all the others to stop, and is not reported before they have.
    assert!(runtime.is_stopping());
    assert_eq!(runtime.run_to_completion(), None);
    assert_eq!(runtime.terminated(faulty.target, Exit::Failed), Ok(()));
    assert_eq!(runtime.run_to_completion(), None);
    // The mailbox of the sound actor is untouched, but it is told to stop.
    assert_eq!(runtime.next(sound.target), Wake::Stop);
    assert_eq!(runtime.terminated(sound.target, Exit::Finished), Ok(()));
    assert_eq!(
        runtime.run_to_completion(),
        Some(Err(RuntimeError::ActorFailed { address: faulty.target }))
    );
}

#[test]
fn messages_wait_for_an_actor_under_construction() {
    let mut runtime: Runtime<&'static str> = Runtime::new();
    let (actor, built) = built_actor(&mut runtime, "slow", 2);
    assert_eq!(runtime.send(&actor, "early"), Ok(Delivery::Buffered));
    assert_eq!(runtime.send(&actor, "next"), Ok(Delivery::Buffered));
    runtime.built(&built).unwrap();
    runtime.spawn(actor.target).unwrap();
    assert_eq!(runtime.run_to_completion(), None);
    assert_eq!(runtime.next(actor.target), Wake::Message("early"));
    assert_eq!(runtime.next(actor.target), Wake::Message("next"));
    assert_eq!(runtime.next(actor.target), Wake::Idle);
}

#[test]
fn an_actor_registered_without_a_builder_is_under_construction() {
    let mut runtime: Runtime<&'static str> = Runtime::new();
    let actor = runtime.register("bare".to_string(), 1);
    assert_eq!(runtime.phase(actor.target), Some(Phase::Constructing));
    assert_eq!(
        runtime.spawn(actor.target),
        Err(RuntimeError::WrongPhase { address: 0, phase: Phase::Constructing })
    );
    assert_eq!(runtime.run_to_completion(), Some(Ok(())));
}

#[test]
fn an_outbox_goes_out_in_order_up_to_the_first_full_mailbox() {
    let mut runtime: Runtime<&'static str> = Runtime::new();
    let roomy = running_actor(&mut runtime, "roomy", 5);
    let tight = running_actor(&mut runtime, "tight", 1);
    let ended = running_actor(&mut runtime, "ended", 1);
    runtime.terminated(ended.target, Exit::Finished).unwrap();

    let mut outbox: VecDeque<Envelope<&'static str>> = VecDeque::new();
    outbox.push_back(Envelope { to: roomy, message: "one" });
    outbox.push_back(Envelope { to: ended, message: "lost" });
    outbox.push_back(Envelope { to: tight, message: "two" });
    outbox.push_back(Envelope { to: tight, message: "three" });
    outbox.push_back(Envelope { to: roomy, message: "four" });

    // "three" finds the mailbox full; "four" waits behind it though its mailbox has room.
    assert_eq!(runtime.flush(&mut outbox), vec![ended]);
    assert_eq!(
        outbox,
        VecDeque::from(vec![
            Envelope { to: tight, message: "three" },
            Envelope { to: roomy, message: "four" },
        ])
    );
    assert_eq!(runtime.flush(&mut outbox), vec![]);
    assert_eq!(outbox.len(), 2);

    assert_eq!(runtime.next(tight.target), Wake::Message("two"));
    assert_eq!(runtime.flush(&mut outbox), vec![]);
    assert!(outbox.is_empty());
    assert_eq!(runtime.next(tight.target), Wake::Message("three"));
    assert_eq!(runtime.next(roomy.target), Wake::Message("one"));
    assert_eq!(runtime.next(roomy.target), Wake::Message("four"));
    assert_eq!(runtime.flush(&mut outbox), vec![]);
}
