use edge_actors::config_manager::ConfigInput;
use edge_actors::config_manager::ConfigManagerActor;
use edge_actors::config_manager::ConfigManagerBuilder;
use edge_actors::config_manager::ConfigManagerConfig;
use edge_actors::config_manager::OperationStatus;
use edge_actors::config_manager::Reaction;
use edge_actors::config_manager::StatusUpdate;
use edge_actors::config_manager::TopicFilter;
use edge_actors::link::DynSender;
use edge_actors::link::LinkError;
use edge_actors::link::MessageSource;
use edge_actors::link::NoConfig;
use edge_actors::link::Peer;
use edge_actors::link::ServiceProvider;
use edge_actors::link::SignalSender;
use edge_actors::mailbox::Delivery;
use edge_actors::runtime::Exit;
use edge_actors::runtime::RuntimeRequest;
use edge_actors::runtime::Wake;
use edge_actors::timer::Notice;
use edge_actors::operations::ChildConfigOperationKey;
use edge_actors::operations::ConfigOperation;
use edge_actors::operations::OperationError;
use edge_actors::operations::OperationTracker;
use edge_actors::runtime::Phase;
use edge_actors::runtime::Runtime;
use edge_actors::timer::SetTimeout;
use edge_actors::timer::Timeout;
use edge_actors::timer::TimerService;

struct Services {
    runtime: Runtime<ConfigInput>,
    mqtt: ServiceProvider<TopicFilter>,
    http: ServiceProvider<NoConfig>,
    timer: ServiceProvider<NoConfig>,
    fs_notify: MessageSource<String>,
}

fn services() -> Services {
    let mut runtime: Runtime<ConfigInput> = Runtime::new();
    let mqtt = ServiceProvider::new("mqtt".to_string(), &mut runtime, 10, 8);
    let http = ServiceProvider::new("http".to_string(), &mut runtime, 10, 8);
    let timer = ServiceProvider::new("timer".to_string(), &mut runtime, 10, 8);
    Services { runtime, mqtt, http, timer, fs_notify: MessageSource::new("fs-watch".to_string(), 8) }
}

fn config() -> ConfigManagerConfig {
    ConfigManagerConfig { config_dir: "/etc/tedge".to_string(), operation_timeout: 5 }
}

fn build(services: &mut Services) -> Result<ConfigManagerActor, LinkError> {
    ConfigManagerBuilder::new(
        config(),
        &mut services.runtime,
        &mut services.mqtt,
        &mut services.http,
        &mut services.timer,
        &mut services.fs_notify,
    )
    .try_build()
}

fn key(device: &str, file: &str) -> ChildConfigOperationKey {
    ChildConfigOperationKey {
        child_id: device.to_string(),
        operation_type: ConfigOperation::Update,
        config_type: file.to_string(),
    }
}

fn publish(key: ChildConfigOperationKey, status: OperationStatus) -> Reaction {
    Reaction { timer: None, status: Some(StatusUpdate { key, status }) }
}

fn nothing() -> Reaction {
    Reaction { timer: None, status: None }
}

#[test]
fn subscriptions_are_the_three_topics() {
    assert_eq!(
        config().subscriptions(),
        TopicFilter {
            patterns: vec![
                "c8y/s/ds".to_string(),
                "tedge/+/commands/res/config_snapshot".to_string(),
                "tedge/+/commands/res/config_update".to_string(),
            ]
        }
    );
}

#[test]
fn config_directory_is_below_the_configuration_root() {
    assert_eq!(config().config_directory(), "/etc/tedge/c8y/");
    let with_separator =
        ConfigManagerConfig { config_dir: "/etc/tedge/".to_string(), operation_timeout: 5 };
    assert_eq!(with_separator.config_directory(), "/etc/tedge/c8y/");
    let relative = ConfigManagerConfig { config_dir: String::new(), operation_timeout: 5 };
    assert_eq!(relative.config_directory(), "c8y/");
    let root = ConfigManagerConfig { config_dir: "/".to_string(), operation_timeout: 5 };
    assert_eq!(root.config_directory(), "/c8y/");
}

#[test]
fn a_builder_with_all_links_builds_its_actor() {
    let mut services = services();
    let builder = ConfigManagerBuilder::new(
        config(),
        &mut services.runtime,
        &mut services.mqtt,
        &mut services.http,
        &mut services.timer,
        &mut services.fs_notify,
    );
    let address = DynSender { target: 3 };
    assert_eq!(builder.get_signal_sender(), SignalSender { target: 3 });
    assert!(builder.link_errors().is_empty());
    assert_eq!(services.runtime.phase(3), Some(Phase::Constructing));
    assert_eq!(
        services.mqtt.peers(),
        &vec![Peer { config: config().subscriptions(), sender: address }]
    );
    assert_eq!(services.http.peers(), &vec![Peer { config: NoConfig, sender: address }]);
    assert_eq!(services.timer.peers(), &vec![Peer { config: NoConfig, sender: address }]);
    assert_eq!(
        services.fs_notify.peers(),
        &vec![Peer { config: "/etc/tedge/c8y/".to_string(), sender: address }]
    );

    let actor = builder.try_build().unwrap();
    assert_eq!(actor.own_address(), address);
    assert_eq!(actor.publisher(), DynSender { target: 0 });
    assert_eq!(actor.http_proxy(), DynSender { target: 1 });
    assert_eq!(actor.timer(), DynSender { target: 2 });
    assert_eq!(actor.operations_in_flight(), 0);

    assert_eq!(services.runtime.built(&actor.built()), Ok(()));
    assert_eq!(services.runtime.phase(3), Some(Phase::Built));
}

#[test]
fn the_signal_sender_leads_to_the_channel_of_requests() {
    let mut services = services();
    let builder = ConfigManagerBuilder::new(
        config(),
        &mut services.runtime,
        &mut services.mqtt,
        &mut services.http,
        &mut services.timer,
        &mut services.fs_notify,
    );
    let signals = builder.get_signal_sender();
    assert_eq!(builder.get_signal_sender(), signals);
    let actor = builder.try_build().unwrap();
    let address = actor.own_address();
    services.runtime.built(&actor.built()).unwrap();
    services.runtime.spawn(address.target).unwrap();

    let command = ConfigInput::Command(key("D1", "F1"));
    assert_eq!(services.runtime.send(&address, command), Ok(Delivery::Buffered));
    assert_eq!(services.runtime.signal(&signals, RuntimeRequest::Shutdown), Ok(Delivery::Buffered));
    // The request overtakes the command that was sent before it.
    assert_eq!(services.runtime.next(address.target), Wake::Stop);
    assert_eq!(services.runtime.terminated(address.target, Exit::Finished), Ok(()));
}

#[test]
fn the_actor_ends_when_an_essential_peer_is_gone() {
    let actor = build(&mut services()).unwrap();
    assert_eq!(actor.on_send_error(&actor.publisher()), Some(Exit::Failed));
    assert_eq!(actor.on_send_error(&actor.timer()), Some(Exit::Failed));
    assert_eq!(actor.on_send_error(&actor.http_proxy()), None);
    assert_eq!(actor.on_send_error(&actor.own_address()), None);
}

#[test]
fn a_builder_without_its_http_link_builds_nothing() {
    let mut services = services();
    let _ = services.http.seal();
    match build(&mut services) {
        Ok(_) => panic!("an actor was built without its HTTP link"),
        Err(error) => {
            assert_eq!(error, LinkError::MissingPeer { role: "http".to_string() });
            assert_eq!(error.role(), "http");
        }
    }
    assert!(services.http.peers().is_empty());
}

#[test]
fn each_missing_link_is_named() {
    let mut services = services();
    let _ = services.mqtt.seal();
    let _ = services.timer.seal();
    assert_eq!(build(&mut services).err(), Some(LinkError::MissingPeer { role: "mqtt".to_string() }));

    let mut services = self::services();
    let _ = services.timer.seal();
    services.fs_notify.seal();
    assert_eq!(
        build(&mut services).err(),
        Some(LinkError::MissingPeer { role: "timer".to_string() })
    );

    let mut services = self::services();
    services.fs_notify.seal();
    assert_eq!(
        build(&mut services).err(),
        Some(LinkError::MissingPeer { role: "fs-watch".to_string() })
    );
}

#[test]
fn the_builder_keeps_what_the_services_said() {
    let mut services = services();
    let full: ServiceProvider<NoConfig> =
        ServiceProvider::new("timer".to_string(), &mut services.runtime, 10, 0);
    services.timer = full;
    let _ = services.mqtt.seal();
    let builder = ConfigManagerBuilder::new(
        config(),
        &mut services.runtime,
        &mut services.mqtt,
        &mut services.http,
        &mut services.timer,
        &mut services.fs_notify,
    );
    assert_eq!(
        builder.link_errors(),
        &vec![
            LinkError::WiringOver { role: "mqtt".to_string() },
            LinkError::ExcessPeer { role: "timer".to_string() },
        ]
    );
    assert_eq!(builder.try_build().err(), Some(LinkError::MissingPeer { role: "mqtt".to_string() }));
}

#[test]
fn a_sealed_service_refuses_a_consumer() {
    let mut runtime: Runtime<ConfigInput> = Runtime::new();
    for name in ["a", "b", "c", "d"] {
        runtime.register(name.to_string(), 1);
    }
    let mut provider: ServiceProvider<NoConfig> =
        ServiceProvider::new("timer".to_string(), &mut runtime, 10, 2);
    assert_eq!(provider.request_sender(), DynSender { target: 4 });
    assert_eq!(provider.connect_consumer(NoConfig, DynSender { target: 1 }), Ok(DynSender { target: 4 }));
    assert!(!provider.is_sealed());
    assert_eq!(provider.seal().target(), 4);
    assert!(provider.is_sealed());
    assert_eq!(
        provider.connect_consumer(NoConfig, DynSender { target: 2 }),
        Err(LinkError::WiringOver { role: "timer".to_string() })
    );
    assert_eq!(provider.peers().len(), 1);
}

#[test]
fn a_service_takes_no_more_peers_than_it_serves() {
    let mut runtime: Runtime<ConfigInput> = Runtime::new();
    let mut provider: ServiceProvider<NoConfig> =
        ServiceProvider::new("http".to_string(), &mut runtime, 10, 1);
    assert!(provider.connect_consumer(NoConfig, DynSender { target: 1 }).is_ok());
    assert_eq!(
        provider.connect_consumer(NoConfig, DynSender { target: 1 }),
        Err(LinkError::ExcessPeer { role: "http".to_string() })
    );
    let mut source: MessageSource<String> = MessageSource::new("fs-watch".to_string(), 1);
    assert_eq!(source.register_peer("/a".to_string(), DynSender { target: 1 }), Ok(()));
    assert_eq!(
        source.register_peer("/b".to_string(), DynSender { target: 2 }),
        Err(LinkError::ExcessPeer { role: "fs-watch".to_string() })
    );
    source.seal();
    assert!(source.is_sealed());
    assert_eq!(
        source.register_peer("/c".to_string(), DynSender { target: 3 }),
        Err(LinkError::WiringOver { role: "fs-watch".to_string() })
    );
    assert_eq!(source.peers(), &vec![Peer { config: "/a".to_string(), sender: DynSender { target: 1 } }]);
}

#[test]
fn a_command_starts_an_operation_with_its_timeout() {
    let mut actor = build(&mut services()).unwrap();
    let k = key("D1", "F1");
    assert_eq!(
        actor.handle(ConfigInput::Command(k.clone())),
        Reaction {
            timer: Some(SetTimeout { duration: 5, key: k.clone() }),
            status: Some(StatusUpdate { key: k.clone(), status: OperationStatus::Executing }),
        }
    );
    assert!(actor.is_active(&k));
    assert_eq!(actor.operations_in_flight(), 1);
}

#[test]
fn a_second_command_for_an_active_key_is_rejected() {
    let mut actor = build(&mut services()).unwrap();
    let k = key("D1", "F1");
    actor.handle(ConfigInput::Command(k.clone()));
    assert_eq!(
        actor.handle(ConfigInput::Command(k.clone())),
        publish(k.clone(), OperationStatus::Rejected)
    );
    assert!(actor.is_active(&k));
    assert_eq!(actor.operations_in_flight(), 1);

    // Another file of the same device is another operation.
    let other = key("D1", "F2");
    assert_eq!(
        actor.handle(ConfigInput::Command(other.clone())).status,
        Some(StatusUpdate { key: other, status: OperationStatus::Executing })
    );
    assert_eq!(actor.operations_in_flight(), 2);

    // Once the first has resolved, its key is free again.
    assert_eq!(
        actor.handle(ConfigInput::Outcome { key: k.clone(), success: true }),
        publish(k.clone(), OperationStatus::Successful)
    );
    assert_eq!(
        actor.handle(ConfigInput::Command(k.clone())).status,
        Some(StatusUpdate { key: k, status: OperationStatus::Executing })
    );
}

#[test]
fn a_timeout_after_completion_publishes_nothing() {
    let mut actor = build(&mut services()).unwrap();
    let mut timer: TimerService<ChildConfigOperationKey> = TimerService::new();
    let k1 = key("D1", "K1");

    let started = actor.handle(ConfigInput::Command(k1.clone()));
    let request = started.timer.unwrap();
    timer.set_timeout(actor.own_address(), request.key, request.duration).unwrap();

    // Before the deadline the operation completes.
    assert_eq!(timer.advance(4), vec![]);
    assert_eq!(
        actor.handle(ConfigInput::Outcome { key: k1.clone(), success: true }),
        publish(k1.clone(), OperationStatus::Successful)
    );

    // The deadline comes all the same, and nothing is published for it.
    let fired = timer.advance(5);
    assert_eq!(
        fired,
        vec![Notice { registrant: actor.own_address(), timeout: Timeout { key: k1.clone() } }]
    );
    for notice in fired {
        assert_eq!(actor.handle(ConfigInput::Expired(notice.timeout)), nothing());
    }
    assert!(!actor.is_active(&k1));
    assert_eq!(actor.operations_in_flight(), 0);
}

#[test]
fn a_timeout_fails_the_operation_in_flight_once() {
    let mut actor = build(&mut services()).unwrap();
    let k = key("D1", "F1");
    actor.handle(ConfigInput::Command(k.clone()));
    assert_eq!(
        actor.handle(ConfigInput::Expired(Timeout { key: k.clone() })),
        publish(k.clone(), OperationStatus::TimedOut)
    );
    assert_eq!(actor.handle(ConfigInput::Expired(Timeout { key: k.clone() })), nothing());
    assert_eq!(actor.handle(ConfigInput::Outcome { key: k.clone(), success: false }), nothing());
    assert!(!actor.is_active(&k));
}

#[test]
fn a_failed_outcome_is_published_as_failed() {
    let mut actor = build(&mut services()).unwrap();
    let k = key("D2", "F1");
    assert_eq!(actor.handle(ConfigInput::Outcome { key: k.clone(), success: false }), nothing());
    actor.handle(ConfigInput::Command(k.clone()));
    assert_eq!(
        actor.handle(ConfigInput::Outcome { key: k.clone(), success: false }),
        publish(k, OperationStatus::Failed)
    );
}

#[test]
fn the_tracker_keeps_one_operation_per_key() {
    let mut tracker = OperationTracker::new();
    let snapshot = ChildConfigOperationKey {
        child_id: "D1".to_string(),
        operation_type: ConfigOperation::Snapshot,
        config_type: "F1".to_string(),
    };
    let update = key("D1", "F1");
    assert!(!snapshot.same(&update));
    assert!(update.same(&key("D1", "F1")));
    assert!(!update.same(&key("D2", "F1")));
    assert_eq!(tracker.begin(update.clone()), Ok(()));
    assert_eq!(tracker.begin(update.clone()), Err(OperationError::AlreadyActive));
    assert_eq!(tracker.begin(snapshot.clone()), Ok(()));
    assert_eq!(tracker.len(), 2);
    assert!(tracker.is_active(&update));
    assert!(tracker.end(&update));
    assert!(!tracker.end(&update));
    assert!(!tracker.is_active(&update));
    assert!(tracker.is_active(&snapshot));
    assert_eq!(tracker.len(), 1);
}
