//! The actor that manages configuration files: its settings, its builder and
//! the decisions it takes on each input.
//!
//! The builder registers the actor with the services it depends on. The actor
//! itself starts an operation on each command, asks for a timeout with it, and
//! reports one outcome per operation: what comes for an operation that is no
//! longer in flight is ignored.

use crate::link::DynSender;
use crate::link::LinkError;
use crate::link::LinkErrorSpec;
use crate::link::LoggingSender;
use crate::link::MessageSource;
use crate::link::NoConfig;
use crate::link::ServiceProvider;
use crate::link::SignalSender;
use crate::operations::ended;
use crate::operations::in_flight;
use crate::operations::lemma_ended;
use crate::operations::lemma_started;
use crate::operations::started;
use crate::operations::ChildConfigOperationKey;
use crate::operations::KeySpec;
use crate::operations::OperationTracker;
use crate::runtime::Built;
use crate::runtime::Exit;
use crate::runtime::Runtime;
use crate::timer::SetTimeout;
use crate::timer::Timeout;
use vstd::prelude::*;
use vstd::string::StrSliceExecFns;
use vstd::string::StringExecFns;

verus! {

/// The directory, below the configuration directory, that the actor watches.
pub const DEFAULT_OPERATION_DIR_NAME: &'static str = "c8y/";

/// The name under which the actor is registered with the runtime.
pub const ACTOR_NAME: &'static str = "C8Y-Config-Manager";

/// The number of messages that the actor's mailbox holds.
pub const MAILBOX_CAPACITY: usize = 10;

/// The name under which the actor's handle to the HTTP service is known.
pub const HTTP_PROXY_NAME: &'static str = "ConfigManager => C8Y";

/// The name of the link to the MQTT service.
pub const ROLE_MQTT: &'static str = "mqtt";

/// The name of the link to the HTTP service.
pub const ROLE_HTTP: &'static str = "http";

/// The name of the link to the timer service.
pub const ROLE_TIMER: &'static str = "timer";

/// The name of the link to the service that watches the file system.
pub const ROLE_FS_WATCH: &'static str = "fs-watch";

/// A set of topic patterns to subscribe to.
#[derive(Debug, Clone, PartialEq, Eq)]
pub struct TopicFilter {
    pub patterns: Vec<String>,
}

impl View for TopicFilter {
    type V = Seq<Seq<char>>;

    open spec fn view(&self) -> Seq<Seq<char>> {
        Seq::new(self.patterns@.len(), |i: int| self.patterns@[i]@)
    }
}

/// The topics that the actor listens to: the commands of the cloud and the
/// responses of the child devices to snapshot and update requests.
pub open spec fn subscription_topics() -> Seq<Seq<char>> {
    seq![
        "c8y/s/ds"@,
        "tedge/+/commands/res/config_snapshot"@,
        "tedge/+/commands/res/config_update"@,
    ]
}

/// The path `name` below the directory `base`: the two are joined by one
/// separator unless `base` is empty or ends with one.
pub open spec fn joined(base: Seq<char>, name: Seq<char>) -> Seq<char> {
    if base.len() == 0 || base.last() == '/' {
        base + name
    } else {
        base + "/"@ + name
    }
}

/// The settings of the actor.
#[derive(Debug, Clone, PartialEq, Eq)]
pub struct ConfigManagerConfig {
    /// The root of the configuration on disk.
    pub config_dir: String,
    /// How long an operation may take, in time units.
    pub operation_timeout: u64,
}

impl ConfigManagerConfig {
    /// The topics that the actor subscribes to.
    pub fn subscriptions(&self) -> (filter: TopicFilter)
        ensures
            filter@ == subscription_topics(),
    {
        let mut patterns: Vec<String> = Vec::new();
        patterns.push(String::from_str("c8y/s/ds"));
        patterns.push(String::from_str("tedge/+/commands/res/config_snapshot"));
        patterns.push(String::from_str("tedge/+/commands/res/config_update"));
        let filter = TopicFilter { patterns };
        assert(filter@ =~= subscription_topics());
        filter
    }

    /// The directory that the actor watches for changes.
    pub fn config_directory(&self) -> (directory: String)
        ensures
            directory@ == joined(self.config_dir@, DEFAULT_OPERATION_DIR_NAME@),
    {
        let base = self.config_dir.as_str();
        let length = base.unicode_len();
        if length == 0 || base.get_char(length - 1) == '/' {
            String::from_str(base).concat(DEFAULT_OPERATION_DIR_NAME)
        } else {
            String::from_str(base).concat("/").concat(DEFAULT_OPERATION_DIR_NAME)
        }
    }
}

/// The links of a builder, as a mathematical value.
pub struct Links {
    /// The handle for publishing over MQTT, once that link is established.
    pub mqtt: Option<DynSender>,
    /// The handle for requests to the HTTP service, once that link is established.
    pub http: Option<DynSender>,
    /// The handle for requests to the timer service, once that link is established.
    pub timer: Option<DynSender>,
    /// Whether the actor is registered with the file system watcher.
    pub watching: bool,
}

impl Links {
    /// The first required link that is missing, by its name.
    pub open spec fn missing(self) -> Option<Seq<char>> {
        if self.mqtt is None {
            Some(ROLE_MQTT@)
        } else if self.http is None {
            Some(ROLE_HTTP@)
        } else if self.timer is None {
            Some(ROLE_TIMER@)
        } else if !self.watching {
            Some(ROLE_FS_WATCH@)
        } else {
            None
        }
    }
}

/// The refusals among the answers of the four services, in the order in which
/// the builder asks them.
pub open spec fn refusals_of(
    mqtt: Option<LinkErrorSpec>,
    http: Option<LinkErrorSpec>,
    timer: Option<LinkErrorSpec>,
    fs_notify: Option<LinkErrorSpec>,
) -> Seq<LinkErrorSpec> {
    listed(mqtt) + listed(http) + listed(timer) + listed(fs_notify)
}

/// The refusal as a list: empty where there is none.
pub open spec fn listed(refusal: Option<LinkErrorSpec>) -> Seq<LinkErrorSpec> {
    match refusal {
        Some(error) => seq![error],
        None => Seq::empty(),
    }
}

/// The values of the errors `errors`, in order.
pub open spec fn errors_view(errors: Seq<LinkError>) -> Seq<LinkErrorSpec> {
    Seq::new(errors.len(), |i: int| errors[i]@)
}

/// What an established link is worth to the builder: the handle that the
/// service gave, or nothing where it refused.
pub open spec fn granted<C>(provider: &ServiceProvider<C>) -> Option<DynSender> {
    if provider@.refusal() is None {
        Some(provider.requests())
    } else {
        None
    }
}

/// The builder of the actor. It gathers the actor's links and is used up in building it.
pub struct ConfigManagerBuilder {
    config: ConfigManagerConfig,
    address: DynSender,
    mqtt_publisher: Option<DynSender>,
    c8y_http_proxy: Option<DynSender>,
    timer_sender: Option<DynSender>,
    watching: bool,
    refusals: Vec<LinkError>,
}

impl ConfigManagerBuilder {
    /// What the services that refused a link said, in the order in which they
    /// were asked.
    pub closed spec fn refusals(&self) -> Seq<LinkErrorSpec> {
        errors_view(self.refusals@)
    }

    /// The settings that the actor will run with.
    pub closed spec fn config(&self) -> ConfigManagerConfig {
        self.config
    }

    /// The handle that addresses the actor.
    pub closed spec fn address(&self) -> DynSender {
        self.address
    }

    /// The links established so far.
    pub closed spec fn links(&self) -> Links {
        Links {
            mqtt: self.mqtt_publisher,
            http: self.c8y_http_proxy,
            timer: self.timer_sender,
            watching: self.watching,
        }
    }

    /// Registers the actor with the runtime and asks each service for its link:
    /// the MQTT service for the actor's topics, the HTTP and timer services,
    /// and the file system watcher for the actor's directory. A service that
    /// refuses leaves its link missing, which `try_build` reports; what the
    /// service said is kept with the builder.
    pub fn new<M>(
        config: ConfigManagerConfig,
        runtime: &mut Runtime<M>,
        mqtt: &mut ServiceProvider<TopicFilter>,
        http: &mut ServiceProvider<NoConfig>,
        timer: &mut ServiceProvider<NoConfig>,
        fs_notify: &mut MessageSource<String>,
    ) -> (builder: ConfigManagerBuilder)
        ensures
            builder.config() == config,
            builder.address().target == old(runtime)@.actors.len(),
            final(runtime)@ == old(runtime)@.register(ACTOR_NAME@, MAILBOX_CAPACITY),
            final(runtime)@.wf(),
            old(mqtt)@.linked(final(mqtt)@, builder.address()),
            old(mqtt)@.refusal() is None ==> final(mqtt)@.peers.last().config@
                == subscription_topics(),
            final(mqtt).requests() == old(mqtt).requests(),
            old(http)@.linked(final(http)@, builder.address()),
            final(http).requests() == old(http).requests(),
            old(timer)@.linked(final(timer)@, builder.address()),
            final(timer).requests() == old(timer).requests(),
            old(fs_notify)@.linked(final(fs_notify)@, builder.address()),
            old(fs_notify)@.refusal() is None ==> final(fs_notify)@.peers.last().config@ == joined(
                config.config_dir@,
                DEFAULT_OPERATION_DIR_NAME@,
            ),
            builder.links() == (Links {
                mqtt: granted(old(mqtt)),
                http: granted(old(http)),
                timer: granted(old(timer)),
                watching: old(fs_notify)@.refusal() is None,
            }),
            builder.refusals() == refusals_of(
                old(mqtt)@.refusal(),
                old(http)@.refusal(),
                old(timer)@.refusal(),
                old(fs_notify)@.refusal(),
            ),
    {
        let address = runtime.register(String::from_str(ACTOR_NAME), MAILBOX_CAPACITY);
        let mut refusals: Vec<LinkError> = Vec::new();
        let mqtt_publisher = match mqtt.connect_consumer(config.subscriptions(), address) {
            Ok(sender) => Some(sender),
            Err(error) => {
                refusals.push(error);
                None
            },
        };
        let c8y_http_proxy = match http.connect_consumer(NoConfig, address) {
            Ok(sender) => Some(sender),
            Err(error) => {
                refusals.push(error);
                None
            },
        };
        let timer_sender = match timer.connect_consumer(NoConfig, address) {
            Ok(sender) => Some(sender),
            Err(error) => {
                refusals.push(error);
                None
            },
        };
        let watching = match fs_notify.register_peer(config.config_directory(), address) {
            Ok(_) => true,
            Err(error) => {
                refusals.push(error);
                false
            },
        };
        assert(errors_view(refusals@) =~= refusals_of(
            old(mqtt)@.refusal(),
            old(http)@.refusal(),
            old(timer)@.refusal(),
            old(fs_notify)@.refusal(),
        ));
        ConfigManagerBuilder {
            config,
            address,
            mqtt_publisher,
            c8y_http_proxy,
            timer_sender,
            watching,
            refusals,
        }
    }

    /// The handle through which the runtime reaches the actor with its
    /// requests. It leads to the channel of requests of the actor that `new`
    /// registered, not to its mailbox of messages: `Runtime::signal` is what
    /// takes it.
    pub fn get_signal_sender(&self) -> (sender: SignalSender)
        ensures
            sender.target == self.address().target,
    {
        SignalSender { target: self.address.target }
    }

    /// What the services that refused a link said, in the order in which they
    /// were asked.
    pub fn link_errors(&self) -> (errors: &Vec<LinkError>)
        ensures
            errors_view(errors@) == self.refusals(),
    {
        &self.refusals
    }

    /// Builds the actor if all its links are there, and else names the first
    /// that is missing. There is no actor with a link missing.
    pub fn try_build(self) -> (result: Result<ConfigManagerActor, LinkError>)
        ensures
            match result {
                Ok(actor) => {
                    &&& self.links().missing() is None
                    &&& actor.config() == self.config()
                    &&& actor.address() == self.address()
                    &&& Some(actor.mqtt_publisher().sender) == self.links().mqtt
                    &&& actor.mqtt_publisher().name@ == "ConfigManager MQTT publisher"@
                    &&& Some(actor.c8y_http_proxy().sender) == self.links().http
                    &&& actor.c8y_http_proxy().name@ == HTTP_PROXY_NAME@
                    &&& Some(actor.timer_sender().sender) == self.links().timer
                    &&& actor.timer_sender().name@ == "ConfigManager timer"@
                    &&& actor@ == Seq::<KeySpec>::empty()
                },
                Err(error) => {
                    &&& self.links().missing() is Some
                    &&& error@ == (LinkErrorSpec::MissingPeer {
                        role: self.links().missing().unwrap(),
                    })
                },
            },
    {
        let mqtt_publisher = match self.mqtt_publisher {
            Some(sender) => sender,
            None => {
                return Err(LinkError::MissingPeer { role: String::from_str(ROLE_MQTT) });
            },
        };
        let c8y_http_proxy = match self.c8y_http_proxy {
            Some(sender) => sender,
            None => {
                return Err(LinkError::MissingPeer { role: String::from_str(ROLE_HTTP) });
            },
        };
        let timer_sender = match self.timer_sender {
            Some(sender) => sender,
            None => {
                return Err(LinkError::MissingPeer { role: String::from_str(ROLE_TIMER) });
            },
        };
        if !self.watching {
            return Err(LinkError::MissingPeer { role: String::from_str(ROLE_FS_WATCH) });
        }
        Ok(
            ConfigManagerActor {
                config: self.config,
                address: self.address,
                mqtt_publisher: LoggingSender::new(
                    String::from_str("ConfigManager MQTT publisher"),
                    mqtt_publisher,
                ),
                c8y_http_proxy: LoggingSender::new(
                    String::from_str(HTTP_PROXY_NAME),
                    c8y_http_proxy,
                ),
                timer_sender: LoggingSender::new(
                    String::from_str("ConfigManager timer"),
                    timer_sender,
                ),
                operations: OperationTracker::new(),
            },
        )
    }
}

/// How an operation stands, as reported to the cloud.
#[derive(Debug, Clone, Copy, PartialEq, Eq, Structural)]
pub enum OperationStatus {
    /// The operation has started.
    Executing,
    /// The operation succeeded.
    Successful,
    /// The operation failed.
    Failed,
    /// The operation did not come to an end in time, and counts as failed.
    TimedOut,
    /// The command was refused: an operation is in flight under its key.
    Rejected,
}

/// What comes into the actor's mailbox.
#[derive(Debug, Clone, PartialEq, Eq)]
pub enum ConfigInput {
    /// The cloud asks for the operation `key`.
    Command(ChildConfigOperationKey),
    /// The operation `key` came to its end on the device.
    Outcome { key: ChildConfigOperationKey, success: bool },
    /// The deadline of the operation has come.
    Expired(Timeout<ChildConfigOperationKey>),
}

/// An input as a mathematical value.
pub enum ConfigInputSpec {
    Command(KeySpec),
    Outcome { key: KeySpec, success: bool },
    Expired(KeySpec),
}

impl View for ConfigInput {
    type V = ConfigInputSpec;

    open spec fn view(&self) -> ConfigInputSpec {
        match self {
            ConfigInput::Command(key) => ConfigInputSpec::Command(key@),
            ConfigInput::Outcome { key, success } => ConfigInputSpec::Outcome {
                key: key@,
                success: *success,
            },
            ConfigInput::Expired(timeout) => ConfigInputSpec::Expired(timeout.key@),
        }
    }
}

impl ConfigInputSpec {
    /// The key of the operation that the input is about.
    pub open spec fn key(self) -> KeySpec {
        match self {
            ConfigInputSpec::Command(key) => key,
            ConfigInputSpec::Outcome { key, success } => key,
            ConfigInputSpec::Expired(key) => key,
        }
    }
}

/// A status of one operation, to be published.
#[derive(Debug, Clone, PartialEq, Eq)]
pub struct StatusUpdate {
    pub key: ChildConfigOperationKey,
    pub status: OperationStatus,
}

/// What the actor does on an input.
#[derive(Debug, Clone, PartialEq, Eq)]
pub struct Reaction {
    /// The timeout to ask the timer service for, if any.
    pub timer: Option<SetTimeout<ChildConfigOperationKey>>,
    /// The status to publish, if any.
    pub status: Option<StatusUpdate>,
}

/// A reaction as a mathematical value.
pub struct ReactionSpec {
    /// The duration and the key of the timeout asked for.
    pub timer: Option<(u64, KeySpec)>,
    /// The key and the status published.
    pub status: Option<(KeySpec, OperationStatus)>,
}

impl View for Reaction {
    type V = ReactionSpec;

    open spec fn view(&self) -> ReactionSpec {
        ReactionSpec {
            timer: match self.timer {
                Some(request) => Some((request.duration, request.key@)),
                None => None,
            },
            status: match self.status {
                Some(update) => Some((update.key@, update.status)),
                None => None,
            },
        }
    }
}

impl ReactionSpec {
    /// The reaction that does nothing.
    pub open spec fn nothing() -> Self {
        ReactionSpec { timer: None, status: None }
    }

    /// The reaction that publishes `status` for `key` and nothing else.
    pub open spec fn publish(key: KeySpec, status: OperationStatus) -> Self {
        ReactionSpec { timer: None, status: Some((key, status)) }
    }
}

/// What the actor does on `input` when the operations `active` are in flight
/// and an operation may take `timeout` units.
///
/// A command starts its operation with a timeout, unless one is in flight
/// under its key: then it is rejected. An outcome or an expired deadline is
/// published for an operation in flight and ignored for any other.
pub open spec fn reaction(active: Seq<KeySpec>, timeout: u64, input: ConfigInputSpec) -> ReactionSpec {
    match input {
        ConfigInputSpec::Command(key) => if in_flight(active, key) {
            ReactionSpec::publish(key, OperationStatus::Rejected)
        } else {
            ReactionSpec {
                timer: Some((timeout, key)),
                status: Some((key, OperationStatus::Executing)),
            }
        },
        ConfigInputSpec::Outcome { key, success } => if in_flight(active, key) {
            ReactionSpec::publish(
                key,
                if success {
                    OperationStatus::Successful
                } else {
                    OperationStatus::Failed
                },
            )
        } else {
            ReactionSpec::nothing()
        },
        ConfigInputSpec::Expired(key) => if in_flight(active, key) {
            ReactionSpec::publish(key, OperationStatus::TimedOut)
        } else {
            ReactionSpec::nothing()
        },
    }
}

/// The operations in flight after the actor handled `input`.
pub open spec fn in_flight_after(active: Seq<KeySpec>, input: ConfigInputSpec) -> Seq<KeySpec> {
    match input {
        ConfigInputSpec::Command(key) => started(active, key),
        ConfigInputSpec::Outcome { key, success } => ended(active, key),
        ConfigInputSpec::Expired(key) => ended(active, key),
    }
}

/// The actor that manages configuration files.
pub struct ConfigManagerActor {
    config: ConfigManagerConfig,
    address: DynSender,
    mqtt_publisher: LoggingSender,
    c8y_http_proxy: LoggingSender,
    timer_sender: LoggingSender,
    operations: OperationTracker,
}

impl View for ConfigManagerActor {
    type V = Seq<KeySpec>;

    /// The keys of the operations in flight, in the order of their start.
    closed spec fn view(&self) -> Seq<KeySpec> {
        self.operations@
    }
}

impl ConfigManagerActor {
    /// The settings that the actor runs with.
    pub closed spec fn config(&self) -> ConfigManagerConfig {
        self.config
    }

    /// The handle that addresses the actor.
    pub closed spec fn address(&self) -> DynSender {
        self.address
    }

    /// The handle for publishing over MQTT.
    pub closed spec fn mqtt_publisher(&self) -> LoggingSender {
        self.mqtt_publisher
    }

    /// The handle for requests to the HTTP service.
    pub closed spec fn c8y_http_proxy(&self) -> LoggingSender {
        self.c8y_http_proxy
    }

    /// Whether the actor cannot go on without the service behind `peer`: it
    /// needs the one it publishes through and the one that keeps its deadlines.
    pub open spec fn essential(&self, peer: DynSender) -> bool {
        peer == self.mqtt_publisher().sender || peer == self.timer_sender().sender
    }

    /// The handle for requests to the timer service.
    pub closed spec fn timer_sender(&self) -> LoggingSender {
        self.timer_sender
    }

    /// The handle that addresses the actor.
    pub fn own_address(&self) -> (sender: DynSender)
        ensures
            sender == self.address(),
    {
        self.address
    }

    /// The handle on which the actor publishes over MQTT.
    pub fn publisher(&self) -> (sender: DynSender)
        ensures
            sender == self.mqtt_publisher().sender,
    {
        self.mqtt_publisher.sender()
    }

    /// The handle on which the actor asks the HTTP service.
    pub fn http_proxy(&self) -> (sender: DynSender)
        ensures
            sender == self.c8y_http_proxy().sender,
    {
        self.c8y_http_proxy.sender()
    }

    /// The evidence that the actor is built, for the runtime.
    pub fn built(&self) -> (built: Built)
        ensures
            built.address() == self.address().target,
    {
        Built::new(self.address.target)
    }

    /// What follows for the actor when a send to `peer` failed because the
    /// peer has ended: without an essential peer the actor ends on a fault,
    /// and without any other it goes on and leaves that peer alone.
    pub fn on_send_error(&self, peer: &DynSender) -> (exit: Option<Exit>)
        ensures
            exit == if self.essential(*peer) {
                Some(Exit::Failed)
            } else {
                None
            },
    {
        if peer.target == self.mqtt_publisher.sender.target || peer.target
            == self.timer_sender.sender.target {
            Some(Exit::Failed)
        } else {
            None
        }
    }

    /// The handle on which the actor asks for timeouts.
    pub fn timer(&self) -> (sender: DynSender)
        ensures
            sender == self.timer_sender().sender,
    {
        self.timer_sender.sender()
    }

    /// The number of operations in flight.
    pub fn operations_in_flight(&self) -> (count: usize)
        ensures
            count == self@.len(),
            self@.no_duplicates(),
    {
        self.operations.len()
    }

    /// Whether an operation is in flight under `key`.
    pub fn is_active(&self, key: &ChildConfigOperationKey) -> (active: bool)
        ensures
            active == in_flight(self@, key@),
    {
        self.operations.is_active(key)
    }

    /// Handles one input and says what to do about it.
    pub fn handle(&mut self, input: ConfigInput) -> (reaction: Reaction)
        ensures
            reaction@ == self::reaction(old(self)@, old(self).config().operation_timeout, input@),
            final(self)@ == in_flight_after(old(self)@, input@),
            final(self)@.no_duplicates(),
            final(self).config() == old(self).config(),
            final(self).address() == old(self).address(),
            final(self).mqtt_publisher() == old(self).mqtt_publisher(),
            final(self).c8y_http_proxy() == old(self).c8y_http_proxy(),
            final(self).timer_sender() == old(self).timer_sender(),
    {
        match input {
            ConfigInput::Command(key) => {
                let for_timer = key.clone();
                let for_status = key.clone();
                match self.operations.begin(key) {
                    Ok(_) => Reaction {
                        timer: Some(
                            SetTimeout { duration: self.config.operation_timeout, key: for_timer },
                        ),
                        status: Some(
                            StatusUpdate { key: for_status, status: OperationStatus::Executing },
                        ),
                    },
                    Err(_) => Reaction {
                        timer: None,
                        status: Some(
                            StatusUpdate { key: for_status, status: OperationStatus::Rejected },
                        ),
                    },
                }
            },
            ConfigInput::Outcome { key, success } => {
                if self.operations.end(&key) {
                    let status = if success {
                        OperationStatus::Successful
                    } else {
                        OperationStatus::Failed
                    };
                    Reaction { timer: None, status: Some(StatusUpdate { key, status }) }
                } else {
                    Reaction { timer: None, status: None }
                }
            },
            ConfigInput::Expired(timeout) => {
                if self.operations.end(&timeout.key) {
                    Reaction {
                        timer: None,
                        status: Some(
                            StatusUpdate { key: timeout.key, status: OperationStatus::TimedOut },
                        ),
                    }
                } else {
                    Reaction { timer: None, status: None }
                }
            },
        }
    }
}

/// At most one operation is in flight under a key: whatever the actor
/// handles, the keys in flight stay distinct; and a command under a key in
/// flight is rejected and changes nothing.
pub proof fn lemma_one_operation_per_key(active: Seq<KeySpec>, timeout: u64, input: ConfigInputSpec)
    requires
        active.no_duplicates(),
    ensures
        in_flight_after(active, input).no_duplicates(),
        input is Command && in_flight(active, input.key()) ==> in_flight_after(active, input)
            == active && reaction(active, timeout, input) == ReactionSpec::publish(
            input.key(),
            OperationStatus::Rejected,
        ),
        input is Command ==> in_flight(in_flight_after(active, input), input.key()),
{
    lemma_started(active, input.key());
    lemma_ended(active, input.key());
}

/// A timeout that comes late changes nothing: once an operation has come to
/// its outcome, by a report from the device or by an earlier timeout, the
/// expiry of its deadline publishes nothing and leaves the operations in
/// flight as they are.
pub proof fn lemma_stale_timeout_is_ignored(
    active: Seq<KeySpec>,
    timeout: u64,
    key: KeySpec,
    success: bool,
)
    requires
        active.no_duplicates(),
    ensures
        ({
            let done = in_flight_after(active, ConfigInputSpec::Outcome { key, success });
            &&& reaction(done, timeout, ConfigInputSpec::Expired(key)) == ReactionSpec::nothing()
            &&& in_flight_after(done, ConfigInputSpec::Expired(key)) == done
        }),
        ({
            let expired = in_flight_after(active, ConfigInputSpec::Expired(key));
            &&& reaction(expired, timeout, ConfigInputSpec::Expired(key)) == ReactionSpec::nothing()
            &&& in_flight_after(expired, ConfigInputSpec::Expired(key)) == expired
        }),
        !in_flight(active, key) ==> reaction(active, timeout, ConfigInputSpec::Expired(key))
            == ReactionSpec::nothing() && in_flight_after(active, ConfigInputSpec::Expired(key))
            == active,
{
    lemma_ended(active, key);
}

} // verus!
