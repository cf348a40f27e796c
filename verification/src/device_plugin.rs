//! A device plugin as a whole: where it listens, what it announces, and how its
//! life goes on.

use std::sync::Arc;

use vstd::prelude::*;

use crate::registration::registration;
use crate::socket::file_name;
use crate::socket::file_name_or_path;
use crate::socket::kubelet_socket;
use crate::socket::sanitize_socket_name;
use crate::socket::socket_name;
use crate::v1beta1::RegisterRequest;
use crate::v1beta1::DEVICE_PLUGIN_PATH;
use crate::v1beta1::KUBELET_SOCKET;

verus! {

/// A plugin: the service it offers, the resource it offers it for, the socket it
/// listens on, and the socket of the kubelet.
#[derive(Debug)]
pub struct DevicePlugin<S> {
    endpoint: String,
    resource_name: String,
    service: Arc<S>,
    kubelet_socket: String,
}

/// What a [`DevicePlugin`] is made of.
pub struct DevicePluginView<S> {
    pub endpoint: Seq<char>,
    pub resource_name: Seq<char>,
    pub service: S,
    pub kubelet_socket: Seq<char>,
}

impl<S> View for DevicePlugin<S> {
    type V = DevicePluginView<S>;

    closed spec fn view(&self) -> DevicePluginView<S> {
        DevicePluginView {
            endpoint: self.endpoint@,
            resource_name: self.resource_name@,
            service: *self.service,
            kubelet_socket: self.kubelet_socket@,
        }
    }
}

impl<S> Clone for DevicePlugin<S> {
    fn clone(&self) -> (r: Self)
        ensures
            r@ == self@,
    {
        DevicePlugin {
            endpoint: self.endpoint.clone(),
            resource_name: self.resource_name.clone(),
            service: Arc::clone(&self.service),
            kubelet_socket: self.kubelet_socket.clone(),
        }
    }
}

/// The path of the socket `name` in the directory of the kubelet.
pub fn plugin_socket(name: &str) -> (r: String)
    ensures
        r@ == DEVICE_PLUGIN_PATH@ + name@,
{
    String::from_str(DEVICE_PLUGIN_PATH).concat(name)
}

/// What a plugin announces as its endpoint that listens on `endpoint`: the file
/// name of the socket, or the whole path where it has none.
pub open spec fn announced_endpoint(endpoint: Seq<char>) -> Seq<char> {
    match file_name(endpoint) {
        Some(name) => name,
        None => endpoint,
    }
}

impl<S> DevicePlugin<S> {
    /// The plugin that offers `service` for `resource_name`, on a socket named
    /// after the resource.
    pub fn new(resource_name: &str, service: S) -> (r: DevicePlugin<S>)
        ensures
            r@ == (DevicePluginView {
                endpoint: DEVICE_PLUGIN_PATH@ + socket_name(resource_name@),
                resource_name: resource_name@,
                service,
                kubelet_socket: kubelet_socket(),
            }),
    {
        DevicePlugin {
            endpoint: plugin_socket(sanitize_socket_name(resource_name).as_str()),
            resource_name: String::from_str(resource_name),
            service: Arc::new(service),
            kubelet_socket: Self::kubelet_socket_path(),
        }
    }

    /// The same with sockets in other places, where there is no kubelet.
    pub fn for_test(
        resource_name: &str,
        service: S,
        endpoint: String,
        kubelet_socket: String,
    ) -> (r: DevicePlugin<S>)
        ensures
            r@ == (DevicePluginView {
                endpoint: endpoint@,
                resource_name: resource_name@,
                service,
                kubelet_socket: kubelet_socket@,
            }),
    {
        DevicePlugin {
            endpoint,
            resource_name: String::from_str(resource_name),
            service: Arc::new(service),
            kubelet_socket,
        }
    }

    /// The path of the socket that the plugin listens on.
    pub fn endpoint(&self) -> (r: &str)
        ensures
            r@ == self@.endpoint,
    {
        self.endpoint.as_str()
    }

    /// The resource that the plugin serves.
    pub fn resource_name(&self) -> (r: &str)
        ensures
            r@ == self@.resource_name,
    {
        self.resource_name.as_str()
    }

    /// The service that the plugin offers.
    pub fn service(&self) -> (r: Arc<S>)
        ensures
            *r == self@.service,
    {
        Arc::clone(&self.service)
    }

    /// The path of the kubelet's registration socket on a host.
    pub fn kubelet_socket_path() -> (r: String)
        ensures
            r@ == kubelet_socket(),
    {
        plugin_socket(KUBELET_SOCKET)
    }

    /// The path of the kubelet's registration socket.
    pub fn kubelet_socket(&self) -> (r: &str)
        ensures
            r@ == self@.kubelet_socket,
    {
        self.kubelet_socket.as_str()
    }

    /// What the plugin announces as its endpoint.
    pub fn registration_endpoint(&self) -> (r: &str)
        ensures
            r@ == announced_endpoint(self@.endpoint),
    {
        file_name_or_path(self.endpoint.as_str())
    }

    /// What the plugin tells the kubelet to register.
    pub fn register(&self) -> (r: RegisterRequest)
        ensures
            r@ == registration(announced_endpoint(self@.endpoint), self@.resource_name),
    {
        RegisterRequest::new(self.registration_endpoint(), self.resource_name.as_str())
    }
}

/// A plugin that is named after its resource announces the bare socket name.
pub proof fn announces_the_socket_name(resource_name: Seq<char>)
    ensures
        announced_endpoint(DEVICE_PLUGIN_PATH@ + socket_name(resource_name)) == socket_name(
            resource_name,
        ),
{
    crate::socket::endpoint_file_name_is_the_socket_name(resource_name);
}

/// Where a running plugin stands.
#[derive(Clone, Copy, Debug, PartialEq, Eq, Structural)]
pub enum RunState {
    /// The server is being started.
    Starting,
    /// The server runs; the plugin begins to listen for the signal that the
    /// kubelet is gone.
    Subscribing,
    /// The plugin listens for the signal, and registers.
    Registering,
    /// The plugin is registered, until the server stops or the kubelet goes.
    Serving,
    /// The plugin has stopped.
    Stopped,
}

/// What can happen to a running plugin.
#[derive(Debug)]
pub enum RunEvent<E> {
    /// The server has been started, or could not be.
    Started(Result<(), E>),
    /// The plugin listens for the signal that the kubelet is gone: none that
    /// comes from now on is missed.
    Subscribed,
    /// The registration, with all its attempts, has ended.
    Registered(Result<(), E>),
    /// The server task has ended: it panicked or was cancelled (the outer
    /// error), or it returned.
    ServerStopped(Result<Result<(), E>, E>),
    /// The kubelet has disconnected.
    KubeletGone,
}

/// What a running plugin does next.
#[derive(Debug)]
pub enum RunAction<E> {
    /// Begin to listen for the signal that the kubelet is gone.
    Subscribe,
    /// Register.
    Register,
    /// Wait for the server to stop or for the signal listened for.
    Wait,
    /// Abort the server and return this error.
    AbortAndFail(E),
    /// Return this.
    Return(Result<(), E>),
}

impl RunState {
    /// What can happen in this state.
    pub open spec fn expects<E>(self, event: RunEvent<E>) -> bool {
        match self {
            RunState::Starting => event is Started,
            RunState::Subscribing => event is Subscribed,
            RunState::Registering => event is Registered,
            RunState::Serving => event is ServerStopped || event is KubeletGone,
            RunState::Stopped => false,
        }
    }

    /// The state after `event`.
    pub open spec fn after<E>(self, event: RunEvent<E>) -> RunState {
        match event {
            RunEvent::Started(Ok(_)) => RunState::Subscribing,
            RunEvent::Subscribed => RunState::Registering,
            RunEvent::Registered(Ok(_)) => RunState::Serving,
            RunEvent::KubeletGone => RunState::Subscribing,
            _ => RunState::Stopped,
        }
    }

    /// Takes what has happened and says what to do next.
    pub fn step<E>(&mut self, event: RunEvent<E>) -> (r: RunAction<E>)
        requires
            old(self).expects(event),
        ensures
            *final(self) == old(self).after(event),
            r == run_action(event),
    {
        match event {
            RunEvent::Started(Ok(_)) => {
                *self = RunState::Subscribing;
                RunAction::Subscribe
            },
            RunEvent::Subscribed => {
                *self = RunState::Registering;
                RunAction::Register
            },
            RunEvent::Started(Err(err)) => {
                *self = RunState::Stopped;
                RunAction::Return(Err(err))
            },
            RunEvent::Registered(Ok(_)) => {
                *self = RunState::Serving;
                RunAction::Wait
            },
            RunEvent::Registered(Err(err)) => {
                *self = RunState::Stopped;
                RunAction::AbortAndFail(err)
            },
            RunEvent::ServerStopped(Ok(result)) => {
                *self = RunState::Stopped;
                RunAction::Return(result)
            },
            RunEvent::ServerStopped(Err(err)) => {
                *self = RunState::Stopped;
                RunAction::Return(Err(err))
            },
            RunEvent::KubeletGone => {
                *self = RunState::Subscribing;
                RunAction::Subscribe
            },
        }
    }
}

/// What a running plugin does after `event`.
pub open spec fn run_action<E>(event: RunEvent<E>) -> RunAction<E> {
    match event {
        RunEvent::Started(Ok(_)) => RunAction::Subscribe,
        RunEvent::Subscribed => RunAction::Register,
        RunEvent::Started(Err(err)) => RunAction::Return(Err(err)),
        RunEvent::Registered(Ok(_)) => RunAction::Wait,
        RunEvent::Registered(Err(err)) => RunAction::AbortAndFail(err),
        RunEvent::ServerStopped(Ok(result)) => RunAction::Return(result),
        RunEvent::ServerStopped(Err(err)) => RunAction::Return(Err(err)),
        RunEvent::KubeletGone => RunAction::Subscribe,
    }
}

/// The state after `events`, from the start on.
pub open spec fn run_state<E>(events: Seq<RunEvent<E>>) -> RunState
    decreases events.len(),
{
    if events.len() == 0 {
        RunState::Starting
    } else {
        run_state(events.drop_last()).after(events.last())
    }
}

/// Each of `events` could happen where the plugin stood.
pub open spec fn possible_run<E>(events: Seq<RunEvent<E>>) -> bool {
    forall|i: int|
        0 <= i < events.len() ==> run_state(#[trigger] events.take(i)).expects(events[i])
}

/// Whenever the kubelet disconnects from a plugin that serves, the plugin
/// subscribes to the signal anew, and then registers again.
pub proof fn kubelet_loss_leads_to_registration<E>(events: Seq<RunEvent<E>>)
    requires
        possible_run(events),
        events.len() > 0,
        events.last() is KubeletGone,
    ensures
        run_state(events.drop_last()) == RunState::Serving,
        run_action(events.last()) == RunAction::<E>::Subscribe,
        run_state(events) == RunState::Subscribing,
        run_action(RunEvent::<E>::Subscribed) == RunAction::<E>::Register,
{
    assert(events.take(events.len() - 1) =~= events.drop_last());
    assert(run_state(events.take(events.len() - 1)).expects(events[events.len() - 1]));
}

/// A plugin stops for three reasons only: its server could not be started, its
/// registration failed for good, or its server stopped. Only a failed
/// registration leaves a server behind, which is aborted.
pub proof fn run_stops_only_on_failure_or_server_end<E>(events: Seq<RunEvent<E>>)
    requires
        possible_run(events),
        events.len() > 0,
    ensures
        run_state(events) == RunState::Stopped <==> {
            let last = events.last();
            ||| last matches RunEvent::Started(Err(_))
            ||| last matches RunEvent::Registered(Err(_))
            ||| last is ServerStopped
        },
        run_action(events.last()) is AbortAndFail <==> events.last() matches RunEvent::Registered(
            Err(_),
        ),
        forall|i: int| 0 <= i < events.len() - 1 ==> run_state(#[trigger] events.take(i + 1))
            != RunState::Stopped,
{
    assert forall|i: int| 0 <= i < events.len() - 1 implies run_state(#[trigger] events.take(i + 1))
        != RunState::Stopped by {
        assert(run_state(events.take(i + 1)).expects(events[i + 1]));
    }
}

/// Every registration comes right behind a subscription, so a kubelet that
/// disconnects during the registration or later is not missed.
pub proof fn subscribes_before_registering<E>(events: Seq<RunEvent<E>>, i: int)
    requires
        possible_run(events),
        0 <= i < events.len(),
        events[i] is Registered,
    ensures
        i > 0,
        events[i - 1] is Subscribed,
        i > 1,
        events[i - 2] is KubeletGone || i == 2,
{
    assert(run_state(events.take(i)).expects(events[i]));
    assert(run_state(events.take(i - 1)).expects(events[i - 1]));
    assert(events.take(i).last() == events[i - 1]);
    assert(events.take(i).drop_last() =~= events.take(i - 1));
    assert(events.take(i - 1).last() == events[i - 2]);
    assert(run_state(events.take(i - 2)).expects(events[i - 2]));
    assert(events.take(i - 1).drop_last() =~= events.take(i - 2));
    server_is_started_once(events, i - 2);
}

/// The server is started once, at the beginning: no later registration starts
/// another.
pub proof fn server_is_started_once<E>(events: Seq<RunEvent<E>>, i: int)
    requires
        possible_run(events),
        0 <= i < events.len(),
    ensures
        events[i] is Started <==> i == 0,
{
    assert(run_state(events.take(i)).expects(events[i]));
    if i > 0 {
        assert(events.take(i).len() > 0);
    }
}

/// A plugin announces the file name of the socket it listens on, and the whole
/// path only where it has none: where the path is empty, is the root, or ends in
/// two dots.
pub proof fn announces_the_file_name(directory: Seq<char>, name: Seq<char>)
    requires
        name.len() > 0,
        !name.contains('/'),
        name != seq!['.'],
    ensures
        announced_endpoint(directory.push('/') + name) == (if name == seq!['.', '.'] {
            directory.push('/') + name
        } else {
            name
        }),
        announced_endpoint(name) == name,
{
    crate::socket::file_name_names_the_entry(directory, name);
    crate::socket::file_name_of_a_bare_name(name);
}

/// What a plugin returns is what ended it: the reason why the server could not be
/// started, the reason why the registration failed, or what the server task ended
/// in. A registered plugin waits.
pub proof fn run_returns_what_ended_it<E>(event: RunEvent<E>)
    ensures
        match event {
            RunEvent::Started(Err(err)) => run_action(event) == RunAction::Return(Err(err)),
            RunEvent::Registered(Err(err)) => run_action(event) == RunAction::AbortAndFail(err),
            RunEvent::ServerStopped(Err(err)) => run_action(event) == RunAction::Return(Err(err)),
            RunEvent::ServerStopped(Ok(Err(err))) => run_action(event) == RunAction::Return(
                Err(err),
            ),
            RunEvent::ServerStopped(Ok(Ok(_))) => run_action(event) matches RunAction::Return(
                Ok(_),
            ),
            RunEvent::Registered(Ok(_)) => run_action(event) == RunAction::<E>::Wait,
            RunEvent::Started(Ok(_)) => run_action(event) == RunAction::<E>::Subscribe,
            RunEvent::Subscribed => run_action(event) == RunAction::<E>::Register,
            RunEvent::KubeletGone => run_action(event) == RunAction::<E>::Subscribe,
        },
{
}

/// As long as nothing fails, a plugin goes round: it subscribes, registers and
/// serves, and begins anew whenever the kubelet disconnects.
pub proof fn run_goes_round<E>(events: Seq<RunEvent<E>>, i: int)
    requires
        possible_run(events),
        0 < i < events.len(),
    ensures
        events[i] is Subscribed <==> i % 3 == 1,
        events[i] is Registered <==> i % 3 == 2,
        events[i] is KubeletGone || events[i] is ServerStopped <==> i % 3 == 0,
    decreases i,
{
    assert(run_state(events.take(i)).expects(events[i]));
    assert(events.take(i).last() == events[i - 1]);
    assert(events.take(i).drop_last() =~= events.take(i - 1));
    assert(run_state(events.take(i - 1)).expects(events[i - 1]));
    server_is_started_once(events, i - 1);
    if i > 1 {
        run_goes_round(events, i - 1);
    }
}

} // verus!
