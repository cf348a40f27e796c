//! The stream of device lists that a plugin sends to the kubelet.

use vstd::prelude::*;

use crate::device::all_announced;
use crate::device::every_device_is_announced;
use crate::device::Device;
use crate::device::DeviceView;
use crate::duration::Duration;
use crate::snapshot::devices_equal_ignoring_order;
use crate::snapshot::health_changes_are_noticed;
use crate::snapshot::same_devices;
use crate::snapshot::same_snapshots_match_one_to_one;
use crate::v1beta1;
use crate::v1beta1::ListAndWatchResponse;
use crate::views;

verus! {

/// Where a watch stands.
#[derive(Clone, Copy, Debug, PartialEq, Eq, Structural)]
pub enum WatchState {
    /// The first list is being handed to the stream.
    Opening,
    /// The pause before the next poll goes by.
    Pausing,
    /// A changed list is being sent.
    Sending,
    /// The kubelet is gone, and has been reported gone.
    Ended,
}

/// What can happen while the kubelet watches the devices.
#[derive(Debug)]
pub enum WatchEvent {
    /// The first list has been handed to the stream, whether or not it arrives.
    Opened,
    /// The pause has gone by, and these are the devices now.
    Polled(Vec<Device>),
    /// A changed list has been sent.
    Sent,
    /// A changed list could not be sent, as the kubelet has dropped the stream.
    SendFailed,
    /// The kubelet has dropped the stream.
    StreamClosed,
}

/// What a [`WatchEvent`] says.
pub enum WatchEventView {
    Opened,
    Polled(Seq<DeviceView>),
    Sent,
    SendFailed,
    StreamClosed,
}

impl View for WatchEvent {
    type V = WatchEventView;

    open spec fn view(&self) -> WatchEventView {
        match self {
            WatchEvent::Opened => WatchEventView::Opened,
            WatchEvent::Polled(devices) => WatchEventView::Polled(views(devices@)),
            WatchEvent::Sent => WatchEventView::Sent,
            WatchEvent::SendFailed => WatchEventView::SendFailed,
            WatchEvent::StreamClosed => WatchEventView::StreamClosed,
        }
    }
}

impl WatchEventView {
    /// The event tells that the kubelet has dropped the stream.
    pub open spec fn tells_of_the_end(self) -> bool {
        self is SendFailed || self is StreamClosed
    }
}

/// What to do next while the kubelet watches the devices.
#[derive(Debug)]
pub enum WatchAction {
    /// Pause for this long, then poll; or see the stream dropped before.
    Wait(Duration),
    /// Send this device list.
    Send(ListAndWatchResponse),
    /// Signal that the kubelet is gone, and do nothing more.
    KubeletGone,
}

/// What a [`WatchAction`] says.
pub enum WatchActionView {
    Wait(int),
    Send(Seq<v1beta1::DeviceView>),
    KubeletGone,
}

impl View for WatchAction {
    type V = WatchActionView;

    open spec fn view(&self) -> WatchActionView {
        match self {
            WatchAction::Wait(pause) => WatchActionView::Wait(pause@),
            WatchAction::Send(response) => WatchActionView::Send(response@),
            WatchAction::KubeletGone => WatchActionView::KubeletGone,
        }
    }
}

/// A watch of the devices: the list that was sent last, how long to pause before
/// each poll, and where the watch stands.
#[derive(Debug)]
pub struct DeviceWatch {
    last_devices: Vec<Device>,
    poll_interval: Duration,
    state: WatchState,
}

/// What a [`DeviceWatch`] says.
pub struct DeviceWatchView {
    pub last: Seq<DeviceView>,
    pub poll_interval: int,
    pub state: WatchState,
}

impl View for DeviceWatch {
    type V = DeviceWatchView;

    closed spec fn view(&self) -> DeviceWatchView {
        DeviceWatchView {
            last: views(self.last_devices@),
            poll_interval: self.poll_interval@,
            state: self.state,
        }
    }
}

/// A watch that begins with `devices`, and pauses for `poll_interval` before each
/// poll.
pub open spec fn opening(devices: Seq<DeviceView>, poll_interval: int) -> DeviceWatchView {
    DeviceWatchView { last: devices, poll_interval, state: WatchState::Opening }
}

impl DeviceWatchView {
    /// What can happen where the watch stands.
    pub open spec fn expects(self, event: WatchEventView) -> bool {
        match self.state {
            WatchState::Opening => event is Opened,
            WatchState::Pausing => event is Polled || event is StreamClosed,
            WatchState::Sending => event is Sent || event is SendFailed,
            WatchState::Ended => false,
        }
    }

    /// The watch after `event`.
    pub open spec fn after(self, event: WatchEventView) -> DeviceWatchView {
        match event {
            WatchEventView::Opened => DeviceWatchView { state: WatchState::Pausing, ..self },
            WatchEventView::Polled(devices) => if same_devices(devices, self.last) {
                DeviceWatchView { state: WatchState::Pausing, ..self }
            } else {
                DeviceWatchView { state: WatchState::Sending, last: devices, ..self }
            },
            WatchEventView::Sent => DeviceWatchView { state: WatchState::Pausing, ..self },
            WatchEventView::SendFailed => DeviceWatchView { state: WatchState::Ended, ..self },
            WatchEventView::StreamClosed => DeviceWatchView { state: WatchState::Ended, ..self },
        }
    }

    /// What the watch does after `event`.
    pub open spec fn action(self, event: WatchEventView) -> WatchActionView {
        match event {
            WatchEventView::Opened => WatchActionView::Wait(self.poll_interval),
            WatchEventView::Polled(devices) => if same_devices(devices, self.last) {
                WatchActionView::Wait(self.poll_interval)
            } else {
                WatchActionView::Send(all_announced(devices))
            },
            WatchEventView::Sent => WatchActionView::Wait(self.poll_interval),
            WatchEventView::SendFailed => WatchActionView::KubeletGone,
            WatchEventView::StreamClosed => WatchActionView::KubeletGone,
        }
    }
}

impl DeviceWatch {
    /// Begins to watch, with `devices` as the first list, which is sent in any
    /// case, and a pause of `poll_interval` before each poll.
    pub fn begin(devices: Vec<Device>, poll_interval: Duration) -> (r: (
        DeviceWatch,
        ListAndWatchResponse,
    ))
        ensures
            r.0@ == opening(views(devices@), poll_interval@),
            r.1@ == all_announced(views(devices@)),
    {
        let response: ListAndWatchResponse = ListAndWatchResponse::of_devices(&devices);
        (
            DeviceWatch { last_devices: devices, poll_interval, state: WatchState::Opening },
            response,
        )
    }

    /// Takes what has happened and says what to do next.
    pub fn step(&mut self, event: WatchEvent) -> (r: WatchAction)
        requires
            old(self)@.expects(event@),
        ensures
            final(self)@ == old(self)@.after(event@),
            r@ == old(self)@.action(event@),
    {
        match event {
            WatchEvent::Polled(devices) => {
                if devices_equal_ignoring_order(devices.as_slice(), self.last_devices.as_slice()) {
                    self.state = WatchState::Pausing;
                    WatchAction::Wait(self.poll_interval)
                } else {
                    let response: ListAndWatchResponse = ListAndWatchResponse::of_devices(&devices);
                    self.last_devices = devices;
                    self.state = WatchState::Sending;
                    WatchAction::Send(response)
                }
            },
            WatchEvent::Opened => {
                self.state = WatchState::Pausing;
                WatchAction::Wait(self.poll_interval)
            },
            WatchEvent::Sent => {
                self.state = WatchState::Pausing;
                WatchAction::Wait(self.poll_interval)
            },
            WatchEvent::SendFailed => {
                self.state = WatchState::Ended;
                WatchAction::KubeletGone
            },
            WatchEvent::StreamClosed => {
                self.state = WatchState::Ended;
                WatchAction::KubeletGone
            },
        }
    }
}

/// The watch that began as `first`, after `events`.
pub open spec fn watch_after(
    first: DeviceWatchView,
    events: Seq<WatchEventView>,
) -> DeviceWatchView
    decreases events.len(),
{
    if events.len() == 0 {
        first
    } else {
        watch_after(first, events.drop_last()).after(events.last())
    }
}

/// What a watch that began as `first` does after the `i`-th of `events`.
pub open spec fn nth_action(
    first: DeviceWatchView,
    events: Seq<WatchEventView>,
    i: int,
) -> WatchActionView {
    watch_after(first, events.take(i)).action(events[i])
}

/// Each of `events` could happen where the watch stood that began as `first`.
pub open spec fn possible_watch(first: DeviceWatchView, events: Seq<WatchEventView>) -> bool {
    forall|i: int|
        0 <= i < events.len() ==> watch_after(first, #[trigger] events.take(i)).expects(events[i])
}

/// The kubelet always knows the devices as they were at the last poll: whatever
/// happened before, what was last sent holds the same devices.
pub proof fn kubelet_is_up_to_date(
    first: DeviceWatchView,
    events: Seq<WatchEventView>,
    devices: Seq<DeviceView>,
)
    ensures
        same_devices(
            watch_after(first, events.push(WatchEventView::Polled(devices))).last,
            devices,
        ),
{
    let all = events.push(WatchEventView::Polled(devices));
    assert(all.drop_last() =~= events);
}

/// A list is sent when the devices have changed since the last one, and only
/// then: unchanged devices are not repeated, in whatever order they are listed
/// and however their paths are spelled.
pub proof fn only_changes_are_sent(watch: DeviceWatchView, devices: Seq<DeviceView>)
    ensures
        watch.action(WatchEventView::Polled(devices)) == (if same_devices(devices, watch.last) {
            WatchActionView::Wait(watch.poll_interval)
        } else {
            WatchActionView::Send(all_announced(devices))
        }),
{
}

/// The interval of a watch never changes.
proof fn interval_is_kept(first: DeviceWatchView, events: Seq<WatchEventView>)
    ensures
        watch_after(first, events).poll_interval == first.poll_interval,
    decreases events.len(),
{
    if events.len() > 0 {
        interval_is_kept(first, events.drop_last());
    }
}

/// The kubelet is reported gone when an event tells that it has dropped the
/// stream, and only then; nothing happens after that, so it is reported once, and
/// no poll follows.
pub proof fn kubelet_is_reported_gone_once(
    devices: Seq<DeviceView>,
    poll_interval: int,
    events: Seq<WatchEventView>,
    i: int,
)
    requires
        possible_watch(opening(devices, poll_interval), events),
        0 <= i < events.len(),
    ensures
        nth_action(opening(devices, poll_interval), events, i) is KubeletGone
            <==> events[i].tells_of_the_end(),
        events[i].tells_of_the_end() ==> i == events.len() - 1,
        watch_after(opening(devices, poll_interval), events).state == WatchState::Ended
            <==> events.last().tells_of_the_end(),
{
    let first = opening(devices, poll_interval);
    if i < events.len() - 1 {
        assert(watch_after(first, events.take(i + 1)).expects(events[i + 1]));
        assert(events.take(i + 1).drop_last() =~= events.take(i));
        assert(events.take(i + 1).last() == events[i]);
    }
}

/// A watch that has not ended goes on: the stream, when the kubelet drops it, is
/// seen dropped while the watch pauses or sends.
pub proof fn dropped_stream_is_noticed(
    devices: Seq<DeviceView>,
    poll_interval: int,
    events: Seq<WatchEventView>,
)
    requires
        possible_watch(opening(devices, poll_interval), events),
    ensures
        ({
            let watch = watch_after(opening(devices, poll_interval), events);
            ||| watch.state == WatchState::Ended
            ||| watch.state == WatchState::Opening && events.len() == 0
            ||| watch.expects(WatchEventView::StreamClosed)
            ||| watch.expects(WatchEventView::SendFailed)
        }),
{
}

/// Before each poll the watch has been told to pause for the poll interval, right
/// after the list, the poll or the sending before.
pub proof fn each_poll_follows_the_pause(
    devices: Seq<DeviceView>,
    poll_interval: int,
    events: Seq<WatchEventView>,
    i: int,
)
    requires
        possible_watch(opening(devices, poll_interval), events),
        0 <= i < events.len(),
        events[i] is Polled,
    ensures
        i > 0,
        nth_action(opening(devices, poll_interval), events, i - 1) == WatchActionView::Wait(
            poll_interval,
        ),
{
    let first = opening(devices, poll_interval);
    assert(watch_after(first, events.take(i)).expects(events[i]));
    if i > 0 {
        assert(events.take(i).drop_last() =~= events.take(i - 1));
        assert(events.take(i).last() == events[i - 1]);
        interval_is_kept(first, events.take(i - 1));
    }
}

/// A device whose health has changed since the last list, or that was not on it,
/// has the whole new list sent: every device with its id and the word for its
/// health. The next poll is compared with that list.
pub proof fn health_change_is_sent(watch: DeviceWatchView, devices: Seq<DeviceView>, i: int)
    requires
        0 <= i < devices.len(),
        forall|k: int|
            0 <= k < watch.last.len() ==> (#[trigger] watch.last[k]).id != devices[i].id
                || watch.last[k].health != devices[i].health,
    ensures
        watch.action(WatchEventView::Polled(devices)) matches WatchActionView::Send(told) && {
            &&& told.len() == devices.len()
            &&& forall|k: int| 0 <= k < told.len() ==> (#[trigger] told[k]).id == devices[k].id
            &&& forall|k: int|
                0 <= k < told.len() ==> (#[trigger] told[k]).health == devices[k].health.text()
        },
        watch.after(WatchEventView::Polled(devices)).last == devices,
{
    health_changes_are_noticed(devices, watch.last, i);
    every_device_is_announced(devices);
}

/// A poll that is answered by waiting found as many devices as were sent last,
/// each with a counterpart of its own there: nothing that the kubelet should be
/// told is kept from it.
pub proof fn waiting_means_nothing_changed(
    watch: DeviceWatchView,
    devices: Seq<DeviceView>,
) -> (order: Seq<int>)
    requires
        watch.action(WatchEventView::Polled(devices)) is Wait,
    ensures
        devices.len() == watch.last.len() == order.len(),
        order.no_duplicates(),
        forall|i: int|
            0 <= i < order.len() ==> {
                let k = #[trigger] order[i];
                &&& 0 <= k < watch.last.len()
                &&& devices[i].id == watch.last[k].id
                &&& devices[i].health == watch.last[k].health
                &&& devices[i].paths.len() == watch.last[k].paths.len()
            },
        watch.after(WatchEventView::Polled(devices)).last == watch.last,
{
    same_snapshots_match_one_to_one(devices, watch.last)
}

/// Nothing but a poll that finds changes has a list sent, and what is compared
/// with changes with what is sent only.
pub proof fn only_polls_have_lists_sent(watch: DeviceWatchView, event: WatchEventView)
    ensures
        watch.action(event) is Send ==> event is Polled,
        watch.after(event).last != watch.last ==> watch.action(event) is Send,
{
}

/// Nothing is sent twice: devices that are polled again after they were the first
/// list, or after they were found at the poll before, are waited out, in whatever
/// order they come the second time.
pub proof fn nothing_is_sent_twice(
    watch: DeviceWatchView,
    devices: Seq<DeviceView>,
    again: Seq<DeviceView>,
    poll_interval: int,
)
    requires
        same_devices(again, devices),
    ensures
        opening(devices, poll_interval).after(WatchEventView::Opened).action(
            WatchEventView::Polled(again),
        ) == WatchActionView::Wait(poll_interval),
        watch.after(WatchEventView::Polled(devices)).action(WatchEventView::Polled(again))
            == WatchActionView::Wait(watch.poll_interval),
        watch.after(WatchEventView::Polled(devices)).after(WatchEventView::Sent).action(
            WatchEventView::Polled(again),
        ) == WatchActionView::Wait(watch.poll_interval),
{
}

} // verus!
