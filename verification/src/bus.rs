//! The event bus: one broadcast channel from every publisher to every subscriber.
//!
//! Publishing never blocks. An event reaches the subscribers that exist when it is
//! sent; with none it is dropped, which is expected while the application starts.
//! A subscriber that falls behind loses the oldest events and is told how many.

use tokio::sync::broadcast;
use vstd::arithmetic::power2::is_pow2;
use vstd::prelude::*;

verus! {

/// How many events the default bus holds for a subscriber that lags behind.
pub const DEFAULT_CHANNEL_CAPACITY: usize = 256;

/// An application event.
#[derive(Debug, PartialEq, Eq)]
pub enum AppEvent {
    /// A toggle request of a module has settled; `is_running` is what the module
    /// says of itself afterwards.
    ModuleStatusChanged { id: String, is_running: bool },
    /// A line for the application log.
    AppLogAppended { level: String, message: String },
    /// A command from the tray icon.
    TrayAction(TrayAction),
    /// A background thread asks for a toast.
    ToastRequested(String),
}

impl Clone for AppEvent {
    fn clone(&self) -> (r: Self)
        ensures
            r == *self,
    {
        match self {
            AppEvent::ModuleStatusChanged { id, is_running } => AppEvent::ModuleStatusChanged {
                id: id.clone(),
                is_running: *is_running,
            },
            AppEvent::AppLogAppended { level, message } => AppEvent::AppLogAppended {
                level: level.clone(),
                message: message.clone(),
            },
            AppEvent::TrayAction(action) => AppEvent::TrayAction(*action),
            AppEvent::ToastRequested(text) => AppEvent::ToastRequested(text.clone()),
        }
    }
}

/// Whether `event` is a request for a toast with this text.
pub open spec fn is_toast(event: AppEvent, text: Seq<char>) -> bool {
    event matches AppEvent::ToastRequested(t) && t@ == text
}

/// What the user asks for through the tray icon.
#[derive(Debug, Clone, Copy, PartialEq, Eq, Structural)]
pub enum TrayAction {
    /// Show the main window.
    ShowWindow,
    /// Switch every module on or off.
    ToggleAllModules(bool),
    /// Restart with administrator rights.
    RestartAsAdmin,
    /// Leave the program.
    ExitApp,
}

/// `tokio::sync::broadcast::Sender`, the sending half of a broadcast channel.
#[verifier::external_type_specification]
#[verifier::external_body]
#[verifier::reject_recursive_types(T)]
pub struct ExSender<T>(broadcast::Sender<T>);

/// `tokio::sync::broadcast::Receiver`, one subscription to a broadcast channel.
#[verifier::external_type_specification]
#[verifier::external_body]
#[verifier::reject_recursive_types(T)]
pub struct ExReceiver<T>(broadcast::Receiver<T>);

/// What is sent over the channel of a `tokio::sync::broadcast::Sender` in all its life,
/// each event with what came of it: the number of subscriptions that it was handed to, or
/// the event given back.
pub uninterp spec fn sends(sender: broadcast::Sender<AppEvent>) -> Set<
    (AppEvent, Result<usize, AppEvent>),
>;

/// What is sent in all its life over the channel that a
/// `tokio::sync::broadcast::Receiver` is subscribed to, as [`sends`] has it.
pub uninterp spec fn heard(receiver: broadcast::Receiver<AppEvent>) -> Set<
    (AppEvent, Result<usize, AppEvent>),
>;

/// How many events the channel of a `tokio::sync::broadcast::Sender` holds for a
/// subscription that lags behind. It stays as the channel was made.
pub uninterp spec fn room(sender: broadcast::Sender<AppEvent>) -> nat;

/// Whether `size` is the least power of two that is not below `capacity`.
pub open spec fn rounded_up(capacity: usize, size: nat) -> bool {
    is_pow2(size as int) && capacity <= size < 2 * capacity
}

/// `tokio::sync::broadcast::channel`: a new channel with its first subscription, which
/// holds as many events as were asked for, rounded up to a power of two. It panics on a
/// capacity of zero or above half the address range, which the precondition leaves out.
/// Nothing is claimed of the subscription.
#[verifier::external_body]
fn open_channel(capacity: usize) -> (r: (
    broadcast::Sender<AppEvent>,
    broadcast::Receiver<AppEvent>,
))
    requires
        0 < capacity <= usize::MAX / 2,
    ensures
        rounded_up(capacity, room(r.0)),
{
    broadcast::channel(capacity)
}

/// `tokio::sync::broadcast::Sender::send`: hands the event to the subscriptions that
/// exist at that moment. It succeeds with their number, which is at least one, or
/// gives the event back when there is none. How many there are is decided by
/// whoever subscribed. The event and what came of it are among the sends of the channel.
#[verifier::external_body]
fn send(sender: &broadcast::Sender<AppEvent>, event: AppEvent) -> (r: Result<usize, AppEvent>)
    ensures
        match r {
            Ok(subscribers) => subscribers >= 1,
            Err(returned) => returned == event,
        },
        sends(*sender).contains((event, r)),
{
    sender.send(event).map_err(|e| e.0)
}

/// `tokio::sync::broadcast::Sender::subscribe`: a subscription to this very channel. It
/// receives what is sent from now on; which of the sends these are is decided by when it
/// is made, and nothing is claimed of that.
#[verifier::external_body]
fn new_subscription(sender: &broadcast::Sender<AppEvent>) -> (r: broadcast::Receiver<AppEvent>)
    ensures
        heard(r) == sends(*sender),
{
    sender.subscribe()
}

/// `tokio::sync::broadcast::Sender::clone`: a second handle to the same channel. A handle
/// stands for the channel that it leads to, so the two are equal.
#[verifier::external_body]
fn same_channel(sender: &broadcast::Sender<AppEvent>) -> (r: broadcast::Sender<AppEvent>)
    ensures
        r == *sender,
{
    sender.clone()
}

/// How many subscribers an attempt to send reached: none when the event came back.
pub fn delivered(outcome: &Result<usize, AppEvent>) -> (n: usize)
    ensures
        n == (match *outcome {
            Ok(subscribers) => subscribers,
            Err(_) => 0usize,
        }),
{
    match outcome {
        Ok(subscribers) => *subscribers,
        Err(_) => 0,
    }
}

/// A handle to the event bus. Cloning it gives another handle to the same bus.
pub struct EventBus {
    sender: broadcast::Sender<AppEvent>,
}

impl Clone for EventBus {
    fn clone(&self) -> (r: Self)
        ensures
            r == *self,
    {
        EventBus { sender: same_channel(&self.sender) }
    }
}

impl EventBus {
    /// The channel behind the bus.
    pub closed spec fn channel(&self) -> broadcast::Sender<AppEvent> {
        self.sender
    }

    /// A bus that holds `capacity` events, rounded up to a power of two, for a subscriber
    /// that lags behind.
    pub fn new(capacity: usize) -> (r: Self)
        requires
            0 < capacity <= usize::MAX / 2,
        ensures
            rounded_up(capacity, room(r.channel())),
    {
        let (sender, _first) = open_channel(capacity);
        EventBus { sender }
    }

    /// Sends `event` to the current subscribers and returns how many there were.
    /// Without any the event is dropped and the result is zero.
    pub fn publish(&self, event: AppEvent) -> (n: usize)
        ensures
            sends(self.channel()).contains(
                (
                    event,
                    if n > 0 {
                        Ok(n)
                    } else {
                        Err(event)
                    },
                ),
            ),
    {
        let outcome = send(&self.sender, event);
        delivered(&outcome)
    }

    /// A subscription to the events that are published from now on.
    pub fn subscribe(&self) -> (r: broadcast::Receiver<AppEvent>)
        ensures
            heard(r) == sends(self.channel()),
    {
        new_subscription(&self.sender)
    }
}

/// Whether `event` was sent over the bus.
pub open spec fn published(bus: EventBus, event: AppEvent) -> bool {
    exists|outcome: Result<usize, AppEvent>| #[trigger]
        sends(bus.channel()).contains((event, outcome))
}

/// Whether a toast with this text was sent over the bus, where there is one.
pub open spec fn toasted(bus: Option<EventBus>, text: Seq<char>) -> bool {
    match bus {
        Some(b) => exists|event: AppEvent|
            is_toast(event, text) && #[trigger] published(b, event),
        None => true,
    }
}

impl Default for EventBus {
    fn default() -> (r: Self)
        ensures
            rounded_up(DEFAULT_CHANNEL_CAPACITY, room(r.channel())),
    {
        Self::new(DEFAULT_CHANNEL_CAPACITY)
    }
}

} // verus!
