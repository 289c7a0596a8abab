//! The decisions of a live-reload subscription: every change of the watched
//! file is forwarded to the page as an empty message, until either side closes.
use vstd::prelude::*;

verus! {

/// A request to watch the file at `path` for changes.
pub struct WatchParams {
    pub path: String,
}

/// What a subscription observes.
pub enum WatchEvent {
    /// The watched file changed.
    Changed,
    /// The channel of file events closed: no more changes will come.
    EventsClosed,
    /// Sending the last notification to the page failed.
    SendFailed,
}

/// What a subscription does next.
pub enum WatchAction {
    /// Send the page an empty "document changed" message.
    Notify,
    /// End the subscription.
    Stop,
}

/// The step of a subscription on `event`: a change is forwarded as one
/// notification; a closed event channel or a failed send ends it cleanly.
pub fn next_watch_action(event: &WatchEvent) -> (r: WatchAction)
    ensures
        (r is Notify) <==> (*event is Changed),
{
    match event {
        WatchEvent::Changed => WatchAction::Notify,
        WatchEvent::EventsClosed => WatchAction::Stop,
        WatchEvent::SendFailed => WatchAction::Stop,
    }
}

} // verus!
