use vstd::prelude::*;

verus! {

/// What reading an exchange feed yielded.
pub enum FeedEvent<T> {
    /// A text frame, with the message decoded from it where it decoded.
    Text(Option<T>),
    /// A frame of any other kind (binary, ping, pong, close).
    Other,
    /// The connection reported an error.
    Failure,
    /// The feed has no more frames.
    Ended,
}

/// What the reader of an exchange feed does next.
pub enum FeedAction<T> {
    /// Hand the decoded message to the strategy and keep reading.
    Forward(T),
    /// Report that the text did not decode and keep reading.
    ReportUndecodable,
    /// Ignore the frame and keep reading.
    Skip,
    /// Report the error and stop reading.
    Fail,
    /// Stop reading.
    Stop,
}

/// The reader's rule: decoded text is forwarded, text that does not decode
/// is reported, other frames are ignored, an error stops the reader after
/// it is reported, and so does the end of the feed.
pub open spec fn spec_feed_action<T>(event: FeedEvent<T>) -> FeedAction<T> {
    match event {
        FeedEvent::Text(Some(message)) => FeedAction::Forward(message),
        FeedEvent::Text(None) => FeedAction::ReportUndecodable,
        FeedEvent::Other => FeedAction::Skip,
        FeedEvent::Failure => FeedAction::Fail,
        FeedEvent::Ended => FeedAction::Stop,
    }
}

/// Whether the reader goes on after an action.
pub open spec fn spec_keeps_reading<T>(action: FeedAction<T>) -> bool {
    !(action is Fail || action is Stop)
}

/// Decides what to do with one event of an exchange feed.
pub fn feed_action<T>(event: FeedEvent<T>) -> (action: FeedAction<T>)
    ensures
        action == spec_feed_action(event),
{
    match event {
        FeedEvent::Text(Some(message)) => FeedAction::Forward(message),
        FeedEvent::Text(None) => FeedAction::ReportUndecodable,
        FeedEvent::Other => FeedAction::Skip,
        FeedEvent::Failure => FeedAction::Fail,
        FeedEvent::Ended => FeedAction::Stop,
    }
}

impl<T> FeedAction<T> {
    /// Whether the reader goes on after this action.
    pub fn keeps_reading(&self) -> (go_on: bool)
        ensures
            go_on == spec_keeps_reading(*self),
    {
        match self {
            FeedAction::Fail | FeedAction::Stop => false,
            _ => true,
        }
    }
}

/// The reader's rule for every event: a decoded message is forwarded as it
/// is and reading goes on; undecodable text is reported and reading goes on;
/// other frames are skipped and reading goes on; an error is reported and
/// reading stops; the end of the feed stops reading.
pub proof fn lemma_feed_rule<T>(message: T)
    ensures
        spec_feed_action(FeedEvent::Text(Some(message))) == FeedAction::Forward(message),
        spec_feed_action(FeedEvent::<T>::Text(None)) is ReportUndecodable,
        spec_feed_action(FeedEvent::<T>::Other) is Skip,
        spec_feed_action(FeedEvent::<T>::Failure) is Fail,
        spec_feed_action(FeedEvent::<T>::Ended) is Stop,
        spec_keeps_reading(FeedAction::Forward(message)),
        spec_keeps_reading(FeedAction::<T>::ReportUndecodable),
        spec_keeps_reading(FeedAction::<T>::Skip),
        !spec_keeps_reading(FeedAction::<T>::Fail),
        !spec_keeps_reading(FeedAction::<T>::Stop),
{
}

} // verus!
