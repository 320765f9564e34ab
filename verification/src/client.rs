use std::sync::Arc;
use vstd::prelude::*;

use crate::callback::Message;
use crate::error::{ClientError, Result};
use crate::publisher::PublishRequest;
use crate::topic::{topic_path_from_str, topic_path_valid};

verus! {

/// How handing a request to the network thread went.
#[derive(Debug, Clone, Copy, PartialEq, Eq, Structural)]
pub enum SendStatus {
    Sent,
    /// The request queue is full.
    Full,
    /// The network thread is gone.
    Disconnected,
}

/// What the client's publish does next.
#[derive(Debug)]
pub enum SendStep {
    /// The request was handed over.
    Done,
    /// Wait this many seconds and try again.
    RetryAfterSecs(u64),
    /// Give up with this error.
    Fail(ClientError),
}

/// The request that publishes `payload` on `topic`, at least once; an
/// invalid topic path is refused with the mqtt3 error.
pub fn publish_request(
    topic: &str,
    payload: Arc<Vec<u8>>,
    userdata: Option<Arc<Vec<u8>>>,
) -> (r: Result<PublishRequest>)
    ensures
        topic_path_valid(topic@) ==> (r matches Ok(PublishRequest::Publish(m)) && m.topic@
            == topic@ && m.payload == payload && m.pkid is None && m.userdata == userdata),
        !topic_path_valid(topic@) ==> r matches Err(ClientError::Mqtt3(_)),
{
    match topic_path_from_str(topic) {
        Ok(_) => {
            let message = Message { topic: topic.to_owned(), payload, pkid: None, userdata };
            Ok(PublishRequest::Publish(Box::new(message)))
        },
        Err(e) => Err(ClientError::Mqtt3(e)),
    }
}

/// After a request was offered to the network thread: done when it was
/// taken, try again in two seconds when the queue was full, and fail with
/// `NoConnectionThread` when the thread is gone.
pub fn after_send(status: SendStatus) -> (step: SendStep)
    ensures
        status == SendStatus::Sent ==> step is Done,
        status == SendStatus::Full ==> (step matches SendStep::RetryAfterSecs(s) && s == 2),
        status == SendStatus::Disconnected ==> step matches SendStep::Fail(
            ClientError::NoConnectionThread,
        ),
{
    match status {
        SendStatus::Sent => SendStep::Done,
        SendStatus::Full => SendStep::RetryAfterSecs(2),
        SendStatus::Disconnected => SendStep::Fail(ClientError::NoConnectionThread),
    }
}

} // verus!
