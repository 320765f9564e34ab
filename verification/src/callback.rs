use std::sync::Arc;
use vstd::prelude::*;

verus! {

/// A message to publish: its topic, its payload, the packet identifier that
/// the client gave it once it was handed to the network, and data of the
/// caller's own that travels with it back to the publish callback.
#[derive(Debug)]
pub struct Message {
    pub topic: String,
    pub payload: Arc<Vec<u8>>,
    pub pkid: Option<u16>,
    pub userdata: Option<Arc<Vec<u8>>>,
}

/// `Arc::clone`: a second handle to the same bytes.
#[verifier::external_body]
fn share_bytes(bytes: &Arc<Vec<u8>>) -> (r: Arc<Vec<u8>>)
    ensures
        r == *bytes,
{
    Arc::clone(bytes)
}

impl Clone for Message {
    /// A copy of the message whose payload and user data share their bytes
    /// with this one.
    fn clone(&self) -> (r: Message)
        ensures
            r == *self,
    {
        let userdata = match &self.userdata {
            Some(u) => Some(share_bytes(u)),
            None => None,
        };
        Message {
            topic: self.topic.clone(),
            payload: share_bytes(&self.payload),
            pkid: self.pkid,
            userdata,
        }
    }
}

impl Message {
    /// Gives the message a packet identifier (or takes it away).
    pub fn set_pkid(self, pkid: Option<u16>) -> (r: Box<Message>)
        ensures
            *r == (Message { pkid, ..self }),
    {
        let mut m = self;
        m.pkid = pkid;
        Box::new(m)
    }
}

} // verus!
