use vstd::prelude::*;

verus! {

/// `mqtt3::Error`, carried through as it came.
#[verifier::external_type_specification]
#[verifier::external_body]
pub struct ExMqtt3Error(mqtt3::Error);

/// `mqtt3::TopicPath`, the parsed form of a topic path.
#[verifier::external_type_specification]
#[verifier::external_body]
pub struct ExTopicPath(mqtt3::TopicPath);

} // verus!
