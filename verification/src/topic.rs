use vstd::prelude::*;

verus! {

/// A wildcard character of MQTT topic filters.
pub open spec fn is_wildcard(c: char) -> bool {
    c == '+' || c == '#'
}

/// A topic path is valid when every `+` and every `#` fills a whole level
/// on its own, that is stands between `/` separators or the ends of the path.
pub open spec fn topic_path_valid(path: Seq<char>) -> bool {
    forall|i: int|
        0 <= i < path.len() && #[trigger] is_wildcard(path[i]) ==> {
            &&& (i == 0 || path[i - 1] == '/')
            &&& (i + 1 == path.len() || path[i + 1] == '/')
        }
}

/// `mqtt3::TopicPath::from_str`: splits the path at `/` and refuses it when
/// a level holds `+` or `#` without being exactly `+` or `#`; it succeeds on
/// every other path.
#[verifier::external_body]
pub(crate) fn topic_path_from_str(path: &str) -> (r: core::result::Result<
    mqtt3::TopicPath,
    mqtt3::Error,
>)
    ensures
        r is Ok <==> topic_path_valid(path@),
{
    mqtt3::TopicPath::from_str(path)
}

} // verus!
