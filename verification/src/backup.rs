use std::collections::VecDeque;
use std::sync::Arc;
use vstd::prelude::*;
use vstd::slice::{slice_subrange, slice_to_vec};
use vstd::utf8::{decode_utf8, encode_utf8, valid_utf8};

use crate::callback::Message;

verus! {

/// `n` as four big-endian bytes.
pub open spec fn u32_be(n: int) -> Seq<u8> {
    seq![
        (n / 0x1000000 % 0x100) as u8,
        (n / 0x10000 % 0x100) as u8,
        (n / 0x100 % 0x100) as u8,
        (n % 0x100) as u8,
    ]
}

/// The number that four big-endian bytes stand for.
pub open spec fn be_value(s: Seq<u8>) -> int {
    s[0] * 0x1000000 + s[1] * 0x10000 + s[2] * 0x100 + s[3]
}

/// A field of the backlog file: its length as a big-endian `u32`, then its
/// bytes.
pub open spec fn field_bytes(b: Seq<u8>) -> Seq<u8> {
    u32_be(b.len() as int) + b
}

/// One backed-up publish: its topic in UTF-8, then its payload.
pub open spec fn entry_bytes(e: (Seq<char>, Seq<u8>)) -> Seq<u8> {
    field_bytes(encode_utf8(e.0)) + field_bytes(e.1)
}

/// The backlog file: the publishes one after another, oldest first.
pub open spec fn backlog_bytes(b: Seq<(Seq<char>, Seq<u8>)>) -> Seq<u8>
    decreases b.len(),
{
    if b.len() == 0 {
        Seq::empty()
    } else {
        entry_bytes(b[0]) + backlog_bytes(b.drop_first())
    }
}

/// Both fields of a publish have lengths that a `u32` can hold.
pub open spec fn entry_fits(e: (Seq<char>, Seq<u8>)) -> bool {
    encode_utf8(e.0).len() <= u32::MAX && e.1.len() <= u32::MAX
}

pub open spec fn all_fit(b: Seq<(Seq<char>, Seq<u8>)>) -> bool {
    forall|i: int| 0 <= i < b.len() ==> entry_fits(#[trigger] b[i])
}

/// What the backlog file keeps of each publish: its topic and its payload.
pub open spec fn backlog_entries(q: Seq<Box<Message>>) -> Seq<(Seq<char>, Seq<u8>)> {
    q.map_values(|m: Box<Message>| (m.topic@, m.payload@))
}

/// Some list of publishes, each fitting the format, is written as `bytes`.
pub open spec fn is_backlog_file(bytes: Seq<u8>) -> bool {
    exists|b: Seq<(Seq<char>, Seq<u8>)>| all_fit(b) && backlog_bytes(b) == bytes
}

proof fn lemma_u32_be(n: int)
    requires
        0 <= n <= u32::MAX,
    ensures
        be_value(u32_be(n)) == n,
        u32_be(n).len() == 4,
{
    let s = u32_be(n);
    assert(be_value(s) == n) by (nonlinear_arith)
        requires
            0 <= n <= 0xffff_ffff,
            s[0] == n / 0x1000000 % 0x100,
            s[1] == n / 0x10000 % 0x100,
            s[2] == n / 0x100 % 0x100,
            s[3] == n % 0x100,
    ;
}

proof fn lemma_be_value(s: Seq<u8>)
    requires
        s.len() == 4,
    ensures
        u32_be(be_value(s)) == s,
        0 <= be_value(s) <= u32::MAX,
{
    let n = be_value(s);
    let (a, b, c, d) = (s[0] as int, s[1] as int, s[2] as int, s[3] as int);
    assert(n / 0x1000000 % 0x100 == a && n / 0x10000 % 0x100 == b && n / 0x100 % 0x100 == c
        && n % 0x100 == d && 0 <= n <= 0xffff_ffff) by (nonlinear_arith)
        requires
            0 <= a < 256,
            0 <= b < 256,
            0 <= c < 256,
            0 <= d < 256,
            n == a * 0x1000000 + b * 0x10000 + c * 0x100 + d,
    ;
    assert(u32_be(n) =~= s);
}

proof fn lemma_backlog_bytes_push(b: Seq<(Seq<char>, Seq<u8>)>, e: (Seq<char>, Seq<u8>))
    ensures
        backlog_bytes(b.push(e)) == backlog_bytes(b) + entry_bytes(e),
    decreases b.len(),
{
    if b.len() == 0 {
        assert(b.push(e).drop_first() =~= Seq::<(Seq<char>, Seq<u8>)>::empty());
        assert(b.push(e)[0] == e);
        let z = entry_bytes(e);
        assert(backlog_bytes(b.push(e)) == z + backlog_bytes(b.push(e).drop_first()));
        assert(backlog_bytes(b) == Seq::<u8>::empty());
        assert(z + Seq::<u8>::empty() =~= z);
        assert(Seq::<u8>::empty() + z =~= z);
    } else {
        let rest = b.drop_first();
        lemma_backlog_bytes_push(rest, e);
        assert(b.push(e).drop_first() =~= rest.push(e));
        assert(b.push(e)[0] == b[0]);
        let x = entry_bytes(b[0]);
        let y = backlog_bytes(rest);
        let z = entry_bytes(e);
        assert(backlog_bytes(b.push(e)) == x + backlog_bytes(rest.push(e)));
        assert(backlog_bytes(rest.push(e)) == y + z);
        assert(backlog_bytes(b) == x + y);
        assert(x + (y + z) =~= (x + y) + z);
    }
}

/// Where the fields of the entry that starts at `pos` lie, read from their
/// length prefixes: `(topic_end, payload_start, payload_end)`.
pub open spec fn entry_bounds(s: Seq<u8>, pos: int) -> (int, int, int) {
    let n = be_value(s.subrange(pos, pos + 4));
    let m = be_value(s.subrange(pos + 4 + n, pos + 8 + n));
    (pos + 4 + n, pos + 8 + n, pos + 8 + n + m)
}

/// An entry can be read at `pos`: both length prefixes and both fields are
/// there, and the topic is UTF-8.
pub open spec fn entry_at(s: Seq<u8>, pos: int) -> bool {
    let (topic_end, payload_start, payload_end) = entry_bounds(s, pos);
    &&& pos + 4 <= s.len()
    &&& topic_end <= s.len()
    &&& valid_utf8(s.subrange(pos + 4, topic_end))
    &&& payload_start <= s.len()
    &&& payload_end <= s.len()
}

/// How an entry followed by anything else is read back.
proof fn lemma_entry_prefix(e: (Seq<char>, Seq<u8>), tail: Seq<u8>)
    requires
        entry_fits(e),
    ensures
        ({
            let s = entry_bytes(e) + tail;
            let tb = encode_utf8(e.0);
            let n = tb.len() as int;
            let m = e.1.len() as int;
            &&& entry_at(s, 0)
            &&& entry_bounds(s, 0) == (4 + n, 8 + n, 8 + n + m)
            &&& s.subrange(4, 4 + n) == tb
            &&& s.subrange(8 + n, 8 + n + m) == e.1
            &&& s.subrange(8 + n + m, s.len() as int) == tail
            &&& entry_bytes(e).len() == 8 + n + m
        }),
{
    let s = entry_bytes(e) + tail;
    let tb = encode_utf8(e.0);
    let n = tb.len() as int;
    let m = e.1.len() as int;
    lemma_u32_be(n);
    lemma_u32_be(m);
    vstd::utf8::encode_utf8_valid_utf8(e.0);
    assert(s.subrange(0, 4) =~= u32_be(n));
    assert(s.subrange(4, 4 + n) =~= tb);
    assert(s.subrange(4 + n, 8 + n) =~= u32_be(m));
    assert(s.subrange(8 + n, 8 + n + m) =~= e.1);
    assert(s.subrange(8 + n + m, s.len() as int) =~= tail);
}

/// The format is read back unambiguously: when the file for `d` followed by
/// `rest` is the file for `b`, then `b` starts with `d` and the rest of `b`
/// is written as `rest`.
proof fn lemma_prefix_unique(
    d: Seq<(Seq<char>, Seq<u8>)>,
    b: Seq<(Seq<char>, Seq<u8>)>,
    rest: Seq<u8>,
)
    requires
        all_fit(d),
        all_fit(b),
        backlog_bytes(d) + rest == backlog_bytes(b),
    ensures
        d.len() <= b.len(),
        b.take(d.len() as int) == d,
        backlog_bytes(b.skip(d.len() as int)) == rest,
    decreases d.len(),
{
    if d.len() == 0 {
        assert(backlog_bytes(d) + rest =~= rest);
        assert(b.take(0) =~= d);
        assert(b.skip(0) =~= b);
    } else {
        let d0 = d[0];
        let d1 = d.drop_first();
        assert(entry_fits(d0));
        assert(all_fit(d1)) by {
            assert forall|i: int| 0 <= i < d1.len() implies entry_fits(#[trigger] d1[i]) by {
                assert(d1[i] == d[i + 1]);
            }
        }
        let dtail = backlog_bytes(d1) + rest;
        assert(backlog_bytes(d) + rest =~= entry_bytes(d0) + dtail);
        lemma_entry_prefix(d0, dtail);
        if b.len() == 0 {
            assert(backlog_bytes(b).len() == 0);
            assert(false);
        }
        let b0 = b[0];
        let b1 = b.drop_first();
        assert(entry_fits(b0));
        assert(all_fit(b1)) by {
            assert forall|i: int| 0 <= i < b1.len() implies entry_fits(#[trigger] b1[i]) by {
                assert(b1[i] == b[i + 1]);
            }
        }
        let btail = backlog_bytes(b1);
        lemma_entry_prefix(b0, btail);
        let s = entry_bytes(d0) + dtail;
        assert(s == entry_bytes(b0) + btail);
        let n = encode_utf8(d0.0).len() as int;
        let m = d0.1.len() as int;
        assert(encode_utf8(d0.0) == encode_utf8(b0.0));
        vstd::utf8::encode_utf8_decode_utf8(d0.0);
        vstd::utf8::encode_utf8_decode_utf8(b0.0);
        assert(d0.0 == b0.0);
        assert(d0.1 == b0.1);
        assert(d0 == b0);
        assert(dtail == btail);
        lemma_prefix_unique(d1, b1, rest);
        assert(b.take(d.len() as int) =~= seq![b0] + b1.take(d1.len() as int));
        assert(d =~= seq![d0] + d1);
        assert(b.skip(d.len() as int) =~= b1.skip(d1.len() as int));
    }
}

/// While reading a backlog file, an entry can be read wherever the bytes
/// read so far are a whole number of entries and bytes are left.
proof fn lemma_file_has_entry_at(s: Seq<u8>, d: Seq<(Seq<char>, Seq<u8>)>, pos: int)
    requires
        is_backlog_file(s),
        all_fit(d),
        0 <= pos < s.len(),
        s.subrange(0, pos) == backlog_bytes(d),
    ensures
        entry_at(s, pos),
{
    let b = choose|b: Seq<(Seq<char>, Seq<u8>)>| all_fit(b) && backlog_bytes(b) == s;
    let rest = s.subrange(pos, s.len() as int);
    assert(backlog_bytes(d) + rest =~= s);
    lemma_prefix_unique(d, b, rest);
    let b1 = b.skip(d.len() as int);
    if b1.len() == 0 {
        assert(backlog_bytes(b1).len() == 0);
        assert(false);
    }
    assert(entry_fits(b1[0])) by {
        assert(b1[0] == b[d.len() as int]);
    }
    let tail = backlog_bytes(b1.drop_first());
    assert(rest == entry_bytes(b1[0]) + tail);
    lemma_entry_prefix(b1[0], tail);
    let (x, y, z) = entry_bounds(rest, 0);
    assert(rest.subrange(0, 4) =~= s.subrange(pos, pos + 4));
    assert(rest.subrange(4, x) =~= s.subrange(pos + 4, pos + x));
    assert(rest.subrange(x, y) =~= s.subrange(pos + x, pos + y));
}

/// Appends `field_bytes(field)` to `out`.
fn put_field(out: &mut Vec<u8>, field: &[u8])
    requires
        field@.len() <= u32::MAX,
    ensures
        final(out)@ == old(out)@ + field_bytes(field@),
{
    let n: u32 = field.len() as u32;
    out.push((n / 0x1000000 % 0x100) as u8);
    out.push((n / 0x10000 % 0x100) as u8);
    out.push((n / 0x100 % 0x100) as u8);
    out.push((n % 0x100) as u8);
    let ghost start = out@;
    let mut i: usize = 0;
    while i < field.len()
        invariant
            i <= field@.len(),
            out@ == start + field@.subrange(0, i as int),
            start == old(out)@ + u32_be(field@.len() as int),
        decreases field@.len() - i,
    {
        out.push(field[i]);
        i += 1;
        assert(out@ =~= start + field@.subrange(0, i as int));
    }
    assert(field@.subrange(0, field@.len() as int) =~= field@);
    assert(final(out)@ =~= old(out)@ + field_bytes(field@));
}

/// The backlog file for `backlog`: topics and payloads, oldest first.
pub fn encode_backlog(backlog: &VecDeque<Box<Message>>) -> (out: Vec<u8>)
    requires
        all_fit(backlog_entries(backlog@)),
    ensures
        out@ == backlog_bytes(backlog_entries(backlog@)),
{
    let mut out: Vec<u8> = Vec::new();
    let n = backlog.len();
    let ghost entries = backlog_entries(backlog@);
    let mut i: usize = 0;
    while i < n
        invariant
            n == backlog@.len(),
            i <= n,
            entries == backlog_entries(backlog@),
            all_fit(entries),
            out@ == backlog_bytes(entries.take(i as int)),
        decreases n - i,
    {
        let m = &backlog[i];
        assert(entry_fits(entries[i as int]));
        put_field(&mut out, m.topic.as_str().as_bytes());
        put_field(&mut out, m.payload.as_slice());
        proof {
            lemma_backlog_bytes_push(entries.take(i as int), entries[i as int]);
            assert(entries.take(i as int).push(entries[i as int]) =~= entries.take(i + 1));
        }
        i += 1;
    }
    assert(entries.take(n as int) =~= entries);
    out
}

/// `String::from_utf8`: takes the bytes as a string when they are valid
/// UTF-8, the string then holding the characters they encode, and refuses
/// them otherwise.
#[verifier::external_body]
fn string_from_utf8(bytes: Vec<u8>) -> (r: Option<String>)
    ensures
        r is Some <==> valid_utf8(bytes@),
        r matches Some(s) ==> s@ == decode_utf8(bytes@),
{
    String::from_utf8(bytes).ok()
}

/// Reads the length prefix at `pos`: where the field after it ends, if
/// the prefix and the field are both there.
fn read_field(bytes: &[u8], pos: usize) -> (r: Option<usize>)
    requires
        pos <= bytes@.len(),
    ensures
        match r {
            Some(end) => {
                &&& pos + 4 <= bytes@.len()
                &&& end == pos + 4 + be_value(bytes@.subrange(pos as int, pos + 4))
                &&& end <= bytes@.len()
            },
            None => bytes@.len() < pos + 4 || bytes@.len() < pos + 4 + be_value(
                bytes@.subrange(pos as int, pos + 4),
            ),
        },
{
    if bytes.len() - pos < 4 {
        return None;
    }
    let ghost prefix = bytes@.subrange(pos as int, pos + 4);
    let n: usize = bytes[pos] as usize * 0x1000000 + bytes[pos + 1] as usize * 0x10000
        + bytes[pos + 2] as usize * 0x100 + bytes[pos + 3] as usize;
    assert(n == be_value(prefix));
    if bytes.len() - pos - 4 < n {
        return None;
    }
    Some(pos + 4 + n)
}

/// Reads a backlog file: the publishes it holds, oldest first, without
/// packet identifiers or user data; `None` when the bytes are not such a
/// file.
#[verifier::rlimit(40)]
pub fn decode_backlog(bytes: &[u8]) -> (r: Option<VecDeque<Box<Message>>>)
    ensures
        r is Some <==> is_backlog_file(bytes@),
        r matches Some(q) ==> {
            &&& backlog_bytes(backlog_entries(q@)) == bytes@
            &&& all_fit(backlog_entries(q@))
            &&& forall|i: int|
                0 <= i < q@.len() ==> (#[trigger] q@[i]).pkid is None && q@[i].userdata is None
        },
{
    let mut out: VecDeque<Box<Message>> = VecDeque::new();
    let mut pos: usize = 0;
    while pos < bytes.len()
        invariant
            pos <= bytes@.len(),
            bytes@.subrange(0, pos as int) == backlog_bytes(backlog_entries(out@)),
            all_fit(backlog_entries(out@)),
            forall|i: int|
                0 <= i < out@.len() ==> (#[trigger] out@[i]).pkid is None && out@[i].userdata
                    is None,
        decreases bytes@.len() - pos,
    {
        let ghost s = bytes@;
        let ghost done = backlog_entries(out@);
        let topic_end = match read_field(bytes, pos) {
            Some(end) => end,
            None => {
                proof {
                    if is_backlog_file(s) {
                        lemma_file_has_entry_at(s, done, pos as int);
                    }
                }
                return None;
            },
        };
        let topic_bytes = slice_to_vec(slice_subrange(bytes, pos + 4, topic_end));
        let topic = match string_from_utf8(topic_bytes) {
            Some(t) => t,
            None => {
                proof {
                    if is_backlog_file(s) {
                        lemma_file_has_entry_at(s, done, pos as int);
                    }
                }
                return None;
            },
        };
        let payload_end = match read_field(bytes, topic_end) {
            Some(end) => end,
            None => {
                proof {
                    if is_backlog_file(s) {
                        lemma_file_has_entry_at(s, done, pos as int);
                    }
                }
                return None;
            },
        };
        let payload = slice_to_vec(slice_subrange(bytes, topic_end + 4, payload_end));
        let message = Message { topic, payload: Arc::new(payload), pkid: None, userdata: None };
        proof {
            let tb = s.subrange(pos + 4, topic_end as int);
            let e = (message.topic@, message.payload@);
            vstd::utf8::decode_utf8_encode_utf8(tb);
            lemma_be_value(s.subrange(pos as int, pos + 4));
            lemma_be_value(s.subrange(topic_end as int, topic_end + 4));
            assert(encode_utf8(e.0) == tb);
            assert(entry_fits(e));
            assert(entry_bytes(e) =~= s.subrange(pos as int, payload_end as int));
            lemma_backlog_bytes_push(done, e);
            assert(s.subrange(0, payload_end as int) =~= s.subrange(0, pos as int) + s.subrange(
                pos as int,
                payload_end as int,
            ));
        }
        out.push_back(Box::new(message));
        proof {
            assert(backlog_entries(out@) =~= done.push((message.topic@, message.payload@)));
        }
        pos = payload_end;
    }
    proof {
        assert(bytes@.subrange(0, bytes@.len() as int) =~= bytes@);
        assert(all_fit(backlog_entries(out@)) && backlog_bytes(backlog_entries(out@)) == bytes@);
    }
    Some(out)
}

/// Reading back what was written gives the same publishes: the file format
/// tells any two lists of publishes apart (each fitting the format), so a
/// file holds exactly one list of topics and payloads, in order.
pub proof fn lemma_backlog_round_trip(
    written: Seq<(Seq<char>, Seq<u8>)>,
    read: Seq<(Seq<char>, Seq<u8>)>,
)
    requires
        all_fit(written),
        all_fit(read),
        backlog_bytes(read) == backlog_bytes(written),
    ensures
        read == written,
{
    assert(backlog_bytes(written) + Seq::<u8>::empty() =~= backlog_bytes(read));
    lemma_prefix_unique(written, read, Seq::<u8>::empty());
    let r1 = read.skip(written.len() as int);
    if r1.len() > 0 {
        assert(entry_fits(r1[0])) by {
            assert(r1[0] == read[written.len() as int]);
        }
        lemma_entry_prefix(r1[0], backlog_bytes(r1.drop_first()));
        assert(false);
    }
    assert(read =~= read.take(written.len() as int));
}

} // verus!
