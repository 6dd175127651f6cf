//! The JSON-RPC side of an LSP process: the messages sent to it, how they are
//! framed on its stdin, and how the headers of its replies are read.

use vstd::prelude::*;
use vstd::utf8::encode_utf8;
use crate::json::{Json, JsonValue, Num, jget, lemma_members_view, members_view};
use crate::text::{
    all_digits, concat, decimal, decimal_string, digits_value, first_index_of, has_char,
    has_prefix_ignore_ascii_case, is_white, lemma_decimal_digits, lemma_first_index_after,
    lemma_no_index, parse_usize, parsed_usize, starts_with_ignore_ascii_case, str_eq, trim,
    trimmed, trimmed_end, trimmed_start, chars_of, string_of, subvec,
};

verus! {

/// The number of bytes of the UTF-8 encoding of `s`.
pub open spec fn byte_len(s: Seq<char>) -> nat {
    encode_utf8(s).len()
}

/// A message with its `Content-Length` header, as written to the server.
pub open spec fn framed(content: Seq<char>) -> Seq<char> {
    "Content-Length: "@ + decimal(byte_len(content)) + "\r\n\r\n"@ + content
}

/// Frame a JSON text for the wire: `Content-Length: {bytes}\r\n\r\n{content}`.
pub fn frame_message(content: &str) -> (r: String)
    requires
        byte_len(content@) <= usize::MAX,
    ensures
        r@ == framed(content@),
{
    let n = content.len();
    let d = decimal_string(n as u64);
    let a = concat("Content-Length: ", d.as_str());
    let b = concat(a.as_str(), "\r\n\r\n");
    concat(b.as_str(), content)
}

/// The ids of the requests sent to one server: 0, 1, 2, ... in order.
pub struct RequestCounter {
    pub next_id: u64,
}

impl RequestCounter {
    /// A counter whose first id is 0.
    pub fn new() -> (c: Self)
        ensures
            c.next_id == 0,
    {
        RequestCounter { next_id: 0 }
    }

    /// Take the next id.
    pub fn take(&mut self) -> (id: u64)
        requires
            old(self).next_id < u64::MAX,
        ensures
            id == old(self).next_id,
            final(self).next_id == old(self).next_id + 1,
    {
        let id = self.next_id;
        self.next_id = id + 1;
        id
    }
}

/// The requests sent to one server get the ids 0, 1, 2, ... in the order they
/// are sent: given the counter's states from `new` on (`states[0] == 0`) and
/// the ids that successive `take`s returned (each the state before it, the
/// next state one more), the `k`-th id is `k`, so no two requests share one.
pub proof fn lemma_request_ids_in_call_order(states: Seq<u64>, ids: Seq<u64>)
    requires
        states.len() == ids.len() + 1,
        states[0] == 0,
        forall|k: int| 0 <= k < ids.len() ==> #[trigger] ids[k] == states[k] && states[k + 1] == states[k] + 1,
    ensures
        forall|k: int| 0 <= k < ids.len() ==> #[trigger] ids[k] == k,
        forall|j: int, k: int| 0 <= j < k < ids.len() ==> ids[j] != ids[k],
{
    assert forall|k: int| 0 <= k < states.len() implies #[trigger] states[k] == k by {
        lemma_state_is_count(states, ids, k);
    }
    assert forall|k: int| 0 <= k < ids.len() implies #[trigger] ids[k] == k by {
        assert(states[k] == k);
    }
}

proof fn lemma_state_is_count(states: Seq<u64>, ids: Seq<u64>, k: int)
    requires
        states.len() == ids.len() + 1,
        states[0] == 0,
        forall|k: int| 0 <= k < ids.len() ==> #[trigger] ids[k] == states[k] && states[k + 1] == states[k] + 1,
        0 <= k < states.len(),
    ensures
        states[k] == k,
    decreases k,
{
    if k > 0 {
        lemma_state_is_count(states, ids, k - 1);
        assert(ids[k - 1] == states[k - 1] && states[k] == states[k - 1] + 1);
    }
}

/// The JSON of a request: `jsonrpc` "2.0", the id, the method and its params.
pub open spec fn request_json(id: u64, method: Seq<char>, params: Json) -> Json {
    Json::Object(seq![
        ("jsonrpc"@, Json::Str("2.0"@)),
        ("id"@, Json::Number(Num::PosInt(id))),
        ("method"@, Json::Str(method)),
        ("params"@, params),
    ])
}

/// The JSON of a notification: a request without an id.
pub open spec fn notification_json(method: Seq<char>, params: Json) -> Json {
    Json::Object(seq![
        ("jsonrpc"@, Json::Str("2.0"@)),
        ("method"@, Json::Str(method)),
        ("params"@, params),
    ])
}

/// Build a request.
pub fn request_message(id: u64, method: &str, params: JsonValue) -> (r: JsonValue)
    ensures
        r@ == request_json(id, method@, params@),
{
    let mut m: Vec<(String, JsonValue)> = Vec::new();
    m.push((String::from_str("jsonrpc"), JsonValue::string("2.0")));
    m.push((String::from_str("id"), JsonValue::uint(id)));
    m.push((String::from_str("method"), JsonValue::string(method)));
    let ghost pv = params@;
    m.push((String::from_str("params"), params));
    proof {
        lemma_members_view(m@);
        assert(members_view(m@) =~= seq![
            ("jsonrpc"@, Json::Str("2.0"@)),
            ("id"@, Json::Number(Num::PosInt(id))),
            ("method"@, Json::Str(method@)),
            ("params"@, pv),
        ]);
    }
    JsonValue::object(m)
}

/// Build a notification.
pub fn notification_message(method: &str, params: JsonValue) -> (r: JsonValue)
    ensures
        r@ == notification_json(method@, params@),
{
    let mut m: Vec<(String, JsonValue)> = Vec::new();
    m.push((String::from_str("jsonrpc"), JsonValue::string("2.0")));
    m.push((String::from_str("method"), JsonValue::string(method)));
    let ghost pv = params@;
    m.push((String::from_str("params"), params));
    proof {
        lemma_members_view(m@);
        assert(members_view(m@) =~= seq![
            ("jsonrpc"@, Json::Str("2.0"@)),
            ("method"@, Json::Str(method@)),
            ("params"@, pv),
        ]);
    }
    JsonValue::object(m)
}

/// A message from the server is a notification when it has a `method`; such
/// messages are skipped while waiting for a response.
pub fn is_notification(message: &JsonValue) -> (r: bool)
    ensures
        r == (jget(message@, "method"@) is Some),
{
    message.get("method").is_some()
}

/// The program and arguments that start a server: the first word of a spawn
/// command of two or more words and the rest, else the binary alone.
pub fn command_line(binary_name: &str, spawn_args: &Vec<String>) -> (r: (String, Vec<String>))
    ensures
        spawn_args@.len() > 1 ==> r.0@ == spawn_args@[0]@ && r.1@ == spawn_args@.skip(1),
        spawn_args@.len() <= 1 ==> r.0@ == binary_name@ && r.1@.len() == 0,
{
    if spawn_args.len() > 1 {
        let mut rest: Vec<String> = Vec::new();
        let mut i: usize = 1;
        while i < spawn_args.len()
            invariant
                1 <= i <= spawn_args@.len(),
                rest@ == spawn_args@.subrange(1, i as int),
            decreases spawn_args@.len() - i,
        {
            rest.push(spawn_args[i].clone());
            assert(rest@ =~= spawn_args@.subrange(1, i + 1));
            i += 1;
        }
        assert(rest@ =~= spawn_args@.skip(1));
        (spawn_args[0].clone(), rest)
    } else {
        (String::from_str(binary_name), Vec::new())
    }
}

/// The part of `s` between its first and second `:` (to the end when there is
/// no second one), as `s.split(':').nth(1)` gives it.
pub open spec fn second_field(s: Seq<char>) -> Option<Seq<char>> {
    match first_index_of(s, ':') {
        None => None,
        Some(i) => {
            let rest = s.skip(i + 1);
            match first_index_of(rest, ':') {
                Some(j) => Some(rest.take(j)),
                None => Some(rest),
            }
        },
    }
}

/// The value of a `Content-Length` header line, if it reads as a number.
pub open spec fn header_value(line: Seq<char>) -> Option<usize> {
    match second_field(line) {
        Some(v) => parsed_usize(trimmed(v)),
        None => None,
    }
}

/// Reading a header line either ends the headers or goes on to the next line;
/// either way it carries the `Content-Length` read so far.
pub enum HeaderStep {
    Next(Option<usize>),
    End(Option<usize>),
}

/// The step for one header line (as read, with its line ending). An empty
/// line ends the headers; a line that begins with `content-length:` in any
/// case sets the length (to nothing when its value does not parse); other
/// headers are ignored.
pub open spec fn header_step(content_length: Option<usize>, line: Seq<char>) -> HeaderStep {
    if line == "\r\n"@ || line == "\n"@ || line.len() == 0 {
        HeaderStep::End(content_length)
    } else if has_prefix_ignore_ascii_case(line, "content-length:"@) {
        HeaderStep::Next(header_value(line))
    } else {
        HeaderStep::Next(content_length)
    }
}

/// The position of the first `c` in `x` at or after `from`, scanning forward.
fn find_from(x: &Vec<char>, from: usize, c: char) -> (r: Option<usize>)
    requires
        from <= x@.len(),
    ensures
        match r {
            Some(i) => from <= i < x@.len() && first_index_of(x@.skip(from as int), c) == Some(i - from),
            None => first_index_of(x@.skip(from as int), c) is None,
        },
{
    let mut i: usize = from;
    while i < x.len()
        invariant
            from <= i <= x@.len(),
            !has_char(x@.subrange(from as int, i as int), c),
        decreases x@.len() - i,
    {
        if x[i] == c {
            proof {
                let cur = x@.subrange(from as int, i as int);
                let rest = x@.skip(i + 1);
                assert(x@.skip(from as int) =~= cur + seq![c] + rest);
                lemma_first_index_after(cur, c, rest);
            }
            return Some(i);
        }
        proof {
            let cur = x@.subrange(from as int, i as int);
            let next = x@.subrange(from as int, i + 1);
            assert(next =~= cur.push(x@[i as int]));
            assert(!has_char(next, c)) by {
                if has_char(next, c) {
                    let j = choose|j: int| 0 <= j < next.len() && next[j] == c;
                    if j < cur.len() {
                        assert(cur[j] == c);
                    }
                }
            }
        }
        i += 1;
    }
    proof {
        assert(x@.subrange(from as int, i as int) =~= x@.skip(from as int));
        lemma_no_index(x@.skip(from as int), c);
    }
    None
}

/// `s.split(':').nth(1)`.
fn second_colon_field(s: &str) -> (r: Option<String>)
    ensures
        match r {
            Some(v) => second_field(s@) == Some(v@),
            None => second_field(s@) is None,
        },
{
    let x = chars_of(s);
    match find_from(&x, 0, ':') {
        None => {
            assert(x@.skip(0) =~= x@);
            None
        },
        Some(i) => {
            assert(x@.skip(0) =~= x@);
            let ghost rest = s@.skip(i + 1);
            match find_from(&x, i + 1, ':') {
                Some(j) => {
                    let v = string_of(&subvec(&x, i + 1, j));
                    assert(v@ =~= rest.take(j - (i + 1)));
                    assert(first_index_of(s@, ':') == Some(i as int));
                    assert(first_index_of(rest, ':') == Some(j - (i + 1)));
                    Some(v)
                },
                None => {
                    let v = string_of(&subvec(&x, i + 1, x.len()));
                    assert(v@ =~= rest);
                    assert(first_index_of(s@, ':') == Some(i as int));
                    assert(first_index_of(rest, ':') is None);
                    Some(v)
                },
            }
        },
    }
}

/// Read one header line of a reply (as `read_line` gives it, with its line
/// ending), given the `Content-Length` read so far.
pub fn read_header_line(content_length: Option<usize>, line: &str) -> (r: HeaderStep)
    ensures
        r == header_step(content_length, line@),
{
    proof {
        reveal_strlit("\r\n");
        reveal_strlit("\n");
    }
    if str_eq(line, "\r\n") || str_eq(line, "\n") || line.is_empty() {
        return HeaderStep::End(content_length);
    }
    if starts_with_ignore_ascii_case(line, "content-length:") {
        let value = match second_colon_field(line) {
            Some(v) => {
                let t = trim(v.as_str());
                parse_usize(t.as_str())
            },
            None => None,
        };
        HeaderStep::Next(value)
    } else {
        HeaderStep::Next(content_length)
    }
}

/// The length of the content that follows the headers; a reply without a
/// `Content-Length` header is an error.
pub fn required_content_length(content_length: Option<usize>) -> (r: Result<usize, String>)
    ensures
        match content_length {
            Some(n) => r == Ok::<usize, String>(n),
            None => r matches Err(e) && e@ == "No Content-Length header found"@,
        },
{
    match content_length {
        Some(n) => Ok(n),
        None => Err(String::from_str("No Content-Length header found")),
    }
}

/// No digit is a line break, a colon, a plus sign or white space.
proof fn lemma_digits_plain(d: Seq<char>)
    requires
        all_digits(d),
    ensures
        !has_char(d, '\n'),
        !has_char(d, ':'),
        forall|i: int| 0 <= i < d.len() ==> !is_white(#[trigger] d[i]) && d[i] != '+',
{
    assert forall|i: int| 0 <= i < d.len() implies !is_white(#[trigger] d[i]) && d[i] != '+' && d[i] != '\n' && d[i] != ':' by {
        assert(crate::text::is_digit(d[i]));
    }
}

/// The value field of a `Content-Length` line is what follows its colon.
proof fn lemma_length_field(d: Seq<char>)
    requires
        all_digits(d),
    ensures
        second_field("Content-Length: "@ + d + "\r\n"@) == Some(" "@ + d + "\r\n"@),
{
    reveal_strlit("Content-Length: ");
    reveal_strlit("Content-Length");
    reveal_strlit("\r\n");
    reveal_strlit(" ");
    lemma_digits_plain(d);
    let label = "Content-Length"@;
    let header = "Content-Length: "@ + d + "\r\n"@;
    let after = " "@ + d + "\r\n"@;
    assert(!has_char(label, ':')) by {
        if has_char(label, ':') {
            let i = choose|i: int| 0 <= i < label.len() && label[i] == ':';
            assert(label[i] != ':');
        }
    }
    assert(header =~= label + seq![':'] + after);
    lemma_first_index_after(label, ':', after);
    assert(header.skip(15) =~= after);
    assert(!has_char(after, ':')) by {
        if has_char(after, ':') {
            let i = choose|i: int| 0 <= i < after.len() && after[i] == ':';
            if 1 <= i < 1 + d.len() {
                assert(d[i - 1] == ':');
            }
        }
    }
    lemma_no_index(after, ':');
}

/// Trimming ` {digits}\r\n` leaves the digits.
proof fn lemma_trim_length_field(d: Seq<char>)
    requires
        all_digits(d),
        d.len() > 0,
    ensures
        trimmed(" "@ + d + "\r\n"@) == d,
{
    reveal_strlit("\r\n");
    reveal_strlit(" ");
    lemma_digits_plain(d);
    let after = " "@ + d + "\r\n"@;
    assert(after.drop_first() =~= d + "\r\n"@);
    assert((d + "\r\n"@)[0] == d[0]);
    assert(trimmed_start(d + "\r\n"@) == d + "\r\n"@);
    assert(trimmed_start(after) == d + "\r\n"@);
    assert((d + "\r\n"@).drop_last() =~= d + seq!['\r']);
    assert((d + seq!['\r']).drop_last() =~= d);
    assert(!is_white(d.last()));
    assert(trimmed_end(d) == d);
    assert(trimmed_end(d + seq!['\r']) == d);
    assert(trimmed_end(d + "\r\n"@) == d);
}

/// A framed message reads back: its first line (up to and including the
/// first `\n`) is a `Content-Length` header giving the content's byte length,
/// whatever length was read before; the next line is empty and ends the
/// headers; the content follows.
pub proof fn lemma_framed_message_reads_back(content: Seq<char>, earlier: Option<usize>)
    requires
        byte_len(content) <= usize::MAX,
    ensures
        ({
            let header = "Content-Length: "@ + decimal(byte_len(content)) + "\r\n"@;
            let n = byte_len(content) as usize;
            &&& framed(content) == header + "\r\n"@ + content
            &&& header.last() == '\n' && !has_char(header.drop_last(), '\n')
            &&& header_step(earlier, header) == HeaderStep::Next(Some(n))
            &&& header_step(Some(n), "\r\n"@) == HeaderStep::End(Some(n))
        }),
{
    reveal_strlit("Content-Length: ");
    reveal_strlit("\r\n");
    reveal_strlit("\r\n\r\n");
    reveal_strlit("\n");
    reveal_strlit("content-length:");
    let d = decimal(byte_len(content));
    lemma_decimal_digits(byte_len(content));
    lemma_digits_plain(d);
    let header = "Content-Length: "@ + d + "\r\n"@;
    assert(framed(content) =~= header + "\r\n"@ + content);
    assert(!has_char(header.drop_last(), '\n')) by {
        if has_char(header.drop_last(), '\n') {
            let i = choose|i: int| 0 <= i < header.drop_last().len() && header.drop_last()[i] == '\n';
            if 16 <= i < 16 + d.len() {
                assert(d[i - 16] == '\n');
            }
        }
    }
    lemma_length_field(d);
    lemma_trim_length_field(d);
    assert(d[0] != '+');
    assert(parsed_usize(d) == Some(byte_len(content) as usize));
    assert(header_value(header) == Some(byte_len(content) as usize));
    assert(has_prefix_ignore_ascii_case(header, "content-length:"@));
    assert(header.len() > 2);
}

} // verus!
