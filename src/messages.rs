//! Decoding of the raw text that arrives on the trigger transport.
//!
//! A transport message may carry a leading `"trigger "` topic token, which
//! is dropped. The payload left over is blank, a structured trigger record (a
//! JSON object whose members are all numbers), a malformed record, or a
//! plain-text command such as `kill`.

use crate::text::{is_white_space, white_space};
use vstd::string::StrSliceExecFns;
use vstd::string::StringExecFns;
use vstd::prelude::*;

verus! {

/// The part of a trigger record that the capture logic reads: the object
/// that was detected and the frame number that names the exported clip.
#[derive(Clone, Copy, Debug, PartialEq, Eq, Structural)]
pub struct TriggerEvent {
    pub obj_id: u32,
    pub frame: u64,
}

/// A decoded transport message.
#[derive(Debug)]
pub enum MessageType {
    /// Nothing to act on this cycle.
    Empty,
    /// A structured trigger record.
    JsonData(TriggerEvent),
    /// Free text, e.g. the shutdown command `kill`.
    Text(String),
    /// A record whose shape does not fit: the raw payload and the reason.
    InvalidJson(String, String),
}

/// The mathematical content of a [`MessageType`].
pub enum MessageView {
    Empty,
    Trigger(TriggerEvent),
    Text(Seq<char>),
    Invalid(Seq<char>, Seq<char>),
}

impl View for MessageType {
    type V = MessageView;

    open spec fn view(&self) -> MessageView {
        match self {
            MessageType::Empty => MessageView::Empty,
            MessageType::JsonData(e) => MessageView::Trigger(*e),
            MessageType::Text(t) => MessageView::Text(t@),
            MessageType::InvalidJson(raw, why) => MessageView::Invalid(raw@, why@),
        }
    }
}

/// Why the JSON reader refused a text: whether the text was well-formed JSON
/// of the wrong shape (a data error), and the reader's own description.
pub struct JsonFault {
    pub is_data: bool,
    pub message: String,
}

/// The outcome of reading a text as a JSON object whose members are all
/// numbers: its members in the reader's order, each with its value when that
/// is an unsigned 64-bit integer; or whether the failure was a data error,
/// with the reader's description.
pub uninterp spec fn json_number_object(s: Seq<char>) -> Result<
    Seq<(Seq<char>, Option<u64>)>,
    (bool, Seq<char>),
>;

/// The members of a decoded object, with their names as character sequences.
pub open spec fn members_view(v: Seq<(String, Option<u64>)>) -> Seq<(Seq<char>, Option<u64>)> {
    v.map_values(|e: (String, Option<u64>)| (e.0@, e.1))
}

/// The mathematical content of what the JSON reader returned.
pub open spec fn parsed_view(r: Result<Vec<(String, Option<u64>)>, JsonFault>) -> Result<
    Seq<(Seq<char>, Option<u64>)>,
    (bool, Seq<char>),
> {
    match r {
        Ok(v) => Ok(members_view(v@)),
        Err(f) => Err((f.is_data, f.message@)),
    }
}

/// Relies on `serde_json::from_str` read into a `BTreeMap<String,
/// serde_json::Number>`, and on `Number::as_u64`, `Error::is_data` and the
/// error's `Display`: the outcome depends on the text alone.
#[verifier::external_body]
fn read_json_number_object(s: &str) -> (r: Result<Vec<(String, Option<u64>)>, JsonFault>)
    ensures
        parsed_view(r) == json_number_object(s@),
{
    match serde_json::from_str::<std::collections::BTreeMap<String, serde_json::Number>>(s) {
        Ok(m) => Ok(m.into_iter().map(|(k, n)| (k, n.as_u64())).collect()),
        Err(e) => Err(JsonFault { is_data: e.is_data(), message: e.to_string() }),
    }
}

/// Whether `s` holds white space only (or nothing).
pub open spec fn is_blank(s: Seq<char>) -> bool {
    forall|i: int| 0 <= i < s.len() ==> is_white_space(#[trigger] s[i])
}

/// Whether the first character of `s` that is not white space opens a JSON
/// object or array, so that `s` is meant as structured data.
pub open spec fn is_structured(s: Seq<char>) -> bool {
    exists|i: int|
        0 <= i < s.len() && (forall|j: int| 0 <= j < i ==> is_white_space(#[trigger] s[j]))
            && (s[i] == '{' || s[i] == '[')
}

/// The value of the first member named `k`, if any.
pub open spec fn member(v: Seq<(Seq<char>, Option<u64>)>, k: Seq<char>) -> Option<Option<u64>>
    decreases v.len(),
{
    if v.len() == 0 {
        None
    } else if v[0].0 == k {
        Some(v[0].1)
    } else {
        member(v.drop_first(), k)
    }
}

pub open spec fn obj_id_key() -> Seq<char> {
    seq!['o', 'b', 'j', '_', 'i', 'd']
}

pub open spec fn frame_key() -> Seq<char> {
    seq!['f', 'r', 'a', 'm', 'e']
}

/// The reason given when `obj_id` is not an unsigned 32-bit integer.
pub open spec fn bad_obj_id() -> Seq<char> {
    "invalid value for obj_id: expected an unsigned 32-bit integer"@
}

/// The reason given when `frame` is not an unsigned 64-bit integer.
pub open spec fn bad_frame() -> Seq<char> {
    "invalid value for frame: expected an unsigned 64-bit integer"@
}

/// The trigger held in the members of a record. A missing `obj_id` or
/// `frame` counts as zero; a present one must be an unsigned integer that
/// fits its field.
pub open spec fn record_of(v: Seq<(Seq<char>, Option<u64>)>) -> Result<TriggerEvent, Seq<char>> {
    let id = member(v, obj_id_key());
    let fr = member(v, frame_key());
    if id matches Some(x) && !(x matches Some(n) && n <= u32::MAX) {
        Err(bad_obj_id())
    } else if fr matches Some(x) && x is None {
        Err(bad_frame())
    } else {
        Ok(
            TriggerEvent {
                obj_id: match id {
                    Some(Some(n)) => n as u32,
                    _ => 0,
                },
                frame: match fr {
                    Some(Some(n)) => n,
                    _ => 0,
                },
            },
        )
    }
}

/// How a payload is classified, given what the JSON reader made of it.
pub open spec fn classify(
    p: Seq<char>,
    parsed: Result<Seq<(Seq<char>, Option<u64>)>, (bool, Seq<char>)>,
) -> MessageView {
    if is_blank(p) {
        MessageView::Empty
    } else {
        match parsed {
            Ok(v) => match record_of(v) {
                Ok(e) => MessageView::Trigger(e),
                Err(why) => MessageView::Invalid(p, why),
            },
            Err((data, why)) => if data || is_structured(p) {
                MessageView::Invalid(p, why)
            } else {
                MessageView::Text(p)
            },
        }
    }
}

/// The shutdown command.
pub open spec fn kill_command() -> Seq<char> {
    seq!['k', 'i', 'l', 'l']
}

/// The topic that trigger messages are published under.
pub const TRIGGER_TOPIC: &'static str = "trigger";

/// The payload of a transport message published under `topic`: a leading
/// `"<topic> "` is dropped; a message without it is kept whole.
pub open spec fn payload_of(m: Seq<char>, topic: Seq<char>) -> Seq<char> {
    if m.len() > topic.len() && m.subrange(0, topic.len() as int) == topic && m[topic.len() as int]
        == ' ' {
        m.subrange(topic.len() as int + 1, m.len() as int)
    } else {
        m
    }
}

/// How a whole transport message is decoded, given what the JSON reader made
/// of its payload.
pub open spec fn decode(
    m: Seq<char>,
    parsed: Result<Seq<(Seq<char>, Option<u64>)>, (bool, Seq<char>)>,
) -> MessageView {
    classify(payload_of(m, TRIGGER_TOPIC@), parsed)
}

/// The position of the first character of `s` that is not white space.
fn first_non_blank(s: &str) -> (r: Option<usize>)
    ensures
        match r {
            None => is_blank(s@),
            Some(i) => i < s@.len() && !is_white_space(s@[i as int]) && (forall|j: int|
                0 <= j < i ==> is_white_space(#[trigger] s@[j])),
        },
{
    let n = s.unicode_len();
    let mut i: usize = 0;
    while i < n
        invariant
            n == s@.len(),
            i <= n,
            forall|j: int| 0 <= j < i ==> is_white_space(#[trigger] s@[j]),
        decreases n - i,
    {
        if !white_space(s.get_char(i)) {
            return Some(i);
        }
        i = i + 1;
    }
    None
}

/// Whether `s` is white space only, and whether it is meant as structured
/// data.
fn blank_and_structured(s: &str) -> (r: (bool, bool))
    ensures
        r.0 == is_blank(s@),
        r.1 == is_structured(s@),
{
    match first_non_blank(s) {
        None => {
            assert(!is_structured(s@));
            (true, false)
        },
        Some(i) => {
            let c = s.get_char(i);
            let structured = c == '{' || c == '[';
            assert(!is_blank(s@));
            proof {
                if is_structured(s@) {
                    let k = choose|k: int|
                        0 <= k < s@.len() && (forall|j: int|
                            0 <= j < k ==> is_white_space(#[trigger] s@[j])) && (s@[k] == '{'
                            || s@[k] == '[');
                    if k < i {
                        assert(is_white_space(s@[k]));
                    } else if k > i {
                        assert(is_white_space(s@[i as int]));
                    }
                }
            }
            (false, structured)
        },
    }
}

/// The value of the first member named `key`, if any.
fn find_member(entries: &Vec<(String, Option<u64>)>, key: &String) -> (r: Option<Option<u64>>)
    ensures
        r == member(members_view(entries@), key@),
{
    let ghost v = members_view(entries@);
    let n = entries.len();
    let mut i: usize = 0;
    assert(v.subrange(0, n as int) =~= v);
    while i < n
        invariant
            n == entries@.len(),
            v == members_view(entries@),
            v.len() == n,
            i <= n,
            member(v, key@) == member(v.subrange(i as int, n as int), key@),
        decreases n - i,
    {
        let ghost rest = v.subrange(i as int, n as int);
        assert(rest[0] == v[i as int]);
        assert(rest.drop_first() =~= v.subrange(i + 1, n as int));
        if entries[i].0 == *key {
            return Some(entries[i].1);
        }
        i = i + 1;
    }
    assert(v.subrange(n as int, n as int).len() == 0);
    None
}

/// The trigger held in the members of a decoded record, or why there is none.
fn record_from(entries: &Vec<(String, Option<u64>)>) -> (r: Result<TriggerEvent, String>)
    ensures
        match r {
            Ok(e) => record_of(members_view(entries@)) == Ok::<TriggerEvent, Seq<char>>(e),
            Err(why) => record_of(members_view(entries@)) == Err::<TriggerEvent, Seq<char>>(why@),
        },
{
    proof {
        reveal_strlit("obj_id");
        reveal_strlit("frame");
    }
    let id_key = String::from_str("obj_id");
    let frame_key_s = String::from_str("frame");
    assert(id_key@ =~= obj_id_key());
    assert(frame_key_s@ =~= frame_key());
    let id = find_member(entries, &id_key);
    let fr = find_member(entries, &frame_key_s);
    let obj_id: u32 = match id {
        None => 0,
        Some(Some(n)) => {
            if n <= u32::MAX as u64 {
                n as u32
            } else {
                return Err(
                    String::from_str(
                        "invalid value for obj_id: expected an unsigned 32-bit integer",
                    ),
                );
            }
        },
        Some(None) => {
            return Err(
                String::from_str("invalid value for obj_id: expected an unsigned 32-bit integer"),
            );
        },
    };
    let frame: u64 = match fr {
        None => 0,
        Some(Some(n)) => n,
        Some(None) => {
            return Err(
                String::from_str("invalid value for frame: expected an unsigned 64-bit integer"),
            );
        },
    };
    Ok(TriggerEvent { obj_id, frame })
}

/// Classifies `payload` given what the JSON reader made of it: blank text is
/// `Empty`; a record that fits is a trigger; a record that does not, or a
/// failed read of well-formed JSON or of text that opens an object or array,
/// is `InvalidJson`; anything else is a text command.
pub fn classify_message(
    payload: &str,
    parsed: Result<Vec<(String, Option<u64>)>, JsonFault>,
) -> (r: MessageType)
    ensures
        r@ == classify(payload@, parsed_view(parsed)),
{
    let (blank, structured) = blank_and_structured(payload);
    if blank {
        return MessageType::Empty;
    }
    match parsed {
        Ok(entries) => match record_from(&entries) {
            Ok(e) => MessageType::JsonData(e),
            Err(why) => MessageType::InvalidJson(String::from_str(payload), why),
        },
        Err(fault) => {
            if fault.is_data || structured {
                MessageType::InvalidJson(String::from_str(payload), fault.message)
            } else {
                MessageType::Text(String::from_str(payload))
            }
        },
    }
}

/// Decodes a payload that has no topic token.
pub fn parse_message(message: &str) -> (r: MessageType)
    ensures
        r@ == classify(message@, json_number_object(message@)),
{
    let (blank, _) = blank_and_structured(message);
    if blank {
        return MessageType::Empty;
    }
    classify_message(message, read_json_number_object(message))
}

/// The payload of a transport message published under `topic`: a leading
/// `"<topic> "` is dropped; any other message is kept whole.
pub fn split_topic(full: &str, topic: &str) -> (r: String)
    ensures
        r@ == payload_of(full@, topic@),
{
    let n = full.unicode_len();
    let t = topic.unicode_len();
    if n > t && full.get_char(t) == ' ' {
        let head = String::from_str(full.substring_char(0, t));
        if head == String::from_str(topic) {
            return String::from_str(full.substring_char(t + 1, n));
        }
    }
    String::from_str(full)
}

/// Decodes a whole transport message: the topic token is dropped, then the
/// payload is classified.
pub fn decode_message(full: &str) -> (r: MessageType)
    ensures
        r@ == decode(full@, json_number_object(payload_of(full@, TRIGGER_TOPIC@))),
{
    let payload = split_topic(full, TRIGGER_TOPIC);
    parse_message(payload.as_str())
}

/// Whether `text` is the shutdown command.
pub fn is_kill(text: &str) -> (r: bool)
    ensures
        r == (text@ == kill_command()),
{
    proof {
        reveal_strlit("kill");
    }
    let kill = String::from_str("kill");
    let t = String::from_str(text);
    assert(kill@ =~= kill_command());
    t == kill
}

/// What the trigger listener does with the outcome of one poll.
#[derive(Debug)]
pub enum ListenerAction {
    /// Nothing arrived: poll again after a short pause.
    Wait,
    /// Hand the decoded message to the capture controller and keep polling.
    Forward(MessageType),
    /// Hand the decoded shutdown command on, then stop listening.
    ForwardAndStop(MessageType),
}

/// Decides the trigger listener's next action from one poll of the
/// transport: `None` when nothing arrived (or the poll failed).
pub fn listener_step(polled: Option<&str>) -> (r: ListenerAction)
    ensures
        polled is None <==> r is Wait,
        polled matches Some(m) ==> ({
            let d = decode(m@, json_number_object(payload_of(m@, TRIGGER_TOPIC@)));
            match r {
                ListenerAction::Forward(x) => x@ == d && d != MessageView::Text(kill_command()),
                ListenerAction::ForwardAndStop(x) => x@ == d && d == MessageView::Text(kill_command()),
                ListenerAction::Wait => false,
            }
        }),
{
    match polled {
        None => ListenerAction::Wait,
        Some(m) => {
            let d = decode_message(m);
            let stop = match &d {
                MessageType::Text(t) => is_kill(t.as_str()),
                _ => false,
            };
            if stop {
                ListenerAction::ForwardAndStop(d)
            } else {
                ListenerAction::Forward(d)
            }
        },
    }
}

} // verus!
