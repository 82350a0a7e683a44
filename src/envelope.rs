//! The task envelope: the unit pushed onto the broker queue.

use base64::Engine;
use rand::Rng;
use serde_json::Value;
use std::collections::HashMap;
use vstd::prelude::*;
use vstd::utf8::encode_utf8;

verus! {

#[verifier::external_type_specification]
#[verifier::external_body]
pub struct ExValue(serde_json::Value);

#[verifier::external_type_specification]
#[verifier::external_body]
#[verifier::reject_recursive_types(K)]
#[verifier::reject_recursive_types(V)]
pub struct ExJsonMap<K, V>(serde_json::Map<K, V>);

/// The compact JSON text that serde_json writes for an array of values.
pub uninterp spec fn json_of_array(items: Seq<Value>) -> Seq<char>;

/// The compact JSON text that serde_json writes for an object.
pub uninterp spec fn json_of_object(entries: serde_json::Map<String, Value>) -> Seq<char>;

/// The standard base64 alphabet: the digit of value `v` is its `v`th character.
pub open spec fn base64_alphabet() -> Seq<char> {
    "ABCDEFGHIJKLMNOPQRSTUVWXYZabcdefghijklmnopqrstuvwxyz0123456789+/"@
}

pub open spec fn base64_digit(v: int) -> char {
    base64_alphabet()[v]
}

/// The padded standard base64 text of a byte string: each group of three
/// bytes becomes four digits of six bits each; a last group of one or two
/// bytes is filled with zero bits and padded with `=` to four characters.
pub open spec fn base64_of(bytes: Seq<u8>) -> Seq<char>
    decreases bytes.len(),
{
    if bytes.len() == 0 {
        seq![]
    } else if bytes.len() == 1 {
        let x = bytes[0] as int;
        seq![base64_digit(x / 4), base64_digit((x % 4) * 16), '=', '=']
    } else if bytes.len() == 2 {
        let x = bytes[0] as int;
        let y = bytes[1] as int;
        seq![
            base64_digit(x / 4),
            base64_digit((x % 4) * 16 + y / 16),
            base64_digit((y % 16) * 4),
            '=',
        ]
    } else {
        let x = bytes[0] as int;
        let y = bytes[1] as int;
        let z = bytes[2] as int;
        seq![
            base64_digit(x / 4),
            base64_digit((x % 4) * 16 + y / 16),
            base64_digit((y % 16) * 4 + z / 64),
            base64_digit(z % 64),
        ] + base64_of(bytes.subrange(3, bytes.len() as int))
    }
}

/// Relies on serde_json::to_string on a `Vec<Value>`: compact JSON text, and no
/// failure, since a `Value` always serialises.
#[verifier::external_body]
fn array_json(items: &Vec<Value>) -> (r: String)
    ensures
        r@ == json_of_array(items@),
{
    serde_json::to_string(items).unwrap_or_default()
}

/// Relies on serde_json::to_string on a `Map<String, Value>`: compact JSON text,
/// and no failure, since its keys are strings and its values always serialise.
#[verifier::external_body]
fn object_json(entries: &serde_json::Map<String, Value>) -> (r: String)
    ensures
        r@ == json_of_object(*entries),
{
    serde_json::to_string(entries).unwrap_or_default()
}

/// Relies on base64's `STANDARD` engine `encode`: padded standard base64.
#[verifier::external_body]
fn encode_base64(bytes: &[u8]) -> (r: String)
    ensures
        r@ == base64_of(bytes@),
{
    base64::engine::general_purpose::STANDARD.encode(bytes)
}

/// Relies on base64's `STANDARD` engine `decode`, which demands canonical
/// padding and no trailing bits: it accepts exactly the texts that `encode`
/// writes, and gives back the bytes they were written from.
#[verifier::external_body]
fn decode_base64(text: &str) -> (r: Option<Vec<u8>>)
    ensures
        decodes_to(text@, opt_bytes(r)),
{
    base64::engine::general_purpose::STANDARD.decode(text).ok()
}

/// Relies on uuid's `Uuid::new_v4`, a random version 4 UUID of the RFC 4122
/// variant, and its `Display` text: lowercase hex digits in groups of
/// 8-4-4-4-12, joined by hyphens.
#[verifier::external_body]
fn new_uuid_text() -> (r: String)
    ensures
        is_uuid_v4_text(r@),
{
    uuid::Uuid::new_v4().to_string()
}

/// Relies on rand's `thread_rng().gen_range(0..n)`: a number below `n`; it
/// panics on an empty range, hence `n > 0`.
#[verifier::external_body]
fn random_below(n: usize) -> (r: usize)
    requires
        n > 0,
    ensures
        r < n,
{
    rand::thread_rng().gen_range(0..n)
}

pub open spec fn opt_bytes(r: Option<Vec<u8>>) -> Option<Seq<u8>> {
    match r {
        Some(v) => Some(v@),
        None => None,
    }
}

/// `decoded` is what base64 decoding of `text` gives: the bytes whose encoding
/// is `text`, or nothing where no bytes encode to it.
pub open spec fn decodes_to(text: Seq<char>, decoded: Option<Seq<u8>>) -> bool {
    &&& forall|b: Seq<u8>| #[trigger] base64_of(b) == text ==> decoded == Some(b)
    &&& decoded matches Some(d) ==> base64_of(d) == text
}

/// Length of the random part of an origin.
pub const ORIGIN_NAME_LEN: usize = 16;

pub open spec fn is_origin_char(c: char) -> bool {
    ('a' <= c && c <= 'z') || ('0' <= c && c <= '9')
}

/// A random lowercase-alphanumeric name.
pub open spec fn is_random_name(s: Seq<char>, length: nat) -> bool {
    &&& s.len() == length
    &&& forall|i: int| 0 <= i < s.len() ==> is_origin_char(#[trigger] s[i])
}

/// An origin: a random name of `ORIGIN_NAME_LEN` characters, then `@localhost`.
pub open spec fn is_origin(s: Seq<char>) -> bool {
    &&& s.len() == ORIGIN_NAME_LEN + "@localhost"@.len()
    &&& is_random_name(s.subrange(0, ORIGIN_NAME_LEN as int), ORIGIN_NAME_LEN as nat)
    &&& s.subrange(ORIGIN_NAME_LEN as int, s.len() as int) == "@localhost"@
}

/// A string of `length` characters, each drawn at random from `a..z` and `0..9`.
pub fn get_random_string(length: usize) -> (r: String)
    ensures
        is_random_name(r@, length as nat),
{
    let alphabet: &str = "abcdefghijklmnopqrstuvwxyz0123456789";
    proof {
        reveal_strlit("abcdefghijklmnopqrstuvwxyz0123456789");
    }
    assert(alphabet@.len() == 36);
    assert(forall|i: int| 0 <= i < 36 ==> is_origin_char(#[trigger] alphabet@[i]));
    assert(alphabet.is_ascii());
    let mut result = String::new();
    let mut n: usize = 0;
    while n < length
        invariant
            n <= length,
            alphabet@.len() == 36,
            alphabet.is_ascii(),
            forall|i: int| 0 <= i < 36 ==> is_origin_char(#[trigger] alphabet@[i]),
            is_random_name(result@, n as nat),
        decreases length - n,
    {
        let k = random_below(36);
        let piece = alphabet.substring_ascii(k, k + 1);
        let ghost prev = result@;
        result.append(piece);
        assert(result@ == prev + alphabet@.subrange(k as int, k + 1));
        assert(is_origin_char(result@[n as int]));
        n = n + 1;
    }
    result
}

/// The origin of an envelope: a random name followed by `@localhost`.
pub fn get_random_origin() -> (r: String)
    ensures
        is_origin(r@),
{
    let mut origin = get_random_string(ORIGIN_NAME_LEN);
    let ghost name = origin@;
    origin.append("@localhost");
    assert(origin@.subrange(0, ORIGIN_NAME_LEN as int) == name);
    assert(origin@.subrange(ORIGIN_NAME_LEN as int, origin@.len() as int) == "@localhost"@);
    origin
}

/// Name of the broker queue that envelopes are routed to.
pub const QUEUE_NAME: &'static str = "celery";

#[derive(Clone, Debug)]
pub struct Headers {
    pub lang: String,
    pub task: String,
    pub id: String,
    pub shadow: Option<String>,
    pub eta: Option<String>,
    pub expires: Option<String>,
    pub group: Option<String>,
    pub group_index: Option<u32>,
    pub retries: u32,
    pub timelimit: [Option<u32>; 2],
    pub root_id: String,
    pub parent_id: Option<String>,
    pub argsrepr: String,
    pub kwargsrepr: String,
    pub origin: String,
    pub ignore_result: bool,
    pub replaced_task_nesting: u32,
    pub stamped_headers: Option<String>,
    pub stamps: HashMap<String, u32>,
}

#[derive(Clone, Debug)]
pub struct DeliveryInfo {
    pub exchange: String,
    pub routing_key: String,
}

#[derive(Clone, Debug)]
pub struct Properties {
    pub correlation_id: String,
    pub reply_to: String,
    pub delivery_mode: u8,
    pub delivery_info: DeliveryInfo,
    pub priority: u8,
    pub body_encoding: String,
    pub delivery_tag: String,
}

/// The execution options carried third in an envelope's body; none of them
/// is ever set by the producer, and the body writes them all as null, in
/// the order of these fields (see `options_json`).
#[derive(Clone, Copy, Debug, PartialEq, Eq)]
pub struct TaskDetails {
    pub callbacks: Option<()>,
    pub errbacks: Option<()>,
    pub chain: Option<()>,
    pub chord: Option<()>,
}

#[derive(Clone, Debug)]
pub struct Payload {
    pub body: String,
    pub content_encoding: String,
    pub content_type: String,
    pub headers: Headers,
    pub properties: Properties,
}

/// JSON text of the execution options, in the field order of `TaskDetails`,
/// all null.
pub open spec fn options_json() -> Seq<char> {
    "{\"callbacks\":null,\"errbacks\":null,\"chain\":null,\"chord\":null}"@
}

/// JSON text of an envelope's body: the array `[args, kwargs, options]`.
pub open spec fn body_json(args: Seq<Value>, kwargs: serde_json::Map<String, Value>) -> Seq<char> {
    "["@ + json_of_array(args) + ","@ + json_of_object(kwargs) + ","@ + options_json() + "]"@
}

/// The encoded body of an envelope: base64 of the UTF-8 bytes of `body_json`.
pub open spec fn encoded_body(args: Seq<Value>, kwargs: serde_json::Map<String, Value>) -> Seq<char> {
    base64_of(encode_utf8(body_json(args, kwargs)))
}

pub open spec fn is_lower_hex_digit(c: char) -> bool {
    ('0' <= c && c <= '9') || ('a' <= c && c <= 'f')
}

/// `s` is the hyphenated lowercase text of a version 4 UUID: 36 characters,
/// hyphens at positions 8, 13, 18 and 23, lowercase hex digits elsewhere, the
/// version digit `4` at position 14 and a variant digit of `8`, `9`, `a` or
/// `b` at position 19.
pub open spec fn is_uuid_v4_text(s: Seq<char>) -> bool {
    &&& s.len() == 36
    &&& forall|i: int|
        0 <= i < 36 ==> if i == 8 || i == 13 || i == 18 || i == 23 {
            #[trigger] s[i] == '-'
        } else {
            is_lower_hex_digit(s[i])
        }
    &&& s[14] == '4'
    &&& s[19] == '8' || s[19] == '9' || s[19] == 'a' || s[19] == 'b'
}

impl Headers {
    /// Headers of a fresh envelope for `task`: new ids, no retries, no chain,
    /// no group, no eta or expiry, no stamps.
    pub open spec fn is_fresh(&self, task: Seq<char>) -> bool {
        &&& self.lang@ == "py"@
        &&& self.task@ == task
        &&& is_uuid_v4_text(self.id@)
        &&& is_uuid_v4_text(self.root_id@)
        &&& self.shadow is None
        &&& self.eta is None
        &&& self.expires is None
        &&& self.group is None
        &&& self.group_index is None
        &&& self.retries == 0
        &&& self.timelimit@ == seq![None::<u32>, None::<u32>]
        &&& self.parent_id is None
        &&& is_origin(self.origin@)
        &&& !self.ignore_result
        &&& self.replaced_task_nesting == 0
        &&& self.stamped_headers is None
        &&& self.stamps@ == Map::<String, u32>::empty()
    }
}

impl Properties {
    /// Transport properties of a fresh envelope: new correlation, reply and
    /// delivery ids, persistent delivery to the task queue, priority 0.
    pub open spec fn is_fresh(&self) -> bool {
        &&& is_uuid_v4_text(self.correlation_id@)
        &&& is_uuid_v4_text(self.reply_to@)
        &&& is_uuid_v4_text(self.delivery_tag@)
        &&& self.delivery_mode == 2
        &&& self.delivery_info.exchange@ == ""@
        &&& self.delivery_info.routing_key@ == QUEUE_NAME@
        &&& self.priority == 0
        &&& self.body_encoding@ == "base64"@
    }
}

impl Payload {
    /// The envelope is a fresh one for `task` with positional arguments `args`
    /// and keyword arguments `kwargs`.
    pub open spec fn is_built_from(
        &self,
        task: Seq<char>,
        args: Seq<Value>,
        kwargs: serde_json::Map<String, Value>,
    ) -> bool {
        &&& self.body@ == encoded_body(args, kwargs)
        &&& self.content_encoding@ == "utf-8"@
        &&& self.content_type@ == "application/json"@
        &&& self.headers.is_fresh(task)
        &&& self.headers.argsrepr@ == json_of_array(args)
        &&& self.headers.kwargsrepr@ == json_of_object(kwargs)
        &&& self.properties.is_fresh()
    }
}

/// Builds the envelope for one submission of `task` with `args` and `kwargs`.
pub fn create_task(task: &str, args: Vec<Value>, kwargs: serde_json::Map<String, Value>) -> (r:
    Payload)
    ensures
        r.is_built_from(task@, args@, kwargs),
{
    let args_text = array_json(&args);
    let kwargs_text = object_json(&kwargs);
    let mut text = String::from_str("[");
    text.append(args_text.as_str());
    text.append(",");
    text.append(kwargs_text.as_str());
    text.append(",");
    text.append("{\"callbacks\":null,\"errbacks\":null,\"chain\":null,\"chord\":null}");
    text.append("]");
    let body = encode_base64(text.as_str().as_bytes());
    let headers = Headers {
        lang: String::from_str("py"),
        task: task.to_owned(),
        id: new_uuid_text(),
        shadow: None,
        eta: None,
        expires: None,
        group: None,
        group_index: None,
        retries: 0,
        timelimit: [None, None],
        root_id: new_uuid_text(),
        parent_id: None,
        argsrepr: args_text,
        kwargsrepr: kwargs_text,
        origin: get_random_origin(),
        ignore_result: false,
        replaced_task_nesting: 0,
        stamped_headers: None,
        stamps: HashMap::new(),
    };
    let properties = Properties {
        correlation_id: new_uuid_text(),
        reply_to: new_uuid_text(),
        delivery_mode: 2,
        delivery_info: DeliveryInfo {
            exchange: String::from_str(""),
            routing_key: String::from_str(QUEUE_NAME),
        },
        priority: 0,
        body_encoding: String::from_str("base64"),
        delivery_tag: new_uuid_text(),
    };
    let r = Payload {
        body,
        content_encoding: String::from_str("utf-8"),
        content_type: String::from_str("application/json"),
        headers,
        properties,
    };
    assert(r.headers.timelimit@ == seq![None::<u32>, None::<u32>]);
    r
}

/// Decodes an envelope body back to the bytes of its JSON text; `None` where
/// the body is not base64 text.
pub fn decode_body(body: &str) -> (r: Option<Vec<u8>>)
    ensures
        decodes_to(body@, opt_bytes(r)),
{
    decode_base64(body)
}

/// Decoding the body of an envelope built from `args` and `kwargs` gives back
/// exactly the UTF-8 text of the JSON array `[args, kwargs, options]`, with
/// the four options null.
pub proof fn lemma_body_round_trip(
    args: Seq<Value>,
    kwargs: serde_json::Map<String, Value>,
    p: Payload,
    decoded: Option<Seq<u8>>,
)
    requires
        p.is_built_from(p.headers.task@, args, kwargs),
        decodes_to(p.body@, decoded),
    ensures
        decoded == Some(encode_utf8(body_json(args, kwargs))),
{
}

} // verus!
