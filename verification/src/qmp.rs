//! QMP (QEMU Machine Protocol) messages: commands are built as JSON values and written
//! by serde_json; received lines are parsed by serde_json and read here.
use vstd::prelude::*;
use crate::text::{str_eq, trim, trim_range, push_dec, dec};

verus! {

/// `serde_json::Number`, carried through unchanged.
#[verifier::external_type_specification]
#[verifier::external_body]
pub struct ExNumber(serde_json::Number);

/// `serde_json::Value`, the crate's own JSON tree.
#[verifier::external_type_specification]
#[verifier::external_body]
pub struct ExValue(serde_json::Value);

/// A JSON number: its value where it is a non-negative integer that fits `u64`, and the
/// number as serde_json holds it.
#[derive(Debug, PartialEq)]
pub struct JsonNumber {
    pub unsigned: Option<u64>,
    pub raw: serde_json::Number,
}

/// A JSON value as the library reads and builds it. Object members keep the order
/// serde_json gives them (sorted by key).
#[derive(Debug, PartialEq)]
pub enum Json {
    Null,
    Bool(bool),
    Number(JsonNumber),
    Str(String),
    Array(Vec<Json>),
    Object(Vec<(String, Json)>),
}

/// A JSON value as values: texts as character sequences, arrays and objects as
/// sequences.
pub enum JsonV {
    Null,
    Bool(bool),
    Number(Option<u64>, serde_json::Number),
    Str(Seq<char>),
    Array(Seq<JsonV>),
    Object(Seq<(Seq<char>, JsonV)>),
}

/// The value a JSON tree stands for.
pub open spec fn json_view(j: Json) -> JsonV
    decreases j,
{
    match j {
        Json::Null => JsonV::Null,
        Json::Bool(b) => JsonV::Bool(b),
        Json::Number(n) => JsonV::Number(n.unsigned, n.raw),
        Json::Str(s) => JsonV::Str(s@),
        Json::Array(a) => JsonV::Array(items_view(a@)),
        Json::Object(m) => JsonV::Object(members_view(m@)),
    }
}

/// The values of array items.
pub open spec fn items_view(s: Seq<Json>) -> Seq<JsonV>
    decreases s,
{
    if s.len() == 0 {
        Seq::empty()
    } else {
        items_view(s.subrange(0, s.len() - 1)).push(json_view(s[s.len() - 1]))
    }
}

/// The values of object members.
pub open spec fn members_view(s: Seq<(String, Json)>) -> Seq<(Seq<char>, JsonV)>
    decreases s,
{
    if s.len() == 0 {
        Seq::empty()
    } else {
        members_view(s.subrange(0, s.len() - 1)).push((s[s.len() - 1].0@, json_view(s[s.len() - 1].1)))
    }
}

impl View for Json {
    type V = JsonV;

    open spec fn view(&self) -> JsonV {
        json_view(*self)
    }
}

/// Item `i` of an array's values is the value of item `i`.
pub proof fn lemma_items_view(s: Seq<Json>)
    ensures
        items_view(s).len() == s.len(),
        forall|i: int| 0 <= i < s.len() ==> #[trigger] items_view(s)[i] == json_view(s[i]),
    decreases s.len(),
{
    if s.len() > 0 {
        let t = s.subrange(0, s.len() - 1);
        lemma_items_view(t);
        assert forall|i: int| 0 <= i < s.len() implies #[trigger] items_view(s)[i] == json_view(s[i]) by {
            if i < s.len() - 1 {
                assert(t[i] == s[i]);
            }
        }
    }
}

/// Member `i` of an object's values is the value of member `i`.
pub proof fn lemma_members_view(s: Seq<(String, Json)>)
    ensures
        members_view(s).len() == s.len(),
        forall|i: int| 0 <= i < s.len() ==> #[trigger] members_view(s)[i] == (s[i].0@, json_view(s[i].1)),
    decreases s.len(),
{
    if s.len() > 0 {
        let t = s.subrange(0, s.len() - 1);
        lemma_members_view(t);
        assert forall|i: int| 0 <= i < s.len() implies #[trigger] members_view(s)[i] == (s[i].0@, json_view(s[i].1)) by {
            if i < s.len() - 1 {
                assert(t[i] == s[i]);
            }
        }
    }
}

/// What `serde_json::from_str::<Value>` makes of a text (`None` where the text is no JSON).
pub uninterp spec fn json_parse(text: Seq<char>) -> Option<JsonV>;

/// The compact JSON text that serde_json writes for a value (`Value::to_string`).
pub uninterp spec fn json_serialize(v: JsonV) -> Seq<char>;

/// Converts a serde_json value into the library's tree, member by member.
#[verifier::external_body]
fn from_value(v: serde_json::Value) -> Json {
    match v {
        serde_json::Value::Null => Json::Null,
        serde_json::Value::Bool(b) => Json::Bool(b),
        serde_json::Value::Number(n) => Json::Number(JsonNumber { unsigned: n.as_u64(), raw: n }),
        serde_json::Value::String(s) => Json::Str(s),
        serde_json::Value::Array(a) => Json::Array(a.into_iter().map(from_value).collect()),
        serde_json::Value::Object(m) => Json::Object(m.into_iter().map(|(k, x)| (k, from_value(x))).collect()),
    }
}

/// Converts the library's tree into a serde_json value, member by member.
#[verifier::external_body]
fn to_value(v: &Json) -> serde_json::Value {
    match v {
        Json::Null => serde_json::Value::Null,
        Json::Bool(b) => serde_json::Value::Bool(*b),
        Json::Number(n) => serde_json::Value::Number(n.raw.clone()),
        Json::Str(s) => serde_json::Value::String(s.clone()),
        Json::Array(a) => serde_json::Value::Array(a.iter().map(to_value).collect()),
        Json::Object(m) => serde_json::Value::Object(m.iter().map(|(k, x)| (k.clone(), to_value(x))).collect()),
    }
}

/// Calls `serde_json::from_str::<serde_json::Value>`; the result is named by `json_parse`.
#[verifier::external_body]
fn parse_json(text: &str) -> (r: Option<Json>)
    ensures
        match r {
            Some(j) => json_parse(text@) == Some(j@),
            None => json_parse(text@) is None,
        },
{
    serde_json::from_str::<serde_json::Value>(text).ok().map(from_value)
}

/// Calls `serde_json::Value::to_string`; the result is named by `json_serialize`.
#[verifier::external_body]
fn json_text(v: &Json) -> (r: String)
    ensures
        r@ == json_serialize(v@),
{
    to_value(v).to_string()
}

// ---------------------------------------------------------------------------
// Reading values
// ---------------------------------------------------------------------------

/// The first member named `key` from `i` on.
pub open spec fn member_from(m: Seq<(Seq<char>, JsonV)>, key: Seq<char>, i: int) -> Option<JsonV>
    decreases m.len() - i,
{
    if i < 0 || i >= m.len() {
        None
    } else if m[i].0 == key {
        Some(m[i].1)
    } else {
        member_from(m, key, i + 1)
    }
}

/// The member `key` of an object (`Value::get` with a key); none for other values.
pub open spec fn field(v: JsonV, key: Seq<char>) -> Option<JsonV> {
    match v {
        JsonV::Object(m) => member_from(m, key, 0),
        _ => None,
    }
}

/// The text of a string value (`Value::as_str`).
pub open spec fn as_str(v: Option<JsonV>) -> Option<Seq<char>> {
    match v {
        Some(JsonV::Str(s)) => Some(s),
        _ => None,
    }
}

/// The value of a number that is a non-negative integer (`Value::as_u64`).
pub open spec fn as_u64(v: Option<JsonV>) -> Option<u64> {
    match v {
        Some(JsonV::Number(n, _)) => n,
        _ => None,
    }
}

/// Index of the member `key` of an object.
fn member_index(m: &Vec<(String, Json)>, key: &str) -> (r: Option<usize>)
    ensures
        match r {
            Some(i) => i < m@.len() && member_from(members_view(m@), key@, 0) == Some(json_view(m@[i as int].1)),
            None => member_from(members_view(m@), key@, 0) is None,
        },
{
    proof {
        lemma_members_view(m@);
    }
    let mut i: usize = 0;
    while i < m.len()
        invariant
            i <= m@.len(),
            members_view(m@).len() == m@.len(),
            forall|j: int| 0 <= j < m@.len() ==> #[trigger] members_view(m@)[j] == (m@[j].0@, json_view(m@[j].1)),
            member_from(members_view(m@), key@, 0) == member_from(members_view(m@), key@, i as int),
        decreases m@.len() - i,
    {
        assert(members_view(m@)[i as int] == (m@[i as int].0@, json_view(m@[i as int].1)));
        if str_eq(m[i].0.as_str(), key) {
            return Some(i);
        }
        i = i + 1;
    }
    None
}

/// The member `key` of an object.
pub fn get<'a>(v: &'a Json, key: &str) -> (r: Option<&'a Json>)
    ensures
        match r {
            Some(x) => field(v@, key@) == Some(x@),
            None => field(v@, key@) is None,
        },
{
    match v {
        Json::Object(m) => match member_index(m, key) {
            Some(i) => Some(&m[i].1),
            None => None,
        },
        _ => None,
    }
}

/// The member `key` of an object, taken out of it.
pub fn take_member(v: Json, key: &str) -> (r: Option<Json>)
    ensures
        match r {
            Some(x) => field(v@, key@) == Some(x@),
            None => field(v@, key@) is None,
        },
{
    match v {
        Json::Object(m) => {
            let mut m = m;
            match member_index(&m, key) {
                Some(i) => {
                    let (_, x) = m.remove(i);
                    Some(x)
                },
                None => None,
            }
        },
        _ => None,
    }
}

/// The text of the member `key`, if it is a string.
pub fn get_str<'a>(v: &'a Json, key: &str) -> (r: Option<&'a str>)
    ensures
        match r {
            Some(s) => as_str(field(v@, key@)) == Some(s@),
            None => as_str(field(v@, key@)) is None,
        },
{
    match get(v, key) {
        Some(Json::Str(s)) => Some(s.as_str()),
        _ => None,
    }
}

/// The member `key` as a non-negative integer, or 0.
fn get_u64_or_zero(v: &Json, key: &str) -> (r: u64)
    ensures
        r == (match as_u64(field(v@, key@)) {
            Some(n) => n,
            None => 0,
        }),
{
    match get(v, key) {
        Some(Json::Number(n)) => match n.unsigned {
            Some(x) => x,
            None => 0,
        },
        _ => 0,
    }
}

// ---------------------------------------------------------------------------
// Messages
// ---------------------------------------------------------------------------

/// A message received from QEMU.
#[derive(Debug, PartialEq)]
pub enum Message {
    /// The greeting after connecting — `qmp_capabilities` must follow.
    Greeting { version: String },
    /// The answer to a command (member `return`), with its `id` if any.
    Return { id: Option<String>, value: Json },
    /// An error answer (`error.class`, `error.desc`).
    Error { id: Option<String>, class: String, desc: String },
    /// An asynchronous event (`SHUTDOWN`, `STOP`, `RESUME`, `RESET`, `POWERDOWN`, …).
    Event { name: String, data: Json },
}

/// The QEMU version of a greeting: `major.minor.micro` from `QMP.version.qemu`, each 0
/// where missing; empty without `version.qemu`.
pub open spec fn greeting_version(q: JsonV) -> Seq<char> {
    match field(q, "version"@) {
        Some(ver) => match field(ver, "qemu"@) {
            Some(x) => dec(match as_u64(field(x, "major"@)) { Some(n) => n as nat, None => 0 }) + "."@
                + dec(match as_u64(field(x, "minor"@)) { Some(n) => n as nat, None => 0 }) + "."@
                + dec(match as_u64(field(x, "micro"@)) { Some(n) => n as nat, None => 0 }),
            None => Seq::empty(),
        },
        None => Seq::empty(),
    }
}

/// What a received JSON value is: a greeting (member `QMP`), an answer (`return`), an
/// error (`error`) or an event (`event` with a string name) — tried in that order.
pub open spec fn message_ok(v: JsonV, r: Option<Message>) -> bool {
    match field(v, "QMP"@) {
        Some(q) => r matches Some(Message::Greeting { version }) && version@ == greeting_version(q),
        None => {
            let id = as_str(field(v, "id"@));
            let id_ok = |i: Option<String>| match i {
                Some(s) => id == Some(s@),
                None => id is None,
            };
            match field(v, "return"@) {
                Some(ret) => r matches Some(Message::Return { id: i, value }) && id_ok(i) && value@ == ret,
                None => match field(v, "error"@) {
                    Some(e) => r matches Some(Message::Error { id: i, class, desc }) && id_ok(i)
                        && class@ == (match as_str(field(e, "class"@)) { Some(c) => c, None => Seq::empty() })
                        && desc@ == (match as_str(field(e, "desc"@)) { Some(d) => d, None => Seq::empty() }),
                    None => match as_str(field(v, "event"@)) {
                        Some(ev) => r matches Some(Message::Event { name, data }) && name@ == ev
                            && data@ == (match field(v, "data"@) { Some(d) => d, None => JsonV::Null }),
                        None => r is None,
                    },
                },
            }
        },
    }
}

fn opt_string(s: Option<&str>) -> (r: Option<String>)
    ensures
        match r {
            Some(x) => s matches Some(y) && x@ == y@,
            None => s is None,
        },
{
    match s {
        Some(x) => Some(String::from_str(x)),
        None => None,
    }
}

/// What a received JSON value says.
pub fn message_of(v: Json) -> (r: Option<Message>)
    ensures
        message_ok(v@, r),
{
    if let Some(q) = get(&v, "QMP") {
        let mut version = String::new();
        proof {
            reveal_strlit(".");
        }
        if let Some(ver) = get(q, "version") {
            if let Some(x) = get(ver, "qemu") {
                let major = get_u64_or_zero(x, "major");
                let minor = get_u64_or_zero(x, "minor");
                let micro = get_u64_or_zero(x, "micro");
                push_dec(&mut version, major);
                version.push('.');
                push_dec(&mut version, minor);
                version.push('.');
                push_dec(&mut version, micro);
                assert(version@ =~= dec(major as nat) + "."@ + dec(minor as nat) + "."@ + dec(micro as nat));
            }
        }
        return Some(Message::Greeting { version });
    }
    let id = opt_string(get_str(&v, "id"));
    if get(&v, "return").is_some() {
        let value = match take_member(v, "return") {
            Some(x) => x,
            None => Json::Null,
        };
        return Some(Message::Return { id, value });
    }
    if let Some(e) = get(&v, "error") {
        let class = match get_str(e, "class") {
            Some(c) => String::from_str(c),
            None => String::new(),
        };
        let desc = match get_str(e, "desc") {
            Some(d) => String::from_str(d),
            None => String::new(),
        };
        return Some(Message::Error { id, class, desc });
    }
    if let Some(ev) = get_str(&v, "event") {
        let name = String::from_str(ev);
        let data = match take_member(v, "data") {
            Some(d) => d,
            None => Json::Null,
        };
        return Some(Message::Event { name, data });
    }
    None
}

/// Reads a received line: trimmed, parsed by serde_json, then read by `message_of`.
pub fn parse_line(line: &str) -> (r: Option<Message>)
    ensures
        match json_parse(trim(line@)) {
            Some(v) => message_ok(v, r),
            None => r is None,
        },
{
    let n = line.unicode_len();
    assert(line@.subrange(0, n as int) =~= line@);
    let (a, b) = trim_range(line, 0, n);
    match parse_json(line.substring_char(a, b)) {
        Some(v) => message_of(v),
        None => None,
    }
}

/// The `id` of a command line (none where it is no JSON or has no string `id`).
pub fn command_id(line: &str) -> (r: Option<String>)
    ensures
        match json_parse(line@) {
            Some(v) => match as_str(field(v, "id"@)) {
                Some(i) => r matches Some(x) && x@ == i,
                None => r is None,
            },
            None => r is None,
        },
{
    match parse_json(line) {
        Some(v) => match get_str(&v, "id") {
            Some(i) => Some(String::from_str(i)),
            None => None,
        },
        None => None,
    }
}

/// The state from a `query-status` answer: its `status` text, `unknown` without one.
pub open spec fn spec_status_from_return(v: JsonV) -> Seq<char> {
    match as_str(field(v, "status"@)) {
        Some(s) => s,
        None => "unknown"@,
    }
}

/// The state from a `query-status` answer (`running`, `paused`, `shutdown`, …).
pub fn status_from_return(value: &Json) -> (r: String)
    ensures
        r@ == spec_status_from_return(value@),
{
    match get_str(value, "status") {
        Some(s) => String::from_str(s),
        None => String::from_str("unknown"),
    }
}

/// Node names of the qcow2 nodes among the items of a `query-named-block-nodes` answer.
pub open spec fn qcow2_of(items: Seq<JsonV>) -> Seq<Seq<char>>
    decreases items.len(),
{
    if items.len() == 0 {
        Seq::empty()
    } else {
        let rest = qcow2_of(items.drop_last());
        let n = items.last();
        if as_str(field(n, "drv"@)) == Some("qcow2"@) {
            match as_str(field(n, "node-name"@)) {
                Some(x) => rest.push(x),
                None => rest,
            }
        } else {
            rest
        }
    }
}

/// The qcow2 node names of a `query-named-block-nodes` answer (none unless it is an array).
pub open spec fn spec_qcow2_nodes(v: JsonV) -> Seq<Seq<char>> {
    match v {
        JsonV::Array(a) => qcow2_of(a),
        _ => Seq::empty(),
    }
}

/// The character sequences of a list of strings.
pub open spec fn texts(v: Seq<String>) -> Seq<Seq<char>> {
    v.map_values(|s: String| s@)
}

/// All qcow2 nodes (by node name) of a `query-named-block-nodes` answer.
pub fn qcow2_nodes(value: &Json) -> (r: Vec<String>)
    ensures
        texts(r@) == spec_qcow2_nodes(value@),
{
    let mut out: Vec<String> = Vec::new();
    match value {
        Json::Array(a) => {
            proof {
                lemma_items_view(a@);
            }
            let ghost items = items_view(a@);
            let mut i: usize = 0;
            while i < a.len()
                invariant
                    i <= a@.len(),
                    items == items_view(a@),
                    items.len() == a@.len(),
                    forall|j: int| 0 <= j < a@.len() ==> #[trigger] items[j] == json_view(a@[j]),
                    texts(out@) == qcow2_of(items.subrange(0, i as int)),
                decreases a@.len() - i,
            {
                let n = &a[i];
                assert(items.subrange(0, i + 1).drop_last() =~= items.subrange(0, i as int));
                assert(items.subrange(0, i + 1).last() == n@);
                let is_qcow2 = match get_str(n, "drv") {
                    Some(d) => str_eq(d, "qcow2"),
                    None => false,
                };
                if is_qcow2 {
                    if let Some(name) = get_str(n, "node-name") {
                        let ghost before = out@;
                        out.push(String::from_str(name));
                        assert(texts(out@) =~= texts(before).push(name@));
                    }
                }
                i = i + 1;
            }
            assert(items.subrange(0, a@.len() as int) =~= items);
        },
        _ => {
            assert(texts(out@) =~= Seq::<Seq<char>>::empty());
        },
    }
    out
}

/// The first job from `i` on whose `id` is `id`.
pub open spec fn job_from(items: Seq<JsonV>, id: Seq<char>, i: int) -> Option<JsonV>
    decreases items.len() - i,
{
    if i < 0 || i >= items.len() {
        None
    } else if as_str(field(items[i], "id"@)) == Some(id) {
        Some(items[i])
    } else {
        job_from(items, id, i + 1)
    }
}

/// The state of a job in a `query-jobs` answer: its `status` (empty without one) and
/// its `error` text; none where no job has the id.
pub open spec fn spec_job_state(v: JsonV, id: Seq<char>) -> Option<(Seq<char>, Option<Seq<char>>)> {
    match v {
        JsonV::Array(a) => match job_from(a, id, 0) {
            Some(j) => Some((
                match as_str(field(j, "status"@)) { Some(s) => s, None => Seq::empty() },
                as_str(field(j, "error"@)),
            )),
            None => None,
        },
        _ => None,
    }
}

/// Status (`concluded`, `running`, …) and error text of a job in a `query-jobs` answer.
pub fn job_state(value: &Json, job_id: &str) -> (r: Option<(String, Option<String>)>)
    ensures
        match spec_job_state(value@, job_id@) {
            Some((s, e)) => r matches Some((rs, re)) && rs@ == s && (match e {
                Some(t) => re matches Some(x) && x@ == t,
                None => re is None,
            }),
            None => r is None,
        },
{
    match value {
        Json::Array(a) => {
            proof {
                lemma_items_view(a@);
            }
            let ghost items = items_view(a@);
            let mut i: usize = 0;
            while i < a.len()
                invariant
                    i <= a@.len(),
                    items == items_view(a@),
                    items.len() == a@.len(),
                    forall|j: int| 0 <= j < a@.len() ==> #[trigger] items[j] == json_view(a@[j]),
                    job_from(items, job_id@, 0) == job_from(items, job_id@, i as int),
                    value@ == JsonV::Array(items),
                decreases a@.len() - i,
            {
                let j = &a[i];
                assert(items[i as int] == j@);
                let hit = match get_str(j, "id") {
                    Some(x) => str_eq(x, job_id),
                    None => false,
                };
                if hit {
                    assert(job_from(items, job_id@, i as int) == Some(j@));
                    let status = match get_str(j, "status") {
                        Some(s) => String::from_str(s),
                        None => String::new(),
                    };
                    let error = opt_string(get_str(j, "error"));
                    return Some((status, error));
                }
                i = i + 1;
            }
            None
        },
        _ => None,
    }
}

// ---------------------------------------------------------------------------
// Commands
// ---------------------------------------------------------------------------

/// A command: `execute` with its name, `arguments` where given, `id` where given.
pub open spec fn command_value(name: Seq<char>, args: Option<JsonV>, id: Option<Seq<char>>) -> JsonV {
    JsonV::Object(
        seq![("execute"@, JsonV::Str(name))]
            + (match args { Some(a) => seq![("arguments"@, a)], None => Seq::empty() })
            + (match id { Some(i) => seq![("id"@, JsonV::Str(i))], None => Seq::empty() }),
    )
}

/// The text serde_json writes for a command.
pub open spec fn command_text(name: Seq<char>, args: Option<JsonV>, id: Option<Seq<char>>) -> Seq<char> {
    json_serialize(command_value(name, args, id))
}

fn str_json(s: &str) -> (r: Json)
    ensures
        r@ == JsonV::Str(s@),
{
    Json::Str(String::from_str(s))
}

/// A command as one line of JSON text (without the line break).
pub fn command(name: &str, args: Option<Json>, id: Option<&str>) -> (r: String)
    ensures
        r@ == command_text(
            name@,
            match args { Some(a) => Some(a@), None => None },
            match id { Some(i) => Some(i@), None => None },
        ),
{
    let ghost av = match &args { Some(a) => Some(a@), None => None::<JsonV> };
    let ghost iv = match id { Some(i) => Some(i@), None => None::<Seq<char>> };
    let mut m: Vec<(String, Json)> = Vec::new();
    m.push((String::from_str("execute"), str_json(name)));
    if let Some(a) = args {
        m.push((String::from_str("arguments"), a));
    }
    if let Some(i) = id {
        m.push((String::from_str("id"), str_json(i)));
    }
    let v = Json::Object(m);
    proof {
        lemma_members_view(m@);
        assert(members_view(m@) =~= seq![("execute"@, JsonV::Str(name@))]
            + (match av { Some(a) => seq![("arguments"@, a)], None => Seq::empty() })
            + (match iv { Some(i) => seq![("id"@, JsonV::Str(i))], None => Seq::empty() }));
    }
    json_text(&v)
}

/// Negotiates the capabilities after the greeting.
pub fn capabilities() -> (r: String)
    ensures
        r@ == command_text("qmp_capabilities"@, None, Some("caps"@)),
{
    command("qmp_capabilities", None, Some("caps"))
}

/// Asks for the run state.
pub fn query_status() -> (r: String)
    ensures
        r@ == command_text("query-status"@, None, Some("status"@)),
{
    command("query-status", None, Some("status"))
}

/// Pauses the machine.
pub fn stop() -> (r: String)
    ensures
        r@ == command_text("stop"@, None, Some("stop"@)),
{
    command("stop", None, Some("stop"))
}

/// Resumes the machine.
pub fn cont() -> (r: String)
    ensures
        r@ == command_text("cont"@, None, Some("cont"@)),
{
    command("cont", None, Some("cont"))
}

/// Resets the machine.
pub fn system_reset() -> (r: String)
    ensures
        r@ == command_text("system_reset"@, None, Some("reset"@)),
{
    command("system_reset", None, Some("reset"))
}

/// ACPI power-off — the guest may shut down cleanly.
pub fn system_powerdown() -> (r: String)
    ensures
        r@ == command_text("system_powerdown"@, None, Some("powerdown"@)),
{
    command("system_powerdown", None, Some("powerdown"))
}

/// Ends QEMU.
pub fn quit() -> (r: String)
    ensures
        r@ == command_text("quit"@, None, Some("quit"@)),
{
    command("quit", None, Some("quit"))
}

/// Asks for the running jobs.
pub fn query_jobs() -> (r: String)
    ensures
        r@ == command_text("query-jobs"@, None, Some("jobs"@)),
{
    command("query-jobs", None, Some("jobs"))
}

/// Block nodes with their node names — what `vmstate`/`devices` of snapshot-save need.
pub fn query_named_block_nodes() -> (r: String)
    ensures
        r@ == command_text("query-named-block-nodes"@, None, Some("nodes"@)),
{
    command("query-named-block-nodes", None, Some("nodes"))
}

/// Asks for the block devices.
pub fn query_block() -> (r: String)
    ensures
        r@ == command_text("query-block"@, None, Some("block"@)),
{
    command("query-block", None, Some("block"))
}

/// The values of a list of texts as JSON strings.
pub open spec fn str_items(v: Seq<String>) -> Seq<JsonV> {
    v.map_values(|s: String| JsonV::Str(s@))
}

fn str_array(v: &[String]) -> (r: Json)
    ensures
        r@ == JsonV::Array(str_items(v@)),
{
    let mut out: Vec<Json> = Vec::new();
    let mut i: usize = 0;
    while i < v.len()
        invariant
            i <= v@.len(),
            out@.len() == i,
            forall|j: int| 0 <= j < i ==> #[trigger] json_view(out@[j]) == JsonV::Str(v@[j]@),
        decreases v@.len() - i,
    {
        out.push(Json::Str(v[i].clone()));
        i = i + 1;
    }
    proof {
        lemma_items_view(out@);
        assert(items_view(out@) =~= str_items(v@));
    }
    Json::Array(out)
}

fn object(m: Vec<(String, Json)>) -> (r: Json)
    ensures
        r@ == JsonV::Object(members_view(m@)),
{
    Json::Object(m)
}

/// Arguments of the snapshot jobs.
pub open spec fn snapshot_args(job_id: Seq<char>, tag: Seq<char>, vmstate: Option<Seq<char>>, devices: Seq<String>) -> JsonV {
    JsonV::Object(
        seq![("job-id"@, JsonV::Str(job_id)), ("tag"@, JsonV::Str(tag))]
            + (match vmstate { Some(v) => seq![("vmstate"@, JsonV::Str(v))], None => Seq::empty() })
            + seq![("devices"@, JsonV::Array(str_items(devices)))],
    )
}

fn snapshot_job(command_name: &str, job_id: &str, tag: &str, vmstate_node: Option<&str>, devices: &[String]) -> (r: String)
    ensures
        r@ == command_text(
            command_name@,
            Some(snapshot_args(job_id@, tag@, match vmstate_node { Some(v) => Some(v@), None => None }, devices@)),
            Some(job_id@),
        ),
{
    let mut m: Vec<(String, Json)> = Vec::new();
    m.push((String::from_str("job-id"), str_json(job_id)));
    m.push((String::from_str("tag"), str_json(tag)));
    if let Some(v) = vmstate_node {
        m.push((String::from_str("vmstate"), str_json(v)));
    }
    m.push((String::from_str("devices"), str_array(devices)));
    proof {
        lemma_members_view(m@);
        assert(members_view(m@) =~= seq![("job-id"@, JsonV::Str(job_id@)), ("tag"@, JsonV::Str(tag@))]
            + (match vmstate_node { Some(v) => seq![("vmstate"@, JsonV::Str(v@))], None => Seq::empty() })
            + seq![("devices"@, JsonV::Array(str_items(devices@)))]);
    }
    command(command_name, Some(object(m)), Some(job_id))
}

/// Internal qcow2 snapshot of the running machine (QEMU ≥ 6.0, as a job).
pub fn snapshot_save(job_id: &str, tag: &str, vmstate_node: &str, devices: &[String]) -> (r: String)
    ensures
        r@ == command_text("snapshot-save"@, Some(snapshot_args(job_id@, tag@, Some(vmstate_node@), devices@)), Some(job_id@)),
{
    snapshot_job("snapshot-save", job_id, tag, Some(vmstate_node), devices)
}

/// Loads an internal snapshot (as a job).
pub fn snapshot_load(job_id: &str, tag: &str, vmstate_node: &str, devices: &[String]) -> (r: String)
    ensures
        r@ == command_text("snapshot-load"@, Some(snapshot_args(job_id@, tag@, Some(vmstate_node@), devices@)), Some(job_id@)),
{
    snapshot_job("snapshot-load", job_id, tag, Some(vmstate_node), devices)
}

/// Deletes an internal snapshot (as a job).
pub fn snapshot_delete(job_id: &str, tag: &str, devices: &[String]) -> (r: String)
    ensures
        r@ == command_text("snapshot-delete"@, Some(snapshot_args(job_id@, tag@, None, devices@)), Some(job_id@)),
{
    snapshot_job("snapshot-delete", job_id, tag, None, devices)
}

/// Dismisses a concluded job.
pub fn job_dismiss(job_id: &str) -> (r: String)
    ensures
        r@ == command_text("job-dismiss"@, Some(JsonV::Object(seq![("id"@, JsonV::Str(job_id@))])), Some("dismiss"@)),
{
    let mut m: Vec<(String, Json)> = Vec::new();
    m.push((String::from_str("id"), str_json(job_id)));
    proof {
        lemma_members_view(m@);
        assert(members_view(m@) =~= seq![("id"@, JsonV::Str(job_id@))]);
    }
    command("job-dismiss", Some(object(m)), Some("dismiss"))
}

/// Arguments of a medium change.
pub open spec fn medium_args(device: Seq<char>, file: Seq<char>) -> JsonV {
    JsonV::Object(seq![
        ("id"@, JsonV::Str(device)),
        ("filename"@, JsonV::Str(file)),
        ("format"@, JsonV::Str("raw"@)),
        ("read-only-mode"@, JsonV::Str("read-only"@)),
    ])
}

/// Changes the medium (inserts a CD) — `blockdev-change-medium` with a file path.
pub fn change_medium(device: &str, file: &str) -> (r: String)
    ensures
        r@ == command_text("blockdev-change-medium"@, Some(medium_args(device@, file@)), Some("medium"@)),
{
    let mut m: Vec<(String, Json)> = Vec::new();
    m.push((String::from_str("id"), str_json(device)));
    m.push((String::from_str("filename"), str_json(file)));
    m.push((String::from_str("format"), str_json("raw")));
    m.push((String::from_str("read-only-mode"), str_json("read-only")));
    proof {
        lemma_members_view(m@);
        assert(members_view(m@) =~= medium_args(device@, file@)->Object_0);
    }
    command("blockdev-change-medium", Some(object(m)), Some("medium"))
}

/// Ejects the medium of a device.
pub fn eject(device: &str) -> (r: String)
    ensures
        r@ == command_text("eject"@, Some(JsonV::Object(seq![("id"@, JsonV::Str(device@)), ("force"@, JsonV::Bool(true))])), Some("eject"@)),
{
    let mut m: Vec<(String, Json)> = Vec::new();
    m.push((String::from_str("id"), str_json(device)));
    m.push((String::from_str("force"), Json::Bool(true)));
    proof {
        lemma_members_view(m@);
        assert(members_view(m@) =~= seq![("id"@, JsonV::Str(device@)), ("force"@, JsonV::Bool(true))]);
    }
    command("eject", Some(object(m)), Some("eject"))
}

/// Writes a screenshot of the display to a file.
pub fn screendump(path: &str) -> (r: String)
    ensures
        r@ == command_text("screendump"@, Some(JsonV::Object(seq![("filename"@, JsonV::Str(path@))])), Some("screendump"@)),
{
    let mut m: Vec<(String, Json)> = Vec::new();
    m.push((String::from_str("filename"), str_json(path)));
    proof {
        lemma_members_view(m@);
        assert(members_view(m@) =~= seq![("filename"@, JsonV::Str(path@))]);
    }
    command("screendump", Some(object(m)), Some("screendump"))
}

/// A human-monitor command (`savevm`, `loadvm`, `delvm`, `info snapshots`) sent over QMP.
pub fn hmp_command(command_line: &str) -> (r: String)
    ensures
        r@ == command_text("human-monitor-command"@, Some(JsonV::Object(seq![("command-line"@, JsonV::Str(command_line@))])), Some("hmp"@)),
{
    let mut m: Vec<(String, Json)> = Vec::new();
    m.push((String::from_str("command-line"), str_json(command_line)));
    proof {
        lemma_members_view(m@);
        assert(members_view(m@) =~= seq![("command-line"@, JsonV::Str(command_line@))]);
    }
    command("human-monitor-command", Some(object(m)), Some("hmp"))
}

} // verus!
