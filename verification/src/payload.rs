//! Gateway payloads: the unit of traffic on the gateway socket, carrying an
//! opcode, optional data, an optional event name and an optional sequence
//! number. Encoding and decoding are verified against character-level
//! specifications.

use vstd::prelude::*;
use crate::json::{Json, JsonV, json_text, jview, jview_obj, lemma_jview_obj_index, spec_get, wf_json, parse_json, sp_json};
use crate::text::spec_dec_text;

verus! {

/// A gateway opcode; integers outside the known set are kept in `Unknown`.
#[derive(Clone, Copy, Debug, PartialEq, Eq, Structural)]
pub enum Op {
    Dispatch,
    Heartbeat,
    Identify,
    PresenceUpdate,
    VoiceStateUpdate,
    Resume,
    Reconnect,
    RequestGuildMembers,
    InvalidSession,
    Hello,
    HeartbeatAck,
    Unknown(u8),
}

/// The integer an opcode is written as on the wire.
pub open spec fn spec_op_code(op: Op) -> u8 {
    match op {
        Op::Dispatch => 0,
        Op::Heartbeat => 1,
        Op::Identify => 2,
        Op::PresenceUpdate => 3,
        Op::VoiceStateUpdate => 4,
        Op::Resume => 6,
        Op::Reconnect => 7,
        Op::RequestGuildMembers => 8,
        Op::InvalidSession => 9,
        Op::Hello => 10,
        Op::HeartbeatAck => 11,
        Op::Unknown(n) => n,
    }
}

/// The opcode a wire integer is read as.
pub open spec fn spec_op_of(n: u8) -> Op {
    if n == 0 { Op::Dispatch }
    else if n == 1 { Op::Heartbeat }
    else if n == 2 { Op::Identify }
    else if n == 3 { Op::PresenceUpdate }
    else if n == 4 { Op::VoiceStateUpdate }
    else if n == 6 { Op::Resume }
    else if n == 7 { Op::Reconnect }
    else if n == 8 { Op::RequestGuildMembers }
    else if n == 9 { Op::InvalidSession }
    else if n == 10 { Op::Hello }
    else if n == 11 { Op::HeartbeatAck }
    else { Op::Unknown(n) }
}

/// An opcode is canonical when reading back its wire integer yields it
/// again; `Unknown` is canonical only outside the known set.
pub open spec fn spec_op_canonical(op: Op) -> bool {
    spec_op_of(spec_op_code(op)) == op
}

impl Op {
    /// The integer this opcode is written as.
    pub fn code(self) -> (r: u8)
        ensures
            r == spec_op_code(self),
    {
        match self {
            Op::Dispatch => 0,
            Op::Heartbeat => 1,
            Op::Identify => 2,
            Op::PresenceUpdate => 3,
            Op::VoiceStateUpdate => 4,
            Op::Resume => 6,
            Op::Reconnect => 7,
            Op::RequestGuildMembers => 8,
            Op::InvalidSession => 9,
            Op::Hello => 10,
            Op::HeartbeatAck => 11,
            Op::Unknown(n) => n,
        }
    }
}

impl From<u8> for Op {
    fn from(n: u8) -> (r: Op) {
        if n == 0 { Op::Dispatch }
        else if n == 1 { Op::Heartbeat }
        else if n == 2 { Op::Identify }
        else if n == 3 { Op::PresenceUpdate }
        else if n == 4 { Op::VoiceStateUpdate }
        else if n == 6 { Op::Resume }
        else if n == 7 { Op::Reconnect }
        else if n == 8 { Op::RequestGuildMembers }
        else if n == 9 { Op::InvalidSession }
        else if n == 10 { Op::Hello }
        else if n == 11 { Op::HeartbeatAck }
        else { Op::Unknown(n) }
    }
}

impl vstd::std_specs::convert::FromSpecImpl<u8> for Op {
    open spec fn obeys_from_spec() -> bool {
        true
    }

    open spec fn from_spec(n: u8) -> Op {
        spec_op_of(n)
    }
}

impl From<Op> for u8 {
    fn from(op: Op) -> (r: u8) {
        op.code()
    }
}

impl vstd::std_specs::convert::FromSpecImpl<Op> for u8 {
    open spec fn obeys_from_spec() -> bool {
        true
    }

    open spec fn from_spec(op: Op) -> u8 {
        spec_op_code(op)
    }
}

/// A reading back of a wire integer is always canonical.
pub proof fn lemma_op_of_canonical(n: u8)
    ensures
        spec_op_canonical(spec_op_of(n)),
        spec_op_code(spec_op_of(n)) == n,
{
}

/// A gateway payload. Absent optional fields are omitted on the wire.
#[derive(Debug, PartialEq)]
pub struct Payload {
    pub op: Op,
    pub d: Option<Json>,
    pub t: Option<String>,
    pub s: Option<u64>,
}

/// Well-formedness: the opcode is canonical and the data is well formed.
pub open spec fn wf_payload(p: Payload) -> bool {
    &&& spec_op_canonical(p.op)
    &&& (p.d matches Some(j) ==> wf_json(j) && !(j is Null))
}

impl Payload {
    /// A payload with the given opcode and nothing else set.
    pub fn op(op: Op) -> (r: Payload)
        ensures
            r == (Payload { op, d: None, t: None, s: None }),
    {
        Payload { op, d: None, t: None, s: None }
    }

    /// This payload with its data set.
    pub fn d(self, value: Json) -> (r: Payload)
        ensures
            r == (Payload { d: Some(value), ..self }),
    {
        Payload { d: Some(value), ..self }
    }

    /// This payload with its event name set.
    pub fn t(self, t: &str) -> (r: Payload)
        ensures
            r.op == self.op && r.d == self.d && r.s == self.s,
            r.t matches Some(n) && n@ == t@,
    {
        Payload { t: Some(t.to_owned()), ..self }
    }

    /// This payload with its sequence number set.
    pub fn s(self, s: u64) -> (r: Payload)
        ensures
            r == (Payload { s: Some(s), ..self }),
    {
        Payload { s: Some(s), ..self }
    }
}

/// The `,"d":...` part of an encoded payload.
pub open spec fn spec_d_part(d: Option<Json>) -> Seq<char> {
    match d {
        Some(j) => seq![',', '"', 'd', '"', ':'] + json_text(j),
        None => Seq::empty(),
    }
}

/// The `,"t":...` part of an encoded payload.
pub open spec fn spec_t_part(t: Option<String>) -> Seq<char> {
    match t {
        Some(name) => seq![',', '"', 't', '"', ':'] + crate::json::spec_str_text(name@),
        None => Seq::empty(),
    }
}

/// The `,"s":...` part of an encoded payload.
pub open spec fn spec_s_part(s: Option<u64>) -> Seq<char> {
    match s {
        Some(n) => seq![',', '"', 's', '"', ':'] + spec_dec_text(n as nat),
        None => Seq::empty(),
    }
}

/// The text a payload is encoded as: a JSON object with `op` first and
/// `d`, `t`, `s` present only when set.
pub open spec fn payload_text(p: Payload) -> Seq<char> {
    seq!['{', '"', 'o', 'p', '"', ':'] + spec_dec_text(spec_op_code(p.op) as nat) + spec_d_part(
        p.d,
    ) + spec_t_part(p.t) + spec_s_part(p.s) + seq!['}']
}

/// Encodes a payload to its wire text.
#[verifier::rlimit(50)]
pub fn encode_payload(p: &Payload) -> (r: String)
    ensures
        r@ == payload_text(*p),
{
    let mut out: Vec<char> = Vec::new();
    out.push('{');
    out.push('"');
    out.push('o');
    out.push('p');
    out.push('"');
    out.push(':');
    crate::text::push_dec_u64(&mut out, p.op.code() as u64);
    match &p.d {
        Some(j) => {
            out.push(',');
            out.push('"');
            out.push('d');
            out.push('"');
            out.push(':');
            crate::json::push_json(&mut out, j);
        }
        None => {}
    }
    match &p.t {
        Some(name) => {
            out.push(',');
            out.push('"');
            out.push('t');
            out.push('"');
            out.push(':');
            crate::json::push_str_literal(&mut out, name.as_str());
        }
        None => {}
    }
    match &p.s {
        Some(n) => {
            out.push(',');
            out.push('"');
            out.push('s');
            out.push('"');
            out.push(':');
            crate::text::push_dec_u64(&mut out, *n);
        }
        None => {}
    }
    out.push('}');
    proof {
        assert(out@ =~= payload_text(*p));
    }
    crate::text::chars_to_string(&out)
}

/// How a decoded JSON value is read as a payload: the object must carry an
/// integer `op` that fits eight bits; `t` may be absent, null or a string;
/// `s` may be absent, null or a non-negative integer; `d` may be anything,
/// null counting as absent. Unknown keys are ignored.
pub open spec fn spec_payload_of_json(j: Json) -> Option<Payload> {
    let op_e = spec_get(j, "op"@);
    let d_e = spec_get(j, "d"@);
    let t_e = spec_get(j, "t"@);
    let s_e = spec_get(j, "s"@);
    if !(op_e matches Some(Json::U64(n)) && n <= 255) {
        None
    } else if !(t_e is None || t_e matches Some(Json::Null) || t_e matches Some(Json::Str(_))) {
        None
    } else if !(s_e is None || s_e matches Some(Json::Null) || s_e matches Some(Json::U64(_))) {
        None
    } else {
        Some(
            Payload {
                op: spec_op_of((op_e->0->U64_0) as u8),
                d: match d_e {
                    Some(v) => if v is Null {
                        None
                    } else {
                        Some(v)
                    },
                    None => None,
                },
                t: match t_e {
                    Some(Json::Str(name)) => Some(name),
                    _ => None,
                },
                s: match s_e {
                    Some(Json::U64(n)) => Some(n),
                    _ => None,
                },
            },
        )
    }
}

/// Reads a decoded JSON value as a payload.
#[verifier::rlimit(50)]
#[verifier::loop_isolation(false)]
pub fn payload_of_json(j: Json) -> (r: Option<Payload>)
    ensures
        r == spec_payload_of_json(j),
        wf_json(j) ==> (r matches Some(p) ==> wf_payload(p)),
{
    broadcast use vstd::string::group_string_axioms;

    let ghost j0 = j;
    let mut entries: Vec<(String, Json)> = match j {
        Json::Obj(m) => m,
        _ => {
            return None;
        }
    };
    let ghost m0 = entries@;
    let mut op_e: Option<Json> = None;
    let mut d_e: Option<Json> = None;
    let mut t_e: Option<Json> = None;
    let mut s_e: Option<Json> = None;
    proof {
        assert(m0.take(m0.len() as int) =~= m0);
        reveal_strlit("op");
        reveal_strlit("d");
        reveal_strlit("t");
        reveal_strlit("s");
    }
    loop
        invariant
            j0 matches Json::Obj(mm) && mm@ == m0,
            entries@.len() <= m0.len(),
            entries@ == m0.take(entries@.len() as int),
            crate::json::spec_get(j0, "op"@) == opt_or(op_e, crate::json::spec_get_prefix(m0, "op"@, entries@.len() as int)),
            crate::json::spec_get(j0, "d"@) == opt_or(d_e, crate::json::spec_get_prefix(m0, "d"@, entries@.len() as int)),
            crate::json::spec_get(j0, "t"@) == opt_or(t_e, crate::json::spec_get_prefix(m0, "t"@, entries@.len() as int)),
            crate::json::spec_get(j0, "s"@) == opt_or(s_e, crate::json::spec_get_prefix(m0, "s"@, entries@.len() as int)),
            wf_json(j0) ==> (d_e matches Some(v) ==> wf_json(v)),
        decreases entries@.len(),
    {
        let ghost lpre = entries@.len() as int;
        let last: (String, Json) = match entries.pop() {
            Some(e) => e,
            None => {
                break;
            }
        };
        proof {
            assert(1 <= lpre <= m0.len());
            assert(m0.take(lpre)[lpre - 1] == m0[lpre - 1]);
            assert(m0.take(lpre).subrange(0, lpre - 1) =~= m0.take(lpre - 1));
            if wf_json(j0) {
                assert(wf_json(m0[lpre - 1].1));
            }
        }
        let (key, val) = last;
        if op_e.is_none() && crate::text::str_eq(key.as_str(), "op") {
            op_e = Some(val);
        } else if d_e.is_none() && crate::text::str_eq(key.as_str(), "d") {
            d_e = Some(val);
        } else if t_e.is_none() && crate::text::str_eq(key.as_str(), "t") {
            t_e = Some(val);
        } else if s_e.is_none() && crate::text::str_eq(key.as_str(), "s") {
            s_e = Some(val);
        }
        proof {
            lemma_field_keys_distinct();
            assert(entries@.len() == lpre - 1);
            assert(crate::json::spec_get_prefix(m0, "op"@, lpre) == (if m0[lpre - 1].0@ == "op"@ {
                Some(m0[lpre - 1].1)
            } else {
                crate::json::spec_get_prefix(m0, "op"@, lpre - 1)
            }));
            assert(crate::json::spec_get_prefix(m0, "d"@, lpre) == (if m0[lpre - 1].0@ == "d"@ {
                Some(m0[lpre - 1].1)
            } else {
                crate::json::spec_get_prefix(m0, "d"@, lpre - 1)
            }));
            assert(crate::json::spec_get_prefix(m0, "t"@, lpre) == (if m0[lpre - 1].0@ == "t"@ {
                Some(m0[lpre - 1].1)
            } else {
                crate::json::spec_get_prefix(m0, "t"@, lpre - 1)
            }));
            assert(crate::json::spec_get_prefix(m0, "s"@, lpre) == (if m0[lpre - 1].0@ == "s"@ {
                Some(m0[lpre - 1].1)
            } else {
                crate::json::spec_get_prefix(m0, "s"@, lpre - 1)
            }));
        }
    }
    proof {
        assert(crate::json::spec_get(j0, "op"@) == opt_or(op_e, None));
        assert(crate::json::spec_get(j0, "d"@) == opt_or(d_e, None));
        assert(crate::json::spec_get(j0, "t"@) == opt_or(t_e, None));
        assert(crate::json::spec_get(j0, "s"@) == opt_or(s_e, None));
    }
    let opn: u64 = match &op_e {
        Some(Json::U64(n)) => {
            if *n <= 255 {
                *n
            } else {
                return None;
            }
        }
        _ => {
            return None;
        }
    };
    let t: Option<String> = match t_e {
        Some(Json::Str(name)) => Some(name),
        Some(Json::Null) => None,
        None => None,
        _ => {
            return None;
        }
    };
    let s: Option<u64> = match &s_e {
        Some(Json::U64(n)) => Some(*n),
        Some(Json::Null) => None,
        None => None,
        _ => {
            return None;
        }
    };
    let d: Option<Json> = match d_e {
        Some(Json::Null) => None,
        Some(v) => Some(v),
        None => None,
    };
    proof {
        lemma_op_of_canonical(opn as u8);
    }
    Some(Payload { op: Op::from(opn as u8), d, t, s })
}

/// The four payload field names are pairwise distinct.
proof fn lemma_field_keys_distinct()
    ensures
        "op"@ != "d"@ && "op"@ != "t"@ && "op"@ != "s"@,
        "d"@ != "t"@ && "d"@ != "s"@ && "t"@ != "s"@,
{
    reveal_strlit("op");
    reveal_strlit("d");
    reveal_strlit("t");
    reveal_strlit("s");
    assert("op"@.len() == 2);
    assert("d"@.len() == 1);
    assert("t"@.len() == 1);
    assert("s"@.len() == 1);
    assert("d"@[0] == 'd');
    assert("t"@[0] == 't');
    assert("s"@[0] == 's');
}

/// The first of two options that is set, if any.
pub open spec fn opt_or(a: Option<Json>, b: Option<Json>) -> Option<Json> {
    match a {
        Some(v) => Some(v),
        None => b,
    }
}

/// The JSON object a payload is written as: `op` first with the opcode's
/// wire integer, then `d`, `t` and `s`, each present exactly when set.
/// `payload_text` writes precisely the entries this shape describes, in
/// this order.
pub open spec fn payload_object_shape(j: Json, p: Payload) -> bool {
    let nd: int = if p.d is Some { 1int } else { 0int };
    let nt: int = if p.t is Some { 1int } else { 0int };
    let ns: int = if p.s is Some { 1int } else { 0int };
    &&& j matches Json::Obj(m)
    &&& m@.len() == 1 + nd + nt + ns
    &&& m@[0].0@ == "op"@ && m@[0].1 == Json::U64(spec_op_code(p.op) as u64)
    &&& (p.d matches Some(d) ==> m@[1].0@ == "d"@ && m@[1].1 == d)
    &&& (p.t matches Some(t) ==> m@[1 + nd].0@ == "t"@ && m@[1 + nd].1 == Json::Str(t))
    &&& (p.s matches Some(n) ==> m@[1 + nd + nt].0@ == "s"@ && m@[1 + nd + nt].1 == Json::U64(n))
}

/// Looking a key up finds its only occurrence.
proof fn lemma_get_from(m: Seq<(String, Json)>, key: Seq<char>, i: int, n: int)
    requires
        0 <= i < n <= m.len(),
        m[i].0@ == key,
        forall|k: int| i < k < n ==> m[k].0@ != key,
    ensures
        crate::json::spec_get_prefix(m, key, n) == Some(m[i].1),
    decreases n,
{
    if n - 1 > i {
        lemma_get_from(m, key, i, n - 1);
    }
}

/// Looking an absent key up finds nothing.
proof fn lemma_get_missing(m: Seq<(String, Json)>, key: Seq<char>, n: int)
    requires
        forall|k: int| 0 <= k < n ==> m[k].0@ != key,
    ensures
        crate::json::spec_get_prefix(m, key, n) is None,
    decreases n,
{
    if n > 0 {
        lemma_get_missing(m, key, n - 1);
    }
}

/// Escaping changes nothing in a string without quotes, backslashes or
/// control characters.
proof fn lemma_esc_plain(s: Seq<char>)
    requires
        forall|k: int| 0 <= k < s.len() ==> s[k] != '"' && s[k] != '\\' && (#[trigger] s[k]) as int
            >= 32,
    ensures
        crate::json::spec_esc_text(s) == s,
    decreases s.len(),
{
    if s.len() > 0 {
        lemma_esc_plain(s.drop_last());
        assert(crate::json::spec_esc_char(s.last()) == seq![s.last()]);
        assert(s.drop_last() + seq![s.last()] =~= s);
    } else {
        assert(crate::json::spec_esc_text(s) =~= s);
    }
}

/// The payload field names are written as themselves inside quotes.
proof fn lemma_keys_escape_to_themselves()
    ensures
        crate::json::spec_str_text("op"@) == seq!['"', 'o', 'p', '"'],
        crate::json::spec_str_text("d"@) == seq!['"', 'd', '"'],
        crate::json::spec_str_text("t"@) == seq!['"', 't', '"'],
        crate::json::spec_str_text("s"@) == seq!['"', 's', '"'],
{
    reveal_strlit("op");
    reveal_strlit("d");
    reveal_strlit("t");
    reveal_strlit("s");
    lemma_esc_plain("op"@);
    lemma_esc_plain("d"@);
    lemma_esc_plain("t"@);
    lemma_esc_plain("s"@);
    assert(crate::json::spec_str_text("op"@) =~= seq!['"', 'o', 'p', '"']);
    assert(crate::json::spec_str_text("d"@) =~= seq!['"', 'd', '"']);
    assert(crate::json::spec_str_text("t"@) =~= seq!['"', 't', '"']);
    assert(crate::json::spec_str_text("s"@) =~= seq!['"', 's', '"']);
}

/// Codec coherence, writing side: the text a payload is encoded as is
/// exactly the JSON text of the object it is written as.
#[verifier::rlimit(60)]
pub proof fn lemma_payload_text_is_object_text(j: Json, p: Payload)
    requires
        payload_object_shape(j, p),
    ensures
        json_text(j) == payload_text(p),
{
    lemma_keys_escape_to_themselves();
    let m = j->Obj_0;
    let nd: int = if p.d is Some { 1int } else { 0int };
    let nt: int = if p.t is Some { 1int } else { 0int };
    let len = m@.len() as int;
    assert(crate::json::entry_text(m@[0]) =~= seq!['"', 'o', 'p', '"', ':'] + spec_dec_text(
        spec_op_code(p.op) as nat,
    ));
    if p.d is Some {
        assert(crate::json::entry_text(m@[1]) =~= seq!['"', 'd', '"', ':'] + json_text(p.d->0));
    }
    if p.t is Some {
        assert(crate::json::entry_text(m@[1 + nd]) =~= seq!['"', 't', '"', ':']
            + crate::json::spec_str_text(p.t->0@));
    }
    if p.s is Some {
        assert(crate::json::entry_text(m@[1 + nd + nt]) =~= seq!['"', 's', '"', ':']
            + spec_dec_text(p.s->0 as nat));
    }
    assert(m@.take(1int).drop_last() =~= m@.take(0int));
    assert(crate::json::obj_body_text(m@.take(1int)) == crate::json::entry_text(m@[0]));
    if len >= 2 {
        assert(m@.take(2int).drop_last() =~= m@.take(1int));
        assert(m@.take(2int).last() == m@[1]);
        assert(crate::json::obj_body_text(m@.take(2int)) == crate::json::obj_body_text(
            m@.take(1int),
        ) + seq![','] + crate::json::entry_text(m@[1]));
    }
    if len >= 3 {
        assert(m@.take(3int).drop_last() =~= m@.take(2int));
        assert(m@.take(3int).last() == m@[2]);
        assert(crate::json::obj_body_text(m@.take(3int)) == crate::json::obj_body_text(
            m@.take(2int),
        ) + seq![','] + crate::json::entry_text(m@[2]));
    }
    if len >= 4 {
        assert(m@.take(4int).drop_last() =~= m@.take(3int));
        assert(m@.take(4int).last() == m@[3]);
        assert(crate::json::obj_body_text(m@.take(4int)) == crate::json::obj_body_text(
            m@.take(3int),
        ) + seq![','] + crate::json::entry_text(m@[3]));
    }
    assert(m@.take(len) =~= m@);
    assert(json_text(j) =~= payload_text(p));
}

/// Codec round trip, object layer: reading the object a well-formed
/// payload is written as yields that payload again. The character layer —
/// that parsing the written text yields this object — is the parser's
/// concern.
pub proof fn lemma_payload_object_round_trip(j: Json, p: Payload)
    requires
        wf_payload(p),
        payload_object_shape(j, p),
    ensures
        spec_payload_of_json(j) == Some(p),
{
    lemma_field_keys_distinct();
    let m = j->Obj_0;
    let nd: int = if p.d is Some { 1int } else { 0int };
    let nt: int = if p.t is Some { 1int } else { 0int };
    let ns: int = if p.s is Some { 1int } else { 0int };
    let len = m@.len() as int;
    assert forall|k: int| 0 < k < len implies m@[k].0@ != "op"@ by {
        assert(k == 1 || k == 1 + nd || k == 1 + nd + nt);
    }
    lemma_get_from(m@, "op"@, 0, len);
    if p.d is Some {
        assert forall|k: int| 1 < k < len implies m@[k].0@ != "d"@ by {
            assert(k == 1 + nd || k == 1 + nd + nt);
        }
        lemma_get_from(m@, "d"@, 1, len);
    } else {
        lemma_get_missing(m@, "d"@, len);
    }
    if p.t is Some {
        assert forall|k: int| 1 + nd < k < len implies m@[k].0@ != "t"@ by {
            assert(k == 1 + nd + nt);
        }
        lemma_get_from(m@, "t"@, 1 + nd, len);
    } else {
        lemma_get_missing(m@, "t"@, len);
    }
    if p.s is Some {
        lemma_get_from(m@, "s"@, 1 + nd + nt, len);
    } else {
        lemma_get_missing(m@, "s"@, len);
    }
    assert(spec_op_of(spec_op_code(p.op)) == p.op);
}

/// Field lookup on a parsed object at the view level: the value of the
/// last entry named `key` among the first `n`.
pub open spec fn jv_get_prefix(m: Seq<(Seq<char>, JsonV)>, key: Seq<char>, n: int) -> Option<JsonV>
    decreases n,
{
    if n <= 0 {
        None
    } else if m[n - 1].0 == key {
        Some(m[n - 1].1)
    } else {
        jv_get_prefix(m, key, n - 1)
    }
}

/// Field lookup on a parsed value at the view level.
pub open spec fn jv_get(jv: JsonV, key: Seq<char>) -> Option<JsonV> {
    match jv {
        JsonV::Obj(m) => jv_get_prefix(m, key, m.len() as int),
        _ => None,
    }
}

/// Whether a parsed value is readable as a payload: an object with an
/// integer `op` that fits eight bits, `t` absent, null or a string, `s`
/// absent, null or a non-negative integer.
pub open spec fn jv_payload_ok(jv: JsonV) -> bool {
    &&& (jv_get(jv, "op"@) matches Some(JsonV::U64(n)) && n <= 255)
    &&& (jv_get(jv, "t"@) is None || jv_get(jv, "t"@) matches Some(JsonV::Null) || jv_get(
        jv,
        "t"@,
    ) matches Some(JsonV::Str(_)))
    &&& (jv_get(jv, "s"@) is None || jv_get(jv, "s"@) matches Some(JsonV::Null) || jv_get(
        jv,
        "s"@,
    ) matches Some(JsonV::U64(_)))
}

/// Whether `p` is the payload a parsed value is read as.
pub open spec fn payload_matches_jv(p: Payload, jv: JsonV) -> bool {
    &&& (jv_get(jv, "op"@) matches Some(JsonV::U64(n)) && p.op == spec_op_of(n as u8))
    &&& (match jv_get(jv, "d"@) {
        Some(JsonV::Null) => p.d is None,
        Some(dv) => p.d matches Some(dj) && jview(dj) == dv,
        None => p.d is None,
    })
    &&& (match jv_get(jv, "t"@) {
        Some(JsonV::Str(tv)) => p.t matches Some(tt) && tt@ == tv,
        _ => p.t is None,
    })
    &&& (match jv_get(jv, "s"@) {
        Some(JsonV::U64(n)) => p.s == Some(n),
        _ => p.s is None,
    })
}

/// Field lookups agree across the view.
proof fn lemma_get_bridge(m: Seq<(String, Json)>, key: Seq<char>, n: int)
    requires
        0 <= n <= m.len(),
    ensures
        jv_get_prefix(jview_obj(m), key, n) == (match crate::json::spec_get_prefix(m, key, n) {
            Some(x) => Some(jview(x)),
            None => None,
        }),
    decreases n,
{
    lemma_jview_obj_index(m);
    if n > 0 {
        lemma_get_bridge(m, key, n - 1);
    }
}

/// The view keeps each variant's shape.
proof fn lemma_jview_cases(x: Json)
    ensures
        x is Null <==> jview(x) is Null,
        jview(x) is U64 <==> x is U64,
        x is U64 ==> jview(x) == JsonV::U64(x->U64_0),
        jview(x) is Str <==> x is Str,
        x is Str ==> jview(x) == JsonV::Str(x->Str_0@),
{
    match x {
        Json::Null => {}
        Json::Bool(_) => {}
        Json::U64(_) => {}
        Json::I64(_) => {}
        Json::Num(_) => {}
        Json::Str(_) => {}
        Json::Arr(_) => {}
        Json::Obj(_) => {}
    }
}

/// Reading a payload out of a JSON value agrees with reading it out of
/// the value's view.
proof fn lemma_payload_of_json_bridge(j: Json)
    ensures
        spec_payload_of_json(j) is Some <==> jv_payload_ok(jview(j)),
        spec_payload_of_json(j) matches Some(p) ==> payload_matches_jv(p, jview(j)),
{
    match j {
        Json::Obj(m) => {
            lemma_get_bridge(m@, "op"@, m@.len() as int);
            lemma_get_bridge(m@, "d"@, m@.len() as int);
            lemma_get_bridge(m@, "t"@, m@.len() as int);
            lemma_get_bridge(m@, "s"@, m@.len() as int);
            lemma_jview_obj_index(m@);
            match spec_get(j, "op"@) {
                Some(x) => lemma_jview_cases(x),
                None => {}
            }
            match spec_get(j, "d"@) {
                Some(x) => lemma_jview_cases(x),
                None => {}
            }
            match spec_get(j, "t"@) {
                Some(x) => lemma_jview_cases(x),
                None => {}
            }
            match spec_get(j, "s"@) {
                Some(x) => lemma_jview_cases(x),
                None => {}
            }
        }
        _ => {}
    }
}

/// Decodes one payload from its wire text: the text must parse as JSON
/// and carry the fields `spec_payload_of_json` asks for — if and only if.
pub fn decode_payload(s: &str) -> (r: Option<Payload>)
    ensures
        r matches Some(p) ==> wf_payload(p),
        r is Some <==> (sp_json(s@) matches Some(jv) && jv_payload_ok(jv)),
        r matches Some(p) ==> (sp_json(s@) matches Some(jv) && payload_matches_jv(p, jv)),
{
    match parse_json(s) {
        Some(j) => {
            proof {
                lemma_payload_of_json_bridge(j);
            }
            payload_of_json(j)
        }
        None => None,
    }
}

} // verus!
