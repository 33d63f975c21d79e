//! The wire protocol's two message shapes and their line codec.
//!
//! An `Envelope` travels from the companion tool to the application; a
//! `Response` travels back. Each is one compact JSON object followed by one
//! newline. Reading trims trailing line-end characters, parses the object,
//! and picks the protocol fields out of it; unknown fields are ignored and a
//! later duplicate of a known field wins, so the grammar stays deterministic.

use vstd::prelude::*;

use crate::json::{
    emit_object, emit_string, lemma_parse_top_line_inverts, obj_ok, parse_top_chars,
    parse_top_line, ser_item, ser_string, ser_top_field, ser_top_fields, ser_top_object, str_ok,
    top_ok, top_view, ItemVal, JsonItem, JsonObject, JsonScalar, ObjVal, ScalarVal, TopVal,
};
use crate::text::{chars_to_string, str_to_chars};

verus! {

/// One request line of the protocol.
pub struct Envelope {
    /// The operation selector.
    pub kind: String,
    /// Free-text payload for simple operations.
    pub message: Option<String>,
    /// Structured payload for operations that need several fields.
    pub payload: Option<JsonObject>,
}

/// Spec-level envelope.
pub ghost struct EnvelopeV {
    pub kind: Seq<char>,
    pub message: Option<Seq<char>>,
    pub payload: Option<ObjVal>,
}

/// Spec view of an optional string.
pub open spec fn opt_str_view(o: Option<String>) -> Option<Seq<char>> {
    match o {
        Some(s) => Some(s@),
        None => None,
    }
}

/// Spec view of an optional object.
pub open spec fn opt_obj_view(o: Option<JsonObject>) -> Option<ObjVal> {
    match o {
        Some(p) => Some(p@),
        None => None,
    }
}

impl View for Envelope {
    type V = EnvelopeV;

    open spec fn view(&self) -> EnvelopeV {
        EnvelopeV {
            kind: self.kind@,
            message: opt_str_view(self.message),
            payload: opt_obj_view(self.payload),
        }
    }
}

/// One response line of the protocol.
pub struct Response {
    /// `"ok"` or `"error"`.
    pub status: String,
    /// Result data, or `{error: ...}` on failure.
    pub data: Option<JsonObject>,
}

/// Spec-level response.
pub ghost struct ResponseV {
    pub status: Seq<char>,
    pub data: Option<ObjVal>,
}

impl View for Response {
    type V = ResponseV;

    open spec fn view(&self) -> ResponseV {
        ResponseV { status: self.status@, data: opt_obj_view(self.data) }
    }
}

// ---------------------------------------------------------------------------
// The field names.
// ---------------------------------------------------------------------------
/// The selector field's name.
pub open spec fn key_type() -> Seq<char> {
    seq!['t', 'y', 'p', 'e']
}

/// The free-text field's name.
pub open spec fn key_message() -> Seq<char> {
    seq!['m', 'e', 's', 's', 'a', 'g', 'e']
}

/// The structured-payload field's name.
pub open spec fn key_payload() -> Seq<char> {
    seq!['p', 'a', 'y', 'l', 'o', 'a', 'd']
}

/// The status field's name.
pub open spec fn key_status() -> Seq<char> {
    seq!['s', 't', 'a', 't', 'u', 's']
}

/// The data field's name.
pub open spec fn key_data() -> Seq<char> {
    seq!['d', 'a', 't', 'a']
}

// ---------------------------------------------------------------------------
// Serialization.
// ---------------------------------------------------------------------------
/// The fields an envelope is written with: `type` always, `message` and
/// `payload` only when present.
pub open spec fn env_fields(e: EnvelopeV) -> TopVal {
    let tf = (key_type(), ItemVal::Scalar(ScalarVal::Str(e.kind)));
    match (e.message, e.payload) {
        (Option::None, Option::None) => seq![tf],
        (Option::Some(m), Option::None) => seq![
            tf,
            (key_message(), ItemVal::Scalar(ScalarVal::Str(m))),
        ],
        (Option::None, Option::Some(p)) => seq![tf, (key_payload(), ItemVal::Object(p))],
        (Option::Some(m), Option::Some(p)) => seq![
            tf,
            (key_message(), ItemVal::Scalar(ScalarVal::Str(m))),
            (key_payload(), ItemVal::Object(p)),
        ],
    }
}

/// A serialized envelope, without its trailing newline.
pub open spec fn ser_envelope(e: EnvelopeV) -> Seq<char> {
    ser_top_object(env_fields(e))
}

/// The fields a response is written with: `status` always, `data` only
/// when present.
pub open spec fn resp_fields(r: ResponseV) -> TopVal {
    let sf = (key_status(), ItemVal::Scalar(ScalarVal::Str(r.status)));
    match r.data {
        Option::None => seq![sf],
        Option::Some(d) => seq![sf, (key_data(), ItemVal::Object(d))],
    }
}

/// A serialized response, without its trailing newline.
pub open spec fn ser_response(r: ResponseV) -> Seq<char> {
    ser_top_object(resp_fields(r))
}

/// Every string and object of the envelope is representable on the wire.
pub open spec fn envelope_ok(e: EnvelopeV) -> bool {
    &&& str_ok(e.kind)
    &&& match e.message {
        Some(m) => str_ok(m),
        None => true,
    }
    &&& match e.payload {
        Some(p) => obj_ok(p),
        None => true,
    }
}

/// Every string and object of the response is representable on the wire.
pub open spec fn response_ok(r: ResponseV) -> bool {
    &&& str_ok(r.status)
    &&& match r.data {
        Some(d) => obj_ok(d),
        None => true,
    }
}

// ---------------------------------------------------------------------------
// Parsing: picking the protocol fields out of a parsed object.
// ---------------------------------------------------------------------------
/// The envelope fields collected while walking a parsed object.
pub ghost struct EnvAcc {
    pub kind: Option<Seq<char>>,
    pub message: Option<Seq<char>>,
    pub payload: Option<ObjVal>,
}

/// Folds one parsed field into the accumulator: known keys must carry a
/// value of the right shape (`null` clears an optional field), unknown
/// keys are ignored.
pub open spec fn env_step(acc: EnvAcc, f: (Seq<char>, ItemVal)) -> Option<EnvAcc> {
    if f.0 == key_type() {
        match f.1 {
            ItemVal::Scalar(ScalarVal::Str(s)) => Some(EnvAcc { kind: Some(s), ..acc }),
            _ => None,
        }
    } else if f.0 == key_message() {
        match f.1 {
            ItemVal::Scalar(ScalarVal::Str(s)) => Some(EnvAcc { message: Some(s), ..acc }),
            ItemVal::Scalar(ScalarVal::Null) => Some(EnvAcc { message: None, ..acc }),
            _ => None,
        }
    } else if f.0 == key_payload() {
        match f.1 {
            ItemVal::Object(o) => Some(EnvAcc { payload: Some(o), ..acc }),
            ItemVal::Scalar(ScalarVal::Null) => Some(EnvAcc { payload: None, ..acc }),
            _ => None,
        }
    } else {
        Some(acc)
    }
}

/// Folds all parsed fields, left to right.
pub open spec fn env_fold(fs: TopVal, acc: EnvAcc) -> Option<EnvAcc>
    decreases fs.len(),
{
    if fs.len() == 0 {
        Some(acc)
    } else {
        match env_step(acc, fs[0]) {
            Some(a2) => env_fold(fs.skip(1), a2),
            None => None,
        }
    }
}

/// The envelope a parsed object denotes: the selector is required, the
/// other fields default to absent.
pub open spec fn envelope_of_fields(fs: TopVal) -> Option<EnvelopeV> {
    match env_fold(fs, EnvAcc { kind: None, message: None, payload: None }) {
        Some(acc) => match acc.kind {
            Some(k) => Some(EnvelopeV { kind: k, message: acc.message, payload: acc.payload }),
            None => None,
        },
        None => None,
    }
}

/// The response fields collected while walking a parsed object.
pub ghost struct RespAcc {
    pub status: Option<Seq<char>>,
    pub data: Option<ObjVal>,
}

/// Folds one parsed field into the response accumulator.
pub open spec fn resp_step(acc: RespAcc, f: (Seq<char>, ItemVal)) -> Option<RespAcc> {
    if f.0 == key_status() {
        match f.1 {
            ItemVal::Scalar(ScalarVal::Str(s)) => Some(RespAcc { status: Some(s), ..acc }),
            _ => None,
        }
    } else if f.0 == key_data() {
        match f.1 {
            ItemVal::Object(o) => Some(RespAcc { data: Some(o), ..acc }),
            ItemVal::Scalar(ScalarVal::Null) => Some(RespAcc { data: None, ..acc }),
            _ => None,
        }
    } else {
        Some(acc)
    }
}

/// Folds all parsed fields, left to right.
pub open spec fn resp_fold(fs: TopVal, acc: RespAcc) -> Option<RespAcc>
    decreases fs.len(),
{
    if fs.len() == 0 {
        Some(acc)
    } else {
        match resp_step(acc, fs[0]) {
            Some(a2) => resp_fold(fs.skip(1), a2),
            None => None,
        }
    }
}

/// The response a parsed object denotes: the status is required.
pub open spec fn response_of_fields(fs: TopVal) -> Option<ResponseV> {
    match resp_fold(fs, RespAcc { status: None, data: None }) {
        Some(acc) => match acc.status {
            Some(s) => Some(ResponseV { status: s, data: acc.data }),
            None => None,
        },
        None => None,
    }
}

/// A line-end or stray trailing blank character.
pub open spec fn is_trailing_ws(c: char) -> bool {
    c == '\n' || c == '\r' || c == ' ' || c == '\t'
}

/// The line with trailing line-end characters removed.
pub open spec fn trim_line_end(s: Seq<char>) -> Seq<char>
    decreases s.len(),
{
    if s.len() > 0 && is_trailing_ws(s.last()) {
        trim_line_end(s.drop_last())
    } else {
        s
    }
}

/// What one received line means as an envelope.
pub open spec fn parse_envelope_line(s: Seq<char>) -> Option<EnvelopeV> {
    match parse_top_line(trim_line_end(s)) {
        Some(fs) => envelope_of_fields(fs),
        None => None,
    }
}

/// What one received line means as a response.
pub open spec fn parse_response_line(s: Seq<char>) -> Option<ResponseV> {
    match parse_top_line(trim_line_end(s)) {
        Some(fs) => response_of_fields(fs),
        None => None,
    }
}

// ---------------------------------------------------------------------------
// Writing, executable.
// ---------------------------------------------------------------------------
/// Serializes an envelope as one JSON object followed by one newline.
#[verifier::rlimit(50)]
pub fn write_envelope(e: &Envelope) -> (line: String)
    ensures
        line@ == ser_envelope(e@) + seq!['\n'],
{
    proof {
        reveal_strlit("type");
        reveal_strlit("message");
        reveal_strlit("payload");
        assert("type"@ =~= key_type());
        assert("message"@ =~= key_message());
        assert("payload"@ =~= key_payload());
    }
    let k_type = String::from_str("type");
    let k_message = String::from_str("message");
    let k_payload = String::from_str("payload");
    let mut out: Vec<char> = Vec::new();
    out.push('{');
    emit_string(&mut out, &k_type);
    out.push(':');
    emit_string(&mut out, &e.kind);
    let ghost tf_ser = ser_top_field((key_type(), ItemVal::Scalar(ScalarVal::Str(e.kind@))));
    proof {
        assert(out@ =~= seq!['{'] + tf_ser);
    }
    match (&e.message, &e.payload) {
        (Option::None, Option::None) => {
            proof {
                assert(ser_top_fields(env_fields(e@)) == tf_ser);
            }
        },
        (Option::Some(m), Option::None) => {
            out.push(',');
            emit_string(&mut out, &k_message);
            out.push(':');
            emit_string(&mut out, m);
            proof {
                reveal_with_fuel(ser_top_fields, 3);
                let fs = env_fields(e@);
                let mf = (key_message(), ItemVal::Scalar(ScalarVal::Str(m@)));
                assert(fs =~= seq![(key_type(), ItemVal::Scalar(ScalarVal::Str(e.kind@))), mf]);
                assert(fs.skip(1) =~= seq![mf]);
                assert(ser_top_fields(fs) == ser_top_field(fs[0]) + seq![','] + ser_top_field(mf));
                assert(out@ =~= seq!['{'] + ser_top_fields(fs));
            }
        },
        (Option::None, Option::Some(p)) => {
            out.push(',');
            emit_string(&mut out, &k_payload);
            out.push(':');
            emit_object(&mut out, p);
            proof {
                reveal_with_fuel(ser_top_fields, 3);
                let fs = env_fields(e@);
                let pf = (key_payload(), ItemVal::Object(p@));
                assert(fs =~= seq![(key_type(), ItemVal::Scalar(ScalarVal::Str(e.kind@))), pf]);
                assert(fs.skip(1) =~= seq![pf]);
                assert(ser_top_fields(fs) == ser_top_field(fs[0]) + seq![','] + ser_top_field(pf));
                assert(out@ =~= seq!['{'] + ser_top_fields(fs));
            }
        },
        (Option::Some(m), Option::Some(p)) => {
            out.push(',');
            emit_string(&mut out, &k_message);
            out.push(':');
            emit_string(&mut out, m);
            out.push(',');
            emit_string(&mut out, &k_payload);
            out.push(':');
            emit_object(&mut out, p);
            proof {
                reveal_with_fuel(ser_top_fields, 4);
                let fs = env_fields(e@);
                let mf = (key_message(), ItemVal::Scalar(ScalarVal::Str(m@)));
                let pf = (key_payload(), ItemVal::Object(p@));
                assert(fs =~= seq![(key_type(), ItemVal::Scalar(ScalarVal::Str(e.kind@))), mf, pf]);
                assert(fs.skip(1) =~= seq![mf, pf]);
                assert(fs.skip(1).skip(1) =~= seq![pf]);
                assert(ser_top_fields(fs.skip(1)) == ser_top_field(mf) + seq![','] + ser_top_field(
                    pf,
                ));
                assert(ser_top_fields(fs) == ser_top_field(fs[0]) + seq![','] + ser_top_fields(
                    fs.skip(1),
                ));
                assert(out@ =~= seq!['{'] + ser_top_fields(fs));
            }
        },
    }
    out.push('}');
    out.push('\n');
    proof {
        assert(out@ =~= ser_top_object(env_fields(e@)) + seq!['\n']);
    }
    chars_to_string(&out)
}

/// Serializes a response as one JSON object followed by one newline.
#[verifier::rlimit(50)]
pub fn write_response(r: &Response) -> (line: String)
    ensures
        line@ == ser_response(r@) + seq!['\n'],
{
    proof {
        reveal_strlit("status");
        reveal_strlit("data");
        assert("status"@ =~= key_status());
        assert("data"@ =~= key_data());
    }
    let k_status = String::from_str("status");
    let k_data = String::from_str("data");
    let mut out: Vec<char> = Vec::new();
    out.push('{');
    emit_string(&mut out, &k_status);
    out.push(':');
    emit_string(&mut out, &r.status);
    let ghost sf_ser = ser_top_field((key_status(), ItemVal::Scalar(ScalarVal::Str(r.status@))));
    proof {
        assert(out@ =~= seq!['{'] + sf_ser);
    }
    match &r.data {
        Option::None => {
            proof {
                assert(ser_top_fields(resp_fields(r@)) == sf_ser);
            }
        },
        Option::Some(d) => {
            out.push(',');
            emit_string(&mut out, &k_data);
            out.push(':');
            emit_object(&mut out, d);
            proof {
                reveal_with_fuel(ser_top_fields, 3);
                let fs = resp_fields(r@);
                let df = (key_data(), ItemVal::Object(d@));
                assert(fs =~= seq![(key_status(), ItemVal::Scalar(ScalarVal::Str(r.status@))), df]);
                assert(fs.skip(1) =~= seq![df]);
                assert(ser_top_fields(fs) == ser_top_field(fs[0]) + seq![','] + ser_top_field(df));
                assert(out@ =~= seq!['{'] + ser_top_fields(fs));
            }
        },
    }
    out.push('}');
    out.push('\n');
    proof {
        assert(out@ =~= ser_top_object(resp_fields(r@)) + seq!['\n']);
    }
    chars_to_string(&out)
}

// ---------------------------------------------------------------------------
// Reading, executable.
// ---------------------------------------------------------------------------
/// Removes trailing line-end characters.
pub fn trim_end_chars(v: &mut Vec<char>)
    ensures
        final(v)@ == trim_line_end(old(v)@),
{
    loop
        invariant
            trim_line_end(old(v)@) == trim_line_end(v@),
        decreases v@.len(),
    {
        let n = v.len();
        if n == 0 {
            return ;
        }
        let c = v[n - 1];
        assert(v@.last() == c);
        if c == '\n' || c == '\r' || c == ' ' || c == '\t' {
            v.pop();
        } else {
            return ;
        }
    }
}

/// Picks the envelope fields out of a parsed object.
#[verifier::loop_isolation(false)]
fn envelope_from_fields(fields: Vec<(String, JsonItem)>) -> (r: Option<Envelope>)
    ensures
        match r {
            Some(e) => envelope_of_fields(top_view(&fields)) == Some(e@),
            None => envelope_of_fields(top_view(&fields)) == None::<EnvelopeV>,
        },
{
    proof {
        reveal_strlit("type");
        reveal_strlit("message");
        reveal_strlit("payload");
        assert("type"@ =~= key_type());
        assert("message"@ =~= key_message());
        assert("payload"@ =~= key_payload());
    }
    let k_type = String::from_str("type");
    let k_message = String::from_str("message");
    let k_payload = String::from_str("payload");
    let ghost gfs = top_view(&fields);
    let ghost init = EnvAcc { kind: None, message: None, payload: None };
    let mut kind: Option<String> = None;
    let mut message: Option<String> = None;
    let mut payload: Option<JsonObject> = None;
    let mut fs = fields;
    while fs.len() > 0
        invariant
            env_fold(gfs, init) == env_fold(
                top_view(&fs),
                EnvAcc {
                    kind: opt_str_view(kind),
                    message: opt_str_view(message),
                    payload: opt_obj_view(payload),
                },
            ),
        decreases fs@.len(),
    {
        let ghost pre = top_view(&fs);
        let ghost acc = EnvAcc {
            kind: opt_str_view(kind),
            message: opt_str_view(message),
            payload: opt_obj_view(payload),
        };
        let f = fs.remove(0);
        proof {
            assert(pre[0] == (f.0@, f.1@));
            assert(top_view(&fs) =~= pre.skip(1));
        }
        if f.0 == k_type {
            match f.1 {
                JsonItem::Scalar(JsonScalar::Str(s)) => {
                    kind = Some(s);
                },
                JsonItem::Scalar(JsonScalar::Null) => {
                    return None;
                },
                JsonItem::Scalar(JsonScalar::Bool(_)) => {
                    return None;
                },
                JsonItem::Scalar(JsonScalar::Int(_)) => {
                    return None;
                },
                JsonItem::Object(_) => {
                    return None;
                },
            }
        } else if f.0 == k_message {
            match f.1 {
                JsonItem::Scalar(JsonScalar::Str(s)) => {
                    message = Some(s);
                },
                JsonItem::Scalar(JsonScalar::Null) => {
                    message = None;
                },
                JsonItem::Scalar(JsonScalar::Bool(_)) => {
                    return None;
                },
                JsonItem::Scalar(JsonScalar::Int(_)) => {
                    return None;
                },
                JsonItem::Object(_) => {
                    return None;
                },
            }
        } else if f.0 == k_payload {
            match f.1 {
                JsonItem::Object(o) => {
                    payload = Some(o);
                },
                JsonItem::Scalar(JsonScalar::Null) => {
                    payload = None;
                },
                JsonItem::Scalar(JsonScalar::Str(_)) => {
                    return None;
                },
                JsonItem::Scalar(JsonScalar::Bool(_)) => {
                    return None;
                },
                JsonItem::Scalar(JsonScalar::Int(_)) => {
                    return None;
                },
            }
        }
    }
    assert(top_view(&fs).len() == 0);
    match kind {
        Some(k) => Some(Envelope { kind: k, message, payload }),
        None => None,
    }
}

/// Picks the response fields out of a parsed object.
#[verifier::loop_isolation(false)]
fn response_from_fields(fields: Vec<(String, JsonItem)>) -> (r: Option<Response>)
    ensures
        match r {
            Some(resp) => response_of_fields(top_view(&fields)) == Some(resp@),
            None => response_of_fields(top_view(&fields)) == None::<ResponseV>,
        },
{
    proof {
        reveal_strlit("status");
        reveal_strlit("data");
        assert("status"@ =~= key_status());
        assert("data"@ =~= key_data());
    }
    let k_status = String::from_str("status");
    let k_data = String::from_str("data");
    let ghost gfs = top_view(&fields);
    let ghost init = RespAcc { status: None, data: None };
    let mut status: Option<String> = None;
    let mut data: Option<JsonObject> = None;
    let mut fs = fields;
    while fs.len() > 0
        invariant
            resp_fold(gfs, init) == resp_fold(
                top_view(&fs),
                RespAcc { status: opt_str_view(status), data: opt_obj_view(data) },
            ),
        decreases fs@.len(),
    {
        let ghost pre = top_view(&fs);
        let ghost acc = RespAcc { status: opt_str_view(status), data: opt_obj_view(data) };
        let f = fs.remove(0);
        proof {
            assert(pre[0] == (f.0@, f.1@));
            assert(top_view(&fs) =~= pre.skip(1));
        }
        if f.0 == k_status {
            proof {
                assert(f.0@ == key_status());
                assert(pre[0].0 == key_status());
            }
            match f.1 {
                JsonItem::Scalar(JsonScalar::Str(s)) => {
                    proof {
                        assert(pre[0].1 == ItemVal::Scalar(ScalarVal::Str(s@)));
                        assert(resp_step(acc, pre[0]) == Some(RespAcc { status: Some(s@), ..acc }));
                        assert(resp_fold(pre, acc) == resp_fold(
                            pre.skip(1),
                            RespAcc { status: Some(s@), ..acc },
                        ));
                    }
                    status = Some(s);
                },
                JsonItem::Scalar(JsonScalar::Null) => {
                    return None;
                },
                JsonItem::Scalar(JsonScalar::Bool(_)) => {
                    return None;
                },
                JsonItem::Scalar(JsonScalar::Int(_)) => {
                    return None;
                },
                JsonItem::Object(_) => {
                    return None;
                },
            }
        } else if f.0 == k_data {
            match f.1 {
                JsonItem::Object(o) => {
                    data = Some(o);
                },
                JsonItem::Scalar(JsonScalar::Null) => {
                    data = None;
                },
                JsonItem::Scalar(JsonScalar::Str(_)) => {
                    return None;
                },
                JsonItem::Scalar(JsonScalar::Bool(_)) => {
                    return None;
                },
                JsonItem::Scalar(JsonScalar::Int(_)) => {
                    return None;
                },
            }
        }
    }
    assert(top_view(&fs).len() == 0);
    match status {
        Some(s) => Some(Response { status: s, data }),
        None => None,
    }
}

/// Reads one received line as an envelope: trims the line end, parses the
/// object, and picks the protocol fields out of it.
pub fn read_envelope(line: &str) -> (r: Option<Envelope>)
    ensures
        match r {
            Some(e) => parse_envelope_line(line@) == Some(e@),
            None => parse_envelope_line(line@) == None::<EnvelopeV>,
        },
{
    let mut cs = str_to_chars(line);
    trim_end_chars(&mut cs);
    match parse_top_chars(&cs) {
        Some(fields) => envelope_from_fields(fields),
        None => None,
    }
}

/// Reads one received line as a response.
pub fn read_response(line: &str) -> (r: Option<Response>)
    ensures
        match r {
            Some(resp) => parse_response_line(line@) == Some(resp@),
            None => parse_response_line(line@) == None::<ResponseV>,
        },
{
    let mut cs = str_to_chars(line);
    trim_end_chars(&mut cs);
    match parse_top_chars(&cs) {
        Some(fields) => response_from_fields(fields),
        None => None,
    }
}

// ---------------------------------------------------------------------------
// Round trip: reading a written line gives the value back.
// ---------------------------------------------------------------------------
proof fn lemma_keys_ok()
    ensures
        str_ok(key_type()),
        str_ok(key_message()),
        str_ok(key_payload()),
        str_ok(key_status()),
        str_ok(key_data()),
{
    assert forall|i: int| 0 <= i < key_type().len() implies crate::json::char_ok(
        #[trigger] key_type()[i],
    ) by {
        assert(key_type()[0] == 't' && key_type()[1] == 'y' && key_type()[2] == 'p'
            && key_type()[3] == 'e');
    }
    assert forall|i: int| 0 <= i < key_message().len() implies crate::json::char_ok(
        #[trigger] key_message()[i],
    ) by {
        assert(key_message()[0] == 'm' && key_message()[1] == 'e' && key_message()[2] == 's'
            && key_message()[3] == 's' && key_message()[4] == 'a' && key_message()[5] == 'g'
            && key_message()[6] == 'e');
    }
    assert forall|i: int| 0 <= i < key_payload().len() implies crate::json::char_ok(
        #[trigger] key_payload()[i],
    ) by {
        assert(key_payload()[0] == 'p' && key_payload()[1] == 'a' && key_payload()[2] == 'y'
            && key_payload()[3] == 'l' && key_payload()[4] == 'o' && key_payload()[5] == 'a'
            && key_payload()[6] == 'd');
    }
    assert forall|i: int| 0 <= i < key_status().len() implies crate::json::char_ok(
        #[trigger] key_status()[i],
    ) by {
        assert(key_status()[0] == 's' && key_status()[1] == 't' && key_status()[2] == 'a'
            && key_status()[3] == 't' && key_status()[4] == 'u' && key_status()[5] == 's');
    }
    assert forall|i: int| 0 <= i < key_data().len() implies crate::json::char_ok(
        #[trigger] key_data()[i],
    ) by {
        assert(key_data()[0] == 'd' && key_data()[1] == 'a' && key_data()[2] == 't'
            && key_data()[3] == 'a');
    }
}

/// Trimming a written line removes exactly the trailing newline.
proof fn lemma_trim_written(body: Seq<char>)
    requires
        body.len() > 0,
        body.last() == '}',
    ensures
        trim_line_end(body + seq!['\n']) == body,
{
    let line = body + seq!['\n'];
    assert(line.last() == '\n');
    assert(line.drop_last() =~= body);
    assert(!is_trailing_ws('}'));
    assert(trim_line_end(body) == body);
}

/// Folding the fields an envelope is written with recovers the envelope.
proof fn lemma_env_extract(e: EnvelopeV)
    ensures
        envelope_of_fields(env_fields(e)) == Some(e),
{
    reveal_with_fuel(env_fold, 5);
    let init = EnvAcc { kind: None, message: None, payload: None };
    let tf = (key_type(), ItemVal::Scalar(ScalarVal::Str(e.kind)));
    assert(key_type() != key_message()) by {
        assert(key_type().len() != key_message().len());
    }
    assert(key_type() != key_payload()) by {
        assert(key_type().len() != key_payload().len());
    }
    assert(key_message() != key_payload()) by {
        assert(key_message()[0] != key_payload()[0]);
    }
    match (e.message, e.payload) {
        (Option::None, Option::None) => {
            let fs = seq![tf];
            assert(env_fields(e) == fs);
            assert(env_step(init, tf) == Some(EnvAcc { kind: Some(e.kind), ..init }));
            assert(fs.skip(1) =~= Seq::<(Seq<char>, ItemVal)>::empty());
            assert(env_fold(fs, init) == Some(
                EnvAcc { kind: Some(e.kind), message: None, payload: None },
            ));
        },
        (Option::Some(m), Option::None) => {
            let mf = (key_message(), ItemVal::Scalar(ScalarVal::Str(m)));
            let fs = seq![tf, mf];
            assert(env_fields(e) == fs);
            let a1 = EnvAcc { kind: Some(e.kind), message: None, payload: None };
            assert(env_step(init, tf) == Some(a1));
            assert(fs.skip(1) =~= seq![mf]);
            assert(env_step(a1, mf) == Some(
                EnvAcc { kind: Some(e.kind), message: Some(m), payload: None },
            ));
            assert(seq![mf].skip(1) =~= Seq::<(Seq<char>, ItemVal)>::empty());
            assert(env_fold(fs, init) == Some(
                EnvAcc { kind: Some(e.kind), message: Some(m), payload: None },
            ));
        },
        (Option::None, Option::Some(p)) => {
            let pf = (key_payload(), ItemVal::Object(p));
            let fs = seq![tf, pf];
            assert(env_fields(e) == fs);
            let a1 = EnvAcc { kind: Some(e.kind), message: None, payload: None };
            assert(env_step(init, tf) == Some(a1));
            assert(fs.skip(1) =~= seq![pf]);
            assert(env_step(a1, pf) == Some(
                EnvAcc { kind: Some(e.kind), message: None, payload: Some(p) },
            ));
            assert(seq![pf].skip(1) =~= Seq::<(Seq<char>, ItemVal)>::empty());
            assert(env_fold(fs, init) == Some(
                EnvAcc { kind: Some(e.kind), message: None, payload: Some(p) },
            ));
        },
        (Option::Some(m), Option::Some(p)) => {
            let mf = (key_message(), ItemVal::Scalar(ScalarVal::Str(m)));
            let pf = (key_payload(), ItemVal::Object(p));
            let fs = seq![tf, mf, pf];
            assert(env_fields(e) == fs);
            let a1 = EnvAcc { kind: Some(e.kind), message: None, payload: None };
            let a2 = EnvAcc { kind: Some(e.kind), message: Some(m), payload: None };
            let a3 = EnvAcc { kind: Some(e.kind), message: Some(m), payload: Some(p) };
            assert(env_step(init, tf) == Some(a1));
            assert(fs.skip(1) =~= seq![mf, pf]);
            assert(env_step(a1, mf) == Some(a2));
            assert(seq![mf, pf].skip(1) =~= seq![pf]);
            assert(env_step(a2, pf) == Some(a3));
            assert(seq![pf].skip(1) =~= Seq::<(Seq<char>, ItemVal)>::empty());
            assert(env_fold(fs, init) == Some(a3));
        },
    }
}

/// Folding the fields a response is written with recovers the response.
proof fn lemma_resp_extract(r: ResponseV)
    ensures
        response_of_fields(resp_fields(r)) == Some(r),
{
    reveal_with_fuel(resp_fold, 4);
    let init = RespAcc { status: None, data: None };
    let sf = (key_status(), ItemVal::Scalar(ScalarVal::Str(r.status)));
    assert(key_status() != key_data()) by {
        assert(key_status().len() != key_data().len());
    }
    match r.data {
        Option::None => {
            let fs = seq![sf];
            assert(resp_fields(r) == fs);
            assert(resp_step(init, sf) == Some(RespAcc { status: Some(r.status), data: None }));
            assert(fs.skip(1) =~= Seq::<(Seq<char>, ItemVal)>::empty());
            assert(resp_fold(fs, init) == Some(RespAcc { status: Some(r.status), data: None }));
        },
        Option::Some(d) => {
            let df = (key_data(), ItemVal::Object(d));
            let fs = seq![sf, df];
            assert(resp_fields(r) == fs);
            let a1 = RespAcc { status: Some(r.status), data: None };
            assert(resp_step(init, sf) == Some(a1));
            assert(fs.skip(1) =~= seq![df]);
            assert(resp_step(a1, df) == Some(RespAcc { status: Some(r.status), data: Some(d) }));
            assert(seq![df].skip(1) =~= Seq::<(Seq<char>, ItemVal)>::empty());
            assert(resp_fold(fs, init) == Some(RespAcc { status: Some(r.status), data: Some(d) }));
        },
    }
}

/// The fields an envelope is written with are representable.
proof fn lemma_env_fields_ok(e: EnvelopeV)
    requires
        envelope_ok(e),
    ensures
        top_ok(env_fields(e)),
{
    lemma_keys_ok();
    let fs = env_fields(e);
    assert forall|i: int| 0 <= i < fs.len() implies str_ok(#[trigger] fs[i].0)
        && crate::json::item_ok(fs[i].1) by {
        match (e.message, e.payload) {
            (Option::None, Option::None) => {
                assert(fs.len() == 1);
            },
            (Option::Some(m), Option::None) => {
                assert(fs.len() == 2);
            },
            (Option::None, Option::Some(p)) => {
                assert(fs.len() == 2);
            },
            (Option::Some(m), Option::Some(p)) => {
                assert(fs.len() == 3);
            },
        }
    }
}

/// The fields a response is written with are representable.
proof fn lemma_resp_fields_ok(r: ResponseV)
    requires
        response_ok(r),
    ensures
        top_ok(resp_fields(r)),
{
    lemma_keys_ok();
    let fs = resp_fields(r);
    assert forall|i: int| 0 <= i < fs.len() implies str_ok(#[trigger] fs[i].0)
        && crate::json::item_ok(fs[i].1) by {
        match r.data {
            Option::None => {
                assert(fs.len() == 1);
            },
            Option::Some(d) => {
                assert(fs.len() == 2);
            },
        }
    }
}

// ---------------------------------------------------------------------------
// The framing invariant: one object, one newline, nothing embedded.
// ---------------------------------------------------------------------------
/// No character of the sequence is a newline.
pub open spec fn newline_free(s: Seq<char>) -> bool {
    forall|i: int| 0 <= i < s.len() ==> #[trigger] s[i] != '\n'
}

/// An escaped string body never carries a raw newline: the writer escapes
/// the newline itself, and every other representable character is not one.
proof fn lemma_ser_str_body_newline_free(s: Seq<char>)
    requires
        str_ok(s),
    ensures
        newline_free(crate::json::ser_str_body(s)),
    decreases s.len(),
{
    if s.len() == 0 {
    } else {
        lemma_ser_str_body_newline_free(s.skip(1));
        let e = crate::json::esc_char(s[0]);
        assert(newline_free(e)) by {
            if s[0] == '"' || s[0] == '\\' || s[0] == '\n' || s[0] == '\r' || s[0] == '\t' {
                assert(e.len() == 2 && e[0] == '\\' && e[1] != '\n');
            } else {
                assert(e =~= seq![s[0]]);
                assert(crate::json::char_ok(s[0]));
                assert(s[0] != '\n');
            }
        }
        assert(crate::json::ser_str_body(s) == e + crate::json::ser_str_body(s.skip(1)));
        assert forall|i: int|
            0 <= i < crate::json::ser_str_body(s).len() implies #[trigger] crate::json::ser_str_body(
            s,
        )[i] != '\n' by {
            if i < e.len() {
                assert(crate::json::ser_str_body(s)[i] == e[i]);
            } else {
                assert(crate::json::ser_str_body(s)[i] == crate::json::ser_str_body(s.skip(1))[i
                    - e.len()]);
            }
        }
    }
}

/// A quoted string of representable characters is newline-free.
proof fn lemma_ser_string_newline_free(s: Seq<char>)
    requires
        str_ok(s),
    ensures
        newline_free(ser_string(s)),
{
    lemma_ser_str_body_newline_free(s);
    lemma_concat_newline_free(seq!['"'], crate::json::ser_str_body(s));
    lemma_concat_newline_free(seq!['"'] + crate::json::ser_str_body(s), seq!['"']);
    assert(ser_string(s) == seq!['"'] + crate::json::ser_str_body(s) + seq!['"']);
}

/// Newline-freedom is preserved by concatenation.
proof fn lemma_concat_newline_free(a: Seq<char>, b: Seq<char>)
    requires
        newline_free(a),
        newline_free(b),
    ensures
        newline_free(a + b),
{
    assert forall|i: int| 0 <= i < (a + b).len() implies #[trigger] (a + b)[i] != '\n' by {
        if i < a.len() {
            assert((a + b)[i] == a[i]);
        } else {
            assert((a + b)[i] == b[i - a.len()]);
        }
    }
}

/// A serialized scalar of representable content is newline-free.
proof fn lemma_ser_scalar_newline_free(v: ScalarVal)
    requires
        crate::json::scalar_ok(v),
    ensures
        newline_free(crate::json::ser_scalar(v)),
{
    match v {
        ScalarVal::Null => {
            assert(newline_free(seq!['n', 'u', 'l', 'l']));
        },
        ScalarVal::Bool(b) => {
            if b {
                assert(newline_free(seq!['t', 'r', 'u', 'e']));
            } else {
                assert(newline_free(seq!['f', 'a', 'l', 's', 'e']));
            }
        },
        ScalarVal::Int(i) => {
            lemma_int_seq_newline_free(i);
        },
        ScalarVal::Str(s) => {
            lemma_ser_string_newline_free(s);
        },
    }
}

/// A decimal rendering is digits and a sign, never a newline.
proof fn lemma_dec_seq_newline_free(n: nat)
    ensures
        newline_free(crate::text::dec_seq(n)),
    decreases n,
{
    if n < 10 {
        assert(crate::text::dec_seq(n) =~= seq![crate::text::digit_char(n)]);
        assert(crate::text::digit_char(n) as u32 == n + 48);
        assert(crate::text::digit_char(n) != '\n');
    } else {
        lemma_dec_seq_newline_free(n / 10);
        assert(crate::text::digit_char(n % 10) as u32 == n % 10 + 48);
        lemma_concat_newline_free(
            crate::text::dec_seq(n / 10),
            seq![crate::text::digit_char(n % 10)],
        );
    }
}

/// A signed decimal rendering is newline-free.
proof fn lemma_int_seq_newline_free(i: int)
    ensures
        newline_free(crate::text::int_seq(i)),
{
    if i >= 0 {
        lemma_dec_seq_newline_free(i as nat);
    } else {
        lemma_dec_seq_newline_free((-i) as nat);
        lemma_concat_newline_free(seq!['-'], crate::text::dec_seq((-i) as nat));
    }
}

/// A serialized object of representable content is newline-free.
proof fn lemma_ser_object_newline_free(o: ObjVal)
    requires
        obj_ok(o),
    ensures
        newline_free(crate::json::ser_object(o)),
    decreases o.len(),
{
    lemma_ser_fields_newline_free(o);
    lemma_concat_newline_free(seq!['{'], crate::json::ser_fields(o));
    lemma_concat_newline_free(seq!['{'] + crate::json::ser_fields(o), seq!['}']);
}

/// Serialized scalar fields are newline-free.
proof fn lemma_ser_fields_newline_free(o: ObjVal)
    requires
        obj_ok(o),
    ensures
        newline_free(crate::json::ser_fields(o)),
    decreases o.len(),
{
    if o.len() == 0 {
    } else {
        lemma_ser_string_newline_free(o[0].0);
        lemma_ser_scalar_newline_free(o[0].1);
        lemma_concat_newline_free(ser_string(o[0].0), seq![':']);
        lemma_concat_newline_free(
            ser_string(o[0].0) + seq![':'],
            crate::json::ser_scalar(o[0].1),
        );
        if o.len() == 1 {
        } else {
            assert(obj_ok(o.skip(1))) by {
                assert(forall|i: int|
                    0 <= i < o.skip(1).len() ==> #[trigger] o.skip(1)[i] == o[i + 1]);
            }
            lemma_ser_fields_newline_free(o.skip(1));
            lemma_concat_newline_free(crate::json::ser_field(o[0]), seq![',']);
            lemma_concat_newline_free(
                crate::json::ser_field(o[0]) + seq![','],
                crate::json::ser_fields(o.skip(1)),
            );
        }
    }
}

/// A serialized top-level value of representable content is newline-free.
proof fn lemma_ser_item_newline_free(v: ItemVal)
    requires
        crate::json::item_ok(v),
    ensures
        newline_free(ser_item(v)),
{
    match v {
        ItemVal::Scalar(s) => lemma_ser_scalar_newline_free(s),
        ItemVal::Object(o) => lemma_ser_object_newline_free(o),
    }
}

/// Serialized top-level fields are newline-free.
proof fn lemma_ser_top_fields_newline_free(fs: TopVal)
    requires
        top_ok(fs),
    ensures
        newline_free(ser_top_fields(fs)),
    decreases fs.len(),
{
    if fs.len() == 0 {
    } else {
        lemma_ser_string_newline_free(fs[0].0);
        lemma_ser_item_newline_free(fs[0].1);
        lemma_concat_newline_free(ser_string(fs[0].0), seq![':']);
        lemma_concat_newline_free(ser_string(fs[0].0) + seq![':'], ser_item(fs[0].1));
        if fs.len() == 1 {
        } else {
            assert(top_ok(fs.skip(1))) by {
                assert(forall|i: int|
                    0 <= i < fs.skip(1).len() ==> #[trigger] fs.skip(1)[i] == fs[i + 1]);
            }
            lemma_ser_top_fields_newline_free(fs.skip(1));
            lemma_concat_newline_free(ser_top_field(fs[0]), seq![',']);
            lemma_concat_newline_free(
                ser_top_field(fs[0]) + seq![','],
                ser_top_fields(fs.skip(1)),
            );
        }
    }
}

/// The framing invariant: a written envelope is one newline-free object
/// followed by exactly one newline, so one message occupies one line.
pub proof fn lemma_envelope_framing(e: EnvelopeV)
    requires
        envelope_ok(e),
    ensures
        newline_free(ser_envelope(e)),
{
    lemma_env_fields_ok(e);
    lemma_ser_top_fields_newline_free(env_fields(e));
    lemma_concat_newline_free(seq!['{'], ser_top_fields(env_fields(e)));
    lemma_concat_newline_free(seq!['{'] + ser_top_fields(env_fields(e)), seq!['}']);
    assert(ser_envelope(e) == seq!['{'] + ser_top_fields(env_fields(e)) + seq!['}']);
}

/// The framing invariant for responses.
pub proof fn lemma_response_framing(r: ResponseV)
    requires
        response_ok(r),
    ensures
        newline_free(ser_response(r)),
{
    lemma_resp_fields_ok(r);
    lemma_ser_top_fields_newline_free(resp_fields(r));
    lemma_concat_newline_free(seq!['{'], ser_top_fields(resp_fields(r)));
    lemma_concat_newline_free(seq!['{'] + ser_top_fields(resp_fields(r)), seq!['}']);
    assert(ser_response(r) == seq!['{'] + ser_top_fields(resp_fields(r)) + seq!['}']);
}

/// Framing round trip: writing any representable envelope and reading the
/// written line back reconstructs an equal envelope.
pub proof fn lemma_envelope_round_trip(e: EnvelopeV)
    requires
        envelope_ok(e),
    ensures
        parse_envelope_line(ser_envelope(e) + seq!['\n']) == Some(e),
{
    lemma_env_fields_ok(e);
    lemma_parse_top_line_inverts(env_fields(e));
    let body = ser_envelope(e);
    assert(body.last() == '}') by {
        assert(body == seq!['{'] + ser_top_fields(env_fields(e)) + seq!['}']);
    }
    assert(body.len() > 0);
    lemma_trim_written(body);
    lemma_env_extract(e);
}

/// Framing round trip for responses: writing any representable response
/// and reading the written line back reconstructs an equal response.
pub proof fn lemma_response_round_trip(r: ResponseV)
    requires
        response_ok(r),
    ensures
        parse_response_line(ser_response(r) + seq!['\n']) == Some(r),
{
    lemma_resp_fields_ok(r);
    lemma_parse_top_line_inverts(resp_fields(r));
    let body = ser_response(r);
    assert(body.last() == '}') by {
        assert(body == seq!['{'] + ser_top_fields(resp_fields(r)) + seq!['}']);
    }
    assert(body.len() > 0);
    lemma_trim_written(body);
    lemma_resp_extract(r);
}

} // verus!
