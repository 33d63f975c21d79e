//! The server side of the control plane: routing one envelope to its
//! operation, the per-line handling with the size cap, and the startup
//! reading of the development-mode flag.
//!
//! `dispatch_spec` is the whole routing table as one spec function; the
//! executable `dispatch` is proven to implement it exactly, so the lock on
//! `create`, the inertness of unknown selectors, and the exact error
//! strings are all theorems about one definition.

use vstd::prelude::*;

use crate::json::{lookup_str, JsonObject, JsonScalar, ObjVal, ScalarVal};
use crate::store::{
    created_conversation, created_message, last_assistant_spec, message_json, message_to_json,
    store_after_conversation, store_after_message, ConversationStore, NewConversation,
    NewMessage, StoreV,
};
use crate::text::{lower_chars, lower_seq, str_to_chars};
use crate::wire::{
    opt_str_view, parse_envelope_line, read_envelope, trim_line_end, Envelope, EnvelopeV,
    Response, ResponseV,
};

verus! {

/// The longest line the server accepts, in bytes.
pub const MAX_MESSAGE_SIZE: usize = 1048576;

/// An event the dispatcher hands to the UI layer.
pub enum UiEvent {
    /// Show a desktop notification with this text.
    Notify(String),
    /// Submit this structured prompt.
    AskPayload(JsonObject),
    /// Submit this free-text prompt.
    AskMessage(String),
}

/// Spec-level UI event.
pub ghost enum UiEventV {
    Notify(Seq<char>),
    AskPayload(ObjVal),
    AskMessage(Seq<char>),
}

impl View for UiEvent {
    type V = UiEventV;

    open spec fn view(&self) -> UiEventV {
        match self {
            UiEvent::Notify(s) => UiEventV::Notify(s@),
            UiEvent::AskPayload(p) => UiEventV::AskPayload(p@),
            UiEvent::AskMessage(s) => UiEventV::AskMessage(s@),
        }
    }
}

/// Spec view of an optional event.
pub open spec fn opt_event_view(o: Option<UiEvent>) -> Option<UiEventV> {
    match o {
        Some(e) => Some(e@),
        None => None,
    }
}

/// The all-clear response: `{"status":"ok"}`.
pub open spec fn ok_response_v() -> ResponseV {
    ResponseV { status: "ok"@, data: None }
}

/// An error response: `{"status":"error","data":{"error":<msg>}}`.
pub open spec fn error_response_v(msg: Seq<char>) -> ResponseV {
    ResponseV { status: "error"@, data: Some(seq![("error"@, ScalarVal::Str(msg))]) }
}

/// Everything one dispatch step decides: the store afterwards, the reply,
/// and what is forwarded to the UI.
pub ghost struct DispatchOut {
    pub store: StoreV,
    pub response: ResponseV,
    pub event: Option<UiEventV>,
}

/// What `create` does once development mode is on: insert one assistant
/// message, into the named conversation or into a freshly created one.
pub open spec fn create_spec(s: StoreV, p: ObjVal, now: int) -> DispatchOut {
    let content = match lookup_str(p, "content"@) {
        Some(c) => c,
        None => "Test message"@,
    };
    match lookup_str(p, "conversation_id"@) {
        Some(cid) => {
            let m = created_message(s, cid, "assistant"@, content, None, now);
            DispatchOut {
                store: store_after_message(s, m, now),
                response: ResponseV { status: "ok"@, data: Some(message_json(m)) },
                event: None,
            }
        },
        None => {
            let c = created_conversation(
                s,
                "Dev Test Conversation"@,
                "dev-model"@,
                "dev-provider"@,
                None,
                now,
            );
            let s1 = store_after_conversation(s, c);
            let m = created_message(s1, c.id, "assistant"@, content, None, now);
            DispatchOut {
                store: store_after_message(s1, m, now),
                response: ResponseV { status: "ok"@, data: Some(message_json(m)) },
                event: None,
            }
        },
    }
}

/// The routing table: what one envelope does to the store, what is
/// answered, and what reaches the UI.
pub open spec fn dispatch_spec(s: StoreV, dev_mode: bool, e: EnvelopeV, now: int) -> DispatchOut {
    if e.kind == "notify"@ {
        let text = match e.message {
            Some(m) => m,
            None => Seq::empty(),
        };
        DispatchOut { store: s, response: ok_response_v(), event: Some(UiEventV::Notify(text)) }
    } else if e.kind == "ask"@ {
        let fwd = match e.payload {
            Some(p) => UiEventV::AskPayload(p),
            None => UiEventV::AskMessage(
                match e.message {
                    Some(m) => m,
                    None => Seq::empty(),
                },
            ),
        };
        DispatchOut { store: s, response: ok_response_v(), event: Some(fwd) }
    } else if e.kind == "last"@ {
        match last_assistant_spec(s) {
            Some(m) => DispatchOut {
                store: s,
                response: ResponseV { status: "ok"@, data: Some(message_json(m)) },
                event: None,
            },
            None => DispatchOut {
                store: s,
                response: error_response_v("No messages found"@),
                event: None,
            },
        }
    } else if e.kind == "create"@ {
        if !dev_mode {
            DispatchOut {
                store: s,
                response: error_response_v("create command only available in DEV_MODE"@),
                event: None,
            }
        } else {
            match e.payload {
                None => DispatchOut {
                    store: s,
                    response: error_response_v("No payload provided for create command"@),
                    event: None,
                },
                Some(p) => create_spec(s, p, now),
            }
        }
    } else {
        DispatchOut { store: s, response: ok_response_v(), event: None }
    }
}

/// Builds the all-clear response.
fn ok_response() -> (r: Response)
    ensures
        r@ == ok_response_v(),
{
    Response { status: String::from_str("ok"), data: None }
}

/// Builds an error response carrying `msg`.
fn error_response(msg: String) -> (r: Response)
    ensures
        r@ == error_response_v(msg@),
{
    let mut fields: Vec<(String, JsonScalar)> = Vec::new();
    fields.push((String::from_str("error"), JsonScalar::Str(msg)));
    let data = JsonObject { fields };
    assert(data@ =~= seq![("error"@, ScalarVal::Str(msg@))]);
    Response { status: String::from_str("error"), data: Some(data) }
}

/// Routes one envelope: answers it, applies its store effect, and reports
/// what must reach the UI. `now` is the wall clock in unix seconds.
pub fn dispatch(store: &mut ConversationStore, dev_mode: bool, env: &Envelope, now: i64) -> (r: (
    Response,
    Option<UiEvent>,
))
    ensures
        ({
            let out = dispatch_spec(old(store)@, dev_mode, env@, now as int);
            final(store)@ == out.store && r.0@ == out.response && opt_event_view(r.1) == out.event
        }),
{
    let ghost out = dispatch_spec(old(store)@, dev_mode, env@, now as int);
    if env.kind == String::from_str("notify") {
        let text = match &env.message {
            Some(m) => m.clone(),
            None => String::new(),
        };
        assert(text@ == (match env@.message {
            Some(m) => m,
            None => Seq::<char>::empty(),
        }));
        (ok_response(), Some(UiEvent::Notify(text)))
    } else if env.kind == String::from_str("ask") {
        let fwd = match &env.payload {
            Some(p) => UiEvent::AskPayload(p.duplicate()),
            None => UiEvent::AskMessage(
                match &env.message {
                    Some(m) => m.clone(),
                    None => String::new(),
                },
            ),
        };
        (ok_response(), Some(fwd))
    } else if env.kind == String::from_str("last") {
        match store.last_assistant_message() {
            Some(m) => {
                let data = message_to_json(&m);
                (Response { status: String::from_str("ok"), data: Some(data) }, None)
            },
            None => (error_response(String::from_str("No messages found")), None),
        }
    } else if env.kind == String::from_str("create") {
        if !dev_mode {
            (
                error_response(String::from_str("create command only available in DEV_MODE")),
                None,
            )
        } else {
            match &env.payload {
                None => (
                    error_response(String::from_str("No payload provided for create command")),
                    None,
                ),
                Some(p) => {
                    let content = match p.get_str(&String::from_str("content")) {
                        Some(c) => c,
                        None => String::from_str("Test message"),
                    };
                    let conversation_id = p.get_str(&String::from_str("conversation_id"));
                    let cid = match conversation_id {
                        Some(c) => c,
                        None => {
                            let nc = NewConversation {
                                title: String::from_str("Dev Test Conversation"),
                                model: String::from_str("dev-model"),
                                provider: String::from_str("dev-provider"),
                                system_prompt: None,
                            };
                            let conv = store.create_conversation(&nc, now);
                            conv.id
                        },
                    };
                    let nm = NewMessage {
                        conversation_id: cid,
                        role: String::from_str("assistant"),
                        content: content,
                        tokens_used: None,
                    };
                    let m = store.create_message(&nm, now);
                    let data = message_to_json(&m);
                    (Response { status: String::from_str("ok"), data: Some(data) }, None)
                },
            }
        }
    } else {
        proof {
            assert(env@.kind != "notify"@ && env@.kind != "ask"@ && env@.kind != "last"@
                && env@.kind != "create"@);
        }
        (ok_response(), None)
    }
}

// ---------------------------------------------------------------------------
// Per-line handling: the framing rules around dispatch.
// ---------------------------------------------------------------------------
/// What one received line does: an oversized line is refused, a blank line
/// is skipped without an answer, a malformed line is answered with an
/// error, and everything else is dispatched. The store is untouched except
/// by dispatch itself.
pub open spec fn handle_line_spec(s: StoreV, dev_mode: bool, line: Seq<char>, now: int) -> (
    StoreV,
    Option<(ResponseV, Option<UiEventV>)>,
) {
    if vstd::utf8::encode_utf8(line).len() as usize > MAX_MESSAGE_SIZE {
        (s, Some((error_response_v("Message too large"@), None)))
    } else if trim_line_end(line).len() == 0 {
        (s, None)
    } else {
        match parse_envelope_line(line) {
            None => (s, Some((error_response_v("Invalid JSON"@), None))),
            Some(e) => {
                let out = dispatch_spec(s, dev_mode, e, now);
                (out.store, Some((out.response, out.event)))
            },
        }
    }
}

/// Handles one received line. `None` means no answer is owed (a blank
/// line); otherwise the answer and any UI event are returned and the store
/// reflects the operation.
pub fn handle_line(store: &mut ConversationStore, dev_mode: bool, line: &String, now: i64) -> (r:
    Option<(Response, Option<UiEvent>)>)
    ensures
        ({
            let out = handle_line_spec(old(store)@, dev_mode, line@, now as int);
            final(store)@ == out.0 && (match (r, out.1) {
                (Some((resp, ev)), Some((rv, evv))) => resp@ == rv && opt_event_view(ev) == evv,
                (None, None) => true,
                _ => false,
            })
        }),
{
    let nbytes = line.as_str().len();
    if nbytes > MAX_MESSAGE_SIZE {
        return Some((error_response(String::from_str("Message too large")), None));
    }
    let mut cs = str_to_chars(line.as_str());
    crate::wire::trim_end_chars(&mut cs);
    proof {
        assert(vstd::utf8::encode_utf8(line@).len() as usize <= MAX_MESSAGE_SIZE);
        assert(cs@ == trim_line_end(line@));
    }
    if cs.len() == 0 {
        assert(trim_line_end(line@).len() == 0);
        return None;
    }
    assert(trim_line_end(line@).len() > 0);
    match read_envelope(line.as_str()) {
        Some(env) => {
            let (resp, ev) = dispatch(store, dev_mode, &env, now);
            Some((resp, ev))
        },
        None => Some((error_response(String::from_str("Invalid JSON")), None)),
    }
}

/// Whether a value of the development-mode variable turns the mode on:
/// `1`, `true` or `yes`, blanks around it ignored, any capitalization.
pub open spec fn dev_mode_spec(v: Option<Seq<char>>) -> bool {
    match v {
        None => false,
        Some(s) => {
            let t = lower_seq(trim_blanks(s));
            t == "1"@ || t == "true"@ || t == "yes"@
        },
    }
}

/// A blank character at a value's edge.
pub open spec fn is_blank(c: char) -> bool {
    c == ' ' || c == '\t' || c == '\n' || c == '\r'
}

/// The value with leading and trailing blanks removed. Trailing blanks
/// are the same set a received line is trimmed of.
pub open spec fn trim_blanks(s: Seq<char>) -> Seq<char> {
    trim_blanks_front(trim_line_end(s))
}

/// The value with leading blanks removed.
pub open spec fn trim_blanks_front(s: Seq<char>) -> Seq<char>
    decreases s.len(),
{
    if s.len() > 0 && is_blank(s[0]) {
        trim_blanks_front(s.skip(1))
    } else {
        s
    }
}

/// Reads the development mode from the environment variable's value,
/// evaluated once at startup: absent or anything but `1`/`true`/`yes`
/// (case-insensitive, blanks ignored) leaves the mode off.
pub fn dev_mode_enabled(value: Option<String>) -> (r: bool)
    ensures
        r == dev_mode_spec(opt_str_view(value)),
{
    let s = match &value {
        None => {
            return false;
        },
        Some(s) => s,
    };
    let mut cs = str_to_chars(s.as_str());
    crate::wire::trim_end_chars(&mut cs);
    let mut start: usize = 0;
    let n = cs.len();
    assert(cs@.skip(0) =~= cs@);
    while start < n && (cs[start] == ' ' || cs[start] == '\t' || cs[start] == '\n' || cs[start]
        == '\r')
        invariant
            n == cs@.len(),
            start <= n,
            trim_blanks_front(cs@) == trim_blanks_front(cs@.skip(start as int)),
        decreases n - start,
    {
        proof {
            assert(cs@.skip(start as int)[0] == cs@[start as int]);
            assert(cs@.skip(start as int).skip(1) =~= cs@.skip(start + 1));
        }
        start = start + 1;
    }
    proof {
        if start < n {
            assert(cs@.skip(start as int)[0] == cs@[start as int]);
        }
        assert(trim_blanks_front(cs@.skip(start as int)) == cs@.skip(start as int));
    }
    let mut t: Vec<char> = Vec::new();
    let mut i: usize = start;
    while i < n
        invariant
            n == cs@.len(),
            start <= i <= n,
            t@ == cs@.subrange(start as int, i as int),
        decreases n - i,
    {
        t.push(cs[i]);
        assert(t@ =~= cs@.subrange(start as int, i + 1));
        i = i + 1;
    }
    assert(t@ =~= cs@.skip(start as int));
    let low = lower_chars(&t);
    proof {
        reveal_strlit("1");
        reveal_strlit("true");
        reveal_strlit("yes");
    }
    let l = low.len();
    let r = (l == 1 && low[0] == '1') || (l == 4 && low[0] == 't' && low[1] == 'r' && low[2] == 'u'
        && low[3] == 'e') || (l == 3 && low[0] == 'y' && low[1] == 'e' && low[2] == 's');
    proof {
        let tv = lower_seq(trim_blanks(s@));
        assert(tv == low@);
        if r {
            if l == 1 {
                assert(tv =~= "1"@);
            } else if l == 4 {
                assert(tv =~= "true"@);
            } else {
                assert(tv =~= "yes"@);
            }
        } else {
            assert(tv != "1"@ && tv != "true"@ && tv != "yes"@) by {
                assert("1"@.len() == 1 && "true"@.len() == 4 && "yes"@.len() == 3);
                if tv.len() == 1 {
                    assert(tv[0] != '1' ==> tv != "1"@);
                }
                if tv.len() == 4 {
                    assert("true"@[0] == 't' && "true"@[1] == 'r' && "true"@[2] == 'u' && "true"@[3]
                        == 'e');
                }
                if tv.len() == 3 {
                    assert("yes"@[0] == 'y' && "yes"@[1] == 'e' && "yes"@[2] == 's');
                }
            }
        }
    }
    r
}

// ---------------------------------------------------------------------------
// The protocol's standing guarantees.
// ---------------------------------------------------------------------------
/// Size limit: a line longer than the cap is always answered with exactly
/// `{"status":"error","data":{"error":"Message too large"}}`, the store is
/// untouched, and nothing reaches the UI — so the connection can go on.
pub proof fn lemma_size_limit(s: StoreV, dev_mode: bool, line: Seq<char>, now: int)
    requires
        vstd::utf8::encode_utf8(line).len() as usize > MAX_MESSAGE_SIZE,
    ensures
        handle_line_spec(s, dev_mode, line, now) == (
            s,
            Some((error_response_v("Message too large"@), None::<UiEventV>)),
        ),
{
}

/// Unknown kind is inert: an envelope whose selector is none of the four
/// operations is answered `{"status":"ok"}`, the store is untouched, and
/// nothing reaches the UI.
pub proof fn lemma_unknown_kind_inert(s: StoreV, dev_mode: bool, e: EnvelopeV, now: int)
    requires
        e.kind != "notify"@,
        e.kind != "ask"@,
        e.kind != "last"@,
        e.kind != "create"@,
    ensures
        dispatch_spec(s, dev_mode, e, now) == (DispatchOut {
            store: s,
            response: ok_response_v(),
            event: None,
        }),
{
}

/// Dev-mode lock, shut: with the flag off, `create` is always answered
/// with exactly the refusal error, whatever the payload, and the store is
/// untouched.
pub proof fn lemma_dev_mode_off_refuses_create(s: StoreV, e: EnvelopeV, now: int)
    requires
        e.kind == "create"@,
    ensures
        dispatch_spec(s, false, e, now) == (DispatchOut {
            store: s,
            response: error_response_v("create command only available in DEV_MODE"@),
            event: None,
        }),
{
    lemma_create_kind_distinct();
}

/// The `create` selector is none of the other three.
proof fn lemma_create_kind_distinct()
    ensures
        "create"@ != "notify"@,
        "create"@ != "ask"@,
        "create"@ != "last"@,
{
    reveal_strlit("create");
    reveal_strlit("notify");
    reveal_strlit("ask");
    reveal_strlit("last");
    assert("create"@[0] == 'c' && "notify"@[0] == 'n');
    assert("create"@.len() == 6 && "ask"@.len() == 3 && "last"@.len() == 4);
}

/// Dev-mode lock, open: with the flag on and a payload present, exactly
/// one message is persisted — the stored messages grow by one
/// assistant-authored record carrying the payload's content.
pub proof fn lemma_dev_mode_on_persists_one_message(s: StoreV, e: EnvelopeV, now: int)
    requires
        e.kind == "create"@,
        e.payload is Some,
    ensures
        ({
            let out = dispatch_spec(s, true, e, now);
            let p = e.payload->Some_0;
            let content = match lookup_str(p, "content"@) {
                Some(c) => c,
                None => "Test message"@,
            };
            out.store.messages.len() == s.messages.len() + 1 && out.store.messages.subrange(
                0,
                s.messages.len() as int,
            ) == s.messages && out.store.messages.last().role == "assistant"@
                && out.store.messages.last().content == content && out.response.status == "ok"@
        }),
{
    lemma_create_kind_distinct();
    let out = dispatch_spec(s, true, e, now);
    let p = e.payload->Some_0;
    match lookup_str(p, "conversation_id"@) {
        Some(_) => {
            assert(out.store.messages.subrange(0, s.messages.len() as int) =~= s.messages);
        },
        None => {
            assert(out.store.messages.subrange(0, s.messages.len() as int) =~= s.messages);
        },
    }
}

} // verus!
