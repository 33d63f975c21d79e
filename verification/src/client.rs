//! The companion tool's side of the protocol: building the request
//! payloads, reading a message object out of a response, and rendering
//! capture results for the terminal.
//!
//! The tool opens a fresh connection per request, writes one envelope and
//! reads one response; that transport is the caller's side. Everything the
//! tool decides or formats is here, with exact contracts.

use vstd::prelude::*;

use crate::audit::dbg_opt_code;
use crate::json::{lookup_field, lookup_str, JsonObject, JsonScalar, ObjVal, ScalarVal};
use crate::runner::ExecutionResult;
use crate::store::{Message, MessageV};
use crate::text::{chars_to_string, int_seq, push_i64_dec, push_str_chars, push_u64_dec};
use crate::wire::{opt_str_view, Envelope, Response, ResponseV};

verus! {

/// The structured prompt an `ask` request carries.
pub open spec fn ask_payload_spec(
    prompt: Seq<char>,
    model: Option<Seq<char>>,
    provider: Option<Seq<char>>,
    new: bool,
    gui: bool,
) -> ObjVal {
    seq![
        ("prompt"@, ScalarVal::Str(prompt)),
        (
            "model"@,
            match model {
                Some(m) => ScalarVal::Str(m),
                None => ScalarVal::Null,
            },
        ),
        (
            "provider"@,
            match provider {
                Some(p) => ScalarVal::Str(p),
                None => ScalarVal::Null,
            },
        ),
        ("new"@, ScalarVal::Bool(new)),
        ("gui"@, ScalarVal::Bool(gui)),
    ]
}

/// Builds the structured prompt an `ask` request carries.
pub fn ask_payload(
    prompt: &String,
    model: Option<String>,
    provider: Option<String>,
    new: bool,
    gui: bool,
) -> (r: JsonObject)
    ensures
        r@ == ask_payload_spec(prompt@, opt_str_view(model), opt_str_view(provider), new, gui),
{
    let mut fields: Vec<(String, JsonScalar)> = Vec::new();
    fields.push((String::from_str("prompt"), JsonScalar::Str(prompt.clone())));
    fields.push(
        (
            String::from_str("model"),
            match model {
                Some(m) => JsonScalar::Str(m),
                None => JsonScalar::Null,
            },
        ),
    );
    fields.push(
        (
            String::from_str("provider"),
            match provider {
                Some(p) => JsonScalar::Str(p),
                None => JsonScalar::Null,
            },
        ),
    );
    fields.push((String::from_str("new"), JsonScalar::Bool(new)));
    fields.push((String::from_str("gui"), JsonScalar::Bool(gui)));
    let r = JsonObject { fields };
    assert(r@ =~= ask_payload_spec(prompt@, opt_str_view(model), opt_str_view(provider), new, gui));
    r
}

/// The payload a `create` request carries.
pub open spec fn create_payload_spec(content: Seq<char>, conversation_id: Option<Seq<char>>)
    -> ObjVal {
    match conversation_id {
        None => seq![("content"@, ScalarVal::Str(content))],
        Some(cid) => seq![
            ("content"@, ScalarVal::Str(content)),
            ("conversation_id"@, ScalarVal::Str(cid)),
        ],
    }
}

/// Builds the payload a `create` request carries.
pub fn create_payload(content: &String, conversation_id: Option<String>) -> (r: JsonObject)
    ensures
        r@ == create_payload_spec(content@, opt_str_view(conversation_id)),
{
    let mut fields: Vec<(String, JsonScalar)> = Vec::new();
    fields.push((String::from_str("content"), JsonScalar::Str(content.clone())));
    match conversation_id {
        Some(cid) => {
            fields.push((String::from_str("conversation_id"), JsonScalar::Str(cid)));
            let r = JsonObject { fields };
            assert(r@ =~= seq![
                ("content"@, ScalarVal::Str(content@)),
                ("conversation_id"@, r@[1].1),
            ]);
            r
        },
        None => {
            let r = JsonObject { fields };
            assert(r@ =~= create_payload_spec(content@, None));
            r
        },
    }
}

// ---------------------------------------------------------------------------
// Reading a message object out of a response.
// ---------------------------------------------------------------------------
/// The integer value of the first field named `k`, if it is an integer.
pub open spec fn lookup_int(o: ObjVal, k: Seq<char>) -> Option<int> {
    match lookup_field(o, k) {
        Some(ScalarVal::Int(i)) => Some(i),
        _ => None,
    }
}

/// The message a response's data object denotes: the four strings and the
/// timestamp are required, the token count may be absent or null.
pub open spec fn message_of_json(o: ObjVal) -> Option<MessageV> {
    match (
        lookup_str(o, "id"@),
        lookup_str(o, "conversation_id"@),
        lookup_str(o, "role"@),
        lookup_str(o, "content"@),
        lookup_int(o, "timestamp"@),
    ) {
        (Some(id), Some(cid), Some(role), Some(content), Some(ts)) => {
            match lookup_field(o, "tokens_used"@) {
                None => Some(
                    MessageV {
                        id: id,
                        conversation_id: cid,
                        role: role,
                        content: content,
                        timestamp: ts,
                        tokens_used: None,
                    },
                ),
                Some(ScalarVal::Null) => Some(
                    MessageV {
                        id: id,
                        conversation_id: cid,
                        role: role,
                        content: content,
                        timestamp: ts,
                        tokens_used: None,
                    },
                ),
                Some(ScalarVal::Int(t)) => Some(
                    MessageV {
                        id: id,
                        conversation_id: cid,
                        role: role,
                        content: content,
                        timestamp: ts,
                        tokens_used: Some(t),
                    },
                ),
                _ => None,
            }
        },
        _ => None,
    }
}

/// Reads a message out of a response's data object.
pub fn message_from_json(o: &JsonObject) -> (r: Option<Message>)
    ensures
        match r {
            Some(m) => message_of_json(o@) == Some(m@),
            None => message_of_json(o@) == None::<MessageV>,
        },
{
    let id = match o.get_str(&String::from_str("id")) {
        Some(s) => s,
        None => {
            return None;
        },
    };
    let conversation_id = match o.get_str(&String::from_str("conversation_id")) {
        Some(s) => s,
        None => {
            return None;
        },
    };
    let role = match o.get_str(&String::from_str("role")) {
        Some(s) => s,
        None => {
            return None;
        },
    };
    let content = match o.get_str(&String::from_str("content")) {
        Some(s) => s,
        None => {
            return None;
        },
    };
    let timestamp: i64 = match o.get_field(&String::from_str("timestamp")) {
        Some(JsonScalar::Int(t)) => *t,
        _ => {
            return None;
        },
    };
    let tokens_used: Option<i64> = match o.get_field(&String::from_str("tokens_used")) {
        None => None,
        Some(JsonScalar::Null) => None,
        Some(JsonScalar::Int(t)) => Some(*t),
        _ => {
            return None;
        },
    };
    Some(Message { id, conversation_id, role, content, timestamp, tokens_used })
}

/// What the tool prints, or fails with, after asking for the last
/// message.
pub open spec fn interpret_last_spec(r: ResponseV) -> Result<Seq<char>, Seq<char>> {
    if r.status == "ok"@ {
        match r.data {
            Some(d) => match message_of_json(d) {
                Some(m) => Ok(m.content),
                None => Err("Failed to parse message"@),
            },
            None => Err("No data returned"@),
        }
    } else {
        match r.data {
            Some(d) => match lookup_str(d, "error"@) {
                Some(e) => Err("Error: "@ + e),
                None => Err("Unknown error"@),
            },
            None => Err("Unknown error"@),
        }
    }
}

/// Turns a `last` response into the line to print, or the diagnostic to
/// fail with; any failure exits the tool with a nonzero status.
pub fn interpret_last_response(resp: &Response) -> (r: Result<String, String>)
    ensures
        match r {
            Ok(line) => interpret_last_spec(resp@) == Ok::<Seq<char>, Seq<char>>(line@),
            Err(e) => interpret_last_spec(resp@) == Err::<Seq<char>, Seq<char>>(e@),
        },
{
    if resp.status == String::from_str("ok") {
        match &resp.data {
            Some(d) => match message_from_json(d) {
                Some(m) => Ok(m.content),
                None => Err(String::from_str("Failed to parse message")),
            },
            None => Err(String::from_str("No data returned")),
        }
    } else {
        match &resp.data {
            Some(d) => match d.get_str(&String::from_str("error")) {
                Some(e) => {
                    let mut out: Vec<char> = Vec::new();
                    push_str_chars(&mut out, "Error: ");
                    push_str_chars(&mut out, e.as_str());
                    Err(chars_to_string(&out))
                },
                None => Err(String::from_str("Unknown error")),
            },
            None => Err(String::from_str("Unknown error")),
        }
    }
}

// ---------------------------------------------------------------------------
// Rendering capture results.
// ---------------------------------------------------------------------------
/// The terminal rendering of one capture result.
pub open spec fn format_capture_spec(r: crate::runner::ExecutionResultV) -> Seq<char> {
    "Command: "@ + r.command + "\nWorking Directory: "@ + r.working_dir + "\nExecution Time: "@
        + int_seq(r.execution_time_ms) + "ms\n"@ + (if r.timed_out {
        "Status: TIMED OUT\n"@
    } else {
        match r.exit_code {
            Some(c) => "Exit Code: "@ + int_seq(c) + "\n"@,
            None => Seq::empty(),
        }
    }) + (if r.stdout.len() > 0 {
        "\n--- STDOUT ---\n"@ + r.stdout + "\n"@
    } else {
        Seq::empty()
    }) + (if r.stderr.len() > 0 {
        "\n--- STDERR ---\n"@ + r.stderr + "\n"@
    } else {
        Seq::empty()
    }) + (match r.error_summary {
        Some(s) => "\n--- ANALYSIS ---\n"@ + s + "\n"@,
        None => Seq::empty(),
    })
}

/// Renders one capture result for the terminal.
#[verifier::rlimit(80)]
pub fn format_capture_result(r: &ExecutionResult) -> (text: String)
    ensures
        text@ == format_capture_spec(r@),
{
    let mut out: Vec<char> = Vec::new();
    push_str_chars(&mut out, "Command: ");
    push_str_chars(&mut out, r.command.as_str());
    push_str_chars(&mut out, "\nWorking Directory: ");
    push_str_chars(&mut out, r.working_dir.as_str());
    push_str_chars(&mut out, "\nExecution Time: ");
    push_u64_dec(&mut out, r.execution_time_ms);
    push_str_chars(&mut out, "ms\n");
    if r.timed_out {
        push_str_chars(&mut out, "Status: TIMED OUT\n");
    } else {
        match r.exit_code {
            Some(c) => {
                push_str_chars(&mut out, "Exit Code: ");
                push_i64_dec(&mut out, c as i64);
                push_str_chars(&mut out, "\n");
            },
            None => {},
        }
    }
    if !r.stdout.as_str().is_empty() {
        push_str_chars(&mut out, "\n--- STDOUT ---\n");
        push_str_chars(&mut out, r.stdout.as_str());
        push_str_chars(&mut out, "\n");
    }
    if !r.stderr.as_str().is_empty() {
        push_str_chars(&mut out, "\n--- STDERR ---\n");
        push_str_chars(&mut out, r.stderr.as_str());
        push_str_chars(&mut out, "\n");
    }
    match &r.error_summary {
        Some(s) => {
            push_str_chars(&mut out, "\n--- ANALYSIS ---\n");
            push_str_chars(&mut out, s.as_str());
            push_str_chars(&mut out, "\n");
        },
        None => {},
    }
    proof {
        assert(out@ =~= format_capture_spec(r@));
    }
    chars_to_string(&out)
}

/// The prompt the tool sends when asked to have a capture analyzed.
pub open spec fn analysis_prompt_spec(r: crate::runner::ExecutionResultV) -> Seq<char> {
    "Analyze this terminal command execution:\n\nCommand: "@ + r.command + "\nExit Code: "@
        + dbg_opt_code(r.exit_code) + "\nExecution Time: "@ + int_seq(r.execution_time_ms)
        + "ms\n\nSTDOUT:\n"@ + r.stdout + "\n\nSTDERR:\n"@ + r.stderr
        + "\n\nProvide:\n1. What the command was trying to do\n2. Whether it succeeded or failed\n3. If failed, what went wrong\n4. Suggestions for fixes or improvements\n5. Any security or performance considerations"@
}

/// Builds the prompt the tool sends when asked to have a capture
/// analyzed.
pub fn analysis_prompt(r: &ExecutionResult) -> (text: String)
    ensures
        text@ == analysis_prompt_spec(r@),
{
    let mut out: Vec<char> = Vec::new();
    push_str_chars(&mut out, "Analyze this terminal command execution:\n\nCommand: ");
    push_str_chars(&mut out, r.command.as_str());
    push_str_chars(&mut out, "\nExit Code: ");
    match r.exit_code {
        Some(c) => {
            push_str_chars(&mut out, "Some(");
            push_i64_dec(&mut out, c as i64);
            push_str_chars(&mut out, ")");
        },
        None => {
            push_str_chars(&mut out, "None");
        },
    }
    push_str_chars(&mut out, "\nExecution Time: ");
    push_u64_dec(&mut out, r.execution_time_ms);
    push_str_chars(&mut out, "ms\n\nSTDOUT:\n");
    push_str_chars(&mut out, r.stdout.as_str());
    push_str_chars(&mut out, "\n\nSTDERR:\n");
    push_str_chars(&mut out, r.stderr.as_str());
    push_str_chars(
        &mut out,
        "\n\nProvide:\n1. What the command was trying to do\n2. Whether it succeeded or failed\n3. If failed, what went wrong\n4. Suggestions for fixes or improvements\n5. Any security or performance considerations",
    );
    proof {
        assert(out@ =~= analysis_prompt_spec(r@));
    }
    chars_to_string(&out)
}

} // verus!
