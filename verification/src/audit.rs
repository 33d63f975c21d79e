//! The audit log: a rotating, append-only, human-readable record of every
//! process-runner invocation.
//!
//! The log is modelled as its contents — the current file's text and the
//! single backup generation — so rotation and appending are exact state
//! transitions. The caller persists the two texts; any I/O failure there
//! is swallowed, never this module's concern.

use vstd::prelude::*;

use crate::store::opt_view;
use crate::text::{chars_to_string, dec_seq, int_seq, push_str_chars, push_u64_dec, push_i64_dec,
    str_to_chars};

verus! {

/// The size past which the current file is rotated out, in bytes.
pub const MAX_LOG_BYTES: usize = 1048576;

/// How many characters of each captured stream a record keeps.
pub const AUDIT_TRUNCATE_CHARS: usize = 1000;

/// The fixed relative path the current log file lives at.
pub fn get_audit_log_path() -> (r: String)
    ensures
        r@ == "./executions.log"@,
{
    String::from_str("./executions.log")
}

/// One process-runner invocation, as the log records it.
pub struct AuditRecord {
    /// Unix seconds at the invocation.
    pub timestamp: u64,
    /// The language or command tag.
    pub language: String,
    pub exit_code: Option<i32>,
    pub timed_out: bool,
    /// The working directory, when one was given.
    pub cwd: Option<String>,
    pub stdout: String,
    pub stderr: String,
}

/// Spec-level record.
pub ghost struct AuditRecordV {
    pub timestamp: nat,
    pub language: Seq<char>,
    pub exit_code: Option<int>,
    pub timed_out: bool,
    pub cwd: Option<Seq<char>>,
    pub stdout: Seq<char>,
    pub stderr: Seq<char>,
}

/// Spec view of an optional exit code.
pub open spec fn opt_code_view(o: Option<i32>) -> Option<int> {
    match o {
        Some(c) => Some(c as int),
        None => None,
    }
}

impl View for AuditRecord {
    type V = AuditRecordV;

    open spec fn view(&self) -> AuditRecordV {
        AuditRecordV {
            timestamp: self.timestamp as nat,
            language: self.language@,
            exit_code: opt_code_view(self.exit_code),
            timed_out: self.timed_out,
            cwd: opt_view(self.cwd),
            stdout: self.stdout@,
            stderr: self.stderr@,
        }
    }
}

/// Captured output truncated to the kept length, with a marker appended
/// when anything was cut.
pub open spec fn truncate_spec(s: Seq<char>, n: int) -> Seq<char> {
    if s.len() > n {
        s.take(n) + "..."@
    } else {
        s
    }
}

/// An optional exit code, written as the debugger writes it.
pub open spec fn dbg_opt_code(c: Option<int>) -> Seq<char> {
    match c {
        Some(x) => "Some("@ + int_seq(x) + ")"@,
        None => "None"@,
    }
}

/// An optional directory, written as the debugger writes it.
pub open spec fn dbg_opt_dir(d: Option<Seq<char>>) -> Seq<char> {
    match d {
        Some(s) => "Some(\""@ + s + "\")"@,
        None => "None"@,
    }
}

/// `true` or `false`.
pub open spec fn bool_seq(b: bool) -> Seq<char> {
    if b {
        "true"@
    } else {
        "false"@
    }
}

/// One record's block in the log: a metadata line, the truncated streams,
/// and the separator.
pub open spec fn format_record(r: AuditRecordV) -> Seq<char> {
    dec_seq(r.timestamp) + " | lang="@ + r.language + " | exit="@ + dbg_opt_code(r.exit_code)
        + " | timed_out="@ + bool_seq(r.timed_out) + " | cwd="@ + dbg_opt_dir(r.cwd)
        + "\nSTDOUT: "@ + truncate_spec(r.stdout, AUDIT_TRUNCATE_CHARS as int) + "\nSTDERR: "@
        + truncate_spec(r.stderr, AUDIT_TRUNCATE_CHARS as int) + "\n---\n"@
}

/// Appends the truncated form of `s` to `out`.
fn push_truncated(out: &mut Vec<char>, s: &String)
    ensures
        final(out)@ == old(out)@ + truncate_spec(s@, AUDIT_TRUNCATE_CHARS as int),
{
    let cs = str_to_chars(s.as_str());
    if cs.len() > AUDIT_TRUNCATE_CHARS {
        let mut i: usize = 0;
        while i < AUDIT_TRUNCATE_CHARS
            invariant
                AUDIT_TRUNCATE_CHARS < cs@.len(),
                cs@ == s@,
                i <= AUDIT_TRUNCATE_CHARS,
                out@ == old(out)@ + s@.subrange(0, i as int),
            decreases AUDIT_TRUNCATE_CHARS - i,
        {
            out.push(cs[i]);
            i = i + 1;
            assert(out@ =~= old(out)@ + s@.subrange(0, i as int));
        }
        push_str_chars(out, "...");
        assert(s@.subrange(0, AUDIT_TRUNCATE_CHARS as int) == s@.take(AUDIT_TRUNCATE_CHARS as int));
        assert(final(out)@ =~= old(out)@ + (s@.take(AUDIT_TRUNCATE_CHARS as int) + "..."@));
    } else {
        let mut i: usize = 0;
        let n = cs.len();
        while i < n
            invariant
                n == cs@.len(),
                cs@ == s@,
                i <= n,
                out@ == old(out)@ + s@.subrange(0, i as int),
            decreases n - i,
        {
            out.push(cs[i]);
            i = i + 1;
            assert(out@ =~= old(out)@ + s@.subrange(0, i as int));
        }
        assert(old(out)@ + s@.subrange(0, s@.len() as int) =~= old(out)@ + s@);
    }
}

/// Renders one record's block.
pub fn render_record(r: &AuditRecord) -> (text: String)
    ensures
        text@ == format_record(r@),
{
    let mut out: Vec<char> = Vec::new();
    push_u64_dec(&mut out, r.timestamp);
    push_str_chars(&mut out, " | lang=");
    push_str_chars(&mut out, r.language.as_str());
    push_str_chars(&mut out, " | exit=");
    match r.exit_code {
        Some(c) => {
            push_str_chars(&mut out, "Some(");
            push_i64_dec(&mut out, c as i64);
            push_str_chars(&mut out, ")");
        },
        None => {
            push_str_chars(&mut out, "None");
        },
    }
    push_str_chars(&mut out, " | timed_out=");
    if r.timed_out {
        push_str_chars(&mut out, "true");
    } else {
        push_str_chars(&mut out, "false");
    }
    push_str_chars(&mut out, " | cwd=");
    match &r.cwd {
        Some(d) => {
            push_str_chars(&mut out, "Some(\"");
            push_str_chars(&mut out, d.as_str());
            push_str_chars(&mut out, "\")");
        },
        None => {
            push_str_chars(&mut out, "None");
        },
    }
    push_str_chars(&mut out, "\nSTDOUT: ");
    push_truncated(&mut out, &r.stdout);
    push_str_chars(&mut out, "\nSTDERR: ");
    push_truncated(&mut out, &r.stderr);
    push_str_chars(&mut out, "\n---\n");
    proof {
        assert(out@ =~= format_record(r@));
    }
    chars_to_string(&out)
}

/// The log's durable state: the current file's text and the one backup
/// generation, when one exists.
pub struct AuditLog {
    pub current: String,
    pub backup: Option<String>,
}

/// Spec-level log state.
pub ghost struct AuditLogV {
    pub current: Seq<char>,
    pub backup: Option<Seq<char>>,
}

impl View for AuditLog {
    type V = AuditLogV;

    open spec fn view(&self) -> AuditLogV {
        AuditLogV { current: self.current@, backup: opt_view(self.backup) }
    }
}

/// Rotation: the old backup is dropped, the current text becomes the
/// backup, and a fresh current file starts.
pub open spec fn rotate_spec(log: AuditLogV) -> AuditLogV {
    AuditLogV { current: Seq::empty(), backup: Some(log.current) }
}

/// Appending: when the current file has grown past the limit it is
/// rotated out first, then the record's block goes to the end of the
/// current text.
pub open spec fn append_spec(log: AuditLogV, r: AuditRecordV) -> AuditLogV {
    let base = if vstd::utf8::encode_utf8(log.current).len() as usize > MAX_LOG_BYTES {
        rotate_spec(log)
    } else {
        log
    };
    AuditLogV { current: base.current + format_record(r), backup: base.backup }
}

impl AuditLog {
    /// A fresh, empty log.
    pub fn new() -> (r: AuditLog)
        ensures
            r@.current.len() == 0,
            r@.backup is None,
    {
        AuditLog { current: String::new(), backup: None }
    }

    /// Rotates now, whatever the size: the explicit, externally
    /// triggerable form of the same rename-to-backup step.
    pub fn rotate(&mut self)
        ensures
            final(self)@ == rotate_spec(old(self)@),
    {
        let mut cur = String::new();
        core::mem::swap(&mut cur, &mut self.current);
        self.backup = Some(cur);
    }

    /// Appends one record, rotating first if the current file has grown
    /// past the limit.
    pub fn append(&mut self, r: &AuditRecord)
        ensures
            final(self)@ == append_spec(old(self)@, r@),
    {
        let nbytes = self.current.as_str().len();
        if nbytes > MAX_LOG_BYTES {
            self.rotate();
        }
        let text = render_record(r);
        self.current.append(text.as_str());
    }

    /// The last `n` lines of the current file, joined with newlines; the
    /// backup is never consulted.
    pub fn tail(&self, n: usize) -> (r: String)
        ensures
            r@ == tail_spec(self@.current, n as int),
    {
        let lines = split_lines(&self.current);
        let total = lines.len();
        let k = if total > n {
            total - n
        } else {
            0
        };
        let ghost lv = lines@.map_values(|s: String| s@);
        let mut out: Vec<char> = Vec::new();
        let mut i: usize = k;
        proof {
            assert(lv.skip(k as int).subrange(0, 0).len() == 0);
            assert(out@ =~= join_nl(lv.skip(k as int).subrange(0, 0)));
        }
        while i < total
            invariant
                total == lines@.len(),
                lv == lines@.map_values(|s: String| s@),
                k <= i <= total,
                out@ == join_nl(lv.skip(k as int).subrange(0, i - k)),
            decreases total - i,
        {
            proof {
                let part = lv.skip(k as int);
                assert(part.subrange(0, i - k + 1) =~= part.subrange(0, i - k).push(
                    part[i - k],
                ));
                lemma_join_nl_push(part.subrange(0, i - k), part[i - k]);
                assert(part[i - k] == lv[i as int]);
            }
            if i > k {
                out.push('\n');
                assert(out@ =~= join_nl(lv.skip(k as int).subrange(0, i - k)) + "\n"@) by {
                    reveal_strlit("\n");
                }
            }
            push_str_chars(&mut out, lines[i].as_str());
            proof {
                assert(out@ =~= join_nl(lv.skip(k as int).subrange(0, i - k + 1)));
            }
            i = i + 1;
        }
        proof {
            assert(lv.skip(k as int).subrange(0, total - k) =~= lv.skip(k as int));
        }
        chars_to_string(&out)
    }
}

// ---------------------------------------------------------------------------
// Line splitting, as `tail` needs it.
// ---------------------------------------------------------------------------
/// The text split at every newline (a carriage return directly before a
/// newline is dropped with it); always at least one piece.
pub open spec fn split_nl(s: Seq<char>) -> Seq<Seq<char>>
    decreases s.len(),
{
    if s.len() == 0 {
        seq![Seq::empty()]
    } else if s[0] == '\n' {
        seq![Seq::<char>::empty()] + split_nl(s.skip(1))
    } else if s[0] == '\r' && s.len() >= 2 && s[1] == '\n' {
        seq![Seq::<char>::empty()] + split_nl(s.skip(2))
    } else {
        let r = split_nl(s.skip(1));
        seq![seq![s[0]] + r[0]] + r.skip(1)
    }
}

/// The text's lines: empty text has none, and a final line ending opens
/// no further line.
pub open spec fn lines_spec(s: Seq<char>) -> Seq<Seq<char>> {
    if s.len() == 0 {
        Seq::empty()
    } else if s.last() == '\n' {
        split_nl(s).drop_last()
    } else {
        split_nl(s)
    }
}

/// Lines joined with newlines.
pub open spec fn join_nl(parts: Seq<Seq<char>>) -> Seq<char>
    decreases parts.len(),
{
    if parts.len() == 0 {
        Seq::empty()
    } else if parts.len() == 1 {
        parts[0]
    } else {
        parts[0] + "\n"@ + join_nl(parts.skip(1))
    }
}

/// The last `n` lines of the text, joined with newlines.
pub open spec fn tail_spec(s: Seq<char>, n: int) -> Seq<char> {
    let ls = lines_spec(s);
    let k = if ls.len() > n {
        ls.len() - n
    } else {
        0
    };
    join_nl(ls.skip(k as int))
}

/// Appending one line to a joined text.
proof fn lemma_join_nl_push(parts: Seq<Seq<char>>, p: Seq<char>)
    ensures
        join_nl(parts.push(p)) == if parts.len() == 0 {
            p
        } else {
            join_nl(parts) + "\n"@ + p
        },
    decreases parts.len(),
{
    reveal_with_fuel(join_nl, 3);
    let whole = parts.push(p);
    if parts.len() == 0 {
        assert(whole.len() == 1);
        assert(whole[0] == p);
    } else if parts.len() == 1 {
        assert(whole.len() == 2);
        assert(whole[0] == parts[0]);
        assert(whole.skip(1) =~= seq![p]);
        assert(join_nl(whole) == parts[0] + "\n"@ + p);
    } else {
        lemma_join_nl_push(parts.skip(1), p);
        assert(whole.skip(1) =~= parts.skip(1).push(p));
        assert(whole[0] == parts[0]);
        assert(join_nl(whole) == parts[0] + "\n"@ + (join_nl(parts.skip(1)) + "\n"@ + p));
        assert(parts[0] + "\n"@ + (join_nl(parts.skip(1)) + "\n"@ + p) =~= (parts[0] + "\n"@
            + join_nl(parts.skip(1))) + "\n"@ + p);
    }
}

/// A partial last line prepended onto a split.
spec fn cons_adjust(cur: Seq<char>, r: Seq<Seq<char>>) -> Seq<Seq<char>>
    recommends
        r.len() >= 1,
{
    seq![cur + r[0]] + r.skip(1)
}

/// A split always has at least one piece.
pub proof fn lemma_split_nl_len(s: Seq<char>)
    ensures
        split_nl(s).len() >= 1,
    decreases s.len(),
{
    if s.len() == 0 {
    } else if s[0] == '\n' {
    } else if s[0] == '\r' && s.len() >= 2 && s[1] == '\n' {
    } else {
        lemma_split_nl_len(s.skip(1));
    }
}

/// Splits a text into its lines.
pub fn split_lines(s: &String) -> (r: Vec<String>)
    ensures
        r@.map_values(|l: String| l@) == lines_spec(s@),
{
    let cs = str_to_chars(s.as_str());
    let n = cs.len();
    let mut done: Vec<String> = Vec::new();
    let mut cur: Vec<char> = Vec::new();
    let mut i: usize = 0;
    proof {
        lemma_split_nl_len(cs@.skip(0));
        assert(cs@.skip(0) =~= cs@);
        assert(Seq::<Seq<char>>::empty() + cons_adjust(cur@, split_nl(cs@)) =~= cons_adjust(
            cur@,
            split_nl(cs@),
        ));
        assert(cur@ + split_nl(cs@)[0] =~= split_nl(cs@)[0]);
        assert(cons_adjust(cur@, split_nl(cs@)) =~= split_nl(cs@));
    }
    while i < n
        invariant
            n == cs@.len(),
            cs@ == s@,
            i <= n,
            split_nl(cs@) == done@.map_values(|l: String| l@) + cons_adjust(
                cur@,
                split_nl(cs@.skip(i as int)),
            ),
        decreases n - i,
    {
        let ghost dv = done@.map_values(|l: String| l@);
        let ghost rest = split_nl(cs@.skip(i as int));
        let c = cs[i];
        assert(cs@.skip(i as int)[0] == c);
        if c == '\n' {
            proof {
                assert(cs@.skip(i as int).skip(1) =~= cs@.skip(i + 1));
                lemma_split_nl_len(cs@.skip(i + 1));
                assert(rest == seq![Seq::<char>::empty()] + split_nl(cs@.skip(i + 1)));
                assert(rest[0] =~= Seq::<char>::empty());
                assert(cur@ + rest[0] =~= cur@);
                assert(rest.skip(1) =~= split_nl(cs@.skip(i + 1)));
                assert(dv + cons_adjust(cur@, rest) =~= dv.push(cur@) + cons_adjust(
                    Seq::<char>::empty(),
                    split_nl(cs@.skip(i + 1)),
                ));
            }
            done.push(chars_to_string(&cur));
            cur = Vec::new();
            i = i + 1;
        } else if c == '\r' && i + 1 < n && cs[i + 1] == '\n' {
            proof {
                assert(cs@.skip(i as int)[1] == cs@[i + 1]);
                assert(cs@.skip(i as int).len() >= 2);
                assert(cs@.skip(i as int).skip(2) =~= cs@.skip(i + 2));
                lemma_split_nl_len(cs@.skip(i + 2));
                assert(rest == seq![Seq::<char>::empty()] + split_nl(cs@.skip(i + 2)));
                assert(cur@ + rest[0] =~= cur@);
                assert(rest.skip(1) =~= split_nl(cs@.skip(i + 2)));
                assert(dv + cons_adjust(cur@, rest) =~= dv.push(cur@) + cons_adjust(
                    Seq::<char>::empty(),
                    split_nl(cs@.skip(i + 2)),
                ));
            }
            done.push(chars_to_string(&cur));
            cur = Vec::new();
            i = i + 2;
        } else {
            proof {
                assert(cs@.skip(i as int).skip(1) =~= cs@.skip(i + 1));
                lemma_split_nl_len(cs@.skip(i + 1));
                let inner = split_nl(cs@.skip(i + 1));
                assert(rest == seq![seq![c] + inner[0]] + inner.skip(1));
                assert(cur@ + (seq![c] + inner[0]) =~= cur@.push(c) + inner[0]);
                assert(rest.skip(1) =~= inner.skip(1));
                assert(cons_adjust(cur@, rest) =~= cons_adjust(cur@.push(c), inner));
            }
            cur.push(c);
            i = i + 1;
        }
        proof {
            assert(done@.map_values(|l: String| l@) + cons_adjust(
                cur@,
                split_nl(cs@.skip(i as int)),
            ) =~= split_nl(cs@));
        }
    }
    proof {
        assert(cs@.skip(n as int).len() == 0);
        assert(split_nl(cs@.skip(n as int)) =~= seq![Seq::<char>::empty()]);
        assert(cons_adjust(cur@, seq![Seq::<char>::empty()]) =~= seq![cur@]);
        assert(split_nl(cs@) =~= done@.map_values(|l: String| l@) + seq![cur@]);
    }
    if n == 0 {
        let r: Vec<String> = Vec::new();
        assert(r@.map_values(|l: String| l@) =~= lines_spec(s@));
        return r;
    }
    let last_c = str_to_chars(s.as_str());
    let ends_nl = last_c[n - 1] == '\n';
    if ends_nl {
        proof {
            assert(s@.last() == '\n');
            assert(done@.map_values(|l: String| l@) =~= split_nl(s@).drop_last());
        }
        done
    } else {
        let ghost dv = done@.map_values(|l: String| l@);
        done.push(chars_to_string(&cur));
        proof {
            assert(s@.last() != '\n');
            assert(done@.map_values(|l: String| l@) =~= dv.push(cur@));
            assert(dv.push(cur@) =~= split_nl(s@));
        }
        done
    }
}

/// Audit rotation: once the current file exceeds the size threshold, the
/// next append leaves exactly one backup holding the prior content and a
/// fresh current file holding only the new record; a later rotation
/// overwrites the backup rather than appending to it.
pub proof fn lemma_audit_rotation(log: AuditLogV, r: AuditRecordV)
    requires
        vstd::utf8::encode_utf8(log.current).len() as usize > MAX_LOG_BYTES,
    ensures
        append_spec(log, r) == (AuditLogV {
            current: Seq::<char>::empty() + format_record(r),
            backup: Some(log.current),
        }),
{
}

} // verus!
