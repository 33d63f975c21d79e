//! The failure classifier: turns captured stderr and an exit code into a
//! one-line human-readable diagnosis by matching well-known error
//! signatures, case-insensitively.
//!
//! `classify_spec` states the exact output — which signals fire, in which
//! order, joined by `"; "`, with the fallback sentence when nothing fired —
//! so the function is deterministic by construction.

use vstd::prelude::*;

use crate::store::opt_i64_view;
use crate::text::{contains_chars, contains_seq, int_seq, lower_chars, lower_seq, push_i64_dec,
    chars_to_string, str_to_chars};

verus! {

/// Joins diagnosis lines with `"; "`.
pub open spec fn join_semi(parts: Seq<Seq<char>>) -> Seq<char>
    decreases parts.len(),
{
    if parts.len() == 0 {
        Seq::empty()
    } else if parts.len() == 1 {
        parts[0]
    } else {
        parts[0] + "; "@ + join_semi(parts.skip(1))
    }
}

/// The diagnosis lines for the given stderr and exit code, in the order
/// they are emitted.
pub open spec fn classify_parts(stderr: Seq<char>, code: Option<int>) -> Seq<Seq<char>> {
    let low = lower_seq(stderr);
    (match code {
        Some(c) => if c != 0 {
            seq!["Process exited with code "@ + int_seq(c)]
        } else {
            Seq::empty()
        },
        None => Seq::empty(),
    }) + (if stderr.len() > 0 {
        seq!["Error output detected"@] + (if contains_seq(low, "permission denied"@) {
            seq!["Permission issue - try with sudo or check file permissions"@]
        } else {
            Seq::empty()
        }) + (if contains_seq(low, "command not found"@) || contains_seq(low, "no such file"@) {
            seq!["Command or file not found - check spelling and PATH"@]
        } else {
            Seq::empty()
        }) + (if contains_seq(low, "connection"@) && contains_seq(low, "refused"@) {
            seq!["Connection refused - check if service is running"@]
        } else {
            Seq::empty()
        }) + (if contains_seq(low, "out of memory"@) || contains_seq(low, "oom"@) {
            seq![
                "Memory issue - consider freeing up memory or using less memory-intensive options"@,
            ]
        } else {
            Seq::empty()
        })
    } else {
        Seq::empty()
    })
}

/// The classifier's whole output: the joined diagnosis lines, or the
/// fallback sentence when no signal fired.
pub open spec fn classify_spec(stderr: Seq<char>, code: Option<int>) -> Seq<char> {
    let parts = classify_parts(stderr, code);
    if parts.len() == 0 {
        "Command completed but may have issues"@
    } else {
        join_semi(parts)
    }
}

/// Appending one line to a joined diagnosis.
proof fn lemma_join_semi_push(parts: Seq<Seq<char>>, p: Seq<char>)
    ensures
        join_semi(parts.push(p)) == if parts.len() == 0 {
            p
        } else {
            join_semi(parts) + "; "@ + p
        },
    decreases parts.len(),
{
    reveal_with_fuel(join_semi, 3);
    let whole = parts.push(p);
    if parts.len() == 0 {
        assert(whole.len() == 1);
        assert(whole[0] == p);
    } else if parts.len() == 1 {
        assert(whole.len() == 2);
        assert(whole[0] == parts[0]);
        assert(whole.skip(1) =~= seq![p]);
        assert(join_semi(whole) == parts[0] + "; "@ + p);
    } else {
        lemma_join_semi_push(parts.skip(1), p);
        assert(whole.skip(1) =~= parts.skip(1).push(p));
        assert(whole[0] == parts[0]);
        assert(join_semi(whole) == parts[0] + "; "@ + (join_semi(parts.skip(1)) + "; "@ + p));
        assert(parts[0] + "; "@ + (join_semi(parts.skip(1)) + "; "@ + p) =~= (parts[0] + "; "@
            + join_semi(parts.skip(1))) + "; "@ + p);
    }
}

/// Joins collected diagnosis lines with `"; "`.
fn join_lines(parts: &Vec<String>) -> (r: String)
    ensures
        r@ == join_semi(parts@.map_values(|s: String| s@)),
{
    let ghost pv = parts@.map_values(|s: String| s@);
    let n = parts.len();
    let mut out: Vec<char> = Vec::new();
    let mut i: usize = 0;
    while i < n
        invariant
            n == parts@.len(),
            i <= n,
            pv == parts@.map_values(|s: String| s@),
            out@ == join_semi(pv.subrange(0, i as int)),
        decreases n - i,
    {
        proof {
            assert(pv.subrange(0, i + 1) =~= pv.subrange(0, i as int).push(pv[i as int]));
            lemma_join_semi_push(pv.subrange(0, i as int), pv[i as int]);
        }
        if i > 0 {
            out.push(';');
            out.push(' ');
            assert(out@ =~= join_semi(pv.subrange(0, i as int)) + "; "@) by {
                reveal_strlit("; ");
            }
        }
        let cs = str_to_chars(parts[i].as_str());
        let mut j: usize = 0;
        let ghost base = out@;
        while j < cs.len()
            invariant
                j <= cs@.len(),
                out@ == base + cs@.subrange(0, j as int),
            decreases cs@.len() - j,
        {
            out.push(cs[j]);
            assert(out@ =~= base + cs@.subrange(0, j + 1));
            j = j + 1;
        }
        proof {
            assert(cs@.subrange(0, cs@.len() as int) =~= cs@);
            assert(out@ =~= join_semi(pv.subrange(0, i + 1)));
        }
        i = i + 1;
    }
    assert(pv.subrange(0, n as int) =~= pv);
    chars_to_string(&out)
}

/// Diagnoses a failed command from its captured stderr and exit code; the
/// captured stdout is accepted for symmetry but carries no signal.
pub fn analyze_error_output(stderr: &str, _stdout: &str, exit_code: Option<i32>) -> (r: String)
    ensures
        r@ == classify_spec(stderr@, opt_i64_view(
            match exit_code {
                Some(c) => Some(c as i64),
                None => None,
            },
        )),
{
    let ghost code: Option<int> = match exit_code {
        Some(c) => Some(c as int),
        None => None,
    };
    let mut parts: Vec<String> = Vec::new();
    match exit_code {
        Some(c) => {
            if c != 0 {
                let mut line: Vec<char> = Vec::new();
                let prefix = str_to_chars("Process exited with code ");
                let mut k: usize = 0;
                while k < prefix.len()
                    invariant
                        k <= prefix@.len(),
                        line@ == prefix@.subrange(0, k as int),
                    decreases prefix@.len() - k,
                {
                    line.push(prefix[k]);
                    assert(line@ =~= prefix@.subrange(0, k + 1));
                    k = k + 1;
                }
                assert(prefix@.subrange(0, prefix@.len() as int) =~= prefix@);
                push_i64_dec(&mut line, c as i64);
                parts.push(chars_to_string(&line));
            }
        },
        None => {},
    }
    let ghost parts_code = parts@.map_values(|s: String| s@);
    proof {
        let expected = match code {
            Some(c) => if c != 0 {
                seq!["Process exited with code "@ + int_seq(c)]
            } else {
                Seq::<Seq<char>>::empty()
            },
            None => Seq::<Seq<char>>::empty(),
        };
        assert(parts_code =~= expected);
    }
    if !stderr.is_empty() {
        parts.push(String::from_str("Error output detected"));
        let low = lower_chars(&str_to_chars(stderr));
        let p_perm = str_to_chars("permission denied");
        if contains_chars(&low, &p_perm) {
            parts.push(
                String::from_str("Permission issue - try with sudo or check file permissions"),
            );
        }
        let p_cnf = str_to_chars("command not found");
        let p_nsf = str_to_chars("no such file");
        let hit_cnf = contains_chars(&low, &p_cnf);
        let hit_nsf = contains_chars(&low, &p_nsf);
        if hit_cnf || hit_nsf {
            parts.push(String::from_str("Command or file not found - check spelling and PATH"));
        }
        let p_conn = str_to_chars("connection");
        let p_ref = str_to_chars("refused");
        let hit_conn = contains_chars(&low, &p_conn);
        let hit_ref = contains_chars(&low, &p_ref);
        if hit_conn && hit_ref {
            parts.push(String::from_str("Connection refused - check if service is running"));
        }
        let p_oomx = str_to_chars("out of memory");
        let p_oom = str_to_chars("oom");
        let hit_oomx = contains_chars(&low, &p_oomx);
        let hit_oom = contains_chars(&low, &p_oom);
        if hit_oomx || hit_oom {
            parts.push(
                String::from_str(
                    "Memory issue - consider freeing up memory or using less memory-intensive options",
                ),
            );
        }
        proof {
            assert(parts@.map_values(|s: String| s@) =~= classify_parts(stderr@, code));
        }
    } else {
        proof {
            assert(parts@.map_values(|s: String| s@) =~= classify_parts(stderr@, code));
        }
    }
    if parts.len() == 0 {
        String::from_str("Command completed but may have issues")
    } else {
        join_lines(&parts)
    }
}

} // verus!
