//! Git context for AI prompts: the record of a repository's state, the
//! parser for the one-line-per-commit log format the application asks git
//! for, and the human-readable rendering.
//!
//! Running git itself is the caller's side; it hands in the command
//! output and takes parsed records back.

use vstd::prelude::*;

use crate::audit::{lines_spec, split_nl};
use crate::store::opt_view;
use crate::text::{chars_to_string, push_str_chars, push_usize_dec, dec_seq, str_to_chars};

verus! {

/// One commit, as the log format carries it.
pub struct GitCommit {
    pub hash: String,
    pub author: String,
    pub date: String,
    pub message: String,
}

/// Spec-level commit.
pub ghost struct GitCommitV {
    pub hash: Seq<char>,
    pub author: Seq<char>,
    pub date: Seq<char>,
    pub message: Seq<char>,
}

impl View for GitCommit {
    type V = GitCommitV;

    open spec fn view(&self) -> GitCommitV {
        GitCommitV {
            hash: self.hash@,
            author: self.author@,
            date: self.date@,
            message: self.message@,
        }
    }
}

/// A repository's state, as the prompt context uses it.
pub struct GitContext {
    pub is_repo: bool,
    pub current_branch: Option<String>,
    pub uncommitted_changes: usize,
    pub recent_commits: Vec<GitCommit>,
    pub remote_url: Option<String>,
}

/// Spec-level context.
pub ghost struct GitContextV {
    pub is_repo: bool,
    pub current_branch: Option<Seq<char>>,
    pub uncommitted_changes: nat,
    pub recent_commits: Seq<GitCommitV>,
    pub remote_url: Option<Seq<char>>,
}

impl View for GitContext {
    type V = GitContextV;

    open spec fn view(&self) -> GitContextV {
        GitContextV {
            is_repo: self.is_repo,
            current_branch: opt_view(self.current_branch),
            uncommitted_changes: self.uncommitted_changes as nat,
            recent_commits: self.recent_commits@.map_values(|c: GitCommit| c@),
            remote_url: opt_view(self.remote_url),
        }
    }
}

impl GitContext {
    /// The context of a directory that is no repository.
    pub fn empty() -> (r: GitContext)
        ensures
            r@.is_repo == false,
            r@.current_branch is None,
            r@.uncommitted_changes == 0,
            r@.recent_commits.len() == 0,
            r@.remote_url is None,
    {
        let r = GitContext {
            is_repo: false,
            current_branch: None,
            uncommitted_changes: 0,
            recent_commits: Vec::new(),
            remote_url: None,
        };
        assert(r@.recent_commits =~= Seq::<GitCommitV>::empty());
        r
    }

    /// Renders the context for an AI prompt.
    pub fn format_for_ai(&self) -> (r: String)
        ensures
            r@ == format_for_ai_spec(self@),
    {
        if !self.is_repo {
            return String::from_str("Not a git repository");
        }
        let mut out: Vec<char> = Vec::new();
        match &self.current_branch {
            Some(b) => {
                push_str_chars(&mut out, "Branch: ");
                push_str_chars(&mut out, b.as_str());
                push_str_chars(&mut out, "\n");
            },
            None => {},
        }
        if self.uncommitted_changes > 0 {
            push_str_chars(&mut out, "Uncommitted changes: ");
            push_usize_dec(&mut out, self.uncommitted_changes);
            push_str_chars(&mut out, " files\n");
        }
        let ghost head = out@;
        let n = self.recent_commits.len();
        if n > 0 {
            push_str_chars(&mut out, "\nRecent commits:\n");
            let mut i: usize = 0;
            proof {
                assert(out@ =~= head + "\nRecent commits:\n"@ + commit_lines(
                    self@.recent_commits.subrange(0, 0),
                ));
            }
            while i < n
                invariant
                    n == self.recent_commits@.len(),
                    i <= n,
                    out@ == head + "\nRecent commits:\n"@ + commit_lines(
                        self@.recent_commits.subrange(0, i as int),
                    ),
                decreases n - i,
            {
                let ghost pfx = self@.recent_commits.subrange(0, i as int);
                let c = &self.recent_commits[i];
                push_str_chars(&mut out, "  ");
                let hc = str_to_chars(c.hash.as_str());
                let hn = if hc.len() > 8 {
                    8
                } else {
                    hc.len()
                };
                let mut k: usize = 0;
                let ghost base = out@;
                while k < hn
                    invariant
                        hn <= hc@.len(),
                        k <= hn,
                        out@ == base + hc@.subrange(0, k as int),
                    decreases hn - k,
                {
                    out.push(hc[k]);
                    k = k + 1;
                    assert(out@ =~= base + hc@.subrange(0, k as int));
                }
                push_str_chars(&mut out, " - ");
                push_first_line(&mut out, &c.message);
                push_str_chars(&mut out, " (");
                push_str_chars(&mut out, c.author.as_str());
                push_str_chars(&mut out, ")\n");
                proof {
                    lemma_commit_lines_push(pfx, self@.recent_commits[i as int]);
                    assert(self@.recent_commits.subrange(0, i + 1) =~= pfx.push(
                        self@.recent_commits[i as int],
                    ));
                    assert(hc@.subrange(0, hn as int) == short_hash(self@.recent_commits[i as int]
                        .hash));
                    assert(out@ =~= head + "\nRecent commits:\n"@ + commit_lines(
                        self@.recent_commits.subrange(0, i + 1),
                    ));
                }
                i = i + 1;
            }
            proof {
                assert(self@.recent_commits.subrange(0, n as int) =~= self@.recent_commits);
            }
        }
        proof {
            assert(out@ =~= format_for_ai_spec(self@));
        }
        chars_to_string(&out)
    }
}

/// The first eight characters of a hash, or all of a shorter one.
pub open spec fn short_hash(h: Seq<char>) -> Seq<char> {
    if h.len() > 8 {
        h.take(8)
    } else {
        h
    }
}

/// The first line of a commit message.
pub open spec fn first_line(s: Seq<char>) -> Seq<char> {
    split_nl(s)[0]
}

/// One commit's line in the rendering.
pub open spec fn commit_line(c: GitCommitV) -> Seq<char> {
    "  "@ + short_hash(c.hash) + " - "@ + first_line(c.message) + " ("@ + c.author + ")\n"@
}

/// The rendered commit list.
pub open spec fn commit_lines(cs: Seq<GitCommitV>) -> Seq<char>
    decreases cs.len(),
{
    if cs.len() == 0 {
        Seq::empty()
    } else {
        commit_line(cs[0]) + commit_lines(cs.skip(1))
    }
}

/// The whole rendering: branch, dirt count, and recent commits, each part
/// only when present.
pub open spec fn format_for_ai_spec(g: GitContextV) -> Seq<char> {
    if !g.is_repo {
        "Not a git repository"@
    } else {
        (match g.current_branch {
            Some(b) => "Branch: "@ + b + "\n"@,
            None => Seq::empty(),
        }) + (if g.uncommitted_changes > 0 {
            "Uncommitted changes: "@ + dec_seq(g.uncommitted_changes) + " files\n"@
        } else {
            Seq::empty()
        }) + (if g.recent_commits.len() > 0 {
            "\nRecent commits:\n"@ + commit_lines(g.recent_commits)
        } else {
            Seq::empty()
        })
    }
}

/// Appending one commit to the rendered list.
proof fn lemma_commit_lines_push(cs: Seq<GitCommitV>, c: GitCommitV)
    ensures
        commit_lines(cs.push(c)) == commit_lines(cs) + commit_line(c),
    decreases cs.len(),
{
    reveal_with_fuel(commit_lines, 3);
    let whole = cs.push(c);
    if cs.len() == 0 {
        assert(whole[0] == c);
        assert(whole.skip(1) =~= Seq::<GitCommitV>::empty());
        assert(commit_lines(whole) =~= commit_line(c));
        assert(commit_lines(cs) + commit_line(c) =~= commit_line(c));
    } else {
        lemma_commit_lines_push(cs.skip(1), c);
        assert(whole.skip(1) =~= cs.skip(1).push(c));
        assert(whole[0] == cs[0]);
        assert(commit_line(cs[0]) + (commit_lines(cs.skip(1)) + commit_line(c)) =~= (commit_line(
            cs[0],
        ) + commit_lines(cs.skip(1))) + commit_line(c));
    }
}

/// Appends the first line of `s` to `out`.
fn push_first_line(out: &mut Vec<char>, s: &String)
    ensures
        final(out)@ == old(out)@ + first_line(s@),
{
    let cs = str_to_chars(s.as_str());
    let n = cs.len();
    let mut cur: Vec<char> = Vec::new();
    let mut i: usize = 0;
    proof {
        assert(cs@.skip(0) =~= cs@);
        assert(Seq::<char>::empty() + first_line(cs@) =~= first_line(cs@));
    }
    while i < n
        invariant
            n == cs@.len(),
            cs@ == s@,
            i <= n,
            first_line(cs@) == cur@ + first_line(cs@.skip(i as int)),
        ensures
            first_line(cs@) == cur@,
        decreases n - i,
    {
        let c = cs[i];
        assert(cs@.skip(i as int)[0] == c);
        if c == '\n' {
            proof {
                assert(first_line(cs@.skip(i as int)) =~= Seq::<char>::empty());
                assert(cur@ + Seq::<char>::empty() =~= cur@);
            }
            break ;
        }
        if c == '\r' && i + 1 < n && cs[i + 1] == '\n' {
            proof {
                assert(cs@.skip(i as int)[1] == cs@[i + 1]);
                assert(first_line(cs@.skip(i as int)) =~= Seq::<char>::empty());
                assert(cur@ + Seq::<char>::empty() =~= cur@);
            }
            break ;
        }
        proof {
            crate::audit::lemma_split_nl_len(cs@.skip(i + 1));
            assert(cs@.skip(i as int).skip(1) =~= cs@.skip(i + 1));
            if c == '\r' && i + 1 < n {
                assert(cs@.skip(i as int)[1] == cs@[i + 1]);
            }
            if c == '\r' && i + 1 >= n {
                assert(cs@.skip(i as int).len() < 2);
            }
            assert(first_line(cs@.skip(i as int)) == seq![c] + first_line(cs@.skip(i + 1)));
            assert(cur@ + (seq![c] + first_line(cs@.skip(i + 1))) =~= cur@.push(c) + first_line(
                cs@.skip(i + 1),
            ));
        }
        cur.push(c);
        i = i + 1;
    }
    let m = cur.len();
    let mut j: usize = 0;
    while j < m
        invariant
            m == cur@.len(),
            j <= m,
            out@ == old(out)@ + cur@.subrange(0, j as int),
        decreases m - j,
    {
        out.push(cur[j]);
        j = j + 1;
        assert(out@ =~= old(out)@ + cur@.subrange(0, j as int));
    }
    proof {
        assert(cur@.subrange(0, m as int) =~= cur@);
    }
}

// ---------------------------------------------------------------------------
// Parsing the log format.
// ---------------------------------------------------------------------------
/// The text split at every NUL separator.
pub open spec fn split_nul(s: Seq<char>) -> Seq<Seq<char>>
    decreases s.len(),
{
    if s.len() == 0 {
        seq![Seq::empty()]
    } else if s[0] == '\0' {
        seq![Seq::<char>::empty()] + split_nul(s.skip(1))
    } else {
        let r = split_nul(s.skip(1));
        seq![seq![s[0]] + r[0]] + r.skip(1)
    }
}

/// The commit one log line denotes: hash, author, date and subject,
/// NUL-separated; a line with fewer fields denotes none.
pub open spec fn commit_of_line(l: Seq<char>) -> Option<GitCommitV> {
    let parts = split_nul(l);
    if parts.len() >= 4 {
        Some(GitCommitV { hash: parts[0], author: parts[1], date: parts[2], message: parts[3] })
    } else {
        None
    }
}

/// The commits a whole log output denotes, malformed lines dropped.
pub open spec fn commits_of_lines(ls: Seq<Seq<char>>) -> Seq<GitCommitV>
    decreases ls.len(),
{
    if ls.len() == 0 {
        Seq::empty()
    } else {
        (match commit_of_line(ls[0]) {
            Some(c) => seq![c],
            None => Seq::empty(),
        }) + commits_of_lines(ls.skip(1))
    }
}

/// What a whole `git log` output denotes.
pub open spec fn parse_git_log_spec(out: Seq<char>) -> Seq<GitCommitV> {
    commits_of_lines(lines_spec(out))
}

/// Appending one line to a parsed log.
proof fn lemma_commits_push(ls: Seq<Seq<char>>, l: Seq<char>)
    ensures
        commits_of_lines(ls.push(l)) == commits_of_lines(ls) + (match commit_of_line(l) {
            Some(c) => seq![c],
            None => Seq::<GitCommitV>::empty(),
        }),
    decreases ls.len(),
{
    reveal_with_fuel(commits_of_lines, 3);
    let whole = ls.push(l);
    let tailpart = match commit_of_line(l) {
        Some(c) => seq![c],
        None => Seq::<GitCommitV>::empty(),
    };
    if ls.len() == 0 {
        assert(whole[0] == l);
        assert(whole.skip(1) =~= Seq::<Seq<char>>::empty());
        assert(commits_of_lines(whole) =~= tailpart);
        assert(commits_of_lines(ls) + tailpart =~= tailpart);
    } else {
        lemma_commits_push(ls.skip(1), l);
        assert(whole.skip(1) =~= ls.skip(1).push(l));
        assert(whole[0] == ls[0]);
        let headpart = match commit_of_line(ls[0]) {
            Some(c) => seq![c],
            None => Seq::<GitCommitV>::empty(),
        };
        assert(headpart + (commits_of_lines(ls.skip(1)) + tailpart) =~= (headpart
            + commits_of_lines(ls.skip(1))) + tailpart);
    }
}

/// Splits one log line at its NUL separators.
fn split_nul_exec(l: &String) -> (r: Vec<String>)
    ensures
        r@.map_values(|p: String| p@) == split_nul(l@),
{
    let cs = str_to_chars(l.as_str());
    let n = cs.len();
    let mut done: Vec<String> = Vec::new();
    let mut cur: Vec<char> = Vec::new();
    let mut i: usize = 0;
    proof {
        lemma_split_nul_len(cs@);
        assert(cs@.skip(0) =~= cs@);
        assert(cur@ + split_nul(cs@)[0] =~= split_nul(cs@)[0]);
        assert(Seq::<Seq<char>>::empty() + (seq![cur@ + split_nul(cs@)[0]] + split_nul(
            cs@,
        ).skip(1)) =~= split_nul(cs@));
    }
    while i < n
        invariant
            n == cs@.len(),
            cs@ == l@,
            i <= n,
            split_nul(cs@) == done@.map_values(|p: String| p@) + (seq![
                cur@ + split_nul(cs@.skip(i as int))[0],
            ] + split_nul(cs@.skip(i as int)).skip(1)),
        decreases n - i,
    {
        let ghost dv = done@.map_values(|p: String| p@);
        let ghost rest = split_nul(cs@.skip(i as int));
        let c = cs[i];
        assert(cs@.skip(i as int)[0] == c);
        if c == '\0' {
            proof {
                assert(cs@.skip(i as int).skip(1) =~= cs@.skip(i + 1));
                lemma_split_nul_len(cs@.skip(i + 1));
                assert(rest == seq![Seq::<char>::empty()] + split_nul(cs@.skip(i + 1)));
                assert(cur@ + rest[0] =~= cur@);
                assert(rest.skip(1) =~= split_nul(cs@.skip(i + 1)));
                assert(dv + (seq![cur@ + rest[0]] + rest.skip(1)) =~= dv.push(cur@) + (seq![
                    Seq::<char>::empty() + split_nul(cs@.skip(i + 1))[0],
                ] + split_nul(cs@.skip(i + 1)).skip(1)));
            }
            done.push(chars_to_string(&cur));
            cur = Vec::new();
            i = i + 1;
        } else {
            proof {
                assert(cs@.skip(i as int).skip(1) =~= cs@.skip(i + 1));
                lemma_split_nul_len(cs@.skip(i + 1));
                let inner = split_nul(cs@.skip(i + 1));
                assert(rest == seq![seq![c] + inner[0]] + inner.skip(1));
                assert(cur@ + (seq![c] + inner[0]) =~= cur@.push(c) + inner[0]);
                assert(rest.skip(1) =~= inner.skip(1));
            }
            cur.push(c);
            i = i + 1;
        }
        proof {
            assert(done@.map_values(|p: String| p@) + (seq![
                cur@ + split_nul(cs@.skip(i as int))[0],
            ] + split_nul(cs@.skip(i as int)).skip(1)) =~= split_nul(cs@));
        }
    }
    proof {
        assert(cs@.skip(n as int).len() == 0);
        assert(split_nul(cs@.skip(n as int)) =~= seq![Seq::<char>::empty()]);
        assert(cur@ + Seq::<char>::empty() =~= cur@);
    }
    let ghost dv = done@.map_values(|p: String| p@);
    done.push(chars_to_string(&cur));
    proof {
        assert(done@.map_values(|p: String| p@) =~= dv.push(cur@));
        assert(dv.push(cur@) =~= split_nul(cs@));
    }
    done
}

/// A NUL split always has at least one piece.
proof fn lemma_split_nul_len(s: Seq<char>)
    ensures
        split_nul(s).len() >= 1,
    decreases s.len(),
{
    if s.len() == 0 {
    } else if s[0] == '\0' {
    } else {
        lemma_split_nul_len(s.skip(1));
    }
}

/// Parses one log line into a commit, if it carries all four fields.
pub fn parse_commit_line(l: &String) -> (r: Option<GitCommit>)
    ensures
        match r {
            Some(c) => commit_of_line(l@) == Some(c@),
            None => commit_of_line(l@) == None::<GitCommitV>,
        },
{
    let mut parts = split_nul_exec(l);
    if parts.len() >= 4 {
        let hash = parts.remove(0);
        let author = parts.remove(0);
        let date = parts.remove(0);
        let message = parts.remove(0);
        let c = GitCommit { hash, author, date, message };
        proof {
            let pv = split_nul(l@);
            assert(c@ == (GitCommitV {
                hash: pv[0],
                author: pv[1],
                date: pv[2],
                message: pv[3],
            }));
        }
        Some(c)
    } else {
        None
    }
}

/// Parses a whole log output, dropping malformed lines.
pub fn parse_git_log(output: &String) -> (r: Vec<GitCommit>)
    ensures
        r@.map_values(|c: GitCommit| c@) == parse_git_log_spec(output@),
{
    let lines = crate::audit::split_lines(output);
    let n = lines.len();
    let ghost lv = lines@.map_values(|s: String| s@);
    let mut commits: Vec<GitCommit> = Vec::new();
    let mut i: usize = 0;
    proof {
        assert(commits@.map_values(|c: GitCommit| c@) =~= commits_of_lines(lv.subrange(0, 0)));
    }
    while i < n
        invariant
            n == lines@.len(),
            lv == lines@.map_values(|s: String| s@),
            i <= n,
            commits@.map_values(|c: GitCommit| c@) == commits_of_lines(lv.subrange(0, i as int)),
        decreases n - i,
    {
        let ghost pfx = lv.subrange(0, i as int);
        proof {
            assert(lv.subrange(0, i + 1) =~= pfx.push(lv[i as int]));
            lemma_commits_push(pfx, lv[i as int]);
        }
        let ghost before = commits@.map_values(|c: GitCommit| c@);
        match parse_commit_line(&lines[i]) {
            Some(c) => {
                commits.push(c);
                proof {
                    assert(commits@.map_values(|cc: GitCommit| cc@) =~= before.push(
                        commits@[commits@.len() - 1]@,
                    ));
                    assert(commits@.map_values(|cc: GitCommit| cc@) =~= commits_of_lines(
                        lv.subrange(0, i + 1),
                    ));
                }
            },
            None => {
                proof {
                    assert(before + Seq::<GitCommitV>::empty() =~= before);
                    assert(commits@.map_values(|cc: GitCommit| cc@) =~= commits_of_lines(
                        lv.subrange(0, i + 1),
                    ));
                }
            },
        }
        i = i + 1;
    }
    proof {
        assert(lv.subrange(0, n as int) =~= lv);
    }
    commits
}

} // verus!
