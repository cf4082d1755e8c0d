//! Rewriting `lx` shell examples as MCP tool-call descriptions.
//!
//! A bash example such as
//!
//! ```text
//! # look at the table
//! lx block table-get --block-id tbl_x
//! ```
//!
//! becomes a numbered list of tool calls (`1. look at the table - 调用
//! `lx-block-table-get` 工具`) with one line per `--name value` argument.
//! Lines are matched with the same regular expressions as the shell would be
//! read by a person: a comment line, an `lx <namespace> <command> <args>`
//! line, and continuation lines of a command.

use vstd::prelude::*;
use crate::ir::opt_view;
use crate::text::{
    chars_to_string, decimal, join, join_chars, push_chars, push_decimal, push_str, spec_lines,
    split_lines, str_to_chars, trim, trim_chars, is_ws, char_is_ws, slice_chars,
};

verus! {

// ---------------------------------------------------------------------------
// Regular-expression matches
// ---------------------------------------------------------------------------

/// Captures of `^lx\s+(\w+)\s+(\S+)\s*(.*)` on a line: namespace, command and
/// the rest, or `None` when the line does not match.
pub uninterp spec fn command_captures(line: Seq<char>) -> Option<(Seq<char>, Seq<char>, Seq<char>)>;

/// The number of white-space characters (Unicode `White_Space`, the class
/// `\s` of the `regex` crate) that `s` starts with.
pub open spec fn leading_ws(s: Seq<char>) -> nat
    decreases s.len(),
{
    if s.len() > 0 && is_ws(s[0]) {
        1 + leading_ws(s.drop_first())
    } else {
        0
    }
}

/// The number of characters of `s` before its first `\n` (all of them where
/// it has none).
pub open spec fn before_newline(s: Seq<char>) -> nat
    decreases s.len(),
{
    if s.len() > 0 && s[0] != '\n' {
        1 + before_newline(s.drop_first())
    } else {
        0
    }
}

/// Capture of `^#\s*(.*)` on a line: `None` unless the line starts with
/// `#`; else what follows the `#` once its leading white space is skipped
/// (`\s*` is greedy), up to the first line feed (`.` does not match one).
pub open spec fn comment_capture(line: Seq<char>) -> Option<Seq<char>> {
    if line.len() > 0 && line[0] == '#' {
        let rest = line.drop_first();
        let body = rest.skip(leading_ws(rest) as int);
        Some(body.take(before_newline(body) as int))
    } else {
        None
    }
}

/// Successive non-overlapping matches of `--(\w[\w-]*)\s+('[^']*'|"[^"]*"|\S+)`
/// in an argument string: parameter name and raw value.
pub uninterp spec fn argument_captures(args: Seq<char>) -> Seq<(Seq<char>, Seq<char>)>;

pub open spec fn triple_view(o: Option<(String, String, String)>) -> Option<(Seq<char>, Seq<char>, Seq<char>)> {
    match o {
        Some((a, b, c)) => Some((a@, b@, c@)),
        None => None,
    }
}

pub open spec fn pairs_view(v: Seq<(String, String)>) -> Seq<(Seq<char>, Seq<char>)> {
    v.map_values(|p: (String, String)| (p.0@, p.1@))
}

/// Matches a command line against `^lx\s+(\w+)\s+(\S+)\s*(.*)` with the
/// `regex` crate and returns the three captures.
#[verifier::external_body]
fn capture_command(line: &str) -> (r: Option<(String, String, String)>)
    ensures
        triple_view(r) == command_captures(line@),
{
    let re = regex::Regex::new(r"^lx\s+(\w+)\s+(\S+)\s*(.*)").unwrap();
    re.captures(line).map(|c| (c[1].to_string(), c[2].to_string(), c[3].to_string()))
}

/// The capture of `^#\s*(.*)` on a line (see [`comment_capture`]).
fn capture_comment(line: &str) -> (r: Option<String>)
    ensures
        opt_view(r) == comment_capture(line@),
{
    let cs = str_to_chars(line);
    let n = cs.len();
    if n == 0 || cs[0] != '#' {
        return None;
    }
    let ghost rest = cs@.drop_first();
    let mut i: usize = 1;
    assert(cs@.skip(1) =~= rest);
    while i < n && char_is_ws(cs[i])
        invariant
            1 <= i <= n,
            n == cs@.len(),
            rest == cs@.drop_first(),
            leading_ws(rest) == (i - 1) + leading_ws(cs@.skip(i as int)),
        decreases n - i,
    {
        assert(cs@.skip(i as int)[0] == cs@[i as int]);
        assert(cs@.skip(i as int).drop_first() =~= cs@.skip(i + 1));
        i = i + 1;
    }
    if i < n {
        assert(cs@.skip(i as int)[0] == cs@[i as int]);
    }
    assert(rest.skip(leading_ws(rest) as int) =~= cs@.skip(i as int));
    let ghost body = cs@.skip(i as int);
    let mut j: usize = i;
    assert(cs@.skip(j as int) =~= body);
    while j < n && cs[j] != '\n'
        invariant
            i <= j <= n,
            n == cs@.len(),
            body == cs@.skip(i as int),
            before_newline(body) == (j - i) + before_newline(cs@.skip(j as int)),
        decreases n - j,
    {
        assert(cs@.skip(j as int)[0] == cs@[j as int]);
        assert(cs@.skip(j as int).drop_first() =~= cs@.skip(j + 1));
        j = j + 1;
    }
    if j < n {
        assert(cs@.skip(j as int)[0] == cs@[j as int]);
    }
    let out = slice_chars(cs.as_slice(), i, j);
    assert(out@ =~= body.take(before_newline(body) as int));
    Some(chars_to_string(out.as_slice()))
}

/// Every match of `--(\w[\w-]*)\s+('[^']*'|"[^"]*"|\S+)` in an argument
/// string, found with the `regex` crate's `captures_iter`, as (name, value).
#[verifier::external_body]
fn capture_arguments(args: &str) -> (r: Vec<(String, String)>)
    ensures
        pairs_view(r@) == argument_captures(args@),
{
    let re = regex::Regex::new(r#"--(\w[\w-]*)\s+('[^']*'|"[^"]*"|\S+)"#).unwrap();
    re.captures_iter(args).map(|c| (c[1].to_string(), c[2].to_string())).collect()
}

// ---------------------------------------------------------------------------
// Formatting one tool call
// ---------------------------------------------------------------------------

/// `-` replaced by `_`.
pub open spec fn dash_to_underscore(s: Seq<char>) -> Seq<char> {
    s.map_values(|c: char| if c == '-' { '_' } else { c })
}

/// Whether a value is wrapped in a pair of the same quote characters.
pub open spec fn is_quoted(v: Seq<char>) -> bool {
    v.len() > 0 && ((v[0] == '\'' && v.last() == '\'') || (v[0] == '"' && v.last() == '"'))
}

/// A value with its surrounding quotes removed (a single quote character alone
/// has no inside: `None`).
pub open spec fn unquote(v: Seq<char>) -> Option<Seq<char>> {
    if is_quoted(v) {
        if v.len() >= 2 {
            Some(v.subrange(1, v.len() - 1))
        } else {
            None
        }
    } else {
        Some(v)
    }
}

/// The argument lines of a tool call, for the first `i` captures.
pub open spec fn argument_lines(args: Seq<(Seq<char>, Seq<char>)>, i: nat) -> Option<Seq<char>>
    decreases i,
{
    if i == 0 || i > args.len() {
        Some(Seq::empty())
    } else {
        match (argument_lines(args, (i - 1) as nat), unquote(args[i - 1].1)) {
            (Some(prev), Some(v)) => Some(prev + "\n"@ + "   - "@ + dash_to_underscore(args[i - 1].0)
                + ": `"@ + v + "`"@),
            _ => None,
        }
    }
}

/// Once an argument cannot be written, the argument lines stay undefined.
proof fn lemma_argument_lines_none_stays(args: Seq<(Seq<char>, Seq<char>)>, i: nat, m: nat)
    requires
        i <= m <= args.len(),
        argument_lines(args, i) is None,
    ensures
        argument_lines(args, m) is None,
    decreases m - i,
{
    if i < m {
        lemma_argument_lines_none_stays(args, i, (m - 1) as nat);
    }
}

/// The heading line of a tool call.
pub open spec fn call_heading(step: nat, comment: Option<Seq<char>>, tool: Seq<char>) -> Seq<char> {
    match comment {
        Some(d) => if d.len() > 0 {
            decimal(step) + ". "@ + d + " - 调用 `"@ + tool + "` 工具"@
        } else {
            decimal(step) + ". 调用 `"@ + tool + "` 工具"@
        },
        None => decimal(step) + ". 调用 `"@ + tool + "` 工具"@,
    }
}

/// The description of one tool call: its heading, then one line per
/// argument (`None` when a value is a lone quote character).
pub open spec fn spec_format_call(
    step: nat,
    comment: Option<Seq<char>>,
    ns: Seq<char>,
    cmd: Seq<char>,
    args: Seq<(Seq<char>, Seq<char>)>,
) -> Option<Seq<char>> {
    let tool = "lx-"@ + ns + "-"@ + cmd;
    match argument_lines(args, args.len()) {
        Some(lines) => Some(call_heading(step, comment, tool) + lines),
        None => None,
    }
}

/// Describes one tool call from its step number, the comment above the
/// command, the namespace and command, and the captured arguments.
pub fn format_tool_call(
    step: u128,
    comment: &Option<Vec<char>>,
    ns: &[char],
    cmd: &[char],
    args: &Vec<(String, String)>,
) -> (r: Option<Vec<char>>)
    ensures
        match r {
            Some(t) => spec_format_call(
                step as nat,
                match comment {
                    Some(c) => Some(c@),
                    None => None,
                },
                ns@,
                cmd@,
                pairs_view(args@),
            ) == Some(t@),
            None => spec_format_call(
                step as nat,
                match comment {
                    Some(c) => Some(c@),
                    None => None,
                },
                ns@,
                cmd@,
                pairs_view(args@),
            ) is None,
        },
{
    let mut tool: Vec<char> = Vec::new();
    push_str(&mut tool, "lx-");
    push_chars(&mut tool, ns);
    push_str(&mut tool, "-");
    push_chars(&mut tool, cmd);
    let mut out: Vec<char> = Vec::new();
    push_decimal(&mut out, step);
    match comment {
        Some(d) => {
            if d.len() > 0 {
                push_str(&mut out, ". ");
                push_chars(&mut out, d.as_slice());
                push_str(&mut out, " - 调用 `");
            } else {
                push_str(&mut out, ". 调用 `");
            }
        },
        None => {
            push_str(&mut out, ". 调用 `");
        },
    }
    push_chars(&mut out, tool.as_slice());
    push_str(&mut out, "` 工具");
    let ghost pv = pairs_view(args@);
    let ghost head = out@;
    let mut i: usize = 0;
    while i < args.len()
        invariant
            pv == pairs_view(args@),
            i <= args@.len(),
            argument_lines(pv, i as nat) matches Some(l) && out@ == head + l,
        decreases args@.len() - i,
    {
        let name = str_to_chars(args[i].0.as_str());
        let value = str_to_chars(args[i].1.as_str());
        assert(pv[i as int] == (name@, value@));
        let n = value.len();
        let quoted = n > 0 && ((value[0] == '\'' && value[n - 1] == '\'') || (value[0] == '"'
            && value[n - 1] == '"'));
        if quoted && n < 2 {
            proof {
                lemma_argument_lines_none_stays(pv, (i + 1) as nat, pv.len());
            }
            return None;
        }
        push_str(&mut out, "\n");
        push_str(&mut out, "   - ");
        let mut k: usize = 0;
        let ghost before = out@;
        while k < name.len()
            invariant
                k <= name@.len(),
                out@ == before + dash_to_underscore(name@.take(k as int)),
            decreases name@.len() - k,
        {
            let c = name[k];
            out.push(if c == '-' { '_' } else { c });
            k = k + 1;
            assert(out@ =~= before + dash_to_underscore(name@.take(k as int)));
        }
        assert(name@.take(name@.len() as int) == name@);
        push_str(&mut out, ": `");
        if quoted {
            let inner = crate::text::slice_chars(value.as_slice(), 1, n - 1);
            push_chars(&mut out, inner.as_slice());
        } else {
            push_chars(&mut out, value.as_slice());
        }
        push_str(&mut out, "`");
        i = i + 1;
    }
    Some(out)
}

// ---------------------------------------------------------------------------
// The line-by-line reading of a script
// ---------------------------------------------------------------------------

/// What has been read so far.
pub struct ReadState {
    pub step: nat,
    pub comment: Option<Seq<char>>,
    pub command: Option<(Seq<char>, Seq<char>, Seq<char>)>,
    pub calls: Seq<Seq<char>>,
    pub failed: bool,
}

/// `s` without all trailing `\`.
pub open spec fn trim_backslashes(s: Seq<char>) -> Seq<char>
    decreases s.len(),
{
    if s.len() > 0 && s.last() == '\\' {
        trim_backslashes(s.drop_last())
    } else {
        s
    }
}

/// Whether a trimmed line continues the current command.
pub open spec fn continues(t: Seq<char>) -> bool {
    t.len() > 0 && t[0] != '#' && !("lx "@.is_prefix_of(t))
}

/// The state after a line whose command, if any, has been completed.
pub open spec fn after_command(st: ReadState, t: Seq<char>) -> ReadState {
    match comment_capture(t) {
        Some(c) => ReadState { comment: Some(c), ..st },
        None => match command_captures(t) {
            Some((ns, cmd, args)) => ReadState {
                command: Some(
                    (
                        ns,
                        cmd,
                        if args.len() > 0 && args.last() == '\\' {
                            trim(trim_backslashes(args))
                        } else {
                            args
                        },
                    ),
                ),
                ..st
            },
            None => if t.len() == 0 {
                ReadState { comment: None, ..st }
            } else {
                st
            },
        },
    }
}

/// The state after reading one more line.
pub open spec fn read_line(st: ReadState, line: Seq<char>) -> ReadState {
    let t = trim(line);
    if st.failed {
        st
    } else {
        match st.command {
            Some((ns, cmd, args)) => if t.len() > 0 && t.last() == '\\' {
                ReadState { command: Some((ns, cmd, args + " "@ + trim(trim_backslashes(t)))), ..st }
            } else if continues(t) {
                ReadState { command: Some((ns, cmd, args + " "@ + t)), ..st }
            } else {
                match spec_format_call(st.step, st.comment, ns, cmd, argument_captures(args)) {
                    Some(call) => after_command(
                        ReadState {
                            step: st.step + 1,
                            comment: None,
                            command: None,
                            calls: st.calls.push(call),
                            failed: false,
                        },
                        t,
                    ),
                    None => ReadState { failed: true, ..st },
                }
            },
            None => after_command(st, t),
        }
    }
}

/// The state after reading the first `i` lines.
pub open spec fn read_lines(lines: Seq<Seq<char>>, i: nat) -> ReadState
    decreases i,
{
    if i == 0 || i > lines.len() {
        ReadState { step: 1, comment: None, command: None, calls: Seq::empty(), failed: false }
    } else {
        read_line(read_lines(lines, (i - 1) as nat), lines[i - 1])
    }
}

/// The tool-call description of a bash example (`None` when an argument value
/// is a lone quote character); an example without any `lx` command is kept
/// as a bash block.
pub open spec fn spec_convert(code: Seq<char>) -> Option<Seq<char>> {
    let lines = spec_lines(code).push(Seq::empty());
    let st = read_lines(lines, lines.len());
    if st.failed {
        None
    } else if st.calls.len() == 0 {
        Some("```bash\n"@ + code + "\n```"@)
    } else {
        Some(join(st.calls, "\n\n"@))
    }
}

/// The exec form of the reading state.
struct Reader {
    step: u128,
    comment: Option<Vec<char>>,
    command: Option<(Vec<char>, Vec<char>, Vec<char>)>,
    calls: Vec<Vec<char>>,
}

impl Reader {
    spec fn state(&self, failed: bool) -> ReadState {
        ReadState {
            step: self.step as nat,
            comment: match self.comment {
                Some(c) => Some(c@),
                None => None,
            },
            command: match self.command {
                Some((a, b, c)) => Some((a@, b@, c@)),
                None => None,
            },
            calls: self.calls@.map_values(|c: Vec<char>| c@),
            failed,
        }
    }
}

/// `s` without all trailing `\`.
fn trim_backslashes_chars(s: &[char]) -> (r: Vec<char>)
    ensures
        r@ == trim_backslashes(s@),
{
    let mut end = s.len();
    assert(s@.take(end as int) == s@);
    while end > 0 && s[end - 1] == '\\'
        invariant
            end <= s@.len(),
            trim_backslashes(s@) == trim_backslashes(s@.take(end as int)),
        decreases end,
    {
        assert(s@.take(end as int).drop_last() == s@.take(end - 1));
        end = end - 1;
    }
    crate::text::slice_chars(s, 0, end)
}

/// Whether `p` is a prefix of `s`.
fn starts_with_chars(s: &[char], p: &str) -> (b: bool)
    ensures
        b == p@.is_prefix_of(s@),
{
    let pv = str_to_chars(p);
    if pv.len() > s.len() {
        return false;
    }
    let mut i: usize = 0;
    while i < pv.len()
        invariant
            pv@ == p@,
            pv@.len() <= s@.len(),
            i <= pv@.len(),
            forall|j: int| 0 <= j < i ==> pv@[j] == s@[j],
        decreases pv@.len() - i,
    {
        if pv[i] != s[i] {
            return false;
        }
        i = i + 1;
    }
    true
}

impl Reader {
    /// Completes a line whose command, if any, is already finished.
    fn after_command(&mut self, t: &Vec<char>)
        requires
            old(self).step < u128::MAX,
        ensures
            final(self).state(false) == after_command(old(self).state(false), t@),
            final(self).step == old(self).step,
    {
        let ts = chars_to_string(t.as_slice());
        match capture_comment(ts.as_str()) {
            Some(c) => {
                self.comment = Some(str_to_chars(c.as_str()));
            },
            None => match capture_command(ts.as_str()) {
                Some((ns, cmd, args)) => {
                    let argv = str_to_chars(args.as_str());
                    let n = argv.len();
                    let args_kept = if n > 0 && argv[n - 1] == '\\' {
                        let b = trim_backslashes_chars(argv.as_slice());
                        trim_chars(b.as_slice())
                    } else {
                        argv
                    };
                    self.command = Some((str_to_chars(ns.as_str()), str_to_chars(cmd.as_str()), args_kept));
                },
                None => {
                    if t.len() == 0 {
                        self.comment = None;
                    }
                },
            },
        }
    }

    /// Reads one more line; `false` when the script cannot be described.
    fn read_line(&mut self, line: &Vec<char>) -> (ok: bool)
        requires
            old(self).step < u128::MAX - 1,
        ensures
            read_line(old(self).state(false), line@) == final(self).state(!ok),
            final(self).step <= old(self).step + 1,
    {
        let t = trim_chars(line.as_slice());
        let n = t.len();
        match self.command.take() {
            Some((ns, cmd, mut args)) => {
                if n > 0 && t[n - 1] == '\\' {
                    push_str(&mut args, " ");
                    let b = trim_backslashes_chars(t.as_slice());
                    let tb = trim_chars(b.as_slice());
                    push_chars(&mut args, tb.as_slice());
                    self.command = Some((ns, cmd, args));
                    return true;
                }
                if n > 0 && t[0] != '#' && !starts_with_chars(t.as_slice(), "lx ") {
                    push_str(&mut args, " ");
                    push_chars(&mut args, t.as_slice());
                    self.command = Some((ns, cmd, args));
                    return true;
                }
                let args_s = chars_to_string(args.as_slice());
                let captured = capture_arguments(args_s.as_str());
                match format_tool_call(self.step, &self.comment, ns.as_slice(), cmd.as_slice(), &captured) {
                    Some(call) => {
                        let ghost before = self.calls@.map_values(|c: Vec<char>| c@);
                        let ghost cv = call@;
                        self.calls.push(call);
                        assert(self.calls@.map_values(|c: Vec<char>| c@) =~= before.push(cv));
                        self.step = self.step + 1;
                        self.comment = None;
                        self.after_command(&t);
                        true
                    },
                    None => {
                        self.command = Some((ns, cmd, args));
                        false
                    },
                }
            },
            None => {
                self.after_command(&t);
                true
            },
        }
    }
}

/// The tool-call description of a bash example; `None` when an argument value
/// is a lone quote character (there is nothing between its quotes).
pub fn convert_cli_to_tool_calls(bash_code: &str) -> (r: Option<String>)
    ensures
        opt_view(r) == spec_convert(bash_code@),
{
    let code = str_to_chars(bash_code);
    let mut lines = split_lines(code.as_slice());
    lines.push(Vec::new());
    let ghost lv = lines@.map_values(|l: Vec<char>| l@);
    assert(lv =~= spec_lines(bash_code@).push(Seq::empty()));
    let mut reader = Reader { step: 1, comment: None, command: None, calls: Vec::new() };
    assert(reader.calls@.map_values(|c: Vec<char>| c@) =~= Seq::<Seq<char>>::empty());
    assert(reader.state(false) == read_lines(lv, 0));
    let mut i: usize = 0;
    while i < lines.len()
        invariant
            lv == lines@.map_values(|l: Vec<char>| l@),
            lv == spec_lines(bash_code@).push(Seq::empty()),
            i <= lines@.len(),
            reader.step <= i + 1,
            reader.state(false) == read_lines(lv, i as nat),
        decreases lines@.len() - i,
    {
        assert(lv[i as int] == lines@[i as int]@);
        let ok = reader.read_line(&lines[i]);
        if !ok {
            proof {
                assert(read_lines(lv, (i + 1) as nat) == read_line(read_lines(lv, i as nat), lv[i as int]));
                assert(read_lines(lv, (i + 1) as nat).failed);
                lemma_failed_stays(lv, (i + 1) as nat, lv.len());
                assert(lv.len() == lines@.len());
            }
            return None;
        }
        i = i + 1;
    }
    if reader.calls.len() == 0 {
        let mut out: Vec<char> = Vec::new();
        push_str(&mut out, "```bash\n");
        push_str(&mut out, bash_code);
        push_str(&mut out, "\n```");
        Some(chars_to_string(out.as_slice()))
    } else {
        let joined = join_chars(&reader.calls, "\n\n");
        Some(chars_to_string(joined.as_slice()))
    }
}

/// Once the reading fails, it stays failed.
proof fn lemma_failed_stays(lines: Seq<Seq<char>>, i: nat, m: nat)
    requires
        i <= m <= lines.len(),
        read_lines(lines, i).failed,
    ensures
        read_lines(lines, m).failed,
    decreases m - i,
{
    if i < m {
        lemma_failed_stays(lines, i, (m - 1) as nat);
    }
}

proof fn lemma_call_numbered(step: nat, comment: Option<Seq<char>>, tool: Seq<char>, rest: Seq<char>)
    ensures
        (decimal(step) + ". "@).is_prefix_of(call_heading(step, comment, tool) + rest),
{
    reveal_strlit(". ");
    reveal_strlit(". 调用 `");
    reveal_strlit(" - 调用 `");
    reveal_strlit("` 工具");
    let p = decimal(step) + ". "@;
    let h = call_heading(step, comment, tool);
    let tail: Seq<char> = match comment {
        Some(d) => if d.len() > 0 {
            d + " - 调用 `"@ + tool + "` 工具"@
        } else {
            "调用 `"@ + tool + "` 工具"@
        },
        None => "调用 `"@ + tool + "` 工具"@,
    };
    assert(". 调用 `"@ =~= ". "@ + "调用 `"@) by {
        reveal_strlit("调用 `");
    }
    assert(h =~= p + tail);
    assert((h + rest).subrange(0, p.len() as int) =~= p);
}

/// Reading a script numbers its tool calls 1, 2, 3, ... in the order they
/// are found: after any number of lines, the next step is one more than the
/// number of calls, and call `k` (counting from 0) begins with the decimal
/// text of `k + 1` and `. `. So the calls of a converted example are
/// numbered from 1 upwards.
pub proof fn law_calls_numbered_in_order(lines: Seq<Seq<char>>, i: nat)
    ensures
        read_lines(lines, i).step == read_lines(lines, i).calls.len() + 1,
        forall|k: int|
            0 <= k < read_lines(lines, i).calls.len() ==> (decimal((k + 1) as nat) + ". "@).is_prefix_of(
                #[trigger] read_lines(lines, i).calls[k],
            ),
    decreases i,
{
    if i > 0 && i <= lines.len() {
        law_calls_numbered_in_order(lines, (i - 1) as nat);
        let st = read_lines(lines, (i - 1) as nat);
        let t = trim(lines[i - 1]);
        if !st.failed {
            if let Some((ns, cmd, args)) = st.command {
                if !(t.len() > 0 && t.last() == '\\') && !continues(t) {
                    let caps = argument_captures(args);
                    if let Some(call) = spec_format_call(st.step, st.comment, ns, cmd, caps) {
                        let tool = "lx-"@ + ns + "-"@ + cmd;
                        let lines_of = argument_lines(caps, caps.len()).unwrap();
                        lemma_call_numbered(st.step, st.comment, tool, lines_of);
                        let st2 = read_lines(lines, i);
                        assert(st2.calls == st.calls.push(call));
                        assert forall|k: int| 0 <= k < st2.calls.len() implies (decimal((k + 1) as nat)
                            + ". "@).is_prefix_of(#[trigger] st2.calls[k]) by {
                            if k < st.calls.len() {
                                assert(st2.calls[k] == st.calls[k]);
                            }
                        }
                    }
                }
            }
        }
    }
}

} // verus!
