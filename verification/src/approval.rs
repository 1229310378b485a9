//! Which commands need the user's approval, and which replies give it.
use vstd::prelude::*;
use vstd::string::*;
use crate::config::{ResolvedShellPolicy, ShellPolicyMode};
use crate::json::Json;
use crate::text;

verus! {

broadcast use vstd::string::group_string_axioms;

/// Whether a character is a letter or a digit of any script.
pub uninterp spec fn char_is_alphanumeric(c: char) -> bool;

/// `char::is_alphanumeric` is a function of the character alone; of the ASCII
/// characters, the letters and the digits are alphanumeric.
pub assume_specification[ char::is_alphanumeric ](c: char) -> (r: bool)
    ensures
        r == char_is_alphanumeric(c),
        (c as u32) < 128 ==> r == ('a' <= c <= 'z' || 'A' <= c <= 'Z' || '0' <= c <= '9'),
;

// ---------------------------------------------------------------------------
// Commands
// ---------------------------------------------------------------------------

/// A command in lower case with one space between each two words.
pub open spec fn normalized_command(s: Seq<char>) -> Seq<char> {
    text::join(text::words(text::ascii_lower(s)), " "@)
}

/// A text with one space in front and one behind.
pub open spec fn padded(s: Seq<char>) -> Seq<char> {
    " "@ + s + " "@
}

/// Whether a command holds a pattern's words, one behind the other.
pub open spec fn matches_pattern(command: Seq<char>, pattern: Seq<char>) -> bool {
    &&& normalized_command(pattern).len() > 0
    &&& text::contains(padded(normalized_command(command)), padded(normalized_command(pattern)))
}

/// Whether a command matches one of the patterns.
pub open spec fn needs_approval(command: Seq<char>, patterns: Seq<Seq<char>>) -> bool {
    exists|i: int| 0 <= i < patterns.len() && matches_pattern(command, #[trigger] patterns[i])
}

/// The command in lower case with one space between each two words.
pub fn normalize_command_for_matching(s: &str) -> (r: String)
    ensures
        r@ == normalized_command(s@),
{
    let lower: String = text::to_ascii_lower(s);
    let words: Vec<String> = text::words_of(lower.as_str());
    text::joined(&words, " ")
}

fn pad(s: &str) -> (r: String)
    ensures
        r@ == padded(s@),
{
    let mut out: String = " ".to_owned();
    out.append(s);
    out.append(" ");
    out
}

/// Whether the command holds the words of one of the patterns. A pattern without
/// words matches nothing.
pub fn should_require_shell_approval(command: &str, patterns: &[String]) -> (r: bool)
    ensures
        r == needs_approval(command@, patterns.deep_view()),
{
    let normalized: String = normalize_command_for_matching(command);
    let hay: String = pad(normalized.as_str());
    let mut i: usize = 0;
    while i < patterns.len()
        invariant
            i <= patterns@.len(),
            hay@ == padded(normalized_command(command@)),
            forall|k: int|
                0 <= k < i ==> !matches_pattern(command@, #[trigger] patterns.deep_view()[k]),
        decreases patterns@.len() - i,
    {
        let wanted: String = normalize_command_for_matching(patterns[i].as_str());
        if !wanted.as_str().is_empty() {
            let needle: String = pad(wanted.as_str());
            if text::has(hay.as_str(), needle.as_str()) {
                assert(matches_pattern(command@, patterns.deep_view()[i as int]));
                return true;
            }
        }
        i = i + 1;
    }
    false
}

/// The tools that run code or commands of the model's making.
pub open spec fn runs_code(tool: Seq<char>) -> bool {
    tool == "exec"@ || runs_arbitrary_code(tool)
}

/// The tools that run code of any kind.
pub open spec fn runs_arbitrary_code(tool: Seq<char>) -> bool {
    tool == "python_run"@ || tool == "execution_run"@ || tool == "execution_run_background"@
}

/// Whether the tool runs code or commands of the model's making.
pub fn is_code_exec_tool(tool_name: &str) -> (r: bool)
    ensures
        r == runs_code(tool_name@),
{
    text::same(tool_name, "exec") || is_arbitrary_code_tool(tool_name)
}

/// Whether the tool runs code of any kind.
pub fn is_arbitrary_code_tool(tool_name: &str) -> (r: bool)
    ensures
        r == runs_arbitrary_code(tool_name@),
{
    text::same(tool_name, "python_run") || text::same(tool_name, "execution_run") || text::same(
        tool_name,
        "execution_run_background",
    )
}

/// Whether a call that runs code needs approval: a call that runs code of any kind
/// always does, a shell command where it matches a pattern.
pub open spec fn code_needs_approval(
    tool: Seq<char>,
    command: Seq<char>,
    patterns: Seq<Seq<char>>,
) -> bool {
    runs_arbitrary_code(tool) || needs_approval(command, patterns)
}

/// Whether a call that runs code needs approval.
pub fn code_exec_requires_approval(tool_name: &str, command: &str, patterns: &[String]) -> (r: bool)
    ensures
        r == code_needs_approval(tool_name@, command@, patterns.deep_view()),
{
    is_arbitrary_code_tool(tool_name) || should_require_shell_approval(command, patterns)
}

/// The argument in which a tool finds what it is to run.
pub open spec fn code_argument(tool: Seq<char>) -> Seq<char> {
    if tool == "exec"@ {
        "command"@
    } else {
        "code"@
    }
}

/// What a tool that runs code is to run: the trimmed text of its argument, where there
/// is any.
pub fn extract_code_exec_command(tool_name: &str, args: &Json) -> (r: Option<String>)
    ensures
        r.deep_view() == args@.non_blank_at(code_argument(tool_name@)),
{
    if text::same(tool_name, "exec") {
        args.non_blank_at("command")
    } else {
        args.non_blank_at("code")
    }
}

/// The command that the shell tool is to run: the trimmed text of its argument, where
/// there is any.
pub fn extract_exec_command(args: &Json) -> (r: Option<String>)
    ensures
        r.deep_view() == args@.non_blank_at("command"@),
{
    args.non_blank_at("command")
}

/// The policy mode that holds for a session.
pub fn shell_policy_mode_for_session(policy: &ResolvedShellPolicy, unattended_session: bool) -> (r:
    ShellPolicyMode)
    ensures
        r == if unattended_session {
            policy.unattended_mode
        } else {
            policy.interactive_mode
        },
{
    if unattended_session {
        policy.unattended_mode
    } else {
        policy.interactive_mode
    }
}

/// How many bytes of a command its preview shows.
pub const MAX_PREVIEW: usize = 160;

/// Whether a command can be cut behind its first 160 bytes: no character lies across
/// the cut.
pub open spec fn preview_cuts_cleanly(command: Seq<char>) -> bool {
    text::byte_len(command) > MAX_PREVIEW ==> text::byte_len(
        text::fitting_prefix(command, MAX_PREVIEW as nat),
    ) == MAX_PREVIEW
}

/// A command with what lies behind its first 160 bytes replaced by three dots.
pub open spec fn preview(command: Seq<char>) -> Seq<char> {
    text::truncate_utf8(command, MAX_PREVIEW as nat, "..."@)
}

/// The first 160 bytes of a command, with three dots where anything follows them.
pub fn command_preview(command: &str) -> (r: String)
    requires
        preview_cuts_cleanly(command@),
    ensures
        r@ == preview(command@),
{
    let mut out: String = command.to_owned();
    text::truncate_utf8_safe(&mut out, MAX_PREVIEW, "...");
    out
}

/// Whether a command uses one of the tools that the search tools make unnecessary.
pub open spec fn uses_grep_like(command: Seq<char>) -> bool {
    let lower = text::ascii_lower(command);
    ||| text::contains(lower, "grep "@)
    ||| text::contains(lower, "| grep"@)
    ||| text::contains(lower, "cat "@)
    ||| text::contains(lower, "wc "@)
}

/// Whether a command uses one of the tools that the search tools make unnecessary.
pub fn shell_command_uses_grep_like(command: &str) -> (r: bool)
    ensures
        r == uses_grep_like(command@),
{
    let lower: String = text::to_ascii_lower(command);
    text::has(lower.as_str(), "grep ") || text::has(lower.as_str(), "| grep") || text::has(
        lower.as_str(),
        "cat ",
    ) || text::has(lower.as_str(), "wc ")
}

// ---------------------------------------------------------------------------
// Replies
// ---------------------------------------------------------------------------

/// The words that give approval.
pub open spec fn is_affirmative(word: Seq<char>) -> bool {
    ||| word == "approve"@
    ||| word == "approved"@
    ||| word == "approves"@
    ||| word == "yes"@
    ||| word == "yep"@
    ||| word == "yeah"@
    ||| word == "y"@
    ||| word == "ok"@
    ||| word == "okay"@
    ||| word == "k"@
    ||| word == "allow"@
    ||| word == "allowed"@
    ||| word == "confirm"@
    ||| word == "confirmed"@
    ||| word == "accept"@
    ||| word == "accepted"@
    ||| word == "proceed"@
    ||| word == "go"@
    ||| word == "sure"@
}

/// The words that neither give nor refuse approval.
pub open spec fn is_filler(word: Seq<char>) -> bool {
    ||| word == "please"@
    ||| word == "it"@
    ||| word == "this"@
    ||| word == "that"@
    ||| word == "ahead"@
    ||| word == "now"@
    ||| word == "run"@
    ||| word == "do"@
}

/// The words of a reply: the runs of letters and digits, in lower case.
pub open spec fn reply_words(reply: Seq<char>) -> Seq<Seq<char>> {
    text::drop_empty(
        text::split_by(
            text::ascii_lower(text::trim(reply)),
            |c: char| !char_is_alphanumeric(c),
        ),
    )
}

/// Whether a reply gives approval: it has an affirmative word, and no word but
/// affirmative ones and fillers.
pub open spec fn grants(reply: Seq<char>) -> bool {
    let words = reply_words(reply);
    &&& exists|i: int| 0 <= i < words.len() && is_affirmative(#[trigger] words[i])
    &&& forall|i: int|
        0 <= i < words.len() ==> is_affirmative(#[trigger] words[i]) || is_filler(words[i])
}

fn word_is_affirmative(w: &str) -> (r: bool)
    ensures
        r == is_affirmative(w@),
{
    text::same(w, "approve") || text::same(w, "approved") || text::same(w, "approves")
        || text::same(w, "yes") || text::same(w, "yep") || text::same(w, "yeah") || text::same(
        w,
        "y",
    ) || text::same(w, "ok") || text::same(w, "okay") || text::same(w, "k") || text::same(
        w,
        "allow",
    ) || text::same(w, "allowed") || text::same(w, "confirm") || text::same(w, "confirmed")
        || text::same(w, "accept") || text::same(w, "accepted") || text::same(w, "proceed")
        || text::same(w, "go") || text::same(w, "sure")
}

fn word_is_filler(w: &str) -> (r: bool)
    ensures
        r == is_filler(w@),
{
    text::same(w, "please") || text::same(w, "it") || text::same(w, "this") || text::same(w, "that")
        || text::same(w, "ahead") || text::same(w, "now") || text::same(w, "run") || text::same(
        w,
        "do",
    )
}

/// The words of a reply.
fn words_of_reply(reply: &str) -> (r: Vec<String>)
    ensures
        r.deep_view() == reply_words(reply@),
{
    let trimmed: String = text::trimmed(reply);
    let lower: String = text::to_ascii_lower(trimmed.as_str());
    let chars: Vec<char> = text::chars_of(lower.as_str());
    let mut marks: Vec<bool> = Vec::new();
    let mut i: usize = 0;
    while i < chars.len()
        invariant
            i <= chars@.len(),
            marks@.len() == i,
            forall|k: int| 0 <= k < i ==> marks@[k] == !char_is_alphanumeric(#[trigger] chars@[k]),
        decreases chars@.len() - i,
    {
        let c: char = chars[i];
        marks.push(!c.is_alphanumeric());
        i = i + 1;
    }
    text::split_marked(&chars, &marks, Ghost(|c: char| !char_is_alphanumeric(c)))
}

/// Whether a reply to a request for approval gives it. Anything but a plain yes is
/// a no.
pub fn shell_approval_reply_is_grant(reply: &str) -> (r: bool)
    ensures
        r == grants(reply@),
{
    let words: Vec<String> = words_of_reply(reply);
    let ghost ws = reply_words(reply@);
    let mut saw_affirmative: bool = false;
    let mut i: usize = 0;
    while i < words.len()
        invariant
            i <= words@.len(),
            ws == words.deep_view(),
            ws == reply_words(reply@),
            saw_affirmative == exists|k: int| 0 <= k < i && is_affirmative(#[trigger] ws[k]),
            forall|k: int|
                0 <= k < i ==> is_affirmative(#[trigger] ws[k]) || is_filler(ws[k]),
        decreases words@.len() - i,
    {
        assert(ws[i as int] == words@[i as int]@);
        if word_is_affirmative(words[i].as_str()) {
            saw_affirmative = true;
        } else if !word_is_filler(words[i].as_str()) {
            return false;
        }
        i = i + 1;
    }
    saw_affirmative
}

// ---------------------------------------------------------------------------
// What the rules come to
// ---------------------------------------------------------------------------

/// The words, each with a space behind it, after a first space.
spec fn spaced(ws: Seq<Seq<char>>) -> Seq<char>
    decreases ws.len(),
{
    if ws.len() == 0 {
        seq![' ']
    } else {
        spaced(ws.drop_last()) + ws.last() + seq![' ']
    }
}

spec fn plain_words(ws: Seq<Seq<char>>) -> bool {
    forall|i: int|
        0 <= i < ws.len() ==> (#[trigger] ws[i]).len() > 0 && forall|k: int|
            0 <= k < ws[i].len() ==> #[trigger] ws[i][k] != ' '
}

proof fn lemma_spaced_is_padded(ws: Seq<Seq<char>>)
    requires
        ws.len() > 0,
    ensures
        spaced(ws) == padded(text::join(ws, " "@)),
    decreases ws.len(),
{
    reveal_strlit(" ");
    assert(" "@ =~= seq![' ']);
    if ws.len() == 1 {
        assert(ws.drop_last() =~= Seq::<Seq<char>>::empty());
        reveal_with_fuel(spaced, 2);
    } else {
        lemma_spaced_is_padded(ws.drop_last());
        assert(spaced(ws) =~= padded(text::join(ws, " "@)));
    }
}

proof fn lemma_spaced_last(ws: Seq<Seq<char>>)
    ensures
        spaced(ws).len() > 0,
        spaced(ws).last() == ' ',
{
}

proof fn lemma_plain_drop_last(ws: Seq<Seq<char>>)
    requires
        plain_words(ws),
        ws.len() > 0,
    ensures
        plain_words(ws.drop_last()),
{
    assert forall|i: int| 0 <= i < ws.drop_last().len() implies (
    #[trigger] ws.drop_last()[i]).len() > 0 && forall|k: int|
        0 <= k < ws.drop_last()[i].len() ==> #[trigger] ws.drop_last()[i][k] != ' ' by {
        assert(ws.drop_last()[i] == ws[i]);
    }
}

/// Words that end a command's words do so word by word.
proof fn lemma_spaced_suffix(cw: Seq<Seq<char>>, pw: Seq<Seq<char>>)
    requires
        plain_words(cw),
        plain_words(pw),
        text::ends_with(spaced(cw), spaced(pw)),
    ensures
        pw.len() <= cw.len(),
        cw.subrange(cw.len() - pw.len(), cw.len() as int) == pw,
    decreases pw.len(),
{
    if pw.len() == 0 {
        assert(cw.subrange(cw.len() as int, cw.len() as int) =~= pw);
    } else {
        let s = spaced(cw);
        let t = spaced(pw);
        let off = s.len() - t.len();
        let w = pw.last();
        let ti = spaced(pw.drop_last());
        lemma_spaced_last(pw.drop_last());
        assert(t == ti + w + seq![' ']);
        assert forall|k: int| 0 <= k < t.len() implies #[trigger] t[k] == s[off + k] by {
            assert(s.subrange(off, off + t.len())[k] == s[off + k]);
        }
        assert(w.len() > 0);
        assert(cw.len() > 0);
        let c = cw.last();
        let si = spaced(cw.drop_last());
        lemma_spaced_last(cw.drop_last());
        assert(s == si + c + seq![' ']);
        if w.len() < c.len() {
            // The space in front of `w` would lie inside `c`.
            let k = ti.len() - 1;
            assert(t[k] == ti.last());
            assert(s[off + k] == c[off + k - si.len()]);
            assert(c == cw[cw.len() - 1]);
            assert(false);
        }
        if w.len() > c.len() {
            let k = si.len() - 1 - off;
            assert(s[off + k] == si.last());
            assert(t[k] == w[k - ti.len()]);
            assert(w == pw[pw.len() - 1]);
            assert(false);
        }
        assert(w =~= c) by {
            assert forall|k: int| 0 <= k < w.len() implies w[k] == c[k] by {
                assert(t[ti.len() + k] == w[k]);
                assert(s[si.len() + k] == c[k]);
            }
        }
        assert(text::ends_with(si, ti)) by {
            assert(si.len() - ti.len() == off);
            assert forall|k: int| 0 <= k < ti.len() implies si[off + k] == #[trigger] ti[k] by {
                assert(t[k] == ti[k]);
                assert(s[off + k] == si[off + k]);
            }
            assert(si.subrange(off, off + ti.len()) =~= ti);
        }
        lemma_plain_drop_last(cw);
        lemma_plain_drop_last(pw);
        lemma_spaced_suffix(cw.drop_last(), pw.drop_last());
        let n = cw.len() as int;
        let m = pw.len() as int;
        assert(cw.subrange(n - m, n) =~= cw.drop_last().subrange(n - m, n - 1).push(c));
        assert(pw =~= pw.drop_last().push(w));
    }
}

/// Words that stand in a command do so word by word.
proof fn lemma_spaced_occurs(cw: Seq<Seq<char>>, pw: Seq<Seq<char>>, at: int)
    requires
        plain_words(cw),
        plain_words(pw),
        pw.len() > 0,
        text::occurs_at(spaced(cw), spaced(pw), at),
    ensures
        exists|k: int| 0 <= k <= cw.len() - pw.len() && #[trigger] cw.subrange(k, k + pw.len()) == pw,
    decreases cw.len(),
{
    let s = spaced(cw);
    let t = spaced(pw);
    let end = at + t.len();
    lemma_spaced_last(pw);
    if end == s.len() {
        lemma_spaced_suffix(cw, pw);
        let k = cw.len() - pw.len();
        assert(cw.subrange(k, k + pw.len()) == pw);
    } else {
        assert(s.subrange(at, end)[t.len() - 1] == s[end - 1]);
        assert(s[end - 1] == ' ');
        assert(cw.len() > 0);
        let c = cw.last();
        let si = spaced(cw.drop_last());
        assert(s == si + c + seq![' ']);
        if end > si.len() {
            assert(s[end - 1] == c[end - 1 - si.len()]);
            assert(c == cw[cw.len() - 1]);
            assert(false);
        }
        assert(si.subrange(at, end) =~= s.subrange(at, end));
        lemma_plain_drop_last(cw);
        lemma_spaced_occurs(cw.drop_last(), pw, at);
        let k = choose|k: int|
            0 <= k <= cw.drop_last().len() - pw.len() && #[trigger] cw.drop_last().subrange(
                k,
                k + pw.len(),
            ) == pw;
        assert(cw.subrange(k, k + pw.len()) =~= cw.drop_last().subrange(k, k + pw.len()));
    }
}

/// Spaced words that are followed by others begin the text.
proof fn lemma_spaced_prefix(ws: Seq<Seq<char>>, n: int)
    requires
        0 <= n <= ws.len(),
    ensures
        text::starts_with(spaced(ws), spaced(ws.take(n))),
    decreases ws.len() - n,
{
    if n == ws.len() {
        assert(ws.take(n) =~= ws);
        assert(spaced(ws).subrange(0, spaced(ws).len() as int) =~= spaced(ws));
    } else {
        lemma_spaced_prefix(ws, n + 1);
        let longer = ws.take(n + 1);
        assert(longer.drop_last() =~= ws.take(n));
        let a = spaced(ws.take(n));
        let b = spaced(longer);
        assert(b == a + longer.last() + seq![' ']);
        let s = spaced(ws);
        assert(s.subrange(0, a.len() as int) =~= s.subrange(0, b.len() as int).subrange(
            0,
            a.len() as int,
        ));
        assert(b.subrange(0, a.len() as int) =~= a);
    }
}

/// Words that end other words end them as spaced text.
proof fn lemma_spaced_end(ws: Seq<Seq<char>>, k: int)
    requires
        0 <= k <= ws.len(),
    ensures
        text::ends_with(spaced(ws), spaced(ws.skip(k))),
    decreases ws.len(),
{
    if k == ws.len() {
        assert(ws.skip(k) =~= Seq::<Seq<char>>::empty());
        lemma_spaced_last(ws);
        let s = spaced(ws);
        assert(s.subrange(s.len() - 1, s.len() as int) =~= seq![' ']);
    } else {
        let t = ws.skip(k);
        lemma_spaced_end(ws.drop_last(), k);
        assert(ws.drop_last().skip(k) =~= t.drop_last());
        assert(t.last() == ws.last());
        let a = spaced(ws.drop_last());
        let b = spaced(t.drop_last());
        let tail = ws.last() + seq![' '];
        assert(spaced(ws) =~= a + tail);
        assert(spaced(t) =~= b + tail);
        let off = a.len() - b.len();
        assert((a + tail).subrange(off, (a + tail).len() as int) =~= a.subrange(
            off,
            a.len() as int,
        ) + tail);
    }
}

proof fn lemma_split_pieces_plain(s: Seq<char>, is_sep: spec_fn(char) -> bool)
    ensures
        forall|i: int, k: int|
            0 <= i < text::split_by(s, is_sep).len() && 0 <= k < text::split_by(s, is_sep)[i].len()
                ==> !is_sep(#[trigger] text::split_by(s, is_sep)[i][k]),
    decreases s.len(),
{
    if s.len() > 0 {
        let prior = text::split_by(s.drop_last(), is_sep);
        lemma_split_pieces_plain(s.drop_last(), is_sep);
        text::lemma_split_by_nonempty(s.drop_last(), is_sep);
        let now = text::split_by(s, is_sep);
        assert forall|i: int, k: int| 0 <= i < now.len() && 0 <= k < now[i].len() implies !is_sep(
            #[trigger] now[i][k],
        ) by {
            if is_sep(s.last()) {
                if i < prior.len() {
                    assert(now[i] == prior[i]);
                }
            } else {
                if i < prior.len() - 1 {
                    assert(now[i] == prior[i]);
                } else if k < prior.last().len() {
                    assert(now[i][k] == prior[i][k]);
                }
            }
        }
    }
}

/// A word is not empty and holds no white space.
pub proof fn lemma_words_are_plain(s: Seq<char>)
    ensures
        forall|i: int|
            0 <= i < text::words(s).len() ==> (#[trigger] text::words(s)[i]).len() > 0
                && forall|k: int|
                0 <= k < text::words(s)[i].len() ==> !text::is_white_space(
                    #[trigger] text::words(s)[i][k],
                ),
{
    let is_sep = |c: char| text::is_white_space(c);
    let pieces = text::split_by(s, is_sep);
    let full = |p: Seq<char>| p.len() > 0;
    lemma_split_pieces_plain(s, is_sep);
    assert forall|i: int| 0 <= i < text::words(s).len() implies (#[trigger] text::words(
        s,
    )[i]).len() > 0 && forall|k: int|
        0 <= k < text::words(s)[i].len() ==> !text::is_white_space(
            #[trigger] text::words(s)[i][k],
        ) by {
        broadcast use vstd::seq_lib::group_filter_ensures;

        let w = pieces.filter(full)[i];
        assert(full(w));
        lemma_filtered_from(pieces, full, i);
        let j = choose|j: int| 0 <= j < pieces.len() && pieces[j] == w;
        assert forall|k: int| 0 <= k < w.len() implies !text::is_white_space(#[trigger] w[k]) by {
            assert(!is_sep(pieces[j][k]));
        }
    }
}

proof fn lemma_filtered_from(
    pieces: Seq<Seq<char>>,
    pred: spec_fn(Seq<char>) -> bool,
    w: int,
)
    requires
        0 <= w < pieces.filter(pred).len(),
    ensures
        exists|j: int| 0 <= j < pieces.len() && pieces[j] == pieces.filter(pred)[w],
    decreases pieces.len(),
{
    reveal(Seq::filter);
    if pieces.len() > 0 {
        let prior = pieces.drop_last().filter(pred);
        if w < prior.len() {
            lemma_filtered_from(pieces.drop_last(), pred, w);
            let j = choose|j: int|
                0 <= j < pieces.drop_last().len() && pieces.drop_last()[j] == prior[w];
            assert(pieces[j] == pieces.filter(pred)[w]);
        } else {
            assert(pieces[pieces.len() - 1] == pieces.filter(pred)[w]);
        }
    }
}

/// A pattern matches a command if and only if it has words, and they stand in the
/// command as whole words, one behind the other; the case of letters and the white
/// space between words make no difference.
pub proof fn law_patterns_match_whole_words(command: Seq<char>, pattern: Seq<char>)
    ensures
        matches_pattern(command, pattern) <==> ({
            let cw = text::words(text::ascii_lower(command));
            let pw = text::words(text::ascii_lower(pattern));
            &&& pw.len() > 0
            &&& exists|k: int|
                0 <= k <= cw.len() - pw.len() && #[trigger] cw.subrange(k, k + pw.len()) == pw
        }),
{
    let cw = text::words(text::ascii_lower(command));
    let pw = text::words(text::ascii_lower(pattern));
    lemma_words_are_plain(text::ascii_lower(command));
    lemma_words_are_plain(text::ascii_lower(pattern));
    assert(plain_words(cw));
    assert(plain_words(pw));
    reveal_strlit(" ");
    if pw.len() == 0 {
        assert(normalized_command(pattern).len() == 0);
    } else {
        lemma_join_nonempty(pw);
        lemma_spaced_is_padded(pw);
        if cw.len() == 0 {
            assert(padded(normalized_command(command)).len() == 2);
            lemma_spaced_long(pw);
        } else {
            lemma_spaced_is_padded(cw);
            if matches_pattern(command, pattern) {
                let at = choose|at: int| #[trigger] text::occurs_at(spaced(cw), spaced(pw), at);
                lemma_spaced_occurs(cw, pw, at);
            }
            if exists|k: int|
                0 <= k <= cw.len() - pw.len() && #[trigger] cw.subrange(k, k + pw.len()) == pw {
                let k = choose|k: int|
                    0 <= k <= cw.len() - pw.len() && #[trigger] cw.subrange(k, k + pw.len()) == pw;
                let upto = cw.take(k + pw.len());
                assert(upto.skip(k) =~= pw);
                lemma_spaced_prefix(cw, k + pw.len());
                lemma_spaced_end(upto, k);
                let s = spaced(cw);
                let u = spaced(upto);
                let t = spaced(pw);
                let off = u.len() - t.len();
                assert(s.subrange(off, u.len() as int) =~= s.subrange(0, u.len() as int).subrange(
                    off,
                    u.len() as int,
                ));
                assert(text::occurs_at(s, t, off));
            }
        }
    }
}

proof fn lemma_join_nonempty(ws: Seq<Seq<char>>)
    requires
        ws.len() > 0,
        plain_words(ws),
    ensures
        text::join(ws, " "@).len() > 0,
{
    if ws.len() == 1 {
        assert(ws[0].len() > 0);
    } else {
        assert(ws[ws.len() - 1].len() > 0);
    }
}

proof fn lemma_spaced_long(ws: Seq<Seq<char>>)
    requires
        ws.len() > 0,
        plain_words(ws),
    ensures
        spaced(ws).len() >= 3,
{
    lemma_spaced_last(ws.drop_last());
    assert(ws[ws.len() - 1].len() > 0);
}

/// A reply that holds a word which is neither affirmative nor a filler is no grant.
pub proof fn law_unknown_word_denies(reply: Seq<char>, i: int)
    requires
        0 <= i < reply_words(reply).len(),
        !is_affirmative(reply_words(reply)[i]),
        !is_filler(reply_words(reply)[i]),
    ensures
        !grants(reply),
{
}

/// A blank reply is no grant.
pub proof fn law_blank_reply_denies(reply: Seq<char>)
    requires
        text::trim(reply).len() == 0,
    ensures
        !grants(reply),
{
    let sep = |c: char| !char_is_alphanumeric(c);
    assert(text::ascii_lower(text::trim(reply)) =~= Seq::<char>::empty());
    let pieces = text::split_by(Seq::<char>::empty(), sep);
    assert(pieces =~= seq![Seq::<char>::empty()]);
    assert(text::drop_empty(pieces).len() == 0) by {
        reveal_with_fuel(Seq::filter, 2);
        assert(pieces.drop_last() =~= Seq::<Seq<char>>::empty());
    }
}

/// A reply that holds a word of refusal is no grant, whatever else it says.
pub proof fn law_word_of_refusal_denies(reply: Seq<char>, i: int)
    requires
        0 <= i < reply_words(reply).len(),
        ({
            let word = reply_words(reply)[i];
            ||| word == "no"@
            ||| word == "nope"@
            ||| word == "not"@
            ||| word == "don"@
            ||| word == "never"@
            ||| word == "deny"@
            ||| word == "denied"@
            ||| word == "reject"@
            ||| word == "stop"@
            ||| word == "cancel"@
            ||| word == "wait"@
        }),
    ensures
        !grants(reply),
{
    let word = reply_words(reply)[i];
    reveal_strlit("no");
    reveal_strlit("nope");
    reveal_strlit("not");
    reveal_strlit("don");
    reveal_strlit("never");
    reveal_strlit("deny");
    reveal_strlit("denied");
    reveal_strlit("reject");
    reveal_strlit("stop");
    reveal_strlit("cancel");
    reveal_strlit("wait");
    reveal_strlit("approve");
    reveal_strlit("approved");
    reveal_strlit("approves");
    reveal_strlit("yes");
    reveal_strlit("yep");
    reveal_strlit("yeah");
    reveal_strlit("y");
    reveal_strlit("ok");
    reveal_strlit("okay");
    reveal_strlit("k");
    reveal_strlit("allow");
    reveal_strlit("allowed");
    reveal_strlit("confirm");
    reveal_strlit("confirmed");
    reveal_strlit("accept");
    reveal_strlit("accepted");
    reveal_strlit("proceed");
    reveal_strlit("go");
    reveal_strlit("sure");
    reveal_strlit("please");
    reveal_strlit("it");
    reveal_strlit("this");
    reveal_strlit("that");
    reveal_strlit("ahead");
    reveal_strlit("now");
    reveal_strlit("run");
    reveal_strlit("do");
    assert(word[0] == 'n' || word[0] == 'd' || word[0] == 'r' || word[0] == 's' || word[0] == 'c'
        || word[0] == 'w');
    assert("approve"@[0] == 'a');
    assert("approved"@[0] == 'a');
    assert("approves"@[0] == 'a');
    assert("yes"@[0] == 'y');
    assert("yep"@[0] == 'y');
    assert("yeah"@[0] == 'y');
    assert("y"@[0] == 'y');
    assert("ok"@[0] == 'o');
    assert("okay"@[0] == 'o');
    assert("k"@[0] == 'k');
    assert("allow"@[0] == 'a');
    assert("allowed"@[0] == 'a');
    assert("accept"@[0] == 'a');
    assert("accepted"@[0] == 'a');
    assert("proceed"@[0] == 'p');
    assert("go"@[0] == 'g');
    assert("please"@[0] == 'p');
    assert("it"@[0] == 'i');
    assert("this"@[0] == 't');
    assert("that"@[0] == 't');
    assert("ahead"@[0] == 'a');
    assert("confirm"@[1] == 'o' && "confirmed"@[1] == 'o' && "cancel"@[1] == 'a');
    assert("sure"@[1] == 'u' && "stop"@[1] == 't');
    assert("run"@[0] == 'r' && "now"@[2] == 'w' && "do"@.len() == 2);
    assert("now"@[0] == 'n' && "do"@[0] == 'd' && "confirm"@[0] == 'c' && "sure"@[0] == 's'
        && "confirmed"@[0] == 'c');
}

/// A reply of approving words is a grant, also where it says `please`, `it`, `now` and the like
/// between them.
pub proof fn law_plain_yes_grants(reply: Seq<char>, yes: int)
    requires
        forall|i: int|
            0 <= i < reply_words(reply).len() ==> ({
                let word = #[trigger] reply_words(reply)[i];
                ||| seq![
                    "approve"@,
                    "approved"@,
                    "yes"@,
                    "yep"@,
                    "yeah"@,
                    "y"@,
                    "ok"@,
                    "okay"@,
                    "allow"@,
                    "confirm"@,
                    "accept"@,
                    "proceed"@,
                    "go"@,
                    "sure"@,
                ].contains(word)
                ||| seq![
                    "please"@,
                    "it"@,
                    "this"@,
                    "that"@,
                    "ahead"@,
                    "now"@,
                    "run"@,
                    "do"@,
                ].contains(word)
            }),
    ensures
        0 <= yes < reply_words(reply).len() && seq![
            "approve"@,
            "approved"@,
            "yes"@,
            "yep"@,
            "yeah"@,
            "y"@,
            "ok"@,
            "okay"@,
            "allow"@,
            "confirm"@,
            "accept"@,
            "proceed"@,
            "go"@,
            "sure"@,
        ].contains(reply_words(reply)[yes]) ==> grants(reply),
{
}

/// A reply that says no more than `please`, `it`, `now` and the like is no grant.
pub proof fn law_filler_alone_is_no_grant(reply: Seq<char>)
    requires
        forall|i: int|
            0 <= i < reply_words(reply).len() ==> seq![
                "please"@,
                "it"@,
                "this"@,
                "that"@,
                "ahead"@,
                "now"@,
                "run"@,
                "do"@,
            ].contains(#[trigger] reply_words(reply)[i]),
    ensures
        !grants(reply),
{
    assert forall|i: int| 0 <= i < reply_words(reply).len() implies !is_affirmative(
        #[trigger] reply_words(reply)[i],
    ) by {
        reveal_strlit("approve");
        reveal_strlit("approved");
        reveal_strlit("approves");
        reveal_strlit("yes");
        reveal_strlit("yep");
        reveal_strlit("yeah");
        reveal_strlit("y");
        reveal_strlit("ok");
        reveal_strlit("okay");
        reveal_strlit("k");
        reveal_strlit("allow");
        reveal_strlit("allowed");
        reveal_strlit("confirm");
        reveal_strlit("confirmed");
        reveal_strlit("accept");
        reveal_strlit("accepted");
        reveal_strlit("proceed");
        reveal_strlit("go");
        reveal_strlit("sure");
        reveal_strlit("please");
        reveal_strlit("it");
        reveal_strlit("this");
        reveal_strlit("that");
        reveal_strlit("ahead");
        reveal_strlit("now");
        reveal_strlit("run");
        reveal_strlit("do");
        assert("approve"@[0] == 'a');
        assert("approved"@[0] == 'a');
        assert("approves"@[0] == 'a');
        assert("yes"@[0] == 'y');
        assert("yep"@[0] == 'y');
        assert("yeah"@[0] == 'y');
        assert("y"@[0] == 'y');
        assert("ok"@[0] == 'o');
        assert("okay"@[0] == 'o');
        assert("k"@[0] == 'k');
        assert("allow"@[0] == 'a');
        assert("allowed"@[0] == 'a');
        assert("confirm"@[0] == 'c');
        assert("confirmed"@[0] == 'c');
        assert("accept"@[0] == 'a');
        assert("accepted"@[0] == 'a');
        assert("proceed"@[0] == 'p');
        assert("go"@[0] == 'g');
        assert("sure"@[0] == 's');
        assert("proceed"@[1] == 'r');
        assert("allow"@[1] == 'l');
        assert("allowed"@[1] == 'l');
        assert("accept"@[1] == 'c');
        assert("accepted"@[1] == 'c');
        assert("approve"@[1] == 'p');
        assert("approved"@[1] == 'p');
        assert("approves"@[1] == 'p');
        assert("please"@[0] == 'p' && "please"@[1] == 'l');
        assert("it"@[0] == 'i' && "it"@[1] == 't');
        assert("this"@[0] == 't' && "this"@[1] == 'h');
        assert("that"@[0] == 't' && "that"@[1] == 'h');
        assert("ahead"@[0] == 'a' && "ahead"@[1] == 'h');
        assert("now"@[0] == 'n' && "now"@[1] == 'o');
        assert("run"@[0] == 'r' && "run"@[1] == 'u');
        assert("do"@[0] == 'd' && "do"@[1] == 'o');
    }
}

/// The words of a reply of two parts are those of the one and then those of the other; a reply
/// of one part is that word in small letters.
pub proof fn law_reply_is_read_word_by_word(
    reply: Seq<char>,
    a: Seq<char>,
    mark: char,
    b: Seq<char>,
)
    requires
        (mark as u32) < 128,
        !char_is_alphanumeric(mark),
        text::trim(reply) == a + seq![mark] + b,
        text::trim(a) == a,
        text::trim(b) == b,
    ensures
        !('A' <= mark <= 'Z') ==> reply_words(reply) == reply_words(a) + reply_words(b),
        (forall|i: int|
            0 <= i < a.len() ==> char_is_alphanumeric(
                #[trigger] text::ascii_lower(a)[i],
            )) && a.len() > 0 ==> reply_words(a) == seq![text::ascii_lower(a)],
{
    let is_sep = |c: char| !char_is_alphanumeric(c);
    if !('A' <= mark <= 'Z') {
        assert(text::ascii_lower(a + seq![mark] + b) =~= text::ascii_lower(a) + seq![mark]
            + text::ascii_lower(b));
        text::law_pieces_of_two_texts(text::ascii_lower(a), mark, text::ascii_lower(b), is_sep);
    }
    text::law_pieces_of_two_texts(text::ascii_lower(a), mark, text::ascii_lower(b), is_sep);
}

/// The tools that run code are the shell and the three that run code of any kind. The shell
/// takes its command under `command`, the others take their code under `code`.
pub proof fn law_code_is_found_in_the_call(tool: Seq<char>, command: Seq<char>, patterns: Seq<
    Seq<char>,
>)
    ensures
        runs_code(tool) <==> seq![
            "exec"@,
            "python_run"@,
            "execution_run"@,
            "execution_run_background"@,
        ].contains(tool),
        tool == "exec"@ ==> code_argument(tool) == "command"@,
        tool != "exec"@ ==> code_argument(tool) == "code"@,
        seq!["python_run"@, "execution_run"@, "execution_run_background"@].contains(tool)
            ==> code_needs_approval(tool, command, patterns),
        tool == "exec"@ ==> (code_needs_approval(tool, command, patterns) <==> needs_approval(
            command,
            patterns,
        )),
{
    let tools = seq!["exec"@, "python_run"@, "execution_run"@, "execution_run_background"@];
    assert(tools[0] == "exec"@ && tools[1] == "python_run"@ && tools[2] == "execution_run"@
        && tools[3] == "execution_run_background"@);
    reveal_strlit("exec");
    reveal_strlit("python_run");
    reveal_strlit("execution_run");
    reveal_strlit("execution_run_background");
    assert("exec"@.len() == 4 && "python_run"@.len() == 10 && "execution_run"@.len() == 13
        && "execution_run_background"@.len() == 24);
}

/// A command needs approval if and only if it does by the patterns of the one list or by those
/// of the other; without patterns none does.
pub proof fn law_each_pattern_counts(command: Seq<char>, a: Seq<Seq<char>>, b: Seq<Seq<char>>)
    ensures
        needs_approval(command, a + b) <==> needs_approval(command, a) || needs_approval(
            command,
            b,
        ),
        !needs_approval(command, Seq::empty()),
{
    if needs_approval(command, a) {
        let i = choose|i: int| 0 <= i < a.len() && matches_pattern(command, #[trigger] a[i]);
        assert((a + b)[i] == a[i]);
    }
    if needs_approval(command, b) {
        let i = choose|i: int| 0 <= i < b.len() && matches_pattern(command, #[trigger] b[i]);
        assert((a + b)[a.len() + i] == b[i]);
    }
    if needs_approval(command, a + b) {
        let i = choose|i: int|
            0 <= i < (a + b).len() && matches_pattern(command, #[trigger] (a + b)[i]);
        if i < a.len() {
            assert((a + b)[i] == a[i]);
        } else {
            assert((a + b)[i] == b[i - a.len()]);
        }
    }
}

/// A command is shown whole where it has a hundred and sixty bytes or fewer; where it has more,
/// the longest beginning of as many bytes is shown and three dots follow.
pub proof fn law_preview_shows_the_beginning(command: Seq<char>, n: int)
    requires
        0 <= n <= command.len(),
    ensures
        vstd::utf8::encode_utf8(command).len() <= 160 ==> preview(command) == command,
        vstd::utf8::encode_utf8(command).len() > 160 && vstd::utf8::encode_utf8(
            command.take(n),
        ).len() <= 160 && n < command.len() && vstd::utf8::encode_utf8(command.take(n + 1)).len()
            > 160 ==> preview(command) == command.take(n) + "..."@,
{
    text::law_truncation_keeps_what_fits(command, 160, "..."@, n);
}

/// A command in which `grep`, `cat` or `wc` is called with something behind it is one that
/// searches, whatever stands around the call and in whatever case; a command without these
/// three words is not.
pub proof fn law_searching_commands_are_seen(command: Seq<char>, before: Seq<char>, after: Seq<char>)
    ensures
        text::ascii_lower(command) == before + "grep "@ + after ==> uses_grep_like(command),
        text::ascii_lower(command) == before + "cat "@ + after ==> uses_grep_like(command),
        text::ascii_lower(command) == before + "wc "@ + after ==> uses_grep_like(command),
        text::ascii_lower(command) == before + "| grep"@ + after ==> uses_grep_like(command),
        !text::contains(text::ascii_lower(command), "grep"@) && !text::contains(
            text::ascii_lower(command),
            "cat"@,
        ) && !text::contains(text::ascii_lower(command), "wc"@) ==> !uses_grep_like(command),
{
    let lower = text::ascii_lower(command);
    text::lemma_contains_middle(before, "grep "@, after);
    text::lemma_contains_middle(before, "cat "@, after);
    text::lemma_contains_middle(before, "wc "@, after);
    text::lemma_contains_middle(before, "| grep"@, after);
    reveal_strlit("grep ");
    reveal_strlit("grep");
    reveal_strlit("| grep");
    reveal_strlit("cat ");
    reveal_strlit("cat");
    reveal_strlit("wc ");
    reveal_strlit("wc");
    if text::contains(lower, "grep "@) {
        let at = choose|at: int| #[trigger] text::occurs_at(lower, "grep "@, at);
        assert(lower.subrange(at, at + 4) =~= lower.subrange(at, at + 5).take(4));
        assert("grep "@.take(4) =~= "grep"@);
        assert(text::occurs_at(lower, "grep"@, at));
    }
    if text::contains(lower, "| grep"@) {
        let at = choose|at: int| #[trigger] text::occurs_at(lower, "| grep"@, at);
        assert(lower.subrange(at + 2, at + 6) =~= lower.subrange(at, at + 6).skip(2));
        assert("| grep"@.skip(2) =~= "grep"@);
        assert(text::occurs_at(lower, "grep"@, at + 2));
    }
    if text::contains(lower, "cat "@) {
        let at = choose|at: int| #[trigger] text::occurs_at(lower, "cat "@, at);
        assert(lower.subrange(at, at + 3) =~= lower.subrange(at, at + 4).take(3));
        assert("cat "@.take(3) =~= "cat"@);
        assert(text::occurs_at(lower, "cat"@, at));
    }
    if text::contains(lower, "wc "@) {
        let at = choose|at: int| #[trigger] text::occurs_at(lower, "wc "@, at);
        assert(lower.subrange(at, at + 2) =~= lower.subrange(at, at + 3).take(2));
        assert("wc "@.take(2) =~= "wc"@);
        assert(text::occurs_at(lower, "wc"@, at));
    }
}

} // verus!
