//! The trace renderer: entry, exit and user log lines, prefixed by depth.
use vstd::prelude::*;

verus! {

/// One argument as it appears in an entry line: an optional label and the
/// already formatted value.
#[derive(Debug, Clone)]
pub struct TraceArg {
    pub label: Option<String>,
    pub value: String,
}

impl TraceArg {
    /// An argument shown as `label:value`.
    pub fn labeled(label: &str, value: String) -> (r: TraceArg)
        ensures
            r.label is Some,
            r.label->0@ == label@,
            r.value@ == value@,
    {
        TraceArg { label: Some(String::from_str(label)), value }
    }

    /// An argument shown by its value alone.
    pub fn unlabeled(value: String) -> (r: TraceArg)
        ensures
            r.label is None,
            r.value@ == value@,
    {
        TraceArg { label: None, value }
    }
}

/// The indentation of depth `depth`: one vertical bar glyph per level.
pub open spec fn indent_of(depth: nat) -> Seq<char>
    decreases depth,
{
    if depth == 0 {
        Seq::empty()
    } else {
        indent_of((depth - 1) as nat) + "│ "@
    }
}

/// A text whose line feeds are each followed by `prefix`: every line after
/// the first of a multi-line value becomes a continuation line.
pub open spec fn continued(s: Seq<char>, prefix: Seq<char>) -> Seq<char>
    decreases s.len(),
{
    if s.len() == 0 {
        Seq::empty()
    } else if s.last() == '\n' {
        continued(s.drop_last(), prefix) + seq!['\n'] + prefix
    } else {
        continued(s.drop_last(), prefix).push(s.last())
    }
}

/// How one argument reads in an entry line, with continuation prefix `p`.
pub open spec fn arg_text(a: TraceArg, p: Seq<char>) -> Seq<char> {
    match a.label {
        Some(l) => continued(l@, p) + ":"@ + continued(a.value@, p),
        None => continued(a.value@, p),
    }
}

/// The arguments of an entry line, separated by `", "`.
pub open spec fn args_text(args: Seq<TraceArg>, p: Seq<char>) -> Seq<char>
    decreases args.len(),
{
    if args.len() == 0 {
        Seq::empty()
    } else if args.len() == 1 {
        arg_text(args[0], p)
    } else {
        args_text(args.drop_last(), p) + ", "@ + arg_text(args.last(), p)
    }
}

/// The entry line of a call at `depth`: indentation, branch glyph, the
/// function's name and its shown arguments; a multi-line argument goes on in
/// continuation lines one level deeper.
pub open spec fn entry_line(depth: nat, name: Seq<char>, args: Seq<TraceArg>) -> Seq<char> {
    indent_of(depth) + "├ "@ + continued(name, log_prefix(depth)) + "("@ + args_text(
        args,
        log_prefix(depth),
    ) + ")"@
}

/// The exit line of a call at `depth`: indentation, corner glyph and, when
/// there is one, the rendered return value, going on in continuation lines
/// one level deeper where it spans several lines.
pub open spec fn exit_line(depth: nat, value: Option<String>) -> Seq<char> {
    match value {
        Some(v) => indent_of(depth) + "└ return: "@ + continued(v@, log_prefix(depth)),
        None => indent_of(depth) + "└"@,
    }
}

/// The text between line feeds, from the first piece to the last; a text of
/// `n` line feeds has `n + 1` pieces.
pub open spec fn pieces(s: Seq<char>) -> Seq<Seq<char>>
    decreases s.len(),
{
    if s.len() == 0 {
        seq![Seq::empty()]
    } else {
        let p = pieces(s.drop_last());
        if s.last() == '\n' {
            p.push(Seq::empty())
        } else {
            p.update(p.len() - 1, p.last().push(s.last()))
        }
    }
}

/// A line without the carriage return of its `\r\n` terminator.
pub open spec fn strip_cr(l: Seq<char>) -> Seq<char> {
    if l.len() > 0 && l.last() == '\r' {
        l.drop_last()
    } else {
        l
    }
}

/// Whether the text ends with a line terminator.
pub open spec fn ends_with_newline(s: Seq<char>) -> bool {
    s.len() > 0 && s.last() == '\n'
}

/// The lines of a text: split at `\n` or `\r\n`, terminators left out, and no
/// empty line after a final terminator.
pub open spec fn lines_of(s: Seq<char>) -> Seq<Seq<char>> {
    let p = pieces(s);
    let body = p.drop_last().map_values(|l: Seq<char>| strip_cr(l));
    if p.last().len() == 0 {
        body
    } else {
        body.push(p.last())
    }
}

/// The prefix of the lines written inside a call at `depth`, user log lines
/// and continuation lines: one level deeper than the call's own entry line.
pub open spec fn log_prefix(depth: nat) -> Seq<char> {
    indent_of(depth + 1)
}

/// The output lines of a logged text inside a call at `depth`: each line of
/// the text behind the prefix, and one prefix-only line when the text ends
/// with a line terminator.
pub open spec fn log_lines(depth: nat, s: Seq<char>) -> Seq<Seq<char>> {
    let body = lines_of(s).map_values(|l: Seq<char>| log_prefix(depth) + l);
    if ends_with_newline(s) {
        body.push(log_prefix(depth))
    } else {
        body
    }
}

/// Lines each followed by a line feed.
pub open spec fn terminated(lines: Seq<Seq<char>>) -> Seq<char>
    decreases lines.len(),
{
    if lines.len() == 0 {
        Seq::empty()
    } else {
        terminated(lines.drop_last()) + lines.last() + seq!['\n']
    }
}

/// Lines joined by line feeds, with none after the last.
pub open spec fn joined(lines: Seq<Seq<char>>) -> Seq<char>
    decreases lines.len(),
{
    if lines.len() == 0 {
        Seq::empty()
    } else if lines.len() == 1 {
        lines[0]
    } else {
        joined(lines.drop_last()) + seq!['\n'] + lines.last()
    }
}

/// How many line feeds a text holds.
pub open spec fn newline_count(s: Seq<char>) -> nat
    decreases s.len(),
{
    if s.len() == 0 {
        0
    } else {
        newline_count(s.drop_last()) + if s.last() == '\n' {
            1nat
        } else {
            0nat
        }
    }
}

proof fn lemma_pieces_shape(s: Seq<char>)
    ensures
        pieces(s).len() == newline_count(s) + 1,
        pieces(s).last().len() == 0 <==> (s.len() == 0 || s.last() == '\n'),
    decreases s.len(),
{
    if s.len() > 0 {
        lemma_pieces_shape(s.drop_last());
    }
}

/// A logged text of `k` lines gives exactly `k` output lines, each the
/// text's line behind the log prefix, and one more, the prefix alone, when the
/// text ends with a line terminator. The text's `k` is its number of line
/// feeds, plus one when it is not empty and does not end with one.
pub proof fn lemma_log_line_count(depth: nat, text: Seq<char>)
    ensures
        lines_of(text).len() == newline_count(text) + if text.len() > 0 && !ends_with_newline(
            text,
        ) {
            1nat
        } else {
            0nat
        },
        log_lines(depth, text).len() == lines_of(text).len() + if ends_with_newline(text) {
            1nat
        } else {
            0nat
        },
        forall|i: int|
            0 <= i < lines_of(text).len() ==> #[trigger] log_lines(depth, text)[i] == log_prefix(
                depth,
            ) + lines_of(text)[i],
        ends_with_newline(text) ==> log_lines(depth, text).last() == log_prefix(depth),
{
    lemma_pieces_shape(text);
}

/// The indentation of a call at `depth`.
pub fn indent(depth: usize) -> (r: String)
    ensures
        r@ == indent_of(depth as nat),
{
    let mut s = String::new();
    let mut i: usize = 0;
    while i < depth
        invariant
            i <= depth,
            s@ == indent_of(i as nat),
        decreases depth - i,
    {
        s.append("│ ");
        i = i + 1;
    }
    s
}

/// The prefix of user log lines inside a call at `depth`.
fn log_prefix_text(depth: usize) -> (r: String)
    ensures
        r@ == log_prefix(depth as nat),
{
    let mut s = indent(depth);
    s.append("│ ");
    s
}

/// A text contains no line feed between `start` and `j`: continuing the text
/// up to `j` adds that stretch as it is.
proof fn lemma_plain_stretch(t: Seq<char>, p: Seq<char>, start: int, j: int)
    requires
        0 <= start <= j <= t.len(),
        forall|k: int| start <= k < j ==> #[trigger] t[k] != '\n',
    ensures
        continued(t.subrange(0, j), p) == continued(t.subrange(0, start), p) + t.subrange(start, j),
    decreases j - start,
{
    if j == start {
        assert(t.subrange(start, j) =~= Seq::<char>::empty());
    } else {
        lemma_plain_stretch(t, p, start, j - 1);
        assert(t.subrange(0, j).drop_last() =~= t.subrange(0, j - 1));
        assert(t.subrange(start, j - 1).push(t[j - 1]) =~= t.subrange(start, j));
    }
}

/// Appends `t` to `s`, each line feed of `t` followed by `prefix`.
fn append_continued(s: &mut String, t: &str, prefix: &str)
    ensures
        final(s)@ == old(s)@ + continued(t@, prefix@),
{
    let ghost head = s@;
    let n = t.unicode_len();
    let mut start: usize = 0;
    let mut i: usize = 0;
    proof {
        assert(t@.subrange(0, 0) =~= Seq::<char>::empty());
    }
    while i < n
        invariant
            n == t@.len(),
            start <= i <= n,
            s@ == head + continued(t@.subrange(0, start as int), prefix@),
            forall|k: int| start <= k < i ==> #[trigger] t@[k] != '\n',
        decreases n - i,
    {
        if t.get_char(i) == '\n' {
            proof {
                lemma_plain_stretch(t@, prefix@, start as int, i as int);
                assert(t@.subrange(0, i + 1).drop_last() =~= t@.subrange(0, i as int));
                assert(t@.subrange(start as int, i as int) + seq!['\n'] =~= t@.subrange(
                    start as int,
                    i + 1,
                ));
            }
            s.append(t.substring_char(start, i + 1));
            s.append(prefix);
            start = i + 1;
        }
        i = i + 1;
    }
    proof {
        lemma_plain_stretch(t@, prefix@, start as int, n as int);
        assert(t@.subrange(0, n as int) =~= t@);
    }
    s.append(t.substring_char(start, n));
}

/// The entry line of a call at `depth` to the function `name`.
pub fn render_entry(depth: usize, name: &str, args: &Vec<TraceArg>) -> (r: String)
    ensures
        r@ == entry_line(depth as nat, name@, args@),
{
    let cp = log_prefix_text(depth);
    let mut s = indent(depth);
    s.append("├ ");
    append_continued(&mut s, name, cp.as_str());
    s.append("(");
    let ghost head = s@;
    let mut i: usize = 0;
    while i < args.len()
        invariant
            i <= args@.len(),
            cp@ == log_prefix(depth as nat),
            s@ == head + args_text(args@.subrange(0, i as int), cp@),
        decreases args@.len() - i,
    {
        let a = &args[i];
        proof {
            let sub = args@.subrange(0, i as int + 1);
            assert(sub.drop_last() =~= args@.subrange(0, i as int));
        }
        if i > 0 {
            s.append(", ");
        } else {
            proof {
                assert(args@.subrange(0, 0) =~= Seq::<TraceArg>::empty());
            }
        }
        match &a.label {
            Some(l) => {
                append_continued(&mut s, l.as_str(), cp.as_str());
                s.append(":");
                append_continued(&mut s, a.value.as_str(), cp.as_str());
            },
            None => {
                append_continued(&mut s, a.value.as_str(), cp.as_str());
            },
        }
        i = i + 1;
    }
    proof {
        assert(args@.subrange(0, args@.len() as int) =~= args@);
    }
    s.append(")");
    s
}

/// The exit line of a call at `depth`, with the rendered return value if one
/// is given.
pub fn render_exit(depth: usize, value: Option<String>) -> (r: String)
    ensures
        r@ == exit_line(depth as nat, value),
{
    let mut s = indent(depth);
    match &value {
        Some(v) => {
            let cp = log_prefix_text(depth);
            s.append("└ return: ");
            append_continued(&mut s, v.as_str(), cp.as_str());
        },
        None => {
            s.append("└");
        },
    }
    s
}

/// The text from character `from` up to `to`, without the carriage return
/// that precedes a line feed at `to`.
fn line_before(text: &str, from: usize, to: usize) -> (r: &str)
    requires
        from <= to < text@.len(),
        text@[to as int] == '\n',
    ensures
        r@ == strip_cr(text@.subrange(from as int, to as int)),
{
    if to > from && text.get_char(to - 1) == '\r' {
        proof {
            assert(text@.subrange(from as int, to as int).drop_last() =~= text@.subrange(
                from as int,
                to - 1,
            ));
        }
        text.substring_char(from, to - 1)
    } else {
        text.substring_char(from, to)
    }
}

/// The output lines of `text` logged inside a call at `depth`.
pub fn render_log_lines(depth: usize, text: &str) -> (r: Vec<String>)
    ensures
        r@.len() == log_lines(depth as nat, text@).len(),
        forall|k: int| 0 <= k < r@.len() ==> #[trigger] r@[k]@ == log_lines(depth as nat, text@)[k],
{
    let prefix = log_prefix_text(depth);
    let n = text.unicode_len();
    let mut out: Vec<String> = Vec::new();
    let mut start: usize = 0;
    let mut i: usize = 0;
    let ghost mut done: Seq<Seq<char>> = Seq::empty();
    proof {
        assert(text@.subrange(0, 0) =~= Seq::<char>::empty());
    }
    while i < n
        invariant
            n == text@.len(),
            start <= i <= n,
            prefix@ == log_prefix(depth as nat),
            pieces(text@.subrange(0, i as int)) == done.push(text@.subrange(start as int, i as int)),
            out@.len() == done.len(),
            forall|k: int| 0 <= k < done.len() ==> #[trigger] out@[k]@ == prefix@ + strip_cr(done[k]),
        decreases n - i,
    {
        let c = text.get_char(i);
        proof {
            let t = text@.subrange(0, i as int + 1);
            assert(t.drop_last() =~= text@.subrange(0, i as int));
            assert(t.last() == c);
        }
        if c == '\n' {
            let line = line_before(text, start, i);
            let mut l = prefix.clone();
            l.append(line);
            out.push(l);
            proof {
                done = done.push(text@.subrange(start as int, i as int));
                assert(text@.subrange(i as int + 1, i as int + 1) =~= Seq::<char>::empty());
            }
            start = i + 1;
        } else {
            proof {
                assert(text@.subrange(start as int, i as int).push(c) =~= text@.subrange(
                    start as int,
                    i as int + 1,
                ));
            }
        }
        i = i + 1;
    }
    proof {
        assert(text@.subrange(0, n as int) =~= text@);
        assert(pieces(text@).drop_last() =~= done);
    }
    let ghost body = lines_of(text@).map_values(|l: Seq<char>| log_prefix(depth as nat) + l);
    if start < n {
        let mut l = prefix.clone();
        l.append(text.substring_char(start, n));
        out.push(l);
    }
    proof {
        assert(out@.len() == body.len());
        assert forall|k: int| 0 <= k < out@.len() implies #[trigger] out@[k]@ == body[k] by {}
    }
    if n > 0 && text.get_char(n - 1) == '\n' {
        out.push(prefix.clone());
    }
    out
}

/// The output of `text` logged inside a call at `depth` by a statement that
/// ends its output with a line feed: every output line, each terminated.
pub fn render_log_block(depth: usize, text: &str) -> (r: String)
    ensures
        r@ == terminated(log_lines(depth as nat, text@)),
{
    let lines = render_log_lines(depth, text);
    let ghost want = log_lines(depth as nat, text@);
    let mut s = String::new();
    let mut i: usize = 0;
    while i < lines.len()
        invariant
            i <= lines@.len(),
            lines@.len() == want.len(),
            forall|k: int| 0 <= k < lines@.len() ==> #[trigger] lines@[k]@ == want[k],
            s@ == terminated(want.subrange(0, i as int)),
        decreases lines@.len() - i,
    {
        proof {
            assert(want.subrange(0, i as int + 1).drop_last() =~= want.subrange(0, i as int));
            reveal_strlit("\n");
        }
        s.append(lines[i].as_str());
        s.append("\n");
        i = i + 1;
    }
    proof {
        assert(want.subrange(0, want.len() as int) =~= want);
    }
    s
}

/// The output of `text` logged inside a call at `depth` by a statement that
/// adds no line feed of its own: the output lines joined by line feeds.
pub fn render_log_text(depth: usize, text: &str) -> (r: String)
    ensures
        r@ == joined(log_lines(depth as nat, text@)),
{
    let lines = render_log_lines(depth, text);
    let ghost want = log_lines(depth as nat, text@);
    let mut s = String::new();
    let mut i: usize = 0;
    proof {
        assert(want.subrange(0, 0) =~= Seq::<Seq<char>>::empty());
    }
    while i < lines.len()
        invariant
            i <= lines@.len(),
            lines@.len() == want.len(),
            forall|k: int| 0 <= k < lines@.len() ==> #[trigger] lines@[k]@ == want[k],
            s@ == joined(want.subrange(0, i as int)),
        decreases lines@.len() - i,
    {
        proof {
            assert(want.subrange(0, i as int + 1).drop_last() =~= want.subrange(0, i as int));
            reveal_strlit("\n");
        }
        if i > 0 {
            s.append("\n");
        }
        s.append(lines[i].as_str());
        i = i + 1;
    }
    proof {
        assert(want.subrange(0, want.len() as int) =~= want);
    }
    s
}

/// The output of a bare blank-line log statement inside a call at `depth`:
/// one prefix-only line.
pub fn render_blank_line(depth: usize) -> (r: String)
    ensures
        r@ == log_prefix(depth as nat) + seq!['\n'],
{
    let mut s = log_prefix_text(depth);
    proof {
        reveal_strlit("\n");
    }
    s.append("\n");
    s
}

} // verus!
