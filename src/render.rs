//! The human-readable form of a diagnostic: where it is, and an excerpt of the
//! source with the offending span underlined.
use vstd::prelude::*;
use crate::diagnostics::{DiagnosticsLog, Span};
use crate::encode::views;
use crate::text::{chars_of, decimal_text, push_decimal, string_of};

verus! {

/// The `\n`-separated lines of a text; a text without a newline is one line.
pub open spec fn split_lines(s: Seq<char>) -> Seq<Seq<char>>
    decreases s.len(),
{
    if s.len() == 0 {
        seq![Seq::empty()]
    } else {
        let prev = split_lines(s.drop_last());
        if s.last() == '\n' {
            prev.push(Seq::empty())
        } else {
            prev.update(prev.len() - 1, prev.last().push(s.last()))
        }
    }
}

/// A line without the `\r` that ends it when the text has `\r\n` line breaks.
pub open spec fn without_cr(l: Seq<char>) -> Seq<char> {
    if l.len() > 0 && l.last() == '\r' { l.drop_last() } else { l }
}

/// The lines of a text as they are shown: split at each `\n`, with a `\r`
/// before the `\n` dropped.
pub open spec fn source_lines(s: Seq<char>) -> Seq<Seq<char>> {
    split_lines(s).map_values(|l: Seq<char>| without_cr(l))
}

proof fn lemma_split_lines_nonempty(s: Seq<char>)
    ensures
        split_lines(s).len() >= 1,
    decreases s.len(),
{
    if s.len() > 0 {
        lemma_split_lines_nonempty(s.drop_last());
    }
}

pub open spec fn repeat(c: char, n: nat) -> Seq<char> {
    Seq::new(n, |_i: int| c)
}

/// The excerpt under a diagnostic's header: the first line of the span with
/// its part underlined, and, for a span over several lines, its last line
/// underlined up to the span's end. `None` where the span does not fit the text.
pub open spec fn excerpt(span: Span, lines: Seq<Seq<char>>) -> Option<Seq<char>> {
    let sl = span.start_position.0 as int;
    let sc = span.start_position.1 as int;
    let el = span.end_position.0 as int;
    let ec = span.end_position.1 as int;
    if sl < 1 || sl > lines.len() || el < sl || el > lines.len() || sc < 1 {
        None
    } else {
        let first = lines[sl - 1];
        let head = "| "@ + first + seq!['\n'];
        if sl == el {
            if ec < sc {
                None
            } else {
                Some(head + "| "@ + repeat(' ', (sc - 1) as nat) + repeat('^', (ec - sc) as nat) + seq!['\n'])
            }
        } else if sc - 1 > first.len() {
            None
        } else {
            let under = "| "@ + repeat(' ', (sc - 1) as nat) + repeat('^', (first.len() - (sc - 1)) as nat)
                + seq!['\n'];
            let dots = if sl + 1 != el { "| ...\n"@ } else { Seq::empty() };
            Some(head + under + dots + "| "@ + lines[el - 1] + seq!['\n'] + "| "@ + repeat('^', ec as nat) + seq!['\n'])
        }
    }
}

/// `path:line:col - line:col`.
pub open spec fn location(path: Seq<char>, span: Span) -> Seq<char> {
    path + seq![':'] + decimal_text(span.start_position.0 as nat) + seq![':'] + decimal_text(
        span.start_position.1 as nat,
    ) + " - "@ + decimal_text(span.end_position.0 as nat) + seq![':'] + decimal_text(
        span.end_position.1 as nat,
    )
}

/// How a source path is shown: relative to the working directory and starting
/// with `.` where such a relative path exists, else as it is.
pub open spec fn shown_path(source: Seq<char>, relative: Option<Seq<char>>) -> Seq<char> {
    match relative {
        Some(p) => if p.len() > 0 && p[0] == '.' {
            p
        } else {
            "./"@ + p
        },
        None => source,
    }
}

/// Relies on `pathdiff::diff_paths`: the path of `path` relative to `base`,
/// worked out from the two paths alone, without touching the file system.
pub uninterp spec fn relative_path_of(path: Seq<char>, base: Seq<char>) -> Option<Seq<char>>;

/// Relies on `pathdiff::diff_paths`.
#[verifier::external_body]
fn relative_path(path: &str, base: &str) -> (r: Option<String>)
    ensures
        match r {
            Some(p) => relative_path_of(path@, base@) == Some(p@),
            None => relative_path_of(path@, base@) is None,
        },
{
    match pathdiff::diff_paths(path, base) {
        Some(p) => Some(p.to_string_lossy().into_owned()),
        None => None,
    }
}

/// How a source path is shown, given its path relative to the working
/// directory where one exists.
pub fn shown_path_from(source: &str, relative: Option<String>) -> (r: String)
    ensures
        r@ == shown_path(source@, match relative {
            Some(p) => Some(p@),
            None => None,
        }),
{
    match relative {
        Some(p) => {
            if p.as_str().unicode_len() > 0 && p.as_str().get_char(0) == '.' {
                p
            } else {
                let mut out = String::from_str("./");
                out.append(p.as_str());
                out
            }
        },
        None => String::from_str(source),
    }
}

/// The path of a diagnostic's source as it is shown to the developer.
pub fn display_path(source: &str, current_dir: &str) -> (r: String)
    ensures
        r@ == shown_path(source@, relative_path_of(source@, current_dir@)),
{
    let relative = relative_path(source, current_dir);
    shown_path_from(source, relative)
}

/// The lines of a text, split at each `\n`.
pub fn lines_of(content: &str) -> (r: Vec<String>)
    ensures
        views(r@) == source_lines(content@),
{
    let cs = chars_of(content);
    let mut lines: Vec<String> = Vec::new();
    let mut current = String::new();
    let mut i: usize = 0;
    assert(views(lines@).push(current@) =~= split_lines(cs@.subrange(0, 0)));
    while i < cs.len()
        invariant
            i <= cs@.len(),
            cs@ == content@,
            views(lines@).push(current@) == split_lines(cs@.subrange(0, i as int)),
        decreases cs@.len() - i,
    {
        let ghost before = views(lines@).push(current@);
        proof {
            assert(cs@.subrange(0, i + 1).drop_last() =~= cs@.subrange(0, i as int));
        }
        if cs[i] == '\n' {
            let done = current;
            lines.push(done);
            current = String::new();
            assert(views(lines@).push(current@) =~= before.push(Seq::empty()));
        } else {
            current.push(cs[i]);
            assert(views(lines@).push(current@) =~= before.update(before.len() - 1, before.last().push(cs@[i as int])));
        }
        i = i + 1;
    }
    assert(cs@.subrange(0, cs@.len() as int) =~= content@);
    let ghost all = views(lines@).push(current@);
    lines.push(current);
    assert(views(lines@) =~= all);
    let mut out: Vec<String> = Vec::new();
    let mut j: usize = 0;
    while j < lines.len()
        invariant
            j <= lines@.len(),
            views(lines@) == split_lines(content@),
            views(out@) == split_lines(content@).subrange(0, j as int).map_values(|l: Seq<char>| without_cr(l)),
        decreases lines@.len() - j,
    {
        let ghost before = views(out@);
        let line = strip_cr(lines[j].as_str());
        assert(views(lines@)[j as int] == lines@[j as int]@);
        out.push(line);
        assert(views(out@) =~= before.push(without_cr(split_lines(content@)[j as int])));
        j = j + 1;
        assert(views(out@) =~= split_lines(content@).subrange(0, j as int).map_values(|l: Seq<char>| without_cr(l)));
    }
    assert(split_lines(content@).subrange(0, lines@.len() as int) =~= split_lines(content@));
    out
}

fn strip_cr(line: &str) -> (r: String)
    ensures
        r@ == without_cr(line@),
{
    let cs = chars_of(line);
    let n = cs.len();
    if n > 0 && cs[n - 1] == '\r' {
        string_of(&cs, 0, n - 1)
    } else {
        string_of(&cs, 0, n)
    }
}

fn push_repeat(out: &mut String, c: char, n: usize)
    ensures
        final(out)@ == old(out)@ + repeat(c, n as nat),
{
    let ghost start = out@;
    let mut k: usize = 0;
    while k < n
        invariant
            k <= n,
            out@ == start + repeat(c, k as nat),
        decreases n - k,
    {
        out.push(c);
        k = k + 1;
        assert(out@ =~= start + repeat(c, k as nat));
    }
}

/// The excerpt of `content` under a diagnostic for `span`.
pub fn render_excerpt(span: &Span, content: &str) -> (r: Option<String>)
    ensures
        match r {
            Some(s) => excerpt(*span, source_lines(content@)) == Some(s@),
            None => excerpt(*span, source_lines(content@)) is None,
        },
{
    let lines = lines_of(content);
    let sl = span.start_position.0;
    let sc = span.start_position.1;
    let el = span.end_position.0;
    let ec = span.end_position.1;
    if sl < 1 || sl > lines.len() || el < sl || el > lines.len() || sc < 1 {
        return None;
    }
    let ghost ls = views(lines@);
    let first = &lines[sl - 1];
    let mut out = String::from_str("| ");
    out.append(first.as_str());
    out.push('\n');
    assert(out@ =~= "| "@ + ls[sl - 1] + seq!['\n']);
    if sl == el {
        if ec < sc {
            return None;
        }
        out.append("| ");
        push_repeat(&mut out, ' ', sc - 1);
        push_repeat(&mut out, '^', ec - sc);
        out.push('\n');
        assert(out@ =~= excerpt(*span, ls)->0);
        Some(out)
    } else {
        let first_len = first.as_str().unicode_len();
        if sc - 1 > first_len {
            return None;
        }
        out.append("| ");
        push_repeat(&mut out, ' ', sc - 1);
        push_repeat(&mut out, '^', first_len - (sc - 1));
        out.push('\n');
        if sl + 1 != el {
            out.append("| ...\n");
        }
        out.append("| ");
        out.append(lines[el - 1].as_str());
        out.push('\n');
        out.append("| ");
        push_repeat(&mut out, '^', ec);
        out.push('\n');
        assert(out@ =~= excerpt(*span, ls)->0);
        Some(out)
    }
}

/// Where a diagnostic is: `path:line:col - line:col`.
pub fn render_location(path: &str, span: &Span) -> (r: String)
    ensures
        r@ == location(path@, *span),
{
    let mut out = String::from_str(path);
    out.push(':');
    push_decimal(&mut out, span.start_position.0 as u64);
    out.push(':');
    push_decimal(&mut out, span.start_position.1 as u64);
    out.append(" - ");
    push_decimal(&mut out, span.end_position.0 as u64);
    out.push(':');
    push_decimal(&mut out, span.end_position.1 as u64);
    assert(out@ =~= location(path@, *span));
    out
}

/// The title of a diagnostic: `Warning` or `Error`.
pub fn title<T: DiagnosticsLog>(log: &T) -> (r: &'static str)
    ensures
        r@ == (if log.spec_is_warning() { "Warning"@ } else { "Error"@ }),
{
    if log.is_warning() {
        "Warning"
    } else {
        "Error"
    }
}

/// The whole text of a diagnostic: the title and location, the excerpt, and
/// the message. `None` where the span does not fit the source text.
pub fn render_log<T: DiagnosticsLog>(log: &T, shown: &str, content: &str) -> (r: Option<String>)
    ensures
        match excerpt(log.spec_record().span, source_lines(content@)) {
            Some(code) => r matches Some(s) && s@ == (if log.spec_is_warning() {
                "Warning"@
            } else {
                "Error"@
            }) + ": "@ + location(shown@, log.spec_record().span) + seq!['\n'] + code
                + log.spec_record().message,
            None => r is None,
        },
{
    match render_excerpt(log.span(), content) {
        None => None,
        Some(code) => {
            let mut out = String::from_str(title(log));
            out.append(": ");
            let loc = render_location(shown, log.span());
            out.append(loc.as_str());
            out.push('\n');
            out.append(code.as_str());
            out.append(log.message());
            Some(out)
        },
    }
}

} // verus!
