use vstd::prelude::*;
use crate::cmd_parsing::find_char;

verus! {

/// One styled span of message text.
#[derive(Debug, Clone, PartialEq)]
pub enum Style {
    Text(String),
    Code(String),
    Bold(String),
    Italic(String),
    BoldItalics(String),
    Underline(String),
    UnderlineBold(String),
    UnderlineItalics(String),
    UnderlineBoldItalics(String),
    Strikethrough(String),
}

/// Mathematical counterpart of `Style`.
pub enum SpecStyle {
    Text(Seq<char>),
    Code(Seq<char>),
    Bold(Seq<char>),
    Italic(Seq<char>),
    BoldItalics(Seq<char>),
    Underline(Seq<char>),
    UnderlineBold(Seq<char>),
    UnderlineItalics(Seq<char>),
    UnderlineBoldItalics(Seq<char>),
    Strikethrough(Seq<char>),
}

pub open spec fn style_view(st: Style) -> SpecStyle {
    match st {
        Style::Text(t) => SpecStyle::Text(t@),
        Style::Code(t) => SpecStyle::Code(t@),
        Style::Bold(t) => SpecStyle::Bold(t@),
        Style::Italic(t) => SpecStyle::Italic(t@),
        Style::BoldItalics(t) => SpecStyle::BoldItalics(t@),
        Style::Underline(t) => SpecStyle::Underline(t@),
        Style::UnderlineBold(t) => SpecStyle::UnderlineBold(t@),
        Style::UnderlineItalics(t) => SpecStyle::UnderlineItalics(t@),
        Style::UnderlineBoldItalics(t) => SpecStyle::UnderlineBoldItalics(t@),
        Style::Strikethrough(t) => SpecStyle::Strikethrough(t@),
    }
}

pub open spec fn styles_view(v: Seq<Style>) -> Seq<SpecStyle> {
    v.map_values(|st: Style| style_view(st))
}

/// The first index at or after `from` where the two-character delimiter
/// `c0 c1` occurs, if any.
pub open spec fn find2(s: Seq<char>, from: int, c0: char, c1: char) -> Option<int>
    decreases s.len() - from,
{
    if from < 0 || from + 2 > s.len() {
        None
    } else if s[from] == c0 && s[from + 1] == c1 {
        Some(from)
    } else {
        find2(s, from + 1, c0, c1)
    }
}

/// A span delimited by the two-character delimiter `c0 c1` on both
/// sides, starting at `p`: its content and the position after it.
pub open spec fn spec_delim2(s: Seq<char>, p: int, c0: char, c1: char) -> Option<(Seq<char>, int)> {
    if 0 <= p && p + 2 <= s.len() && s[p] == c0 && s[p + 1] == c1 {
        match find2(s, p + 2, c0, c1) {
            Some(q) => Some((s.subrange(p + 2, q), q + 2)),
            None => None,
        }
    } else {
        None
    }
}

/// A span delimited by the single character `c` on both sides.
pub open spec fn spec_delim1(s: Seq<char>, p: int, c: char) -> Option<(Seq<char>, int)> {
    if 0 <= p && p + 1 <= s.len() && s[p] == c {
        match find_char(s, p + 1, c) {
            Some(q) => Some((s.subrange(p + 1, q), q + 1)),
            None => None,
        }
    } else {
        None
    }
}

/// A styled span at `p`, trying bold, underline, italic (star first,
/// then underscore), strikethrough and inline code, in that order.
pub open spec fn spec_styled(s: Seq<char>, p: int) -> Option<(SpecStyle, int)> {
    match spec_delim2(s, p, '*', '*') {
        Some((t, np)) => Some((SpecStyle::Bold(t), np)),
        None => match spec_delim2(s, p, '_', '_') {
            Some((t, np)) => Some((SpecStyle::Underline(t), np)),
            None => match spec_delim1(s, p, '*') {
                Some((t, np)) => Some((SpecStyle::Italic(t), np)),
                None => match spec_delim1(s, p, '_') {
                    Some((t, np)) => Some((SpecStyle::Italic(t), np)),
                    None => match spec_delim2(s, p, '~', '~') {
                        Some((t, np)) => Some((SpecStyle::Strikethrough(t), np)),
                        None => match spec_delim1(s, p, '`') {
                            Some((t, np)) => Some((SpecStyle::Code(t), np)),
                            None => None,
                        },
                    },
                },
            },
        },
    }
}

/// The end of a plain-text run that started just before `q`: the first
/// position at or after `q` where a styled span begins, or the end of
/// the string.
pub open spec fn scan_text_end(s: Seq<char>, q: int) -> int
    decreases s.len() - q,
{
    if q < 0 || q >= s.len() {
        s.len() as int
    } else if spec_styled(s, q) is Some {
        q
    } else {
        scan_text_end(s, q + 1)
    }
}

pub(crate) proof fn lemma_find_char_bounds(s: Seq<char>, from: int, c: char)
    ensures
        match find_char(s, from, c) {
            Some(q) => from <= q < s.len(),
            None => true,
        },
    decreases s.len() - from,
{
    if 0 <= from && from < s.len() && s[from] != c {
        lemma_find_char_bounds(s, from + 1, c);
    }
}

proof fn lemma_find2_bounds(s: Seq<char>, from: int, c0: char, c1: char)
    ensures
        match find2(s, from, c0, c1) {
            Some(q) => from <= q && q + 2 <= s.len(),
            None => true,
        },
    decreases s.len() - from,
{
    if 0 <= from && from + 2 <= s.len() && !(s[from] == c0 && s[from + 1] == c1) {
        lemma_find2_bounds(s, from + 1, c0, c1);
    }
}

/// A styled span begins at its own position, consumes at least two
/// characters, and ends within the string.
pub proof fn lemma_styled_bounds(s: Seq<char>, p: int)
    ensures
        match spec_styled(s, p) {
            Some((t, np)) => p + 2 <= np <= s.len(),
            None => true,
        },
{
    lemma_find2_bounds(s, p + 2, '*', '*');
    lemma_find2_bounds(s, p + 2, '_', '_');
    lemma_find2_bounds(s, p + 2, '~', '~');
    lemma_find_char_bounds(s, p + 1, '*');
    lemma_find_char_bounds(s, p + 1, '_');
    lemma_find_char_bounds(s, p + 1, '`');
}

proof fn lemma_scan_text_end_bounds(s: Seq<char>, q: int)
    requires
        0 <= q <= s.len(),
    ensures
        q <= scan_text_end(s, q) <= s.len(),
    decreases s.len() - q,
{
    if q < s.len() && !(spec_styled(s, q) is Some) {
        lemma_scan_text_end_bounds(s, q + 1);
    }
}

/// The sequence of styled spans of a message, from `p` to its end:
/// either a styled span begins at `p`, or a plain-text run extends to
/// the next styled span or the end of the string.
pub open spec fn spec_tokens(s: Seq<char>, p: int) -> Seq<SpecStyle>
    decreases s.len() - p,
    when 0 <= p <= s.len()
    via spec_tokens_decreases
{
    if p >= s.len() {
        Seq::empty()
    } else {
        match spec_styled(s, p) {
            Some((tok, np)) => seq![tok] + spec_tokens(s, np),
            None => {
                let q = scan_text_end(s, p + 1);
                seq![SpecStyle::Text(s.subrange(p, q))] + spec_tokens(s, q)
            },
        }
    }
}

#[via_fn]
proof fn spec_tokens_decreases(s: Seq<char>, p: int) {
    lemma_styled_bounds(s, p);
    if 0 <= p < s.len() {
        lemma_scan_text_end_bounds(s, p + 1);
    }
}

/// Parses a span wrapped in the two-character delimiter `c0 c1`.
fn delim2(s: &str, p: usize, c0: char, c1: char) -> (r: Option<(String, usize)>)
    requires
        p <= s@.len(),
    ensures
        match r {
            Some((t, np)) => {
                &&& spec_delim2(s@, p as int, c0, c1) == Some((t@, np as int))
                &&& p + 2 <= np <= s@.len()
            },
            None => spec_delim2(s@, p as int, c0, c1) is None,
        },
{
    let n = s.unicode_len();
    if p < n && p + 1 < n && s.get_char(p) == c0 && s.get_char(p + 1) == c1 {
        let mut q: usize = p + 2;
        while q < n && q + 1 < n && !(s.get_char(q) == c0 && s.get_char(q + 1) == c1)
            invariant
                p + 2 <= q <= n,
                n == s@.len(),
                find2(s@, p as int + 2, c0, c1) == find2(s@, q as int, c0, c1),
            decreases n - q,
        {
            q = q + 1;
        }
        if q < n && q + 1 < n {
            let t = s.substring_char(p + 2, q).to_owned();
            Some((t, q + 2))
        } else {
            proof {
                assert(find2(s@, q as int, c0, c1) is None);
            }
            None
        }
    } else {
        None
    }
}

/// Parses a span wrapped in the single-character delimiter `c`.
fn delim1(s: &str, p: usize, c: char) -> (r: Option<(String, usize)>)
    requires
        p <= s@.len(),
    ensures
        match r {
            Some((t, np)) => {
                &&& spec_delim1(s@, p as int, c) == Some((t@, np as int))
                &&& p + 2 <= np <= s@.len()
            },
            None => spec_delim1(s@, p as int, c) is None,
        },
{
    let n = s.unicode_len();
    if p < n && s.get_char(p) == c {
        let mut q: usize = p + 1;
        while q < n && s.get_char(q) != c
            invariant
                p + 1 <= q <= n,
                n == s@.len(),
                find_char(s@, p as int + 1, c) == find_char(s@, q as int, c),
            decreases n - q,
        {
            q = q + 1;
        }
        if q < n {
            let t = s.substring_char(p + 1, q).to_owned();
            Some((t, q + 1))
        } else {
            None
        }
    } else {
        None
    }
}

/// Parses a styled span at `p`, in the fixed order of the grammar.
pub fn styled(s: &str, p: usize) -> (r: Option<(Style, usize)>)
    requires
        p <= s@.len(),
    ensures
        match r {
            Some((tok, np)) => {
                &&& spec_styled(s@, p as int) == Some((style_view(tok), np as int))
                &&& p + 2 <= np <= s@.len()
            },
            None => spec_styled(s@, p as int) is None,
        },
{
    if let Some((t, np)) = delim2(s, p, '*', '*') {
        return Some((Style::Bold(t), np));
    }
    if let Some((t, np)) = delim2(s, p, '_', '_') {
        return Some((Style::Underline(t), np));
    }
    if let Some((t, np)) = delim1(s, p, '*') {
        return Some((Style::Italic(t), np));
    }
    if let Some((t, np)) = delim1(s, p, '_') {
        return Some((Style::Italic(t), np));
    }
    if let Some((t, np)) = delim2(s, p, '~', '~') {
        return Some((Style::Strikethrough(t), np));
    }
    if let Some((t, np)) = delim1(s, p, '`') {
        return Some((Style::Code(t), np));
    }
    None
}

/// Splits a message into its styled spans. Every message parses: a
/// text with no recognized styling is one plain-text span.
pub fn parse_msg(msg: &str) -> (r: Option<Vec<Style>>)
    ensures
        match r {
            Some(v) => styles_view(v@) == spec_tokens(msg@, 0),
            None => false,
        },
{
    let n = msg.unicode_len();
    let mut out: Vec<Style> = Vec::new();
    let mut p: usize = 0;
    while p < n
        invariant
            p <= n,
            n == msg@.len(),
            spec_tokens(msg@, 0) == styles_view(out@) + spec_tokens(msg@, p as int),
        decreases n - p,
    {
        let ghost out0 = out@;
        match styled(msg, p) {
            Some((tok, np)) => {
                proof {
                    assert(spec_tokens(msg@, p as int) == seq![style_view(tok)] + spec_tokens(
                        msg@,
                        np as int,
                    ));
                }
                out.push(tok);
                proof {
                    assert(styles_view(out@) =~= styles_view(out0) + seq![style_view(
                        out@[out@.len() - 1],
                    )]);
                    assert(styles_view(out@) + spec_tokens(msg@, np as int) =~= styles_view(out0)
                        + spec_tokens(msg@, p as int));
                }
                p = np;
            },
            None => {
                let mut q: usize = p + 1;
                while q < n
                    invariant
                        p + 1 <= q <= n,
                        n == msg@.len(),
                        scan_text_end(msg@, p as int + 1) == scan_text_end(msg@, q as int),
                    ensures
                        p + 1 <= q <= n,
                        scan_text_end(msg@, p as int + 1) == q as int,
                    decreases n - q,
                {
                    if styled(msg, q).is_some() {
                        proof {
                            assert(scan_text_end(msg@, q as int) == q as int);
                        }
                        break;
                    }
                    q = q + 1;
                }
                let t = msg.substring_char(p, q).to_owned();
                proof {
                    assert(spec_tokens(msg@, p as int) == seq![SpecStyle::Text(
                        msg@.subrange(p as int, q as int),
                    )] + spec_tokens(msg@, q as int));
                }
                out.push(Style::Text(t));
                proof {
                    assert(styles_view(out@) =~= styles_view(out0) + seq![style_view(
                        out@[out@.len() - 1],
                    )]);
                    assert(styles_view(out@) + spec_tokens(msg@, q as int) =~= styles_view(out0)
                        + spec_tokens(msg@, p as int));
                }
                p = q;
            },
        }
    }
    proof {
        assert(spec_tokens(msg@, p as int) =~= Seq::<SpecStyle>::empty());
        assert(styles_view(out@) + Seq::<SpecStyle>::empty() =~= styles_view(out@));
    }
    Some(out)
}

} // verus!
