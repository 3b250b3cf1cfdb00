use vstd::prelude::*;
use crate::cmd_parsing;
use crate::cmd_parsing::{digits_value, is_digit, spec_command};

verus! {

/// What a user command asks the application to do.
#[derive(Debug, Clone)]
pub enum CommandOutcome {
    /// Shut the whole application down.
    Quit,
    /// Set or clear the nickname on the given guild.
    EditNickname(u64, Option<String>),
    /// Switch to the given channel.
    SetChannel(u64),
    /// Toggle the guild sidebar.
    ToggleSidebar,
    /// Not a recognized command; nothing happens.
    Nothing,
}

/// Mathematical counterpart of `CommandOutcome`.
pub enum SpecCommandOutcome {
    Quit,
    EditNickname(u64, Option<Seq<char>>),
    SetChannel(u64),
    ToggleSidebar,
    Nothing,
}

pub open spec fn outcome_view(r: CommandOutcome) -> SpecCommandOutcome {
    match r {
        CommandOutcome::Quit => SpecCommandOutcome::Quit,
        CommandOutcome::EditNickname(g, n) => SpecCommandOutcome::EditNickname(
            g,
            match n {
                Some(s) => Some(s@),
                None => None,
            },
        ),
        CommandOutcome::SetChannel(c) => SpecCommandOutcome::SetChannel(c),
        CommandOutcome::ToggleSidebar => SpecCommandOutcome::ToggleSidebar,
        CommandOutcome::Nothing => SpecCommandOutcome::Nothing,
    }
}

/// Whether the character separates words, as the command grammar sees
/// it: the Unicode white-space characters.
pub open spec fn is_space(c: char) -> bool {
    ||| c == '\u{9}'
    ||| c == '\u{A}'
    ||| c == '\u{B}'
    ||| c == '\u{C}'
    ||| c == '\u{D}'
    ||| c == ' '
    ||| c == '\u{85}'
    ||| c == '\u{A0}'
    ||| c == '\u{1680}'
    ||| ('\u{2000}' <= c && c <= '\u{200A}')
    ||| c == '\u{2028}'
    ||| c == '\u{2029}'
    ||| c == '\u{202F}'
    ||| c == '\u{205F}'
    ||| c == '\u{3000}'
}

/// The first index at or after `p` holding a non-space, or the length.
pub open spec fn skip_spaces(s: Seq<char>, p: int) -> int
    decreases s.len() - p,
{
    if p < 0 || p >= s.len() {
        s.len() as int
    } else if is_space(s[p]) {
        skip_spaces(s, p + 1)
    } else {
        p
    }
}

/// The first index at or after `p` holding a space, or the length.
pub open spec fn word_end(s: Seq<char>, p: int) -> int
    decreases s.len() - p,
{
    if p < 0 || p >= s.len() {
        s.len() as int
    } else if is_space(s[p]) {
        p
    } else {
        word_end(s, p + 1)
    }
}

/// The next whitespace-separated word at or after `p`, and the
/// position right past it.
pub open spec fn spec_word_at(s: Seq<char>, p: int) -> Option<(Seq<char>, int)> {
    let q = skip_spaces(s, p);
    if q >= s.len() {
        None
    } else {
        Some((s.subrange(q, word_end(s, q)), word_end(s, q)))
    }
}

/// The digits of the word: what stands after an optional plus sign.
pub open spec fn spec_u64_body(w: Seq<char>) -> Seq<char> {
    if w.len() > 0 && w[0] == '+' {
        w.skip(1)
    } else {
        w
    }
}

/// Whether every character of the sequence is a decimal digit.
pub open spec fn all_digits(s: Seq<char>) -> bool {
    forall|k: int| 0 <= k < s.len() ==> is_digit(#[trigger] s[k])
}

/// The value the word denotes as an unsigned 64-bit number, if any:
/// an optional leading plus sign, then only digits, fitting the type.
pub open spec fn spec_parse_u64(w: Seq<char>) -> Option<u64> {
    let body = spec_u64_body(w);
    if body.len() > 0 && all_digits(body) && digits_value(body, 0, body.len() as int)
        <= u64::MAX as int {
        Some(digits_value(body, 0, body.len() as int) as u64)
    } else {
        None
    }
}

/// What a command line resolves to, given the active guild: the fixed
/// command table of the client.
pub open spec fn spec_execute(guild: Option<u64>, cmd: Seq<char>) -> SpecCommandOutcome {
    let body = spec_command(cmd).1;
    match spec_word_at(body, 0) {
        None => SpecCommandOutcome::Nothing,
        Some((w0, after0)) => {
            if w0 == "quit"@ || w0 == "q"@ {
                SpecCommandOutcome::Quit
            } else if w0 == "nick"@ {
                match (spec_word_at(body, after0), guild) {
                    (Some((w1, _)), Some(g)) => SpecCommandOutcome::EditNickname(g, Some(w1)),
                    _ => SpecCommandOutcome::Nothing,
                }
            } else if w0 == "clearnick"@ || w0 == "cnick"@ {
                match guild {
                    Some(g) => SpecCommandOutcome::EditNickname(g, None),
                    None => SpecCommandOutcome::Nothing,
                }
            } else if w0 == "setchannel"@ || w0 == "schan"@ {
                match spec_word_at(body, after0) {
                    Some((w1, _)) => match spec_parse_u64(w1) {
                        Some(id) => SpecCommandOutcome::SetChannel(id),
                        None => SpecCommandOutcome::Nothing,
                    },
                    None => SpecCommandOutcome::Nothing,
                }
            } else if w0 == "togglesidebar"@ || w0 == "tbar"@ {
                SpecCommandOutcome::ToggleSidebar
            } else {
                SpecCommandOutcome::Nothing
            }
        },
    }
}

/// Dispatches user commands against the fixed command table.
pub struct CommandHandler {}

impl CommandHandler {
    pub fn new() -> CommandHandler {
        CommandHandler {  }
    }

    /// Resolves a raw command line: strips the optional address range,
    /// splits off the command word, and looks it up in the table.
    pub fn execute(&self, current_guild: Option<u64>, cmd: &str) -> (r: CommandOutcome)
        ensures
            outcome_view(r) == spec_execute(current_guild, cmd@),
    {
        let (_range, body) = cmd_parsing::command(cmd);
        let w0 = match next_word(body, 0) {
            Some(w) => w,
            None => {
                return CommandOutcome::Nothing;
            },
        };
        if str_eq(w0.0.as_str(), "quit") || str_eq(w0.0.as_str(), "q") {
            CommandOutcome::Quit
        } else if str_eq(w0.0.as_str(), "nick") {
            match (next_word(body, w0.1), current_guild) {
                (Some(w1), Some(g)) => CommandOutcome::EditNickname(g, Some(w1.0)),
                _ => CommandOutcome::Nothing,
            }
        } else if str_eq(w0.0.as_str(), "clearnick") || str_eq(w0.0.as_str(), "cnick") {
            match current_guild {
                Some(g) => CommandOutcome::EditNickname(g, None),
                None => CommandOutcome::Nothing,
            }
        } else if str_eq(w0.0.as_str(), "setchannel") || str_eq(w0.0.as_str(), "schan") {
            match next_word(body, w0.1) {
                Some(w1) => match parse_u64(w1.0.as_str()) {
                    Some(id) => CommandOutcome::SetChannel(id),
                    None => CommandOutcome::Nothing,
                },
                None => CommandOutcome::Nothing,
            }
        } else if str_eq(w0.0.as_str(), "togglesidebar") || str_eq(w0.0.as_str(), "tbar") {
            CommandOutcome::ToggleSidebar
        } else {
            CommandOutcome::Nothing
        }
    }
}

/// Compares two strings character by character.
pub fn str_eq(a: &str, b: &str) -> (r: bool)
    ensures
        r == (a@ == b@),
{
    let na = a.unicode_len();
    let nb = b.unicode_len();
    if na != nb {
        proof {
            assert(a@ != b@);
        }
        return false;
    }
    let mut i: usize = 0;
    while i < na
        invariant
            i <= na,
            na == a@.len(),
            na == b@.len(),
            forall|k: int| 0 <= k < i ==> a@[k] == b@[k],
        decreases na - i,
    {
        if a.get_char(i) != b.get_char(i) {
            return false;
        }
        i = i + 1;
    }
    proof {
        assert(a@ =~= b@);
    }
    true
}

/// Finds the next whitespace-separated word at or after position `p`.
fn next_word(s: &str, p: usize) -> (r: Option<(String, usize)>)
    requires
        p <= s@.len(),
    ensures
        match r {
            Some((w, np)) => {
                &&& spec_word_at(s@, p as int) == Some((w@, np as int))
                &&& np <= s@.len()
            },
            None => spec_word_at(s@, p as int) is None,
        },
{
    let n = s.unicode_len();
    let mut q: usize = p;
    while q < n
        invariant
            p <= q <= n,
            n == s@.len(),
            skip_spaces(s@, p as int) == skip_spaces(s@, q as int),
        ensures
            p <= q <= n,
            skip_spaces(s@, p as int) == q as int,
        decreases n - q,
    {
        if !is_space_char(s.get_char(q)) {
            break;
        }
        q = q + 1;
    }
    if q >= n {
        return None;
    }
    let mut e: usize = q;
    while e < n
        invariant
            q <= e <= n,
            n == s@.len(),
            word_end(s@, q as int) == word_end(s@, e as int),
        ensures
            q <= e <= n,
            word_end(s@, q as int) == e as int,
        decreases n - e,
    {
        if is_space_char(s.get_char(e)) {
            break;
        }
        e = e + 1;
    }
    let w = s.substring_char(q, e).to_owned();
    Some((w, e))
}

/// Whether the character is Unicode white space.
fn is_space_char(c: char) -> (r: bool)
    ensures
        r == is_space(c),
{
    c == '\u{9}' || c == '\u{A}' || c == '\u{B}' || c == '\u{C}' || c == '\u{D}' || c == ' ' || c
        == '\u{85}' || c == '\u{A0}' || c == '\u{1680}' || ('\u{2000}' <= c && c <= '\u{200A}') || c
        == '\u{2028}' || c == '\u{2029}' || c == '\u{202F}' || c == '\u{205F}' || c == '\u{3000}'
}

/// Parses a whole word as an unsigned 64-bit number, as the standard
/// parser reads one: an optional plus sign, then only digits.
fn parse_u64(w: &str) -> (r: Option<u64>)
    ensures
        r == spec_parse_u64(w@),
{
    let n = w.unicode_len();
    let start: usize = if n > 0 && w.get_char(0) == '+' {
        1
    } else {
        0
    };
    let ghost body = spec_u64_body(w@);
    proof {
        assert(body =~= w@.subrange(start as int, n as int));
    }
    if n == start {
        return None;
    }
    let mut i: usize = start;
    let mut acc: u64 = 0;
    while i < n
        invariant
            start <= i <= n,
            n == w@.len(),
            body == spec_u64_body(w@),
            body == w@.subrange(start as int, n as int),
            body.len() == n - start,
            forall|k: int| 0 <= k < i - start ==> is_digit(#[trigger] body[k]),
            acc == digits_value(body, 0, i - start),
        decreases n - i,
    {
        let c = w.get_char(i);
        if !('0' <= c && c <= '9') {
            proof {
                assert(body[i - start] == c);
                assert(!is_digit(body[i - start]));
                assert(!all_digits(body));
                assert(spec_parse_u64(w@) is None);
            }
            return None;
        }
        let d = (c as u32 - '0' as u32) as u64;
        proof {
            assert(body[i - start] == c);
        }
        if acc > (u64::MAX - d) / 10 {
            proof {
                assert(acc * 10 + d > u64::MAX as int) by (nonlinear_arith)
                    requires
                        acc > (u64::MAX as int - d) / 10,
                        0 <= d <= 9,
                        acc >= 0,
                ;
                assert(digits_value(body, 0, i - start + 1) == acc * 10 + d);
                if all_digits(body) {
                    crate::cmd_parsing::lemma_digits_value_grows(
                        body,
                        0,
                        i - start + 1,
                        body.len() as int,
                    );
                    assert(digits_value(body, 0, body.len() as int) > u64::MAX as int);
                }
                assert(spec_parse_u64(w@) is None);
            }
            return None;
        }
        proof {
            assert(acc * 10 + d <= u64::MAX as int) by (nonlinear_arith)
                requires
                    acc <= (u64::MAX as int - d) / 10,
                    0 <= d <= 9,
                    acc >= 0,
            ;
        }
        acc = acc * 10 + d;
        i = i + 1;
    }
    proof {
        assert(all_digits(body));
    }
    Some(acc)
}

} // verus!
