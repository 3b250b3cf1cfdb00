use vstd::prelude::*;

verus! {

/// One end of an address range: a fixed message ordinal, a numbered
/// moment marker, or a search query.
#[derive(Debug, Clone, PartialEq)]
pub enum Endpoint {
    Fixed(usize),
    Moment(usize),
    Search(String),
}

/// An address range prefixed to a command: a single position, a
/// two-sided range, or a since-position-to-present range.
#[derive(Debug, Clone, PartialEq)]
pub enum Range {
    Single(Endpoint),
    DoubledEnded(Endpoint, Endpoint),
    PastToPresent(Endpoint),
}

/// Mathematical counterpart of `Endpoint`.
pub enum SpecEndpoint {
    Fixed(int),
    Moment(int),
    Search(Seq<char>),
}

/// Mathematical counterpart of `Range`.
pub enum SpecRange {
    Single(SpecEndpoint),
    DoubledEnded(SpecEndpoint, SpecEndpoint),
    PastToPresent(SpecEndpoint),
}

pub open spec fn endpoint_view(e: Endpoint) -> SpecEndpoint {
    match e {
        Endpoint::Fixed(n) => SpecEndpoint::Fixed(n as int),
        Endpoint::Moment(n) => SpecEndpoint::Moment(n as int),
        Endpoint::Search(s) => SpecEndpoint::Search(s@),
    }
}

pub open spec fn range_view(r: Range) -> SpecRange {
    match r {
        Range::Single(e) => SpecRange::Single(endpoint_view(e)),
        Range::DoubledEnded(a, b) => SpecRange::DoubledEnded(endpoint_view(a), endpoint_view(b)),
        Range::PastToPresent(e) => SpecRange::PastToPresent(endpoint_view(e)),
    }
}

pub open spec fn opt_range_view(r: Option<Range>) -> Option<SpecRange> {
    match r {
        Some(rng) => Some(range_view(rng)),
        None => None,
    }
}

pub open spec fn is_digit(c: char) -> bool {
    '0' <= c && c <= '9'
}

/// The first index at or after `p` holding a non-digit, or the length
/// of the string when digits run to its end.
pub open spec fn digit_run_end(s: Seq<char>, p: int) -> int
    decreases s.len() - p,
{
    if p < 0 || p >= s.len() {
        s.len() as int
    } else if is_digit(s[p]) {
        digit_run_end(s, p + 1)
    } else {
        p
    }
}

/// The value of the decimal digits `s[p..e]`.
pub open spec fn digits_value(s: Seq<char>, p: int, e: int) -> int
    decreases e - p,
{
    if e <= p {
        0
    } else {
        digits_value(s, p, e - 1) * 10 + (s[e - 1] as u32 - '0' as u32)
    }
}

/// A decimal number at `p`: one or more digits, read greedily, whose
/// value fits a `usize`. Yields the value and the position after it.
pub open spec fn spec_number(s: Seq<char>, p: int) -> Option<(int, int)> {
    let e = digit_run_end(s, p);
    if e > p && digits_value(s, p, e) <= usize::MAX as int {
        Some((digits_value(s, p, e), e))
    } else {
        None
    }
}

/// The first index at or after `from` holding `c`, if any.
pub open spec fn find_char(s: Seq<char>, from: int, c: char) -> Option<int>
    decreases s.len() - from,
{
    if from < 0 || from >= s.len() {
        None
    } else if s[from] == c {
        Some(from)
    } else {
        find_char(s, from + 1, c)
    }
}

/// An endpoint at `p`: a fixed number, `#` then a moment number, or a
/// `/`-delimited search query. Yields it and the position after it.
pub open spec fn spec_endpoint(s: Seq<char>, p: int) -> Option<(SpecEndpoint, int)> {
    if 0 <= p < s.len() && is_digit(s[p]) {
        match spec_number(s, p) {
            Some((v, e)) => Some((SpecEndpoint::Fixed(v), e)),
            None => None,
        }
    } else if 0 <= p < s.len() && s[p] == '#' {
        match spec_number(s, p + 1) {
            Some((v, e)) => Some((SpecEndpoint::Moment(v), e)),
            None => None,
        }
    } else if 0 <= p < s.len() && s[p] == '/' {
        match find_char(s, p + 1, '/') {
            Some(q) => Some((SpecEndpoint::Search(s.subrange(p + 1, q)), q + 1)),
            None => None,
        }
    } else {
        None
    }
}

/// A range at `p`: an endpoint, optionally followed by a comma and, for
/// a two-sided range, a second endpoint.
pub open spec fn spec_range(s: Seq<char>, p: int) -> Option<(SpecRange, int)> {
    match spec_endpoint(s, p) {
        None => None,
        Some((e1, q)) => if 0 <= q < s.len() && s[q] == ',' {
            match spec_endpoint(s, q + 1) {
                Some((e2, r)) => Some((SpecRange::DoubledEnded(e1, e2), r)),
                None => Some((SpecRange::PastToPresent(e1), q + 1)),
            }
        } else {
            Some((SpecRange::Single(e1), q))
        },
    }
}

/// A whole command line: an optional leading address range, then the
/// rest of the line as the command body. A malformed leading range is
/// rejected as a whole, leaving the full line as the body.
pub open spec fn spec_command(s: Seq<char>) -> (Option<SpecRange>, Seq<char>) {
    match spec_range(s, 0) {
        Some((r, p)) => (Some(r), s.subrange(p, s.len() as int)),
        None => (None, s),
    }
}

/// Appending further digits never shrinks the value of a digit run.
pub(crate) proof fn lemma_digits_value_grows(s: Seq<char>, p: int, e1: int, e2: int)
    requires
        p <= e1 <= e2,
        forall|k: int| p <= k < e2 ==> is_digit(#[trigger] s[k]),
    ensures
        digits_value(s, p, e2) >= digits_value(s, p, e1),
    decreases e2 - e1,
{
    if e2 > e1 {
        lemma_digits_value_grows(s, p, e1, e2 - 1);
        lemma_digits_value_nonneg(s, p, e2 - 1);
        assert(is_digit(s[e2 - 1]));
        assert(digits_value(s, p, e2) == digits_value(s, p, e2 - 1) * 10 + (s[e2 - 1] as u32
            - '0' as u32));
        assert(digits_value(s, p, e2 - 1) * 10 >= digits_value(s, p, e2 - 1)) by (nonlinear_arith)
            requires digits_value(s, p, e2 - 1) >= 0;
    }
}

/// The value of a run of digits is never negative.
pub(crate) proof fn lemma_digits_value_nonneg(s: Seq<char>, p: int, e: int)
    requires
        forall|k: int| p <= k < e ==> is_digit(#[trigger] s[k]),
    ensures
        digits_value(s, p, e) >= 0,
    decreases e - p,
{
    if e > p {
        lemma_digits_value_nonneg(s, p, e - 1);
        assert(is_digit(s[e - 1]));
        assert(digits_value(s, p, e - 1) * 10 >= 0) by (nonlinear_arith)
            requires digits_value(s, p, e - 1) >= 0;
    }
}

/// Every position of a digit run up to its end holds a digit, and the
/// end stays within the string.
proof fn lemma_digit_run_props(s: Seq<char>, p: int)
    requires
        0 <= p <= s.len(),
    ensures
        p <= digit_run_end(s, p) <= s.len(),
        forall|k: int| p <= k < digit_run_end(s, p) ==> is_digit(#[trigger] s[k]),
    decreases s.len() - p,
{
    if p < s.len() && is_digit(s[p]) {
        lemma_digit_run_props(s, p + 1);
    }
}

/// Parses a decimal number at char position `from`, greedily.
pub fn number(s: &str, from: usize) -> (r: Option<(usize, usize)>)
    requires
        from <= s@.len(),
    ensures
        match r {
            Some((v, e)) => {
                &&& spec_number(s@, from as int) == Some((v as int, e as int))
                &&& e <= s@.len()
            },
            None => spec_number(s@, from as int) is None,
        },
{
    let n = s.unicode_len();
    let mut e: usize = from;
    let mut acc: usize = 0;
    while e < n
        invariant
            from <= e <= n,
            n == s@.len(),
            acc == digits_value(s@, from as int, e as int),
            digit_run_end(s@, from as int) == digit_run_end(s@, e as int),
            forall|k: int| from as int <= k < e as int ==> is_digit(#[trigger] s@[k]),
        ensures
            from <= e <= n,
            acc == digits_value(s@, from as int, e as int),
            digit_run_end(s@, from as int) == e as int,
            forall|k: int| from as int <= k < e as int ==> is_digit(#[trigger] s@[k]),
        decreases n - e,
    {
        let c = s.get_char(e);
        if !('0' <= c && c <= '9') {
            proof {
                assert(digit_run_end(s@, e as int) == e as int);
            }
            break;
        }
        let d = (c as u32 - '0' as u32) as usize;
        if acc > (usize::MAX - d) / 10 {
            // The digits overflow the machine word; the whole number is
            // rejected, exactly as a failed conversion of the digit run.
            proof {
                let ghost re = digit_run_end(s@, from as int);
                assert(acc * 10 + d > usize::MAX as int) by (nonlinear_arith)
                    requires
                        acc > (usize::MAX as int - d) / 10,
                        0 <= d <= 9,
                        acc >= 0,
                ;
                assert(is_digit(s@[e as int]));
                assert(digits_value(s@, from as int, e as int + 1) == acc * 10 + d);
                lemma_digit_run_props(s@, e as int + 1);
                assert(digit_run_end(s@, e as int) == digit_run_end(s@, e as int + 1));
                assert(digit_run_end(s@, e as int) >= e as int + 1);
                lemma_digit_run_props(s@, from as int);
                lemma_digits_value_grows(s@, from as int, e as int + 1, re);
                assert(digits_value(s@, from as int, re) > usize::MAX as int);
            }
            return None;
        }
        proof {
            assert(acc * 10 + d <= usize::MAX as int) by (nonlinear_arith)
                requires
                    acc <= (usize::MAX as int - d) / 10,
                    0 <= d <= 9,
                    acc >= 0,
            ;
        }
        acc = acc * 10 + d;
        e = e + 1;
    }
    if e == from {
        None
    } else {
        Some((acc, e))
    }
}

/// Parses one range endpoint at char position `p`.
pub fn endpoint(s: &str, p: usize) -> (r: Option<(Endpoint, usize)>)
    requires
        p <= s@.len(),
    ensures
        match r {
            Some((e, np)) => {
                &&& spec_endpoint(s@, p as int) == Some((endpoint_view(e), np as int))
                &&& np <= s@.len()
            },
            None => spec_endpoint(s@, p as int) is None,
        },
{
    let n = s.unicode_len();
    if p >= n {
        return None;
    }
    let c = s.get_char(p);
    if '0' <= c && c <= '9' {
        match number(s, p) {
            Some((v, e)) => Some((Endpoint::Fixed(v), e)),
            None => None,
        }
    } else if c == '#' {
        match number(s, p + 1) {
            Some((v, e)) => Some((Endpoint::Moment(v), e)),
            None => None,
        }
    } else if c == '/' {
        // Scan for the closing slash.
        let mut q: usize = p + 1;
        while q < n && s.get_char(q) != '/'
            invariant
                p + 1 <= q <= n,
                n == s@.len(),
                find_char(s@, p as int + 1, '/') == find_char(s@, q as int, '/'),
            decreases n - q,
        {
            q = q + 1;
        }
        if q < n {
            let query = s.substring_char(p + 1, q).to_owned();
            Some((Endpoint::Search(query), q + 1))
        } else {
            None
        }
    } else {
        None
    }
}

/// Parses an address range at char position `p`.
pub fn range(s: &str, p: usize) -> (r: Option<(Range, usize)>)
    requires
        p <= s@.len(),
    ensures
        match r {
            Some((rng, np)) => {
                &&& spec_range(s@, p as int) == Some((range_view(rng), np as int))
                &&& np <= s@.len()
            },
            None => spec_range(s@, p as int) is None,
        },
{
    let n = s.unicode_len();
    match endpoint(s, p) {
        None => None,
        Some((e1, q)) => {
            if q < n && s.get_char(q) == ',' {
                match endpoint(s, q + 1) {
                    Some((e2, r)) => Some((Range::DoubledEnded(e1, e2), r)),
                    None => Some((Range::PastToPresent(e1), q + 1)),
                }
            } else {
                Some((Range::Single(e1), q))
            }
        },
    }
}

/// Splits a command line into its optional leading address range and
/// the command body that follows it. A line whose head is not a
/// well-formed range is handed back whole as the body.
pub fn command<'a>(s: &'a str) -> (r: (Option<Range>, &'a str))
    ensures
        opt_range_view(r.0) == spec_command(s@).0,
        r.1@ == spec_command(s@).1,
{
    let n = s.unicode_len();
    match range(s, 0) {
        Some((rng, p)) => {
            let rest = s.substring_char(p, n);
            (Some(rng), rest)
        },
        None => {
            proof {
                assert(s@.subrange(0, s@.len() as int) =~= s@);
            }
            (None, s)
        },
    }
}

} // verus!
