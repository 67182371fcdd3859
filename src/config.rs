use vstd::prelude::*;
use vstd::string::StrSliceExecFns;

verus! {

/// Generations to run, unless configured otherwise.
pub const DEFAULT_NUM_BATCHES: usize = 10;

/// Population size per generation, unless configured otherwise.
pub const DEFAULT_NUM_AGENTS: usize = 36;

/// Survivors kept from each generation, unless configured otherwise.
pub const DEFAULT_NUM_AGENTS_RETAINED: usize = 10;

/// Children bred from each survivor, unless configured otherwise.
pub const DEFAULT_NUM_CHILDREN_PER_RETAINED_AGENT: usize = 2;

/// Matches played per generation, unless configured otherwise.
pub const DEFAULT_NUM_MATCHES: usize = 108;

/// Search depth of generated agents, unless configured otherwise.
pub const DEFAULT_AGENT_DEPTH: usize = 4;

/// The integer settings of a tuning run, built once at start-up and passed to the tuner.
#[derive(Clone, Copy, Debug, PartialEq, Eq)]
pub struct Config {
    pub num_batches: usize,
    pub num_agents: usize,
    pub num_agents_retained: usize,
    pub num_children_per_retained_agent: usize,
    pub num_matches: usize,
    pub agent_depth: usize,
}

/// A configured value: the number that `raw` holds where it holds one, else `default`.
pub open spec fn setting_value(raw: Option<Seq<char>>, default: usize) -> usize {
    match raw {
        Some(t) => match usize_of(t) {
            Some(v) => v,
            None => default,
        },
        None => default,
    }
}

/// The view of an optional text setting.
pub open spec fn raw_view(raw: Option<&str>) -> Option<Seq<char>> {
    match raw {
        Some(t) => Some(t@),
        None => None,
    }
}

/// Reads one integer setting: an absent or malformed value falls back to `default`.
pub fn setting_or(raw: Option<&str>, default: usize) -> (r: usize)
    ensures
        r == setting_value(raw_view(raw), default),
{
    match raw {
        Some(t) => match parse_usize(t) {
            Some(v) => v,
            None => default,
        },
        None => default,
    }
}

impl Config {
    /// The settings with every key at its documented default.
    pub fn defaults() -> (r: Config)
        ensures
            r.num_batches == DEFAULT_NUM_BATCHES,
            r.num_agents == DEFAULT_NUM_AGENTS,
            r.num_agents_retained == DEFAULT_NUM_AGENTS_RETAINED,
            r.num_children_per_retained_agent == DEFAULT_NUM_CHILDREN_PER_RETAINED_AGENT,
            r.num_matches == DEFAULT_NUM_MATCHES,
            r.agent_depth == DEFAULT_AGENT_DEPTH,
    {
        Config {
            num_batches: DEFAULT_NUM_BATCHES,
            num_agents: DEFAULT_NUM_AGENTS,
            num_agents_retained: DEFAULT_NUM_AGENTS_RETAINED,
            num_children_per_retained_agent: DEFAULT_NUM_CHILDREN_PER_RETAINED_AGENT,
            num_matches: DEFAULT_NUM_MATCHES,
            agent_depth: DEFAULT_AGENT_DEPTH,
        }
    }

    /// Builds the settings from the raw text of each key, in the order of the fields;
    /// each absent or malformed value falls back to its default.
    pub fn from_raw(
        num_batches: Option<&str>,
        num_agents: Option<&str>,
        num_agents_retained: Option<&str>,
        num_children_per_retained_agent: Option<&str>,
        num_matches: Option<&str>,
        agent_depth: Option<&str>,
    ) -> (r: Config)
        ensures
            r.num_batches == setting_value(raw_view(num_batches), DEFAULT_NUM_BATCHES),
            r.num_agents == setting_value(raw_view(num_agents), DEFAULT_NUM_AGENTS),
            r.num_agents_retained == setting_value(
                raw_view(num_agents_retained),
                DEFAULT_NUM_AGENTS_RETAINED,
            ),
            r.num_children_per_retained_agent == setting_value(
                raw_view(num_children_per_retained_agent),
                DEFAULT_NUM_CHILDREN_PER_RETAINED_AGENT,
            ),
            r.num_matches == setting_value(raw_view(num_matches), DEFAULT_NUM_MATCHES),
            r.agent_depth == setting_value(raw_view(agent_depth), DEFAULT_AGENT_DEPTH),
    {
        Config {
            num_batches: setting_or(num_batches, DEFAULT_NUM_BATCHES),
            num_agents: setting_or(num_agents, DEFAULT_NUM_AGENTS),
            num_agents_retained: setting_or(num_agents_retained, DEFAULT_NUM_AGENTS_RETAINED),
            num_children_per_retained_agent: setting_or(
                num_children_per_retained_agent,
                DEFAULT_NUM_CHILDREN_PER_RETAINED_AGENT,
            ),
            num_matches: setting_or(num_matches, DEFAULT_NUM_MATCHES),
            agent_depth: setting_or(agent_depth, DEFAULT_AGENT_DEPTH),
        }
    }
}

/// Is `c` an ASCII decimal digit?
pub open spec fn is_digit(c: char) -> bool {
    '0' <= c && c <= '9'
}

/// The value of an ASCII decimal digit.
pub open spec fn digit_value(c: char) -> nat {
    (c as nat - '0' as nat) as nat
}

/// The value of a non-empty run of decimal digits, most significant first.
pub open spec fn digits_value(s: Seq<char>) -> nat
    decreases s.len(),
{
    if s.len() == 0 {
        0
    } else {
        digits_value(s.drop_last()) * 10 + digit_value(s.last())
    }
}

/// All characters of `s` are decimal digits.
pub open spec fn all_digits(s: Seq<char>) -> bool {
    forall|i: int| 0 <= i < s.len() ==> is_digit(#[trigger] s[i])
}

/// The digits of an unsigned decimal literal: an optional leading `+`, then the rest.
pub open spec fn unsigned_digits(s: Seq<char>) -> Seq<char> {
    if s.len() > 0 && s[0] == '+' {
        s.drop_first()
    } else {
        s
    }
}

/// `s` is an unsigned decimal literal: an optional `+` and at least one digit.
pub open spec fn is_unsigned_literal(s: Seq<char>) -> bool {
    unsigned_digits(s).len() > 0 && all_digits(unsigned_digits(s))
}

/// The number that `s` denotes as a `usize`, if it is a literal whose value fits.
pub open spec fn usize_of(s: Seq<char>) -> Option<usize> {
    if is_unsigned_literal(s) && digits_value(unsigned_digits(s)) <= usize::MAX {
        Some(digits_value(unsigned_digits(s)) as usize)
    } else {
        None
    }
}

/// Parses an unsigned decimal number, with an optional leading `+`; `None` where the
/// text is not such a number or its value does not fit in a `usize`.
pub fn parse_usize(s: &str) -> (r: Option<usize>)
    ensures
        r == usize_of(s@),
{
    let n = s.unicode_len();
    let mut i: usize = 0;
    if n > 0 && s.get_char(0) == '+' {
        i = 1;
    }
    let start = i;
    if start == n {
        return None;
    }
    let ghost digits = unsigned_digits(s@);
    assert(digits =~= s@.subrange(start as int, n as int));
    let mut acc: usize = 0;
    while i < n
        invariant
            start <= i <= n,
            n == s@.len(),
            digits == unsigned_digits(s@),
            digits =~= s@.subrange(start as int, n as int),
            all_digits(s@.subrange(start as int, i as int)),
            acc as nat == digits_value(s@.subrange(start as int, i as int)),
        decreases n - i,
    {
        let c = s.get_char(i);
        if c < '0' || c > '9' {
            assert(!all_digits(digits)) by {
                assert(digits[(i - start) as int] == c);
            }
            return None;
        }
        let d = (c as u32 - '0' as u32) as usize;
        assert(s@.subrange(start as int, i + 1).drop_last() =~= s@.subrange(start as int, i as int));
        if acc > (usize::MAX - d) / 10 {
            proof {
                assert(acc * 10 + d > usize::MAX) by (nonlinear_arith)
                    requires
                        acc > (usize::MAX - d) / 10,
                        d <= 9,
                ;
                assert(s@.subrange(start as int, i + 1) =~= digits.subrange(0, (i - start) + 1));
                lemma_digits_prefix_bound(digits, (i - start) as nat + 1);
            }
            return None;
        }
        acc = acc * 10 + d;
        i = i + 1;
    }
    assert(s@.subrange(start as int, n as int) =~= digits);
    Some(acc)
}

/// The value of a run of digits is at least the value of any of its prefixes.
proof fn lemma_digits_prefix_bound(s: Seq<char>, k: nat)
    requires
        k <= s.len(),
    ensures
        digits_value(s.subrange(0, k as int)) <= digits_value(s),
    decreases s.len() - k,
{
    if k < s.len() {
        lemma_digits_prefix_bound(s, k + 1);
        assert(s.subrange(0, k + 1 as int).drop_last() =~= s.subrange(0, k as int));
    } else {
        assert(s.subrange(0, k as int) =~= s);
    }
}

} // verus!
