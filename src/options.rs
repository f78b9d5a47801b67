use vstd::prelude::*;

verus! {

/// The run-time settings of one harness run, shared read-only by every role.
#[derive(Clone, Copy, Debug, PartialEq, Eq, Structural)]
pub struct Settings {
    /// Number of consumer workers per queue.
    pub consumers: usize,
    /// Workers acknowledge each delivery by hand.
    pub enable_ack: bool,
    /// Queues are declared durable.
    pub durable: bool,
    /// Largest number of unacknowledged deliveries per worker channel; 0 means no limit.
    pub prefetch_count: u16,
    /// Two queues fronted by a fan-out exchange instead of one queue.
    pub fanout: bool,
}

/// Which option could not be read.
#[derive(Clone, Copy, Debug, PartialEq, Eq, Structural)]
pub enum OptionError {
    Consumers,
    EnableAck,
    Durable,
    PrefetchCount,
    Fanout,
}

pub open spec fn default_settings() -> Settings {
    Settings { consumers: 1, enable_ack: false, durable: false, prefetch_count: 0, fanout: false }
}

impl Settings {
    /// One consumer, automatic acknowledgment, transient queues, no prefetch limit, no fan-out.
    pub fn defaults() -> (r: Settings)
        ensures
            r == default_settings(),
    {
        Settings { consumers: 1, enable_ack: false, durable: false, prefetch_count: 0, fanout: false }
    }
}

/// What a flag's text means: exactly `true` or `false`.
pub open spec fn flag_of(s: Seq<char>) -> Option<bool> {
    if s == seq!['t', 'r', 'u', 'e'] {
        Some(true)
    } else if s == seq!['f', 'a', 'l', 's', 'e'] {
        Some(false)
    } else {
        None
    }
}

pub open spec fn is_digit(c: char) -> bool {
    '0' <= c && c <= '9'
}

pub open spec fn digit_value(c: char) -> nat {
    (c as u32 - '0' as u32) as nat
}

pub open spec fn all_digits(s: Seq<char>) -> bool {
    forall|i: int| 0 <= i < s.len() ==> is_digit(#[trigger] s[i])
}

/// The number that a string of decimal digits denotes.
pub open spec fn decimal_value(s: Seq<char>) -> nat
    decreases s.len(),
{
    if s.len() == 0 {
        0
    } else {
        decimal_value(s.drop_last()) * 10 + digit_value(s.last())
    }
}

/// The digits of a number's text, after an optional leading `+`.
pub open spec fn unsigned_digits(s: Seq<char>) -> Seq<char> {
    if s.len() > 0 && s[0] == '+' {
        s.drop_first()
    } else {
        s
    }
}

/// What an unsigned number's text means: an optional `+`, then one or more
/// decimal digits, denoting a value no larger than `max`.
pub open spec fn unsigned_of(s: Seq<char>, max: nat) -> Option<nat> {
    let d = unsigned_digits(s);
    if d.len() > 0 && all_digits(d) && decimal_value(d) <= max {
        Some(decimal_value(d))
    } else {
        None
    }
}

proof fn lemma_decimal_value_grows(s: Seq<char>, k: int)
    requires
        0 <= k <= s.len(),
        all_digits(s),
    ensures
        decimal_value(s.subrange(0, k)) <= decimal_value(s),
    decreases s.len() - k,
{
    if k < s.len() {
        lemma_decimal_value_grows(s, k + 1);
        let p = s.subrange(0, k + 1);
        assert(p.drop_last() =~= s.subrange(0, k));
    } else {
        assert(s.subrange(0, k) =~= s);
    }
}

/// Reads a flag's text; `None` unless it is exactly `true` or `false`.
pub fn parse_flag(s: &str) -> (r: Option<bool>)
    ensures
        r == flag_of(s@),
{
    let n = s.unicode_len();
    proof {
        reveal_strlit("true");
        reveal_strlit("false");
    }
    if n == 4 && s.get_char(0) == 't' && s.get_char(1) == 'r' && s.get_char(2) == 'u'
        && s.get_char(3) == 'e' {
        assert(s@ =~= seq!['t', 'r', 'u', 'e']);
        Some(true)
    } else if n == 5 && s.get_char(0) == 'f' && s.get_char(1) == 'a' && s.get_char(2) == 'l'
        && s.get_char(3) == 's' && s.get_char(4) == 'e' {
        assert(s@ =~= seq!['f', 'a', 'l', 's', 'e']);
        Some(false)
    } else {
        None
    }
}

/// Reads an unsigned number's text: an optional `+`, then decimal digits.
/// `None` when the text is not of that form or denotes more than `max`.
pub fn parse_unsigned(s: &str, max: u64) -> (r: Option<u64>)
    ensures
        r matches Some(v) ==> unsigned_of(s@, max as nat) == Some(v as nat),
        r is None ==> unsigned_of(s@, max as nat) is None,
{
    let n = s.unicode_len();
    let start: usize = if n > 0 && s.get_char(0) == '+' { 1 } else { 0 };
    let ghost d = unsigned_digits(s@);
    assert(d =~= s@.subrange(start as int, n as int));
    if start == n {
        return None;
    }
    let mut acc: u64 = 0;
    let mut i: usize = start;
    while i < n
        invariant
            start <= i <= n,
            n == s@.len(),
            d =~= s@.subrange(start as int, n as int),
            d == unsigned_digits(s@),
            all_digits(d.subrange(0, i - start)),
            acc as nat == decimal_value(d.subrange(0, i - start)),
            acc <= max,
        decreases n - i,
    {
        let c = s.get_char(i);
        let ghost k: int = i - start;
        assert(d[k] == c);
        if c < '0' || c > '9' {
            assert(!is_digit(d[k]));
            assert(!all_digits(d));
            return None;
        }
        let dv: u64 = (c as u32 - '0' as u32) as u64;
        assert(d.subrange(0, k + 1).drop_last() =~= d.subrange(0, k));
        assert(d.subrange(0, k + 1).last() == c);
        assert(digit_value(c) == dv as nat);
        assert(decimal_value(d.subrange(0, k + 1)) == acc * 10 + dv);
        assert(all_digits(d.subrange(0, k + 1))) by {
            assert forall|j: int| 0 <= j < k + 1 implies is_digit(#[trigger] d.subrange(0, k + 1)[j]) by {
                if j < k {
                    assert(d.subrange(0, k + 1)[j] == d.subrange(0, k)[j]);
                }
            }
        }
        if dv > max || acc > (max - dv) / 10 {
            assert(acc * 10 + dv > max) by (nonlinear_arith)
                requires
                    dv > max || acc > (max - dv) / 10,
            ;
            proof {
                if all_digits(d) {
                    lemma_decimal_value_grows(d, k + 1);
                }
            }
            return None;
        }
        assert(acc * 10 + dv <= max) by (nonlinear_arith)
            requires
                dv <= max,
                acc <= (max - dv) / 10,
        ;
        acc = acc * 10 + dv;
        i = i + 1;
    }
    assert(d.subrange(0, n - start) =~= d);
    Some(acc)
}

pub open spec fn text_view(t: Option<&str>) -> Option<Seq<char>> {
    match t {
        Some(s) => Some(s@),
        None => None,
    }
}

/// What the settings are, given the text of each option as given (absent
/// options take their default), or which option is the first one that cannot be read.
pub open spec fn settings_of(
    consumers: Option<Seq<char>>,
    enable_ack: Option<Seq<char>>,
    durable: Option<Seq<char>>,
    prefetch_count: Option<Seq<char>>,
    fanout: Option<Seq<char>>,
) -> Result<Settings, OptionError> {
    let c = match consumers {
        Some(t) => unsigned_of(t, usize::MAX as nat),
        None => Some(1nat),
    };
    let e = match enable_ack {
        Some(t) => flag_of(t),
        None => Some(false),
    };
    let d = match durable {
        Some(t) => flag_of(t),
        None => Some(false),
    };
    let p = match prefetch_count {
        Some(t) => unsigned_of(t, u16::MAX as nat),
        None => Some(0nat),
    };
    let f = match fanout {
        Some(t) => flag_of(t),
        None => Some(false),
    };
    if c is None {
        Err(OptionError::Consumers)
    } else if e is None {
        Err(OptionError::EnableAck)
    } else if d is None {
        Err(OptionError::Durable)
    } else if p is None {
        Err(OptionError::PrefetchCount)
    } else if f is None {
        Err(OptionError::Fanout)
    } else {
        Ok(
            Settings {
                consumers: c.unwrap() as usize,
                enable_ack: e.unwrap(),
                durable: d.unwrap(),
                prefetch_count: p.unwrap() as u16,
                fanout: f.unwrap(),
            },
        )
    }
}

fn read_flag(t: Option<&str>) -> (r: Option<bool>)
    ensures
        r == (match text_view(t) {
            Some(s) => flag_of(s),
            None => Some(false),
        }),
{
    match t {
        Some(s) => parse_flag(s),
        None => Some(false),
    }
}

fn read_unsigned(t: Option<&str>, max: u64, default: u64) -> (r: Option<u64>)
    requires
        default <= max,
    ensures
        r matches Some(v) ==> (match text_view(t) {
            Some(s) => unsigned_of(s, max as nat) == Some(v as nat),
            None => v == default,
        }),
        r is None ==> (match text_view(t) {
            Some(s) => unsigned_of(s, max as nat) is None,
            None => false,
        }),
{
    match t {
        Some(s) => parse_unsigned(s, max),
        None => Some(default),
    }
}

/// Builds the settings from the options' texts, each `None` when the option was
/// not given. Numbers are unsigned decimals; flags are `true` or `false`.
pub fn settings_from_options(
    consumers: Option<&str>,
    enable_ack: Option<&str>,
    durable: Option<&str>,
    prefetch_count: Option<&str>,
    fanout: Option<&str>,
) -> (r: Result<Settings, OptionError>)
    ensures
        r == settings_of(
            text_view(consumers),
            text_view(enable_ack),
            text_view(durable),
            text_view(prefetch_count),
            text_view(fanout),
        ),
{
    let c = read_unsigned(consumers, usize::MAX as u64, 1);
    let e = read_flag(enable_ack);
    let d = read_flag(durable);
    let p = read_unsigned(prefetch_count, u16::MAX as u64, 0);
    let f = read_flag(fanout);
    match (c, e, d, p, f) {
        (Some(c), Some(e), Some(d), Some(p), Some(f)) => Ok(
            Settings {
                consumers: c as usize,
                enable_ack: e,
                durable: d,
                prefetch_count: p as u16,
                fanout: f,
            },
        ),
        _ => {
            if c.is_none() {
                Err(OptionError::Consumers)
            } else if e.is_none() {
                Err(OptionError::EnableAck)
            } else if d.is_none() {
                Err(OptionError::Durable)
            } else if p.is_none() {
                Err(OptionError::PrefetchCount)
            } else {
                Err(OptionError::Fanout)
            }
        },
    }
}

} // verus!
