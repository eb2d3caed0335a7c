//! What a watch run was asked to do.

use vstd::prelude::*;
use vstd::string::*;
use crate::address::{normalize_ip_address, normalized_ip, IpAddr};
use crate::model::Protocol;
use crate::query::FilterTerm;
use crate::text::{chars_of, decimal, decimal_text, utf8_len};
use crate::time::{Duration, NANOS_PER_MILLI};

verus! {

/// The polling interval when none is given.
pub const WATCH_INTERVAL_DEFAULT_TOKEN: &'static str = "1s";

/// The shortest polling interval, in milliseconds.
pub const WATCH_INTERVAL_MIN_MILLIS: u64 = 100;

/// The longest polling interval: one minute.
pub const WATCH_INTERVAL_MAX_MILLIS: u64 = 60_000;

/// The shortest run, in milliseconds.
pub const WATCH_DURATION_MIN_MILLIS: u64 = 100;

/// The longest run: seven days.
pub const WATCH_DURATION_MAX_MILLIS: u64 = 604_800_000;

/// The longest address selector, in bytes.
pub const SELECTOR_ADDRESS_MAX_BYTES: usize = 64;

/// Which protocols a watch covers.
#[derive(Debug, Clone, Copy, PartialEq, Eq, Structural)]
pub enum ProtocolSelection {
    Tcp,
    Udp,
    Both,
}

impl ProtocolSelection {
    pub open spec fn selects(self, protocol: Protocol) -> bool {
        match self {
            ProtocolSelection::Tcp => protocol == Protocol::Tcp,
            ProtocolSelection::Udp => protocol == Protocol::Udp,
            ProtocolSelection::Both => true,
        }
    }

    pub fn includes(self, protocol: Protocol) -> (r: bool)
        ensures
            r == self.selects(protocol),
    {
        match (self, protocol) {
            (ProtocolSelection::Tcp, Protocol::Tcp) => true,
            (ProtocolSelection::Udp, Protocol::Udp) => true,
            (ProtocolSelection::Both, _) => true,
            _ => false,
        }
    }
}

/// The checked options of a watch run.
#[derive(Debug, PartialEq, Eq)]
pub struct WatchOptions {
    pub protocols: ProtocolSelection,
    pub address: Option<IpAddr>,
    pub scope_id: Option<u32>,
    pub port: Option<u16>,
    pub terms: Vec<FilterTerm>,
    pub filter_active: bool,
    pub interval: Duration,
    pub duration: Option<Duration>,
    pub json: bool,
}

/// The unit of a duration token: the length of its suffix and its milliseconds.
/// `ms` is tried before `s` and `m`.
pub open spec fn duration_unit(token: Seq<char>) -> Option<(nat, nat)> {
    let n = token.len();
    if n >= 2 && token[n - 2] == 'm' && token[n - 1] == 's' {
        Some((2, 1))
    } else if n >= 1 && token[n - 1] == 's' {
        Some((1, 1_000))
    } else if n >= 1 && token[n - 1] == 'm' {
        Some((1, 60_000))
    } else if n >= 1 && token[n - 1] == 'h' {
        Some((1, 3_600_000))
    } else if n >= 1 && token[n - 1] == 'd' {
        Some((1, 86_400_000))
    } else {
        None
    }
}

/// An ASCII decimal digit.
pub open spec fn is_digit(ch: char) -> bool {
    '0' <= ch && ch <= '9'
}

/// The number that a run of decimal digits writes.
pub open spec fn digits_value(digits: Seq<char>) -> nat
    decreases digits.len(),
{
    if digits.len() == 0 {
        0
    } else {
        digits_value(digits.drop_last()) * 10 + (digits.last() as u32 - 48) as nat
    }
}

/// The sentence for a token that is no whole number with a unit.
pub open spec fn duration_shape_error() -> Seq<char> {
    "expected one unsigned integer followed by ms, s, m, h, or d"@
}

/// The sentence for a span outside its bounds.
pub open spec fn duration_range_error(minimum: Duration, maximum: Duration) -> Seq<char> {
    "value must be between "@ + decimal((minimum.nanos / NANOS_PER_MILLI) as nat) + "ms and "@
        + decimal((maximum.nanos / NANOS_PER_MILLI) as nat) + "ms"@
}

/// What a duration token means within bounds: a span, or the sentence that
/// refuses it.
pub open spec fn duration_of(token: Seq<char>, minimum: Duration, maximum: Duration) -> Result<
    Duration,
    Seq<char>,
> {
    match duration_unit(token) {
        None => Err(duration_shape_error()),
        Some((suffix, multiplier)) => {
            let number = token.take(token.len() - suffix);
            if number.len() == 0 || !(forall|i: int|
                0 <= i < number.len() ==> is_digit(#[trigger] number[i])) {
                Err(duration_shape_error())
            } else if digits_value(number) * multiplier > u64::MAX {
                Err("duration value is too large"@)
            } else {
                let nanos = digits_value(number) * multiplier * 1_000_000;
                if nanos < minimum.nanos || nanos > maximum.nanos {
                    Err(duration_range_error(minimum, maximum))
                } else {
                    Ok(Duration { nanos: nanos as u128 })
                }
            }
        },
    }
}

proof fn lemma_digits_value_grows(digits: Seq<char>, k: int)
    requires
        0 <= k <= digits.len(),
    ensures
        digits_value(digits.take(k)) <= digits_value(digits),
    decreases digits.len() - k,
{
    if k == digits.len() {
        assert(digits.take(k) =~= digits);
    } else {
        lemma_digits_value_grows(digits, k + 1);
        assert(digits.take(k + 1).drop_last() =~= digits.take(k));
    }
}

/// The value of the first `count` characters, all digits; none where it exceeds
/// `u64`.
fn parse_digits(chars: &Vec<char>, count: usize) -> (r: Option<u64>)
    requires
        count <= chars.len(),
        forall|i: int| 0 <= i < count ==> is_digit(#[trigger] chars@[i]),
    ensures
        match r {
            Some(value) => value == digits_value(chars@.take(count as int)),
            None => digits_value(chars@.take(count as int)) > u64::MAX,
        },
{
    let ghost digits = chars@.take(count as int);
    let mut value: u128 = 0;
    let mut i: usize = 0;
    assert(digits.take(0) =~= Seq::empty());
    while i < count
        invariant
            i <= count <= chars.len(),
            digits == chars@.take(count as int),
            forall|j: int| 0 <= j < count ==> is_digit(#[trigger] chars@[j]),
            value == digits_value(digits.take(i as int)),
            value <= u64::MAX,
        decreases count - i,
    {
        let digit: u32 = chars[i] as u32 - 48;
        proof {
            assert(digits.take(i + 1).drop_last() =~= digits.take(i as int));
            assert(digits.take(i + 1).last() == chars@[i as int]);
        }
        value = value * 10 + digit as u128;
        i = i + 1;
        if value > u64::MAX as u128 {
            proof {
                lemma_digits_value_grows(digits, i as int);
            }
            return None;
        }
    }
    assert(digits.take(count as int) =~= digits);
    Some(value as u64)
}

fn duration_range_message(minimum: Duration, maximum: Duration) -> (r: String)
    ensures
        r@ == duration_range_error(minimum, maximum),
{
    let mut text = "value must be between ".to_owned();
    text.append(decimal_text(minimum.as_millis()).as_str());
    text.append("ms and ");
    text.append(decimal_text(maximum.as_millis()).as_str());
    text.append("ms");
    text
}

/// Parse a whole number with a unit into a span within bounds.
pub fn parse_duration_token(value: &str, minimum: Duration, maximum: Duration) -> (r: Result<
    Duration,
    String,
>)
    ensures
        match duration_of(value@, minimum, maximum) {
            Ok(duration) => r == Ok::<Duration, String>(duration),
            Err(text) => r is Err && r->Err_0@ == text,
        },
{
    let chars = chars_of(value);
    let n: usize = chars.len();
    let (suffix, multiplier): (usize, u64) = if n >= 2 && chars[n - 2] == 'm' && chars[n - 1]
        == 's' {
        (2, 1)
    } else if n >= 1 && chars[n - 1] == 's' {
        (1, 1_000)
    } else if n >= 1 && chars[n - 1] == 'm' {
        (1, 60_000)
    } else if n >= 1 && chars[n - 1] == 'h' {
        (1, 3_600_000)
    } else if n >= 1 && chars[n - 1] == 'd' {
        (1, 86_400_000)
    } else {
        return Err("expected one unsigned integer followed by ms, s, m, h, or d".to_owned());
    };
    let count: usize = n - suffix;
    let ghost number = value@.take(count as int);
    if count == 0 {
        return Err("expected one unsigned integer followed by ms, s, m, h, or d".to_owned());
    }
    let mut i: usize = 0;
    while i < count
        invariant
            i <= count <= chars.len(),
            chars@ == value@,
            number == value@.take(count as int),
            duration_unit(value@) == Some((suffix as nat, multiplier as nat)),
            count == value@.len() - suffix,
            forall|j: int| 0 <= j < i ==> is_digit(#[trigger] chars@[j]),
        decreases count - i,
    {
        if chars[i] < '0' || chars[i] > '9' {
            assert(!is_digit(number[i as int]));
            return Err("expected one unsigned integer followed by ms, s, m, h, or d".to_owned());
        }
        i = i + 1;
    }
    assert forall|j: int| 0 <= j < number.len() implies is_digit(#[trigger] number[j]) by {
        assert(is_digit(chars@[j]));
    }
    let magnitude: u64 = match parse_digits(&chars, count) {
        Some(magnitude) => magnitude,
        None => {
            assert(digits_value(number) * multiplier > u64::MAX) by (nonlinear_arith)
                requires
                    digits_value(number) > u64::MAX,
                    multiplier >= 1,
            ;
            return Err("duration value is too large".to_owned());
        },
    };
    let milliseconds: u64 = match magnitude.checked_mul(multiplier) {
        Some(milliseconds) => milliseconds,
        None => {
            return Err("duration value is too large".to_owned());
        },
    };
    let duration = Duration::from_millis(milliseconds);
    if duration.nanos < minimum.nanos || duration.nanos > maximum.nanos {
        return Err(duration_range_message(minimum, maximum));
    }
    Ok(duration)
}

/// What an address selector means, given what the text parsed to as an IP
/// literal.
pub open spec fn selector_address(text: Seq<char>, parsed: Option<IpAddr>) -> Result<
    IpAddr,
    Seq<char>,
> {
    if text.len() == 0 || utf8_len(text) > SELECTOR_ADDRESS_MAX_BYTES {
        Err("--address must be a literal IP address of at most 64 bytes"@)
    } else {
        match parsed {
            Some(address) => Ok(normalized_ip(address)),
            None => Err("--address must be a literal IPv4 or IPv6 address without a zone"@),
        }
    }
}

/// Check an address selector. `parsed` is the IP literal that the text is, if it
/// is one.
pub fn parse_address(value: &str, parsed: Option<IpAddr>) -> (r: Result<IpAddr, String>)
    ensures
        match selector_address(value@, parsed) {
            Ok(address) => r == Ok::<IpAddr, String>(address),
            Err(text) => r is Err && r->Err_0@ == text,
        },
{
    assert(value.spec_bytes().len() == utf8_len(value@));
    if value.is_empty() || value.as_bytes().len() > SELECTOR_ADDRESS_MAX_BYTES {
        return Err("--address must be a literal IP address of at most 64 bytes".to_owned());
    }
    match parsed {
        Some(address) => Ok(normalize_ip_address(address)),
        None => Err(
            "--address must be a literal IPv4 or IPv6 address without a zone".to_owned(),
        ),
    }
}

/// The arguments of a watch run as given.
#[derive(Debug, PartialEq, Eq)]
pub struct WatchArgs {
    pub tcp: bool,
    pub udp: bool,
    pub address: Option<String>,
    pub scope_id: Option<u64>,
    pub port: Option<u16>,
    pub filter: Option<String>,
    pub interval: String,
    pub duration: Option<String>,
    pub json: bool,
}

pub open spec fn millis(count: u64) -> Duration {
    Duration { nanos: (count * NANOS_PER_MILLI) as u128 }
}

/// The interval that the arguments ask for.
pub open spec fn interval_of(args: WatchArgs) -> Result<Duration, Seq<char>> {
    duration_of(args.interval@, millis(WATCH_INTERVAL_MIN_MILLIS), millis(WATCH_INTERVAL_MAX_MILLIS))
}

/// The run length that the arguments ask for, if they do.
pub open spec fn run_length_of(args: WatchArgs) -> Result<Option<Duration>, Seq<char>> {
    match args.duration {
        None => Ok(None),
        Some(token) => match duration_of(
            token@,
            millis(WATCH_DURATION_MIN_MILLIS),
            millis(WATCH_DURATION_MAX_MILLIS),
        ) {
            Ok(duration) => Ok(Some(duration)),
            Err(text) => Err(text),
        },
    }
}

/// The address that the arguments select, if they do.
pub open spec fn address_of(args: WatchArgs, literal: Option<IpAddr>) -> Result<
    Option<IpAddr>,
    Seq<char>,
> {
    match args.address {
        None => Ok(None),
        Some(text) => match selector_address(text@, literal) {
            Ok(address) => Ok(Some(address)),
            Err(text) => Err(text),
        },
    }
}

/// Why arguments are refused, if they are. The first problem counts: interval,
/// run length, address, scope, scope without an IPv6 address, filter.
pub open spec fn options_refusal(
    args: WatchArgs,
    literal: Option<IpAddr>,
    terms: Result<Vec<FilterTerm>, String>,
) -> Option<Seq<char>> {
    if interval_of(args) is Err {
        Some("invalid --interval: "@ + interval_of(args)->Err_0)
    } else if run_length_of(args) is Err {
        Some("invalid --duration: "@ + run_length_of(args)->Err_0)
    } else if address_of(args, literal) is Err {
        Some(address_of(args, literal)->Err_0)
    } else if args.scope_id is Some && !(1 <= args.scope_id->0 <= u32::MAX) {
        Some("--scope-id must be in 1..=4294967295"@)
    } else if args.scope_id is Some && !(address_of(args, literal) matches Ok(
        Some(IpAddr::V6(_)),
    )) {
        Some("--scope-id requires one explicit IPv6 --address"@)
    } else if terms is Err {
        Some("invalid filter: "@ + terms->Err_0@)
    } else {
        None
    }
}

/// The options that accepted arguments amount to. Both protocols are watched unless
/// exactly one is asked for.
pub open spec fn options_of(
    args: WatchArgs,
    literal: Option<IpAddr>,
    terms: Result<Vec<FilterTerm>, String>,
) -> WatchOptions {
    WatchOptions {
        protocols: if args.tcp == args.udp {
            ProtocolSelection::Both
        } else if args.tcp {
            ProtocolSelection::Tcp
        } else {
            ProtocolSelection::Udp
        },
        address: address_of(args, literal)->Ok_0,
        scope_id: match args.scope_id {
            Some(id) => Some(id as u32),
            None => None,
        },
        port: args.port,
        terms: terms->Ok_0,
        filter_active: args.tcp || args.udp || args.address is Some || args.scope_id is Some
            || args.port is Some || terms->Ok_0.len() > 0,
        interval: interval_of(args)->Ok_0,
        duration: run_length_of(args)->Ok_0,
        json: args.json,
    }
}

impl WatchOptions {
    /// Check the arguments. `literal` is the IP literal that the address text is, if
    /// it is one; `terms` is what the filter text parsed to.
    pub fn parse(
        args: &WatchArgs,
        literal: Option<IpAddr>,
        terms: Result<Vec<FilterTerm>, String>,
    ) -> (r: Result<WatchOptions, String>)
        ensures
            match options_refusal(*args, literal, terms) {
                Some(text) => r is Err && r->Err_0@ == text,
                None => r == Ok::<WatchOptions, String>(options_of(*args, literal, terms)),
            },
    {
        let interval = match parse_duration_token(
            args.interval.as_str(),
            Duration::from_millis(WATCH_INTERVAL_MIN_MILLIS),
            Duration::from_millis(WATCH_INTERVAL_MAX_MILLIS),
        ) {
            Ok(interval) => interval,
            Err(error) => {
                return Err("invalid --interval: ".to_owned().concat(error.as_str()));
            },
        };
        let duration = match &args.duration {
            Some(token) => match parse_duration_token(
                token.as_str(),
                Duration::from_millis(WATCH_DURATION_MIN_MILLIS),
                Duration::from_millis(WATCH_DURATION_MAX_MILLIS),
            ) {
                Ok(duration) => Some(duration),
                Err(error) => {
                    return Err("invalid --duration: ".to_owned().concat(error.as_str()));
                },
            },
            None => None,
        };
        let address = match &args.address {
            Some(text) => match parse_address(text.as_str(), literal) {
                Ok(address) => Some(address),
                Err(error) => {
                    return Err(error);
                },
            },
            None => None,
        };
        let scope_id: Option<u32> = match args.scope_id {
            Some(id) => {
                if id < 1 || id > u32::MAX as u64 {
                    return Err("--scope-id must be in 1..=4294967295".to_owned());
                }
                Some(id as u32)
            },
            None => None,
        };
        if scope_id.is_some() {
            match address {
                Some(IpAddr::V6(_)) => {},
                _ => {
                    return Err("--scope-id requires one explicit IPv6 --address".to_owned());
                },
            }
        }
        let terms = match terms {
            Ok(terms) => terms,
            Err(error) => {
                return Err("invalid filter: ".to_owned().concat(error.as_str()));
            },
        };
        let protocols = match (args.tcp, args.udp) {
            (true, false) => ProtocolSelection::Tcp,
            (false, true) => ProtocolSelection::Udp,
            _ => ProtocolSelection::Both,
        };
        let filter_active: bool = args.tcp || args.udp || args.address.is_some()
            || args.scope_id.is_some() || args.port.is_some() || terms.len() > 0;
        Ok(
            WatchOptions {
                protocols,
                address,
                scope_id,
                port: args.port,
                terms,
                filter_active,
                interval,
                duration,
                json: args.json,
            },
        )
    }
}

} // verus!
