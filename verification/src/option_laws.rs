//! What the options of a watch run mean, whatever they are.

use vstd::prelude::*;
use vstd::string::*;
use crate::address::IpAddr;
use crate::model::Protocol;
use crate::query::FilterTerm;
use crate::text::{decimal, utf8_len};
use crate::time::Duration;
use crate::watch_options::{
    digits_value, duration_of, duration_unit, interval_of, is_digit, options_of, options_refusal,
    run_length_of, WatchArgs,
};

verus! {

/// A number in decimal is a run of digits that reads as that number.
pub proof fn lemma_decimal_reads_back(n: nat)
    ensures
        decimal(n).len() > 0,
        forall|i: int| 0 <= i < decimal(n).len() ==> '0' <= #[trigger] decimal(n)[i] <= '9',
        digits_value(decimal(n)) == n,
    decreases n,
{
    reveal_with_fuel(digits_value, 2);
    if n < 10 {
        assert(decimal(n).drop_last() =~= Seq::empty());
    } else {
        lemma_decimal_reads_back(n / 10);
        assert(decimal(n).drop_last() =~= decimal(n / 10));
    }
}

proof fn lemma_suffixed(n: nat, suffix: Seq<char>)
    requires
        suffix.len() == 1 || suffix.len() == 2,
    ensures
        (decimal(n) + suffix).take((decimal(n) + suffix).len() - suffix.len()) == decimal(n),
        suffix.len() == 1 ==> is_digit((decimal(n) + suffix)[(decimal(n) + suffix).len() - 2]),
        (decimal(n) + suffix).last() == suffix.last(),
        forall|i: int| 0 <= i < decimal(n).len() ==> is_digit(#[trigger] decimal(n)[i]),
        digits_value(decimal(n)) == n,
        decimal(n).len() > 0,
{
    lemma_decimal_reads_back(n);
    assert((decimal(n) + suffix).take((decimal(n) + suffix).len() - suffix.len()) =~= decimal(n));
}

/// A count of milliseconds within the bounds is that many milliseconds, and one outside of
/// them is refused.
#[verifier::spinoff_prover]
pub proof fn law_milliseconds_are_milliseconds(n: nat, minimum: Duration, maximum: Duration)
    ensures
        minimum.nanos <= n * 1_000_000 <= maximum.nanos && n <= u64::MAX ==> duration_of(
            decimal(n) + "ms"@,
            minimum,
            maximum,
        ) == Ok::<Duration, Seq<char>>(Duration { nanos: (n * 1_000_000) as u128 }),
        !(minimum.nanos <= n * 1_000_000 <= maximum.nanos) ==> duration_of(
            decimal(n) + "ms"@,
            minimum,
            maximum,
        ) is Err,
{
    reveal_strlit("ms");
    lemma_suffixed(n, "ms"@);
    let token = decimal(n) + "ms"@;
    assert(token[token.len() - 2] == 'm' && token[token.len() - 1] == 's');
    assert(n * 1 == n);
}

/// A longer unit is a whole number of the next shorter ones: a second is a thousand
/// milliseconds, a minute sixty seconds, an hour sixty minutes, a day twenty-four hours.
#[verifier::spinoff_prover]
pub proof fn law_longer_units_are_made_of_shorter_ones(
    n: nat,
    minimum: Duration,
    maximum: Duration,
)
    ensures
        duration_of(decimal(n) + "s"@, minimum, maximum) == duration_of(
            decimal(1000 * n) + "ms"@,
            minimum,
            maximum,
        ),
        duration_of(decimal(n) + "m"@, minimum, maximum) == duration_of(
            decimal(60 * n) + "s"@,
            minimum,
            maximum,
        ),
        duration_of(decimal(n) + "h"@, minimum, maximum) == duration_of(
            decimal(60 * n) + "m"@,
            minimum,
            maximum,
        ),
        duration_of(decimal(n) + "d"@, minimum, maximum) == duration_of(
            decimal(24 * n) + "h"@,
            minimum,
            maximum,
        ),
{
    reveal_strlit("ms");
    reveal_strlit("s");
    reveal_strlit("m");
    reveal_strlit("h");
    reveal_strlit("d");
    lemma_suffixed(1000 * n, "ms"@);
    lemma_suffixed(n, "s"@);
    lemma_suffixed(60 * n, "s"@);
    lemma_suffixed(n, "m"@);
    lemma_suffixed(60 * n, "m"@);
    lemma_suffixed(n, "h"@);
    lemma_suffixed(24 * n, "h"@);
    lemma_suffixed(n, "d"@);
    let token = decimal(1000 * n) + "ms"@;
    assert(token[token.len() - 2] == 'm' && token[token.len() - 1] == 's');
    assert((1000 * n) * 1 == n * 1000);
    assert((60 * n) * 1000 == n * 60_000);
    assert((60 * n) * 60_000 == n * 3_600_000);
    assert((24 * n) * 3_600_000 == n * 86_400_000);
}

/// A span that is accepted lies within the bounds, and its token is digits followed by one
/// of the five units.
pub proof fn law_accepted_span_is_digits_and_a_unit(
    token: Seq<char>,
    minimum: Duration,
    maximum: Duration,
)
    requires
        duration_of(token, minimum, maximum) is Ok,
    ensures
        minimum.nanos <= duration_of(token, minimum, maximum)->Ok_0.nanos <= maximum.nanos,
        token.len() >= 2,
        '0' <= token[0] <= '9',
        token.last() == 's' || token.last() == 'm' || token.last() == 'h' || token.last() == 'd',
        forall|i: int| 0 <= i < token.len() - 2 ==> '0' <= #[trigger] token[i] <= '9',
        '0' <= token[token.len() - 2] <= '9' || (token[token.len() - 2] == 'm' && token.last()
            == 's'),
{
    let (suffix, multiplier) = duration_unit(token)->0;
    let number = token.take(token.len() - suffix);
    assert(is_digit(number[0]));
    assert forall|i: int| 0 <= i < token.len() - 2 implies '0' <= #[trigger] token[i] <= '9' by {
        assert(is_digit(number[i]));
    }
    if suffix == 1 {
        assert(is_digit(number[token.len() - 2]));
    }
}

/// A zero in front of a token changes nothing.
#[verifier::spinoff_prover]
pub proof fn law_leading_zero_changes_nothing(token: Seq<char>, minimum: Duration, maximum: Duration)
    requires
        token.len() > 0,
        '0' <= token[0] <= '9',
    ensures
        duration_of(seq!['0'] + token, minimum, maximum) == duration_of(token, minimum, maximum),
{
    let longer = seq!['0'] + token;
    assert(longer.last() == token.last());
    if token.len() >= 2 {
        assert(longer[longer.len() - 2] == token[token.len() - 2]);
    }
    assert(duration_unit(longer) == duration_unit(token));
    if duration_unit(token) is Some {
        let suffix = (duration_unit(token)->0).0;
        let number = token.take(token.len() - suffix);
        let padded = longer.take(longer.len() - suffix);
        assert(number.len() > 0);
        assert(padded =~= seq!['0'] + number);
        lemma_padded_value(number);
        assert(forall|i: int| 0 <= i < number.len() ==> padded[i + 1] == #[trigger] number[i]);
        if forall|i: int| 0 <= i < number.len() ==> is_digit(#[trigger] number[i]) {
            assert forall|i: int| 0 <= i < padded.len() implies is_digit(#[trigger] padded[i]) by {
                if i > 0 {
                    assert(is_digit(number[i - 1]));
                }
            }
        } else {
            let i = choose|i: int| 0 <= i < number.len() && !is_digit(#[trigger] number[i]);
            assert(!is_digit(padded[i + 1]));
        }
    }
}

proof fn lemma_padded_value(digits: Seq<char>)
    ensures
        digits_value(seq!['0'] + digits) == digits_value(digits),
    decreases digits.len(),
{
    reveal_with_fuel(digits_value, 2);
    let padded = seq!['0'] + digits;
    if digits.len() == 0 {
        assert(padded.drop_last() =~= Seq::empty());
    } else {
        lemma_padded_value(digits.drop_last());
        assert(padded.drop_last() =~= seq!['0'] + digits.drop_last());
        assert(padded.last() == digits.last());
    }
}

/// Accepted arguments poll between ten times a second and once a minute, and run between a
/// tenth of a second and seven days, or without an end.
pub proof fn law_accepted_run_is_bounded(
    args: WatchArgs,
    literal: Option<IpAddr>,
    terms: Result<Vec<FilterTerm>, String>,
)
    requires
        options_refusal(args, literal, terms) is None,
    ensures
        100_000_000 <= options_of(args, literal, terms).interval.nanos <= 60_000_000_000,
        options_of(args, literal, terms).duration is Some <==> args.duration is Some,
        options_of(args, literal, terms).duration matches Some(duration) ==> 100_000_000
            <= duration.nanos <= 604_800_000_000_000,
{
}

/// Any number of milliseconds from a hundred to sixty thousand is an interval, any from a
/// hundred to seven days' worth is a run length, and no other number of them is.
#[verifier::spinoff_prover]
pub proof fn law_spans_within_bounds_are_accepted(args: WatchArgs, n: nat)
    ensures
        args.interval@ == decimal(n) + "ms"@ ==> (interval_of(args) is Ok
            <==> 100 <= n <= 60_000),
        args.duration is Some && args.duration->0@ == decimal(n) + "ms"@ ==> (
        run_length_of(args) is Ok <==> 100 <= n <= 604_800_000),
{
    let short = Duration { nanos: 100_000_000 };
    law_milliseconds_are_milliseconds(n, short, Duration { nanos: 60_000_000_000 });
    law_milliseconds_are_milliseconds(n, short, Duration { nanos: 604_800_000_000_000 });
}

/// TCP is watched unless only UDP is asked for, and UDP unless only TCP is.
pub proof fn law_watched_protocols(
    args: WatchArgs,
    literal: Option<IpAddr>,
    terms: Result<Vec<FilterTerm>, String>,
)
    requires
        options_refusal(args, literal, terms) is None,
    ensures
        options_of(args, literal, terms).protocols.selects(Protocol::Tcp) <==> (args.tcp
            || !args.udp),
        options_of(args, literal, terms).protocols.selects(Protocol::Udp) <==> (args.udp
            || !args.tcp),
{
}

/// Accepted arguments carry over: the port, the terms and the output form as they are given,
/// the scope as its number, and the address as it was written, but for an IPv4 address in
/// IPv6 form, which is that IPv4 address. A scope goes with an IPv6 address alone.
pub proof fn law_accepted_arguments_carry_over(
    args: WatchArgs,
    literal: Option<IpAddr>,
    terms: Result<Vec<FilterTerm>, String>,
)
    requires
        options_refusal(args, literal, terms) is None,
    ensures
        options_of(args, literal, terms).port == args.port,
        options_of(args, literal, terms).json == args.json,
        terms == Ok::<Vec<FilterTerm>, String>(options_of(args, literal, terms).terms),
        options_of(args, literal, terms).scope_id is Some <==> args.scope_id is Some,
        options_of(args, literal, terms).scope_id matches Some(id) ==> id > 0 && id
            == args.scope_id->0 && options_of(args, literal, terms).address matches Some(
            IpAddr::V6(_),
        ),
        options_of(args, literal, terms).address is Some <==> args.address is Some,
        args.address is Some ==> 0 < args.address->0@.len() && utf8_len(args.address->0@) <= 64
            && literal is Some,
        args.address is Some && literal->0 is V4 ==> options_of(args, literal, terms).address
            == literal,
        args.address is Some && literal->0 is V6 ==> if 0xffff_0000_0000 <= literal->0->V6_0
            < 0x1_0000_0000_0000 {
            options_of(args, literal, terms).address == Some(
                IpAddr::V4((literal->0->V6_0 - 0xffff_0000_0000) as u32),
            )
        } else {
            options_of(args, literal, terms).address == literal
        },
{
}

/// The filter counts as active exactly where something narrows what is watched.
pub proof fn law_anything_given_activates_the_filter(
    args: WatchArgs,
    literal: Option<IpAddr>,
    terms: Result<Vec<FilterTerm>, String>,
)
    requires
        options_refusal(args, literal, terms) is None,
    ensures
        !options_of(args, literal, terms).filter_active <==> !args.tcp && !args.udp && args.address
            is None && args.scope_id is None && args.port is None && options_of(
            args,
            literal,
            terms,
        ).terms.len() == 0,
{
}

/// Each argument that cannot be understood is refused, and arguments that can all be
/// understood are not.
pub proof fn law_refused_arguments_have_a_fault(
    args: WatchArgs,
    literal: Option<IpAddr>,
    terms: Result<Vec<FilterTerm>, String>,
)
    ensures
        options_refusal(args, literal, terms) is Some <==> {
            ||| interval_of(args) is Err
            ||| run_length_of(args) is Err
            ||| args.address is Some && (args.address->0@.len() == 0 || utf8_len(args.address->0@)
                > 64 || literal is None)
            ||| args.scope_id is Some && (args.scope_id->0 == 0 || args.scope_id->0
                > 0xffff_ffff)
            ||| args.scope_id is Some && (args.address is None || literal is Some && (
            literal->0 is V4 || 0xffff_0000_0000 <= literal->0->V6_0 < 0x1_0000_0000_0000))
            ||| terms is Err
        },
{
}

/// What is wrong is told by the option that is wrong: the interval first, then the run
/// length, then the address and its scope, the filter last.
pub proof fn law_refusal_names_its_option(
    args: WatchArgs,
    literal: Option<IpAddr>,
    terms: Result<Vec<FilterTerm>, String>,
)
    requires
        options_refusal(args, literal, terms) is Some,
    ensures
        interval_of(args) is Err ==> "invalid --interval: "@.is_prefix_of(
            options_refusal(args, literal, terms)->0,
        ),
        interval_of(args) is Ok && run_length_of(args) is Err
            ==> "invalid --duration: "@.is_prefix_of(options_refusal(args, literal, terms)->0),
        interval_of(args) is Ok && run_length_of(args) is Ok && terms is Ok ==> "--"@.is_prefix_of(
            options_refusal(args, literal, terms)->0,
        ),
        interval_of(args) is Ok && run_length_of(args) is Ok && args.address is None
            && args.scope_id is None ==> "invalid filter: "@.is_prefix_of(
            options_refusal(args, literal, terms)->0,
        ),
{
    let text = options_refusal(args, literal, terms)->0;
    reveal_strlit("--");
    reveal_strlit("--address must be a literal IP address of at most 64 bytes");
    reveal_strlit("--address must be a literal IPv4 or IPv6 address without a zone");
    reveal_strlit("--scope-id must be in 1..=4294967295");
    reveal_strlit("--scope-id requires one explicit IPv6 --address");
    assert("invalid --interval: "@.is_prefix_of("invalid --interval: "@ + interval_of(args)->Err_0));
    assert("invalid --duration: "@.is_prefix_of(
        "invalid --duration: "@ + run_length_of(args)->Err_0,
    ));
    assert("invalid filter: "@.is_prefix_of("invalid filter: "@ + terms->Err_0@));
    if text.len() >= 2 && text[0] == '-' && text[1] == '-' {
        assert("--"@ =~= text.take(2));
    }
}

} // verus!
