//! A count of seconds split into years, days, hours, minutes and seconds.
use crate::unit::{kind_rank, kind_seconds, TimeUnit, TimeUnitKind};
use vstd::arithmetic::div_mod::lemma_fundamental_div_mod;
use vstd::prelude::*;

verus! {

/// Seconds in each granularity; a day is 24 hours and a year 365 days.
pub const SECONDS_PER_MINUTE: usize = 60;

pub const SECONDS_PER_HOUR: usize = 60 * 60;

pub const SECONDS_PER_DAY: usize = 60 * 60 * 24;

pub const SECONDS_PER_YEAR: usize = 60 * 60 * 24 * 365;

/// Represents parts of a duration with fields of various granularity.
#[derive(PartialEq, Eq, Structural, Clone, Copy, Debug)]
pub struct Duration {
    pub seconds: TimeUnit,
    pub minutes: TimeUnit,
    pub hours: TimeUnit,
    pub days: TimeUnit,
    pub years: TimeUnit,
}

/// The duration with every amount zero.
pub open spec fn zeroed() -> Duration {
    Duration {
        seconds: TimeUnit { kind: TimeUnitKind::Seconds, amount: 0 },
        minutes: TimeUnit { kind: TimeUnitKind::Minutes, amount: 0 },
        hours: TimeUnit { kind: TimeUnitKind::Hours, amount: 0 },
        days: TimeUnit { kind: TimeUnitKind::Days, amount: 0 },
        years: TimeUnit { kind: TimeUnitKind::Years, amount: 0 },
    }
}

/// `s` seconds split by successive division: as many whole years as fit,
/// then whole days of what remains, then hours, minutes, and the rest in
/// seconds.
pub open spec fn decomposition(s: usize) -> Duration {
    let rest_of_year = s % SECONDS_PER_YEAR;
    let rest_of_day = rest_of_year % SECONDS_PER_DAY;
    let rest_of_hour = rest_of_day % SECONDS_PER_HOUR;
    Duration {
        seconds: TimeUnit {
            kind: TimeUnitKind::Seconds,
            amount: (rest_of_hour % SECONDS_PER_MINUTE) as usize,
        },
        minutes: TimeUnit {
            kind: TimeUnitKind::Minutes,
            amount: (rest_of_hour / SECONDS_PER_MINUTE) as usize,
        },
        hours: TimeUnit {
            kind: TimeUnitKind::Hours,
            amount: (rest_of_day / SECONDS_PER_HOUR) as usize,
        },
        days: TimeUnit {
            kind: TimeUnitKind::Days,
            amount: (rest_of_year / SECONDS_PER_DAY) as usize,
        },
        years: TimeUnit { kind: TimeUnitKind::Years, amount: (s / SECONDS_PER_YEAR) as usize },
    }
}

/// The unit alone when its amount is non-zero, else nothing.
pub open spec fn if_nonzero(u: TimeUnit) -> Seq<TimeUnit> {
    if u.amount > 0 {
        seq![u]
    } else {
        Seq::empty()
    }
}

/// Kinds that strictly decrease in granularity along the sequence.
pub open spec fn coarse_to_fine(units: Seq<TimeUnit>) -> bool {
    forall|i: int, j: int|
        0 <= i < j < units.len() ==> kind_rank(#[trigger] units[i].kind) > kind_rank(
            #[trigger] units[j].kind,
        )
}

/// The text of each unit followed by ", ".
pub open spec fn comma_list(units: Seq<TimeUnit>) -> Seq<char>
    decreases units.len(),
{
    if units.len() == 0 {
        Seq::empty()
    } else {
        comma_list(units.drop_last()) + units.last().text() + ", "@
    }
}

/// A list of units as a phrase: nothing for no units; one unit and a
/// period; two units joined by " and " and a period; for more, all but the
/// last two each followed by ", ", then the last two joined by " and ", then
/// a period.
pub open spec fn phrase(units: Seq<TimeUnit>) -> Seq<char> {
    let n = units.len();
    if n == 0 {
        Seq::empty()
    } else if n == 1 {
        units[0].text() + "."@
    } else if n == 2 {
        units[0].text() + " and "@ + units[1].text() + "."@
    } else {
        comma_list(units.take(n - 2)) + units[n - 2].text() + " and "@ + units[n - 1].text()
            + "."@
    }
}

impl Duration {
    /// Each field holds the kind that its name says.
    pub open spec fn well_kinded(self) -> bool {
        &&& self.seconds.kind == TimeUnitKind::Seconds
        &&& self.minutes.kind == TimeUnitKind::Minutes
        &&& self.hours.kind == TimeUnitKind::Hours
        &&& self.days.kind == TimeUnitKind::Days
        &&& self.years.kind == TimeUnitKind::Years
    }

    /// The number of seconds that the five units stand for together.
    pub open spec fn total_seconds(self) -> nat {
        self.years.in_seconds() + self.days.in_seconds() + self.hours.in_seconds()
            + self.minutes.in_seconds() + self.seconds.in_seconds()
    }

    /// The units with a non-zero amount, from the coarsest to the finest:
    /// years, days, hours, minutes, seconds.
    pub open spec fn nonzero_units(self) -> Seq<TimeUnit> {
        if_nonzero(self.years) + if_nonzero(self.days) + if_nonzero(self.hours) + if_nonzero(
            self.minutes,
        ) + if_nonzero(self.seconds)
    }

    /// From a count of seconds, derive a fine-grained duration.
    pub fn new(seconds: usize) -> (r: Duration)
        ensures
            r == decomposition(seconds),
            r.well_kinded(),
            r.total_seconds() == seconds,
            r.seconds.amount < 60,
            r.minutes.amount < 60,
            r.hours.amount < 24,
            r.days.amount < 365,
            r.years.amount == seconds / SECONDS_PER_YEAR,
    {
        let mut duration = Duration::new_zeroed();
        let mut rest = seconds;

        duration.years.amount = rest / SECONDS_PER_YEAR;
        rest = rest % SECONDS_PER_YEAR;

        duration.days.amount = rest / SECONDS_PER_DAY;
        rest = rest % SECONDS_PER_DAY;

        duration.hours.amount = rest / SECONDS_PER_HOUR;
        rest = rest % SECONDS_PER_HOUR;

        duration.minutes.amount = rest / SECONDS_PER_MINUTE;
        rest = rest % SECONDS_PER_MINUTE;

        duration.seconds.amount = rest;
        proof {
            lemma_decomposition(seconds);
        }
        duration
    }

    /// The units with a non-zero amount, coarsest first.
    pub fn iter_units(&self) -> (r: Vec<TimeUnit>)
        ensures
            r@ == self.nonzero_units(),
    {
        let mut units: Vec<TimeUnit> = Vec::new();
        if self.years.amount > 0 {
            units.push(self.years);
        }
        assert(units@ =~= if_nonzero(self.years));
        if self.days.amount > 0 {
            units.push(self.days);
        }
        assert(units@ =~= if_nonzero(self.years) + if_nonzero(self.days));
        if self.hours.amount > 0 {
            units.push(self.hours);
        }
        assert(units@ =~= if_nonzero(self.years) + if_nonzero(self.days) + if_nonzero(
            self.hours,
        ));
        if self.minutes.amount > 0 {
            units.push(self.minutes);
        }
        assert(units@ =~= if_nonzero(self.years) + if_nonzero(self.days) + if_nonzero(self.hours)
            + if_nonzero(self.minutes));
        if self.seconds.amount > 0 {
            units.push(self.seconds);
        }
        assert(units@ =~= self.nonzero_units());
        units
    }

    /// Renders the duration as a phrase over its non-zero units, for example
    /// "1 hour, 59 minutes and 59 seconds."; no time at all renders as the
    /// empty string.
    pub fn to_string(&self) -> (r: String)
        ensures
            r@ == phrase(self.nonzero_units()),
    {
        let units = self.iter_units();
        let n = units.len();
        if n == 0 {
            String::new()
        } else if n == 1 {
            let mut s = units[0].to_string();
            s.append(".");
            s
        } else if n == 2 {
            let mut s = units[0].to_string();
            s.append(" and ");
            s.append(units[1].to_string().as_str());
            s.append(".");
            s
        } else {
            let mut s = String::new();
            let mut i: usize = 0;
            while i < n - 2
                invariant
                    n == units@.len(),
                    n >= 3,
                    0 <= i <= n - 2,
                    s@ == comma_list(units@.take(i as int)),
                decreases n - 2 - i,
            {
                s.append(units[i].to_string().as_str());
                s.append(", ");
                assert(units@.take(i + 1).drop_last() =~= units@.take(i as int));
                i = i + 1;
            }
            s.append(units[n - 2].to_string().as_str());
            s.append(" and ");
            s.append(units[n - 1].to_string().as_str());
            s.append(".");
            s
        }
    }

    /// The duration of no time at all: every unit present, with amount zero.
    pub fn new_zeroed() -> (r: Duration)
        ensures
            r == zeroed(),
    {
        Duration {
            seconds: TimeUnit::new(TimeUnitKind::Seconds, 0),
            minutes: TimeUnit::new(TimeUnitKind::Minutes, 0),
            hours: TimeUnit::new(TimeUnitKind::Hours, 0),
            days: TimeUnit::new(TimeUnitKind::Days, 0),
            years: TimeUnit::new(TimeUnitKind::Years, 0),
        }
    }
}

/// A plain count of seconds.
#[derive(PartialEq, Eq, Structural, Clone, Copy, Debug)]
pub struct RawSeconds(pub usize);

/// `n` reduced into the range of `usize`, as wrapping arithmetic leaves it.
pub open spec fn wrap_usize(n: nat) -> usize {
    (n % (usize::MAX as nat + 1)) as usize
}

fn seconds_per_unit(k: TimeUnitKind) -> (r: u128)
    ensures
        r == kind_seconds(k),
{
    match k {
        TimeUnitKind::Seconds => 1,
        TimeUnitKind::Minutes => SECONDS_PER_MINUTE as u128,
        TimeUnitKind::Hours => SECONDS_PER_HOUR as u128,
        TimeUnitKind::Days => SECONDS_PER_DAY as u128,
        TimeUnitKind::Years => SECONDS_PER_YEAR as u128,
    }
}

/// The seconds of a unit, computed wide enough never to overflow.
fn wide_seconds(t: TimeUnit) -> (r: u128)
    ensures
        r == t.in_seconds(),
        r <= 31536000 * 0xffff_ffff_ffff_ffff,
{
    let per = seconds_per_unit(t.kind);
    let amount = t.amount as u128;
    assert(per * amount <= 31536000 * 0xffff_ffff_ffff_ffff) by (nonlinear_arith)
        requires
            per <= 31536000,
            amount <= 0xffff_ffff_ffff_ffff,
    ;
    per * amount
}

fn wrap_to_usize(n: u128) -> (r: usize)
    ensures
        r == wrap_usize(n as nat),
{
    (n % (usize::MAX as u128 + 1)) as usize
}

impl From<TimeUnit> for RawSeconds {
    /// The seconds that the unit stands for (wrapping past `usize::MAX`).
    fn from(t: TimeUnit) -> RawSeconds {
        RawSeconds(wrap_to_usize(wide_seconds(t)))
    }
}

impl vstd::std_specs::convert::FromSpecImpl<TimeUnit> for RawSeconds {
    open spec fn obeys_from_spec() -> bool {
        true
    }

    open spec fn from_spec(t: TimeUnit) -> RawSeconds {
        RawSeconds(wrap_usize(t.in_seconds()))
    }
}

impl From<Duration> for RawSeconds {
    /// The seconds that the whole duration stands for (wrapping past
    /// `usize::MAX`).
    fn from(d: Duration) -> RawSeconds {
        let total = wide_seconds(d.years) + wide_seconds(d.days) + wide_seconds(d.hours)
            + wide_seconds(d.minutes) + wide_seconds(d.seconds);
        RawSeconds(wrap_to_usize(total))
    }
}

impl vstd::std_specs::convert::FromSpecImpl<Duration> for RawSeconds {
    open spec fn obeys_from_spec() -> bool {
        true
    }

    open spec fn from_spec(d: Duration) -> RawSeconds {
        RawSeconds(wrap_usize(d.total_seconds()))
    }
}

/// Splitting `s` seconds loses and duplicates nothing: the units add up to
/// `s` again. Each amount stays below the carry threshold of the next
/// coarser unit, and the years are the whole years in `s`.
pub proof fn lemma_decomposition(s: usize)
    ensures
        decomposition(s).well_kinded(),
        decomposition(s).total_seconds() == s,
        decomposition(s).seconds.amount < 60,
        decomposition(s).minutes.amount < 60,
        decomposition(s).hours.amount < 24,
        decomposition(s).days.amount < 365,
        decomposition(s).years.amount == s / SECONDS_PER_YEAR,
{
    let r1 = s % SECONDS_PER_YEAR;
    let r2 = r1 % SECONDS_PER_DAY;
    let r3 = r2 % SECONDS_PER_HOUR;
    lemma_fundamental_div_mod(s as int, 31536000);
    lemma_fundamental_div_mod(r1 as int, 86400);
    lemma_fundamental_div_mod(r2 as int, 3600);
    lemma_fundamental_div_mod(r3 as int, 60);
    let d = decomposition(s);
    assert(d.years.amount == s / SECONDS_PER_YEAR);
    assert(d.days.amount == r1 / SECONDS_PER_DAY);
    assert(d.hours.amount == r2 / SECONDS_PER_HOUR);
    assert(d.minutes.amount == r3 / SECONDS_PER_MINUTE);
    assert(d.seconds.amount == r3 % SECONDS_PER_MINUTE);
    assert(d.years.in_seconds() == 31536000 * (s / SECONDS_PER_YEAR));
    assert(d.days.in_seconds() == 86400 * (r1 / SECONDS_PER_DAY));
    assert(d.hours.in_seconds() == 3600 * (r2 / SECONDS_PER_HOUR));
    assert(d.minutes.in_seconds() == 60 * (r3 / SECONDS_PER_MINUTE));
    assert(kind_seconds(d.seconds.kind) == 1);
    assert(d.seconds.in_seconds() == d.seconds.amount);
}

proof fn lemma_append_finer(prefix: Seq<TimeUnit>, u: TimeUnit)
    requires
        coarse_to_fine(prefix),
        forall|i: int| 0 <= i < prefix.len() ==> kind_rank(#[trigger] prefix[i].kind) > kind_rank(
            u.kind,
        ),
    ensures
        coarse_to_fine(prefix + if_nonzero(u)),
        forall|i: int|
            0 <= i < (prefix + if_nonzero(u)).len() ==> kind_rank(
                #[trigger] (prefix + if_nonzero(u))[i].kind,
            ) >= kind_rank(u.kind),
{
    let all = prefix + if_nonzero(u);
    assert forall|i: int| 0 <= i < all.len() implies kind_rank(#[trigger] all[i].kind) >= kind_rank(
        u.kind,
    ) by {
        if i < prefix.len() {
            assert(all[i] == prefix[i]);
        }
    }
    assert forall|i: int, j: int| 0 <= i < j < all.len() implies kind_rank(
        #[trigger] all[i].kind,
    ) > kind_rank(#[trigger] all[j].kind) by {
        assert(all[i] == prefix[i]);
        if j < prefix.len() {
            assert(all[j] == prefix[j]);
        }
    }
}

/// Whatever amounts are zero, the units that remain come coarsest first:
/// years, days, hours, minutes, seconds. Each of them has a non-zero amount,
/// and each field with a non-zero amount is among them.
pub proof fn lemma_nonzero_units_order(d: Duration)
    requires
        d.well_kinded(),
    ensures
        coarse_to_fine(d.nonzero_units()),
        forall|i: int|
            0 <= i < d.nonzero_units().len() ==> (#[trigger] d.nonzero_units()[i]).amount > 0,
        d.years.amount > 0 ==> d.nonzero_units().contains(d.years),
        d.days.amount > 0 ==> d.nonzero_units().contains(d.days),
        d.hours.amount > 0 ==> d.nonzero_units().contains(d.hours),
        d.minutes.amount > 0 ==> d.nonzero_units().contains(d.minutes),
        d.seconds.amount > 0 ==> d.nonzero_units().contains(d.seconds),
{
    let s1 = if_nonzero(d.years);
    let s2 = s1 + if_nonzero(d.days);
    let s3 = s2 + if_nonzero(d.hours);
    let s4 = s3 + if_nonzero(d.minutes);
    let s5 = s4 + if_nonzero(d.seconds);
    assert(s5 == d.nonzero_units());
    lemma_append_finer(Seq::empty(), d.years);
    assert(Seq::<TimeUnit>::empty() + s1 =~= s1);
    lemma_append_finer(s1, d.days);
    lemma_append_finer(s2, d.hours);
    lemma_append_finer(s3, d.minutes);
    lemma_append_finer(s4, d.seconds);
    assert forall|i: int| 0 <= i < s5.len() implies (#[trigger] s5[i]).amount > 0 by {
        if i < s4.len() {
            assert(s5[i] == s4[i]);
            if i < s3.len() {
                assert(s4[i] == s3[i]);
                if i < s2.len() {
                    assert(s3[i] == s2[i]);
                    if i < s1.len() {
                        assert(s2[i] == s1[i]);
                    }
                }
            }
        }
    }
    if d.years.amount > 0 {
        assert(s5[0] == d.years);
    }
    if d.days.amount > 0 {
        assert(s5[s1.len() as int] == d.days);
    }
    if d.hours.amount > 0 {
        assert(s5[s2.len() as int] == d.hours);
    }
    if d.minutes.amount > 0 {
        assert(s5[s3.len() as int] == d.minutes);
    }
    if d.seconds.amount > 0 {
        assert(s5[s4.len() as int] == d.seconds);
    }
}

/// Converting a duration made from `s` seconds back into seconds gives `s`.
pub proof fn lemma_round_trip(s: usize)
    ensures
        decomposition(s).total_seconds() == s,
        <RawSeconds as vstd::std_specs::convert::FromSpec<Duration>>::from_spec(decomposition(s))
            == RawSeconds(s),
{
    lemma_decomposition(s);
    vstd::arithmetic::div_mod::lemma_small_mod(s as nat, usize::MAX as nat + 1);
}

} // verus!
