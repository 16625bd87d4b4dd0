//! One quantity of one granularity of time, and its English text.
use vstd::prelude::*;
use vstd::string::*;

verus! {

/// The granularities of time, from the finest to the coarsest.
#[derive(PartialEq, Eq, Structural, Clone, Copy, Debug)]
pub enum TimeUnitKind {
    Seconds,
    Minutes,
    Hours,
    Days,
    Years,
}

/// An amount of one granularity of time.
#[derive(PartialEq, Eq, Structural, Clone, Copy, Debug)]
pub struct TimeUnit {
    /// The granularity of the amount of time.
    pub kind: TimeUnitKind,
    /// The quantifier for the kind of time unit.
    pub amount: usize,
}

/// Position of a kind in the order of granularities: seconds are the
/// finest (0), years the coarsest (4).
pub open spec fn kind_rank(k: TimeUnitKind) -> nat {
    match k {
        TimeUnitKind::Seconds => 0,
        TimeUnitKind::Minutes => 1,
        TimeUnitKind::Hours => 2,
        TimeUnitKind::Days => 3,
        TimeUnitKind::Years => 4,
    }
}

/// How many seconds one unit of the kind holds (a year is 365 days).
pub open spec fn kind_seconds(k: TimeUnitKind) -> nat {
    match k {
        TimeUnitKind::Seconds => 1,
        TimeUnitKind::Minutes => 60,
        TimeUnitKind::Hours => 3600,
        TimeUnitKind::Days => 86400,
        TimeUnitKind::Years => 31536000,
    }
}

/// The singular English noun of a kind.
pub open spec fn noun(k: TimeUnitKind) -> Seq<char> {
    match k {
        TimeUnitKind::Seconds => "second"@,
        TimeUnitKind::Minutes => "minute"@,
        TimeUnitKind::Hours => "hour"@,
        TimeUnitKind::Days => "day"@,
        TimeUnitKind::Years => "year"@,
    }
}

/// The character of a decimal digit.
pub open spec fn digit_char(d: nat) -> char {
    if d == 0 {
        '0'
    } else if d == 1 {
        '1'
    } else if d == 2 {
        '2'
    } else if d == 3 {
        '3'
    } else if d == 4 {
        '4'
    } else if d == 5 {
        '5'
    } else if d == 6 {
        '6'
    } else if d == 7 {
        '7'
    } else if d == 8 {
        '8'
    } else {
        '9'
    }
}

/// The decimal notation of a natural number, without leading zeros.
pub open spec fn decimal(n: nat) -> Seq<char>
    decreases n,
{
    if n < 10 {
        seq![digit_char(n)]
    } else {
        decimal(n / 10) + seq![digit_char(n % 10)]
    }
}

impl TimeUnit {
    /// The number of seconds that the unit stands for.
    pub open spec fn in_seconds(self) -> nat {
        kind_seconds(self.kind) * (self.amount as nat)
    }

    /// The text of the unit: `{amount} {noun}`, with an `s` added to the
    /// noun when the amount is more than one.
    pub open spec fn text(self) -> Seq<char> {
        decimal(self.amount as nat) + " "@ + noun(self.kind) + if self.amount > 1 {
            "s"@
        } else {
            Seq::<char>::empty()
        }
    }

    /// A unit of the given kind and amount; any amount, zero included.
    pub fn new(kind: TimeUnitKind, amount: usize) -> (r: TimeUnit)
        ensures
            r.kind == kind,
            r.amount == amount,
    {
        TimeUnit { kind, amount }
    }

    /// Renders the unit as `{amount} {noun}[s]`, for example "2 hours" or
    /// "1 day"; an amount of zero keeps the singular ("0 second").
    pub fn to_string(&self) -> (r: String)
        ensures
            r@ == self.text(),
    {
        let mut s = String::new();
        push_decimal(&mut s, self.amount);
        s.append(" ");
        s.append(noun_str(self.kind));
        if self.amount > 1 {
            s.append("s");
        }
        s
    }
}

fn noun_str(k: TimeUnitKind) -> (r: &'static str)
    ensures
        r@ == noun(k),
{
    match k {
        TimeUnitKind::Seconds => "second",
        TimeUnitKind::Minutes => "minute",
        TimeUnitKind::Hours => "hour",
        TimeUnitKind::Days => "day",
        TimeUnitKind::Years => "year",
    }
}

fn digit_str(d: usize) -> (r: &'static str)
    requires
        d < 10,
    ensures
        r@ == seq![digit_char(d as nat)],
{
    proof {
        reveal_strlit("0");
        reveal_strlit("1");
        reveal_strlit("2");
        reveal_strlit("3");
        reveal_strlit("4");
        reveal_strlit("5");
        reveal_strlit("6");
        reveal_strlit("7");
        reveal_strlit("8");
        reveal_strlit("9");
    }
    if d == 0 {
        "0"
    } else if d == 1 {
        "1"
    } else if d == 2 {
        "2"
    } else if d == 3 {
        "3"
    } else if d == 4 {
        "4"
    } else if d == 5 {
        "5"
    } else if d == 6 {
        "6"
    } else if d == 7 {
        "7"
    } else if d == 8 {
        "8"
    } else {
        "9"
    }
}

/// Appends the decimal notation of `n` to `s`.
fn push_decimal(s: &mut String, n: usize)
    ensures
        final(s)@ == old(s)@ + decimal(n as nat),
    decreases n,
{
    if n >= 10 {
        push_decimal(s, n / 10);
    }
    s.append(digit_str(n % 10));
    assert(s@ =~= old(s)@ + decimal(n as nat));
}

/// No noun ends in `s`, so the text of a unit ends in `s` exactly when an
/// `s` was added to it: never for an amount of zero or one, always for an
/// amount of two or more.
pub proof fn lemma_plural_threshold(u: TimeUnit)
    ensures
        u.amount <= 1 ==> u.text() == decimal(u.amount as nat) + " "@ + noun(u.kind),
        u.amount <= 1 ==> u.text().last() != 's',
        u.amount >= 2 ==> u.text() == decimal(u.amount as nat) + " "@ + noun(u.kind) + "s"@,
        u.amount >= 2 ==> u.text().last() == 's',
{
    reveal_strlit("second");
    reveal_strlit("minute");
    reveal_strlit("hour");
    reveal_strlit("day");
    reveal_strlit("year");
    reveal_strlit("s");
    let base = decimal(u.amount as nat) + " "@ + noun(u.kind);
    if u.amount <= 1 {
        assert(u.text() =~= base);
    }
}

/// Two units are equal exactly when their kinds and their amounts are.
pub proof fn lemma_unit_equality(a: TimeUnit, b: TimeUnit)
    ensures
        (a == b) <==> (a.kind == b.kind && a.amount == b.amount),
{
}

} // verus!
