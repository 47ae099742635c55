//! What the dashboard asks of the numbers that it shows.
use std::time::Duration;
use vstd::prelude::*;

verus! {

/// A computation with numbers. The number type is `V`.
#[derive(Debug)]
pub enum Operation<V> {
    /// The sum of two numbers.
    Plus(V, V),
    /// The first number less the second.
    Minus(V, V),
    /// The smaller of two numbers.
    Lesser(V, V),
    /// The greater of two numbers.
    Greater(V, V),
    /// A sum divided by the count of what was summed.
    Mean(V, usize),
    /// A count as a number.
    Count(usize),
    /// A number that no other exceeds.
    Highest,
    /// A number that exceeds no other.
    Lowest,
    /// A tenth of a number.
    Tenth(V),
}

/// A question about a number.
#[derive(Debug)]
pub enum Test<V> {
    /// Whether the number without its sign is at least this.
    AtLeast(V, u16),
    /// Whether the number has no fractional part.
    Whole(V),
}

/// How to work with numbers: `compute` carries out a computation, `test` answers a question,
/// `fixed` writes a number with so many decimals, and `seconds` writes a time in seconds.
#[derive(Debug)]
pub struct Numbers<C, T, X, S> {
    pub compute: C,
    pub test: T,
    pub fixed: X,
    pub seconds: S,
}

/// Whether every computation can be carried out.
pub open spec fn can_compute<V, C: Fn(Operation<V>) -> V>(compute: C) -> bool {
    forall|operation: Operation<V>| #[trigger] call_requires(compute, (operation,))
}

/// Whether a computation can come out as `result`.
pub open spec fn computes<V, C: Fn(Operation<V>) -> V>(
    compute: C,
    operation: Operation<V>,
    result: V,
) -> bool {
    call_ensures(compute, (operation,), result)
}

impl<C, T, X, S> Numbers<C, T, X, S> {
    /// Whether every computation can be carried out, every question be answered, and every number
    /// and time be written.
    pub open spec fn ready<V>(&self) -> bool where
        C: Fn(Operation<V>) -> V,
        T: Fn(Test<V>) -> bool,
        X: Fn(V, usize) -> String,
        S: Fn(Duration) -> String,
     {
        &&& can_compute(self.compute)
        &&& forall|question: Test<V>| #[trigger] call_requires(self.test, (question,))
        &&& forall|value: V, decimals: usize| #[trigger] call_requires(self.fixed, (value, decimals))
        &&& forall|time: Duration| #[trigger] call_requires(self.seconds, (time,))
    }
}

/// The decimals that a number is written with: none for one of at least a thousand and for one
/// without a fractional part, one for one of at least ten, and two for any other.
pub open spec fn decimals_shown(thousands: bool, whole: bool, tens: bool) -> usize {
    if thousands || whole {
        0
    } else if tens {
        1
    } else {
        2
    }
}

impl<C, T, X, S> Numbers<C, T, X, S> {
    /// Whether `text` can be how a number is written.
    pub open spec fn writes<V>(&self, value: V, text: Seq<char>) -> bool where
        T: Fn(Test<V>) -> bool,
        X: Fn(V, usize) -> String,
     {
        exists|thousands: bool, whole: bool, tens: bool, written: String|
            {
                &&& call_ensures(self.test, (Test::AtLeast(value, 1000),), thousands)
                &&& call_ensures(self.test, (Test::Whole(value),), whole)
                &&& call_ensures(self.test, (Test::AtLeast(value, 10),), tens)
                &&& #[trigger] call_ensures(
                    self.fixed,
                    (value, #[trigger] decimals_shown(thousands, whole, tens)),
                    written,
                )
                &&& text == written@
            }
    }

    /// Whether `text` can be how a number with a unit is written.
    pub open spec fn writes_value<V>(&self, value: V, unit: Seq<char>, text: Seq<char>) -> bool where
        T: Fn(Test<V>) -> bool,
        X: Fn(V, usize) -> String,
     {
        exists|number: Seq<char>| #[trigger]
            self.writes(value, number) && text == if unit.len() == 0 {
                number
            } else {
                number + " "@ + unit
            }
    }

    /// Whether `text` can be how a time in seconds is written, with `unit` behind it.
    pub open spec fn writes_age(&self, time: Duration, unit: Seq<char>, text: Seq<char>) -> bool where
        S: Fn(Duration) -> String,
     {
        exists|seconds: String| #[trigger]
            call_ensures(self.seconds, (time,), seconds) && text == seconds@ + unit
    }

    /// Writes a number.
    pub fn format_compact<V: Copy>(&self, value: V) -> (text: String) where
        C: Fn(Operation<V>) -> V,
        T: Fn(Test<V>) -> bool,
        X: Fn(V, usize) -> String,
        S: Fn(Duration) -> String,

        requires
            self.ready::<V>(),
        ensures
            self.writes(value, text@),
    {
        let thousands: bool = (self.test)(Test::AtLeast(value, 1000));
        let whole: bool = (self.test)(Test::Whole(value));
        let tens: bool = (self.test)(Test::AtLeast(value, 10));
        let decimals: usize = if thousands || whole {
            0
        } else if tens {
            1
        } else {
            2
        };
        assert(decimals == decimals_shown(thousands, whole, tens));
        (self.fixed)(value, decimals)
    }

    /// Writes a number with its unit.
    pub fn format_value<V: Copy>(&self, value: V, unit: &str) -> (text: String) where
        C: Fn(Operation<V>) -> V,
        T: Fn(Test<V>) -> bool,
        X: Fn(V, usize) -> String,
        S: Fn(Duration) -> String,

        requires
            self.ready::<V>(),
        ensures
            self.writes_value(value, unit@, text@),
    {
        let mut text: String = self.format_compact(value);
        let ghost number = text@;
        if !unit.is_empty() {
            text.append(" ");
            text.append(unit);
        }
        assert(self.writes(value, number));
        text
    }

    /// Writes a time in seconds, with `unit` behind it.
    pub fn format_age<V>(&self, time: Duration, unit: &str) -> (text: String) where
        C: Fn(Operation<V>) -> V,
        T: Fn(Test<V>) -> bool,
        X: Fn(V, usize) -> String,
        S: Fn(Duration) -> String,

        requires
            self.ready::<V>(),
        ensures
            self.writes_age(time, unit@, text@),
    {
        let mut text: String = (self.seconds)(time);
        text.append(unit);
        text
    }
}

/// A number is written without decimals where it is at least a thousand or has no fractional part,
/// else with one where it is at least ten, and else with two.
pub proof fn numbers_are_written_with_their_decimals<V, C, T, X, S>(
    numbers: Numbers<C, T, X, S>,
    value: V,
    text: Seq<char>,
) where T: Fn(Test<V>) -> bool, X: Fn(V, usize) -> String
    requires
        numbers.writes(value, text),
    ensures
        exists|thousands: bool, whole: bool, tens: bool, decimals: usize, written: String|
            {
                &&& #[trigger] call_ensures(
                    numbers.test,
                    (Test::AtLeast(value, 1000),),
                    thousands,
                )
                &&& #[trigger] call_ensures(numbers.test, (Test::Whole(value),), whole)
                &&& #[trigger] call_ensures(numbers.test, (Test::AtLeast(value, 10),), tens)
                &&& #[trigger] call_ensures(numbers.fixed, (value, decimals), written)
                &&& thousands ==> decimals == 0
                &&& whole ==> decimals == 0
                &&& !thousands && !whole && tens ==> decimals == 1
                &&& !thousands && !whole && !tens ==> decimals == 2
                &&& text == written@
            },
{
    let (thousands, whole, tens, written) = choose|
        thousands: bool,
        whole: bool,
        tens: bool,
        written: String,
    |
        {
            &&& call_ensures(numbers.test, (Test::AtLeast(value, 1000),), thousands)
            &&& call_ensures(numbers.test, (Test::Whole(value),), whole)
            &&& call_ensures(numbers.test, (Test::AtLeast(value, 10),), tens)
            &&& #[trigger] call_ensures(
                numbers.fixed,
                (value, #[trigger] decimals_shown(thousands, whole, tens)),
                written,
            )
            &&& text == written@
        };
    let decimals = decimals_shown(thousands, whole, tens);
    assert(call_ensures(numbers.test, (Test::AtLeast(value, 1000),), thousands));
    assert(call_ensures(numbers.test, (Test::Whole(value),), whole));
    assert(call_ensures(numbers.test, (Test::AtLeast(value, 10),), tens));
    assert(call_ensures(numbers.fixed, (value, decimals), written));
}

/// A number with a unit is the number, a blank and the unit; without one it is the number alone.
pub proof fn units_stand_behind_numbers<V, C, T, X, S>(
    numbers: Numbers<C, T, X, S>,
    value: V,
    unit: Seq<char>,
    text: Seq<char>,
) where T: Fn(Test<V>) -> bool, X: Fn(V, usize) -> String
    requires
        numbers.writes_value(value, unit, text),
    ensures
        unit.len() == 0 ==> numbers.writes(value, text),
        unit.len() > 0 ==> exists|number: Seq<char>| #[trigger]
            numbers.writes(value, number) && text == number + seq![' '] + unit,
        unit.len() > 0 ==> text.len() > unit.len() && text.skip(text.len() - unit.len()) == unit
            && text[text.len() - unit.len() - 1] == ' ',
{
    reveal_strlit(" ");
    assert(" "@ =~= seq![' ']);
    let number = choose|number: Seq<char>| #[trigger]
        numbers.writes(value, number) && text == if unit.len() == 0 {
            number
        } else {
            number + " "@ + unit
        };
    if unit.len() > 0 {
        assert(text == number + seq![' '] + unit);
        assert(text.skip(text.len() - unit.len()) =~= unit);
    }
}

/// A time is written in seconds with its unit behind it.
pub proof fn units_stand_behind_times<C, T, X, S>(
    numbers: Numbers<C, T, X, S>,
    time: Duration,
    unit: Seq<char>,
    text: Seq<char>,
) where S: Fn(Duration) -> String
    requires
        numbers.writes_age(time, unit, text),
    ensures
        exists|seconds: String| #[trigger]
            call_ensures(numbers.seconds, (time,), seconds) && text == seconds@ + unit,
{
}

} // verus!
