use vstd::prelude::*;
use crate::text::{chars_of, string_of};

verus! {

/// Bits of a 64-bit float other than the sign.
pub const MAGNITUDE: u64 = 0x7fff_ffff_ffff_ffff;

/// The sign bit of a 64-bit float.
pub const SIGN: u64 = 0x8000_0000_0000_0000;

/// Exponent bits of a 64-bit float.
pub const EXPONENT: u64 = 0x7ff0_0000_0000_0000;

/// Fraction bits of a 64-bit float.
pub const FRACTION: u64 = 0x000f_ffff_ffff_ffff;

/// The bits of the number 1.
pub const ONE: u64 = 0x3ff0_0000_0000_0000;

/// The bits of positive infinity.
pub const INFINITY: u64 = 0x7ff0_0000_0000_0000;

/// A runtime value. A number is held as the IEEE 754 bit pattern of a 64-bit float.
#[derive(Debug)]
pub enum Value {
    Number(u64),
    Text(String),
    Bool(bool),
}

/// What a value holds: a number's bits, text as characters, or a boolean.
pub enum Datum {
    Number(u64),
    Text(Seq<char>),
    Bool(bool),
}

impl View for Value {
    type V = Datum;

    open spec fn view(&self) -> Datum {
        match self {
            Value::Number(b) => Datum::Number(*b),
            Value::Text(s) => Datum::Text(s@),
            Value::Bool(b) => Datum::Bool(*b),
        }
    }
}

/// The number zero, for a name that was never bound.
pub open spec fn unbound() -> Datum {
    Datum::Number(0)
}

/// Whether the float with bits `b` is zero, of either sign.
pub open spec fn is_zero_bits(b: u64) -> bool {
    b & MAGNITUDE == 0
}

/// Whether the float with bits `b` is not a number.
pub open spec fn is_nan_bits(b: u64) -> bool {
    b & EXPONENT == EXPONENT && b & FRACTION != 0
}

/// A boolean is itself; a number is true when it is not zero; text when it is not empty.
pub open spec fn truthy(v: Datum) -> bool {
    match v {
        Datum::Bool(b) => b,
        Datum::Number(b) => !is_zero_bits(b),
        Datum::Text(s) => s.len() > 0,
    }
}

/// Equality of values: same kind and same content; numbers compare as floats do (the two zeros
/// are equal, a NaN equals nothing).
pub open spec fn same_value(a: Datum, b: Datum) -> bool {
    match (a, b) {
        (Datum::Number(x), Datum::Number(y)) => (is_zero_bits(x) && is_zero_bits(y)) || (
        !is_nan_bits(x) && x == y),
        (Datum::Text(x), Datum::Text(y)) => x == y,
        (Datum::Bool(x), Datum::Bool(y)) => x == y,
        _ => false,
    }
}

/// The number a value stands for: a number itself, a boolean 1 or 0, text as `read` reads it.
pub open spec fn to_number(read: spec_fn(Seq<char>) -> u64, v: Datum) -> u64 {
    match v {
        Datum::Number(b) => b,
        Datum::Bool(b) => if b {
            ONE
        } else {
            0
        },
        Datum::Text(t) => read(t),
    }
}

/// How a value is printed: a number as `show` writes it, text as itself, a boolean as its
/// keyword.
pub open spec fn shown(show: spec_fn(u64) -> Seq<char>, v: Datum) -> Seq<char> {
    match v {
        Datum::Number(b) => show(b),
        Datum::Text(t) => t,
        Datum::Bool(b) => if b {
            "ong_no_cap"@
        } else {
            "cap"@
        },
    }
}

/// `f` may be called on any string, and gives one number for each sequence of characters.
pub open spec fn reader<R: Fn(&String) -> u64>(f: R) -> bool {
    &&& forall|s: &String| call_requires(f, (s,))
    &&& forall|s1: &String, s2: &String, v1: u64, v2: u64|
        s1@ == s2@ && #[trigger] call_ensures(f, (s1,), v1) && #[trigger] call_ensures(f, (s2,), v2) ==> v1 == v2
}

/// `f` may be called on any number, and writes one text for each.
pub open spec fn shower<S: Fn(u64) -> String>(f: S) -> bool {
    &&& forall|b: u64| call_requires(f, (b,))
    &&& forall|b: u64, s1: String, s2: String|
        #[trigger] call_ensures(f, (b,), s1) && #[trigger] call_ensures(f, (b,), s2) ==> s1@ == s2@
}

/// The number that the reader `f` gives for text `t`.
pub open spec fn read_meaning<R: Fn(&String) -> u64>(f: R) -> spec_fn(Seq<char>) -> u64 {
    |t: Seq<char>| choose|v: u64| reads(f, t, v)
}

/// `f` gives `v` for some string holding `t`.
pub open spec fn reads<R: Fn(&String) -> u64>(f: R, t: Seq<char>, v: u64) -> bool {
    exists|s: String| s@ == t && #[trigger] call_ensures(f, (&s,), v)
}

/// The text that `f` writes for the number with bits `b`.
pub open spec fn show_meaning<S: Fn(u64) -> String>(f: S) -> spec_fn(u64) -> Seq<char> {
    |b: u64| (choose|s: String| call_ensures(f, (b,), s))@
}

/// A string holding `a` followed by `b`.
pub fn join(a: &String, b: &String) -> (r: String)
    ensures
        r@ == a@ + b@,
{
    let mut out = chars_of(a.as_str());
    let tail = chars_of(b.as_str());
    let mut i: usize = 0;
    while i < tail.len()
        invariant
            i <= tail@.len(),
            tail@ == b@,
            out@ == a@ + tail@.subrange(0, i as int),
        decreases tail.len() - i,
    {
        out.push(tail[i]);
        i = i + 1;
        assert(out@ =~= a@ + tail@.subrange(0, i as int));
    }
    assert(tail@.subrange(0, i as int) =~= b@);
    string_of(&out)
}

impl Value {
    pub fn is_truthy(&self) -> (r: bool)
        ensures
            r == truthy(self@),
    {
        match self {
            Value::Bool(b) => *b,
            Value::Number(b) => *b & MAGNITUDE != 0,
            Value::Text(s) => !s.as_str().is_empty(),
        }
    }

    /// Whether `==` holds between the two values.
    pub fn equals(&self, other: &Value) -> (r: bool)
        ensures
            r == same_value(self@, other@),
    {
        match (self, other) {
            (Value::Number(x), Value::Number(y)) => (*x & MAGNITUDE == 0 && *y & MAGNITUDE == 0)
                || (!(*x & EXPONENT == EXPONENT && *x & FRACTION != 0) && *x == *y),
            (Value::Text(x), Value::Text(y)) => *x == *y,
            (Value::Bool(x), Value::Bool(y)) => *x == *y,
            _ => false,
        }
    }

    /// The number this value stands for; `read` reads numbers from text.
    pub fn to_number<R: Fn(&String) -> u64>(&self, read: &R) -> (r: u64)
        requires
            reader(*read),
        ensures
            r == to_number(read_meaning(*read), self@),
    {
        match self {
            Value::Number(b) => *b,
            Value::Bool(b) => if *b {
                ONE
            } else {
                0
            },
            Value::Text(s) => {
                let v = read(s);
                proof {
                    assert(reads(*read, s@, v));
                    let w = read_meaning(*read)(s@);
                    let s2 = choose|s2: String| s2@ == s@ && #[trigger] call_ensures(*read, (&s2,), w);
                    assert(call_ensures(*read, (&s2,), w));
                }
                v
            },
        }
    }

    /// How this value is printed; `show` writes numbers.
    pub fn show<S: Fn(u64) -> String>(&self, show: &S) -> (r: String)
        requires
            shower(*show),
        ensures
            r@ == shown(show_meaning(*show), self@),
    {
        match self {
            Value::Number(b) => {
                let s = show(*b);
                proof {
                    let w = choose|w: String| call_ensures(*show, (*b,), w);
                    assert(call_ensures(*show, (*b,), w));
                }
                s
            },
            Value::Text(s) => s.clone(),
            Value::Bool(b) => {
                let w = if *b {
                    chars_of("ong_no_cap")
                } else {
                    chars_of("cap")
                };
                string_of(&w)
            },
        }
    }

    /// A copy of this value.
    pub fn duplicate(&self) -> (r: Value)
        ensures
            r == *self,
    {
        match self {
            Value::Number(b) => Value::Number(*b),
            Value::Text(s) => Value::Text(s.clone()),
            Value::Bool(b) => Value::Bool(*b),
        }
    }
}

} // verus!
