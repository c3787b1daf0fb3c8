//! Exact decimal numbers and the dynamically typed values a document holds.
use vstd::prelude::*;

verus! {

/// An exact decimal number: `digits * 10^exponent`, negated when `negative`.
///
/// `0.5` is `Decimal { negative: false, digits: 5, exponent: -1 }`.
#[derive(Clone, Copy, Debug, PartialEq, Eq, Structural)]
pub struct Decimal {
    pub negative: bool,
    pub digits: u64,
    pub exponent: i32,
}

pub open spec fn pow10(n: nat) -> nat
    decreases n,
{
    if n == 0 {
        1
    } else {
        10 * pow10((n - 1) as nat)
    }
}

pub open spec fn min_int(a: int, b: int) -> int {
    if a <= b {
        a
    } else {
        b
    }
}

impl Decimal {
    /// The signed mantissa.
    pub open spec fn signed(self) -> int {
        if self.negative {
            -(self.digits as int)
        } else {
            self.digits as int
        }
    }

    /// The mantissa scaled to the exponent `e`, for `e` not above `self.exponent`.
    pub open spec fn scaled_to(self, e: int) -> int {
        self.signed() * pow10((self.exponent - e) as nat)
    }

    /// `self < other` as rational numbers.
    pub open spec fn spec_lt(self, other: Decimal) -> bool {
        let e = min_int(self.exponent as int, other.exponent as int);
        self.scaled_to(e) < other.scaled_to(e)
    }

    pub fn new(negative: bool, digits: u64, exponent: i32) -> (r: Decimal)
        ensures
            r == (Decimal { negative, digits, exponent }),
    {
        Decimal { negative, digits, exponent }
    }

    /// The integer `n`.
    pub fn from_i64(n: i64) -> (r: Decimal)
        ensures
            r.signed() == n,
            r.exponent == 0,
    {
        if n < 0 {
            let m: u64 = if n == i64::MIN {
                9223372036854775808u64
            } else {
                (-n) as u64
            };
            Decimal { negative: true, digits: m, exponent: 0 }
        } else {
            Decimal { negative: false, digits: n as u64, exponent: 0 }
        }
    }

    /// Whether `self < other` as rational numbers.
    pub fn less_than(&self, other: &Decimal) -> (r: bool)
        ensures
            r == self.spec_lt(*other),
    {
        let a_neg = self.negative && self.digits != 0;
        let b_neg = other.negative && other.digits != 0;
        let e = if self.exponent <= other.exponent {
            self.exponent
        } else {
            other.exponent
        };
        let ka: u32 = (self.exponent as i64 - e as i64) as u32;
        let kb: u32 = (other.exponent as i64 - e as i64) as u32;
        let c = if ka > 0 {
            compare_scaled(self.digits, ka, other.digits)
        } else {
            -compare_scaled(other.digits, kb, self.digits)
        };
        let ghost ma = self.digits * pow10(ka as nat);
        let ghost mb = other.digits * pow10(kb as nat);
        proof {
            assert(ka == 0 || kb == 0);
            assert(self.scaled_to(e as int) == self.signed() * pow10(ka as nat));
            assert(other.scaled_to(e as int) == other.signed() * pow10(kb as nat));
            assert(pow10(0) == 1) by {
                reveal_with_fuel(pow10, 1);
            }
            lemma_pow10_positive(ka as nat);
            lemma_pow10_positive(kb as nat);
            if self.negative {
                assert(self.signed() * pow10(ka as nat) == -ma) by (nonlinear_arith)
                    requires
                        self.signed() == -(self.digits as int),
                        ma == self.digits * pow10(ka as nat),
                ;
            }
            if other.negative {
                assert(other.signed() * pow10(kb as nat) == -mb) by (nonlinear_arith)
                    requires
                        other.signed() == -(other.digits as int),
                        mb == other.digits * pow10(kb as nat),
                ;
            }
            assert(self.digits == 0 <==> ma == 0) by (nonlinear_arith)
                requires
                    ma == self.digits * pow10(ka as nat),
                    pow10(ka as nat) > 0,
            ;
            assert(other.digits == 0 <==> mb == 0) by (nonlinear_arith)
                requires
                    mb == other.digits * pow10(kb as nat),
                    pow10(kb as nat) > 0,
            ;
        }
        if a_neg && !b_neg {
            true
        } else if !a_neg && b_neg {
            false
        } else if !a_neg {
            c < 0
        } else {
            c > 0
        }
    }
}

proof fn lemma_pow10_positive(n: nat)
    ensures
        pow10(n) >= 1,
    decreases n,
{
    if n > 0 {
        lemma_pow10_positive((n - 1) as nat);
    }
}

proof fn lemma_pow10_large(n: nat)
    requires
        n >= 20,
    ensures
        pow10(n) >= 100000000000000000000,
    decreases n,
{
    if n > 20 {
        lemma_pow10_large((n - 1) as nat);
    } else {
        reveal_with_fuel(pow10, 21);
    }
}

/// Compares `a * 10^k` with `b`: -1 when smaller, 0 when equal, 1 when larger.
fn compare_scaled(a: u64, k: u32, b: u64) -> (r: i8)
    ensures
        r == -1 <==> a * pow10(k as nat) < b,
        r == 0 <==> a * pow10(k as nat) == b,
        r == 1 <==> a * pow10(k as nat) > b,
{
    if a == 0 {
        assert(a * pow10(k as nat) == 0);
        return if b == 0 {
            0
        } else {
            -1
        };
    }
    if k >= 20 {
        proof {
            lemma_pow10_large(k as nat);
            assert(a * pow10(k as nat) >= pow10(k as nat)) by (nonlinear_arith)
                requires
                    a >= 1,
            ;
        }
        return 1;
    }
    let mut p: u128 = 1;
    let mut i: u32 = 0;
    while i < k
        invariant
            i <= k < 20,
            p == pow10(i as nat),
            p <= 10000000000000000000u128,
        decreases k - i,
    {
        proof {
            lemma_pow10_bound(i as nat);
        }
        p = p * 10;
        i = i + 1;
    }
    assert(a as u128 * p <= 18446744073709551615u128 * 10000000000000000000u128) by (nonlinear_arith)
        requires
            a <= 18446744073709551615u64,
            p <= 10000000000000000000u128,
    ;
    let scaled: u128 = a as u128 * p;
    let bb: u128 = b as u128;
    if scaled < bb {
        -1
    } else if scaled == bb {
        0
    } else {
        1
    }
}

pub proof fn lemma_pow10_monotone(a: nat, b: nat)
    requires
        a <= b,
    ensures
        pow10(a) <= pow10(b),
    decreases b - a,
{
    if a < b {
        lemma_pow10_monotone(a, (b - 1) as nat);
        lemma_pow10_positive((b - 1) as nat);
    }
}

proof fn lemma_pow10_bound(n: nat)
    requires
        n <= 18,
    ensures
        pow10(n) <= 1000000000000000000,
{
    lemma_pow10_monotone(n, 18);
    reveal_with_fuel(pow10, 19);
}

/// A dynamically typed value, as a document holds it for a field.
#[derive(Debug)]
pub enum Value {
    Null,
    Bool(bool),
    Number(Decimal),
    String(String),
    Array(Vec<Value>),
    Object(Vec<(String, Value)>),
}

/// The kind of a value, as validation errors name it.
pub open spec fn kind_name(v: Value) -> Seq<char> {
    match v {
        Value::Null => "Null"@,
        Value::Bool(_) => "Boolean"@,
        Value::Number(_) => "Number"@,
        Value::String(_) => "String"@,
        Value::Array(_) => "Array"@,
        Value::Object(_) => "Object"@,
    }
}

impl Value {
    /// The name of this value's kind: `Null`, `Boolean`, `Number`, `String`,
    /// `Array` or `Object`.
    pub fn kind(&self) -> (r: String)
        ensures
            r@ == kind_name(*self),
    {
        let s = match self {
            Value::Null => "Null",
            Value::Bool(_) => "Boolean",
            Value::Number(_) => "Number",
            Value::String(_) => "String",
            Value::Array(_) => "Array",
            Value::Object(_) => "Object",
        };
        String::from_str(s)
    }

    pub fn is_null(&self) -> (r: bool)
        ensures
            r == (*self is Null),
    {
        match self {
            Value::Null => true,
            _ => false,
        }
    }
}

} // verus!
