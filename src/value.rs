use vstd::prelude::*;
use vstd::string::StringSliceAdditionalSpecFns;
use crate::float::{float_to_i64, float_to_i64_spec, float_integer, exponent_field, fraction_field};
use crate::numeral::{parse_integer, numeral_value, format_integer, format_unsigned, decimal, digits_of};
use crate::integer::{floor_div, floor_mod, floor_div_i64, floor_mod_i64};

verus! {

/// Number of distinct 64-bit patterns.
pub open spec fn modulus() -> int {
    0x1_0000_0000_0000_0000
}

/// The two's complement reading of `x` taken modulo 2^64.
pub open spec fn wrap(x: int) -> i64 {
    if x % modulus() > i64::MAX as int {
        (x % modulus() - modulus()) as i64
    } else {
        (x % modulus()) as i64
    }
}

/// `wrap` leaves values of `i64` alone and sends 2^63 to `i64::MIN`.
pub proof fn lemma_wrap_in_range(x: int)
    ensures
        i64::MIN <= x <= i64::MAX ==> wrap(x) == x,
        x == 0x8000_0000_0000_0000 ==> wrap(x) == i64::MIN,
{
    if 0 <= x < modulus() {
        vstd::arithmetic::div_mod::lemma_fundamental_div_mod_converse(x, modulus(), 0, x);
    } else if -modulus() <= x < 0 {
        vstd::arithmetic::div_mod::lemma_fundamental_div_mod_converse(x, modulus(), -1, x + modulus());
    }
}

/// Integer arithmetic wraps as two's complement does: the result is an `i64`
/// that differs from the exact value by a multiple of 2^64.
pub proof fn lemma_wrap_twos_complement(x: int)
    ensures
        (wrap(x) as int - x) % modulus() == 0,
{
    vstd::arithmetic::div_mod::lemma_fundamental_div_mod(x, modulus());
    let q = x / modulus();
    let m = x % modulus();
    if m > i64::MAX as int {
        vstd::arithmetic::div_mod::lemma_fundamental_div_mod_converse(m - modulus() - x, modulus(), -q - 1, 0);
    } else {
        vstd::arithmetic::div_mod::lemma_fundamental_div_mod_converse(m - x, modulus(), -q, 0);
    }
}

/// A reference to a function object: compiled code or a native callback.
/// Heap objects are named by their handle in the arena that owns them.
#[derive(Debug, Clone, Copy, PartialEq, Eq, Hash, Structural)]
pub enum Function {
    Closure(usize),
    Callback(usize),
}

/// A dynamically typed value. `Number` holds the bit pattern of an IEEE 754
/// double; `String` holds the bytes of the string; the other reference
/// variants hold the handle of a heap object, which is also its identity.
#[derive(Debug, Clone)]
pub enum Value {
    Nil,
    Boolean(bool),
    Integer(i64),
    Number(u64),
    String(Vec<u8>),
    Table(usize),
    Function(Function),
    Thread(usize),
}

/// An argument whose runtime type does not fit the operation.
#[derive(Debug, Clone, Copy)]
pub struct TypeError {
    pub expected: &'static str,
    pub found: &'static str,
}

/// What an arithmetic, comparison or conversion operator comes to without floating point:
/// a result, a failure, or the float path on both operands' numeric values.
#[derive(Debug, Clone, PartialEq, Eq)]
pub enum Outcome<T> {
    Done(T),
    Float,
    Fail,
}

pub open spec fn type_label_of(v: Value) -> Seq<char> {
    match v {
        Value::Nil => "nil"@,
        Value::Boolean(_) => "boolean"@,
        Value::Integer(_) => "number"@,
        Value::Number(_) => "number"@,
        Value::String(_) => "string"@,
        Value::Table(_) => "table"@,
        Value::Function(_) => "function"@,
        Value::Thread(_) => "thread"@,
    }
}

pub open spec fn truthy(v: Value) -> bool {
    match v {
        Value::Nil => false,
        Value::Boolean(b) => b,
        _ => true,
    }
}

/// Values that may take part in arithmetic: numbers, and any string; whether
/// a string reads as a numeral is settled on the float path.
pub open spec fn is_numeric(v: Value) -> bool {
    v is Integer || v is Number || v is String
}

/// The outcome of `add`, `subtract` or `multiply`, where `int_op` is the exact
/// result on two integers before it wraps.
pub open spec fn arith_outcome(a: Value, b: Value, int_op: spec_fn(int, int) -> int) -> Outcome<Value> {
    if a is Integer && b is Integer {
        Outcome::Done(Value::Integer(wrap(int_op(a->Integer_0 as int, b->Integer_0 as int))))
    } else if is_numeric(a) && is_numeric(b) {
        Outcome::Float
    } else {
        Outcome::Fail
    }
}

/// The outcome of an operator that is computed on floats alone.
pub open spec fn float_outcome<T>(a: Value, b: Value) -> Outcome<T> {
    if is_numeric(a) && is_numeric(b) {
        Outcome::Float
    } else {
        Outcome::Fail
    }
}

/// Every integer of magnitude at most 2^53 is exactly a double.
pub open spec fn exact_float_bound() -> int {
    0x20_0000_0000_0000
}

/// What a string comes to as an integer without reading floats: a decimal
/// numeral small enough that its double is exact stands for itself; every
/// other string is read as a float first, on the float path.
pub open spec fn string_integer(s: Seq<u8>) -> Outcome<i64> {
    match numeral_value(s) {
        Some(v) => if -exact_float_bound() <= v <= exact_float_bound() {
            Outcome::Done(v as i64)
        } else {
            Outcome::Float
        },
        None => Outcome::Float,
    }
}

/// The integer a value stands for: an integer itself, a float only when it
/// equals an `i64` exactly, a string as `string_integer` says.
pub open spec fn integer_of(v: Value) -> Outcome<i64> {
    match v {
        Value::Integer(i) => Outcome::Done(i),
        Value::Number(b) => match float_to_i64_spec(b) {
            Some(i) => Outcome::Done(i),
            None => Outcome::Fail,
        },
        Value::String(s) => string_integer(s@),
        _ => Outcome::Fail,
    }
}

/// Two operands' integers: both known, either one failed, or else one of them
/// still to be read on the float path.
pub open spec fn pair_of(a: Outcome<i64>, b: Outcome<i64>) -> Outcome<(i64, i64)> {
    match (a, b) {
        (Outcome::Done(x), Outcome::Done(y)) => Outcome::Done((x, y)),
        (Outcome::Fail, _) => Outcome::Fail,
        (_, Outcome::Fail) => Outcome::Fail,
        _ => Outcome::Float,
    }
}

/// The outcome of a bitwise operator `op` on two values.
pub open spec fn bitwise_outcome(a: Value, b: Value, op: spec_fn(i64, i64) -> i64) -> Outcome<Value> {
    match pair_of(integer_of(a), integer_of(b)) {
        Outcome::Done((x, y)) => Outcome::Done(Value::Integer(op(x, y))),
        Outcome::Float => Outcome::Float,
        Outcome::Fail => Outcome::Fail,
    }
}

/// Shifts the 64-bit pattern of `x` left by `n` places, right (logically) for
/// a negative `n`; a shift by 64 places or more clears every bit.
pub open spec fn shift_bits(x: i64, n: int) -> i64 {
    if n <= -64 || n >= 64 {
        0
    } else if n >= 0 {
        ((x as u64) << (n as u64)) as i64
    } else {
        ((x as u64) >> ((-n) as u64)) as i64
    }
}

/// Byte-lexicographic order: a proper prefix comes first.
pub open spec fn bytes_lt(s: Seq<u8>, t: Seq<u8>) -> bool
    decreases s.len(),
{
    if s.len() == 0 {
        t.len() > 0
    } else if t.len() == 0 {
        false
    } else if s[0] != t[0] {
        s[0] < t[0]
    } else {
        bytes_lt(s.drop_first(), t.drop_first())
    }
}

/// The outcome of `less_than` (or, with `or_equal`, of `less_equal`).
pub open spec fn compare_outcome(a: Value, b: Value, or_equal: bool) -> Outcome<bool> {
    match (a, b) {
        (Value::Integer(x), Value::Integer(y)) => Outcome::Done(if or_equal { x <= y } else { x < y }),
        (Value::String(s), Value::String(t)) => Outcome::Done(
            if or_equal { bytes_lt(s@, t@) || s@ == t@ } else { bytes_lt(s@, t@) },
        ),
        _ => float_outcome::<bool>(a, b),
    }
}

pub open spec fn is_nan(b: u64) -> bool {
    exponent_field(b) == 2047 && fraction_field(b) != 0
}

pub open spec fn is_zero(b: u64) -> bool {
    exponent_field(b) == 0 && fraction_field(b) == 0
}

/// Equality of values: by type, except that integers and floats compare by
/// numeric value; floats by IEEE rules (NaN equals nothing, the two zeros are
/// equal); strings by content; heap objects by identity.
pub open spec fn values_equal(a: Value, b: Value) -> bool {
    match (a, b) {
        (Value::Nil, Value::Nil) => true,
        (Value::Boolean(x), Value::Boolean(y)) => x == y,
        (Value::Integer(x), Value::Integer(y)) => x == y,
        (Value::Integer(x), Value::Number(f)) => float_integer(f) == Some(x as int),
        (Value::Number(f), Value::Integer(x)) => float_integer(f) == Some(x as int),
        (Value::Number(f), Value::Number(g)) => !is_nan(f) && !is_nan(g) && (f == g || (is_zero(f) && is_zero(g))),
        (Value::String(s), Value::String(t)) => s@ == t@,
        (Value::Table(x), Value::Table(y)) => x == y,
        (Value::Function(x), Value::Function(y)) => x == y,
        (Value::Thread(x), Value::Thread(y)) => x == y,
        _ => false,
    }
}

fn bytes_less(s: &Vec<u8>, t: &Vec<u8>) -> (r: bool)
    ensures
        r == bytes_lt(s@, t@),
{
    let mut i: usize = 0;
    proof {
        assert(s@.skip(0) =~= s@);
        assert(t@.skip(0) =~= t@);
    }
    while i < s.len() && i < t.len() && s[i] == t[i]
        invariant
            i <= s@.len(),
            i <= t@.len(),
            bytes_lt(s@, t@) == bytes_lt(s@.skip(i as int), t@.skip(i as int)),
        decreases s@.len() - i,
    {
        proof {
            assert(s@.skip(i as int).drop_first() =~= s@.skip(i + 1));
            assert(t@.skip(i as int).drop_first() =~= t@.skip(i + 1));
        }
        i = i + 1;
    }
    if i == s.len() {
        i < t.len()
    } else if i == t.len() {
        false
    } else {
        s[i] < t[i]
    }
}

fn bytes_equal(s: &Vec<u8>, t: &Vec<u8>) -> (r: bool)
    ensures
        r == (s@ == t@),
{
    if s.len() != t.len() {
        return false;
    }
    let mut i: usize = 0;
    while i < s.len()
        invariant
            i <= s@.len() == t@.len(),
            forall|k: int| 0 <= k < i ==> s@[k] == t@[k],
        decreases s@.len() - i,
    {
        if s[i] != t[i] {
            return false;
        }
        i = i + 1;
    }
    proof {
        assert(s@ =~= t@);
    }
    true
}

fn shift(x: i64, n: i64) -> (r: i64)
    ensures
        r == shift_bits(x, n as int),
{
    if n <= -64 || n >= 64 {
        0
    } else if n >= 0 {
        #[verifier::truncate]
        (((x as u64) << (n as u64)) as i64)
    } else {
        #[verifier::truncate]
        (((x as u64) >> ((-n) as u64)) as i64)
    }
}

/// The text of a value where it has one without floating point: an integer's
/// decimal numeral or a string's own bytes. A float is rendered on the float
/// path; other values have no text.
pub open spec fn text_of(v: Value) -> Outcome<Seq<u8>> {
    match v {
        Value::Integer(i) => Outcome::Done(decimal(i as int)),
        Value::String(s) => Outcome::Done(s@),
        Value::Number(_) => Outcome::Float,
        _ => Outcome::Fail,
    }
}

/// The canonical rendering of a value; a heap object shows its kind and its
/// handle, a native callback marked apart from a closure.
pub open spec fn display_of(v: Value) -> Outcome<Seq<u8>> {
    match v {
        Value::Nil => Outcome::Done("nil"@.map_values(|c: char| c as u8)),
        Value::Boolean(b) => Outcome::Done(if b { "true"@ } else { "false"@ }.map_values(|c: char| c as u8)),
        Value::Integer(i) => Outcome::Done(decimal(i as int)),
        Value::Number(_) => Outcome::Float,
        Value::String(s) => Outcome::Done(s@),
        Value::Table(h) => Outcome::Done(marker("<table "@, h)),
        Value::Function(Function::Closure(h)) => Outcome::Done(marker("<function "@, h)),
        Value::Function(Function::Callback(h)) => Outcome::Done(marker("<function callback "@, h)),
        Value::Thread(h) => Outcome::Done(marker("<thread "@, h)),
    }
}

pub open spec fn marker(prefix: Seq<char>, h: usize) -> Seq<u8> {
    prefix.map_values(|c: char| c as u8) + digits_of(h as nat) + seq![62u8]
}

pub(crate) fn ascii(s: &str) -> (r: Vec<u8>)
    requires
        vstd::string::is_ascii(s),
    ensures
        r@ == s@.map_values(|c: char| c as u8),
{
    proof {
        vstd::string::is_ascii_spec_bytes(s);
    }
    let b = vstd::slice::slice_to_vec(s.as_bytes());
    proof {
        assert(b@ =~= s@.map_values(|c: char| c as u8));
    }
    b
}

fn with_marker(prefix: &str, h: usize) -> (r: Vec<u8>)
    requires
        vstd::string::is_ascii(prefix),
    ensures
        r@ == marker(prefix@, h),
{
    let mut out = ascii(prefix);
    let mut digits = format_unsigned(h);
    out.append(&mut digits);
    out.push(62u8);
    out
}

impl Value {
    /// A string value holding the bytes of `s`.
    pub fn from_text(s: &str) -> (r: Value)
        ensures
            r is String && r->String_0@ == s.spec_bytes(),
    {
        Value::String(vstd::slice::slice_to_vec(s.as_bytes()))
    }

    pub fn type_label(&self) -> (r: &'static str)
        ensures
            r@ == type_label_of(*self),
    {
        match self {
            Value::Nil => "nil",
            Value::Boolean(_) => "boolean",
            Value::Integer(_) => "number",
            Value::Number(_) => "number",
            Value::String(_) => "string",
            Value::Table(_) => "table",
            Value::Function(_) => "function",
            Value::Thread(_) => "thread",
        }
    }

    /// `nil` and `false` are false, anything else is true.
    pub fn to_bool(&self) -> (r: bool)
        ensures
            r == truthy(*self),
    {
        match self {
            Value::Nil => false,
            Value::Boolean(b) => *b,
            _ => true,
        }
    }

    pub fn not(&self) -> (r: Value)
        ensures
            r == Value::Boolean(!truthy(*self)),
    {
        Value::Boolean(!self.to_bool())
    }

    fn numeric(&self) -> (r: bool)
        ensures
            r == is_numeric(*self),
    {
        match self {
            Value::Integer(_) | Value::Number(_) | Value::String(_) => true,
            _ => false,
        }
    }

    pub fn add(&self, other: &Value) -> (r: Outcome<Value>)
        ensures
            r == arith_outcome(*self, *other, |x: int, y: int| x + y),
    {
        if let (Value::Integer(a), Value::Integer(b)) = (self, other) {
            let s = a.wrapping_add(*b);
            assert(s == wrap(*a + *b));
            Outcome::Done(Value::Integer(s))
        } else if self.numeric() && other.numeric() {
            Outcome::Float
        } else {
            Outcome::Fail
        }
    }

    pub fn subtract(&self, other: &Value) -> (r: Outcome<Value>)
        ensures
            r == arith_outcome(*self, *other, |x: int, y: int| x - y),
    {
        if let (Value::Integer(a), Value::Integer(b)) = (self, other) {
            let s = a.wrapping_sub(*b);
            assert(s == wrap(*a - *b));
            Outcome::Done(Value::Integer(s))
        } else if self.numeric() && other.numeric() {
            Outcome::Float
        } else {
            Outcome::Fail
        }
    }

    pub fn multiply(&self, other: &Value) -> (r: Outcome<Value>)
        ensures
            r == arith_outcome(*self, *other, |x: int, y: int| x * y),
    {
        if let (Value::Integer(a), Value::Integer(b)) = (self, other) {
            let s = a.wrapping_mul(*b);
            assert(s == wrap(*a * *b));
            Outcome::Done(Value::Integer(s))
        } else if self.numeric() && other.numeric() {
            Outcome::Float
        } else {
            Outcome::Fail
        }
    }

    /// Always computed on floats, even for two integers.
    pub fn float_divide(&self, other: &Value) -> (r: Outcome<Value>)
        ensures
            r == float_outcome::<Value>(*self, *other),
    {
        if self.numeric() && other.numeric() {
            Outcome::Float
        } else {
            Outcome::Fail
        }
    }

    /// Always computed on floats, even for two integers.
    pub fn exponentiate(&self, other: &Value) -> (r: Outcome<Value>)
        ensures
            r == float_outcome::<Value>(*self, *other),
    {
        if self.numeric() && other.numeric() {
            Outcome::Float
        } else {
            Outcome::Fail
        }
    }

    /// An integer result only for two integers, rounded toward negative
    /// infinity; an integer division by zero fails.
    pub fn floor_divide(&self, other: &Value) -> (r: Outcome<Value>)
        ensures
            r == (if self is Integer && other is Integer {
                if other->Integer_0 == 0 {
                    Outcome::Fail
                } else {
                    Outcome::Done(Value::Integer(wrap(floor_div(self->Integer_0 as int, other->Integer_0 as int))))
                }
            } else {
                float_outcome::<Value>(*self, *other)
            }),
    {
        if let (Value::Integer(a), Value::Integer(b)) = (self, other) {
            match floor_div_i64(*a, *b) {
                Some(q) => Outcome::Done(Value::Integer(q)),
                None => Outcome::Fail,
            }
        } else if self.numeric() && other.numeric() {
            Outcome::Float
        } else {
            Outcome::Fail
        }
    }

    /// The remainder of floor division: zero or of the divisor's sign. An
    /// integer modulo by zero fails.
    pub fn modulo(&self, other: &Value) -> (r: Outcome<Value>)
        ensures
            r == (if self is Integer && other is Integer {
                if other->Integer_0 == 0 {
                    Outcome::Fail
                } else {
                    Outcome::Done(Value::Integer(floor_mod(self->Integer_0 as int, other->Integer_0 as int) as i64))
                }
            } else {
                float_outcome::<Value>(*self, *other)
            }),
    {
        if let (Value::Integer(a), Value::Integer(b)) = (self, other) {
            match floor_mod_i64(*a, *b) {
                Some(m) => Outcome::Done(Value::Integer(m)),
                None => Outcome::Fail,
            }
        } else if self.numeric() && other.numeric() {
            Outcome::Float
        } else {
            Outcome::Fail
        }
    }

    /// Wrapping negation of an integer; a float is negated by flipping its
    /// sign bit.
    pub fn negate(&self) -> (r: Option<Value>)
        ensures
            r == (match *self {
                Value::Integer(a) => Some(Value::Integer(wrap(-(a as int)))),
                Value::Number(f) => Some(Value::Number(f ^ 0x8000_0000_0000_0000u64)),
                _ => None,
            }),
    {
        match self {
            Value::Integer(a) => {
                let n = 0i64.wrapping_sub(*a);
                assert(n == wrap(0 - *a));
                Some(Value::Integer(n))
            },
            Value::Number(f) => Some(Value::Number(*f ^ 0x8000_0000_0000_0000u64)),
            _ => None,
        }
    }

    /// An integer as itself; a float only when it equals an `i64` exactly;
    /// a string as `string_integer` says.
    pub fn to_integer(&self) -> (r: Outcome<i64>)
        ensures
            r == integer_of(*self),
    {
        match self {
            Value::Integer(a) => Outcome::Done(*a),
            Value::Number(b) => match float_to_i64(*b) {
                Some(i) => Outcome::Done(i),
                None => Outcome::Fail,
            },
            Value::String(s) => match parse_integer(s.as_slice()) {
                Some(v) => if -0x20_0000_0000_0000 <= v && v <= 0x20_0000_0000_0000 {
                    Outcome::Done(v)
                } else {
                    Outcome::Float
                },
                None => Outcome::Float,
            },
            _ => Outcome::Fail,
        }
    }

    fn integer_pair(&self, other: &Value) -> (r: Outcome<(i64, i64)>)
        ensures
            r == pair_of(integer_of(*self), integer_of(*other)),
    {
        match (self.to_integer(), other.to_integer()) {
            (Outcome::Done(x), Outcome::Done(y)) => Outcome::Done((x, y)),
            (Outcome::Fail, _) => Outcome::Fail,
            (_, Outcome::Fail) => Outcome::Fail,
            _ => Outcome::Float,
        }
    }

    pub fn bitwise_not(&self) -> (r: Outcome<Value>)
        ensures
            r == (match integer_of(*self) {
                Outcome::Done(a) => Outcome::Done(Value::Integer(!a)),
                Outcome::Float => Outcome::Float,
                Outcome::Fail => Outcome::Fail,
            }),
    {
        match self.to_integer() {
            Outcome::Done(a) => Outcome::Done(Value::Integer(!a)),
            Outcome::Float => Outcome::Float,
            Outcome::Fail => Outcome::Fail,
        }
    }

    pub fn bitwise_and(&self, other: &Value) -> (r: Outcome<Value>)
        ensures
            r == bitwise_outcome(*self, *other, |x: i64, y: i64| x & y),
    {
        match self.integer_pair(other) {
            Outcome::Done((a, b)) => Outcome::Done(Value::Integer(a & b)),
            Outcome::Float => Outcome::Float,
            Outcome::Fail => Outcome::Fail,
        }
    }

    pub fn bitwise_or(&self, other: &Value) -> (r: Outcome<Value>)
        ensures
            r == bitwise_outcome(*self, *other, |x: i64, y: i64| x | y),
    {
        match self.integer_pair(other) {
            Outcome::Done((a, b)) => Outcome::Done(Value::Integer(a | b)),
            Outcome::Float => Outcome::Float,
            Outcome::Fail => Outcome::Fail,
        }
    }

    pub fn bitwise_xor(&self, other: &Value) -> (r: Outcome<Value>)
        ensures
            r == bitwise_outcome(*self, *other, |x: i64, y: i64| x ^ y),
    {
        match self.integer_pair(other) {
            Outcome::Done((a, b)) => Outcome::Done(Value::Integer(a ^ b)),
            Outcome::Float => Outcome::Float,
            Outcome::Fail => Outcome::Fail,
        }
    }

    pub fn shift_left(&self, other: &Value) -> (r: Outcome<Value>)
        ensures
            r == bitwise_outcome(*self, *other, |x: i64, n: i64| shift_bits(x, n as int)),
    {
        match self.integer_pair(other) {
            Outcome::Done((a, n)) => Outcome::Done(Value::Integer(shift(a, n))),
            Outcome::Float => Outcome::Float,
            Outcome::Fail => Outcome::Fail,
        }
    }

    /// A logical shift of the 64-bit pattern: zeros come in from the left.
    pub fn shift_right(&self, other: &Value) -> (r: Outcome<Value>)
        ensures
            r == bitwise_outcome(*self, *other, |x: i64, n: i64| shift_bits(x, -(n as int))),
    {
        match self.integer_pair(other) {
            Outcome::Done((a, n)) => {
                if n == i64::MIN {
                    Outcome::Done(Value::Integer(0))
                } else {
                    Outcome::Done(Value::Integer(shift(a, -n)))
                }
            },
            Outcome::Float => Outcome::Float,
            Outcome::Fail => Outcome::Fail,
        }
    }

    pub fn less_than(&self, other: &Value) -> (r: Outcome<bool>)
        ensures
            r == compare_outcome(*self, *other, false),
    {
        match (self, other) {
            (Value::Integer(a), Value::Integer(b)) => Outcome::Done(*a < *b),
            (Value::String(s), Value::String(t)) => Outcome::Done(bytes_less(s, t)),
            _ => if self.numeric() && other.numeric() { Outcome::Float } else { Outcome::Fail },
        }
    }

    pub fn less_equal(&self, other: &Value) -> (r: Outcome<bool>)
        ensures
            r == compare_outcome(*self, *other, true),
    {
        match (self, other) {
            (Value::Integer(a), Value::Integer(b)) => Outcome::Done(*a <= *b),
            (Value::String(s), Value::String(t)) => Outcome::Done(bytes_less(s, t) || bytes_equal(s, t)),
            _ => if self.numeric() && other.numeric() { Outcome::Float } else { Outcome::Fail },
        }
    }

    /// An integer's decimal numeral or a string's bytes; a float takes the
    /// float path; other values have no text.
    pub fn to_string(&self) -> (r: Outcome<Vec<u8>>)
        ensures
            match (r, text_of(*self)) {
                (Outcome::Done(b), Outcome::Done(t)) => b@ == t,
                (Outcome::Float, Outcome::Float) => true,
                (Outcome::Fail, Outcome::Fail) => true,
                _ => false,
            },
    {
        match self {
            Value::Integer(i) => Outcome::Done(format_integer(*i)),
            Value::String(s) => Outcome::Done(vstd::slice::slice_to_vec(s.as_slice())),
            Value::Number(_) => Outcome::Float,
            _ => Outcome::Fail,
        }
    }

    /// The canonical rendering of the value, used for default conversion to
    /// text and for debugging.
    pub fn display(&self) -> (r: Outcome<Vec<u8>>)
        ensures
            match (r, display_of(*self)) {
                (Outcome::Done(b), Outcome::Done(t)) => b@ == t,
                (Outcome::Float, Outcome::Float) => true,
                _ => false,
            },
    {
        proof {
            reveal_strlit("nil");
            reveal_strlit("true");
            reveal_strlit("false");
            reveal_strlit("<table ");
            reveal_strlit("<function ");
            reveal_strlit("<function callback ");
            reveal_strlit("<thread ");
        }
        match self {
            Value::Nil => Outcome::Done(ascii("nil")),
            Value::Boolean(b) => Outcome::Done(if *b { ascii("true") } else { ascii("false") }),
            Value::Integer(i) => Outcome::Done(format_integer(*i)),
            Value::Number(_) => Outcome::Float,
            Value::String(s) => Outcome::Done(vstd::slice::slice_to_vec(s.as_slice())),
            Value::Table(h) => Outcome::Done(with_marker("<table ", *h)),
            Value::Function(Function::Closure(h)) => Outcome::Done(with_marker("<function ", *h)),
            Value::Function(Function::Callback(h)) => Outcome::Done(with_marker("<function callback ", *h)),
            Value::Thread(h) => Outcome::Done(with_marker("<thread ", *h)),
        }
    }
}

pub open spec fn is_reference(v: Value) -> bool {
    v is Table || v is Function || v is Thread
}

/// The rendering of a heap object identifies it: two references that display
/// alike are the same object.
pub proof fn lemma_marker_identifies(x: Value, y: Value)
    requires
        is_reference(x),
        is_reference(y),
        display_of(x) == display_of(y),
    ensures
        x == y,
{
    reveal_strlit("<table ");
    reveal_strlit("<function ");
    reveal_strlit("<function callback ");
    reveal_strlit("<thread ");
    let p = display_of(x)->Done_0;
    let q = display_of(y)->Done_0;
    let (a, hx) = kind_and_handle(x);
    let (b, hy) = kind_and_handle(y);
    crate::numeral::lemma_digits_are_digits(hx as nat);
    crate::numeral::lemma_digits_are_digits(hy as nat);
    assert(p[1] == q[1]);
    assert(p[2] == q[2]);
    assert(p[10] == q[10]);
    assert(a == b);
    let n = a.len() as int;
    assert(p == a.map_values(|c: char| c as u8) + digits_of(hx as nat) + seq![62u8]);
    assert(q == a.map_values(|c: char| c as u8) + digits_of(hy as nat) + seq![62u8]);
    assert(digits_of(hx as nat) =~= p.subrange(n, p.len() - 1));
    assert(digits_of(hy as nat) =~= q.subrange(n, q.len() - 1));
    crate::numeral::lemma_digits_injective(hx as nat, hy as nat);
}

/// The marker prefix and handle of a heap reference.
pub open spec fn kind_and_handle(v: Value) -> (Seq<char>, usize) {
    match v {
        Value::Table(h) => ("<table "@, h),
        Value::Function(Function::Closure(h)) => ("<function "@, h),
        Value::Function(Function::Callback(h)) => ("<function callback "@, h),
        Value::Thread(h) => ("<thread "@, h),
        _ => (Seq::empty(), 0),
    }
}

/// Reading a float back as an integer gives `i` exactly when the float
/// equals `i`; a float that only approximates `i` never gives `i` back.
pub proof fn lemma_integer_round_trip(i: i64, b: u64)
    ensures
        integer_of(Value::Number(b)) == Outcome::Done(i) <==> float_integer(b) == Some(i as int),
{

}

fn number_is_nan(b: u64) -> (r: bool)
    ensures
        r == is_nan(b),
{
    (b / 0x10_0000_0000_0000) % 2048 == 2047 && b % 0x10_0000_0000_0000 != 0
}

fn number_is_zero(b: u64) -> (r: bool)
    ensures
        r == is_zero(b),
{
    (b / 0x10_0000_0000_0000) % 2048 == 0 && b % 0x10_0000_0000_0000 == 0
}

fn integer_equals_number(x: i64, f: u64) -> (r: bool)
    ensures
        r == (float_integer(f) == Some(x as int)),
{
    match float_to_i64(f) {
        Some(y) => y == x,
        None => false,
    }
}

impl PartialEq for Value {
    fn eq(&self, other: &Value) -> (r: bool) {
        match (self, other) {
            (Value::Nil, Value::Nil) => true,
            (Value::Boolean(a), Value::Boolean(b)) => *a == *b,
            (Value::Integer(a), Value::Integer(b)) => *a == *b,
            (Value::Integer(a), Value::Number(b)) => integer_equals_number(*a, *b),
            (Value::Number(a), Value::Integer(b)) => integer_equals_number(*b, *a),
            (Value::Number(a), Value::Number(b)) => {
                !number_is_nan(*a) && !number_is_nan(*b) && (*a == *b || (number_is_zero(*a) && number_is_zero(*b)))
            },
            (Value::String(a), Value::String(b)) => bytes_equal(a, b),
            (Value::Table(a), Value::Table(b)) => *a == *b,
            (Value::Function(a), Value::Function(b)) => *a == *b,
            (Value::Thread(a), Value::Thread(b)) => *a == *b,
            _ => false,
        }
    }
}

impl vstd::std_specs::cmp::PartialEqSpecImpl for Value {
    open spec fn obeys_eq_spec() -> bool {
        true
    }

    open spec fn eq_spec(&self, other: &Value) -> bool {
        values_equal(*self, *other)
    }
}

impl From<bool> for Value {
    fn from(v: bool) -> (r: Value) {
        Value::Boolean(v)
    }
}

impl vstd::std_specs::convert::FromSpecImpl<bool> for Value {
    open spec fn obeys_from_spec() -> bool {
        true
    }

    open spec fn from_spec(v: bool) -> Value {
        Value::Boolean(v)
    }
}

impl From<i64> for Value {
    fn from(v: i64) -> (r: Value) {
        Value::Integer(v)
    }
}

impl vstd::std_specs::convert::FromSpecImpl<i64> for Value {
    open spec fn obeys_from_spec() -> bool {
        true
    }

    open spec fn from_spec(v: i64) -> Value {
        Value::Integer(v)
    }
}

impl From<&'static str> for Value {
    fn from(v: &'static str) -> (r: Value) {
        Value::from_text(v)
    }
}

impl vstd::std_specs::convert::FromSpecImpl<&'static str> for Value {
    open spec fn obeys_from_spec() -> bool {
        false
    }

    /// Two vectors of the same bytes are not known to be one value, so the
    /// exact statement stands on `Value::from_text`.
    open spec fn from_spec(v: &'static str) -> Value {
        choose|r: Value| r is String && r->String_0@ == v.spec_bytes()
    }
}

impl From<Function> for Value {
    fn from(v: Function) -> (r: Value) {
        Value::Function(v)
    }
}

impl vstd::std_specs::convert::FromSpecImpl<Function> for Value {
    open spec fn obeys_from_spec() -> bool {
        true
    }

    open spec fn from_spec(v: Function) -> Value {
        Value::Function(v)
    }
}

} // verus!
