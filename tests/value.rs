use luster::float::float_to_i64;
use luster::numeral::parse_integer;
use luster::strlib::string_len;
use luster::value::{Function, Outcome, Value};

fn integer(v: &Outcome<Value>) -> i64 {
    match v {
        Outcome::Done(Value::Integer(i)) => *i,
        other => panic!("expected an integer, got {:?}", other),
    }
}

fn string(s: &str) -> Value {
    Value::String(s.as_bytes().to_vec())
}

#[test]
fn integer_arithmetic_wraps() {
    let max = Value::Integer(i64::MAX);
    let min = Value::Integer(i64::MIN);
    assert_eq!(integer(&max.add(&Value::Integer(1))), i64::MIN);
    assert_eq!(integer(&min.subtract(&Value::Integer(1))), i64::MAX);
    assert_eq!(integer(&max.multiply(&Value::Integer(2))), -2);
    assert_eq!(integer(&Value::Integer(2).add(&Value::Integer(3))), 5);
    assert_eq!(integer(&Value::Integer(7).multiply(&Value::Integer(-6))), -42);
}

#[test]
fn mixed_arithmetic_takes_the_float_path() {
    let f = Value::Number(1.5f64.to_bits());
    assert!(matches!(Value::Integer(1).add(&f), Outcome::Float));
    assert!(matches!(string("10").multiply(&Value::Integer(2)), Outcome::Float));
    assert!(matches!(Value::Integer(1).float_divide(&Value::Integer(2)), Outcome::Float));
    assert!(matches!(Value::Integer(2).exponentiate(&Value::Integer(2)), Outcome::Float));
    assert!(matches!(Value::Table(0).add(&Value::Integer(1)), Outcome::Fail));
    assert!(matches!(Value::Nil.subtract(&Value::Integer(1)), Outcome::Fail));
}

#[test]
fn floor_divide_rounds_down() {
    let d = |a: i64, b: i64| Value::Integer(a).floor_divide(&Value::Integer(b));
    assert_eq!(integer(&d(-7, 2)), -4);
    assert_eq!(integer(&d(7, -2)), -4);
    assert_eq!(integer(&d(-7, -2)), 3);
    assert_eq!(integer(&d(7, 2)), 3);
    assert_eq!(integer(&d(-8, 2)), -4);
    assert_eq!(integer(&d(i64::MIN, -1)), i64::MIN);
    assert_eq!(integer(&d(i64::MIN, 1)), i64::MIN);
    assert!(matches!(d(5, 0), Outcome::Fail));
}

#[test]
fn modulo_takes_divisor_sign() {
    let m = |a: i64, b: i64| Value::Integer(a).modulo(&Value::Integer(b));
    assert_eq!(integer(&m(-1, 3)), 2);
    assert_eq!(integer(&m(1, -3)), -2);
    assert_eq!(integer(&m(-6, 3)), 0);
    assert_eq!(integer(&m(7, 3)), 1);
    assert_eq!(integer(&m(-7, -3)), -1);
    assert_eq!(integer(&m(i64::MAX, i64::MIN)), -1);
    assert_eq!(integer(&m(5, i64::MAX)), 5);
    assert!(matches!(m(5, 0), Outcome::Fail));
}

#[test]
fn strings_compare_by_bytes() {
    let lt = |a: &str, b: &str| matches!(string(a).less_than(&string(b)), Outcome::Done(true));
    let le = |a: &str, b: &str| matches!(string(a).less_equal(&string(b)), Outcome::Done(true));
    assert!(lt("abc", "abd"));
    assert!(lt("ab", "abc"));
    assert!(lt("", "a"));
    assert!(!lt("b", "abc"));
    assert!(!lt("abc", "abc"));
    assert!(le("abc", "abc"));
    assert!(!le("abd", "abc"));
    assert!(lt("Z", "a"));
    let hi = Value::String(vec![0xff]);
    assert!(matches!(Value::String(vec![0x01]).less_than(&hi), Outcome::Done(true)));
    assert!(matches!(string("a").less_than(&Value::Table(1)), Outcome::Fail));
    assert!(matches!(Value::Integer(1).less_than(&Value::Integer(2)), Outcome::Done(true)));
    assert!(matches!(Value::Integer(2).less_equal(&Value::Integer(2)), Outcome::Done(true)));
    assert!(matches!(Value::Integer(1).less_than(&string("2")), Outcome::Float));
}

#[test]
fn float_to_integer_is_exact() {
    assert_eq!(float_to_i64(2.0f64.to_bits()), Some(2));
    assert_eq!(float_to_i64((-3.0f64).to_bits()), Some(-3));
    assert_eq!(float_to_i64(1.5f64.to_bits()), None);
    assert_eq!(float_to_i64(0.5f64.to_bits()), None);
    assert_eq!(float_to_i64((-0.0f64).to_bits()), Some(0));
    assert_eq!(float_to_i64(f64::NAN.to_bits()), None);
    assert_eq!(float_to_i64(f64::INFINITY.to_bits()), None);
    assert_eq!(float_to_i64(1e300f64.to_bits()), None);
    assert_eq!(float_to_i64(f64::MIN_POSITIVE.to_bits()), None);
    assert_eq!(float_to_i64(9223372036854775808.0f64.to_bits()), None);
    assert_eq!(float_to_i64((-9223372036854775808.0f64).to_bits()), Some(i64::MIN));
    assert_eq!(float_to_i64(4503599627370497.0f64.to_bits()), Some(4503599627370497));
}

#[test]
fn integer_round_trip_through_float() {
    for i in [0i64, 1, -1, 42, 1 << 53, -(1 << 53), 1 << 62, i64::MIN] {
        assert_eq!(Value::Number((i as f64).to_bits()).to_integer(), Outcome::Done(i));
    }
    let i: i64 = (1 << 53) + 1;
    assert_ne!(Value::Number((i as f64).to_bits()).to_integer(), Outcome::Done(i));
    assert_eq!(Value::Number((i64::MAX as f64).to_bits()).to_integer(), Outcome::Fail);
}

#[test]
fn numerals_parse() {
    assert_eq!(parse_integer(b"42"), Some(42));
    assert_eq!(parse_integer(b"-17"), Some(-17));
    assert_eq!(parse_integer(b"007"), Some(7));
    assert_eq!(parse_integer(b"-9223372036854775808"), Some(i64::MIN));
    assert_eq!(parse_integer(b"9223372036854775807"), Some(i64::MAX));
    assert_eq!(parse_integer(b"9223372036854775808"), None);
    assert_eq!(parse_integer(b"99999999999999999999999"), None);
    assert_eq!(parse_integer(b"4x"), None);
    assert_eq!(parse_integer(b""), None);
    assert_eq!(parse_integer(b"-"), None);
    assert_eq!(string("12").to_integer(), Outcome::Done(12));
    assert_eq!(Value::Boolean(true).to_integer(), Outcome::Fail);
}

#[test]
fn strings_beyond_exact_numerals_take_the_float_path() {
    assert_eq!(string("9007199254740992").to_integer(), Outcome::Done(9007199254740992));
    assert_eq!(string("-9007199254740992").to_integer(), Outcome::Done(-9007199254740992));
    assert_eq!(string("9007199254740993").to_integer(), Outcome::Float);
    assert_eq!(string("1.0").to_integer(), Outcome::Float);
    assert_eq!(string("0x10").to_integer(), Outcome::Float);
    assert_eq!(string("1e2").to_integer(), Outcome::Float);
    assert_eq!(string("abc").to_integer(), Outcome::Float);
    assert_eq!(string("0x10").bitwise_and(&Value::Integer(1)), Outcome::Float);
    assert_eq!(string("0x10").bitwise_and(&Value::Table(1)), Outcome::Fail);
    assert_eq!(Value::Nil.shift_left(&string("1.0")), Outcome::Fail);
    assert_eq!(string("1.0").bitwise_not(), Outcome::Float);
}

#[test]
fn bitwise_operators() {
    let i = |v: Outcome<Value>| match v {
        Outcome::Done(Value::Integer(x)) => x,
        other => panic!("expected an integer, got {:?}", other),
    };
    assert_eq!(i(Value::Integer(0).bitwise_not()), -1);
    assert_eq!(i(Value::Integer(12).bitwise_and(&Value::Integer(10))), 8);
    assert_eq!(i(Value::Integer(12).bitwise_or(&Value::Integer(10))), 14);
    assert_eq!(i(Value::Integer(12).bitwise_xor(&Value::Integer(10))), 6);
    assert_eq!(i(Value::Number(3.0f64.to_bits()).bitwise_and(&string("6"))), 2);
    assert_eq!(Value::Number(3.5f64.to_bits()).bitwise_not(), Outcome::Fail);
    assert_eq!(i(Value::Integer(-1).shift_right(&Value::Integer(1))), i64::MAX);
    assert_eq!(i(Value::Integer(1).shift_left(&Value::Integer(63))), i64::MIN);
    assert_eq!(i(Value::Integer(1).shift_left(&Value::Integer(64))), 0);
    assert_eq!(i(Value::Integer(4).shift_left(&Value::Integer(-1))), 2);
    assert_eq!(i(Value::Integer(4).shift_right(&Value::Integer(-2))), 16);
    assert_eq!(i(Value::Integer(4).shift_right(&Value::Integer(i64::MIN))), 0);
}

#[test]
fn negation() {
    assert_eq!(Value::Integer(5).negate(), Some(Value::Integer(-5)));
    assert_eq!(Value::Integer(i64::MIN).negate(), Some(Value::Integer(i64::MIN)));
    assert_eq!(Value::Number(1.5f64.to_bits()).negate(), Some(Value::Number((-1.5f64).to_bits())));
    assert!(Value::Nil.negate().is_none());
}

#[test]
fn truth_and_type_labels() {
    assert!(!Value::Nil.to_bool());
    assert!(!Value::Boolean(false).to_bool());
    assert!(Value::Integer(0).to_bool());
    assert!(string("").to_bool());
    assert_eq!(Value::Nil.not(), Value::Boolean(true));
    assert_eq!(Value::Integer(1).type_label(), "number");
    assert_eq!(Value::Number(0).type_label(), "number");
    assert_eq!(string("x").type_label(), "string");
    assert_eq!(Value::Function(Function::Callback(3)).type_label(), "function");
    assert_eq!(Value::Thread(0).type_label(), "thread");
    assert_eq!(Value::Table(0).type_label(), "table");
    assert_eq!(Value::Boolean(true).type_label(), "boolean");
    assert_eq!(Value::Nil.type_label(), "nil");
}

#[test]
fn equality_is_numeric_across_integer_and_float() {
    assert_eq!(Value::Integer(1), Value::Number(1.0f64.to_bits()));
    assert_eq!(Value::Number((-0.0f64).to_bits()), Value::Number(0.0f64.to_bits()));
    assert_ne!(Value::Number(f64::NAN.to_bits()), Value::Number(f64::NAN.to_bits()));
    assert_ne!(Value::Integer((1 << 53) + 1), Value::Number(((1i64 << 53) as f64).to_bits()));
    assert_eq!(string("ab"), string("ab"));
    assert_ne!(string("ab"), string("abc"));
    assert_ne!(Value::Integer(1), string("1"));
    assert_ne!(Value::Table(1), Value::Table(2));
    assert_eq!(Value::Function(Function::Closure(2)), Value::Function(Function::Closure(2)));
    assert_ne!(Value::Function(Function::Closure(2)), Value::Function(Function::Callback(2)));
}

#[test]
fn text_and_display() {
    let text = |v: Outcome<Vec<u8>>| match v {
        Outcome::Done(t) => String::from_utf8(t).unwrap(),
        other => panic!("expected text, got {:?}", other),
    };
    assert_eq!(text(Value::Integer(-120).to_string()), "-120");
    assert_eq!(text(Value::Integer(i64::MIN).to_string()), "-9223372036854775808");
    assert_eq!(text(Value::Integer(0).to_string()), "0");
    assert_eq!(text(string("hi").to_string()), "hi");
    assert!(matches!(Value::Number(0).to_string(), Outcome::Float));
    assert!(matches!(Value::Nil.to_string(), Outcome::Fail));
    assert_eq!(text(Value::Nil.display()), "nil");
    assert_eq!(text(Value::Boolean(false).display()), "false");
    assert_eq!(text(Value::Boolean(true).display()), "true");
    assert_eq!(text(Value::Integer(7).display()), "7");
    assert_eq!(text(Value::Table(12).display()), "<table 12>");
    assert_eq!(text(Value::Function(Function::Callback(3)).display()), "<function callback 3>");
    assert_eq!(text(Value::Function(Function::Closure(3)).display()), "<function 3>");
    assert_ne!(Value::Function(Function::Callback(2)).display(), Value::Function(Function::Closure(2)).display());
    assert_eq!(text(Value::Thread(0).display()), "<thread 0>");
    assert!(matches!(Value::Number(0).display(), Outcome::Float));
}

#[test]
fn string_len_counts_bytes() {
    assert_eq!(string_len(&vec![string("hello")]).unwrap(), Outcome::Done(5));
    assert_eq!(string_len(&vec![Value::Integer(-42)]).unwrap(), Outcome::Done(3));
    assert_eq!(string_len(&vec![string("")]).unwrap(), Outcome::Done(0));
    assert_eq!(string_len(&vec![Value::Number(0)]).unwrap(), Outcome::Float);
    let e = string_len(&vec![]).unwrap_err();
    assert_eq!((e.expected, e.found), ("string", "nil"));
    let e = string_len(&vec![Value::Table(1)]).unwrap_err();
    assert_eq!((e.expected, e.found), ("string", "table"));
}

#[test]
fn conversions_from_plain_values() {
    assert_eq!(Value::from(true), Value::Boolean(true));
    assert_eq!(Value::from(-3i64), Value::Integer(-3));
    assert_eq!(Value::from(Function::Closure(4)), Value::Function(Function::Closure(4)));
    assert_eq!(Value::from("ab"), string("ab"));
    assert_eq!(Value::from_text(""), Value::String(vec![]));
}
