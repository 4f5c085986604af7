use katcp::messages::address::KatcpAddress;
use katcp::messages::argument_vec::{from_argument_vec, ArgumentVec};
use katcp::messages::common::{
    ArgumentType, FromKatcpArgument, RetCode, ToKatcpArgument, ToKatcpArguments,
};
use katcp::messages::float_literal::FloatLiteral;
use katcp::messages::timestamp::{parse_timestamp, KatcpTimestamp};
use katcp::protocol::KatcpError;

#[test]
fn test_string() {
    let s = "This is a message with spaces\n";
    assert_eq!(s, String::from_argument(&s.to_argument()).unwrap());
}

#[test]
fn test_timestamp() {
    let ts = KatcpTimestamp::new(42069, 42069000).unwrap();
    assert_eq!(
        ts,
        KatcpTimestamp::from_argument(&ts.to_argument()).unwrap()
    );
}

#[test]
fn test_option() {
    let s = Some("\tFoo a bar\n".to_owned());
    assert_eq!(s, Option::<String>::from_argument(&s.to_argument()).unwrap())
}

#[test]
fn test_ret_code() {
    let code = RetCode::Invalid;
    assert_eq!(code, RetCode::from_argument(&code.to_argument()).unwrap())
}

#[test]
fn test_int() {
    let pos_int: u32 = 12345;
    let neg_int: i32 = -12345;
    assert_eq!(pos_int, u32::from_argument(&pos_int.to_argument()).unwrap());
    assert_eq!(neg_int, i32::from_argument(&neg_int.to_argument()).unwrap());
}

#[test]
fn test_bool() {
    let a = true;
    let b = false;
    assert_eq!(a, bool::from_argument(&a.to_argument()).unwrap());
    assert_eq!(b, bool::from_argument(&b.to_argument()).unwrap());
}

fn float_roundtrip(x: f32) -> f32 {
    let literal = FloatLiteral::new(&format!("{}", x)).unwrap();
    let back = FloatLiteral::from_argument(&literal.to_argument()).unwrap();
    assert_eq!(back, literal);
    back.text().parse().unwrap()
}

#[test]
fn test_float() {
    let a: f32 = -1.234e-05;
    let b: f32 = 1.7;
    let c: f32 = 100.0;
    assert_eq!(a, float_roundtrip(a));
    assert_eq!(b, float_roundtrip(b));
    assert_eq!(c, float_roundtrip(c));
}

#[test]
fn test_addr() {
    let v4_socket = "192.168.1.1:4000";
    let v4_ip = "127.0.0.1";
    let v6_socket = "[2001:db8:85a3::8a2e:370:7334]:4000";
    let v6_ip = "[::1]";
    assert_eq!(
        v4_socket,
        KatcpAddress::from_argument(v4_socket)
            .unwrap()
            .to_argument()
    );
    assert_eq!(
        v6_socket,
        KatcpAddress::from_argument(v6_socket)
            .unwrap()
            .to_argument()
    );
    assert_eq!(
        v4_ip,
        KatcpAddress::from_argument(v4_ip).unwrap().to_argument()
    );
    assert_eq!(
        v6_ip,
        KatcpAddress::from_argument(v6_ip).unwrap().to_argument()
    );
}

#[test]
fn address_precedence() {
    assert_eq!(
        KatcpAddress::from_argument("192.168.1.1:4000"),
        Ok(KatcpAddress::Socket("192.168.1.1:4000".to_owned()))
    );
    assert_eq!(
        KatcpAddress::from_argument("127.0.0.1"),
        Ok(KatcpAddress::Ip("127.0.0.1".to_owned()))
    );
    assert_eq!(
        KatcpAddress::from_argument("[::1]"),
        Ok(KatcpAddress::Ip("::1".to_owned()))
    );
    assert_eq!(
        KatcpAddress::from_argument("[2001:db8::1]:4000"),
        Ok(KatcpAddress::Socket("[2001:db8::1]:4000".to_owned()))
    );
    assert_eq!(
        KatcpAddress::from_argument("::1"),
        Ok(KatcpAddress::Ip("::1".to_owned()))
    );
    assert_eq!(KatcpAddress::Ip("::1".to_owned()).to_argument(), "[::1]");
    assert_eq!(
        KatcpAddress::from_argument("[10.0.0.1]"),
        Ok(KatcpAddress::Ip("10.0.0.1".to_owned()))
    );
    assert_eq!(KatcpAddress::from_argument(""), Err(KatcpError::BadArgument));
}

#[test]
fn address_literals() {
    for good in [
        "0.0.0.0",
        "255.255.255.255",
        "::",
        "1::",
        "::ffff:1.2.3.4",
        "1:2:3:4:5:6:7:8",
        "1:2:3:4:5:6:1.2.3.4",
        "1:2:3:4:5:6:7::",
        "fe80::ABCD",
        "1.2.3.4:0",
        "1.2.3.4:65535",
        "1.2.3.4:00080",
        "[::]:80",
        "[fe80::1%3]:80",
    ] {
        assert!(KatcpAddress::from_argument(good).is_ok(), "{}", good);
    }
    for bad in [
        "256.0.0.1",
        "1.2.3",
        "1.2.3.4.5",
        "01.2.3.4",
        "1.2.3.4:",
        "1.2.3.4:65536",
        "1.2.3.4:x",
        ":::",
        "1:2:3:4:5:6:7",
        "1:2:3:4:5:6:7:8:9",
        "1::2::3",
        "12345::",
        "1.2.3.4::",
        "[::1",
        "[::1]:",
        "[1.2.3.4]:80",
        "localhost",
        "g::1",
    ] {
        assert_eq!(
            KatcpAddress::from_argument(bad),
            Err(KatcpError::BadArgument),
            "{}",
            bad
        );
    }
}

#[test]
fn integers_on_the_wire() {
    assert_eq!(0u32.to_argument(), "0");
    assert_eq!(4294967295u32.to_argument(), "4294967295");
    assert_eq!(i32::MIN.to_argument(), "-2147483648");
    assert_eq!(i32::MAX.to_argument(), "2147483647");
    assert_eq!(u32::from_argument("4294967295"), Ok(4294967295));
    assert_eq!(u32::from_argument("+7"), Ok(7));
    assert_eq!(u32::from_argument("007"), Ok(7));
    assert_eq!(i32::from_argument("-2147483648"), Ok(i32::MIN));
    assert_eq!(i32::from_argument("+2147483647"), Ok(i32::MAX));
    assert_eq!(i32::from_argument("-0"), Ok(0));
    for bad in ["", "+", "-", "4294967296", "-1", "1 ", " 1", "1.0", "0x10", "١"] {
        assert_eq!(u32::from_argument(bad), Err(KatcpError::BadArgument), "{}", bad);
    }
    for bad in ["", "+", "-", "2147483648", "-2147483649", "--1", "1e3"] {
        assert_eq!(i32::from_argument(bad), Err(KatcpError::BadArgument), "{}", bad);
    }
}

#[test]
fn booleans_on_the_wire() {
    assert_eq!(true.to_argument(), "1");
    assert_eq!(false.to_argument(), "0");
    for bad in ["", "true", "false", "2", "01", "10"] {
        assert_eq!(bool::from_argument(bad), Err(KatcpError::BadArgument), "{}", bad);
    }
}

#[test]
fn strings_on_the_wire() {
    assert_eq!(String::from_argument(r"Hey\_there\_kiddo"), Ok("Hey there kiddo".to_owned()));
    assert_eq!("a b".to_argument(), r"a\_b");
    assert_eq!("".to_owned().to_argument(), r"\@");
    assert_eq!(String::from_argument(r"\@"), Ok("".to_owned()));
}

#[test]
fn options_on_the_wire() {
    assert_eq!(Option::<u32>::None.to_argument(), r"\@");
    assert_eq!(Some(5u32).to_argument(), "5");
    assert_eq!(Option::<u32>::from_argument(r"\@"), Ok(None));
    assert_eq!(Option::<u32>::from_argument("5"), Ok(Some(5)));
    assert_eq!(Option::<u32>::from_argument("x"), Err(KatcpError::BadArgument));
    // the empty text and the absent value share one token
    assert_eq!(Some("".to_owned()).to_argument(), r"\@");
    assert_eq!(Option::<String>::from_argument(r"\@"), Ok(None));
}

#[test]
fn discrete_labels() {
    for (code, label) in [(RetCode::Okay, "ok"), (RetCode::Invalid, "invalid"), (RetCode::Fail, "fail")] {
        assert_eq!(code.to_argument(), label);
        assert_eq!(RetCode::from_argument(label), Ok(code));
    }
    assert_eq!(RetCode::from_argument("OK"), Err(KatcpError::BadArgument));
    assert_eq!(RetCode::from_argument(""), Err(KatcpError::BadArgument));
    for (ty, label) in [
        (ArgumentType::Integer, "integer"),
        (ArgumentType::Float, "float"),
        (ArgumentType::Boolean, "boolean"),
        (ArgumentType::Timestamp, "timestamp"),
        (ArgumentType::Discrete, "discrete"),
        (ArgumentType::Address, "address"),
        (ArgumentType::String, "string"),
    ] {
        assert_eq!(ty.to_argument(), label);
        assert_eq!(ArgumentType::from_argument(label), Ok(ty));
    }
    assert_eq!(ArgumentType::from_argument("int"), Err(KatcpError::BadArgument));
}

#[test]
fn timestamps_on_the_wire() {
    let t = |s, n| KatcpTimestamp::new(s, n).unwrap();
    assert_eq!(t(42069, 42069000).to_argument(), "42069.042069");
    assert_eq!(t(1654553033, 0).to_argument(), "1654553033");
    assert_eq!(t(420, 3).to_argument(), "420.000000003");
    assert_eq!(t(0, 500_000_000).to_argument(), "0.5");
    assert_eq!(t(-7, 999_999_999).to_argument(), "-7.999999999");
    assert_eq!(t(-62135596800, 0).to_argument(), "-62135596800");
    assert_eq!(KatcpTimestamp::from_argument("100"), Ok(t(100, 0)));
    assert_eq!(KatcpTimestamp::from_argument("1427043968.954988"), Ok(t(1427043968, 954_988_000)));
    assert_eq!(KatcpTimestamp::from_argument("1.0000000019"), Ok(t(1, 1)));
    assert_eq!(KatcpTimestamp::from_argument("+1.5"), Ok(t(1, 500_000_000)));
    assert_eq!(KatcpTimestamp::from_argument("-1.25"), Ok(t(-1, 250_000_000)));
    for bad in ["", ".", "1.", ".5", "1.5.5", "1.x", "x.5", "1e3", "9223372036854775808", "1. 5"] {
        assert_eq!(KatcpTimestamp::from_argument(bad), Err(KatcpError::BadArgument), "{}", bad);
    }
    assert_eq!(KatcpTimestamp::new(0, 1_000_000_000), None);
    assert_eq!(KatcpTimestamp::new(59, 1_000_000_000), None);
    assert_eq!(t(5, 6).timestamp(), 5);
    assert_eq!(t(5, 6).timestamp_subsec_nanos(), 6);
}

#[test]
fn float_literals() {
    for good in [
        "0", "1.5", "-1.5", "+1.5", ".5", "5.", "1e3", "1E-3", "1.5e+10", "-.5e1", "inf", "-inf",
        "+Infinity", "NaN", "nan", "900.0", "-0.00001234",
    ] {
        let f = FloatLiteral::new(good).unwrap();
        assert_eq!(f.text(), good);
        assert!(good.parse::<f32>().is_ok(), "{}", good);
        assert_eq!(FloatLiteral::from_argument(good), Ok(f));
    }
    for bad in [
        "", ".", "+", "-", "e3", "1e", "1e+", "1.5.5", "1 ", " 1", "0x10", "infinit", "nano", "1f",
        "--1", "1e3.5", "+-1",
    ] {
        assert_eq!(FloatLiteral::new(bad), None, "{}", bad);
        assert!(bad.parse::<f32>().is_err(), "{}", bad);
        assert_eq!(FloatLiteral::from_argument(bad), Err(KatcpError::BadArgument));
    }
}

fn strings(tokens: &[&str]) -> Vec<String> {
    tokens.iter().map(|s| s.to_string()).collect()
}

#[test]
fn argument_vectors() {
    let tokens = strings(&["skip", "1", "-2", "+3"]);
    let v = from_argument_vec(&ArgumentType::Integer, &tokens, 1).unwrap();
    assert_eq!(v, ArgumentVec::Integer(vec![1, -2, 3]));
    assert_eq!(v.to_string(), "integer");
    assert_eq!(v.to_arguments(), strings(&["1", "-2", "3"]));
    let v = from_argument_vec(&ArgumentType::Boolean, &strings(&["1", "0"]), 0).unwrap();
    assert_eq!(v, ArgumentVec::Boolean(vec![true, false]));
    let v = from_argument_vec(&ArgumentType::Float, &strings(&["0.0", "900.0"]), 0).unwrap();
    assert_eq!(
        v,
        ArgumentVec::Float(vec![FloatLiteral::new("0.0").unwrap(), FloatLiteral::new("900.0").unwrap()])
    );
    assert_eq!(v.to_string(), "float");
    let v = from_argument_vec(&ArgumentType::String, &strings(&[r"a\_b", r"\@"]), 0).unwrap();
    assert_eq!(v, ArgumentVec::String(vec!["a b".to_owned(), "".to_owned()]));
    assert_eq!(v.to_arguments(), strings(&[r"a\_b", r"\@"]));
    let v = from_argument_vec(&ArgumentType::Discrete, &strings(&["on", "off"]), 0).unwrap();
    assert_eq!(v, ArgumentVec::Discrete(vec!["on".to_owned(), "off".to_owned()]));
    assert_eq!(v.to_string(), "discrete");
    let v = from_argument_vec(&ArgumentType::Timestamp, &strings(&["1.5"]), 0).unwrap();
    assert_eq!(v, ArgumentVec::Timestamp(vec![KatcpTimestamp::new(1, 500_000_000).unwrap()]));
    let v = from_argument_vec(&ArgumentType::Address, &strings(&["[::1]", "1.2.3.4:5"]), 0).unwrap();
    assert_eq!(
        v,
        ArgumentVec::Address(vec![
            KatcpAddress::Ip("::1".to_owned()),
            KatcpAddress::Socket("1.2.3.4:5".to_owned())
        ])
    );
    assert_eq!(v.to_arguments(), strings(&["[::1]", "1.2.3.4:5"]));
    let v = from_argument_vec(&ArgumentType::Boolean, &strings(&["1"]), 1).unwrap();
    assert_eq!(v, ArgumentVec::Boolean(vec![]));
    assert_eq!(
        from_argument_vec(&ArgumentType::Integer, &strings(&["1", "x", "3"]), 0),
        Err(KatcpError::BadArgument)
    );
}

#[test]
fn timestamps_that_cannot_be_held() {
    // far outside the years of the calendar
    assert_eq!(KatcpTimestamp::new(i64::MAX, 0), None);
    assert_eq!(KatcpTimestamp::new(i64::MIN, 0), None);
    assert_eq!(
        KatcpTimestamp::from_argument("9223372036854775807"),
        Err(KatcpError::BadArgument)
    );
    assert_eq!(
        KatcpTimestamp::from_argument("-9223372036854775808.5"),
        Err(KatcpError::BadArgument)
    );
    assert_eq!(KatcpTimestamp::new(8_210_266_876_799, 999_999_999).map(|t| t.secs), Some(8_210_266_876_799));
    assert_eq!(KatcpTimestamp::new(8_210_266_876_800, 0), None);
    assert_eq!(KatcpTimestamp::checked(5, 6, true), Some(KatcpTimestamp { secs: 5, nanos: 6 }));
    assert_eq!(KatcpTimestamp::checked(5, 6, false), None);
    assert_eq!(KatcpTimestamp::checked(5, 1_000_000_000, true), None);
    assert_eq!(KatcpTimestamp::checked(i64::MAX, 0, true).map(|t| t.secs), Some(i64::MAX));
}

#[test]
fn timestamp_tokens() {
    assert_eq!(parse_timestamp("100"), Some((100, 0)));
    assert_eq!(parse_timestamp("-100.000000001"), Some((-100, 1)));
    assert_eq!(parse_timestamp("9223372036854775807.9"), Some((i64::MAX, 900_000_000)));
    assert_eq!(parse_timestamp("-9223372036854775808"), Some((i64::MIN, 0)));
    assert_eq!(parse_timestamp("0.1234567891"), Some((0, 123_456_789)));
    assert_eq!(parse_timestamp("9223372036854775808"), None);
    assert_eq!(parse_timestamp("1."), None);
    assert_eq!(parse_timestamp("1.-5"), None);
    assert_eq!(parse_timestamp(""), None);
}

#[test]
fn address_literals_by_kind() {
    let socket = |t: &str| Ok(KatcpAddress::Socket(t.to_owned()));
    let ip = |t: &str| Ok(KatcpAddress::Ip(t.to_owned()));
    let bad = Err(KatcpError::BadArgument);
    for (text, expected) in [
        ("0.0.0.0", ip("0.0.0.0")),
        ("0.0.0.00", bad.clone()),
        ("1.2.3.04", bad.clone()),
        ("1234.1.1.1", bad.clone()),
        ("+1.2.3.4", bad.clone()),
        ("1.2.3.4 ", bad.clone()),
        ("1.2.3.4:+80", bad.clone()),
        ("1.2.3.4:80:80", bad.clone()),
        ("::1::", bad.clone()),
        ("::2:3:4:5:6:7:8", ip("::2:3:4:5:6:7:8")),
        ("1::3:4:5:6:7:8", ip("1::3:4:5:6:7:8")),
        ("1::2:3:4:5:6:7:8", bad.clone()),
        ("1:2:3:4:5:6:7:8::", bad.clone()),
        ("::1.2.3.4", ip("::1.2.3.4")),
        ("1:2:3:4:5:6:7:1.2.3.4", bad.clone()),
        ("1:2:3:4:5:1.2.3.4", bad.clone()),
        ("1.2.3.4::1", bad.clone()),
        ("::1.2.3.4:5", bad.clone()),
        ("1:::2", bad.clone()),
        ("2001:0db8:85a3:0000:0000:8a2e:0370:7334", ip("2001:0db8:85a3:0000:0000:8a2e:0370:7334")),
        ("::1%1", bad.clone()),
        ("[::1]:65536", bad.clone()),
        ("[::1]80", bad.clone()),
        ("::1]:80", bad.clone()),
        ("[::1%]:80", bad.clone()),
        ("[::1%eth0]:80", bad.clone()),
        ("[::1%4294967295]:80", socket("[::1%4294967295]:80")),
        ("[::1%4294967296]:80", bad.clone()),
        ("[::1%05]:080", socket("[::1%05]:080")),
        ("[::ffff:1.2.3.4]:1", socket("[::ffff:1.2.3.4]:1")),
        ("[]:80", bad.clone()),
        ("[]", bad.clone()),
        ("[", bad.clone()),
        ("::1:80", ip("::1:80")),
        ("[[::1]]", bad.clone()),
    ] {
        assert_eq!(KatcpAddress::from_argument(text), expected, "{:?}", text);
    }
}

#[test]
fn float_literals_agree_with_the_standard_parser() {
    for text in [
        "0", "-0", "+0", "1", "1.", ".1", ".", "1.5", "1.5.", "1..5", "1e5", "1E5", "1e+5", "1e-5",
        "1e", "1e+", "e5", ".e5", "1.e5", ".5e5", "1e5.5", "1e5e5", "inf", "INF", "Inf", "+inf",
        "-inf", "infinity", "INFINITY", "infinit", "infinityy", "nan", "NaN", "NAN", "+nan", "-nan",
        "nane", "in", "1inf", "0x1", "1_000", "1,5", " 1", "1 ", "", "+", "-", "+-1", "--1", "1f32",
        "١", "1.5e", "00012", "1e0000000005", "123456789012345678901234567890",
        "1e400", "-1e-400", "+.5", "-.5e-3", "+5.E+3",
    ] {
        assert_eq!(
            FloatLiteral::new(text).is_some(),
            text.parse::<f32>().is_ok(),
            "{:?}",
            text
        );
    }
}

#[test]
fn integers_agree_with_the_standard_parser() {
    for text in [
        "", "0", "1", "+1", "-1", "+", "-", "++1", "+-1", "-+1", "00", "-0", "+0", "4294967295",
        "4294967296", "2147483647", "2147483648", "-2147483648", "-2147483649",
        "99999999999999999999999", "-99999999999999999999999", "1 ", " 1", "1.0", "1e3", "0x1",
        "1_0", "١٢", "+00000000000000000000001",
    ] {
        assert_eq!(u32::from_argument(text).ok(), text.parse::<u32>().ok(), "{:?}", text);
        assert_eq!(i32::from_argument(text).ok(), text.parse::<i32>().ok(), "{:?}", text);
    }
}
