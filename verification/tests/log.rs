use katcp::messages::common::{
    message_from_str, FromKatcpArgument, KatcpMessage, RetCode, ToKatcpArgument,
};
use katcp::messages::log::{Log, LogLevel};
use katcp::messages::timestamp::KatcpTimestamp;
use katcp::protocol::{KatcpError, Message};

fn roundtrip_test<T>(message: T)
where
    T: KatcpMessage + PartialEq + std::fmt::Debug,
{
    let raw = message.to_message(None).unwrap();
    let s = raw.to_string();
    println!("Katcp Payload:\n{}", s);
    let raw_test: Message = (s.as_str()).try_into().unwrap();
    let message_test = T::from_message(&raw_test).unwrap();
    assert_eq!(message, message_test)
}

#[test]
fn test_log() {
    roundtrip_test(Log::Inform {
        level: LogLevel::Error,
        timestamp: KatcpTimestamp::new(420, 3).unwrap(),
        name: "foo.bar.baz".to_owned(),
        message: "This is a test message".to_owned(),
    });
    roundtrip_test(Log::Reply {
        ret_code: RetCode::Okay,
        level: LogLevel::Trace,
    });
    roundtrip_test(Log::Request {
        level: Some(LogLevel::Info),
    });
}

#[test]
fn scenario_log_inform() {
    let log: Log = message_from_str("#log warn 100 foo.bar.baz Hey\\_there\\_kiddo\n").unwrap();
    assert_eq!(
        log,
        Log::Inform {
            level: LogLevel::Warn,
            timestamp: KatcpTimestamp::new(100, 0).unwrap(),
            name: "foo.bar.baz".to_owned(),
            message: "Hey there kiddo".to_owned(),
        }
    );
    assert_eq!(
        log,
        Log::inform(LogLevel::Warn, KatcpTimestamp::new(100, 0).unwrap(), "foo.bar.baz", "Hey there kiddo")
    );
}

#[test]
fn log_constructors() {
    assert_eq!(Log::request(None), Log::Request { level: None });
    assert_eq!(
        Log::reply(RetCode::Fail, LogLevel::Off),
        Log::Reply { ret_code: RetCode::Fail, level: LogLevel::Off }
    );
    assert_eq!(Log::request(None).to_message(Some(3)).unwrap().to_string(), "?log[3] \\@\n");
    assert_eq!(
        Log::reply(RetCode::Okay, LogLevel::Debug).to_message(None).unwrap().to_string(),
        "!log ok debug\n"
    );
}

#[test]
fn log_levels() {
    for (level, label) in [
        (LogLevel::Off, "off"),
        (LogLevel::Fatal, "fatal"),
        (LogLevel::Error, "error"),
        (LogLevel::Warn, "warn"),
        (LogLevel::Info, "info"),
        (LogLevel::Debug, "debug"),
        (LogLevel::Trace, "trace"),
        (LogLevel::All, "all"),
    ] {
        assert_eq!(level.to_argument(), label);
        assert_eq!(LogLevel::from_argument(label), Ok(level));
    }
    assert_eq!(LogLevel::from_argument("warning"), Err(KatcpError::BadArgument));
}

#[test]
fn log_errors() {
    assert_eq!(message_from_str::<Log>("#log warn 100 name\n"), Err(KatcpError::MissingArgument));
    assert_eq!(message_from_str::<Log>("#log loud 100 name msg\n"), Err(KatcpError::BadArgument));
    assert_eq!(message_from_str::<Log>("#log warn soon name msg\n"), Err(KatcpError::BadArgument));
    assert_eq!(message_from_str::<Log>("!log ok\n"), Err(KatcpError::MissingArgument));
    assert_eq!(message_from_str::<Log>("?log\n"), Err(KatcpError::MissingArgument));
    assert_eq!(message_from_str::<Log>("?log loud\n"), Err(KatcpError::BadArgument));
    assert_eq!(message_from_str::<Log>("#logs warn 100 name msg\n"), Err(KatcpError::IncorrectType));
}
