use katcp::messages::address::KatcpAddress;
use katcp::messages::common::{
    message_from_str, message_to_string, FromKatcpArguments, KatcpMessage, RetCode,
    ToKatcpArguments,
};
use katcp::messages::device::{
    ChangeSpecificationAction, Disconnect, GenericReply, Halt, Help, IntReply,
    InterfaceChangeInform, InterfaceChanged, ProtocolFlags, Restart, VersionConnect,
    VersionConnectInform, VersionList, Watchdog,
};
use katcp::protocol::{KatcpError, Message, MessageKind};

/// Writes the message as a line, reads the line back and compares.
fn roundtrip_test<T>(message: T)
where
    T: KatcpMessage + PartialEq + std::fmt::Debug,
{
    let raw = message.to_message(None).unwrap();
    let s = raw.to_string();
    println!("Katcp Payload:\n{}", s);
    let raw_test: Message = (s.as_str()).try_into().unwrap();
    let message_test = T::from_message(&raw_test).unwrap();
    assert_eq!(message, message_test)
}

fn strings(tokens: &[&str]) -> Vec<String> {
    tokens.iter().map(|s| s.to_string()).collect()
}

#[test]
fn test_halt() {
    roundtrip_test(Halt::Request);
    roundtrip_test(Halt::Reply(GenericReply::Okay));
    roundtrip_test(Halt::Reply(GenericReply::Error {
        ret_code: RetCode::Fail,
        message: "You Messed Up".to_owned(),
    }));
}

#[test]
fn test_help() {
    roundtrip_test(Help::Request { name: None });
    roundtrip_test(Help::Request {
        name: Some("my_special_message".to_owned()),
    });
    roundtrip_test(Help::Reply(IntReply::Okay { num: 10 }));
    roundtrip_test(Help::Reply(IntReply::Error {
        ret_code: RetCode::Fail,
        message: "Something went wrong".to_owned(),
    }));
}

#[test]
fn test_restart() {
    roundtrip_test(Restart::Request);
    roundtrip_test(Restart::Reply(GenericReply::Okay));
    roundtrip_test(Restart::Reply(GenericReply::Error {
        ret_code: RetCode::Fail,
        message: "You Messed Up".to_owned(),
    }));
}

#[test]
fn test_watchdog() {
    roundtrip_test(Watchdog::Request);
    roundtrip_test(Watchdog::Reply(GenericReply::Okay));
}

#[test]
fn test_version_list() {
    roundtrip_test(VersionList::Request);
    roundtrip_test(VersionList::Inform {
        name: "my-special-device".to_owned(),
        version: "0.1.2.3rev10".to_owned(),
        uuid: "asdb132b34j".to_owned(),
    });
    roundtrip_test(VersionList::Reply(IntReply::Okay { num: 300 }));
    roundtrip_test(VersionList::Reply(IntReply::Error {
        ret_code: RetCode::Invalid,
        message: "Please fix me\nThis is bad".to_owned(),
    }))
}

#[test]
fn test_disconnect() {
    roundtrip_test(Disconnect::Inform {
        message: "New client connected from 192.168.1.100:24500".to_owned(),
    });
}

#[test]
fn test_version_connect() {
    roundtrip_test(VersionConnect::library("0.1.0", "1.95.0"));
    roundtrip_test(VersionConnect::Inform(
        VersionConnectInform::KatcpProtocol {
            major: 5,
            minor: 1,
            flags: vec![ProtocolFlags::MultiClient, ProtocolFlags::BulkSampling],
        },
    ));
    roundtrip_test(VersionConnect::Inform(
        VersionConnectInform::KatcpProtocol {
            major: 5,
            minor: 0,
            flags: vec![],
        },
    ));
    roundtrip_test(VersionConnect::Inform(VersionConnectInform::Custom {
        name: "kernel".to_owned(),
        version: "4.4.9-v7+".to_owned(),
        info: Some("#884 SMP Fri May 6 17:28:59 BST 2016".to_owned()),
    }));
}

#[test]
fn test_interface_changed() {
    roundtrip_test(InterfaceChanged::Inform(InterfaceChangeInform::SensorList));
    roundtrip_test(InterfaceChanged::Inform(InterfaceChangeInform::RequestList));
    roundtrip_test(InterfaceChanged::Inform(InterfaceChangeInform::Sensor {
        name: "name.of.fancy.sensor".to_owned(),
        action: ChangeSpecificationAction::Added,
    }));
    roundtrip_test(InterfaceChanged::Inform(InterfaceChangeInform::Request {
        name: "name.of.fancy.sensor".to_owned(),
        action: ChangeSpecificationAction::Removed,
    }));
}

#[test]
fn scenario_halt_request() {
    let halt: Halt = message_from_str("?halt\n").unwrap();
    assert_eq!(halt, Halt::Request);
    assert_eq!(message_to_string(&halt), "?halt\n");
}

#[test]
fn scenario_halt_reply() {
    let halt: Halt = message_from_str("!halt invalid You\\_messed\\_up\n").unwrap();
    assert_eq!(
        halt,
        Halt::Reply(GenericReply::Error {
            ret_code: RetCode::Invalid,
            message: "You messed up".to_owned()
        })
    );
    assert_eq!(message_to_string(&halt), "!halt invalid You\\_messed\\_up\n");
}

#[test]
fn coded_result() {
    assert_eq!(GenericReply::from_arguments(&strings(&["ok"]), 0), Ok(GenericReply::Okay));
    assert_eq!(
        GenericReply::from_arguments(&strings(&["invalid", "bad\\_thing"]), 0),
        Ok(GenericReply::Error { ret_code: RetCode::Invalid, message: "bad thing".to_owned() })
    );
    assert_eq!(
        GenericReply::from_arguments(&strings(&["fail", "bad\\_thing"]), 0),
        Ok(GenericReply::Error { ret_code: RetCode::Fail, message: "bad thing".to_owned() })
    );
    assert_eq!(
        GenericReply::from_arguments(&strings(&["maybe", "bad\\_thing"]), 0),
        Err(KatcpError::BadArgument)
    );
    assert_eq!(GenericReply::from_arguments(&strings(&[]), 0), Err(KatcpError::MissingArgument));
    assert_eq!(GenericReply::from_arguments(&strings(&["ok"]), 1), Err(KatcpError::MissingArgument));
    assert_eq!(
        GenericReply::from_arguments(&strings(&["fail"]), 0),
        Err(KatcpError::MissingArgument)
    );
    assert_eq!(GenericReply::Okay.to_arguments(), strings(&["ok"]));
    assert_eq!(IntReply::from_arguments(&strings(&["x", "ok", "3"]), 1), Ok(IntReply::Okay { num: 3 }));
    assert_eq!(IntReply::from_arguments(&strings(&["ok"]), 0), Err(KatcpError::MissingArgument));
    assert_eq!(IntReply::from_arguments(&strings(&["ok", "x"]), 0), Err(KatcpError::BadArgument));
    assert_eq!(IntReply::from_arguments(&strings(&["bad"]), 0), Err(KatcpError::BadArgument));
    assert_eq!(
        IntReply::from_arguments(&strings(&["fail", "3"]), 0),
        Ok(IntReply::Error { ret_code: RetCode::Fail, message: "3".to_owned() })
    );
    assert_eq!(IntReply::Okay { num: 3 }.to_arguments(), strings(&["ok", "3"]));
}

#[test]
fn wrong_name_and_wrong_kind() {
    assert_eq!(message_from_str::<Halt>("?restart\n"), Err(KatcpError::IncorrectType));
    assert_eq!(message_from_str::<Halt>("#halt\n"), Err(KatcpError::Unknown));
    assert_eq!(message_from_str::<Disconnect>("?disconnect x\n"), Err(KatcpError::Unknown));
    assert_eq!(message_from_str::<Disconnect>("#disconnect\n"), Err(KatcpError::MissingArgument));
    assert_eq!(message_from_str::<Halt>("!halt\n"), Err(KatcpError::MissingArgument));
    assert_eq!(message_from_str::<Halt>("!halt nope\n"), Err(KatcpError::BadArgument));
    assert_eq!(
        message_from_str::<Halt>("halt\n"),
        Err(KatcpError::ParseError("halt\n".to_owned()))
    );
    assert_eq!(message_from_str::<Help>("?help\n"), Err(KatcpError::MissingArgument));
    assert_eq!(message_from_str::<Help>("?help \\@\n"), Ok(Help::Request { name: None }));
    assert_eq!(
        message_from_str::<Help>("#help watchdog\n"),
        Err(KatcpError::MissingArgument)
    );
}

#[test]
fn message_ids_are_written() {
    let m = Halt::Request.to_message(Some(42)).unwrap();
    assert_eq!(m.to_string(), "?halt[42]\n");
    assert_eq!(m.kind(), MessageKind::Request);
    let m = Help::Reply(IntReply::Okay { num: 2 }).to_message(Some(7)).unwrap();
    assert_eq!(m.to_string(), "!help[7] ok 2\n");
}

#[test]
fn version_connect_shapes() {
    let read = |line: &str| message_from_str::<VersionConnect>(line);
    assert_eq!(
        read("#version-connect katcp-protocol 5.0-MI\n"),
        Ok(VersionConnect::Inform(VersionConnectInform::KatcpProtocol {
            major: 5,
            minor: 0,
            flags: vec![ProtocolFlags::MultiClient, ProtocolFlags::MessageIds],
        }))
    );
    assert_eq!(
        read("#version-connect katcp-protocol 5.1-TBTB\n"),
        Ok(VersionConnect::Inform(VersionConnectInform::KatcpProtocol {
            major: 5,
            minor: 1,
            flags: vec![ProtocolFlags::TimeoutHints, ProtocolFlags::BulkSampling],
        }))
    );
    assert_eq!(
        read("#version-connect katcp-protocol 5.1-\n"),
        Ok(VersionConnect::Inform(VersionConnectInform::KatcpProtocol {
            major: 5,
            minor: 1,
            flags: vec![],
        }))
    );
    for bad in ["5", "5.", ".1", "5.1-X", "a.1", "5.b", "5.1.2", "5-1"] {
        assert_eq!(
            read(&format!("#version-connect katcp-protocol {}\n", bad)),
            Err(KatcpError::BadArgument),
            "{}",
            bad
        );
    }
    assert_eq!(read("#version-connect katcp-protocol\n"), Err(KatcpError::MissingArgument));
    assert_eq!(read("#version-connect\n"), Err(KatcpError::MissingArgument));
    assert_eq!(
        read("#version-connect katcp-library katcp-0.1 rustc-1.70\n"),
        Ok(VersionConnect::library("0.1", "1.70"))
    );
    assert_eq!(read("#version-connect katcp-library katcp-0.1\n"), Err(KatcpError::MissingArgument));
    assert_eq!(
        read("#version-connect katcp-device v1 10.0.0.1:7147 build\\_7\n"),
        Ok(VersionConnect::Inform(VersionConnectInform::KatcpDevice {
            api_version: "v1".to_owned(),
            device: KatcpAddress::Socket("10.0.0.1:7147".to_owned()),
            build_state: "build 7".to_owned(),
        }))
    );
    assert_eq!(
        read("#version-connect katcp-device v1 nowhere build\n"),
        Err(KatcpError::BadArgument)
    );
    assert_eq!(
        read("#version-connect kernel 4.4.9\n"),
        Ok(VersionConnect::Inform(VersionConnectInform::Custom {
            name: "kernel".to_owned(),
            version: "4.4.9".to_owned(),
            info: None,
        }))
    );
    assert_eq!(
        read("#version-connect my\\_kernel 4.4.9 \\@\n"),
        Ok(VersionConnect::Inform(VersionConnectInform::Custom {
            name: "my kernel".to_owned(),
            version: "4.4.9".to_owned(),
            info: Some("".to_owned()),
        }))
    );
    assert_eq!(read("#version-connect kernel\n"), Err(KatcpError::MissingArgument));
    let proto = VersionConnectInform::KatcpProtocol {
        major: 5,
        minor: 1,
        flags: vec![ProtocolFlags::BulkSampling, ProtocolFlags::MultiClient],
    };
    assert_eq!(proto.to_arguments(), strings(&["katcp-protocol", "5.1-BM"]));
}

#[test]
fn protocol_flag_letters() {
    for (flag, letter) in [
        (ProtocolFlags::MultiClient, 'M'),
        (ProtocolFlags::MessageIds, 'I'),
        (ProtocolFlags::TimeoutHints, 'T'),
        (ProtocolFlags::BulkSampling, 'B'),
    ] {
        assert_eq!(flag.to_char(), letter);
        assert_eq!(flag.to_string(), letter.to_string());
        assert_eq!(ProtocolFlags::from_char(letter), Some(flag));
        assert_eq!(ProtocolFlags::try_from(&letter.to_string()), Ok(flag));
    }
    assert_eq!(ProtocolFlags::from_char('m'), None);
    assert_eq!(ProtocolFlags::try_from("MI"), Err(KatcpError::BadArgument));
    assert_eq!(ProtocolFlags::try_from(""), Err(KatcpError::BadArgument));
    assert_eq!(ProtocolFlags::try_from("X"), Err(KatcpError::BadArgument));
}

#[test]
fn interface_changed_shapes() {
    let read = |line: &str| message_from_str::<InterfaceChanged>(line);
    assert_eq!(
        read("#interface-changed sensor-list\n"),
        Ok(InterfaceChanged::Inform(InterfaceChangeInform::SensorList))
    );
    assert_eq!(
        read("#interface-changed request a\\_b modified\n"),
        Ok(InterfaceChanged::Inform(InterfaceChangeInform::Request {
            name: "a b".to_owned(),
            action: ChangeSpecificationAction::Modified,
        }))
    );
    assert_eq!(read("#interface-changed\n"), Err(KatcpError::MissingArgument));
    assert_eq!(read("#interface-changed sensor\n"), Err(KatcpError::MissingArgument));
    assert_eq!(read("#interface-changed sensor x\n"), Err(KatcpError::MissingArgument));
    assert_eq!(read("#interface-changed sensor x gone\n"), Err(KatcpError::BadArgument));
    assert_eq!(read("#interface-changed other\n"), Err(KatcpError::BadArgument));
}
