use std::str::FromStr;

use katcp::protocol::{
    argument, eol, escape, id, kind, message, name, plain, whitespace, KatcpError, Message,
    MessageKind,
};

#[test]
fn test_msg_type() {
    assert_eq!(Ok(("", MessageKind::Reply)), kind("!"));
    assert_eq!(Ok(("", MessageKind::Inform)), kind("#"));
    assert_eq!(Ok(("", MessageKind::Request)), kind("?"));
}

#[test]
fn test_name() {
    assert_eq!(Ok(("", "set-rate")), name("set-rate"));
    assert_eq!(Ok(("", "foobar")), name("foobar"));
    assert_eq!(Ok(("", "f00-bar")), name("f00-bar"));
}

#[test]
fn test_msg_id() {
    assert_eq!(Ok(("", 123)), id("[123]"));
    assert_eq!(Ok(("", 100)), id("[100]"));
    assert_eq!(Ok(("", 9)), id("[9]"));
}

#[test]
fn test_whitespace() {
    assert_eq!(Ok(("", " ")), whitespace(" "));
    assert_eq!(Ok(("", "    ")), whitespace("    "));
    assert_eq!(Ok(("", "\t    \t")), whitespace("\t    \t"));
}

#[test]
fn test_escaped() {
    assert_eq!(Ok(("", r"\\")), escape(r"\\"));
    assert_eq!(Ok(("", r"\_")), escape(r"\_"));
    assert_eq!(Ok(("", r"\0")), escape(r"\0"));
    assert_eq!(Ok(("", r"\n")), escape(r"\n"));
    assert_eq!(Ok(("", r"\r")), escape(r"\r"));
    assert_eq!(Ok(("", r"\e")), escape(r"\e"));
    assert_eq!(Ok(("", r"\t")), escape(r"\t"));
    assert_eq!(Ok(("", r"\@")), escape(r"\@"));
}

#[test]
fn test_eol() {
    assert_eq!(Ok(("", "\n")), eol("\n"));
    assert_eq!(Ok(("", "\r")), eol("\r"));
}

#[test]
fn test_plain() {
    assert_eq!(Ok(("", "6.1")), plain("6.1"));
    assert_eq!(Ok(("", "invalid")), plain("invalid"));
    assert_eq!(Ok(("\\_request.", "Unknown")), plain("Unknown\\_request."));
}

#[test]
fn test_argument() {
    assert_eq!(Ok(("", "6.1")), argument("6.1"));
    assert_eq!(Ok(("", "invalid")), argument("invalid"));
    assert_eq!(
        Ok(("", "Unknown\\_request.")),
        argument("Unknown\\_request.")
    );
}

#[test]
fn test_message() {
    assert_eq!(
        Message::new(MessageKind::Request, "set-rate", None, vec!["5.1"]).unwrap(),
        message("?set-rate 5.1").unwrap().1
    );
    assert_eq!(
        Message::new(MessageKind::Request, "set-rate", None, vec!["5.1"]).unwrap(),
        message("?set-rate 5.1\n").unwrap().1
    );
    assert_eq!(
        Message::new(MessageKind::Reply, "set-rate", None, vec!["ok"]).unwrap(),
        message("!set-rate ok").unwrap().1
    );
    assert_eq!(
        Message::new(MessageKind::Request, "set-unknown-parameter", None, vec!["6.1"]).unwrap(),
        message("?set-unknown-parameter 6.1").unwrap().1
    );
    assert_eq!(
        Message::new(
            MessageKind::Reply,
            "set-unknown-parameter",
            None,
            vec!["invalid", r"Unknown\_request."]
        )
        .unwrap(),
        message(r"!set-unknown-parameter invalid Unknown\_request.")
            .unwrap()
            .1
    );
    assert_eq!(
        Message::new(
            MessageKind::Reply,
            "set-rate",
            None,
            vec!["fail", r"Hardware\_did\_not\_respond."]
        )
        .unwrap(),
        message(r"!set-rate fail Hardware\_did\_not\_respond.")
            .unwrap()
            .1
    );
    assert_eq!(
        Message::new(MessageKind::Request, "set-rate", Some(123), vec!["4.1"]).unwrap(),
        message("?set-rate[123] 4.1").unwrap().1
    );
    assert_eq!(
        Message::new(MessageKind::Reply, "set-rate", Some(123), vec!["ok"]).unwrap(),
        message("!set-rate[123] ok").unwrap().1
    );
    assert_eq!(
        Message::new(MessageKind::Request, "sensor-list", None, Vec::<&str>::new()).unwrap(),
        message("?sensor-list").unwrap().1
    );
    assert_eq!(
        Message::new(MessageKind::Request, "sensor-list", Some(420), Vec::<&str>::new()).unwrap(),
        message("?sensor-list[420]").unwrap().1
    );
    assert_eq!(
        Message::new(
            MessageKind::Inform,
            "sensor-list",
            None,
            vec![
                "drive.enable-azim",
                r"Azimuth\_drive\_enable\_signal\_status",
                r"\@",
                "boolean"
            ]
        )
        .unwrap(),
        message(r"#sensor-list drive.enable-azim Azimuth\_drive\_enable\_signal\_status \@ boolean")
            .unwrap()
            .1
    );
    assert_eq!(
        Message::new(
            MessageKind::Inform,
            "sensor-list",
            None,
            vec![
                "drive.enable-elev",
                r"Elevation\_drive\_enable\_signal\_status",
                r"\@",
                "boolean"
            ]
        )
        .unwrap(),
        message(
            r"#sensor-list drive.enable-elev Elevation\_drive\_enable\_signal\_status \@ boolean"
        )
        .unwrap()
        .1
    );
    assert_eq!(
        Message::new(
            MessageKind::Inform,
            "sensor-list",
            None,
            vec![
                "drive.dc-voltage-elev",
                r"Drive\_bus\_voltage",
                "V",
                "float",
                "0.0",
                "900.0"
            ]
        )
        .unwrap(),
        message(r"#sensor-list drive.dc-voltage-elev Drive\_bus\_voltage V float 0.0 900.0")
            .unwrap()
            .1
    );
    assert_eq!(
        Message::new(MessageKind::Reply, "sensor-list", None, vec!["ok", "3"]).unwrap(),
        message(r"!sensor-list ok 3").unwrap().1
    );
    assert_eq!(
        Message::new(
            MessageKind::Inform,
            "internet-box",
            None,
            vec!["address", "[2001:0db8:85a3:0000:0000:8a2e:0370:7334]:4000"]
        )
        .unwrap(),
        message(r"#internet-box address [2001:0db8:85a3:0000:0000:8a2e:0370:7334]:4000 ")
            .unwrap()
            .1
    );
}

#[test]
fn deserialization() {
    let msg = Message::new(MessageKind::Inform, "foo-bar", Some(123), vec!["foo", "bar"]).unwrap();
    let msg_str = "#foo-bar[123] foo bar";
    // FromStr
    assert_eq!(msg, Message::from_str(msg_str).unwrap());
    assert_eq!(msg, msg_str.parse().unwrap());
    // TryInto
    assert_eq!(msg, msg_str.try_into().unwrap());
}

#[test]
fn serialization() {
    let msg = Message::new(MessageKind::Inform, "foo-bar", Some(123), vec!["foo", "bar"]).unwrap();
    let msg_str = "#foo-bar[123] foo bar\n";
    assert_eq!(msg_str, msg.to_string());
}

#[test]
fn struct_and_back() {
    let msg = Message::new(MessageKind::Inform, "foo-bar", Some(123), vec!["foo", "bar"]).unwrap();
    assert_eq!(Message::from_str(&msg.to_string()).unwrap(), msg);
}

#[test]
fn string_and_back() {
    let msg_str = "#foo-bar[123] foo bar\n";
    assert_eq!(Message::from_str(msg_str).unwrap().to_string(), msg_str);
}

fn residual(r: Result<Message, KatcpError>) -> String {
    match r {
        Err(KatcpError::ParseError(rest)) => rest,
        other => panic!("expected a parse error, got {:?}", other),
    }
}

#[test]
fn parse_rest_behind_terminator() {
    let (rest, m) = message("?halt\n!halt ok\n").unwrap();
    assert_eq!(rest, "!halt ok\n");
    assert_eq!(m.kind(), MessageKind::Request);
    assert_eq!(m.name(), "halt");
    assert_eq!(m.id(), None);
    assert_eq!(m.arguments(), Vec::<String>::new());
    let (rest, m) = message("#a-b[7]\t x\\_y \t\rz").unwrap();
    assert_eq!(rest, "z");
    assert_eq!(m.kind(), MessageKind::Inform);
    assert_eq!(m.name(), "a-b");
    assert_eq!(m.id(), Some(7));
    assert_eq!(m.arguments(), vec!["x\\_y".to_owned()]);
}

#[test]
fn parse_errors_hold_the_residual() {
    assert_eq!(residual(Message::from_str("")), "");
    assert_eq!(residual(Message::from_str("halt")), "halt");
    assert_eq!(residual(Message::from_str("?9halt")), "9halt");
    assert_eq!(residual(Message::from_str("?")), "");
    assert_eq!(residual(Message::from_str("?halt[0]")), "[0]");
    assert_eq!(residual(Message::from_str("?halt[012]")), "[012]");
    assert_eq!(residual(Message::from_str("?halt[12")), "[12");
    assert_eq!(residual(Message::from_str("?halt[4294967296]")), "[4294967296]");
    assert_eq!(residual(Message::from_str("?halt a\\xb")), "\\xb");
    assert_eq!(residual(Message::from_str("?halt a \\")), "\\");
}

#[test]
fn parse_id_bounds() {
    let m = Message::from_str("?halt[4294967295]").unwrap();
    assert_eq!(m.id(), Some(4294967295));
    let m = Message::from_str("?halt[1]").unwrap();
    assert_eq!(m.id(), Some(1));
}

#[test]
fn malformed_input_is_a_parse_error() {
    // a stray control byte before the terminator
    assert_eq!(residual(Message::from_str("?halt a\0b\n")), "\0b\n");
    assert_eq!(residual(Message::from_str("?ha\0lt\n")), "\0lt\n");
    // garbage where the terminator should stand
    assert_eq!(residual(Message::from_str("?halt[1]x\n")), "x\n");
    assert_eq!(residual(Message::from_str("?set_rate 1\n")), "_rate 1\n");
    // an escape character plays no special part: it is plain
    let m = Message::from_str("?halt a\u{1b}b\n").unwrap();
    assert_eq!(m.arguments(), vec!["a\u{1b}b".to_owned()]);
}

#[test]
fn new_validates_name_and_arguments() {
    assert!(Message::new(MessageKind::Request, "halt", None, vec!["a", r"b\_c", r"\@"]).is_ok());
    assert_eq!(
        Message::new(MessageKind::Request, "", None, Vec::<&str>::new()),
        Err(KatcpError::ParseError("".to_owned()))
    );
    assert_eq!(
        Message::new(MessageKind::Request, "9lives", None, Vec::<&str>::new()),
        Err(KatcpError::ParseError("9lives".to_owned()))
    );
    assert_eq!(
        Message::new(MessageKind::Request, "foo bar", None, Vec::<&str>::new()),
        Err(KatcpError::ParseError(" bar".to_owned()))
    );
    assert_eq!(
        Message::new(MessageKind::Request, "foo", None, vec!["ok", ""]),
        Err(KatcpError::ParseError("".to_owned()))
    );
    assert_eq!(
        Message::new(MessageKind::Request, "foo", None, vec!["ok", "a b", "\\"]),
        Err(KatcpError::ParseError(" b".to_owned()))
    );
    assert_eq!(
        Message::new(MessageKind::Request, "foo", None, vec![r"a\x"]),
        Err(KatcpError::ParseError(r"\x".to_owned()))
    );
}

#[test]
fn new_unchecked_keeps_its_parts() {
    let m = Message::new_unchecked(MessageKind::Reply, "not a name", Some(0), vec!["a b".to_owned()]);
    assert_eq!(m.kind(), MessageKind::Reply);
    assert_eq!(m.name(), "not a name");
    assert_eq!(m.name_ref(), "not a name");
    assert_eq!(m.id(), Some(0));
    assert_eq!(m.arguments(), vec!["a b".to_owned()]);
    assert_eq!(m.arguments_ref(), &vec!["a b".to_owned()]);
    assert_eq!(m.to_string(), "!not a name[0] a b\n");
}

#[test]
fn serialize_then_parse_gives_the_message() {
    let m = Message::new(
        MessageKind::Inform,
        "sensor-value",
        Some(4294967295),
        vec!["1.5", r"a\_b\\", r"\@", "x\u{1b}y"],
    )
    .unwrap();
    let line = m.to_string();
    assert_eq!(line, "#sensor-value[4294967295] 1.5 a\\_b\\\\ \\@ x\u{1b}y\n");
    let (rest, back) = message(&line).unwrap();
    assert_eq!(rest, "");
    assert_eq!(back, m);
    // an id of zero is written but not read back
    let zero = Message::new(MessageKind::Request, "halt", Some(0), Vec::<&str>::new()).unwrap();
    assert_eq!(zero.to_string(), "?halt[0]\n");
    assert_eq!(residual(Message::from_str(&zero.to_string())), "[0]\n");
}

#[test]
fn sub_parsers_report_where_they_stop() {
    assert_eq!(kind("x?"), Err(KatcpError::ParseError("x?".to_owned())));
    assert_eq!(kind(""), Err(KatcpError::ParseError("".to_owned())));
    assert_eq!(kind("?halt"), Ok(("halt", MessageKind::Request)));
    assert_eq!(name("-ab"), Err(KatcpError::ParseError("-ab".to_owned())));
    assert_eq!(name("ab_c"), Ok(("_c", "ab")));
    assert_eq!(whitespace("x "), Err(KatcpError::ParseError("x ".to_owned())));
    assert_eq!(whitespace(" \tx"), Ok(("x", " \t")));
    assert_eq!(id("123]"), Err(KatcpError::ParseError("123]".to_owned())));
    assert_eq!(id("[0]"), Err(KatcpError::ParseError("0]".to_owned())));
    assert_eq!(id("[12x]"), Err(KatcpError::ParseError("x]".to_owned())));
    assert_eq!(id("[12"), Err(KatcpError::ParseError("".to_owned())));
    assert_eq!(id("[4294967296]"), Err(KatcpError::ParseError("[4294967296]".to_owned())));
    assert_eq!(id("[12] x"), Ok((" x", 12)));
    assert_eq!(escape(r"\x"), Err(KatcpError::ParseError("x".to_owned())));
    assert_eq!(escape("a"), Err(KatcpError::ParseError("a".to_owned())));
    assert_eq!(escape(r"\_a"), Ok(("a", r"\_")));
    assert_eq!(eol("a\n"), Err(KatcpError::ParseError("a\n".to_owned())));
    assert_eq!(eol("\r\n"), Ok(("\n", "\r")));
    assert_eq!(plain(" a"), Err(KatcpError::ParseError(" a".to_owned())));
    assert_eq!(argument(""), Err(KatcpError::ParseError("".to_owned())));
    assert_eq!(argument(r"\x"), Err(KatcpError::ParseError(r"\x".to_owned())));
    assert_eq!(argument(r"a\_b\x c"), Ok((r"\x c", r"a\_b")));
}
