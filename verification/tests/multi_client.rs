use katcp::messages::address::KatcpAddress;
use katcp::messages::common::{message_from_str, FromKatcpArgument, KatcpMessage};
use katcp::messages::device::IntReply;
use katcp::messages::multi_client::{ClientConnected, ClientList};
use katcp::protocol::{KatcpError, Message};

fn roundtrip_test<T>(message: T)
where
    T: KatcpMessage + PartialEq + std::fmt::Debug,
{
    let raw = message.to_message(None).unwrap();
    let s = raw.to_string();
    println!("Katcp Payload:\n{}", s);
    let raw_test: Message = (s.as_str()).try_into().unwrap();
    let message_test = T::from_message(&raw_test).unwrap();
    assert_eq!(message, message_test)
}

#[test]
fn test_client_list() {
    roundtrip_test(ClientList::Request);
    roundtrip_test(ClientList::Reply(IntReply::Okay { num: 3 }));
    roundtrip_test(ClientList::Inform {
        addr: KatcpAddress::from_argument("192.168.4.10:8081").unwrap(),
    });
    roundtrip_test(ClientList::Inform {
        addr: KatcpAddress::from_argument("[::1]").unwrap(),
    });
}

#[test]
fn test_client_connected() {
    roundtrip_test(ClientConnected::Inform {
        message: "Welcome! You're connected".to_owned(),
    })
}

#[test]
fn client_list_on_the_wire() {
    let inform = ClientList::Inform { addr: KatcpAddress::Ip("::1".to_owned()) };
    assert_eq!(inform.to_message(None).unwrap().to_string(), "#client-list [::1]\n");
    assert_eq!(message_from_str::<ClientList>("#client-list [::1]\n"), Ok(inform));
    assert_eq!(message_from_str::<ClientList>("#client-list nobody\n"), Err(KatcpError::BadArgument));
    assert_eq!(message_from_str::<ClientList>("#client-list\n"), Err(KatcpError::MissingArgument));
    assert_eq!(message_from_str::<ClientList>("?client-list\n"), Ok(ClientList::Request));
    assert_eq!(
        message_from_str::<ClientConnected>("!client-connected x\n"),
        Err(KatcpError::Unknown)
    );
}
