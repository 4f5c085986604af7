//! Messages for devices that serve several clients at once.

use vstd::prelude::*;
use crate::messages::address::KatcpAddress;
use crate::messages::common::{
    argument_roundtrips, arguments_roundtrip, decode_field, field_failure, field_yields,
    header_failure, message_roundtrips, no_arguments, or_else, FromKatcpArguments, KatcpMessage,
    ToKatcpArgument, ToKatcpArguments,
};
use crate::messages::device::IntReply;
use crate::protocol::{KatcpError, Message, MessageKind, MessageResult, MessageView};
use crate::text::str_eq;

verus! {

/// Asks for the clients that are connected to the device.
#[derive(Debug, PartialEq, Eq, Clone)]
pub enum ClientList {
    Request,
    /// The address of one client.
    Inform {
        addr: KatcpAddress,
    },
    /// The number of informs that were sent.
    Reply(IntReply),
}

impl KatcpMessage for ClientList {
    open spec fn message_spec(&self, id: Option<u32>) -> MessageView {
        match self {
            ClientList::Request => MessageView {
                kind: MessageKind::Request,
                name: "client-list"@,
                id,
                arguments: Seq::empty(),
            },
            ClientList::Inform { addr } => MessageView {
                kind: MessageKind::Inform,
                name: "client-list"@,
                id,
                arguments: seq![addr.argument_spec()],
            },
            ClientList::Reply(inner) => MessageView {
                kind: MessageKind::Reply,
                name: "client-list"@,
                id,
                arguments: inner.arguments_spec(),
            },
        }
    }

    open spec fn failure(m: MessageView) -> Option<KatcpError> {
        or_else(
            header_failure(m, "client-list"@, true),
            match m.kind {
                MessageKind::Request => None,
                MessageKind::Reply => IntReply::failure(m.arguments),
                MessageKind::Inform => field_failure::<KatcpAddress>(m.arguments, 0),
            },
        )
    }

    open spec fn yields(m: MessageView, v: Self) -> bool {
        &&& m.name == "client-list"@
        &&& match v {
            ClientList::Request => m.kind == MessageKind::Request,
            ClientList::Inform { addr } => {
                &&& m.kind == MessageKind::Inform
                &&& field_yields::<KatcpAddress>(m.arguments, 0, addr)
            },
            ClientList::Reply(inner) => {
                &&& m.kind == MessageKind::Reply
                &&& IntReply::yields(m.arguments, inner)
            },
        }
    }

    fn to_message(&self, id: Option<u32>) -> (r: MessageResult) {
        let (kind, arguments) = match self {
            ClientList::Request => (MessageKind::Request, no_arguments()),
            ClientList::Inform { addr } => {
                let tokens = vec![addr.to_argument()];
                assert(tokens.deep_view() =~= self.message_spec(id).arguments);
                (MessageKind::Inform, tokens)
            },
            ClientList::Reply(inner) => (MessageKind::Reply, inner.to_arguments()),
        };
        Ok(Message::new_unchecked(kind, "client-list", id, arguments))
    }

    fn from_message(message: &Message) -> (r: Result<Self, KatcpError>) {
        if !str_eq(message.name_ref(), "client-list") {
            return Err(KatcpError::IncorrectType);
        }
        let args = message.arguments_ref();
        assert(args.deep_view().skip(0) =~= args.deep_view());
        match message.kind() {
            MessageKind::Request => Ok(ClientList::Request),
            MessageKind::Reply => Ok(ClientList::Reply(IntReply::from_arguments(args, 0)?)),
            MessageKind::Inform => {
                let addr = decode_field::<KatcpAddress>(args, 0)?;
                Ok(ClientList::Inform { addr })
            },
        }
    }
}

impl ClientList {
    /// Each part of the message is read back from what it is written as.
    pub open spec fn parts_roundtrip(&self) -> bool {
        match self {
            ClientList::Request => true,
            ClientList::Inform { addr } => {
                &&& argument_roundtrips(*addr)
            },
            ClientList::Reply(inner) => arguments_roundtrip(*inner),
        }
    }

    /// Reading the raw message of a value gives the value back, where each
    /// of its parts is read back from what it is written as.
    pub proof fn lemma_roundtrip(self, id: Option<u32>)
        requires
            self.parts_roundtrip(),
        ensures
            message_roundtrips(self, id),
    {
    }
}

/// Sent to the clients of a device when a new client connects.
#[derive(Debug, PartialEq, Eq, Clone)]
pub enum ClientConnected {
    /// A description of the new client.
    Inform {
        message: String,
    },
}

impl KatcpMessage for ClientConnected {
    open spec fn message_spec(&self, id: Option<u32>) -> MessageView {
        match self {
            ClientConnected::Inform { message } => MessageView {
                kind: MessageKind::Inform,
                name: "client-connected"@,
                id,
                arguments: seq![message.argument_spec()],
            },
        }
    }

    open spec fn failure(m: MessageView) -> Option<KatcpError> {
        or_else(
            header_failure(m, "client-connected"@, m.kind != MessageKind::Request && m.kind != MessageKind::Reply),
            match m.kind {
                MessageKind::Request => None,
                MessageKind::Reply => None,
                MessageKind::Inform => field_failure::<String>(m.arguments, 0),
            },
        )
    }

    open spec fn yields(m: MessageView, v: Self) -> bool {
        &&& m.name == "client-connected"@
        &&& match v {
            ClientConnected::Inform { message } => {
                &&& m.kind == MessageKind::Inform
                &&& field_yields::<String>(m.arguments, 0, message)
            },
        }
    }

    fn to_message(&self, id: Option<u32>) -> (r: MessageResult) {
        let (kind, arguments) = match self {
            ClientConnected::Inform { message } => {
                let tokens = vec![message.to_argument()];
                assert(tokens.deep_view() =~= self.message_spec(id).arguments);
                (MessageKind::Inform, tokens)
            },
        };
        Ok(Message::new_unchecked(kind, "client-connected", id, arguments))
    }

    fn from_message(message: &Message) -> (r: Result<Self, KatcpError>) {
        if !str_eq(message.name_ref(), "client-connected") {
            return Err(KatcpError::IncorrectType);
        }
        let args = message.arguments_ref();
        match message.kind() {
            MessageKind::Request => Err(KatcpError::Unknown),
            MessageKind::Reply => Err(KatcpError::Unknown),
            MessageKind::Inform => {
                let message = decode_field::<String>(args, 0)?;
                Ok(ClientConnected::Inform { message })
            },
        }
    }
}

impl ClientConnected {
    /// Each part of the message is read back from what it is written as.
    pub open spec fn parts_roundtrip(&self) -> bool {
        match self {
            ClientConnected::Inform { message } => {
                &&& argument_roundtrips(*message)
            },
        }
    }

    /// Reading the raw message of a value gives the value back, where each
    /// of its parts is read back from what it is written as.
    pub proof fn lemma_roundtrip(self, id: Option<u32>)
        requires
            self.parts_roundtrip(),
        ensures
            message_roundtrips(self, id),
    {
    }
}

} // verus!
