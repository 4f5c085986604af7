//! Messages for connecting to a device, halting or restarting it and
//! asking what it is.

use vstd::prelude::*;
use crate::messages::address::KatcpAddress;
use crate::messages::common::{
    argument_roundtrips, arguments_roundtrip, decode_field, field_failure, field_yields,
    header_failure, message_roundtrips, no_arguments, or_else,
    FromKatcpArgument, FromKatcpArguments, KatcpMessage, RetCode, ToKatcpArgument,
    ToKatcpArguments,
};
use crate::protocol::{KatcpError, Message, MessageKind, MessageResult, MessageView};
use crate::decimal::{decimal_digits, parse_unsigned, push_decimal};
use crate::messages::common::parse_unsigned_chars;
use crate::decimal::{lemma_decimal_digits, lemma_parse_unsigned_digits};
use crate::text::{
    find_char, from_chars, index_of, lemma_index_of, push_str_chars, str_eq, sub_vec, to_chars,
};
use crate::messages::common::lemma_u32_roundtrip;
use crate::utils::{collision_free, escape_spec, lemma_unescape_escape};

verus! {

/// A reply that holds nothing where the request succeeded, and the code
/// and a description where it did not.
#[derive(Debug, PartialEq, Eq, Clone)]
pub enum GenericReply {
    Okay,
    Error { ret_code: RetCode, message: String },
}

impl ToKatcpArguments for GenericReply {
    open spec fn arguments_spec(&self) -> Seq<Seq<char>> {
        match self {
            GenericReply::Okay => seq![RetCode::Okay.label()],
            GenericReply::Error { ret_code, message } => seq![
                ret_code.label(),
                escape_spec(message@),
            ],
        }
    }

    fn to_arguments(&self) -> (tokens: Vec<String>) {
        let tokens = match self {
            GenericReply::Okay => vec![RetCode::Okay.to_argument()],
            GenericReply::Error { ret_code, message } => vec![
                ret_code.to_argument(),
                message.to_argument(),
            ],
        };
        assert(tokens.deep_view() =~= self.arguments_spec());
        tokens
    }
}

impl FromKatcpArguments for GenericReply {
    type Err = KatcpError;

    /// The code must be there and decode; any code but `ok` needs the
    /// description behind it.
    open spec fn failure(tokens: Seq<Seq<char>>) -> Option<KatcpError> {
        if field_failure::<RetCode>(tokens, 0) is Some {
            field_failure::<RetCode>(tokens, 0)
        } else if RetCode::from_label(tokens[0]) == Some(RetCode::Okay) {
            None
        } else {
            field_failure::<String>(tokens, 1)
        }
    }

    /// `ok` reads as success; another code as the failure with that code
    /// and the description behind it.
    open spec fn yields(tokens: Seq<Seq<char>>, v: Self) -> bool {
        match v {
            GenericReply::Okay => field_yields::<RetCode>(tokens, 0, RetCode::Okay),
            GenericReply::Error { ret_code, message } => {
                &&& ret_code != RetCode::Okay
                &&& field_yields::<RetCode>(tokens, 0, ret_code)
                &&& field_yields::<String>(tokens, 1, message)
            },
        }
    }

    fn from_arguments(strings: &Vec<String>, from: usize) -> (r: Result<Self, KatcpError>) {
        let ghost tokens = strings.deep_view().skip(from as int);
        let ghost all = strings.deep_view();
        assert(forall|k: int| 0 <= k < tokens.len() ==> tokens[k] == all[from + k]);
        if from >= strings.len() {
            return Err(KatcpError::MissingArgument);
        }
        let ret_code = decode_field::<RetCode>(strings, from)?;
        match ret_code {
            RetCode::Okay => Ok(GenericReply::Okay),
            _ => {
                let message = decode_field::<String>(strings, from + 1)?;
                Ok(GenericReply::Error { ret_code, message })
            },
        }
    }
}

impl GenericReply {
    /// The failure does not carry the code of success, and its description
    /// holds no backslash directly before one of `_ 0 n r e t @`.
    pub open spec fn canonical(&self) -> bool {
        match self {
            GenericReply::Okay => true,
            GenericReply::Error { ret_code, message } => *ret_code != RetCode::Okay
                && collision_free(message@),
        }
    }

    /// Reading the tokens of a canonical reply gives the reply back.
    pub proof fn lemma_roundtrip(self)
        requires
            self.canonical(),
        ensures
            arguments_roundtrip(self),
    {
        RetCode::Okay.lemma_label_roundtrip();
        match self {
            GenericReply::Okay => {},
            GenericReply::Error { ret_code, message } => {
                ret_code.lemma_label_roundtrip();
                lemma_unescape_escape(message@);
            },
        }
    }
}

/// A reply that holds a count where the request succeeded, and the code and
/// a description where it did not.
#[derive(Debug, PartialEq, Eq, Clone)]
pub enum IntReply {
    Okay { num: u32 },
    Error { ret_code: RetCode, message: String },
}

impl ToKatcpArguments for IntReply {
    open spec fn arguments_spec(&self) -> Seq<Seq<char>> {
        match self {
            IntReply::Okay { num } => seq![RetCode::Okay.label(), num.argument_spec()],
            IntReply::Error { ret_code, message } => seq![ret_code.label(), escape_spec(message@)],
        }
    }

    fn to_arguments(&self) -> (tokens: Vec<String>) {
        let tokens = match self {
            IntReply::Okay { num } => vec![RetCode::Okay.to_argument(), num.to_argument()],
            IntReply::Error { ret_code, message } => vec![
                ret_code.to_argument(),
                message.to_argument(),
            ],
        };
        assert(tokens.deep_view() =~= self.arguments_spec());
        tokens
    }
}

impl FromKatcpArguments for IntReply {
    type Err = KatcpError;

    /// The code must be there and decode, a second argument must follow,
    /// and behind `ok` it must be a count.
    open spec fn failure(tokens: Seq<Seq<char>>) -> Option<KatcpError> {
        if field_failure::<RetCode>(tokens, 0) is Some {
            field_failure::<RetCode>(tokens, 0)
        } else if tokens.len() < 2 {
            Some(KatcpError::MissingArgument)
        } else if RetCode::from_label(tokens[0]) == Some(RetCode::Okay) {
            field_failure::<u32>(tokens, 1)
        } else {
            None
        }
    }

    /// `ok` reads as success with the count behind it; another code as the
    /// failure with that code and the description behind it.
    open spec fn yields(tokens: Seq<Seq<char>>, v: Self) -> bool {
        match v {
            IntReply::Okay { num } => {
                &&& field_yields::<RetCode>(tokens, 0, RetCode::Okay)
                &&& field_yields::<u32>(tokens, 1, num)
            },
            IntReply::Error { ret_code, message } => {
                &&& ret_code != RetCode::Okay
                &&& field_yields::<RetCode>(tokens, 0, ret_code)
                &&& field_yields::<String>(tokens, 1, message)
            },
        }
    }

    fn from_arguments(strings: &Vec<String>, from: usize) -> (r: Result<Self, KatcpError>) {
        let ghost tokens = strings.deep_view().skip(from as int);
        let ghost all = strings.deep_view();
        assert(forall|k: int| 0 <= k < tokens.len() ==> tokens[k] == all[from + k]);
        if from >= strings.len() {
            return Err(KatcpError::MissingArgument);
        }
        let ret_code = decode_field::<RetCode>(strings, from)?;
        if from + 1 >= strings.len() {
            return Err(KatcpError::MissingArgument);
        }
        match ret_code {
            RetCode::Okay => {
                let num = decode_field::<u32>(strings, from + 1)?;
                Ok(IntReply::Okay { num })
            },
            _ => {
                let message = decode_field::<String>(strings, from + 1)?;
                Ok(IntReply::Error { ret_code, message })
            },
        }
    }
}

impl IntReply {
    /// The failure does not carry the code of success, and its description
    /// holds no backslash directly before one of `_ 0 n r e t @`.
    pub open spec fn canonical(&self) -> bool {
        match self {
            IntReply::Okay { .. } => true,
            IntReply::Error { ret_code, message } => *ret_code != RetCode::Okay && collision_free(
                message@,
            ),
        }
    }

    /// Reading the tokens of a canonical reply gives the reply back.
    pub proof fn lemma_roundtrip(self)
        requires
            self.canonical(),
        ensures
            arguments_roundtrip(self),
    {
        RetCode::Okay.lemma_label_roundtrip();
        match self {
            IntReply::Okay { num } => {
                lemma_u32_roundtrip(num);
            },
            IntReply::Error { ret_code, message } => {
                ret_code.lemma_label_roundtrip();
                lemma_unescape_escape(message@);
            },
        }
    }
}

/// Asks the device to halt; the reply is sent just before it does.
#[derive(Debug, PartialEq, Eq, Clone)]
pub enum Halt {
    Request,
    Reply(GenericReply),
}

impl KatcpMessage for Halt {
    open spec fn message_spec(&self, id: Option<u32>) -> MessageView {
        match self {
            Halt::Request => MessageView {
                kind: MessageKind::Request,
                name: "halt"@,
                id,
                arguments: Seq::empty(),
            },
            Halt::Reply(inner) => MessageView {
                kind: MessageKind::Reply,
                name: "halt"@,
                id,
                arguments: inner.arguments_spec(),
            },
        }
    }

    open spec fn failure(m: MessageView) -> Option<KatcpError> {
        or_else(
            header_failure(m, "halt"@, m.kind != MessageKind::Inform),
            match m.kind {
                MessageKind::Request => None,
                MessageKind::Reply => GenericReply::failure(m.arguments),
                MessageKind::Inform => None,
            },
        )
    }

    open spec fn yields(m: MessageView, v: Self) -> bool {
        &&& m.name == "halt"@
        &&& match v {
            Halt::Request => m.kind == MessageKind::Request,
            Halt::Reply(inner) => {
                &&& m.kind == MessageKind::Reply
                &&& GenericReply::yields(m.arguments, inner)
            },
        }
    }

    fn to_message(&self, id: Option<u32>) -> (r: MessageResult) {
        let (kind, arguments) = match self {
            Halt::Request => (MessageKind::Request, no_arguments()),
            Halt::Reply(inner) => (MessageKind::Reply, inner.to_arguments()),
        };
        Ok(Message::new_unchecked(kind, "halt", id, arguments))
    }

    fn from_message(message: &Message) -> (r: Result<Self, KatcpError>) {
        if !str_eq(message.name_ref(), "halt") {
            return Err(KatcpError::IncorrectType);
        }
        let args = message.arguments_ref();
        assert(args.deep_view().skip(0) =~= args.deep_view());
        match message.kind() {
            MessageKind::Request => Ok(Halt::Request),
            MessageKind::Reply => Ok(Halt::Reply(GenericReply::from_arguments(args, 0)?)),
            MessageKind::Inform => Err(KatcpError::Unknown),
        }
    }
}

impl Halt {
    /// Each part of the message is read back from what it is written as.
    pub open spec fn parts_roundtrip(&self) -> bool {
        match self {
            Halt::Request => true,
            Halt::Reply(inner) => arguments_roundtrip(*inner),
        }
    }

    /// Reading the raw message of a value gives the value back, where each
    /// of its parts is read back from what it is written as.
    pub proof fn lemma_roundtrip(self, id: Option<u32>)
        requires
            self.parts_roundtrip(),
        ensures
            message_roundtrips(self, id),
    {
    }
}

/// Asks what requests the device knows.
#[derive(Debug, PartialEq, Eq, Clone)]
pub enum Help {
    /// One request of the device and what it does.
    Inform {
        name: String,
        description: String,
    },
    /// Asks for one request by name, or for all of them.
    Request {
        name: Option<String>,
    },
    /// The number of informs that were sent.
    Reply(IntReply),
}

impl KatcpMessage for Help {
    open spec fn message_spec(&self, id: Option<u32>) -> MessageView {
        match self {
            Help::Inform { name, description } => MessageView {
                kind: MessageKind::Inform,
                name: "help"@,
                id,
                arguments: seq![name.argument_spec(), description.argument_spec()],
            },
            Help::Request { name } => MessageView {
                kind: MessageKind::Request,
                name: "help"@,
                id,
                arguments: seq![name.argument_spec()],
            },
            Help::Reply(inner) => MessageView {
                kind: MessageKind::Reply,
                name: "help"@,
                id,
                arguments: inner.arguments_spec(),
            },
        }
    }

    open spec fn failure(m: MessageView) -> Option<KatcpError> {
        or_else(
            header_failure(m, "help"@, true),
            match m.kind {
                MessageKind::Request => field_failure::<Option<String>>(m.arguments, 0),
                MessageKind::Reply => IntReply::failure(m.arguments),
                MessageKind::Inform => or_else(
                    field_failure::<String>(m.arguments, 0),
                    field_failure::<String>(m.arguments, 1),
                ),
            },
        )
    }

    open spec fn yields(m: MessageView, v: Self) -> bool {
        &&& m.name == "help"@
        &&& match v {
            Help::Inform { name, description } => {
                &&& m.kind == MessageKind::Inform
                &&& field_yields::<String>(m.arguments, 0, name)
                &&& field_yields::<String>(m.arguments, 1, description)
            },
            Help::Request { name } => {
                &&& m.kind == MessageKind::Request
                &&& field_yields::<Option<String>>(m.arguments, 0, name)
            },
            Help::Reply(inner) => {
                &&& m.kind == MessageKind::Reply
                &&& IntReply::yields(m.arguments, inner)
            },
        }
    }

    fn to_message(&self, id: Option<u32>) -> (r: MessageResult) {
        let (kind, arguments) = match self {
            Help::Inform { name, description } => {
                let tokens = vec![name.to_argument(), description.to_argument()];
                assert(tokens.deep_view() =~= self.message_spec(id).arguments);
                (MessageKind::Inform, tokens)
            },
            Help::Request { name } => {
                let tokens = vec![name.to_argument()];
                assert(tokens.deep_view() =~= self.message_spec(id).arguments);
                (MessageKind::Request, tokens)
            },
            Help::Reply(inner) => (MessageKind::Reply, inner.to_arguments()),
        };
        Ok(Message::new_unchecked(kind, "help", id, arguments))
    }

    fn from_message(message: &Message) -> (r: Result<Self, KatcpError>) {
        if !str_eq(message.name_ref(), "help") {
            return Err(KatcpError::IncorrectType);
        }
        let args = message.arguments_ref();
        assert(args.deep_view().skip(0) =~= args.deep_view());
        match message.kind() {
            MessageKind::Request => {
                let name = decode_field::<Option<String>>(args, 0)?;
                Ok(Help::Request { name })
            },
            MessageKind::Reply => Ok(Help::Reply(IntReply::from_arguments(args, 0)?)),
            MessageKind::Inform => {
                let name = decode_field::<String>(args, 0)?;
                let description = decode_field::<String>(args, 1)?;
                Ok(Help::Inform { name, description })
            },
        }
    }
}

impl Help {
    /// Each part of the message is read back from what it is written as.
    pub open spec fn parts_roundtrip(&self) -> bool {
        match self {
            Help::Inform { name, description } => {
                &&& argument_roundtrips(*name)
                &&& argument_roundtrips(*description)
            },
            Help::Request { name } => {
                &&& argument_roundtrips(*name)
            },
            Help::Reply(inner) => arguments_roundtrip(*inner),
        }
    }

    /// Reading the raw message of a value gives the value back, where each
    /// of its parts is read back from what it is written as.
    pub proof fn lemma_roundtrip(self, id: Option<u32>)
        requires
            self.parts_roundtrip(),
        ensures
            message_roundtrips(self, id),
    {
    }
}

/// Asks the device to restart; the reply is sent before the connection
/// closes.
#[derive(Debug, PartialEq, Eq, Clone)]
pub enum Restart {
    Request,
    Reply(GenericReply),
}

impl KatcpMessage for Restart {
    open spec fn message_spec(&self, id: Option<u32>) -> MessageView {
        match self {
            Restart::Request => MessageView {
                kind: MessageKind::Request,
                name: "restart"@,
                id,
                arguments: Seq::empty(),
            },
            Restart::Reply(inner) => MessageView {
                kind: MessageKind::Reply,
                name: "restart"@,
                id,
                arguments: inner.arguments_spec(),
            },
        }
    }

    open spec fn failure(m: MessageView) -> Option<KatcpError> {
        or_else(
            header_failure(m, "restart"@, m.kind != MessageKind::Inform),
            match m.kind {
                MessageKind::Request => None,
                MessageKind::Reply => GenericReply::failure(m.arguments),
                MessageKind::Inform => None,
            },
        )
    }

    open spec fn yields(m: MessageView, v: Self) -> bool {
        &&& m.name == "restart"@
        &&& match v {
            Restart::Request => m.kind == MessageKind::Request,
            Restart::Reply(inner) => {
                &&& m.kind == MessageKind::Reply
                &&& GenericReply::yields(m.arguments, inner)
            },
        }
    }

    fn to_message(&self, id: Option<u32>) -> (r: MessageResult) {
        let (kind, arguments) = match self {
            Restart::Request => (MessageKind::Request, no_arguments()),
            Restart::Reply(inner) => (MessageKind::Reply, inner.to_arguments()),
        };
        Ok(Message::new_unchecked(kind, "restart", id, arguments))
    }

    fn from_message(message: &Message) -> (r: Result<Self, KatcpError>) {
        if !str_eq(message.name_ref(), "restart") {
            return Err(KatcpError::IncorrectType);
        }
        let args = message.arguments_ref();
        assert(args.deep_view().skip(0) =~= args.deep_view());
        match message.kind() {
            MessageKind::Request => Ok(Restart::Request),
            MessageKind::Reply => Ok(Restart::Reply(GenericReply::from_arguments(args, 0)?)),
            MessageKind::Inform => Err(KatcpError::Unknown),
        }
    }
}

impl Restart {
    /// Each part of the message is read back from what it is written as.
    pub open spec fn parts_roundtrip(&self) -> bool {
        match self {
            Restart::Request => true,
            Restart::Reply(inner) => arguments_roundtrip(*inner),
        }
    }

    /// Reading the raw message of a value gives the value back, where each
    /// of its parts is read back from what it is written as.
    pub proof fn lemma_roundtrip(self, id: Option<u32>)
        requires
            self.parts_roundtrip(),
        ensures
            message_roundtrips(self, id),
    {
    }
}

/// Asks whether the connection is still alive.
#[derive(Debug, PartialEq, Eq, Clone)]
pub enum Watchdog {
    Request,
    Reply(GenericReply),
}

impl KatcpMessage for Watchdog {
    open spec fn message_spec(&self, id: Option<u32>) -> MessageView {
        match self {
            Watchdog::Request => MessageView {
                kind: MessageKind::Request,
                name: "watchdog"@,
                id,
                arguments: Seq::empty(),
            },
            Watchdog::Reply(inner) => MessageView {
                kind: MessageKind::Reply,
                name: "watchdog"@,
                id,
                arguments: inner.arguments_spec(),
            },
        }
    }

    open spec fn failure(m: MessageView) -> Option<KatcpError> {
        or_else(
            header_failure(m, "watchdog"@, m.kind != MessageKind::Inform),
            match m.kind {
                MessageKind::Request => None,
                MessageKind::Reply => GenericReply::failure(m.arguments),
                MessageKind::Inform => None,
            },
        )
    }

    open spec fn yields(m: MessageView, v: Self) -> bool {
        &&& m.name == "watchdog"@
        &&& match v {
            Watchdog::Request => m.kind == MessageKind::Request,
            Watchdog::Reply(inner) => {
                &&& m.kind == MessageKind::Reply
                &&& GenericReply::yields(m.arguments, inner)
            },
        }
    }

    fn to_message(&self, id: Option<u32>) -> (r: MessageResult) {
        let (kind, arguments) = match self {
            Watchdog::Request => (MessageKind::Request, no_arguments()),
            Watchdog::Reply(inner) => (MessageKind::Reply, inner.to_arguments()),
        };
        Ok(Message::new_unchecked(kind, "watchdog", id, arguments))
    }

    fn from_message(message: &Message) -> (r: Result<Self, KatcpError>) {
        if !str_eq(message.name_ref(), "watchdog") {
            return Err(KatcpError::IncorrectType);
        }
        let args = message.arguments_ref();
        assert(args.deep_view().skip(0) =~= args.deep_view());
        match message.kind() {
            MessageKind::Request => Ok(Watchdog::Request),
            MessageKind::Reply => Ok(Watchdog::Reply(GenericReply::from_arguments(args, 0)?)),
            MessageKind::Inform => Err(KatcpError::Unknown),
        }
    }
}

impl Watchdog {
    /// Each part of the message is read back from what it is written as.
    pub open spec fn parts_roundtrip(&self) -> bool {
        match self {
            Watchdog::Request => true,
            Watchdog::Reply(inner) => arguments_roundtrip(*inner),
        }
    }

    /// Reading the raw message of a value gives the value back, where each
    /// of its parts is read back from what it is written as.
    pub proof fn lemma_roundtrip(self, id: Option<u32>)
        requires
            self.parts_roundtrip(),
        ensures
            message_roundtrips(self, id),
    {
    }
}

/// Asks for the versions of the roles and components of the device.
#[derive(Debug, PartialEq, Eq, Clone)]
pub enum VersionList {
    /// The version of one role or component, and what tells this instance
    /// of it from others.
    Inform {
        name: String,
        version: String,
        uuid: String,
    },
    Request,
    /// The number of informs that were sent.
    Reply(IntReply),
}

impl KatcpMessage for VersionList {
    open spec fn message_spec(&self, id: Option<u32>) -> MessageView {
        match self {
            VersionList::Inform { name, version, uuid } => MessageView {
                kind: MessageKind::Inform,
                name: "version-list"@,
                id,
                arguments: seq![name.argument_spec(), version.argument_spec(), uuid.argument_spec()],
            },
            VersionList::Request => MessageView {
                kind: MessageKind::Request,
                name: "version-list"@,
                id,
                arguments: Seq::empty(),
            },
            VersionList::Reply(inner) => MessageView {
                kind: MessageKind::Reply,
                name: "version-list"@,
                id,
                arguments: inner.arguments_spec(),
            },
        }
    }

    open spec fn failure(m: MessageView) -> Option<KatcpError> {
        or_else(
            header_failure(m, "version-list"@, true),
            match m.kind {
                MessageKind::Request => None,
                MessageKind::Reply => IntReply::failure(m.arguments),
                MessageKind::Inform => or_else(
                    field_failure::<String>(m.arguments, 0),
                    or_else(
                        field_failure::<String>(m.arguments, 1),
                        field_failure::<String>(m.arguments, 2),
                    ),
                ),
            },
        )
    }

    open spec fn yields(m: MessageView, v: Self) -> bool {
        &&& m.name == "version-list"@
        &&& match v {
            VersionList::Inform { name, version, uuid } => {
                &&& m.kind == MessageKind::Inform
                &&& field_yields::<String>(m.arguments, 0, name)
                &&& field_yields::<String>(m.arguments, 1, version)
                &&& field_yields::<String>(m.arguments, 2, uuid)
            },
            VersionList::Request => m.kind == MessageKind::Request,
            VersionList::Reply(inner) => {
                &&& m.kind == MessageKind::Reply
                &&& IntReply::yields(m.arguments, inner)
            },
        }
    }

    fn to_message(&self, id: Option<u32>) -> (r: MessageResult) {
        let (kind, arguments) = match self {
            VersionList::Inform { name, version, uuid } => {
                let tokens = vec![name.to_argument(), version.to_argument(), uuid.to_argument()];
                assert(tokens.deep_view() =~= self.message_spec(id).arguments);
                (MessageKind::Inform, tokens)
            },
            VersionList::Request => (MessageKind::Request, no_arguments()),
            VersionList::Reply(inner) => (MessageKind::Reply, inner.to_arguments()),
        };
        Ok(Message::new_unchecked(kind, "version-list", id, arguments))
    }

    fn from_message(message: &Message) -> (r: Result<Self, KatcpError>) {
        if !str_eq(message.name_ref(), "version-list") {
            return Err(KatcpError::IncorrectType);
        }
        let args = message.arguments_ref();
        assert(args.deep_view().skip(0) =~= args.deep_view());
        match message.kind() {
            MessageKind::Request => Ok(VersionList::Request),
            MessageKind::Reply => Ok(VersionList::Reply(IntReply::from_arguments(args, 0)?)),
            MessageKind::Inform => {
                let name = decode_field::<String>(args, 0)?;
                let version = decode_field::<String>(args, 1)?;
                let uuid = decode_field::<String>(args, 2)?;
                Ok(VersionList::Inform { name, version, uuid })
            },
        }
    }
}

impl VersionList {
    /// Each part of the message is read back from what it is written as.
    pub open spec fn parts_roundtrip(&self) -> bool {
        match self {
            VersionList::Inform { name, version, uuid } => {
                &&& argument_roundtrips(*name)
                &&& argument_roundtrips(*version)
                &&& argument_roundtrips(*uuid)
            },
            VersionList::Request => true,
            VersionList::Reply(inner) => arguments_roundtrip(*inner),
        }
    }

    /// Reading the raw message of a value gives the value back, where each
    /// of its parts is read back from what it is written as.
    pub proof fn lemma_roundtrip(self, id: Option<u32>)
        requires
            self.parts_roundtrip(),
        ensures
            message_roundtrips(self, id),
    {
    }
}

/// Sent to a client shortly before the device disconnects it.
#[derive(Debug, PartialEq, Eq, Clone)]
pub enum Disconnect {
    Inform {
        message: String,
    },
}

impl KatcpMessage for Disconnect {
    open spec fn message_spec(&self, id: Option<u32>) -> MessageView {
        match self {
            Disconnect::Inform { message } => MessageView {
                kind: MessageKind::Inform,
                name: "disconnect"@,
                id,
                arguments: seq![message.argument_spec()],
            },
        }
    }

    open spec fn failure(m: MessageView) -> Option<KatcpError> {
        or_else(
            header_failure(m, "disconnect"@, m.kind != MessageKind::Request && m.kind != MessageKind::Reply),
            match m.kind {
                MessageKind::Request => None,
                MessageKind::Reply => None,
                MessageKind::Inform => field_failure::<String>(m.arguments, 0),
            },
        )
    }

    open spec fn yields(m: MessageView, v: Self) -> bool {
        &&& m.name == "disconnect"@
        &&& match v {
            Disconnect::Inform { message } => {
                &&& m.kind == MessageKind::Inform
                &&& field_yields::<String>(m.arguments, 0, message)
            },
        }
    }

    fn to_message(&self, id: Option<u32>) -> (r: MessageResult) {
        let (kind, arguments) = match self {
            Disconnect::Inform { message } => {
                let tokens = vec![message.to_argument()];
                assert(tokens.deep_view() =~= self.message_spec(id).arguments);
                (MessageKind::Inform, tokens)
            },
        };
        Ok(Message::new_unchecked(kind, "disconnect", id, arguments))
    }

    fn from_message(message: &Message) -> (r: Result<Self, KatcpError>) {
        if !str_eq(message.name_ref(), "disconnect") {
            return Err(KatcpError::IncorrectType);
        }
        let args = message.arguments_ref();
        match message.kind() {
            MessageKind::Request => Err(KatcpError::Unknown),
            MessageKind::Reply => Err(KatcpError::Unknown),
            MessageKind::Inform => {
                let message = decode_field::<String>(args, 0)?;
                Ok(Disconnect::Inform { message })
            },
        }
    }
}

impl Disconnect {
    /// Each part of the message is read back from what it is written as.
    pub open spec fn parts_roundtrip(&self) -> bool {
        match self {
            Disconnect::Inform { message } => {
                &&& argument_roundtrips(*message)
            },
        }
    }

    /// Reading the raw message of a value gives the value back, where each
    /// of its parts is read back from what it is written as.
    pub proof fn lemma_roundtrip(self, id: Option<u32>)
        requires
            self.parts_roundtrip(),
        ensures
            message_roundtrips(self, id),
    {
    }
}

/// What a device says it can do, in its protocol version.
#[derive(Debug, PartialEq, Eq, Hash, Copy, Clone, Structural)]
pub enum ProtocolFlags {
    /// The device serves several clients at once.
    MultiClient,
    /// The device understands message ids.
    MessageIds,
    /// The device gives hints on how long a request may take.
    TimeoutHints,
    /// The device sets the sampling of several sensors at once.
    BulkSampling,
}

impl ProtocolFlags {
    /// The letter that the flag is written as.
    pub open spec fn letter(self) -> char {
        match self {
            ProtocolFlags::MultiClient => 'M',
            ProtocolFlags::MessageIds => 'I',
            ProtocolFlags::TimeoutHints => 'T',
            ProtocolFlags::BulkSampling => 'B',
        }
    }

    /// The flag that a letter stands for.
    pub open spec fn from_letter(c: char) -> Option<ProtocolFlags> {
        if c == 'M' {
            Some(ProtocolFlags::MultiClient)
        } else if c == 'I' {
            Some(ProtocolFlags::MessageIds)
        } else if c == 'T' {
            Some(ProtocolFlags::TimeoutHints)
        } else if c == 'B' {
            Some(ProtocolFlags::BulkSampling)
        } else {
            None
        }
    }

    /// The letter of the flag.
    pub fn to_char(&self) -> (c: char)
        ensures
            c == self.letter(),
    {
        match self {
            ProtocolFlags::MultiClient => 'M',
            ProtocolFlags::MessageIds => 'I',
            ProtocolFlags::TimeoutHints => 'T',
            ProtocolFlags::BulkSampling => 'B',
        }
    }

    /// The flag of a letter.
    pub fn from_char(c: char) -> (r: Option<ProtocolFlags>)
        ensures
            r == ProtocolFlags::from_letter(c),
    {
        if c == 'M' {
            Some(ProtocolFlags::MultiClient)
        } else if c == 'I' {
            Some(ProtocolFlags::MessageIds)
        } else if c == 'T' {
            Some(ProtocolFlags::TimeoutHints)
        } else if c == 'B' {
            Some(ProtocolFlags::BulkSampling)
        } else {
            None
        }
    }

    /// The letter of the flag, as a string.
    pub fn to_string(&self) -> (s: String)
        ensures
            s@ == seq![self.letter()],
    {
        let mut out: Vec<char> = Vec::new();
        out.push(self.to_char());
        assert(out@ =~= seq![self.letter()]);
        from_chars(&out)
    }

    /// The flag that the string names: one letter, else `BadArgument`.
    pub fn try_from(value: &str) -> (r: Result<ProtocolFlags, KatcpError>)
        ensures
            r == (if value@.len() == 1 && ProtocolFlags::from_letter(value@[0]) is Some {
                Ok::<ProtocolFlags, KatcpError>(ProtocolFlags::from_letter(value@[0])->Some_0)
            } else {
                Err::<ProtocolFlags, KatcpError>(KatcpError::BadArgument)
            }),
    {
        let v = to_chars(value);
        if v.len() != 1 {
            return Err(KatcpError::BadArgument);
        }
        match ProtocolFlags::from_char(v[0]) {
            Some(f) => Ok(f),
            None => Err(KatcpError::BadArgument),
        }
    }
}

/// The letters of the flags, in order.
pub open spec fn flags_text(flags: Seq<ProtocolFlags>) -> Seq<char> {
    Seq::new(flags.len(), |i: int| flags[i].letter())
}

/// The flags that the letters name, each once, in the order in which they
/// first occur; `None` where a character names no flag.
pub open spec fn flags_parsed(s: Seq<char>) -> Option<Seq<ProtocolFlags>>
    decreases s.len(),
{
    if s.len() == 0 {
        Some(Seq::empty())
    } else {
        match (flags_parsed(s.drop_last()), ProtocolFlags::from_letter(s.last())) {
            (Some(fs), Some(f)) => Some(
                if fs.contains(f) {
                    fs
                } else {
                    fs.push(f)
                },
            ),
            _ => None,
        }
    }
}

/// The text of a protocol version: `major.minor`, and behind a hyphen the
/// letters of the flags where there are any.
pub open spec fn protocol_text(major: u32, minor: u32, flags: Seq<ProtocolFlags>) -> Seq<char> {
    decimal_digits(major as nat) + seq!['.'] + decimal_digits(minor as nat) + (if flags.len() > 0 {
        seq!['-'] + flags_text(flags)
    } else {
        Seq::empty()
    })
}

/// The protocol version that a token writes: split at its first point, and
/// what follows at its first hyphen.
pub open spec fn protocol_parsed(t: Seq<char>) -> Option<(u32, u32, Seq<ProtocolFlags>)> {
    let d = index_of(t, '.', 0);
    if d >= t.len() {
        None
    } else {
        let rest = t.skip(d + 1);
        let h = index_of(rest, '-', 0);
        let flags = if h < rest.len() {
            flags_parsed(rest.skip(h + 1))
        } else {
            Some(Seq::empty())
        };
        match (
            parse_unsigned(t.subrange(0, d), u32::MAX as nat),
            parse_unsigned(rest.subrange(0, h), u32::MAX as nat),
            flags,
        ) {
            (Some(major), Some(minor), Some(f)) => Some((major as u32, minor as u32, f)),
            _ => None,
        }
    }
}

fn has_flag(flags: &Vec<ProtocolFlags>, f: ProtocolFlags) -> (b: bool)
    ensures
        b == flags@.contains(f),
{
    let mut i: usize = 0;
    while i < flags.len()
        invariant
            i <= flags.len(),
            forall|k: int| 0 <= k < i ==> flags@[k] != f,
        decreases flags.len() - i,
    {
        if flags[i] == f {
            return true;
        }
        i += 1;
    }
    false
}

fn parse_flags(s: &Vec<char>) -> (r: Option<Vec<ProtocolFlags>>)
    ensures
        match r {
            Some(v) => flags_parsed(s@) == Some(v@) && v@.no_duplicates(),
            None => flags_parsed(s@) is None,
        },
{
    let mut out: Vec<ProtocolFlags> = Vec::new();
    let mut i: usize = 0;
    assert(s@.subrange(0, 0) =~= Seq::<char>::empty());
    while i < s.len()
        invariant
            i <= s.len(),
            flags_parsed(s@.subrange(0, i as int)) == Some(out@),
            out@.no_duplicates(),
        decreases s.len() - i,
    {
        let ghost next = s@.subrange(0, i + 1);
        assert(next.drop_last() =~= s@.subrange(0, i as int));
        assert(next.last() == s@[i as int]);
        match ProtocolFlags::from_char(s[i]) {
            Some(f) => {
                if !has_flag(&out, f) {
                    out.push(f);
                }
            },
            None => {
                proof {
                    lemma_flags_parsed_prefix(s@, i + 1);
                }
                return None;
            },
        }
        i += 1;
    }
    assert(s@.subrange(0, s.len() as int) =~= s@);
    Some(out)
}

/// Letters that name no flags as a prefix name none as a whole.
proof fn lemma_flags_parsed_prefix(s: Seq<char>, j: int)
    requires
        0 <= j <= s.len(),
        flags_parsed(s.subrange(0, j)) is None,
    ensures
        flags_parsed(s) is None,
    decreases s.len(),
{
    if j < s.len() {
        assert(s.drop_last().subrange(0, j) =~= s.subrange(0, j));
        lemma_flags_parsed_prefix(s.drop_last(), j);
    } else {
        assert(s.subrange(0, j) =~= s);
    }
}

fn parse_protocol(token: &str) -> (r: Option<(u32, u32, Vec<ProtocolFlags>)>)
    ensures
        match r {
            Some((major, minor, flags)) => protocol_parsed(token@) == Some((major, minor, flags@))
                && flags@.no_duplicates(),
            None => protocol_parsed(token@) is None,
        },
{
    let t = to_chars(token);
    let d = find_char(&t, '.', 0);
    if d >= t.len() {
        return None;
    }
    let whole = sub_vec(&t, 0, d);
    let rest = sub_vec(&t, d + 1, t.len());
    assert(rest@ =~= t@.skip(d + 1));
    let h = find_char(&rest, '-', 0);
    let middle = sub_vec(&rest, 0, h);
    let major = parse_unsigned_chars(&whole, 0xffff_ffff);
    let minor = parse_unsigned_chars(&middle, 0xffff_ffff);
    let flags = if h < rest.len() {
        let letters = sub_vec(&rest, h + 1, rest.len());
        assert(letters@ =~= rest@.skip(h + 1));
        parse_flags(&letters)
    } else {
        let none: Vec<ProtocolFlags> = Vec::new();
        Some(none)
    };
    match (major, minor, flags) {
        (Some(a), Some(b), Some(f)) => Some((a as u32, b as u32, f)),
        _ => None,
    }
}

/// The informs that a device sends when a client connects.
#[derive(Debug, PartialEq, Eq, Clone)]
pub enum VersionConnectInform {
    /// The version of the protocol and what the device can do. No flag
    /// occurs twice.
    KatcpProtocol { major: u32, minor: u32, flags: Vec<ProtocolFlags> },
    /// The library that the device speaks the protocol with.
    KatcpLibrary { version: String, build_state: String },
    /// The device itself.
    KatcpDevice { api_version: String, device: KatcpAddress, build_state: String },
    /// Any other role or component.
    Custom { name: String, version: String, info: Option<String> },
}

/// The literal that opens the protocol inform.
pub open spec fn protocol_literal() -> Seq<char> {
    "katcp-protocol"@
}

/// The literal that opens the library inform.
pub open spec fn library_literal() -> Seq<char> {
    "katcp-library"@
}

/// The literal that opens the device inform.
pub open spec fn device_literal() -> Seq<char> {
    "katcp-device"@
}

impl VersionConnectInform {
    /// No flag occurs twice, and the address is one.
    pub open spec fn wf(&self) -> bool {
        match self {
            VersionConnectInform::KatcpProtocol { flags, .. } => flags@.no_duplicates(),
            VersionConnectInform::KatcpDevice { device, .. } => device.wf(),
            _ => true,
        }
    }
}

impl ToKatcpArguments for VersionConnectInform {
    open spec fn arguments_spec(&self) -> Seq<Seq<char>> {
        match self {
            VersionConnectInform::KatcpProtocol { major, minor, flags } => seq![
                protocol_literal(),
                protocol_text(*major, *minor, flags@),
            ],
            VersionConnectInform::KatcpLibrary { version, build_state } => seq![
                library_literal(),
                escape_spec(version@),
                escape_spec(build_state@),
            ],
            VersionConnectInform::KatcpDevice { api_version, device, build_state } => seq![
                device_literal(),
                escape_spec(api_version@),
                device.argument_spec(),
                escape_spec(build_state@),
            ],
            VersionConnectInform::Custom { name, version, info } => match info {
                Some(i) => seq![escape_spec(name@), escape_spec(version@), escape_spec(i@)],
                None => seq![escape_spec(name@), escape_spec(version@)],
            },
        }
    }

    fn to_arguments(&self) -> (tokens: Vec<String>) {
        let tokens = match self {
            VersionConnectInform::KatcpProtocol { major, minor, flags } => {
                let mut out: Vec<char> = Vec::new();
                push_decimal(&mut out, *major as u64);
                out.push('.');
                push_decimal(&mut out, *minor as u64);
                if flags.len() > 0 {
                    out.push('-');
                    let ghost before = out@;
                    let mut i: usize = 0;
                    while i < flags.len()
                        invariant
                            i <= flags.len(),
                            out@ == before + flags_text(flags@).subrange(0, i as int),
                        decreases flags.len() - i,
                    {
                        out.push(flags[i].to_char());
                        assert(out@ =~= before + flags_text(flags@).subrange(0, i + 1));
                        i += 1;
                    }
                    assert(flags_text(flags@).subrange(0, flags.len() as int) =~= flags_text(
                        flags@,
                    ));
                }
                assert(out@ =~= protocol_text(*major, *minor, flags@));
                vec!["katcp-protocol".to_owned(), from_chars(&out)]
            },
            VersionConnectInform::KatcpLibrary { version, build_state } => vec![
                "katcp-library".to_owned(),
                version.to_argument(),
                build_state.to_argument(),
            ],
            VersionConnectInform::KatcpDevice { api_version, device, build_state } => vec![
                "katcp-device".to_owned(),
                api_version.to_argument(),
                device.to_argument(),
                build_state.to_argument(),
            ],
            VersionConnectInform::Custom { name, version, info } => match info {
                Some(i) => vec![name.to_argument(), version.to_argument(), i.to_argument()],
                None => vec![name.to_argument(), version.to_argument()],
            },
        };
        assert(tokens.deep_view() =~= self.arguments_spec());
        tokens
    }
}

impl FromKatcpArguments for VersionConnectInform {
    type Err = KatcpError;

    /// The leading literal chooses the shape, and each shape needs its
    /// arguments.
    open spec fn failure(tokens: Seq<Seq<char>>) -> Option<KatcpError> {
        if tokens.len() < 1 {
            Some(KatcpError::MissingArgument)
        } else if tokens[0] == protocol_literal() {
            if tokens.len() < 2 {
                Some(KatcpError::MissingArgument)
            } else if protocol_parsed(tokens[1]) is None {
                Some(KatcpError::BadArgument)
            } else {
                None
            }
        } else if tokens[0] == library_literal() {
            or_else(field_failure::<String>(tokens, 1), field_failure::<String>(tokens, 2))
        } else if tokens[0] == device_literal() {
            or_else(
                field_failure::<String>(tokens, 1),
                or_else(
                    field_failure::<KatcpAddress>(tokens, 2),
                    field_failure::<String>(tokens, 3),
                ),
            )
        } else {
            field_failure::<String>(tokens, 1)
        }
    }

    /// A known leading literal gives its shape; any other gives the custom
    /// shape, with the literal as its name.
    open spec fn yields(tokens: Seq<Seq<char>>, v: Self) -> bool {
        &&& tokens.len() >= 1
        &&& v.wf()
        &&& match v {
            VersionConnectInform::KatcpProtocol { major, minor, flags } => {
                &&& tokens[0] == protocol_literal()
                &&& tokens.len() >= 2
                &&& protocol_parsed(tokens[1]) == Some((major, minor, flags@))
            },
            VersionConnectInform::KatcpLibrary { version, build_state } => {
                &&& tokens[0] == library_literal()
                &&& field_yields::<String>(tokens, 1, version)
                &&& field_yields::<String>(tokens, 2, build_state)
            },
            VersionConnectInform::KatcpDevice { api_version, device, build_state } => {
                &&& tokens[0] == device_literal()
                &&& field_yields::<String>(tokens, 1, api_version)
                &&& field_yields::<KatcpAddress>(tokens, 2, device)
                &&& field_yields::<String>(tokens, 3, build_state)
            },
            VersionConnectInform::Custom { name, version, info } => {
                &&& tokens[0] != protocol_literal()
                &&& tokens[0] != library_literal()
                &&& tokens[0] != device_literal()
                &&& field_yields::<String>(tokens, 0, name)
                &&& field_yields::<String>(tokens, 1, version)
                &&& match info {
                    Some(i) => field_yields::<String>(tokens, 2, i),
                    None => tokens.len() < 3,
                }
            },
        }
    }

    fn from_arguments(strings: &Vec<String>, from: usize) -> (r: Result<Self, KatcpError>) {
        let ghost tokens = strings.deep_view().skip(from as int);
        let ghost all = strings.deep_view();
        assert(forall|k: int| 0 <= k < tokens.len() ==> tokens[k] == all[from + k]);
        if from >= strings.len() {
            return Err(KatcpError::MissingArgument);
        }
        assert(all[from as int] == strings@[from as int]@);
        let first = strings[from].as_str();
        if strings.len() - from > 4 {
            assert(tokens.len() > 4);
        }
        if str_eq(first, "katcp-protocol") {
            if strings.len() - from < 2 {
                return Err(KatcpError::MissingArgument);
            }
            assert(all[from + 1] == strings@[from + 1]@);
            match parse_protocol(strings[from + 1].as_str()) {
                Some((major, minor, flags)) => Ok(
                    VersionConnectInform::KatcpProtocol { major, minor, flags },
                ),
                None => Err(KatcpError::BadArgument),
            }
        } else if str_eq(first, "katcp-library") {
            if strings.len() - from < 2 {
                return Err(KatcpError::MissingArgument);
            }
            let version = decode_field::<String>(strings, from + 1)?;
            if strings.len() - from < 3 {
                return Err(KatcpError::MissingArgument);
            }
            let build_state = decode_field::<String>(strings, from + 2)?;
            Ok(VersionConnectInform::KatcpLibrary { version, build_state })
        } else if str_eq(first, "katcp-device") {
            if strings.len() - from < 2 {
                return Err(KatcpError::MissingArgument);
            }
            let api_version = decode_field::<String>(strings, from + 1)?;
            if strings.len() - from < 3 {
                return Err(KatcpError::MissingArgument);
            }
            let device = decode_field::<KatcpAddress>(strings, from + 2)?;
            if strings.len() - from < 4 {
                return Err(KatcpError::MissingArgument);
            }
            let build_state = decode_field::<String>(strings, from + 3)?;
            Ok(VersionConnectInform::KatcpDevice { api_version, device, build_state })
        } else {
            let name = decode_field::<String>(strings, from)?;
            if strings.len() - from < 2 {
                return Err(KatcpError::MissingArgument);
            }
            let version = decode_field::<String>(strings, from + 1)?;
            let info = if strings.len() - from >= 3 {
                Some(decode_field::<String>(strings, from + 2)?)
            } else {
                None
            };
            Ok(VersionConnectInform::Custom { name, version, info })
        }
    }
}

/// The letters of flags of which none occurs twice name those flags.
proof fn lemma_flags_roundtrip(flags: Seq<ProtocolFlags>)
    requires
        flags.no_duplicates(),
    ensures
        flags_parsed(flags_text(flags)) == Some(flags),
        forall|k: int| 0 <= k < flags.len() ==> #[trigger] flags_text(flags)[k] != '-',
    decreases flags.len(),
{
    let text = flags_text(flags);
    if flags.len() > 0 {
        let head = flags.drop_last();
        let f = flags.last();
        lemma_flags_roundtrip(head);
        assert(text.drop_last() =~= flags_text(head));
        assert(text.last() == f.letter());
        if head.contains(f) {
            let k = choose|k: int| 0 <= k < head.len() && head[k] == f;
            assert(flags[k] == flags[flags.len() - 1]);
        }
        assert(head.push(f) =~= flags);
    }
}

/// The text of a protocol version is read back as that version.
proof fn lemma_protocol_roundtrip(major: u32, minor: u32, flags: Seq<ProtocolFlags>)
    requires
        flags.no_duplicates(),
    ensures
        protocol_parsed(protocol_text(major, minor, flags)) == Some((major, minor, flags)),
{
    let a = decimal_digits(major as nat);
    let b = decimal_digits(minor as nat);
    let tail = if flags.len() > 0 {
        seq!['-'] + flags_text(flags)
    } else {
        Seq::<char>::empty()
    };
    let t = protocol_text(major, minor, flags);
    lemma_decimal_digits(major as nat);
    lemma_decimal_digits(minor as nat);
    lemma_parse_unsigned_digits(major as nat, u32::MAX as nat);
    lemma_parse_unsigned_digits(minor as nat, u32::MAX as nat);
    lemma_flags_roundtrip(flags);
    let d = a.len() as int;
    assert(t =~= a + seq!['.'] + b + tail);
    assert(forall|k: int| 0 <= k < d ==> t[k] == a[k]);
    assert(t[d] == '.');
    lemma_index_of(t, '.', 0, d);
    assert(t.subrange(0, d) =~= a);
    let rest = t.skip(d + 1);
    assert(rest =~= b + tail);
    let h = b.len() as int;
    assert(forall|k: int| 0 <= k < h ==> rest[k] == b[k]);
    if flags.len() > 0 {
        assert(rest[h] == '-');
        assert(rest.skip(h + 1) =~= flags_text(flags));
    }
    lemma_index_of(rest, '-', 0, h);
    assert(rest.subrange(0, h) =~= b);
}

impl VersionConnectInform {
    /// The value is well formed; its texts hold no backslash directly
    /// before one of `_ 0 n r e t @`; and the name of a custom inform is
    /// not written as one of the three known literals.
    pub open spec fn canonical(&self) -> bool {
        &&& self.wf()
        &&& match self {
            VersionConnectInform::KatcpProtocol { .. } => true,
            VersionConnectInform::KatcpLibrary { version, build_state } => collision_free(version@)
                && collision_free(build_state@),
            VersionConnectInform::KatcpDevice { api_version, build_state, .. } => collision_free(
                api_version@,
            ) && collision_free(build_state@),
            VersionConnectInform::Custom { name, version, info } => {
                &&& collision_free(name@)
                &&& collision_free(version@)
                &&& info matches Some(i) ==> collision_free(i@)
                &&& escape_spec(name@) != protocol_literal()
                &&& escape_spec(name@) != library_literal()
                &&& escape_spec(name@) != device_literal()
            },
        }
    }

    /// Reading the tokens of a canonical inform gives the inform back.
    pub proof fn lemma_roundtrip(self)
        requires
            self.canonical(),
        ensures
            arguments_roundtrip(self),
    {
        reveal_strlit("katcp-protocol");
        reveal_strlit("katcp-library");
        reveal_strlit("katcp-device");
        assert("katcp-protocol"@.len() == 14 && "katcp-library"@.len() == 13
            && "katcp-device"@.len() == 12);
        match self {
            VersionConnectInform::KatcpProtocol { major, minor, flags } => {
                lemma_protocol_roundtrip(major, minor, flags@);
            },
            VersionConnectInform::KatcpLibrary { version, build_state } => {
                lemma_unescape_escape(version@);
                lemma_unescape_escape(build_state@);
            },
            VersionConnectInform::KatcpDevice { api_version, device, build_state } => {
                lemma_unescape_escape(api_version@);
                lemma_unescape_escape(build_state@);
                device.lemma_roundtrip();
            },
            VersionConnectInform::Custom { name, version, info } => {
                lemma_unescape_escape(name@);
                lemma_unescape_escape(version@);
                match info {
                    Some(i) => {
                        lemma_unescape_escape(i@);
                    },
                    None => {},
                }
            },
        }
    }
}

/// Sent to a client when it connects: one inform for each role and
/// component of the device.
#[derive(Debug, PartialEq, Eq, Clone)]
pub enum VersionConnect {
    Inform(VersionConnectInform),
}

impl KatcpMessage for VersionConnect {
    open spec fn message_spec(&self, id: Option<u32>) -> MessageView {
        match self {
            VersionConnect::Inform(inner) => MessageView {
                kind: MessageKind::Inform,
                name: "version-connect"@,
                id,
                arguments: inner.arguments_spec(),
            },
        }
    }

    open spec fn failure(m: MessageView) -> Option<KatcpError> {
        or_else(
            header_failure(m, "version-connect"@, m.kind != MessageKind::Request && m.kind != MessageKind::Reply),
            match m.kind {
                MessageKind::Request => None,
                MessageKind::Reply => None,
                MessageKind::Inform => VersionConnectInform::failure(m.arguments),
            },
        )
    }

    open spec fn yields(m: MessageView, v: Self) -> bool {
        &&& m.name == "version-connect"@
        &&& match v {
            VersionConnect::Inform(inner) => {
                &&& m.kind == MessageKind::Inform
                &&& VersionConnectInform::yields(m.arguments, inner)
            },
        }
    }

    fn to_message(&self, id: Option<u32>) -> (r: MessageResult) {
        let (kind, arguments) = match self {
            VersionConnect::Inform(inner) => (MessageKind::Inform, inner.to_arguments()),
        };
        Ok(Message::new_unchecked(kind, "version-connect", id, arguments))
    }

    fn from_message(message: &Message) -> (r: Result<Self, KatcpError>) {
        if !str_eq(message.name_ref(), "version-connect") {
            return Err(KatcpError::IncorrectType);
        }
        let args = message.arguments_ref();
        assert(args.deep_view().skip(0) =~= args.deep_view());
        match message.kind() {
            MessageKind::Request => Err(KatcpError::Unknown),
            MessageKind::Reply => Err(KatcpError::Unknown),
            MessageKind::Inform => Ok(VersionConnect::Inform(VersionConnectInform::from_arguments(args, 0)?)),
        }
    }
}

impl VersionConnect {
    /// Each part of the message is read back from what it is written as.
    pub open spec fn parts_roundtrip(&self) -> bool {
        match self {
            VersionConnect::Inform(inner) => arguments_roundtrip(*inner),
        }
    }

    /// Reading the raw message of a value gives the value back, where each
    /// of its parts is read back from what it is written as.
    pub proof fn lemma_roundtrip(self, id: Option<u32>)
        requires
            self.parts_roundtrip(),
        ensures
            message_roundtrips(self, id),
    {
    }
}

impl VersionConnect {
    /// The inform that names this library: `version` is the version of the
    /// library, `compiler` that of the compiler that built it.
    pub fn library(version: &str, compiler: &str) -> (r: VersionConnect)
        ensures
            r matches VersionConnect::Inform(
                VersionConnectInform::KatcpLibrary { version: v, build_state: b },
            ) && v@ == "katcp-"@ + version@ && b@ == "rustc-"@ + compiler@,
    {
        let mut v: Vec<char> = Vec::new();
        push_str_chars(&mut v, "katcp-");
        push_str_chars(&mut v, version);
        let mut b: Vec<char> = Vec::new();
        push_str_chars(&mut b, "rustc-");
        push_str_chars(&mut b, compiler);
        VersionConnect::Inform(
            VersionConnectInform::KatcpLibrary {
                version: from_chars(&v),
                build_state: from_chars(&b),
            },
        )
    }
}

/// How a sensor or a request of a device has changed.
#[derive(Debug, PartialEq, Eq, Copy, Clone, Structural)]
pub enum ChangeSpecificationAction {
    Added,
    Removed,
    Modified,
}

impl ChangeSpecificationAction {
    /// The label that the value is written as.
    pub open spec fn label(self) -> Seq<char> {
        match self {
            ChangeSpecificationAction::Added => "added"@,
            ChangeSpecificationAction::Removed => "removed"@,
            ChangeSpecificationAction::Modified => "modified"@,
        }
    }

    /// The value that a label stands for.
    pub open spec fn from_label(s: Seq<char>) -> Option<ChangeSpecificationAction> {
        if s == "added"@ {
            Some(ChangeSpecificationAction::Added)
        } else if s == "removed"@ {
            Some(ChangeSpecificationAction::Removed)
        } else if s == "modified"@ {
            Some(ChangeSpecificationAction::Modified)
        } else {
            None
        }
    }

    /// Every value is the one that its label stands for, and so is read
    /// back from its token.
    pub proof fn lemma_label_roundtrip(self)
        ensures
            ChangeSpecificationAction::from_label(self.label()) == Some(self),
            argument_roundtrips(self),
    {
        reveal_strlit("added");
        reveal_strlit("removed");
        reveal_strlit("modified");
        assert("added"@.len() == 5 && "removed"@.len() == 7 && "modified"@.len() == 8);
    }
}

impl ToKatcpArgument for ChangeSpecificationAction {
    open spec fn argument_spec(&self) -> Seq<char> {
        self.label()
    }

    fn to_argument(&self) -> (token: String) {
        match self {
            ChangeSpecificationAction::Added => "added".to_owned(),
            ChangeSpecificationAction::Removed => "removed".to_owned(),
            ChangeSpecificationAction::Modified => "modified".to_owned(),
        }
    }
}

impl FromKatcpArgument for ChangeSpecificationAction {
    type Err = KatcpError;

    /// A token decodes where it is a label.
    open spec fn failure(token: Seq<char>) -> Option<KatcpError> {
        if ChangeSpecificationAction::from_label(token) is None {
            Some(KatcpError::BadArgument)
        } else {
            None
        }
    }

    /// A label decodes to what it stands for.
    open spec fn yields(token: Seq<char>, v: Self) -> bool {
        ChangeSpecificationAction::from_label(token) == Some(v)
    }

    fn from_argument(s: &str) -> (r: Result<Self, KatcpError>) {
        if str_eq(s, "added") {
            Ok(ChangeSpecificationAction::Added)
        } else if str_eq(s, "removed") {
            Ok(ChangeSpecificationAction::Removed)
        } else if str_eq(s, "modified") {
            Ok(ChangeSpecificationAction::Modified)
        } else {
            Err(KatcpError::BadArgument)
        }
    }
}

/// What has changed in the interface of a device.
#[derive(Debug, PartialEq, Eq, Clone)]
pub enum InterfaceChangeInform {
    /// The list of sensors.
    SensorList,
    /// The list of requests.
    RequestList,
    /// One sensor.
    Sensor { name: String, action: ChangeSpecificationAction },
    /// One request.
    Request { name: String, action: ChangeSpecificationAction },
}

impl ToKatcpArguments for InterfaceChangeInform {
    open spec fn arguments_spec(&self) -> Seq<Seq<char>> {
        match self {
            InterfaceChangeInform::SensorList => seq!["sensor-list"@],
            InterfaceChangeInform::RequestList => seq!["request-list"@],
            InterfaceChangeInform::Sensor { name, action } => seq![
                "sensor"@,
                escape_spec(name@),
                action.label(),
            ],
            InterfaceChangeInform::Request { name, action } => seq![
                "request"@,
                escape_spec(name@),
                action.label(),
            ],
        }
    }

    fn to_arguments(&self) -> (tokens: Vec<String>) {
        let tokens = match self {
            InterfaceChangeInform::SensorList => vec!["sensor-list".to_owned()],
            InterfaceChangeInform::RequestList => vec!["request-list".to_owned()],
            InterfaceChangeInform::Sensor { name, action } => vec![
                "sensor".to_owned(),
                name.to_argument(),
                action.to_argument(),
            ],
            InterfaceChangeInform::Request { name, action } => vec![
                "request".to_owned(),
                name.to_argument(),
                action.to_argument(),
            ],
        };
        assert(tokens.deep_view() =~= self.arguments_spec());
        tokens
    }
}

impl FromKatcpArguments for InterfaceChangeInform {
    type Err = KatcpError;

    /// The leading literal must be one of the four, and `sensor` and
    /// `request` need a name and an action.
    open spec fn failure(tokens: Seq<Seq<char>>) -> Option<KatcpError> {
        if tokens.len() < 1 {
            Some(KatcpError::MissingArgument)
        } else if tokens[0] == "sensor-list"@ || tokens[0] == "request-list"@ {
            None
        } else if tokens[0] == "sensor"@ || tokens[0] == "request"@ {
            or_else(
                field_failure::<String>(tokens, 1),
                field_failure::<ChangeSpecificationAction>(tokens, 2),
            )
        } else {
            Some(KatcpError::BadArgument)
        }
    }

    /// The leading literal gives the shape.
    open spec fn yields(tokens: Seq<Seq<char>>, v: Self) -> bool {
        &&& tokens.len() >= 1
        &&& match v {
            InterfaceChangeInform::SensorList => tokens[0] == "sensor-list"@,
            InterfaceChangeInform::RequestList => tokens[0] == "request-list"@,
            InterfaceChangeInform::Sensor { name, action } => {
                &&& tokens[0] == "sensor"@
                &&& field_yields::<String>(tokens, 1, name)
                &&& field_yields::<ChangeSpecificationAction>(tokens, 2, action)
            },
            InterfaceChangeInform::Request { name, action } => {
                &&& tokens[0] == "request"@
                &&& field_yields::<String>(tokens, 1, name)
                &&& field_yields::<ChangeSpecificationAction>(tokens, 2, action)
            },
        }
    }

    fn from_arguments(strings: &Vec<String>, from: usize) -> (r: Result<Self, KatcpError>) {
        let ghost tokens = strings.deep_view().skip(from as int);
        let ghost all = strings.deep_view();
        assert(forall|k: int| 0 <= k < tokens.len() ==> tokens[k] == all[from + k]);
        if from >= strings.len() {
            return Err(KatcpError::MissingArgument);
        }
        assert(all[from as int] == strings@[from as int]@);
        let first = strings[from].as_str();
        if str_eq(first, "sensor-list") {
            Ok(InterfaceChangeInform::SensorList)
        } else if str_eq(first, "request-list") {
            Ok(InterfaceChangeInform::RequestList)
        } else {
            let sensor = str_eq(first, "sensor");
            if !sensor && !str_eq(first, "request") {
                return Err(KatcpError::BadArgument);
            }
            if strings.len() - from < 2 {
                return Err(KatcpError::MissingArgument);
            }
            let name = decode_field::<String>(strings, from + 1)?;
            if strings.len() - from < 3 {
                return Err(KatcpError::MissingArgument);
            }
            let action = decode_field::<ChangeSpecificationAction>(strings, from + 2)?;
            if sensor {
                Ok(InterfaceChangeInform::Sensor { name, action })
            } else {
                Ok(InterfaceChangeInform::Request { name, action })
            }
        }
    }
}

impl InterfaceChangeInform {
    /// The name holds no backslash directly before one of `_ 0 n r e t @`.
    pub open spec fn canonical(&self) -> bool {
        match self {
            InterfaceChangeInform::Sensor { name, .. } => collision_free(name@),
            InterfaceChangeInform::Request { name, .. } => collision_free(name@),
            _ => true,
        }
    }

    /// Reading the tokens of a canonical inform gives the inform back.
    pub proof fn lemma_roundtrip(self)
        requires
            self.canonical(),
        ensures
            arguments_roundtrip(self),
    {
        reveal_strlit("sensor-list");
        reveal_strlit("request-list");
        reveal_strlit("sensor");
        reveal_strlit("request");
        assert("sensor-list"@.len() == 11 && "request-list"@.len() == 12);
        assert("sensor"@.len() == 6 && "request"@.len() == 7);
        match self {
            InterfaceChangeInform::Sensor { name, action } => {
                lemma_unescape_escape(name@);
                action.lemma_label_roundtrip();
            },
            InterfaceChangeInform::Request { name, action } => {
                lemma_unescape_escape(name@);
                action.lemma_label_roundtrip();
            },
            _ => {},
        }
    }
}

/// Sent by a device whose interface has changed while a client was
/// connected.
#[derive(Debug, PartialEq, Eq, Clone)]
pub enum InterfaceChanged {
    Inform(InterfaceChangeInform),
}

impl KatcpMessage for InterfaceChanged {
    open spec fn message_spec(&self, id: Option<u32>) -> MessageView {
        match self {
            InterfaceChanged::Inform(inner) => MessageView {
                kind: MessageKind::Inform,
                name: "interface-changed"@,
                id,
                arguments: inner.arguments_spec(),
            },
        }
    }

    open spec fn failure(m: MessageView) -> Option<KatcpError> {
        or_else(
            header_failure(m, "interface-changed"@, m.kind != MessageKind::Request && m.kind != MessageKind::Reply),
            match m.kind {
                MessageKind::Request => None,
                MessageKind::Reply => None,
                MessageKind::Inform => InterfaceChangeInform::failure(m.arguments),
            },
        )
    }

    open spec fn yields(m: MessageView, v: Self) -> bool {
        &&& m.name == "interface-changed"@
        &&& match v {
            InterfaceChanged::Inform(inner) => {
                &&& m.kind == MessageKind::Inform
                &&& InterfaceChangeInform::yields(m.arguments, inner)
            },
        }
    }

    fn to_message(&self, id: Option<u32>) -> (r: MessageResult) {
        let (kind, arguments) = match self {
            InterfaceChanged::Inform(inner) => (MessageKind::Inform, inner.to_arguments()),
        };
        Ok(Message::new_unchecked(kind, "interface-changed", id, arguments))
    }

    fn from_message(message: &Message) -> (r: Result<Self, KatcpError>) {
        if !str_eq(message.name_ref(), "interface-changed") {
            return Err(KatcpError::IncorrectType);
        }
        let args = message.arguments_ref();
        assert(args.deep_view().skip(0) =~= args.deep_view());
        match message.kind() {
            MessageKind::Request => Err(KatcpError::Unknown),
            MessageKind::Reply => Err(KatcpError::Unknown),
            MessageKind::Inform => Ok(InterfaceChanged::Inform(InterfaceChangeInform::from_arguments(args, 0)?)),
        }
    }
}

impl InterfaceChanged {
    /// Each part of the message is read back from what it is written as.
    pub open spec fn parts_roundtrip(&self) -> bool {
        match self {
            InterfaceChanged::Inform(inner) => arguments_roundtrip(*inner),
        }
    }

    /// Reading the raw message of a value gives the value back, where each
    /// of its parts is read back from what it is written as.
    pub proof fn lemma_roundtrip(self, id: Option<u32>)
        requires
            self.parts_roundtrip(),
        ensures
            message_roundtrips(self, id),
    {
    }
}

} // verus!
