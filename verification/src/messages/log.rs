//! The log message and the levels of logging.

use vstd::prelude::*;
use crate::messages::common::{
    argument_roundtrips, decode_field, field_failure, field_yields, header_failure,
    message_roundtrips, or_else, FromKatcpArgument, KatcpMessage, RetCode, ToKatcpArgument,
};
use crate::messages::timestamp::KatcpTimestamp;
use crate::protocol::{KatcpError, Message, MessageKind, MessageResult, MessageView};
use crate::text::str_eq;

verus! {

/// The levels of logging, from the most severe to the most verbose.
#[derive(Debug, PartialEq, Eq, Copy, Clone, Structural)]
pub enum LogLevel {
    /// Turns logging off. No message is logged at this level.
    Off,
    /// The device has failed and cannot recover.
    Fatal,
    /// An operation did not complete; the device goes on, perhaps with less
    /// than its full function.
    Error,
    /// A condition that may lead to degraded function.
    Warn,
    /// The course of work, in coarse steps.
    Info,
    /// The course of work in detail: parameters, values, states.
    Debug,
    /// The finest detail, such as call stacks.
    Trace,
    /// Turns all logging on. No message is logged at this level.
    All,
}

impl LogLevel {
    /// The label that the value is written as.
    pub open spec fn label(self) -> Seq<char> {
        match self {
            LogLevel::Off => "off"@,
            LogLevel::Fatal => "fatal"@,
            LogLevel::Error => "error"@,
            LogLevel::Warn => "warn"@,
            LogLevel::Info => "info"@,
            LogLevel::Debug => "debug"@,
            LogLevel::Trace => "trace"@,
            LogLevel::All => "all"@,
        }
    }

    /// The value that a label stands for.
    pub open spec fn from_label(s: Seq<char>) -> Option<LogLevel> {
        if s == "off"@ {
            Some(LogLevel::Off)
        } else if s == "fatal"@ {
            Some(LogLevel::Fatal)
        } else if s == "error"@ {
            Some(LogLevel::Error)
        } else if s == "warn"@ {
            Some(LogLevel::Warn)
        } else if s == "info"@ {
            Some(LogLevel::Info)
        } else if s == "debug"@ {
            Some(LogLevel::Debug)
        } else if s == "trace"@ {
            Some(LogLevel::Trace)
        } else if s == "all"@ {
            Some(LogLevel::All)
        } else {
            None
        }
    }

    /// Every value is the one that its label stands for, and so is read
    /// back from its token.
    pub proof fn lemma_label_roundtrip(self)
        ensures
            LogLevel::from_label(self.label()) == Some(self),
            argument_roundtrips(self),
    {
        reveal_strlit("off");
        reveal_strlit("fatal");
        reveal_strlit("error");
        reveal_strlit("warn");
        reveal_strlit("info");
        reveal_strlit("debug");
        reveal_strlit("trace");
        reveal_strlit("all");
        assert("off"@[0] == 'o' && "all"@[0] == 'a' && "warn"@[0] == 'w' && "info"@[0] == 'i');
        assert("fatal"@[0] == 'f' && "error"@[0] == 'e' && "debug"@[0] == 'd' && "trace"@[0] == 't');
    }
}

impl ToKatcpArgument for LogLevel {
    open spec fn argument_spec(&self) -> Seq<char> {
        self.label()
    }

    fn to_argument(&self) -> (token: String) {
        match self {
            LogLevel::Off => "off".to_owned(),
            LogLevel::Fatal => "fatal".to_owned(),
            LogLevel::Error => "error".to_owned(),
            LogLevel::Warn => "warn".to_owned(),
            LogLevel::Info => "info".to_owned(),
            LogLevel::Debug => "debug".to_owned(),
            LogLevel::Trace => "trace".to_owned(),
            LogLevel::All => "all".to_owned(),
        }
    }
}

impl FromKatcpArgument for LogLevel {
    type Err = KatcpError;

    /// A token decodes where it is a label.
    open spec fn failure(token: Seq<char>) -> Option<KatcpError> {
        if LogLevel::from_label(token) is None {
            Some(KatcpError::BadArgument)
        } else {
            None
        }
    }

    /// A label decodes to what it stands for.
    open spec fn yields(token: Seq<char>, v: Self) -> bool {
        LogLevel::from_label(token) == Some(v)
    }

    fn from_argument(s: &str) -> (r: Result<Self, KatcpError>) {
        if str_eq(s, "off") {
            Ok(LogLevel::Off)
        } else if str_eq(s, "fatal") {
            Ok(LogLevel::Fatal)
        } else if str_eq(s, "error") {
            Ok(LogLevel::Error)
        } else if str_eq(s, "warn") {
            Ok(LogLevel::Warn)
        } else if str_eq(s, "info") {
            Ok(LogLevel::Info)
        } else if str_eq(s, "debug") {
            Ok(LogLevel::Debug)
        } else if str_eq(s, "trace") {
            Ok(LogLevel::Trace)
        } else if str_eq(s, "all") {
            Ok(LogLevel::All)
        } else {
            Err(KatcpError::BadArgument)
        }
    }
}

/// Log messages, and the request that reads or sets the level of
/// logging.
#[derive(Debug, PartialEq, Eq, Clone)]
pub enum Log {
    /// One logged event.
    Inform {
        level: LogLevel,
        timestamp: KatcpTimestamp,
        name: String,
        message: String,
    },
    /// The level of logging that is now in force.
    Reply {
        ret_code: RetCode,
        level: LogLevel,
    },
    /// Sets the level of logging, or asks for it where none is given.
    Request {
        level: Option<LogLevel>,
    },
}

impl KatcpMessage for Log {
    open spec fn message_spec(&self, id: Option<u32>) -> MessageView {
        match self {
            Log::Inform { level, timestamp, name, message } => MessageView {
                kind: MessageKind::Inform,
                name: "log"@,
                id,
                arguments: seq![level.argument_spec(), timestamp.argument_spec(), name.argument_spec(), message.argument_spec()],
            },
            Log::Reply { ret_code, level } => MessageView {
                kind: MessageKind::Reply,
                name: "log"@,
                id,
                arguments: seq![ret_code.argument_spec(), level.argument_spec()],
            },
            Log::Request { level } => MessageView {
                kind: MessageKind::Request,
                name: "log"@,
                id,
                arguments: seq![level.argument_spec()],
            },
        }
    }

    open spec fn failure(m: MessageView) -> Option<KatcpError> {
        or_else(
            header_failure(m, "log"@, true),
            match m.kind {
                MessageKind::Request => field_failure::<Option<LogLevel>>(m.arguments, 0),
                MessageKind::Reply => or_else(
                    field_failure::<RetCode>(m.arguments, 0),
                    field_failure::<LogLevel>(m.arguments, 1),
                ),
                MessageKind::Inform => or_else(
                    field_failure::<LogLevel>(m.arguments, 0),
                    or_else(
                        field_failure::<KatcpTimestamp>(m.arguments, 1),
                        or_else(
                            field_failure::<String>(m.arguments, 2),
                            field_failure::<String>(m.arguments, 3),
                        ),
                    ),
                ),
            },
        )
    }

    open spec fn yields(m: MessageView, v: Self) -> bool {
        &&& m.name == "log"@
        &&& match v {
            Log::Inform { level, timestamp, name, message } => {
                &&& m.kind == MessageKind::Inform
                &&& field_yields::<LogLevel>(m.arguments, 0, level)
                &&& field_yields::<KatcpTimestamp>(m.arguments, 1, timestamp)
                &&& field_yields::<String>(m.arguments, 2, name)
                &&& field_yields::<String>(m.arguments, 3, message)
            },
            Log::Reply { ret_code, level } => {
                &&& m.kind == MessageKind::Reply
                &&& field_yields::<RetCode>(m.arguments, 0, ret_code)
                &&& field_yields::<LogLevel>(m.arguments, 1, level)
            },
            Log::Request { level } => {
                &&& m.kind == MessageKind::Request
                &&& field_yields::<Option<LogLevel>>(m.arguments, 0, level)
            },
        }
    }

    fn to_message(&self, id: Option<u32>) -> (r: MessageResult) {
        let (kind, arguments) = match self {
            Log::Inform { level, timestamp, name, message } => {
                let tokens = vec![level.to_argument(), timestamp.to_argument(), name.to_argument(), message.to_argument()];
                assert(tokens.deep_view() =~= self.message_spec(id).arguments);
                (MessageKind::Inform, tokens)
            },
            Log::Reply { ret_code, level } => {
                let tokens = vec![ret_code.to_argument(), level.to_argument()];
                assert(tokens.deep_view() =~= self.message_spec(id).arguments);
                (MessageKind::Reply, tokens)
            },
            Log::Request { level } => {
                let tokens = vec![level.to_argument()];
                assert(tokens.deep_view() =~= self.message_spec(id).arguments);
                (MessageKind::Request, tokens)
            },
        };
        Ok(Message::new_unchecked(kind, "log", id, arguments))
    }

    fn from_message(message: &Message) -> (r: Result<Self, KatcpError>) {
        if !str_eq(message.name_ref(), "log") {
            return Err(KatcpError::IncorrectType);
        }
        let args = message.arguments_ref();
        match message.kind() {
            MessageKind::Request => {
                let level = decode_field::<Option<LogLevel>>(args, 0)?;
                Ok(Log::Request { level })
            },
            MessageKind::Reply => {
                let ret_code = decode_field::<RetCode>(args, 0)?;
                let level = decode_field::<LogLevel>(args, 1)?;
                Ok(Log::Reply { ret_code, level })
            },
            MessageKind::Inform => {
                let level = decode_field::<LogLevel>(args, 0)?;
                let timestamp = decode_field::<KatcpTimestamp>(args, 1)?;
                let name = decode_field::<String>(args, 2)?;
                let message = decode_field::<String>(args, 3)?;
                Ok(Log::Inform { level, timestamp, name, message })
            },
        }
    }
}

impl Log {
    /// Each part of the message is read back from what it is written as.
    pub open spec fn parts_roundtrip(&self) -> bool {
        match self {
            Log::Inform { level, timestamp, name, message } => {
                &&& argument_roundtrips(*level)
                &&& argument_roundtrips(*timestamp)
                &&& argument_roundtrips(*name)
                &&& argument_roundtrips(*message)
            },
            Log::Reply { ret_code, level } => {
                &&& argument_roundtrips(*ret_code)
                &&& argument_roundtrips(*level)
            },
            Log::Request { level } => {
                &&& argument_roundtrips(*level)
            },
        }
    }

    /// Reading the raw message of a value gives the value back, where each
    /// of its parts is read back from what it is written as.
    pub proof fn lemma_roundtrip(self, id: Option<u32>)
        requires
            self.parts_roundtrip(),
        ensures
            message_roundtrips(self, id),
    {
    }
}

impl Log {
    /// A log inform.
    pub fn inform(level: LogLevel, timestamp: KatcpTimestamp, name: &str, message: &str) -> (r: Log)
        ensures
            r matches Log::Inform { level: l, timestamp: t, name: n, message: m } && l == level && t
                == timestamp && n@ == name@ && m@ == message@,
    {
        Log::Inform { level, timestamp, name: name.to_owned(), message: message.to_owned() }
    }

    /// A log request.
    pub fn request(level: Option<LogLevel>) -> (r: Log)
        ensures
            r == (Log::Request { level }),
    {
        Log::Request { level }
    }

    /// A log reply.
    pub fn reply(ret_code: RetCode, level: LogLevel) -> (r: Log)
        ensures
            r == (Log::Reply { ret_code, level }),
    {
        Log::Reply { ret_code, level }
    }
}

} // verus!
