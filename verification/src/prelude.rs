//! The items that most users of the typed messages need.

pub use crate::messages::address::KatcpAddress;
pub use crate::messages::argument_vec::ArgumentVec;
pub use crate::messages::common::{
    ArgumentType, FromKatcpArgument, FromKatcpArguments, KatcpArgument, KatcpArguments,
    KatcpMessage, RetCode, ToKatcpArgument, ToKatcpArguments,
};
pub use crate::messages::device::IntReply;
pub use crate::messages::float_literal::FloatLiteral;
pub use crate::messages::timestamp::KatcpTimestamp;
pub use crate::protocol::{KatcpError, Message, MessageKind, MessageResult};
