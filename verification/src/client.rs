//! The client's half of a call: once the transport has delivered a response
//! envelope, turn it into the typed outcome of the call — the result, the
//! server's error, or a decode failure.

use vstd::prelude::*;
use crate::codec::DecodeError;
use crate::envelope::{Response, ResponseModel};
use crate::json::{JsonModel, JsonValue};

verus! {

/// Why a call yields no result: the transport failed, the answer did not
/// have the expected shape, or the server answered with an error envelope.
#[derive(Debug)]
pub enum CallError {
    /// A network-level failure, named by the transport. The core never
    /// produces this; the host wraps its transport's errors in it.
    Transport(String),
    /// The body is not an envelope of the expected shape, or the result is
    /// not of the expected type.
    Decode(DecodeError),
    /// The server's error envelope, code and message intact.
    Rpc { code: i64, message: String },
}

/// The mathematical model of a call error.
pub enum CallErrorModel {
    Transport(Seq<char>),
    Decode(DecodeError),
    Rpc { code: int, message: Seq<char> },
}

impl View for CallError {
    type V = CallErrorModel;

    open spec fn view(&self) -> CallErrorModel {
        match self {
            CallError::Transport(t) => CallErrorModel::Transport(t@),
            CallError::Decode(e) => CallErrorModel::Decode(*e),
            CallError::Rpc { code, message } => CallErrorModel::Rpc {
                code: *code as int,
                message: message@,
            },
        }
    }
}

/// What a response envelope means to a caller that expects a string: the
/// string when the result is one, `WrongType` when it is something else, and
/// the server's error — code and message intact — when the envelope is an
/// error.
pub open spec fn string_reply_model(resp: ResponseModel) -> Result<Seq<char>, CallErrorModel> {
    match resp {
        ResponseModel::Success { id: _, result } => match result {
            JsonModel::Str(s) => Ok(s),
            _ => Err(CallErrorModel::Decode(DecodeError::WrongType)),
        },
        ResponseModel::Failure { id: _, error } => Err(
            CallErrorModel::Rpc { code: error.code, message: error.message },
        ),
    }
}

/// Reads a response envelope as the outcome of a call that expects a string
/// result, as `string_reply_model` says.
pub fn expect_string_result(resp: &Response) -> (r: Result<String, CallError>)
    ensures
        match r {
            Ok(s) => string_reply_model(resp@) == Ok::<Seq<char>, CallErrorModel>(s@),
            Err(e) => string_reply_model(resp@) == Err::<Seq<char>, CallErrorModel>(e@),
        },
{
    match resp {
        Response::Success { id: _, result } => match result {
            JsonValue::Str(s) => Ok(s.clone()),
            _ => Err(CallError::Decode(DecodeError::WrongType)),
        },
        Response::Failure { id: _, error } => Err(
            CallError::Rpc { code: error.code, message: error.message.clone() },
        ),
    }
}

} // verus!
