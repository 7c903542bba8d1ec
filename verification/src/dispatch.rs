//! Dispatching a call envelope against the registry: look the method up,
//! run its handler, and wrap what came of it as a response envelope. Every
//! failure after dispatch begins is turned into an error envelope; the
//! connection is never the handler's to tear down.

use vstd::prelude::*;
use vstd::string::StringExecFns;
use crate::envelope::{
    ErrorObject, ErrorObjectModel, Request, RequestModel, Response, ResponseModel, clone_id,
};
use crate::json::{JsonValue, JsonModel, clone_value};
use crate::registry::{Handler, HandlerModel, Registry};
use crate::{INTERNAL_ERROR_CODE, METHOD_NOT_FOUND_CODE};

verus! {

/// A handler's own failure: its text stays on the server and is logged, not
/// sent, so no internal detail leaks to the caller.
#[derive(Debug)]
pub struct HandlerError {
    pub message: String,
}

impl View for HandlerError {
    type V = Seq<char>;

    open spec fn view(&self) -> Seq<char> {
        self.message@
    }
}

/// The message of every MethodNotFound error envelope.
pub open spec fn method_not_found_text() -> Seq<char> {
    "Method not found"@
}

/// The message of every Internal Error envelope.
pub open spec fn internal_error_text() -> Seq<char> {
    "Internal error"@
}

/// What a handler answers: its constant for `Constant`, its own failure for
/// `Failing`, whatever the params are.
pub open spec fn eval_model(h: HandlerModel, params: Seq<JsonModel>) -> Result<
    JsonModel,
    Seq<char>,
> {
    match h {
        HandlerModel::Constant(v) => Ok(v),
        HandlerModel::Failing(m) => Err(m),
    }
}

/// Runs a handler on the decoded params of a call.
pub fn eval_handler(h: &Handler, params: &Vec<JsonValue>) -> (r: Result<JsonValue, HandlerError>)
    ensures
        match r {
            Ok(v) => eval_model(h@, crate::json::models_of(params@)) == Ok::<
                JsonModel,
                Seq<char>,
            >(v@),
            Err(e) => eval_model(h@, crate::json::models_of(params@)) == Err::<
                JsonModel,
                Seq<char>,
            >(e@),
        },
{
    match h {
        Handler::Constant(v) => Ok(clone_value(v)),
        Handler::Failing(m) => Err(HandlerError { message: m.clone() }),
    }
}

/// The response that dispatching a call against a registry yields: a
/// MethodNotFound error envelope when the method is unknown, the handler's
/// value when it answers, and a generic Internal Error envelope when the
/// handler fails — always under the id of the call.
pub open spec fn dispatch_model(
    reg: Map<Seq<char>, HandlerModel>,
    req: RequestModel,
) -> ResponseModel {
    if !reg.contains_key(req.method) {
        ResponseModel::Failure {
            id: req.id,
            error: ErrorObjectModel {
                code: METHOD_NOT_FOUND_CODE as int,
                message: method_not_found_text(),
            },
        }
    } else {
        match eval_model(reg[req.method], req.params) {
            Ok(v) => ResponseModel::Success { id: req.id, result: v },
            Err(_) => ResponseModel::Failure {
                id: req.id,
                error: ErrorObjectModel {
                    code: INTERNAL_ERROR_CODE as int,
                    message: internal_error_text(),
                },
            },
        }
    }
}

/// Serves one call envelope: exact name lookup, then the handler, then the
/// response envelope, as `dispatch_model` says.
pub fn dispatch(reg: &Registry, req: &Request) -> (resp: Response)
    requires
        reg.wf(),
    ensures
        resp@ == dispatch_model(reg@, req@),
{
    match reg.lookup(&req.method) {
        None => Response::Failure {
            id: clone_id(&req.id),
            error: ErrorObject {
                code: METHOD_NOT_FOUND_CODE,
                message: String::from_str("Method not found"),
            },
        },
        Some(h) => match eval_handler(h, &req.params) {
            Ok(v) => Response::Success { id: clone_id(&req.id), result: v },
            Err(_logged) => Response::Failure {
                id: clone_id(&req.id),
                error: ErrorObject {
                    code: INTERNAL_ERROR_CODE,
                    message: String::from_str("Internal error"),
                },
            },
        },
    }
}

/// Serves one call as it arrives off the wire, already parsed to a JSON
/// value: decode the envelope, dispatch it, encode the response. A value
/// that is not a call envelope is refused, and nothing is dispatched for it.
pub fn serve_json(reg: &Registry, v: &JsonValue) -> (r: Result<
    JsonValue,
    crate::codec::DecodeError,
>)
    requires
        reg.wf(),
    ensures
        match crate::codec::request_of_json(v@) {
            Some(m) => r matches Ok(out) && out@ == crate::codec::response_json(
                dispatch_model(reg@, m),
            ),
            None => r matches Err(e) && e == crate::codec::DecodeError::Envelope,
        },
{
    match crate::codec::decode_request(v) {
        Ok(req) => {
            let resp = dispatch(reg, &req);
            Ok(crate::codec::encode_response(&resp))
        },
        Err(e) => Err(e),
    }
}

/// Law: a call to a method name that is not in the registry is answered by a
/// MethodNotFound error envelope that echoes the id of the request.
pub proof fn lemma_unknown_method(reg: Map<Seq<char>, HandlerModel>, req: RequestModel)
    requires
        !reg.contains_key(req.method),
    ensures
        dispatch_model(reg, req) == (ResponseModel::Failure {
            id: req.id,
            error: ErrorObjectModel {
                code: METHOD_NOT_FOUND_CODE as int,
                message: method_not_found_text(),
            },
        }),
{
}

/// Law: the response to a call carries the id of the request — for a
/// successful call just as for either error envelope.
pub proof fn lemma_id_echoed(reg: Map<Seq<char>, HandlerModel>, req: RequestModel)
    ensures
        dispatch_model(reg, req).resp_id() == req.id,
{
}

/// Law: whatever handler a name was first registered under, the name is then
/// in the registry's model, so a second registration of it — with any
/// handler — meets `register`'s duplicate case and fails with
/// `DuplicateMethod`, the registry unchanged.
pub proof fn lemma_duplicate_method(
    reg: Map<Seq<char>, HandlerModel>,
    name: Seq<char>,
    first: HandlerModel,
)
    ensures
        reg.insert(name, first).contains_key(name),
{
}

/// Law: dispatch is a function of the registry and the call alone, so a pure
/// handler called twice with identical params yields identical results.
pub proof fn lemma_call_idempotent(
    reg: Map<Seq<char>, HandlerModel>,
    first: RequestModel,
    second: RequestModel,
)
    requires
        first == second,
    ensures
        dispatch_model(reg, first) == dispatch_model(reg, second),
{
}

} // verus!
