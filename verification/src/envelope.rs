//! The JSON-RPC envelopes: a call (id, method, params) and its response
//! (the same id with either a result or an error object).

use vstd::prelude::*;
use crate::json::{JsonValue, JsonModel, model_of, models_of, json_eq, json_arr_eq, lemma_models_of};

verus! {

/// The identifier of a request: a number or a string.
#[derive(Debug)]
pub enum RequestId {
    Num(i64),
    Str(String),
}

/// The mathematical model of a request identifier.
pub enum RequestIdModel {
    Num(int),
    Str(Seq<char>),
}

impl View for RequestId {
    type V = RequestIdModel;

    open spec fn view(&self) -> RequestIdModel {
        match self {
            RequestId::Num(n) => RequestIdModel::Num(*n as int),
            RequestId::Str(s) => RequestIdModel::Str(s@),
        }
    }
}

/// A call envelope: who asks (id), what for (method), and with what (params).
#[derive(Debug)]
pub struct Request {
    pub id: RequestId,
    pub method: String,
    pub params: Vec<JsonValue>,
}

/// The mathematical model of a call envelope.
pub struct RequestModel {
    pub id: RequestIdModel,
    pub method: Seq<char>,
    pub params: Seq<JsonModel>,
}

impl View for Request {
    type V = RequestModel;

    open spec fn view(&self) -> RequestModel {
        RequestModel { id: self.id@, method: self.method@, params: models_of(self.params@) }
    }
}

/// The error object of a failure response: a code and a message.
#[derive(Debug)]
pub struct ErrorObject {
    pub code: i64,
    pub message: String,
}

/// The mathematical model of an error object.
pub struct ErrorObjectModel {
    pub code: int,
    pub message: Seq<char>,
}

impl View for ErrorObject {
    type V = ErrorObjectModel;

    open spec fn view(&self) -> ErrorObjectModel {
        ErrorObjectModel { code: self.code as int, message: self.message@ }
    }
}

/// A response envelope: exactly one of a result or an error, under the
/// identifier of the call it answers.
#[derive(Debug)]
pub enum Response {
    Success { id: RequestId, result: JsonValue },
    Failure { id: RequestId, error: ErrorObject },
}

/// The mathematical model of a response envelope.
pub enum ResponseModel {
    Success { id: RequestIdModel, result: JsonModel },
    Failure { id: RequestIdModel, error: ErrorObjectModel },
}

impl View for Response {
    type V = ResponseModel;

    open spec fn view(&self) -> ResponseModel {
        match self {
            Response::Success { id, result } => ResponseModel::Success {
                id: id@,
                result: model_of(*result),
            },
            Response::Failure { id, error } => ResponseModel::Failure { id: id@, error: error@ },
        }
    }
}

impl ResponseModel {
    /// The identifier a response carries, whichever of the two shapes it has.
    pub open spec fn resp_id(self) -> RequestIdModel {
        match self {
            ResponseModel::Success { id, .. } => id,
            ResponseModel::Failure { id, .. } => id,
        }
    }
}

/// A copy of a request identifier with the same model.
pub fn clone_id(id: &RequestId) -> (r: RequestId)
    ensures
        r@ == id@,
{
    match id {
        RequestId::Num(n) => RequestId::Num(*n),
        RequestId::Str(s) => RequestId::Str(s.clone()),
    }
}

/// Whether two request identifiers have the same model.
pub fn id_eq(a: &RequestId, b: &RequestId) -> (r: bool)
    ensures
        r == (a@ == b@),
{
    match (a, b) {
        (RequestId::Num(x), RequestId::Num(y)) => *x == *y,
        (RequestId::Str(x), RequestId::Str(y)) => *x == *y,
        _ => false,
    }
}

/// Whether two call envelopes have the same model: id, method and params.
pub fn request_eq(a: &Request, b: &Request) -> (r: bool)
    ensures
        r == (a@ == b@),
{
    proof {
        lemma_models_of(a.params@);
        lemma_models_of(b.params@);
    }
    let ids = id_eq(&a.id, &b.id);
    let methods = a.method == b.method;
    let params = params_eq(&a.params, &b.params);
    ids && methods && params
}

/// Whether two parameter sequences have the same models, element by element.
pub fn params_eq(xs: &Vec<JsonValue>, ys: &Vec<JsonValue>) -> (r: bool)
    ensures
        r == (models_of(xs@) == models_of(ys@)),
{
    json_arr_eq(xs, ys)
}

/// Whether two response envelopes have the same model.
pub fn response_eq(a: &Response, b: &Response) -> (r: bool)
    ensures
        r == (a@ == b@),
{
    match (a, b) {
        (
            Response::Success { id: ia, result: ra },
            Response::Success { id: ib, result: rb },
        ) => id_eq(ia, ib) && json_eq(ra, rb),
        (
            Response::Failure { id: ia, error: ea },
            Response::Failure { id: ib, error: eb },
        ) => id_eq(ia, ib) && ea.code == eb.code && ea.message == eb.message,
        _ => false,
    }
}

} // verus!
