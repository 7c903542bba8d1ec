//! Encoding envelopes as JSON values and decoding them back. The decoder
//! accepts exactly the objects the encoder writes — `{"id", "method",
//! "params"}` for a call, `{"id", "result"}` or `{"id", "error"}` for a
//! response — and the round trip gives the envelope back unchanged.

use vstd::prelude::*;
use vstd::string::StringExecFns;
use crate::envelope::{
    ErrorObject, ErrorObjectModel, Request, RequestId, RequestIdModel, RequestModel, Response,
    ResponseModel,
};
use crate::json::{
    JsonMember, JsonValue, JsonModel, model_of, member_models_of, clone_value, clone_values,
    lemma_member_models_of,
};

verus! {

/// A body that does not have the shape of an envelope, or a result that does
/// not have the expected shape.
#[derive(Debug, PartialEq, Eq, Structural)]
pub enum DecodeError {
    /// The value is not an envelope of the expected shape.
    Envelope,
    /// The envelope is sound but its result is not of the expected type.
    WrongType,
}

/// The JSON value that stands for a request identifier.
pub open spec fn id_json(id: RequestIdModel) -> JsonModel {
    match id {
        RequestIdModel::Num(n) => JsonModel::Int(n),
        RequestIdModel::Str(s) => JsonModel::Str(s),
    }
}

/// The request identifier a JSON value stands for, if any.
pub open spec fn id_of_json(j: JsonModel) -> Option<RequestIdModel> {
    match j {
        JsonModel::Int(n) => Some(RequestIdModel::Num(n)),
        JsonModel::Str(s) => Some(RequestIdModel::Str(s)),
        _ => None,
    }
}

/// The JSON object that carries a call envelope.
pub open spec fn request_json(req: RequestModel) -> JsonModel {
    JsonModel::Obj(
        seq![
            ("id"@, id_json(req.id)),
            ("method"@, JsonModel::Str(req.method)),
            ("params"@, JsonModel::Arr(req.params)),
        ],
    )
}

/// The call envelope a JSON value carries, if it has the encoded shape.
pub open spec fn request_of_json(j: JsonModel) -> Option<RequestModel> {
    match j {
        JsonModel::Obj(members) => if members.len() == 3 && members[0].0 == "id"@
            && members[1].0 == "method"@ && members[2].0 == "params"@ {
            match (id_of_json(members[0].1), members[1].1, members[2].1) {
                (Some(id), JsonModel::Str(m), JsonModel::Arr(ps)) => Some(
                    RequestModel { id, method: m, params: ps },
                ),
                _ => None,
            }
        } else {
            None
        },
        _ => None,
    }
}

/// The JSON object that carries an error object.
pub open spec fn error_json(e: ErrorObjectModel) -> JsonModel {
    JsonModel::Obj(seq![("code"@, JsonModel::Int(e.code)), ("message"@, JsonModel::Str(e.message))])
}

/// The error object a JSON value carries, if it has the encoded shape.
pub open spec fn error_of_json(j: JsonModel) -> Option<ErrorObjectModel> {
    match j {
        JsonModel::Obj(members) => if members.len() == 2 && members[0].0 == "code"@
            && members[1].0 == "message"@ {
            match (members[0].1, members[1].1) {
                (JsonModel::Int(c), JsonModel::Str(m)) => Some(
                    ErrorObjectModel { code: c, message: m },
                ),
                _ => None,
            }
        } else {
            None
        },
        _ => None,
    }
}

/// The JSON object that carries a response envelope: the id with either the
/// result or the error object, never both.
pub open spec fn response_json(resp: ResponseModel) -> JsonModel {
    match resp {
        ResponseModel::Success { id, result } => JsonModel::Obj(
            seq![("id"@, id_json(id)), ("result"@, result)],
        ),
        ResponseModel::Failure { id, error } => JsonModel::Obj(
            seq![("id"@, id_json(id)), ("error"@, error_json(error))],
        ),
    }
}

/// The response envelope a JSON value carries, if it has the encoded shape.
pub open spec fn response_of_json(j: JsonModel) -> Option<ResponseModel> {
    match j {
        JsonModel::Obj(members) => if members.len() == 2 && members[0].0 == "id"@ {
            match id_of_json(members[0].1) {
                Some(id) => if members[1].0 == "result"@ {
                    Some(ResponseModel::Success { id, result: members[1].1 })
                } else if members[1].0 == "error"@ {
                    match error_of_json(members[1].1) {
                        Some(e) => Some(ResponseModel::Failure { id, error: e }),
                        None => None,
                    }
                } else {
                    None
                },
                None => None,
            }
        } else {
            None
        },
        _ => None,
    }
}

/// Law: decoding an encoded call envelope gives the envelope back — id,
/// method and params preserved exactly.
pub proof fn lemma_request_round_trip(req: RequestModel)
    ensures
        request_of_json(request_json(req)) == Some(req),
{
}

/// Law: decoding an encoded response envelope gives the envelope back.
pub proof fn lemma_response_round_trip(resp: ResponseModel)
    ensures
        response_of_json(response_json(resp)) == Some(resp),
{
    reveal_strlit("result");
    reveal_strlit("error");
    assert("error"@.len() == 5);
    assert("result"@.len() == 6);
    assert("error"@ != "result"@);
    match resp {
        ResponseModel::Success { id, result } => {
            assert(response_json(resp) == JsonModel::Obj(
                seq![("id"@, id_json(id)), ("result"@, result)],
            ));
        },
        ResponseModel::Failure { id, error } => {
            assert(response_json(resp) == JsonModel::Obj(
                seq![("id"@, id_json(id)), ("error"@, error_json(error))],
            ));
            assert(error_of_json(error_json(error)) == Some(error));
        },
    }
}

/// The request identifier as a JSON value.
pub fn encode_id(id: &RequestId) -> (v: JsonValue)
    ensures
        v@ == id_json(id@),
{
    match id {
        RequestId::Num(n) => JsonValue::Int(*n),
        RequestId::Str(s) => JsonValue::Str(s.clone()),
    }
}

/// The request identifier a JSON value stands for, if any.
pub fn decode_id(v: &JsonValue) -> (r: Option<RequestId>)
    ensures
        match r {
            Some(id) => id_of_json(v@) == Some(id@),
            None => id_of_json(v@) is None,
        },
{
    match v {
        JsonValue::Int(n) => Some(RequestId::Num(*n)),
        JsonValue::Str(s) => Some(RequestId::Str(s.clone())),
        _ => None,
    }
}

/// Encodes a call envelope as the JSON object `{"id", "method", "params"}`.
pub fn encode_request(req: &Request) -> (v: JsonValue)
    ensures
        v@ == request_json(req@),
{
    let mut members: Vec<JsonMember> = Vec::new();
    members.push(JsonMember { key: String::from_str("id"), value: encode_id(&req.id) });
    members.push(
        JsonMember { key: String::from_str("method"), value: JsonValue::Str(req.method.clone()) },
    );
    members.push(
        JsonMember {
            key: String::from_str("params"),
            value: JsonValue::Arr(clone_values(&req.params)),
        },
    );
    proof {
        lemma_member_models_of(members@);
        assert(member_models_of(members@) =~= seq![
            ("id"@, id_json(req@.id)),
            ("method"@, JsonModel::Str(req@.method)),
            ("params"@, JsonModel::Arr(req@.params)),
        ]) by {
            lemma_member_models_of(members@);
            assert(member_models_of(members@)[0] == (members@[0].key@, model_of(
                members@[0].value,
            )));
            assert(member_models_of(members@)[1] == (members@[1].key@, model_of(
                members@[1].value,
            )));
            assert(member_models_of(members@)[2] == (members@[2].key@, model_of(
                members@[2].value,
            )));
        };
    }
    JsonValue::Obj(members)
}

/// Decodes a call envelope from a JSON value of the encoded shape.
pub fn decode_request(v: &JsonValue) -> (r: Result<Request, DecodeError>)
    ensures
        match r {
            Ok(req) => request_of_json(v@) == Some(req@),
            Err(e) => (request_of_json(v@) is None) && e == DecodeError::Envelope,
        },
{
    match v {
        JsonValue::Obj(members) => {
            proof {
                lemma_member_models_of(members@);
            }
            if members.len() != 3 {
                return Err(DecodeError::Envelope);
            }
            let right_keys = members[0].key == String::from_str("id") && members[1].key
                == String::from_str("method") && members[2].key == String::from_str("params");
            if !right_keys {
                return Err(DecodeError::Envelope);
            }
            let id = match decode_id(&members[0].value) {
                Some(id) => id,
                None => {
                    return Err(DecodeError::Envelope);
                },
            };
            let method = match &members[1].value {
                JsonValue::Str(s) => s.clone(),
                _ => {
                    return Err(DecodeError::Envelope);
                },
            };
            let params = match &members[2].value {
                JsonValue::Arr(items) => clone_values(items),
                _ => {
                    return Err(DecodeError::Envelope);
                },
            };
            Ok(Request { id, method, params })
        },
        _ => Err(DecodeError::Envelope),
    }
}

/// Encodes a response envelope as the JSON object `{"id", "result"}` or
/// `{"id", "error"}`.
pub fn encode_response(resp: &Response) -> (v: JsonValue)
    ensures
        v@ == response_json(resp@),
{
    match resp {
        Response::Success { id, result } => {
            let mut members: Vec<JsonMember> = Vec::new();
            members.push(JsonMember { key: String::from_str("id"), value: encode_id(id) });
            members.push(JsonMember { key: String::from_str("result"), value: clone_value(result) });
            proof {
                lemma_member_models_of(members@);
                assert(member_models_of(members@) =~= seq![
                    ("id"@, id_json(id@)),
                    ("result"@, model_of(*result)),
                ]) by {
                    lemma_member_models_of(members@);
                    assert(member_models_of(members@)[0] == (members@[0].key@, model_of(
                        members@[0].value,
                    )));
                    assert(member_models_of(members@)[1] == (members@[1].key@, model_of(
                        members@[1].value,
                    )));
                };
            }
            JsonValue::Obj(members)
        },
        Response::Failure { id, error } => {
            let mut inner: Vec<JsonMember> = Vec::new();
            inner.push(JsonMember { key: String::from_str("code"), value: JsonValue::Int(error.code) });
            inner.push(
                JsonMember {
                    key: String::from_str("message"),
                    value: JsonValue::Str(error.message.clone()),
                },
            );
            proof {
                lemma_member_models_of(inner@);
                assert(member_models_of(inner@) =~= seq![
                    ("code"@, JsonModel::Int(error.code as int)),
                    ("message"@, JsonModel::Str(error.message@)),
                ]) by {
                    lemma_member_models_of(inner@);
                    assert(member_models_of(inner@)[0] == (inner@[0].key@, model_of(
                        inner@[0].value,
                    )));
                    assert(member_models_of(inner@)[1] == (inner@[1].key@, model_of(
                        inner@[1].value,
                    )));
                };
            }
            let mut members: Vec<JsonMember> = Vec::new();
            members.push(JsonMember { key: String::from_str("id"), value: encode_id(id) });
            members.push(JsonMember { key: String::from_str("error"), value: JsonValue::Obj(inner) });
            proof {
                lemma_member_models_of(members@);
                assert(member_models_of(members@) =~= seq![
                    ("id"@, id_json(id@)),
                    ("error"@, error_json(error@)),
                ]) by {
                    lemma_member_models_of(members@);
                    assert(member_models_of(members@)[0] == (members@[0].key@, model_of(
                        members@[0].value,
                    )));
                    assert(member_models_of(members@)[1] == (members@[1].key@, model_of(
                        members@[1].value,
                    )));
                };
            }
            JsonValue::Obj(members)
        },
    }
}

/// Decodes a response envelope from a JSON value of the encoded shape.
pub fn decode_response(v: &JsonValue) -> (r: Result<Response, DecodeError>)
    ensures
        match r {
            Ok(resp) => response_of_json(v@) == Some(resp@),
            Err(e) => (response_of_json(v@) is None) && e == DecodeError::Envelope,
        },
{
    match v {
        JsonValue::Obj(members) => {
            proof {
                lemma_member_models_of(members@);
            }
            if members.len() != 2 {
                return Err(DecodeError::Envelope);
            }
            if !(members[0].key == String::from_str("id")) {
                return Err(DecodeError::Envelope);
            }
            let id = match decode_id(&members[0].value) {
                Some(id) => id,
                None => {
                    return Err(DecodeError::Envelope);
                },
            };
            if members[1].key == String::from_str("result") {
                let result = clone_value(&members[1].value);
                return Ok(Response::Success { id, result });
            }
            if !(members[1].key == String::from_str("error")) {
                return Err(DecodeError::Envelope);
            }
            let error = match decode_error_object(&members[1].value) {
                Some(e) => e,
                None => {
                    return Err(DecodeError::Envelope);
                },
            };
            Ok(Response::Failure { id, error })
        },
        _ => Err(DecodeError::Envelope),
    }
}

/// Decodes an error object from a JSON value of the encoded shape.
fn decode_error_object(v: &JsonValue) -> (r: Option<ErrorObject>)
    ensures
        match r {
            Some(e) => error_of_json(v@) == Some(e@),
            None => error_of_json(v@) is None,
        },
{
    match v {
        JsonValue::Obj(members) => {
            proof {
                lemma_member_models_of(members@);
            }
            if members.len() != 2 {
                return None;
            }
            if !(members[0].key == String::from_str("code") && members[1].key == String::from_str(
                "message",
            )) {
                return None;
            }
            let code = match &members[0].value {
                JsonValue::Int(c) => *c,
                _ => {
                    return None;
                },
            };
            let message = match &members[1].value {
                JsonValue::Str(m) => m.clone(),
                _ => {
                    return None;
                },
            };
            Some(ErrorObject { code, message })
        },
        _ => None,
    }
}

} // verus!
