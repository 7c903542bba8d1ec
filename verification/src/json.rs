//! JSON values as the wire protocol uses them: null, booleans, 64-bit
//! integers, strings, arrays and objects, together with their mathematical
//! model and a verified structural equality.

use vstd::prelude::*;

verus! {

/// One member of a JSON object: a key and the value under it.
#[derive(Debug)]
pub struct JsonMember {
    pub key: String,
    pub value: JsonValue,
}

/// A JSON value. Numbers are restricted to signed 64-bit integers, which is
/// all the envelopes of this protocol carry.
#[derive(Debug)]
pub enum JsonValue {
    Null,
    Bool(bool),
    Int(i64),
    Str(String),
    Arr(Vec<JsonValue>),
    Obj(Vec<JsonMember>),
}

/// The mathematical model of a JSON value.
pub enum JsonModel {
    Null,
    Bool(bool),
    Int(int),
    Str(Seq<char>),
    Arr(Seq<JsonModel>),
    Obj(Seq<(Seq<char>, JsonModel)>),
}

/// The model of an executable JSON value.
pub open spec fn model_of(v: JsonValue) -> JsonModel
    decreases v,
{
    match v {
        JsonValue::Null => JsonModel::Null,
        JsonValue::Bool(b) => JsonModel::Bool(b),
        JsonValue::Int(i) => JsonModel::Int(i as int),
        JsonValue::Str(s) => JsonModel::Str(s@),
        JsonValue::Arr(items) => JsonModel::Arr(models_of(items@)),
        JsonValue::Obj(members) => JsonModel::Obj(member_models_of(members@)),
    }
}

/// The models of the elements of a JSON array, in order.
pub open spec fn models_of(items: Seq<JsonValue>) -> Seq<JsonModel>
    decreases items,
{
    if items.len() == 0 {
        Seq::empty()
    } else {
        seq![model_of(items.first())] + models_of(items.drop_first())
    }
}

/// The models of the members of a JSON object, in order.
pub open spec fn member_models_of(members: Seq<JsonMember>) -> Seq<(Seq<char>, JsonModel)>
    decreases members,
{
    if members.len() == 0 {
        Seq::empty()
    } else {
        seq![(members.first().key@, model_of(members.first().value))] + member_models_of(
            members.drop_first(),
        )
    }
}

impl View for JsonValue {
    type V = JsonModel;

    open spec fn view(&self) -> JsonModel {
        model_of(*self)
    }
}

impl View for JsonMember {
    type V = (Seq<char>, JsonModel);

    open spec fn view(&self) -> (Seq<char>, JsonModel) {
        (self.key@, model_of(self.value))
    }
}

/// `models_of` maps the model over the elements and keeps the length.
pub proof fn lemma_models_of(items: Seq<JsonValue>)
    ensures
        models_of(items).len() == items.len(),
        forall|i: int| 0 <= i < items.len() ==> models_of(items)[i] == model_of(#[trigger] items[i]),
    decreases items,
{
    if items.len() > 0 {
        lemma_models_of(items.drop_first());
        assert forall|i: int| 0 <= i < items.len() implies models_of(items)[i] == model_of(
            #[trigger] items[i],
        ) by {
            if i > 0 {
                assert(models_of(items.drop_first())[i - 1] == model_of(items.drop_first()[i - 1]));
                assert(items.drop_first()[i - 1] == items[i]);
            }
        }
    }
}

/// `member_models_of` maps the member model over the members and keeps the length.
pub proof fn lemma_member_models_of(members: Seq<JsonMember>)
    ensures
        member_models_of(members).len() == members.len(),
        forall|i: int|
            0 <= i < members.len() ==> member_models_of(members)[i] == (
            #[trigger] members[i].key@,
            model_of(members[i].value),
            ),
    decreases members,
{
    if members.len() > 0 {
        lemma_member_models_of(members.drop_first());
        assert forall|i: int| 0 <= i < members.len() implies member_models_of(members)[i] == (
            #[trigger] members[i].key@,
            model_of(members[i].value),
        ) by {
            if i > 0 {
                assert(member_models_of(members.drop_first())[i - 1] == (
                members.drop_first()[i - 1].key@,
                model_of(members.drop_first()[i - 1].value),
                ));
                assert(members.drop_first()[i - 1] == members[i]);
            }
        }
    }
}

/// Structural equality of two JSON values, decided on their models.
pub fn json_eq(a: &JsonValue, b: &JsonValue) -> (r: bool)
    ensures
        r == (a@ == b@),
    decreases *a,
{
    match (a, b) {
        (JsonValue::Null, JsonValue::Null) => true,
        (JsonValue::Bool(x), JsonValue::Bool(y)) => *x == *y,
        (JsonValue::Int(x), JsonValue::Int(y)) => *x == *y,
        (JsonValue::Str(x), JsonValue::Str(y)) => *x == *y,
        (JsonValue::Arr(xs), JsonValue::Arr(ys)) => json_arr_eq(xs, ys),
        (JsonValue::Obj(xs), JsonValue::Obj(ys)) => json_obj_eq(xs, ys),
        _ => false,
    }
}

/// Element-wise equality of two JSON arrays.
pub fn json_arr_eq(xs: &Vec<JsonValue>, ys: &Vec<JsonValue>) -> (r: bool)
    ensures
        r == (models_of(xs@) == models_of(ys@)),
    decreases xs@,
{
    proof {
        lemma_models_of(xs@);
        lemma_models_of(ys@);
    }
    if xs.len() != ys.len() {
        return false;
    }
    let mut i: usize = 0;
    while i < xs.len()
        invariant
            xs.len() == ys.len(),
            i <= xs.len(),
            forall|j: int| 0 <= j < i ==> model_of(#[trigger] xs@[j]) == model_of(ys@[j]),
        decreases xs.len() - i,
    {
        if !json_eq(&xs[i], &ys[i]) {
            proof {
                lemma_models_of(xs@);
                lemma_models_of(ys@);
                assert(models_of(xs@)[i as int] != models_of(ys@)[i as int]);
            }
            return false;
        }
        i += 1;
    }
    proof {
        lemma_models_of(xs@);
        lemma_models_of(ys@);
        assert forall|k: int| 0 <= k < models_of(xs@).len() implies models_of(xs@)[k] == models_of(
            ys@,
        )[k] by {
            assert(model_of(xs@[k]) == model_of(ys@[k]));
        }
        assert(models_of(xs@) =~= models_of(ys@));
    }
    true
}

/// Member-wise equality of two JSON objects: keys and values, in order.
pub fn json_obj_eq(xs: &Vec<JsonMember>, ys: &Vec<JsonMember>) -> (r: bool)
    ensures
        r == (member_models_of(xs@) == member_models_of(ys@)),
    decreases xs@,
{
    proof {
        lemma_member_models_of(xs@);
        lemma_member_models_of(ys@);
    }
    if xs.len() != ys.len() {
        return false;
    }
    let mut i: usize = 0;
    while i < xs.len()
        invariant
            xs.len() == ys.len(),
            i <= xs.len(),
            forall|j: int|
                0 <= j < i ==> ((#[trigger] xs@[j]).key@ == ys@[j].key@ && model_of(xs@[j].value)
                    == model_of(ys@[j].value)),
        decreases xs.len() - i,
    {
        if !(xs[i].key == ys[i].key) {
            proof {
                lemma_member_models_of(xs@);
                lemma_member_models_of(ys@);
                assert(member_models_of(xs@)[i as int] != member_models_of(ys@)[i as int]);
            }
            return false;
        }
        if !json_eq(&xs[i].value, &ys[i].value) {
            proof {
                lemma_member_models_of(xs@);
                lemma_member_models_of(ys@);
                assert(member_models_of(xs@)[i as int] != member_models_of(ys@)[i as int]);
            }
            return false;
        }
        i += 1;
    }
    proof {
        lemma_member_models_of(xs@);
        lemma_member_models_of(ys@);
        assert forall|k: int| 0 <= k < member_models_of(xs@).len() implies member_models_of(
            xs@,
        )[k] == member_models_of(ys@)[k] by {
            assert(xs@[k].key@ == ys@[k].key@ && model_of(xs@[k].value) == model_of(ys@[k].value));
        }
        assert(member_models_of(xs@) =~= member_models_of(ys@));
    }
    true
}

/// A copy of a JSON value with the same model.
pub fn clone_value(v: &JsonValue) -> (r: JsonValue)
    ensures
        r@ == v@,
    decreases *v,
{
    match v {
        JsonValue::Null => JsonValue::Null,
        JsonValue::Bool(b) => JsonValue::Bool(*b),
        JsonValue::Int(i) => JsonValue::Int(*i),
        JsonValue::Str(s) => JsonValue::Str(s.clone()),
        JsonValue::Arr(items) => JsonValue::Arr(clone_values(items)),
        JsonValue::Obj(members) => JsonValue::Obj(clone_members(members)),
    }
}

/// A copy of a JSON array's elements with the same models.
pub fn clone_values(items: &Vec<JsonValue>) -> (r: Vec<JsonValue>)
    ensures
        models_of(r@) == models_of(items@),
    decreases items@,
{
    let mut out: Vec<JsonValue> = Vec::new();
    let mut i: usize = 0;
    while i < items.len()
        invariant
            i <= items.len(),
            out@.len() == i,
            forall|j: int| 0 <= j < i ==> model_of(#[trigger] out@[j]) == model_of(items@[j]),
        decreases items.len() - i,
    {
        let c = clone_value(&items[i]);
        out.push(c);
        i += 1;
    }
    proof {
        lemma_models_of(out@);
        lemma_models_of(items@);
        assert forall|k: int| 0 <= k < models_of(out@).len() implies models_of(out@)[k]
            == models_of(items@)[k] by {
            assert(model_of(out@[k]) == model_of(items@[k]));
        }
        assert(models_of(out@) =~= models_of(items@));
    }
    out
}

/// A copy of a JSON object's members with the same models.
pub fn clone_members(members: &Vec<JsonMember>) -> (r: Vec<JsonMember>)
    ensures
        member_models_of(r@) == member_models_of(members@),
    decreases members@,
{
    let mut out: Vec<JsonMember> = Vec::new();
    let mut i: usize = 0;
    while i < members.len()
        invariant
            i <= members.len(),
            out@.len() == i,
            forall|j: int|
                0 <= j < i ==> ((#[trigger] out@[j]).key@ == members@[j].key@ && model_of(
                out@[j].value,
                ) == model_of(members@[j].value)),
        decreases members.len() - i,
    {
        let c = JsonMember { key: members[i].key.clone(), value: clone_value(&members[i].value) };
        out.push(c);
        i += 1;
    }
    proof {
        lemma_member_models_of(out@);
        lemma_member_models_of(members@);
        assert forall|k: int| 0 <= k < member_models_of(out@).len() implies member_models_of(
            out@,
        )[k] == member_models_of(members@)[k] by {
            assert(out@[k].key@ == members@[k].key@ && model_of(out@[k].value) == model_of(
                members@[k].value,
            ));
        }
        assert(member_models_of(out@) =~= member_models_of(members@));
    }
    out
}

} // verus!
