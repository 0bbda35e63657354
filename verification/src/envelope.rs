//! The request envelope: what is built for one call, and the JSON object
//! that it is sent as.

use crate::value::{
    all_well_formed, distinct_names, lemma_array_model, lemma_object_model, lookup,
    member_models, models, JsonValue, Number, Value,
};
use vstd::prelude::*;

verus! {

/// The request id that every envelope of a client carries. Calls are not
/// told apart by it: each answer comes back on its own request.
pub const REQUEST_ID: u64 = 1;

/// What is built for one call: the secret as it was when the call was made,
/// the request id, the procedure's name and its arguments in order.
#[derive(Debug, PartialEq, Eq)]
pub struct RequestEnvelope {
    pub auth_secret: String,
    pub request_id: u64,
    pub method: String,
    pub params: Vec<Value>,
}

/// The name of the member that carries the secret.
pub open spec fn key_name() -> Seq<char> {
    "key"@
}

/// The name of the member that carries the request id.
pub open spec fn id_name() -> Seq<char> {
    "id"@
}

/// The name of the member that carries the procedure's name.
pub open spec fn method_name() -> Seq<char> {
    "method"@
}

/// The name of the member that carries the arguments.
pub open spec fn params_name() -> Seq<char> {
    "params"@
}

/// The JSON object that an envelope is sent as: four members, in this
/// order. The arguments are always there, as an array that may be empty.
pub open spec fn wire_form(
    secret: Seq<char>,
    id: u64,
    method: Seq<char>,
    params: Seq<JsonValue>,
) -> JsonValue {
    JsonValue::Object(
        seq![
            (key_name(), JsonValue::String(secret)),
            (id_name(), JsonValue::Number(Number::PosInt(id))),
            (method_name(), JsonValue::String(method)),
            (params_name(), JsonValue::Array(params)),
        ],
    )
}

impl RequestEnvelope {
    /// The JSON object that this envelope is sent as.
    pub open spec fn wire(self) -> JsonValue {
        wire_form(self.auth_secret@, self.request_id, self.method@, models(self.params@))
    }

    /// The envelope of a call of `method` with the arguments `params`, made
    /// with the secret `secret`.
    pub fn new(secret: &str, method: &str, params: Vec<Value>) -> (envelope: RequestEnvelope)
        ensures
            envelope.auth_secret@ == secret@,
            envelope.request_id == REQUEST_ID,
            envelope.method@ == method@,
            envelope.params == params,
            envelope.wire() == wire_form(secret@, REQUEST_ID, method@, models(params@)),
    {
        RequestEnvelope {
            auth_secret: secret.to_owned(),
            request_id: REQUEST_ID,
            method: method.to_owned(),
            params,
        }
    }

    /// Writes the envelope as the JSON object that is sent. The object is
    /// well formed where every argument is.
    pub fn into_value(self) -> (body: Value)
        ensures
            body@ == self.wire(),
            all_well_formed(models(self.params@)) ==> body@.well_formed(),
    {
        let ghost sent = self.wire();
        proof {
            lemma_array_model(self.params);
            if all_well_formed(models(self.params@)) {
                lemma_wire_form_well_formed(
                    self.auth_secret@,
                    self.request_id,
                    self.method@,
                    models(self.params@),
                );
            }
        }
        let mut members: Vec<(String, Value)> = Vec::new();
        members.push(("key".to_owned(), Value::String(self.auth_secret)));
        members.push(("id".to_owned(), Value::Number(Number::PosInt(self.request_id))));
        members.push(("method".to_owned(), Value::String(self.method)));
        members.push(("params".to_owned(), Value::Array(self.params)));
        proof {
            lemma_object_model(members);
            assert(member_models(members@) =~= sent->Object_0);
        }
        Value::Object(members)
    }
}

/// The four member names of an envelope differ from one another.
pub proof fn lemma_envelope_names_differ()
    ensures
        key_name() != id_name(),
        key_name() != method_name(),
        key_name() != params_name(),
        id_name() != method_name(),
        id_name() != params_name(),
        method_name() != params_name(),
{
    reveal_strlit("key");
    reveal_strlit("id");
    reveal_strlit("method");
    reveal_strlit("params");
    assert(key_name().len() == 3);
    assert(id_name().len() == 2);
    assert(method_name()[0] == 'm');
    assert(params_name()[0] == 'p');
}

/// An envelope is sent with what it was built from and nothing else: the
/// object has four members with four different names, and under those names
/// stand the secret, the request id, the procedure's name and the arguments,
/// each exactly as given.
pub proof fn lemma_wire_form_members(
    secret: Seq<char>,
    id: u64,
    method: Seq<char>,
    params: Seq<JsonValue>,
)
    ensures
        wire_form(secret, id, method, params) is Object,
        wire_form(secret, id, method, params)->Object_0.len() == 4,
        distinct_names(wire_form(secret, id, method, params)->Object_0),
        wire_form(secret, id, method, params).member(key_name()) == Some(
            JsonValue::String(secret),
        ),
        wire_form(secret, id, method, params).member(id_name()) == Some(
            JsonValue::Number(Number::PosInt(id)),
        ),
        wire_form(secret, id, method, params).member(method_name()) == Some(
            JsonValue::String(method),
        ),
        wire_form(secret, id, method, params).member(params_name()) == Some(
            JsonValue::Array(params),
        ),
{
    lemma_envelope_names_differ();
    let members = wire_form(secret, id, method, params)->Object_0;
    let three = members.drop_last();
    let two = three.drop_last();
    let one = two.drop_last();
    assert(three.last() == members[2]);
    assert(two.last() == members[1]);
    assert(one.last() == members[0]);
    reveal_with_fuel(lookup, 5);
}

/// Where every argument is well formed, so is the object that is sent.
pub proof fn lemma_wire_form_well_formed(
    secret: Seq<char>,
    id: u64,
    method: Seq<char>,
    params: Seq<JsonValue>,
)
    requires
        all_well_formed(params),
    ensures
        wire_form(secret, id, method, params).well_formed(),
{
    lemma_wire_form_members(secret, id, method, params);
    let members = wire_form(secret, id, method, params)->Object_0;
    assert(members[3].1.well_formed());
    assert forall|i: int| 0 <= i < members.len() implies (#[trigger] members[i]).1.well_formed() by {
        if i == 3 {
        }
    }
}

} // verus!
