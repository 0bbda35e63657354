//! The client: the node's address, the secret that authenticates each call,
//! and the calls themselves.
//!
//! A call builds its envelope from the secret as it is at that moment, hands
//! the envelope to a transport once, and settles what the transport hands
//! back. The transport is whatever can post a JSON body to an address and
//! decode the JSON answer; the client does not look inside it.

use crate::envelope::{
    id_name, key_name, lemma_wire_form_members, lemma_wire_form_well_formed, method_name,
    params_name, wire_form, RequestEnvelope, REQUEST_ID,
};
use crate::procedures::{
    address_arguments, address_params, no_arguments, transfer_arguments, transfer_params, BALANCE,
    EPOCH, IDENTITIES, IDENTITY, SEND_TRANSACTION,
};
use crate::response::{
    delivery_model, error_name, lemma_error_fails_remote, lemma_result_succeeds, outcome_model,
    result_name, settle, settlement, Failure, RpcError,
};
use crate::value::{all_well_formed, models, JsonValue, Number, Value};
use vstd::prelude::*;

verus! {

/// A client of one node. The node's address is fixed when the client is
/// made; the secret can be replaced at any time.
pub struct IdenaAPI {
    api_key: String,
    host_url: String,
}

/// The transport takes every request for `endpoint` whose body has the model
/// `body`.
pub open spec fn accepts<F: FnOnce(&str, &Value) -> Result<Value, String>>(
    transport: F,
    endpoint: Seq<char>,
    body: JsonValue,
) -> bool {
    forall|url: &str, sent: &Value|
        url@ == endpoint && sent@ == body ==> #[trigger] call_requires(transport, (url, sent))
}

/// The transport, given a request for `endpoint` whose body has the model
/// `body`, can hand back `delivery`.
pub open spec fn delivers<F: FnOnce(&str, &Value) -> Result<Value, String>>(
    transport: F,
    endpoint: Seq<char>,
    body: JsonValue,
    delivery: Result<Value, String>,
) -> bool {
    exists|url: &str, sent: &Value|
        url@ == endpoint && sent@ == body && #[trigger] call_ensures(
            transport,
            (url, sent),
            delivery,
        )
}

/// `outcome` is what a call comes to when `body` is sent to `endpoint`
/// through the transport: the settlement of something that the transport
/// can hand back for exactly that request.
pub open spec fn answers<F: FnOnce(&str, &Value) -> Result<Value, String>>(
    transport: F,
    endpoint: Seq<char>,
    body: JsonValue,
    outcome: Result<Value, RpcError>,
) -> bool {
    exists|delivery: Result<Value, String>| #[trigger]
        delivers(transport, endpoint, body, delivery) && outcome_model(outcome) == settlement(
            delivery_model(delivery),
        )
}

impl IdenaAPI {
    /// The secret that the next call is made with.
    pub closed spec fn secret(self) -> Seq<char> {
        self.api_key@
    }

    /// The address of the node.
    pub closed spec fn endpoint(self) -> Seq<char> {
        self.host_url@
    }

    /// The body that a call of `method` with the arguments `params` sends,
    /// made now.
    pub open spec fn request(self, method: Seq<char>, params: Seq<JsonValue>) -> JsonValue {
        wire_form(self.secret(), REQUEST_ID, method, params)
    }

    /// A client of the node at `host_url` that authenticates with `api_key`.
    /// Nothing is sent yet, and the address is not looked at.
    pub fn new(api_key: &str, host_url: &str) -> (api: Self)
        ensures
            api.secret() == api_key@,
            api.endpoint() == host_url@,
    {
        IdenaAPI { api_key: api_key.to_owned(), host_url: host_url.to_owned() }
    }

    /// Replaces the secret. Every call made from now on carries the new one;
    /// the address stays.
    pub fn set_api_key(&mut self, new_key: &str)
        ensures
            final(self).secret() == new_key@,
            final(self).endpoint() == old(self).endpoint(),
    {
        self.api_key = new_key.to_owned();
    }

    /// The secret that the next call is made with.
    pub fn api_key(&self) -> (key: &str)
        ensures
            key@ == self.secret(),
    {
        self.api_key.as_str()
    }

    /// The address of the node.
    pub fn host_url(&self) -> (url: &str)
        ensures
            url@ == self.endpoint(),
    {
        self.host_url.as_str()
    }

    /// Builds the envelope of a call of `method` with the arguments
    /// `params`, with the secret as it is now. It is sent as a well-formed
    /// object where every argument is well formed.
    pub fn envelope(&self, method: &str, params: Vec<Value>) -> (envelope: RequestEnvelope)
        ensures
            envelope.auth_secret@ == self.secret(),
            envelope.request_id == REQUEST_ID,
            envelope.method@ == method@,
            envelope.params == params,
            envelope.wire() == self.request(method@, models(params@)),
            all_well_formed(models(params@)) ==> envelope.wire().well_formed(),
    {
        proof {
            if all_well_formed(models(params@)) {
                lemma_wire_form_well_formed(
                    self.secret(),
                    REQUEST_ID,
                    method@,
                    models(params@),
                );
            }
        }
        RequestEnvelope::new(self.api_key.as_str(), method, params)
    }

    /// Calls the procedure `method` with the arguments `params`.
    ///
    /// The envelope is built with the secret as it is now and handed to the
    /// transport once, together with the node's address. What the transport
    /// hands back is settled: its failure becomes a transport error, its
    /// response is classified.
    pub fn invoke<F: FnOnce(&str, &Value) -> Result<Value, String>>(
        &self,
        method: &str,
        params: Vec<Value>,
        transport: F,
    ) -> (outcome: Result<Value, RpcError>)
        requires
            accepts(transport, self.endpoint(), self.request(method@, models(params@))),
        ensures
            answers(transport, self.endpoint(), self.request(method@, models(params@)), outcome),
    {
        let ghost body_model = self.request(method@, models(params@));
        let body = self.envelope(method, params).into_value();
        let url = self.host_url.as_str();
        let delivery = transport(url, &body);
        let ghost handed = delivery;
        let outcome = settle(delivery);
        proof {
            assert(call_ensures(transport, (url, &body), handed));
            assert(delivers(transport, self.endpoint(), body_model, handed));
        }
        outcome
    }

    /// Lists all identities, validated or not.
    pub fn identities<F: FnOnce(&str, &Value) -> Result<Value, String>>(
        &self,
        transport: F,
    ) -> (outcome: Result<Value, RpcError>)
        requires
            accepts(transport, self.endpoint(), self.request(IDENTITIES@, Seq::empty())),
        ensures
            answers(transport, self.endpoint(), self.request(IDENTITIES@, Seq::empty()), outcome),
    {
        self.invoke(IDENTITIES, no_arguments(), transport)
    }

    /// Shows the identity of `address`.
    pub fn identity<F: FnOnce(&str, &Value) -> Result<Value, String>>(
        &self,
        address: &str,
        transport: F,
    ) -> (outcome: Result<Value, RpcError>)
        requires
            accepts(transport, self.endpoint(), self.request(IDENTITY@, address_params(address@))),
        ensures
            answers(
                transport,
                self.endpoint(),
                self.request(IDENTITY@, address_params(address@)),
                outcome,
            ),
    {
        self.invoke(IDENTITY, address_arguments(address), transport)
    }

    /// Shows the current epoch.
    pub fn epoch<F: FnOnce(&str, &Value) -> Result<Value, String>>(
        &self,
        transport: F,
    ) -> (outcome: Result<Value, RpcError>)
        requires
            accepts(transport, self.endpoint(), self.request(EPOCH@, Seq::empty())),
        ensures
            answers(transport, self.endpoint(), self.request(EPOCH@, Seq::empty()), outcome),
    {
        self.invoke(EPOCH, no_arguments(), transport)
    }

    /// Shows the balance of `address`.
    pub fn balance<F: FnOnce(&str, &Value) -> Result<Value, String>>(
        &self,
        address: &str,
        transport: F,
    ) -> (outcome: Result<Value, RpcError>)
        requires
            accepts(transport, self.endpoint(), self.request(BALANCE@, address_params(address@))),
        ensures
            answers(
                transport,
                self.endpoint(),
                self.request(BALANCE@, address_params(address@)),
                outcome,
            ),
    {
        self.invoke(BALANCE, address_arguments(address), transport)
    }

    /// Sends `amount` from `from_address` to `to_address`. An amount that is
    /// an infinity or a NaN is sent as `null`.
    pub fn send<F: FnOnce(&str, &Value) -> Result<Value, String>>(
        &self,
        from_address: &str,
        to_address: &str,
        amount: Number,
        transport: F,
    ) -> (outcome: Result<Value, RpcError>)
        requires
            accepts(
                transport,
                self.endpoint(),
                self.request(
                    SEND_TRANSACTION@,
                    transfer_params(from_address@, to_address@, amount),
                ),
            ),
        ensures
            answers(
                transport,
                self.endpoint(),
                self.request(
                    SEND_TRANSACTION@,
                    transfer_params(from_address@, to_address@, amount),
                ),
                outcome,
            ),
    {
        self.invoke(
            SEND_TRANSACTION,
            transfer_arguments(from_address, to_address, amount),
            transport,
        )
    }
}

/// The transport, given a request for `endpoint` whose body has the model
/// `body`, hands back nothing but what has the model `delivered`.
pub open spec fn delivers_only<F: FnOnce(&str, &Value) -> Result<Value, String>>(
    transport: F,
    endpoint: Seq<char>,
    body: JsonValue,
    delivered: Result<JsonValue, Seq<char>>,
) -> bool {
    forall|delivery: Result<Value, String>| #[trigger]
        delivers(transport, endpoint, body, delivery) ==> delivery_model(delivery) == delivered
}

/// The body of a call carries the secret that the client holds when the call
/// is made, under the name `key`, beside the request id, the procedure and
/// the arguments of that call.
pub proof fn lemma_request_carries_secret(api: IdenaAPI, method: Seq<char>, params: Seq<JsonValue>)
    ensures
        api.request(method, params).member(key_name()) == Some(JsonValue::String(api.secret())),
        api.request(method, params).member(id_name()) == Some(
            JsonValue::Number(Number::PosInt(REQUEST_ID)),
        ),
        api.request(method, params).member(method_name()) == Some(JsonValue::String(method)),
        api.request(method, params).member(params_name()) == Some(JsonValue::Array(params)),
{
    lemma_wire_form_members(api.secret(), REQUEST_ID, method, params);
}

/// Replacing the secret shows in every call made afterwards and in none made
/// before. `before` is a client, `after` the same client once its secret has
/// been replaced by `new_key`: a body built from `after` carries `new_key`,
/// a body built from `before` carries the secret of its time, and the two
/// bodies differ in nothing else.
pub proof fn lemma_secret_replacement(
    before: IdenaAPI,
    after: IdenaAPI,
    new_key: Seq<char>,
    method: Seq<char>,
    params: Seq<JsonValue>,
)
    requires
        after.secret() == new_key,
        after.endpoint() == before.endpoint(),
    ensures
        after.request(method, params) == wire_form(new_key, REQUEST_ID, method, params),
        after.request(method, params).member(key_name()) == Some(JsonValue::String(new_key)),
        before.request(method, params).member(key_name()) == Some(
            JsonValue::String(before.secret()),
        ),
        after.request(method, params).member(id_name()) == before.request(method, params).member(
            id_name(),
        ),
        after.request(method, params).member(method_name()) == before.request(
            method,
            params,
        ).member(method_name()),
        after.request(method, params).member(params_name()) == before.request(
            method,
            params,
        ).member(params_name()),
{
    lemma_request_carries_secret(before, method, params);
    lemma_request_carries_secret(after, method, params);
}

/// A call comes to the settlement of what the transport hands back: where
/// the transport can hand back only `delivered` for the request, the call's
/// outcome is the settlement of `delivered`.
pub proof fn lemma_call_settles<F: FnOnce(&str, &Value) -> Result<Value, String>>(
    transport: F,
    endpoint: Seq<char>,
    body: JsonValue,
    outcome: Result<Value, RpcError>,
    delivered: Result<JsonValue, Seq<char>>,
)
    requires
        answers(transport, endpoint, body, outcome),
        delivers_only(transport, endpoint, body, delivered),
    ensures
        outcome_model(outcome) == settlement(delivered),
{
    let delivery = choose|delivery: Result<Value, String>| #[trigger]
        delivers(transport, endpoint, body, delivery) && outcome_model(outcome) == settlement(
            delivery_model(delivery),
        );
    assert(delivery_model(delivery) == delivered);
}

/// Where the node answers with an object whose one member is `result`, the
/// call succeeds with exactly that member's value, `null` included.
pub proof fn lemma_call_succeeds<F: FnOnce(&str, &Value) -> Result<Value, String>>(
    transport: F,
    endpoint: Seq<char>,
    body: JsonValue,
    outcome: Result<Value, RpcError>,
    value: JsonValue,
)
    requires
        answers(transport, endpoint, body, outcome),
        delivers_only(
            transport,
            endpoint,
            body,
            Ok(JsonValue::Object(seq![(result_name(), value)])),
        ),
    ensures
        outcome_model(outcome) == Ok::<JsonValue, Failure>(value),
{
    lemma_call_settles(
        transport,
        endpoint,
        body,
        outcome,
        Ok(JsonValue::Object(seq![(result_name(), value)])),
    );
    lemma_result_succeeds(value);
}

/// Where the node answers with an object whose one member is `error`, not
/// `null`, the call fails as a remote error that carries that member's value
/// unchanged.
pub proof fn lemma_call_fails_remote<F: FnOnce(&str, &Value) -> Result<Value, String>>(
    transport: F,
    endpoint: Seq<char>,
    body: JsonValue,
    outcome: Result<Value, RpcError>,
    payload: JsonValue,
)
    requires
        !(payload is Null),
        answers(transport, endpoint, body, outcome),
        delivers_only(
            transport,
            endpoint,
            body,
            Ok(JsonValue::Object(seq![(error_name(), payload)])),
        ),
    ensures
        outcome_model(outcome) == Err::<JsonValue, Failure>(Failure::Remote(payload)),
{
    lemma_call_settles(
        transport,
        endpoint,
        body,
        outcome,
        Ok(JsonValue::Object(seq![(error_name(), payload)])),
    );
    lemma_error_fails_remote(payload);
}

/// Where the node answers with neither a `result` nor an `error`, the call
/// fails as a protocol violation: there is no success value, and no remote
/// error.
pub proof fn lemma_call_breaks_protocol<F: FnOnce(&str, &Value) -> Result<Value, String>>(
    transport: F,
    endpoint: Seq<char>,
    body: JsonValue,
    outcome: Result<Value, RpcError>,
    response: JsonValue,
)
    requires
        response.member(result_name()) is None,
        response.member(error_name()) is None,
        answers(transport, endpoint, body, outcome),
        delivers_only(transport, endpoint, body, Ok(response)),
    ensures
        outcome_model(outcome) == Err::<JsonValue, Failure>(Failure::ProtocolViolation),
{
    lemma_call_settles(transport, endpoint, body, outcome, Ok(response));
}

/// Where the transport fails, be it that nothing was delivered or that the
/// answer was no JSON, the call fails as a transport error with the
/// transport's detail: there is no success value, and no remote error.
pub proof fn lemma_call_fails_in_transport<F: FnOnce(&str, &Value) -> Result<Value, String>>(
    transport: F,
    endpoint: Seq<char>,
    body: JsonValue,
    outcome: Result<Value, RpcError>,
    detail: Seq<char>,
)
    requires
        answers(transport, endpoint, body, outcome),
        delivers_only(transport, endpoint, body, Err(detail)),
    ensures
        outcome_model(outcome) == Err::<JsonValue, Failure>(Failure::Transport(detail)),
{
    lemma_call_settles(transport, endpoint, body, outcome, Err(detail));
}

} // verus!
