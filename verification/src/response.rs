//! What a call comes to: a transport outcome is settled, and a decoded
//! response is classified, as a success value or as one of three failures.
//!
//! The contracts speak of [`classification`] and [`settlement`], which are
//! plain case distinctions over the members `result` and `error` of the
//! response's model. A proof about one given response has to tell the two
//! names apart, for which there is [`lemma_member_names_differ`], and to walk
//! the members, for which `lookup` needs one unit of fuel for each member and
//! one more.

use crate::value::{lemma_lookup, lookup, JsonValue, Value};
use vstd::prelude::*;

verus! {

/// Why a call failed.
#[derive(Debug, PartialEq, Eq)]
pub enum RpcError {
    /// The transport could not deliver the request or decode the answer; the
    /// detail is the transport's own.
    Transport(String),
    /// The node answered with an error; the payload is the node's own.
    Remote(Value),
    /// The node answered with something that is neither a result nor an
    /// error.
    ProtocolViolation,
}

/// The mathematical model of an [`RpcError`].
pub enum Failure {
    Transport(Seq<char>),
    Remote(JsonValue),
    ProtocolViolation,
}

impl View for RpcError {
    type V = Failure;

    open spec fn view(&self) -> Failure {
        match self {
            RpcError::Transport(detail) => Failure::Transport(detail@),
            RpcError::Remote(payload) => Failure::Remote(payload@),
            RpcError::ProtocolViolation => Failure::ProtocolViolation,
        }
    }
}

/// The name of the member that carries a success value.
pub open spec fn result_name() -> Seq<char> {
    "result"@
}

/// The name of the member that carries an error payload.
pub open spec fn error_name() -> Seq<char> {
    "error"@
}

/// The model of what a transport hands back: the decoded response, or the
/// detail of its failure.
pub open spec fn delivery_model(delivery: Result<Value, String>) -> Result<JsonValue, Seq<char>> {
    match delivery {
        Ok(response) => Ok(response@),
        Err(detail) => Err(detail@),
    }
}

/// The model of what a call returns.
pub open spec fn outcome_model(outcome: Result<Value, RpcError>) -> Result<JsonValue, Failure> {
    match outcome {
        Ok(value) => Ok(value@),
        Err(error) => Err(error@),
    }
}

/// Whether `member` is there and is not `null`.
pub open spec fn is_set(member: Option<JsonValue>) -> bool {
    member matches Some(value) && !(value is Null)
}

/// What a decoded response means.
///
/// An `error` member counts where it is set, a `result` member wherever it
/// is present, `null` included. With the error set and no result set, the
/// call failed at the node and the payload is handed on as it came. With no
/// error set, the call succeeded with the result. Anything else breaks the
/// protocol: neither of the two, both of them set, or no object at all.
pub open spec fn classification(response: JsonValue) -> Result<JsonValue, Failure> {
    let error = response.member(error_name());
    let result = response.member(result_name());
    if is_set(error) {
        if is_set(result) {
            Err(Failure::ProtocolViolation)
        } else {
            Err(Failure::Remote(error->0))
        }
    } else {
        match result {
            Some(value) => Ok(value),
            None => Err(Failure::ProtocolViolation),
        }
    }
}

/// What a transport's delivery means: its failure is handed on with its
/// detail and nothing is classified; its response is classified.
pub open spec fn settlement(delivery: Result<JsonValue, Seq<char>>) -> Result<JsonValue, Failure> {
    match delivery {
        Ok(response) => classification(response),
        Err(detail) => Err(Failure::Transport(detail)),
    }
}

/// What a call returns holds nothing but well-formed values: the success
/// value is well formed, and so is the payload of a remote error.
pub open spec fn outcome_well_formed(outcome: Result<JsonValue, Failure>) -> bool {
    match outcome {
        Ok(value) => value.well_formed(),
        Err(Failure::Remote(payload)) => payload.well_formed(),
        Err(_) => true,
    }
}

/// Classifies a decoded response. What is taken out of a well-formed
/// response is well formed.
pub fn classify(response: &Value) -> (outcome: Result<Value, RpcError>)
    ensures
        outcome_model(outcome) == classification(response@),
        response@.well_formed() ==> outcome_well_formed(outcome_model(outcome)),
{
    proof {
        if response@.well_formed() {
            lemma_classification_well_formed(response@);
        }
    }
    let error = response.get("error");
    let result = response.get("result");
    match error {
        Some(payload) if !payload.is_null() => match result {
            Some(value) if !value.is_null() => Err(RpcError::ProtocolViolation),
            _ => Err(RpcError::Remote(payload.clone())),
        },
        _ => match result {
            Some(value) => Ok(value.clone()),
            None => Err(RpcError::ProtocolViolation),
        },
    }
}

/// Settles what the transport handed back. What is taken out of a
/// well-formed response is well formed.
pub fn settle(delivery: Result<Value, String>) -> (outcome: Result<Value, RpcError>)
    ensures
        outcome_model(outcome) == settlement(delivery_model(delivery)),
        (delivery matches Ok(response) ==> response@.well_formed()) ==> outcome_well_formed(
            outcome_model(outcome),
        ),
{
    match delivery {
        Ok(response) => classify(&response),
        Err(detail) => Err(RpcError::Transport(detail)),
    }
}

/// The two member names that decide a classification are different names.
pub proof fn lemma_member_names_differ()
    ensures
        result_name() != error_name(),
{
    reveal_strlit("result");
    reveal_strlit("error");
    assert(result_name().len() != error_name().len());
}

/// Every response is classified as one thing: a success value or a failure,
/// and a classified response never fails as a transport does.
pub proof fn lemma_classification_exclusive(response: JsonValue)
    ensures
        (classification(response) is Ok) != (classification(response) is Err),
        classification(response) matches Err(failure) ==> !(failure is Transport),
{
}

/// A response that is an object with the one member `result` succeeds with
/// that member's value, whatever it is, `null` included.
pub proof fn lemma_result_succeeds(value: JsonValue)
    ensures
        classification(JsonValue::Object(seq![(result_name(), value)])) == Ok::<
            JsonValue,
            Failure,
        >(value),
{
    lemma_member_names_differ();
    let members = seq![(result_name(), value)];
    assert(members.last() == (result_name(), value));
    assert(lookup(members, error_name()) is None) by {
        reveal_with_fuel(lookup, 2);
    }
}

/// A response that is an object with the one member `error`, not `null`,
/// fails as a remote error that carries the member's value unchanged.
pub proof fn lemma_error_fails_remote(payload: JsonValue)
    requires
        !(payload is Null),
    ensures
        classification(JsonValue::Object(seq![(error_name(), payload)])) == Err::<
            JsonValue,
            Failure,
        >(Failure::Remote(payload)),
{
    lemma_member_names_differ();
    let members = seq![(error_name(), payload)];
    assert(members.last() == (error_name(), payload));
    assert(lookup(members, result_name()) is None) by {
        reveal_with_fuel(lookup, 2);
    }
}

/// A response with neither a `result` member nor an `error` member breaks
/// the protocol: it is no success, and no remote error either.
pub proof fn lemma_neither_breaks_protocol(response: JsonValue)
    requires
        response.member(result_name()) is None,
        response.member(error_name()) is None,
    ensures
        classification(response) == Err::<JsonValue, Failure>(Failure::ProtocolViolation),
{
}

/// A response that is no object has no members, and so breaks the protocol.
pub proof fn lemma_no_object_breaks_protocol(response: JsonValue)
    requires
        !(response is Object),
    ensures
        classification(response) == Err::<JsonValue, Failure>(Failure::ProtocolViolation),
{
}

/// What is taken out of a well-formed response is well formed: the success
/// value, and the payload of a remote error.
pub proof fn lemma_classification_well_formed(response: JsonValue)
    requires
        response.well_formed(),
    ensures
        outcome_well_formed(classification(response)),
{
    if response is Object {
        let members = response->Object_0;
        lemma_lookup(members, result_name());
        lemma_lookup(members, error_name());
    }
}

/// A transport failure settles as a transport error with the same detail,
/// whatever a response might have held: it is no success and no remote
/// error.
pub proof fn lemma_transport_failure_settles(detail: Seq<char>)
    ensures
        settlement(Err(detail)) == Err::<JsonValue, Failure>(Failure::Transport(detail)),
{
}

} // verus!
