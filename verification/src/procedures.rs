//! The procedures of the node that have a call of their own: their names on
//! the wire and the shape of their arguments.

use crate::value::{
    all_well_formed, distinct_names, finite_bits, lemma_object_model, member_models, models,
    JsonValue, Number, Value,
};
use vstd::prelude::*;

verus! {

/// Lists all identities, validated or not. Takes no argument.
pub const IDENTITIES: &'static str = "dna_identities";

/// Shows the identity of one address. Takes the address.
pub const IDENTITY: &'static str = "dna_identity";

/// Shows the current epoch. Takes no argument.
pub const EPOCH: &'static str = "dna_epoch";

/// Shows the balance of one address. Takes the address.
pub const BALANCE: &'static str = "dna_getBalance";

/// Sends coins from one address to another. Takes one object that names the
/// sender, the receiver and the amount.
pub const SEND_TRANSACTION: &'static str = "dna_sendTransaction";

/// The argument list of a call that takes one address.
pub open spec fn address_params(address: Seq<char>) -> Seq<JsonValue> {
    seq![JsonValue::String(address)]
}

/// What stands under `amount`: the number where JSON can write it, `null`
/// where it cannot, which is so of a double that is an infinity or a NaN.
pub open spec fn amount_model(amount: Number) -> JsonValue {
    if amount matches Number::Float { bits } && !finite_bits(bits) {
        JsonValue::Null
    } else {
        JsonValue::Number(amount)
    }
}

/// The argument list of a transfer: one object with the members `from`,
/// `to` and `amount`, in this order.
pub open spec fn transfer_params(from: Seq<char>, to: Seq<char>, amount: Number) -> Seq<JsonValue> {
    seq![
        JsonValue::Object(
            seq![
                ("from"@, JsonValue::String(from)),
                ("to"@, JsonValue::String(to)),
                ("amount"@, amount_model(amount)),
            ],
        ),
    ]
}

/// Builds the argument list of a call that takes no argument.
pub fn no_arguments() -> (params: Vec<Value>)
    ensures
        models(params@) == Seq::<JsonValue>::empty(),
        all_well_formed(models(params@)),
{
    let params: Vec<Value> = Vec::new();
    assert(models(params@) =~= Seq::<JsonValue>::empty());
    params
}

/// Builds the argument list of a call that takes one address. The address
/// is handed on as it is given.
pub fn address_arguments(address: &str) -> (params: Vec<Value>)
    ensures
        models(params@) == address_params(address@),
        all_well_formed(models(params@)),
{
    let mut params: Vec<Value> = Vec::new();
    params.push(Value::String(address.to_owned()));
    assert(models(params@) =~= address_params(address@));
    params
}

/// Writes the amount of a transfer: as the number that it is, or as `null`
/// where it is a double that JSON has no number for.
pub fn amount_value(amount: Number) -> (value: Value)
    ensures
        value@ == amount_model(amount),
{
    match amount {
        Number::Float { bits } => match Number::from_bits(bits) {
            Some(number) => Value::Number(number),
            None => Value::Null,
        },
        _ => Value::Number(amount),
    }
}

/// Builds the argument list of a transfer. The addresses are handed on as
/// they are given, and so is the amount, but for an infinity or a NaN, in
/// whose place `null` is sent. The argument is well formed where the amount
/// is a double or a well-formed integer.
pub fn transfer_arguments(
    from_address: &str,
    to_address: &str,
    amount: Number,
) -> (params: Vec<Value>)
    ensures
        models(params@) == transfer_params(from_address@, to_address@, amount),
        amount is Float || amount.well_formed() ==> all_well_formed(models(params@)),
{
    let ghost wanted = transfer_params(from_address@, to_address@, amount);
    let mut members: Vec<(String, Value)> = Vec::new();
    members.push(("from".to_owned(), Value::String(from_address.to_owned())));
    members.push(("to".to_owned(), Value::String(to_address.to_owned())));
    members.push(("amount".to_owned(), amount_value(amount)));
    proof {
        lemma_object_model(members);
        assert(member_models(members@) =~= wanted[0]->Object_0);
    }
    let mut params: Vec<Value> = Vec::new();
    params.push(Value::Object(members));
    proof {
        assert(models(params@) =~= wanted);
        if amount is Float || amount.well_formed() {
            lemma_transfer_well_formed(from_address@, to_address@, amount);
        }
    }
    params
}

/// An amount is written well formed where it is a double, finite or not, or
/// a well-formed integer.
pub proof fn lemma_amount_well_formed(amount: Number)
    requires
        amount is Float || amount.well_formed(),
    ensures
        amount_model(amount).well_formed(),
{
}

/// The argument of a transfer is well formed where its amount is written
/// well formed: its three members have three different names.
pub proof fn lemma_transfer_well_formed(from: Seq<char>, to: Seq<char>, amount: Number)
    requires
        amount is Float || amount.well_formed(),
    ensures
        all_well_formed(transfer_params(from, to, amount)),
{
    reveal_strlit("from");
    reveal_strlit("to");
    reveal_strlit("amount");
    lemma_amount_well_formed(amount);
    let members = transfer_params(from, to, amount)[0]->Object_0;
    assert(members[0].0.len() == 4);
    assert(members[1].0.len() == 2);
    assert(members[2].0.len() == 6);
    assert(distinct_names(members));
    assert forall|i: int| 0 <= i < members.len() implies (#[trigger] members[i]).1.well_formed() by {
        if i == 2 {
            assert(members[2].1 == amount_model(amount));
        }
    }
    assert(transfer_params(from, to, amount)[0].well_formed());
}

} // verus!
