use idena_api::envelope::RequestEnvelope;
use idena_api::procedures::{
    address_arguments, amount_value, no_arguments, transfer_arguments, BALANCE, EPOCH, IDENTITIES,
    IDENTITY, SEND_TRANSACTION,
};
use idena_api::{Number, Value, REQUEST_ID};

fn string(s: &str) -> Value {
    Value::String(s.to_string())
}

fn members(list: Vec<(&str, Value)>) -> Value {
    Value::Object(list.into_iter().map(|(name, value)| (name.to_string(), value)).collect())
}

#[test]
fn number_from_u64_is_a_positive_integer() {
    assert_eq!(Number::from_u64(0), Number::PosInt(0));
    assert_eq!(Number::from_u64(u64::MAX), Number::PosInt(u64::MAX));
}

#[test]
fn number_from_i64_has_one_representation() {
    assert_eq!(Number::from_i64(-1), Number::NegInt(-1));
    assert_eq!(Number::from_i64(i64::MIN), Number::NegInt(i64::MIN));
    assert_eq!(Number::from_i64(0), Number::PosInt(0));
    assert_eq!(Number::from_i64(i64::MAX), Number::PosInt(9223372036854775807));
    assert_eq!(Number::from_i64(-32000), Number::NegInt(-32000));
}

#[test]
fn number_from_bits_takes_finite_doubles() {
    assert_eq!(
        Number::from_bits(5.0f64.to_bits()),
        Some(Number::Float { bits: 0x4014000000000000 })
    );
    assert_eq!(Number::from_bits(0), Some(Number::Float { bits: 0 }));
    assert_eq!(
        Number::from_bits((-0.0f64).to_bits()),
        Some(Number::Float { bits: 0x8000000000000000 })
    );
    assert_eq!(
        Number::from_bits(f64::MAX.to_bits()),
        Some(Number::Float { bits: 0x7fefffffffffffff })
    );
    assert_eq!(Number::from_bits(f64::MIN_POSITIVE.to_bits() - 1).is_some(), true);
}

#[test]
fn number_from_bits_refuses_what_json_cannot_write() {
    assert_eq!(Number::from_bits(f64::INFINITY.to_bits()), None);
    assert_eq!(Number::from_bits(f64::NEG_INFINITY.to_bits()), None);
    assert_eq!(Number::from_bits(f64::NAN.to_bits()), None);
    assert_eq!(Number::from_bits(0x7ff0000000000001), None);
    assert_eq!(Number::from_bits(u64::MAX), None);
}

#[test]
fn is_null_holds_of_null_only() {
    assert!(Value::Null.is_null());
    assert!(!Value::Bool(false).is_null());
    assert!(!Value::Number(Number::PosInt(0)).is_null());
    assert!(!string("").is_null());
    assert!(!Value::Array(vec![]).is_null());
    assert!(!Value::Object(vec![]).is_null());
}

#[test]
fn get_finds_a_member_by_name() {
    let value = members(vec![("a", string("x")), ("b", Value::Null)]);
    assert_eq!(value.get("a"), Some(&string("x")));
    assert_eq!(value.get("b"), Some(&Value::Null));
    assert_eq!(value.get("c"), None);
    assert_eq!(value.get(""), None);
}

#[test]
fn get_takes_the_later_of_two_members() {
    let value = members(vec![("a", string("x")), ("b", Value::Null), ("a", string("y"))]);
    assert_eq!(value.get("a"), Some(&string("y")));
}

#[test]
fn get_finds_nothing_in_what_is_no_object() {
    assert_eq!(Value::Null.get("a"), None);
    assert_eq!(string("a").get("a"), None);
    assert_eq!(Value::Array(vec![members(vec![("a", Value::Null)])]).get("a"), None);
    assert_eq!(Value::Object(vec![]).get("a"), None);
}

#[test]
fn get_does_not_look_into_members() {
    let value = members(vec![("outer", members(vec![("inner", Value::Null)]))]);
    assert_eq!(value.get("inner"), None);
}

#[test]
fn clone_copies_the_whole_value() {
    let value = members(vec![
        ("s", string("text")),
        ("n", Value::Number(Number::Float { bits: 1.5f64.to_bits() })),
        ("a", Value::Array(vec![Value::Null, Value::Bool(true), Value::Array(vec![])])),
        ("o", members(vec![("deep", Value::Array(vec![members(vec![("x", Value::Null)])]))])),
    ]);
    let copy = value.clone();
    assert_eq!(copy, value);
}

#[test]
fn clone_copies_scalars() {
    assert_eq!(Value::Null.clone(), Value::Null);
    assert_eq!(Value::Bool(true).clone(), Value::Bool(true));
    assert_eq!(Value::Number(Number::NegInt(-3)).clone(), Value::Number(Number::NegInt(-3)));
    assert_eq!(string("abc").clone(), string("abc"));
}

#[test]
fn request_id_is_one() {
    assert_eq!(REQUEST_ID, 1);
}

#[test]
fn envelope_holds_its_four_parts() {
    let envelope = RequestEnvelope::new("secret", "dna_identity", vec![string("0xABC")]);
    assert_eq!(
        envelope,
        RequestEnvelope {
            auth_secret: "secret".to_string(),
            request_id: 1,
            method: "dna_identity".to_string(),
            params: vec![string("0xABC")],
        }
    );
}

#[test]
fn envelope_is_written_as_four_members() {
    let envelope = RequestEnvelope::new("secret", "dna_identity", vec![string("0xABC")]);
    assert_eq!(
        envelope.into_value(),
        members(vec![
            ("key", string("secret")),
            ("id", Value::Number(Number::PosInt(1))),
            ("method", string("dna_identity")),
            ("params", Value::Array(vec![string("0xABC")])),
        ])
    );
}

#[test]
fn envelope_is_written_with_the_id_it_holds() {
    let envelope = RequestEnvelope {
        auth_secret: String::new(),
        request_id: 77,
        method: String::new(),
        params: vec![],
    };
    assert_eq!(
        envelope.into_value(),
        members(vec![
            ("key", string("")),
            ("id", Value::Number(Number::PosInt(77))),
            ("method", string("")),
            ("params", Value::Array(vec![])),
        ])
    );
}

#[test]
fn written_envelope_is_found_again_by_name() {
    let body = RequestEnvelope::new("secret", "dna_epoch", vec![]).into_value();
    assert_eq!(body.get("key"), Some(&string("secret")));
    assert_eq!(body.get("id"), Some(&Value::Number(Number::PosInt(1))));
    assert_eq!(body.get("method"), Some(&string("dna_epoch")));
    assert_eq!(body.get("params"), Some(&Value::Array(vec![])));
    assert_eq!(body.get("result"), None);
}

#[test]
fn procedure_names_are_those_of_the_node() {
    assert_eq!(IDENTITIES, "dna_identities");
    assert_eq!(IDENTITY, "dna_identity");
    assert_eq!(EPOCH, "dna_epoch");
    assert_eq!(BALANCE, "dna_getBalance");
    assert_eq!(SEND_TRANSACTION, "dna_sendTransaction");
}

#[test]
fn no_arguments_is_empty() {
    assert_eq!(no_arguments(), Vec::<Value>::new());
}

#[test]
fn address_arguments_is_the_one_address() {
    assert_eq!(address_arguments("0xABC"), vec![string("0xABC")]);
}

#[test]
fn transfer_arguments_is_one_object() {
    let amount = Number::Float { bits: 5.0f64.to_bits() };
    assert_eq!(
        transfer_arguments("0xA", "0xB", amount),
        vec![members(vec![
            ("from", string("0xA")),
            ("to", string("0xB")),
            ("amount", Value::Number(amount)),
        ])]
    );
}

#[test]
fn transfer_arguments_writes_null_for_a_nan() {
    let amount = Number::Float { bits: f64::NAN.to_bits() };
    assert_eq!(
        transfer_arguments("0xA", "0xB", amount),
        vec![members(vec![("from", string("0xA")), ("to", string("0xB")), ("amount", Value::Null)])]
    );
}

#[test]
fn transfer_arguments_writes_null_for_an_infinity() {
    for double in [f64::INFINITY, f64::NEG_INFINITY] {
        let amount = Number::Float { bits: double.to_bits() };
        assert_eq!(
            transfer_arguments("0xA", "0xB", amount),
            vec![members(vec![
                ("from", string("0xA")),
                ("to", string("0xB")),
                ("amount", Value::Null),
            ])]
        );
    }
}

#[test]
fn transfer_arguments_keeps_integer_amounts() {
    for amount in [Number::PosInt(0), Number::PosInt(u64::MAX), Number::NegInt(-7)] {
        assert_eq!(
            transfer_arguments("0xA", "0xB", amount),
            vec![members(vec![
                ("from", string("0xA")),
                ("to", string("0xB")),
                ("amount", Value::Number(amount)),
            ])]
        );
    }
}

#[test]
fn amount_value_is_the_number_where_json_can_write_it() {
    let largest = Number::Float { bits: f64::MAX.to_bits() };
    let zero = Number::Float { bits: (-0.0f64).to_bits() };
    assert_eq!(amount_value(largest), Value::Number(largest));
    assert_eq!(amount_value(zero), Value::Number(zero));
    assert_eq!(amount_value(Number::PosInt(5)), Value::Number(Number::PosInt(5)));
    assert_eq!(amount_value(Number::NegInt(-5)), Value::Number(Number::NegInt(-5)));
}

#[test]
fn amount_value_is_null_where_json_cannot_write_it() {
    assert_eq!(amount_value(Number::Float { bits: f64::NAN.to_bits() }), Value::Null);
    assert_eq!(amount_value(Number::Float { bits: f64::INFINITY.to_bits() }), Value::Null);
    assert_eq!(amount_value(Number::Float { bits: f64::NEG_INFINITY.to_bits() }), Value::Null);
    assert_eq!(amount_value(Number::Float { bits: 0x7ff0000000000001 }), Value::Null);
    assert_eq!(amount_value(Number::Float { bits: u64::MAX }), Value::Null);
}
