//! JSON values as a tagged variant, with their mathematical model.
//!
//! [`Value`] is what executable code holds; [`JsonValue`] is what contracts
//! speak of. The view of a `Value` replaces every string by its sequence of
//! characters and every vector by a sequence, all the way down.
//!
//! The view is recursive: a proof about a value that is written out unfolds
//! [`model_of`] once for each level of nesting, with fuel or with
//! [`lemma_array_model`] and [`lemma_object_model`].

use vstd::prelude::*;

verus! {

/// A JSON number, kept without loss: a non-negative integer, a negative
/// integer, or the IEEE-754 bit pattern of a double.
#[derive(Clone, Copy, Debug, PartialEq, Eq)]
pub enum Number {
    PosInt(u64),
    NegInt(i64),
    Float { bits: u64 },
}

/// Whether `bits`, read as an IEEE-754 double, is neither an infinity nor a
/// NaN: the eleven exponent bits are not all set.
pub open spec fn finite_bits(bits: u64) -> bool {
    (bits >> 52u64) & 0x7ffu64 != 0x7ffu64
}

impl Number {
    /// Each number has one representation: an integer below zero is a
    /// `NegInt`, any other integer is a `PosInt`, and a `Float` is finite.
    pub open spec fn well_formed(self) -> bool {
        match self {
            Number::PosInt(_) => true,
            Number::NegInt(n) => n < 0,
            Number::Float { bits } => finite_bits(bits),
        }
    }

    /// The number `n`.
    pub fn from_u64(n: u64) -> (number: Number)
        ensures
            number == Number::PosInt(n),
            number.well_formed(),
    {
        Number::PosInt(n)
    }

    /// The number `n`, in its one representation.
    pub fn from_i64(n: i64) -> (number: Number)
        ensures
            n < 0 ==> number == Number::NegInt(n),
            n >= 0 ==> number == Number::PosInt(n as u64),
            number.well_formed(),
    {
        if n < 0 {
            Number::NegInt(n)
        } else {
            Number::PosInt(n as u64)
        }
    }

    /// The double with the bit pattern `bits`, unless that is an infinity or
    /// a NaN, which JSON cannot write.
    pub fn from_bits(bits: u64) -> (number: Option<Number>)
        ensures
            finite_bits(bits) ==> number == Some(Number::Float { bits }),
            !finite_bits(bits) ==> number is None,
            number matches Some(float) ==> float.well_formed(),
    {
        if (bits >> 52u64) & 0x7ffu64 != 0x7ffu64 {
            Some(Number::Float { bits })
        } else {
            None
        }
    }
}

/// A JSON value. The members of an object keep the order in which they were
/// written; where a name occurs twice, the later member is the one that
/// counts.
#[derive(Debug, PartialEq, Eq)]
pub enum Value {
    Null,
    Bool(bool),
    Number(Number),
    String(String),
    Array(Vec<Value>),
    Object(Vec<(String, Value)>),
}

/// The mathematical model of a [`Value`].
pub enum JsonValue {
    Null,
    Bool(bool),
    Number(Number),
    String(Seq<char>),
    Array(Seq<JsonValue>),
    Object(Seq<(Seq<char>, JsonValue)>),
}

/// The value of the last member of `members` that is named `name`.
pub open spec fn lookup(
    members: Seq<(Seq<char>, JsonValue)>,
    name: Seq<char>,
) -> Option<JsonValue>
    decreases members.len(),
{
    if members.len() == 0 {
        None
    } else if members.last().0 == name {
        Some(members.last().1)
    } else {
        lookup(members.drop_last(), name)
    }
}

/// No two members of `members` have the same name.
pub open spec fn distinct_names(members: Seq<(Seq<char>, JsonValue)>) -> bool {
    forall|i: int, j: int|
        0 <= i < j < members.len() ==> (#[trigger] members[i]).0 != (#[trigger] members[j]).0
}

impl JsonValue {
    /// The member `name` of an object; `None` where there is no such member
    /// or this is no object.
    pub open spec fn member(self, name: Seq<char>) -> Option<JsonValue> {
        match self {
            JsonValue::Object(members) => lookup(members, name),
            _ => None,
        }
    }

    /// Every object in the value names each of its members once, and every
    /// number in it is well formed.
    pub open spec fn well_formed(self) -> bool
        decreases self,
    {
        match self {
            JsonValue::Number(n) => n.well_formed(),
            JsonValue::Array(items) => forall|i: int|
                0 <= i < items.len() ==> (#[trigger] items[i]).well_formed(),
            JsonValue::Object(members) => distinct_names(members) && forall|i: int|
                0 <= i < members.len() ==> (#[trigger] members[i]).1.well_formed(),
            _ => true,
        }
    }
}

/// Every value in `items` is well formed.
pub open spec fn all_well_formed(items: Seq<JsonValue>) -> bool {
    forall|i: int| 0 <= i < items.len() ==> (#[trigger] items[i]).well_formed()
}

/// The models of the values in `items`, in the same order.
pub open spec fn models(items: Seq<Value>) -> Seq<JsonValue> {
    Seq::new(items.len(), |i: int| items[i]@)
}

/// The models of the members in `members`, in the same order.
pub open spec fn member_models(members: Seq<(String, Value)>) -> Seq<(Seq<char>, JsonValue)> {
    Seq::new(members.len(), |i: int| (members[i].0@, members[i].1@))
}

/// The model of `value`: strings become sequences of characters, vectors
/// become sequences, and so on into every item and member.
pub open spec fn model_of(value: Value) -> JsonValue
    decreases value,
{
    match value {
        Value::Null => JsonValue::Null,
        Value::Bool(b) => JsonValue::Bool(b),
        Value::Number(n) => JsonValue::Number(n),
        Value::String(s) => JsonValue::String(s@),
        Value::Array(items) => JsonValue::Array(
            Seq::new(
                items@.len(),
                |i: int|
                    if 0 <= i < items@.len() {
                        model_of(items@[i])
                    } else {
                        JsonValue::Null
                    },
            ),
        ),
        Value::Object(members) => JsonValue::Object(
            Seq::new(
                members@.len(),
                |i: int|
                    if 0 <= i < members@.len() {
                        (members@[i].0@, model_of(members@[i].1))
                    } else {
                        (Seq::empty(), JsonValue::Null)
                    },
            ),
        ),
    }
}

impl View for Value {
    type V = JsonValue;

    open spec fn view(&self) -> JsonValue {
        model_of(*self)
    }
}

/// The model of an array is the sequence of its items' models.
pub proof fn lemma_array_model(items: Vec<Value>)
    ensures
        Value::Array(items)@ == JsonValue::Array(models(items@)),
{
    assert(Value::Array(items)@->Array_0 =~= models(items@));
}

/// The model of an object is the sequence of its members' models.
pub proof fn lemma_object_model(members: Vec<(String, Value)>)
    ensures
        Value::Object(members)@ == JsonValue::Object(member_models(members@)),
{
    assert(Value::Object(members)@->Object_0 =~= member_models(members@));
}

/// `lookup` finds a member exactly where the name occurs, and then gives the
/// value at the name's last occurrence.
pub proof fn lemma_lookup(members: Seq<(Seq<char>, JsonValue)>, name: Seq<char>)
    ensures
        lookup(members, name) is None <==> forall|i: int|
            0 <= i < members.len() ==> (#[trigger] members[i]).0 != name,
        lookup(members, name) matches Some(value) ==> exists|i: int|
            0 <= i < members.len() && (#[trigger] members[i]) == (name, value) && forall|j: int|
                i < j < members.len() ==> (#[trigger] members[j]).0 != name,
    decreases members.len(),
{
    if members.len() > 0 {
        let rest = members.drop_last();
        let last = members.len() - 1;
        if members.last().0 == name {
            assert(members[last] == (name, members.last().1));
        } else {
            lemma_lookup(rest, name);
            assert forall|i: int| 0 <= i < rest.len() implies rest[i] == members[i] by {}
            if lookup(rest, name) is None {
                assert forall|i: int| 0 <= i < members.len() implies (#[trigger] members[i]).0
                    != name by {
                    if i < last {
                        assert(rest[i].0 != name);
                    }
                }
            } else {
                let value = lookup(rest, name)->0;
                let i = choose|i: int|
                    0 <= i < rest.len() && (#[trigger] rest[i]) == (name, value) && forall|j: int|
                        i < j < rest.len() ==> (#[trigger] rest[j]).0 != name;
                assert(members[i] == (name, value));
                assert forall|j: int| i < j < members.len() implies (#[trigger] members[j]).0
                    != name by {
                    if j < last {
                        assert(rest[j].0 != name);
                    }
                }
            }
        }
    }
}

impl Value {
    /// Whether this is the JSON `null`.
    pub fn is_null(&self) -> (null: bool)
        ensures
            null == (self@ is Null),
    {
        match self {
            Value::Null => true,
            _ => false,
        }
    }

    /// The member `name` of an object: the later one where the name occurs
    /// twice, `None` where it does not occur or this is no object.
    pub fn get(&self, name: &str) -> (found: Option<&Value>)
        ensures
            found is Some == self@.member(name@) is Some,
            found matches Some(value) ==> self@.member(name@) == Some(value@),
    {
        match self {
            Value::Object(members) => {
                let wanted = name.to_owned();
                let ghost all = member_models(members@);
                proof {
                    lemma_object_model(*members);
                    assert(all.take(all.len() as int) =~= all);
                }
                let mut i: usize = members.len();
                while i > 0
                    invariant
                        i <= members.len(),
                        wanted@ == name@,
                        all == member_models(members@),
                        self@ == JsonValue::Object(all),
                        lookup(all, name@) == lookup(all.take(i as int), name@),
                    decreases i,
                {
                    i -= 1;
                    proof {
                        let upto = all.take(i + 1);
                        assert(upto.last() == (members@[i as int].0@, members@[i as int].1@));
                        assert(upto.drop_last() =~= all.take(i as int));
                    }
                    if members[i].0 == wanted {
                        return Some(&members[i].1);
                    }
                }
                None
            },
            _ => None,
        }
    }
}

impl Clone for Value {
    /// A copy of the whole value, with the same model.
    fn clone(&self) -> (copy: Value)
        ensures
            copy@ == self@,
        decreases self,
    {
        match self {
            Value::Null => Value::Null,
            Value::Bool(b) => Value::Bool(*b),
            Value::Number(n) => Value::Number(*n),
            Value::String(s) => Value::String(s.clone()),
            Value::Array(items) => {
                let mut copies: Vec<Value> = Vec::new();
                let mut i: usize = 0;
                while i < items.len()
                    invariant
                        i <= items.len(),
                        *self == Value::Array(*items),
                        copies.len() == i,
                        forall|j: int| 0 <= j < i ==> copies@[j]@ == items@[j]@,
                    decreases items.len() - i,
                {
                    assert(self->Array_0 == *items);
                    assert(decreases_to!(self => items[i as int]));
                    copies.push(items[i].clone());
                    i += 1;
                }
                proof {
                    lemma_array_model(copies);
                    lemma_array_model(*items);
                    assert(models(copies@) =~= models(items@));
                }
                Value::Array(copies)
            },
            Value::Object(members) => {
                let mut copies: Vec<(String, Value)> = Vec::new();
                let mut i: usize = 0;
                while i < members.len()
                    invariant
                        i <= members.len(),
                        *self == Value::Object(*members),
                        copies.len() == i,
                        forall|j: int|
                            0 <= j < i ==> copies@[j].0@ == members@[j].0@ && copies@[j].1@
                                == members@[j].1@,
                    decreases members.len() - i,
                {
                    assert(self->Object_0 == *members);
                    assert(decreases_to!(self => members[i as int].1));
                    let name = members[i].0.clone();
                    let value = members[i].1.clone();
                    copies.push((name, value));
                    i += 1;
                }
                proof {
                    lemma_object_model(copies);
                    lemma_object_model(*members);
                    assert(member_models(copies@) =~= member_models(members@));
                }
                Value::Object(copies)
            },
        }
    }
}

} // verus!
