use vstd::prelude::*;

verus! {

/// A JSON number as the decoder reads it: its value as a signed and as an
/// unsigned 64-bit integer where it is one that fits, its nearest value in
/// the price type `F`, and its decimal text.
#[derive(Debug, Clone)]
pub struct JsonNumber<F> {
    pub int: Option<i64>,
    pub uint: Option<u64>,
    pub float: F,
    pub text: String,
}

/// A decoded JSON document whose numbers carry a value of type `F`.
/// An object keeps its members in the order that the decoder hands them
/// over, which need not be the order of the text.
#[verifier::reject_recursive_types(F)]
pub enum JsonValue<F> {
    Null,
    Bool(bool),
    Number(JsonNumber<F>),
    Str(String),
    Array(Vec<JsonValue<F>>),
    Object(Vec<(String, JsonValue<F>)>),
}

/// The value of the last member of `members` named `key`: a repeated key
/// takes the value that comes last, as JSON decoders commonly do.
pub open spec fn member<F>(members: Seq<(String, JsonValue<F>)>, key: Seq<char>) -> Option<
    JsonValue<F>,
>
    decreases members.len(),
{
    if members.len() == 0 {
        None
    } else if members.last().0@ == key {
        Some(members.last().1)
    } else {
        member(members.drop_last(), key)
    }
}

/// The member `key` of an object; `None` for an absent member and for a
/// value that is not an object.
pub open spec fn field<F>(v: JsonValue<F>, key: Seq<char>) -> Option<JsonValue<F>> {
    match v {
        JsonValue::Object(members) => member(members@, key),
        _ => None,
    }
}

/// The member `key` when it is present and not null.
pub open spec fn non_null_field<F>(v: JsonValue<F>, key: Seq<char>) -> Option<JsonValue<F>> {
    match field(v, key) {
        Some(JsonValue::Null) => None,
        other => other,
    }
}

impl<F> JsonValue<F> {
    /// The member `key` of this object (the last one, if the key repeats);
    /// `None` when it is absent or this is not an object.
    pub fn get(&self, key: &str) -> (r: Option<&JsonValue<F>>)
        ensures
            r is Some <==> field(*self, key@) is Some,
            r matches Some(x) ==> field(*self, key@) == Some(*x),
    {
        match self {
            JsonValue::Object(members) => {
                assert(field(*self, key@) == member(members@, key@));
                let k = key.to_owned();
                let mut i: usize = members.len();
                assert(members@.subrange(0, i as int) =~= members@);
                while i > 0
                    invariant
                        i <= members@.len(),
                        k@ == key@,
                        field(*self, key@) == member(members@, key@),
                        member(members@, key@) == member(members@.subrange(0, i as int), key@),
                    decreases i,
                {
                    assert(members@.subrange(0, i as int).drop_last() =~= members@.subrange(
                        0,
                        i - 1,
                    ));
                    assert(members@.subrange(0, i as int).last() == members@[i - 1]);
                    if members[i - 1].0 == k {
                        return Some(&members[i - 1].1);
                    }
                    i = i - 1;
                }
                None
            },
            _ => None,
        }
    }

    /// The member `key` when it is present and not null.
    pub fn get_non_null(&self, key: &str) -> (r: Option<&JsonValue<F>>)
        ensures
            r is Some <==> non_null_field(*self, key@) is Some,
            r matches Some(x) ==> non_null_field(*self, key@) == Some(*x),
    {
        match self.get(key) {
            Some(JsonValue::Null) => None,
            other => other,
        }
    }
}

} // verus!
