//! JSON values as the RPC layer reads and writes them. Text is turned into
//! values and back at the transport edge; everything here works on values.
use vstd::prelude::*;

verus! {

/// A JSON value. Numbers that fit an `i64` are held as integers; any other
/// number is held as its decimal text.
#[derive(Debug)]
pub enum JsonValue {
    Null,
    Bool(bool),
    Number(i64),
    Decimal(String),
    Str(String),
    Array(Vec<JsonValue>),
    Object(Vec<(String, JsonValue)>),
}

/// Whether `i` is the first position of `fields` whose key is `key`.
pub open spec fn first_key_at(fields: Seq<(String, JsonValue)>, key: Seq<char>, i: int) -> bool {
    &&& 0 <= i < fields.len()
    &&& fields[i].0@ == key
    &&& forall|j: int| 0 <= j < i ==> (#[trigger] fields[j]).0@ != key
}

impl JsonValue {
    /// The member `key` of an object: the value of the first entry with that
    /// key. Nothing for a missing key or a value that is not an object.
    pub open spec fn member(self, key: Seq<char>) -> Option<JsonValue> {
        match self {
            JsonValue::Object(fields) => if exists|i: int| first_key_at(fields@, key, i) {
                Some(fields@[choose|i: int| first_key_at(fields@, key, i)].1)
            } else {
                None
            },
            _ => None,
        }
    }

    /// The text of a string value.
    pub open spec fn text(self) -> Option<Seq<char>> {
        match self {
            JsonValue::Str(s) => Some(s@),
            _ => None,
        }
    }

    /// The text of member `key`, when that member is a string.
    pub open spec fn member_text(self, key: Seq<char>) -> Option<Seq<char>> {
        match self.member(key) {
            Some(v) => v.text(),
            None => None,
        }
    }

    /// The integer of member `key`, when that member is an integer.
    pub open spec fn member_int(self, key: Seq<char>) -> Option<i64> {
        match self.member(key) {
            Some(JsonValue::Number(n)) => Some(n),
            _ => None,
        }
    }

    /// Whether member `key` is absent or null.
    pub open spec fn member_void(self, key: Seq<char>) -> bool {
        match self.member(key) {
            None => true,
            Some(JsonValue::Null) => true,
            _ => false,
        }
    }

    /// The member `key` of an object.
    pub fn get(&self, key: &str) -> (r: Option<&JsonValue>)
        ensures
            match r {
                Some(v) => self.member(key@) == Some(*v),
                None => self.member(key@) is None,
            },
    {
        match self {
            JsonValue::Object(fields) => {
                let mut i: usize = 0;
                while i < fields.len()
                    invariant
                        *self == JsonValue::Object(*fields),
                        i <= fields@.len(),
                        forall|j: int| 0 <= j < i ==> (#[trigger] fields@[j]).0@ != key@,
                    decreases fields.len() - i,
                {
                    if text_is(&fields[i].0, key) {
                        proof {
                            assert(first_key_at(fields@, key@, i as int));
                            let c = choose|c: int| first_key_at(fields@, key@, c);
                            if c < i {
                                assert(fields@[c].0@ != key@);
                            } else if c > i {
                                assert(fields@[i as int].0@ != key@);
                            }
                        }
                        return Some(&fields[i].1);
                    }
                    i += 1;
                }
                None
            },
            _ => None,
        }
    }

    /// The text of member `key`, when that member is a string.
    pub fn get_text(&self, key: &str) -> (r: Option<String>)
        ensures
            match r {
                Some(s) => self.member_text(key@) == Some(s@),
                None => self.member_text(key@) is None,
            },
    {
        match self.get(key) {
            Some(JsonValue::Str(s)) => Some(s.clone()),
            _ => None,
        }
    }

    /// The integer of member `key`, when that member is an integer.
    pub fn get_int(&self, key: &str) -> (r: Option<i64>)
        ensures
            r == self.member_int(key@),
    {
        match self.get(key) {
            Some(JsonValue::Number(n)) => Some(*n),
            _ => None,
        }
    }
}

/// Whether `s` holds exactly the text `lit`.
pub fn text_is(s: &String, lit: &str) -> (r: bool)
    ensures
        r == (s@ == lit@),
{
    let l = String::from_str(lit);
    s.eq(&l)
}

/// A string value holding `s`.
pub fn str_value(s: &str) -> (r: JsonValue)
    ensures
        r.text() == Some(s@),
{
    JsonValue::Str(String::from_str(s))
}

} // verus!
