//! Structured facts for the audit trail and for notifications.
//!
//! A value here is what a JSON document holds. Its meaning is a [`Doc`], and
//! every function that records facts says which document it records.

use vstd::prelude::*;

use crate::clock::Timestamp;

verus! {

/// What a JSON document says. The members of an object stand in the order in
/// which they were added.
pub enum Doc {
    Null,
    Bool(bool),
    Number(int),
    /// A fraction, by the bits of its IEEE 754 double.
    Ratio(u64),
    Text(Seq<char>),
    /// A moment, in nanoseconds since the start of 1970.
    Moment(int),
    List(Seq<Doc>),
    /// The names, and the value of each.
    Object(Seq<Seq<char>>, Seq<Doc>),
}

impl Doc {
    /// The object with one more member.
    pub open spec fn with(self, name: Seq<char>, value: Doc) -> Doc {
        Doc::Object(self->Object_0.push(name), self->Object_1.push(value))
    }

    /// The text, or null where there is none.
    pub open spec fn text_or_null(text: Option<Seq<char>>) -> Doc {
        match text {
            Some(t) => Doc::Text(t),
            None => Doc::Null,
        }
    }
}

/// The object without members.
pub open spec fn no_facts() -> Doc {
    Doc::Object(Seq::empty(), Seq::empty())
}

/// The object with one member.
pub open spec fn fact(name: Seq<char>, value: Doc) -> Doc {
    no_facts().with(name, value)
}

/// A JSON value.
#[derive(Debug, PartialEq, Eq)]
pub enum Json {
    Null,
    Bool(bool),
    Signed(i64),
    Unsigned(u64),
    /// A fraction, by the bits of its IEEE 754 double.
    Ratio(u64),
    Text(String),
    Moment(Timestamp),
    List(Vec<Json>),
    /// The names, and the value of each.
    Object(Vec<String>, Vec<Json>),
}

/// What the values of a list say.
pub open spec fn docs(items: Seq<Json>) -> Seq<Doc> {
    items.map_values(|item: Json| item.doc())
}

impl Json {
    /// What the value says.
    pub open spec fn doc(self) -> Doc
        decreases self,
    {
        match self {
            Json::Null => Doc::Null,
            Json::Bool(b) => Doc::Bool(b),
            Json::Signed(n) => Doc::Number(n as int),
            Json::Unsigned(n) => Doc::Number(n as int),
            Json::Ratio(bits) => Doc::Ratio(bits),
            Json::Text(s) => Doc::Text(s@),
            Json::Moment(t) => Doc::Moment(t.unix_nanos as int),
            Json::List(items) => Doc::List(
                Seq::new(
                    items@.len(),
                    |i: int|
                        if 0 <= i < items@.len() {
                            items@[i].doc()
                        } else {
                            arbitrary()
                        },
                ),
            ),
            Json::Object(names, values) => Doc::Object(
                crate::text::texts(names@),
                Seq::new(
                    values@.len(),
                    |i: int|
                        if 0 <= i < values@.len() {
                            values@[i].doc()
                        } else {
                            arbitrary()
                        },
                ),
            ),
        }
    }

    pub fn text(s: &str) -> (r: Json)
        ensures
            r.doc() == Doc::Text(s@),
    {
        Json::Text(s.to_owned())
    }

    /// The text, or null where there is none.
    pub fn text_or_null(s: Option<&str>) -> (r: Json)
        ensures
            r.doc() == Doc::text_or_null(
                match s {
                    Some(t) => Some(t@),
                    None => None,
                },
            ),
    {
        match s {
            Some(t) => Json::Text(t.to_owned()),
            None => Json::Null,
        }
    }

    pub fn count(n: usize) -> (r: Json)
        ensures
            r.doc() == Doc::Number(n as int),
    {
        Json::Unsigned(n as u64)
    }

    pub fn list(items: Vec<Json>) -> (r: Json)
        ensures
            r.doc() == Doc::List(docs(items@)),
    {
        let r = Json::List(items);
        assert(r.doc()->List_0 =~= docs(items@));
        r
    }

    pub fn object() -> (r: Json)
        ensures
            r.doc() == no_facts(),
            r is Object,
    {
        let r = Json::Object(Vec::new(), Vec::new());
        assert(r.doc()->Object_0 =~= Seq::<Seq<char>>::empty());
        assert(r.doc()->Object_1 =~= Seq::<Doc>::empty());
        r
    }

    /// The object with one more member.
    pub fn with(self, name: &str, value: Json) -> (r: Json)
        requires
            self is Object,
        ensures
            r.doc() == self.doc().with(name@, value.doc()),
            r is Object,
    {
        match self {
            Json::Object(names, values) => {
                let mut all_names = names;
                let mut all_values = values;
                all_names.push(name.to_owned());
                all_values.push(value);
                let r = Json::Object(all_names, all_values);
                proof {
                    let before = self.doc();
                    assert(r.doc()->Object_0 =~= before->Object_0.push(name@));
                    assert(r.doc()->Object_1 =~= before->Object_1.push(value.doc()));
                }
                r
            },
            other => other,
        }
    }

    /// An object with one member.
    pub fn fact(name: &str, value: Json) -> (r: Json)
        ensures
            r.doc() == fact(name@, value.doc()),
            r is Object,
    {
        Json::object().with(name, value)
    }
}

} // verus!
