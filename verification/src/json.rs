//! JSON values, as requests carry them and replies bring them.
use crate::text;
use crate::text::{decimal_text, same_text};
use vstd::prelude::*;

verus! {

/// A JSON value. A number is held as its text.
#[derive(Debug, PartialEq, Eq)]
pub enum Json {
    Null,
    Bool(bool),
    Number(String),
    Text(String),
    Array(Vec<Json>),
    Object(Vec<Member>),
}

/// One member of a JSON object.
#[derive(Debug, PartialEq, Eq)]
pub struct Member {
    pub name: String,
    pub value: Json,
}

/// The mathematical content of a [`Json`] value.
pub enum JsonView {
    Null,
    Bool(bool),
    Number(Seq<char>),
    Text(Seq<char>),
    Array(Seq<JsonView>),
    Object(Seq<MemberView>),
}

/// The mathematical content of a [`Member`].
pub struct MemberView {
    pub name: Seq<char>,
    pub value: JsonView,
}

/// The content of each value.
pub open spec fn values_view(values: Seq<Json>) -> Seq<JsonView>
    decreases values,
{
    Seq::new(
        values.len(),
        |i: int|
            if 0 <= i < values.len() {
                values[i].content()
            } else {
                JsonView::Null
            },
    )
}

/// The content of each member.
pub open spec fn members_view(members: Seq<Member>) -> Seq<MemberView>
    decreases members,
{
    Seq::new(
        members.len(),
        |i: int|
            if 0 <= i < members.len() {
                MemberView { name: members[i].name@, value: members[i].value.content() }
            } else {
                MemberView { name: Seq::empty(), value: JsonView::Null }
            },
    )
}

impl Json {
    /// The mathematical content of the value.
    pub open spec fn content(self) -> JsonView
        decreases self,
    {
        match self {
            Json::Null => JsonView::Null,
            Json::Bool(b) => JsonView::Bool(b),
            Json::Number(n) => JsonView::Number(n@),
            Json::Text(t) => JsonView::Text(t@),
            Json::Array(values) => JsonView::Array(values_view(values@)),
            Json::Object(members) => JsonView::Object(members_view(members@)),
        }
    }
}

impl View for Json {
    type V = JsonView;

    open spec fn view(&self) -> JsonView {
        self.content()
    }
}

/// The value of the first member that is called `name`.
pub open spec fn member_value(members: Seq<MemberView>, name: Seq<char>) -> Option<JsonView>
    decreases members.len(),
{
    if members.len() == 0 {
        None
    } else if members[0].name == name {
        Some(members[0].value)
    } else {
        member_value(members.drop_first(), name)
    }
}

impl JsonView {
    /// The value of the member `name`, if this is an object that has it.
    pub open spec fn get(self, name: Seq<char>) -> Option<JsonView> {
        match self {
            JsonView::Object(members) => member_value(members, name),
            _ => None,
        }
    }

    /// The first element, if this is an array that has one.
    pub open spec fn first(self) -> Option<JsonView> {
        match self {
            JsonView::Array(values) => if values.len() > 0 {
                Some(values[0])
            } else {
                None
            },
            _ => None,
        }
    }

    /// The characters, if this is a text.
    pub open spec fn as_text(self) -> Option<Seq<char>> {
        match self {
            JsonView::Text(text) => Some(text),
            _ => None,
        }
    }
}

/// The content of an optional value.
pub open spec fn json_option_view(value: Option<&Json>) -> Option<JsonView> {
    match value {
        Some(value) => Some(value@),
        None => None,
    }
}

/// The characters of an optional text.
pub open spec fn str_option_view(text: Option<&str>) -> Option<Seq<char>> {
    match text {
        Some(text) => Some(text@),
        None => None,
    }
}

impl Json {
    /// The value of the member `name`, if this is an object that has it.
    pub fn get(&self, name: &str) -> (value: Option<&Json>)
        ensures
            json_option_view(value) == self@.get(name@),
    {
        match self {
            Json::Object(members) => {
                let ghost all = members_view(members@);
                let mut i: usize = 0;
                assert(all.skip(0) =~= all);
                while i < members.len()
                    invariant
                        all == members_view(members@),
                        self@ == JsonView::Object(all),
                        i <= members@.len(),
                        member_value(all, name@) == member_value(all.skip(i as int), name@),
                    decreases members@.len() - i,
                {
                    assert(all.skip(i as int)[0] == all[i as int]);
                    if same_text(members[i].name.as_str(), name) {
                        return Some(&members[i].value);
                    }
                    assert(all.skip(i as int).drop_first() =~= all.skip(i + 1));
                    i += 1;
                }
                None
            },
            _ => None,
        }
    }

    /// The first element, if this is an array that has one.
    pub fn first(&self) -> (value: Option<&Json>)
        ensures
            json_option_view(value) == self@.first(),
    {
        match self {
            Json::Array(values) => {
                if values.len() > 0 {
                    Some(&values[0])
                } else {
                    None
                }
            },
            _ => None,
        }
    }

    /// The characters, if this is a text.
    pub fn as_text(&self) -> (text: Option<&str>)
        ensures
            str_option_view(text) == self@.as_text(),
    {
        match self {
            Json::Text(text) => Some(text.as_str()),
            _ => None,
        }
    }
}

/// The object without members.
pub open spec fn object() -> JsonView {
    JsonView::Object(Seq::empty())
}

/// The array without elements.
pub open spec fn array() -> JsonView {
    JsonView::Array(Seq::empty())
}

impl JsonView {
    /// The object with one member more.
    pub open spec fn with(self, name: Seq<char>, value: JsonView) -> JsonView {
        JsonView::Object(self->Object_0.push(MemberView { name, value }))
    }

    /// The array with one element more.
    pub open spec fn and(self, value: JsonView) -> JsonView {
        JsonView::Array(self->Array_0.push(value))
    }
}

impl Json {
    /// An object without members.
    pub fn object() -> (value: Json)
        ensures
            value@ == object(),
    {
        let members: Vec<Member> = Vec::new();
        assert(members_view(members@) =~= Seq::<MemberView>::empty());
        Json::Object(members)
    }

    /// The object with one member more.
    pub fn with(self, name: &str, value: Json) -> (object: Json)
        requires
            self@ is Object,
        ensures
            object@ == self@.with(name@, value@),
    {
        match self {
            Json::Object(members) => {
                let mut members = members;
                let ghost before = members@;
                members.push(Member { name: name.to_owned(), value });
                assert(members_view(members@) =~= members_view(before).push(
                    MemberView { name: name@, value: value@ },
                ));
                Json::Object(members)
            },
            other => other,
        }
    }

    /// An array without elements.
    pub fn array() -> (value: Json)
        ensures
            value@ == array(),
    {
        let values: Vec<Json> = Vec::new();
        assert(values_view(values@) =~= Seq::<JsonView>::empty());
        Json::Array(values)
    }

    /// The array with one element more.
    pub fn and(self, value: Json) -> (array: Json)
        requires
            self@ is Array,
        ensures
            array@ == self@.and(value@),
    {
        match self {
            Json::Array(values) => {
                let mut values = values;
                let ghost before = values@;
                values.push(value);
                assert(values_view(values@) =~= values_view(before).push(value@));
                Json::Array(values)
            },
            other => other,
        }
    }

    /// A text.
    pub fn text(characters: &str) -> (value: Json)
        ensures
            value@ == JsonView::Text(characters@),
    {
        Json::Text(characters.to_owned())
    }

    /// A number without a sign.
    pub fn number(n: u64) -> (value: Json)
        ensures
            value@ == JsonView::Number(text::decimal(n as nat)),
    {
        Json::Number(decimal_text(n))
    }
}

/// The JSON value of the `serde_json` crate.
#[verifier::external_type_specification]
#[verifier::external_body]
pub struct ExValue(serde_json::Value);

/// Changes the type of a `serde_json` value, variant for variant. Nothing is
/// claimed of the result here: [`json_from_str`] names it.
#[verifier::external_body]
fn json_of(value: serde_json::Value) -> Json {
    match value {
        serde_json::Value::Null => Json::Null,
        serde_json::Value::Bool(b) => Json::Bool(b),
        serde_json::Value::Number(n) => Json::Number(n.to_string()),
        serde_json::Value::String(t) => Json::Text(t),
        serde_json::Value::Array(values) => Json::Array(values.into_iter().map(json_of).collect()),
        serde_json::Value::Object(members) => Json::Object(
            members.into_iter().map(|(name, value)| Member { name, value: json_of(value) }).collect(),
        ),
    }
}

/// What `serde_json::from_str` reads in a text: the JSON value, or the error message.
pub uninterp spec fn json_parse(text: Seq<char>) -> Result<JsonView, Seq<char>>;

/// The content of the result of reading JSON.
pub open spec fn parsed_view(parsed: Result<Json, String>) -> Result<JsonView, Seq<char>> {
    match parsed {
        Ok(value) => Ok(value@),
        Err(error) => Err(error@),
    }
}

/// `serde_json::from_str`, reading any JSON value: the value that the text
/// spells, or the error's message. The result is a function of the text.
#[verifier::external_body]
fn json_from_str(text: &str) -> (parsed: Result<Json, String>)
    ensures
        parsed_view(parsed) == json_parse(text@),
{
    serde_json::from_str::<serde_json::Value>(text).map(json_of).map_err(|error| error.to_string())
}

/// Reads the JSON value that `text` spells.
pub fn parse_json(text: &str) -> (parsed: Result<Json, String>)
    ensures
        parsed_view(parsed) == json_parse(text@),
{
    json_from_str(text)
}

/// A member that is looked up is one of the object's, the first of its name; no
/// member is found exactly if none has the name. Only objects have members.
pub proof fn law_members_are_looked_up(members: Seq<MemberView>, name: Seq<char>)
    ensures
        match JsonView::Object(members).get(name) {
            Some(value) => exists|i: int|
                0 <= i < members.len() && #[trigger] members[i] == (MemberView { name, value })
                    && forall|j: int| 0 <= j < i ==> (#[trigger] members[j]).name != name,
            None => forall|i: int| 0 <= i < members.len() ==> (#[trigger] members[i]).name != name,
        },
        forall|other: JsonView|
            !(other is Object) ==> #[trigger] other.get(name) is None,
    decreases members.len(),
{
    if members.len() > 0 {
        if members[0].name == name {
            assert(members[0] == (MemberView { name, value: members[0].value }));
        } else {
            let rest = members.drop_first();
            law_members_are_looked_up(rest, name);
            match JsonView::Object(rest).get(name) {
                Some(value) => {
                    let i = choose|i: int|
                        0 <= i < rest.len() && #[trigger] rest[i] == (MemberView { name, value })
                            && forall|j: int| 0 <= j < i ==> (#[trigger] rest[j]).name != name;
                    assert(members[i + 1] == (MemberView { name, value }));
                    assert forall|j: int| 0 <= j < i + 1 implies (#[trigger] members[j]).name
                        != name by {
                        if j > 0 {
                            assert(rest[j - 1] == members[j]);
                        }
                    }
                },
                None => {
                    assert forall|j: int| 0 <= j < members.len() implies (
                    #[trigger] members[j]).name != name by {
                        if j > 0 {
                            assert(rest[j - 1] == members[j]);
                        }
                    }
                },
            }
        }
    }
}

/// The first element of an array is the one at its front, and only a text has characters.
pub proof fn law_elements_and_texts_are_taken(values: Seq<JsonView>, text: Seq<char>)
    ensures
        values.len() > 0 ==> JsonView::Array(values).first() == Some(values[0]),
        values.len() == 0 ==> JsonView::Array(values).first() is None,
        JsonView::Text(text).as_text() == Some(text),
        forall|other: JsonView| !(other is Array) ==> #[trigger] other.first() is None,
        forall|other: JsonView| !(other is Text) ==> #[trigger] other.as_text() is None,
{
}

} // verus!
