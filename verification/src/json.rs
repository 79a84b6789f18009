//! JSON documents as plain data.
use vstd::prelude::*;

verus! {

/// A JSON document.
#[derive(Debug, PartialEq, Eq)]
pub enum Json {
    Null,
    Bool(bool),
    /// A number, by its decimal text.
    Number(String),
    Text(String),
    Array(Vec<Json>),
    /// The members of an object, in the order in which they are written.
    Object(Vec<Member>),
}

/// A member of a JSON object.
#[derive(Debug, PartialEq, Eq)]
pub struct Member {
    pub name: String,
    pub value: Json,
}

/// What a [`Json`] document says.
pub enum JsonView {
    Null,
    Bool(bool),
    Number(Seq<char>),
    Text(Seq<char>),
    Array(Seq<JsonView>),
    Object(Seq<MemberView>),
}

/// What a [`Member`] says.
pub struct MemberView {
    pub name: Seq<char>,
    pub value: JsonView,
}

impl Json {
    /// What the document says.
    pub open spec fn view(&self) -> JsonView
        decreases self,
    {
        match self {
            Json::Null => JsonView::Null,
            Json::Bool(b) => JsonView::Bool(*b),
            Json::Number(text) => JsonView::Number(text@),
            Json::Text(text) => JsonView::Text(text@),
            Json::Array(items) => JsonView::Array(
                Seq::new(
                    items@.len(),
                    |i: int|
                        if 0 <= i < items@.len() {
                            items@[i].view()
                        } else {
                            JsonView::Null
                        },
                ),
            ),
            Json::Object(members) => JsonView::Object(
                Seq::new(
                    members@.len(),
                    |i: int|
                        if 0 <= i < members@.len() {
                            members@[i].view()
                        } else {
                            member(Seq::empty(), JsonView::Null)
                        },
                ),
            ),
        }
    }
}

/// The member `name` with the given value.
pub open spec fn member(name: Seq<char>, value: JsonView) -> MemberView {
    MemberView { name, value }
}

impl Member {
    /// What the member says.
    pub open spec fn view(&self) -> MemberView
        decreases self,
    {
        member(self.name@, self.value.view())
    }

    /// The member `name` with the given value.
    pub fn new(name: &str, value: Json) -> (made: Member)
        ensures
            made@ == member(name@, value@),
    {
        Member { name: name.to_string(), value }
    }
}

impl Json {
    /// The JSON string with the characters of `text`.
    pub fn text(text: &str) -> (json: Json)
        ensures
            json@ == JsonView::Text(text@),
    {
        Json::Text(text.to_string())
    }

    /// The JSON number that is written `text`.
    pub fn number(text: &str) -> (json: Json)
        ensures
            json@ == JsonView::Number(text@),
    {
        Json::Number(text.to_string())
    }

    /// The JSON array of `items`.
    pub fn array(items: Vec<Json>) -> (json: Json)
        ensures
            json@ == JsonView::Array(items@.map_values(|item: Json| item@)),
    {
        let json = Json::Array(items);
        assert(json@->Array_0 =~= items@.map_values(|item: Json| item@));
        json
    }

    /// The JSON object with the given members.
    pub fn object(members: Vec<Member>) -> (json: Json)
        ensures
            json@ == JsonView::Object(members@.map_values(|member: Member| member@)),
    {
        let json = Json::Object(members);
        assert(json@->Object_0 =~= members@.map_values(|member: Member| member@));
        json
    }
}

} // verus!
