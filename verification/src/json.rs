//! JSON values, as event bodies hold them.
use vstd::prelude::*;

use crate::text::views;

verus! {

broadcast use vstd::string::group_string_axioms;

/// What a JSON value is: an object is a map, so neither the order of its members nor a member
/// that a later one of the same name replaces is part of it.
pub enum JsonView {
    Null,
    Bool(bool),
    Number(int),
    String(Seq<char>),
    Array(Seq<JsonView>),
    Object(Map<Seq<char>, JsonView>),
}

/// A JSON value without fractions. Where an object names a member twice, the later one counts.
#[derive(Debug, PartialEq, Eq)]
pub enum Json {
    Null,
    Bool(bool),
    Number(i128),
    String(String),
    Array(Vec<Json>),
    Object(Vec<JsonMember>),
}

/// A member of a JSON object.
#[derive(Debug, PartialEq, Eq)]
pub struct JsonMember {
    pub name: String,
    pub value: Json,
}

/// The value that a `Json` stands for.
pub open spec fn json_view(j: Json) -> JsonView
    decreases j,
{
    match j {
        Json::Null => JsonView::Null,
        Json::Bool(b) => JsonView::Bool(b),
        Json::Number(n) => JsonView::Number(n as int),
        Json::String(s) => JsonView::String(s@),
        Json::Array(items) => JsonView::Array(json_views(items@)),
        Json::Object(members) => JsonView::Object(members_view(members@)),
    }
}

/// The values that a sequence of `Json` stands for.
pub open spec fn json_views(items: Seq<Json>) -> Seq<JsonView>
    decreases items,
{
    if items.len() == 0 {
        Seq::empty()
    } else {
        json_views(items.drop_last()).push(json_view(items.last()))
    }
}

/// The map that the members of an object stand for: a later member replaces an earlier one.
pub open spec fn members_view(members: Seq<JsonMember>) -> Map<Seq<char>, JsonView>
    decreases members,
{
    if members.len() == 0 {
        Map::empty()
    } else {
        members_view(members.drop_last()).insert(
            members.last().name@,
            json_view(members.last().value),
        )
    }
}

impl View for Json {
    type V = JsonView;

    open spec fn view(&self) -> JsonView {
        json_view(*self)
    }
}

/// Appends an item to an array under construction.
pub fn push_item(items: &mut Vec<Json>, item: Json)
    ensures
        json_views(final(items)@) == json_views(old(items)@).push(item@),
{
    let ghost before = items@;
    items.push(item);
    assert(items@.drop_last() =~= before);
}

/// Sets a member of an object under construction.
pub fn set_member(members: &mut Vec<JsonMember>, name: String, value: Json)
    ensures
        members_view(final(members)@) == members_view(old(members)@).insert(name@, value@),
{
    let ghost before = members@;
    members.push(JsonMember { name, value });
    assert(members@.drop_last() =~= before);
}

/// Sets a member of an object under construction to a text.
pub fn put_text(members: &mut Vec<JsonMember>, name: &str, value: &str)
    ensures
        members_view(final(members)@) == members_view(old(members)@).insert(
            name@,
            JsonView::String(value@),
        ),
{
    set_member(members, name.to_owned(), Json::String(value.to_owned()));
}

/// Sets a member of an object under construction to a number.
pub fn put_number(members: &mut Vec<JsonMember>, name: &str, value: i128)
    ensures
        members_view(final(members)@) == members_view(old(members)@).insert(
            name@,
            JsonView::Number(value as int),
        ),
{
    set_member(members, name.to_owned(), Json::Number(value));
}

/// Texts as a JSON array.
pub open spec fn texts_json(texts: Seq<Seq<char>>) -> JsonView {
    JsonView::Array(texts.map_values(|t: Seq<char>| JsonView::String(t)))
}

/// Texts as a JSON array.
pub fn json_of_texts(texts: &[String]) -> (r: Json)
    ensures
        r@ == texts_json(views(texts@)),
{
    let mut items: Vec<Json> = Vec::new();
    let ghost all = views(texts@).map_values(|t: Seq<char>| JsonView::String(t));
    let mut i: usize = 0;
    assert(json_views(items@) =~= all.take(0));
    while i < texts.len()
        invariant
            i <= texts.len(),
            all == views(texts@).map_values(|t: Seq<char>| JsonView::String(t)),
            json_views(items@) == all.take(i as int),
        decreases texts.len() - i,
    {
        push_item(&mut items, Json::String(texts[i].clone()));
        assert(all.take(i + 1) =~= all.take(i as int).push(all[i as int]));
        i = i + 1;
    }
    assert(all.take(i as int) =~= all);
    Json::Array(items)
}

/// The member of that name, where the value is an object that has one.
pub open spec fn member_of(j: JsonView, name: Seq<char>) -> Option<JsonView> {
    match j {
        JsonView::Object(m) => if m.dom().contains(name) {
            Some(m[name])
        } else {
            None
        },
        _ => None,
    }
}

impl Json {
    /// The member of that name, where the value is an object that has one.
    pub fn get(&self, name: &str) -> (r: Option<&Json>)
        ensures
            match r {
                Some(v) => member_of(self@, name@) == Some(v@),
                None => member_of(self@, name@) is None,
            },
    {
        match self {
            Json::Object(members) => {
                let mut i: usize = members.len();
                assert(members@.take(i as int) =~= members@);
                while i > 0
                    invariant
                        i <= members.len(),
                        self@ == JsonView::Object(members_view(members@)),
                        members_view(members@).dom().contains(name@) <==> members_view(
                            members@.take(i as int),
                        ).dom().contains(name@),
                        members_view(members@).dom().contains(name@) ==> members_view(
                            members@,
                        )[name@] == members_view(members@.take(i as int))[name@],
                    decreases i,
                {
                    i = i - 1;
                    let ghost prefix = members@.take(i + 1);
                    assert(prefix.drop_last() =~= members@.take(i as int));
                    assert(prefix.last() == members@[i as int]);
                    if crate::text::same(members[i].name.as_str(), name) {
                        return Some(&members[i].value);
                    }
                }
                assert(members@.take(0) =~= Seq::<JsonMember>::empty());
                None
            },
            _ => None,
        }
    }

    /// The items, where the value is an array.
    pub fn as_array(&self) -> (r: Option<&Vec<Json>>)
        ensures
            match r {
                Some(v) => self@ == JsonView::Array(json_views(v@)),
                None => !(self@ is Array),
            },
    {
        match self {
            Json::Array(items) => Some(items),
            _ => None,
        }
    }

    /// The text, where the value is a string.
    pub fn as_str(&self) -> (r: Option<&str>)
        ensures
            match r {
                Some(s) => self@ == JsonView::String(s@),
                None => !(self@ is String),
            },
    {
        match self {
            Json::String(s) => Some(s.as_str()),
            _ => None,
        }
    }
}

/// An array stands for its items, each in its place.
pub proof fn arrays_hold_their_items_in_order(items: Seq<Json>)
    ensures
        json_views(items).len() == items.len(),
        forall|i: int| 0 <= i < items.len() ==> json_views(items)[i] == (#[trigger] items[i])@,
    decreases items.len(),
{
    if items.len() > 0 {
        let rest = items.drop_last();
        arrays_hold_their_items_in_order(rest);
        assert forall|i: int| 0 <= i < items.len() implies json_views(items)[i] == (
        #[trigger] items[i])@ by {
            if i < rest.len() {
                assert(rest[i] == items[i]);
                assert(json_views(rest)[i] == rest[i]@);
            }
        }
    }
}

/// An object has a member of a name where one of that name is among its members, and its value is
/// that of the last such member.
pub proof fn objects_hold_the_last_member_of_a_name(members: Seq<JsonMember>, at: int)
    requires
        0 <= at < members.len(),
        forall|k: int| at < k < members.len() ==> (#[trigger] members[k]).name@ != members[at].name@,
    ensures
        member_of(JsonView::Object(members_view(members)), members[at].name@) == Some(
            members[at].value@,
        ),
    decreases members.len(),
{
    let n = members.len() - 1;
    if at < n {
        let rest = members.drop_last();
        assert forall|k: int| at < k < rest.len() implies (#[trigger] rest[k]).name@
            != rest[at].name@ by {
            assert(rest[k] == members[k]);
        }
        objects_hold_the_last_member_of_a_name(rest, at);
        assert(members[n].name@ != members[at].name@);
    }
}

/// A name that no member has is no member of the object.
pub proof fn objects_hold_no_other_name(members: Seq<JsonMember>, name: Seq<char>)
    requires
        forall|k: int| 0 <= k < members.len() ==> (#[trigger] members[k]).name@ != name,
    ensures
        member_of(JsonView::Object(members_view(members)), name) is None,
    decreases members.len(),
{
    if members.len() > 0 {
        let rest = members.drop_last();
        assert forall|k: int| 0 <= k < rest.len() implies (#[trigger] rest[k]).name@ != name by {
            assert(rest[k] == members[k]);
        }
        objects_hold_no_other_name(rest, name);
        assert(members[members.len() - 1].name@ != name);
    }
}

/// A list of texts is the array of them as strings, in order, and a value that is no object has no
/// members.
pub proof fn texts_become_an_array_of_strings(texts: Seq<Seq<char>>, j: JsonView, name: Seq<char>)
    ensures
        texts_json(texts) is Array,
        texts_json(texts)->Array_0.len() == texts.len(),
        forall|i: int|
            0 <= i < texts.len() ==> texts_json(texts)->Array_0[i] == JsonView::String(
                #[trigger] texts[i],
            ),
        !(j is Object) ==> member_of(j, name) is None,
{
}

/// A value stands for itself: numbers, truth values and texts are what they hold.
pub proof fn plain_json_shows_what_it_holds(j: Json)
    ensures
        j is Null ==> j@ == JsonView::Null,
        j matches Json::Bool(b) ==> j@ == JsonView::Bool(b),
        j matches Json::Number(n) ==> j@ == JsonView::Number(n as int),
        j matches Json::String(s) ==> j@ == JsonView::String(s@),
{
}

} // verus!
