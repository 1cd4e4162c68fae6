//! JSON values.

use vstd::prelude::*;

use crate::text::{chars_of, decimal, push_decimal, same};

verus! {

/// `serde_json::Number` holds a number of a JSON text.
#[verifier::external_type_specification]
#[verifier::external_body]
pub struct ExNumber(serde_json::Number);

/// `serde_json::Value` holds a JSON text that was read, or is to be written.
#[verifier::external_type_specification]
#[verifier::external_body]
pub struct ExValue(serde_json::Value);

/// A JSON value. The members of an object keep the order in which they were added.
#[derive(Debug)]
pub enum Json {
    Null,
    Bool(bool),
    Number(serde_json::Number),
    Text(String),
    List(Vec<Json>),
    Object(Vec<(String, Json)>),
}

/// The mathematical content of a [`Json`].
#[verifier::ext_equal]
pub enum JsonView {
    Null,
    Bool(bool),
    Number(serde_json::Number),
    Text(Seq<char>),
    List(Seq<JsonView>),
    Object(Seq<(Seq<char>, JsonView)>),
}

pub open spec fn json_view(value: Json) -> JsonView
    decreases value,
{
    match value {
        Json::Null => JsonView::Null,
        Json::Bool(b) => JsonView::Bool(b),
        Json::Number(n) => JsonView::Number(n),
        Json::Text(text) => JsonView::Text(text@),
        Json::List(items) => JsonView::List(list_view(items@)),
        Json::Object(members) => JsonView::Object(members_view(members@)),
    }
}

pub open spec fn list_view(items: Seq<Json>) -> Seq<JsonView>
    decreases items,
{
    if items.len() == 0 {
        seq![]
    } else {
        list_view(items.drop_last()).push(json_view(items.last()))
    }
}

pub open spec fn members_view(members: Seq<(String, Json)>) -> Seq<(Seq<char>, JsonView)>
    decreases members,
{
    if members.len() == 0 {
        seq![]
    } else {
        members_view(members.drop_last()).push((members.last().0@, json_view(members.last().1)))
    }
}

impl View for Json {
    type V = JsonView;

    open spec fn view(&self) -> JsonView {
        json_view(*self)
    }
}

/// The value of the member `key`. Where a name occurs twice, the later member counts.
pub open spec fn member(members: Seq<(Seq<char>, JsonView)>, key: Seq<char>) -> Option<JsonView>
    decreases members.len(),
{
    if members.len() == 0 {
        None
    } else if members.last().0 == key {
        Some(members.last().1)
    } else {
        member(members.drop_last(), key)
    }
}

/// The members with `key` set to `value`, at its old place or at the end.
pub open spec fn with_member(
    members: Seq<(Seq<char>, JsonView)>,
    key: Seq<char>,
    value: JsonView,
) -> Seq<(Seq<char>, JsonView)>
    decreases members.len(),
{
    if members.len() == 0 {
        seq![(key, value)]
    } else if members.last().0 == key {
        members.drop_last().push((key, value))
    } else if member(members, key) is None {
        members.push((key, value))
    } else {
        with_member(members.drop_last(), key, value).push(members.last())
    }
}

/// The value with every name kept once: a member whose name is there already takes its place.
pub open spec fn settled(value: JsonView) -> JsonView
    decreases value,
{
    match value {
        JsonView::List(items) => JsonView::List(settled_list(items)),
        JsonView::Object(members) => JsonView::Object(settled_members(members)),
        _ => value,
    }
}

pub open spec fn settled_list(items: Seq<JsonView>) -> Seq<JsonView>
    decreases items,
{
    if items.len() == 0 {
        seq![]
    } else {
        settled_list(items.drop_last()).push(settled(items.last()))
    }
}

pub open spec fn settled_members(members: Seq<(Seq<char>, JsonView)>) -> Seq<(Seq<char>, JsonView)>
    decreases members,
{
    if members.len() == 0 {
        seq![]
    } else {
        with_member(
            settled_members(members.drop_last()),
            members.last().0,
            settled(members.last().1),
        )
    }
}

/// Whether an object has a member with that name and value.
pub open spec fn shows(value: JsonView, name: Seq<char>, member: JsonView) -> bool {
    value is Object && value->Object_0.contains((name, member))
}

/// An object without members.
pub open spec fn jobject() -> JsonView {
    JsonView::Object(Seq::empty())
}

/// A list without items.
pub open spec fn jlist() -> JsonView {
    JsonView::List(Seq::empty())
}

/// A text.
pub open spec fn jtext(text: Seq<char>) -> JsonView {
    JsonView::Text(text)
}

impl JsonView {
    /// This object with a member added.
    pub open spec fn with(self, key: Seq<char>, value: JsonView) -> JsonView {
        match self {
            JsonView::Object(members) => JsonView::Object(members.push((key, value))),
            _ => self,
        }
    }

    /// This list with an item added.
    pub open spec fn and(self, item: JsonView) -> JsonView {
        match self {
            JsonView::List(items) => JsonView::List(items.push(item)),
            _ => self,
        }
    }

    pub open spec fn get(self, key: Seq<char>) -> Option<JsonView> {
        match self {
            JsonView::Object(members) => member(members, key),
            _ => None,
        }
    }

    pub open spec fn text(self) -> Option<Seq<char>> {
        match self {
            JsonView::Text(text) => Some(text),
            _ => None,
        }
    }

    /// The integer that a number is, if it is not negative.
    pub open spec fn unsigned(self) -> Option<u64> {
        match self {
            JsonView::Number(number) => number_as_u64(number),
            _ => None,
        }
    }

    /// The text of the member `key`.
    pub open spec fn get_text(self, key: Seq<char>) -> Option<Seq<char>> {
        match self.get(key) {
            Some(value) => value.text(),
            None => None,
        }
    }
}

/// What a `serde_json::Value` holds.
pub uninterp spec fn value_content(value: serde_json::Value) -> JsonView;

/// The text that `serde_json::Value` prints for a value.
pub uninterp spec fn json_text(value: JsonView) -> Seq<char>;

/// The value that `serde_json::from_str` reads from a text, or its complaint.
pub uninterp spec fn json_parsed(text: Seq<char>) -> Result<JsonView, Seq<char>>;

/// The `serde_json::Number` made from an integer.
pub uninterp spec fn number_of(n: u64) -> serde_json::Number;

/// The integer that `serde_json::Number::as_u64` reads, if the number is one.
pub uninterp spec fn number_as_u64(n: serde_json::Number) -> Option<u64>;

/// `serde_json::Number::from` for unsigned integers.
#[verifier::external_body]
fn number_from(n: u64) -> (number: serde_json::Number)
    ensures
        number == number_of(n),
{
    serde_json::Number::from(n)
}

/// `serde_json::Number::as_u64` gives back the integer that a number was made from. Of other
/// numbers its result depends on the number alone.
#[verifier::external_body]
fn number_to_u64(number: &serde_json::Number) -> (n: Option<u64>)
    ensures
        n == number_as_u64(*number),
        forall|made: u64| *number == #[trigger] number_of(made) ==> n == Some(made),
{
    number.as_u64()
}

/// `serde_json::Number::clone` gives the same number.
#[verifier::external_body]
fn copy_number(number: &serde_json::Number) -> (copy: serde_json::Number)
    ensures
        copy == *number,
{
    number.clone()
}

/// What a `serde_json::Value` is made of.
enum Parts {
    Null,
    Bool(bool),
    Number(serde_json::Number),
    Text(String),
    List(Vec<serde_json::Value>),
    Object(Vec<(String, serde_json::Value)>),
}

pub open spec fn item_contents(items: Seq<serde_json::Value>) -> Seq<JsonView> {
    items.map_values(|item: serde_json::Value| value_content(item))
}

pub open spec fn member_contents(members: Seq<(String, serde_json::Value)>) -> Seq<
    (Seq<char>, JsonView),
> {
    members.map_values(|member: (String, serde_json::Value)| (member.0@, value_content(member.1)))
}

/// Members with every name kept once, where it came first, with the value that came last.
pub open spec fn kept_members(members: Seq<(Seq<char>, JsonView)>) -> Seq<(Seq<char>, JsonView)>
    decreases members.len(),
{
    if members.len() == 0 {
        seq![]
    } else {
        with_member(kept_members(members.drop_last()), members.last().0, members.last().1)
    }
}

spec fn parts_content(parts: Parts) -> JsonView {
    match parts {
        Parts::Null => JsonView::Null,
        Parts::Bool(b) => JsonView::Bool(b),
        Parts::Number(n) => JsonView::Number(n),
        Parts::Text(text) => JsonView::Text(text@),
        Parts::List(items) => JsonView::List(item_contents(items@)),
        Parts::Object(members) => JsonView::Object(kept_members(member_contents(members@))),
    }
}

/// Whether no name occurs twice.
spec fn names_differ(members: Seq<(Seq<char>, JsonView)>) -> bool {
    forall|i: int, j: int|
        0 <= i < j < members.len() ==> (#[trigger] members[i]).0 != (#[trigger] members[j]).0
}

/// The variants of `serde_json::Value`, put together. `serde_json::Map` keeps every name once, where
/// it was inserted first, with the value that was inserted last.
#[verifier::external_body]
fn value_of(parts: Parts) -> (value: serde_json::Value)
    ensures
        value_content(value) == parts_content(parts),
{
    match parts {
        Parts::Null => serde_json::Value::Null,
        Parts::Bool(b) => serde_json::Value::Bool(b),
        Parts::Number(n) => serde_json::Value::Number(n),
        Parts::Text(text) => serde_json::Value::String(text),
        Parts::List(items) => serde_json::Value::Array(items),
        Parts::Object(members) => serde_json::Value::Object(members.into_iter().collect()),
    }
}

/// The variants of `serde_json::Value`, told apart. `serde_json::Map` yields its members in their
/// order, no name twice.
#[verifier::external_body]
fn parts_of(value: serde_json::Value) -> (parts: Parts)
    ensures
        parts_content(parts) == value_content(value),
        parts matches Parts::Object(members) ==> names_differ(member_contents(members@)),
{
    match value {
        serde_json::Value::Null => Parts::Null,
        serde_json::Value::Bool(b) => Parts::Bool(b),
        serde_json::Value::Number(n) => Parts::Number(n),
        serde_json::Value::String(text) => Parts::Text(text),
        serde_json::Value::Array(items) => Parts::List(items),
        serde_json::Value::Object(members) => Parts::Object(members.into_iter().collect()),
    }
}

/// Lists of settled values are settled.
proof fn lemma_settled_list(items: Seq<JsonView>, done: Seq<JsonView>)
    requires
        done.len() == items.len(),
        forall|i: int| 0 <= i < items.len() ==> #[trigger] done[i] == settled(items[i]),
    ensures
        settled_list(items) == done,
    decreases items.len(),
{
    if items.len() > 0 {
        assert forall|i: int| 0 <= i < items.len() - 1 implies #[trigger] done.drop_last()[i]
            == settled(items.drop_last()[i]) by {
            assert(done[i] == settled(items[i]));
        }
        lemma_settled_list(items.drop_last(), done.drop_last());
        assert(done =~= done.drop_last().push(settled(items.last())));
    } else {
        assert(done =~= seq![]);
    }
}

/// Settling members is settling their values and keeping every name once.
proof fn lemma_settled_members(members: Seq<(Seq<char>, JsonView)>, done: Seq<(Seq<char>, JsonView)>)
    requires
        done.len() == members.len(),
        forall|i: int|
            0 <= i < members.len() ==> #[trigger] done[i] == (members[i].0, settled(members[i].1)),
    ensures
        settled_members(members) == kept_members(done),
    decreases members.len(),
{
    if members.len() > 0 {
        assert forall|i: int| 0 <= i < members.len() - 1 implies #[trigger] done.drop_last()[i] == (
            members.drop_last()[i].0,
            settled(members.drop_last()[i].1),
        ) by {
            assert(done[i] == (members[i].0, settled(members[i].1)));
        }
        lemma_settled_members(members.drop_last(), done.drop_last());
        assert(done.last() == (members.last().0, settled(members.last().1)));
    }
}

/// Members whose names differ are all kept.
proof fn lemma_all_kept(members: Seq<(Seq<char>, JsonView)>)
    requires
        names_differ(members),
    ensures
        kept_members(members) == members,
    decreases members.len(),
{
    if members.len() > 0 {
        let before = members.drop_last();
        assert(names_differ(before)) by {
            assert forall|i: int, j: int| 0 <= i < j < before.len() implies (#[trigger] before[i]).0
                != (#[trigger] before[j]).0 by {
                assert(members[i].0 != members[j].0);
            }
        }
        lemma_all_kept(before);
        assert forall|i: int| 0 <= i < before.len() implies (#[trigger] before[i]).0
            != members.last().0 by {
            assert(members[i].0 != members[members.len() - 1].0);
        }
        lemma_no_member(before, members.last().0);
        assert(members =~= before.push(members.last()));
    } else {
        assert(members =~= seq![]);
    }
}

proof fn lemma_no_member(members: Seq<(Seq<char>, JsonView)>, key: Seq<char>)
    requires
        forall|i: int| 0 <= i < members.len() ==> (#[trigger] members[i]).0 != key,
    ensures
        member(members, key) is None,
        forall|value: JsonView| #[trigger]
            with_member(members, key, value) == members.push((key, value)),
    decreases members.len(),
{
    if members.len() > 0 {
        let before = members.drop_last();
        assert forall|i: int| 0 <= i < before.len() implies (#[trigger] before[i]).0 != key by {
            assert(members[i].0 != key);
        }
        lemma_no_member(before, key);
        assert(members[members.len() - 1].0 != key);
    } else {
        assert forall|value: JsonView| #[trigger]
            with_member(members, key, value) == members.push((key, value)) by {
            assert(members.push((key, value)) =~= seq![(key, value)]);
        }
    }
}

/// Builds a `serde_json::Value` with the same content.
fn to_value(value: &Json) -> (out: serde_json::Value)
    ensures
        value_content(out) == settled(value@),
    decreases *value,
{
    match value {
        Json::Null => value_of(Parts::Null),
        Json::Bool(b) => value_of(Parts::Bool(*b)),
        Json::Number(n) => value_of(Parts::Number(copy_number(n))),
        Json::Text(text) => value_of(Parts::Text(text.clone())),
        Json::List(items) => {
            let mut built: Vec<serde_json::Value> = Vec::new();
            let mut i: usize = 0;
            while i < items.len()
                invariant
                    *value == Json::List(*items),
                    i <= items.len(),
                    built.len() == i,
                    forall|j: int|
                        0 <= j < i ==> value_content(#[trigger] built@[j]) == settled(items@[j]@),
                decreases items.len() - i,
            {
                assert(decreases_to!(*value => value->List_0));
                assert(decreases_to!(value->List_0 => items@));
                assert(decreases_to!(items@ => items@[i as int]));
                built.push(to_value(&items[i]));
                i += 1;
            }
            proof {
                lemma_list_view(items@);
                lemma_settled_list(list_view(items@), item_contents(built@));
            }
            value_of(Parts::List(built))
        },
        Json::Object(members) => {
            let mut built: Vec<(String, serde_json::Value)> = Vec::new();
            let mut i: usize = 0;
            while i < members.len()
                invariant
                    *value == Json::Object(*members),
                    i <= members.len(),
                    built.len() == i,
                    forall|j: int|
                        0 <= j < i ==> (#[trigger] built@[j]).0@ == members@[j].0@ && value_content(
                            built@[j].1,
                        ) == settled(members@[j].1@),
                decreases members.len() - i,
            {
                assert(decreases_to!(*value => value->Object_0));
                assert(decreases_to!(value->Object_0 => members@));
                assert(decreases_to!(members@ => members@[i as int]));
                assert(decreases_to!(members@[i as int] => members@[i as int].1));
                built.push((members[i].0.clone(), to_value(&members[i].1)));
                i += 1;
            }
            proof {
                lemma_members_view(members@);
                lemma_settled_members(members_view(members@), member_contents(built@));
            }
            value_of(Parts::Object(built))
        },
    }
}

/// Takes the content out of a `serde_json::Value`.
fn from_value(value: serde_json::Value) -> (out: Json)
    ensures
        out@ == value_content(value),
        settled(out@) == out@,
    decreases value_content(value),
{
    let ghost content = value_content(value);
    match parts_of(value) {
        Parts::Null => Json::Null,
        Parts::Bool(b) => Json::Bool(b),
        Parts::Number(n) => Json::Number(n),
        Parts::Text(text) => Json::Text(text),
        Parts::List(items) => {
            let ghost inside = item_contents(items@);
            let mut taken: Vec<Json> = Vec::new();
            for item in it: items
                invariant
                    content == value_content(value),
                    content == JsonView::List(inside),
                    inside == item_contents(it.seq()),
                    taken.len() == it.index(),
                    forall|j: int|
                        0 <= j < taken.len() ==> (#[trigger] taken@[j])@ == inside[j] && settled(
                            inside[j],
                        ) == inside[j],
            {
                assert(value_content(item) == inside[it.index()]);
                assert(decreases_to!(content => content->List_0));
                assert(decreases_to!(content->List_0 => inside[it.index()]));
                taken.push(from_value(item));
            }
            proof {
                lemma_list_view(taken@);
                assert(list_view(taken@) =~= inside);
                lemma_settled_list(inside, inside);
            }
            Json::List(taken)
        },
        Parts::Object(members) => {
            let ghost inside = member_contents(members@);
            proof {
                lemma_all_kept(inside);
            }
            let mut taken: Vec<(String, Json)> = Vec::new();
            for member in it: members
                invariant
                    content == value_content(value),
                    content == JsonView::Object(inside),
                    inside == member_contents(it.seq()),
                    taken.len() == it.index(),
                    forall|j: int|
                        0 <= j < taken.len() ==> (#[trigger] taken@[j]).0@ == inside[j].0
                            && taken@[j].1@ == inside[j].1 && settled(inside[j].1) == inside[j].1,
            {
                assert((member.0@, value_content(member.1)) == inside[it.index()]);
                assert(decreases_to!(content => content->Object_0));
                assert(decreases_to!(content->Object_0 => inside[it.index()]));
                assert(decreases_to!(inside[it.index()] => inside[it.index()].1));
                taken.push((member.0, from_value(member.1)));
            }
            proof {
                lemma_members_view(taken@);
                assert(members_view(taken@) =~= inside);
                lemma_settled_members(inside, inside);
            }
            Json::Object(taken)
        },
    }
}

/// `serde_json::Value::to_string` prints a value; the text depends on its content alone. It holds
/// no control characters, and that of an object begins with a brace.
#[verifier::external_body]
fn value_text(value: &serde_json::Value) -> (text: String)
    ensures
        text@ == json_text(value_content(*value)),
        is_line(text@),
        value_content(*value) is Object ==> text@.len() > 0 && text@[0] == '{',
{
    value.to_string()
}

/// Whether a text holds no control characters, and so no line ends.
pub open spec fn is_line(text: Seq<char>) -> bool {
    forall|i: int| 0 <= i < text.len() ==> #[trigger] text[i] >= ' '
}

/// Whether a value holds no numbers but integers that are not negative, no name that begins with a
/// dollar sign, and not more than `depth` lists and objects in each other.
pub open spec fn is_plain(value: JsonView, depth: nat) -> bool
    decreases depth,
{
    match value {
        JsonView::Number(number) => number_as_u64(number) is Some,
        JsonView::List(items) => depth > 0 && forall|i: int|
            0 <= i < items.len() ==> is_plain(#[trigger] items[i], (depth - 1) as nat),
        JsonView::Object(members) => depth > 0 && forall|i: int|
            0 <= i < members.len() ==> {
                let (name, member) = #[trigger] members[i];
                &&& name.len() > 0 ==> name[0] != '$'
                &&& is_plain(member, (depth - 1) as nat)
            },
        _ => true,
    }
}

/// How many lists and objects may stand in each other in a text that is read.
pub const READABLE_DEPTH: usize = 127;

/// Whether a value that is written is read back as it was.
pub open spec fn reads_back(value: JsonView) -> bool {
    settled(value) == value && is_plain(value, READABLE_DEPTH as nat)
}

/// `serde_json::from_str` reads a value from a text, or says why it cannot; which, depends on the
/// text alone. From the text that was printed for a value it reads that value, where every name
/// occurs once in its object and the value is plain. Left unsaid is what it makes of other numbers,
/// of which it may round some, of names with a dollar sign, some of which `serde_json` takes for
/// marks of its own, and of values that stand deeper in each other than it reads.
#[verifier::external_body]
fn text_value(text: &str) -> (value: Result<serde_json::Value, String>)
    ensures
        match value {
            Ok(value) => json_parsed(text@) == Ok::<JsonView, Seq<char>>(value_content(value)),
            Err(why) => json_parsed(text@) == Err::<JsonView, Seq<char>>(why@),
        },
        forall|made: JsonView|
            reads_back(made) && text@ == #[trigger] json_text(made) ==> value is Ok && value_content(
                value->Ok_0,
            ) == made,
{
    match serde_json::from_str(text) {
        Ok(value) => Ok(value),
        Err(why) => Err(why.to_string()),
    }
}

pub proof fn lemma_list_view(items: Seq<Json>)
    ensures
        list_view(items).len() == items.len(),
        forall|i: int| 0 <= i < items.len() ==> #[trigger] list_view(items)[i] == items[i]@,
    decreases items.len(),
{
    if items.len() > 0 {
        lemma_list_view(items.drop_last());
        assert forall|i: int| 0 <= i < items.len() implies #[trigger] list_view(items)[i]
            == items[i]@ by {
            if i < items.len() - 1 {
                assert(items.drop_last()[i] == items[i]);
            }
        }
    }
}

pub proof fn lemma_members_view(members: Seq<(String, Json)>)
    ensures
        members_view(members).len() == members.len(),
        forall|i: int|
            0 <= i < members.len() ==> #[trigger] members_view(members)[i] == (
                members[i].0@,
                members[i].1@,
            ),
    decreases members.len(),
{
    if members.len() > 0 {
        lemma_members_view(members.drop_last());
        assert forall|i: int| 0 <= i < members.len() implies #[trigger] members_view(members)[i]
            == (members[i].0@, members[i].1@) by {
            if i < members.len() - 1 {
                assert(members.drop_last()[i] == members[i]);
            }
        }
    }
}

impl Json {
    /// The text that this value is written as.
    pub fn print(&self) -> (text: String)
        ensures
            text@ == json_text(settled(self@)),
            is_line(text@),
            self@ is Object ==> text@.len() > 0 && text@[0] == '{',
    {
        value_text(&to_value(self))
    }

    /// The value that a text stands for, or what is wrong with the text.
    pub fn parse(text: &str) -> (value: Result<Json, String>)
        ensures
            match value {
                Ok(value) => json_parsed(text@) == Ok::<JsonView, Seq<char>>(value@) && settled(value@)
                    == value@,
                Err(why) => json_parsed(text@) == Err::<JsonView, Seq<char>>(why@),
            },
            forall|made: JsonView|
                reads_back(made) && text@ == #[trigger] json_text(made) ==> value is Ok
                    && value->Ok_0@ == made,
    {
        match text_value(text) {
            Ok(value) => Ok(from_value(value)),
            Err(why) => Err(why),
        }
    }

    pub fn unsigned(n: u64) -> (value: Json)
        ensures
            value@ == JsonView::Number(number_of(n)),
    {
        Json::Number(number_from(n))
    }

    pub fn text(text: &str) -> (value: Json)
        ensures
            value@ == jtext(text@),
    {
        Json::Text(text.to_owned())
    }

    /// An object without members.
    pub fn object() -> (value: Json)
        ensures
            value@ == jobject(),
    {
        Json::Object(Vec::new())
    }

    /// A list without items.
    pub fn list() -> (value: Json)
        ensures
            value@ == jlist(),
    {
        Json::List(Vec::new())
    }

    /// This object with a member added.
    pub fn with(self, key: &str, value: Json) -> (out: Json)
        ensures
            out@ == self@.with(key@, value@),
    {
        match self {
            Json::Object(members) => {
                let mut members = members;
                let ghost before = members@;
                members.push((key.to_owned(), value));
                assert(members@.drop_last() =~= before);
                Json::Object(members)
            },
            other => other,
        }
    }

    /// This list with an item added.
    pub fn and(self, item: Json) -> (out: Json)
        ensures
            out@ == self@.and(item@),
    {
        match self {
            Json::List(items) => {
                let mut items = items;
                let ghost before = items@;
                items.push(item);
                assert(items@.drop_last() =~= before);
                Json::List(items)
            },
            other => other,
        }
    }

    /// The member `key` of an object.
    pub fn get(&self, key: &str) -> (value: Option<&Json>)
        ensures
            match value {
                Some(value) => self@.get(key@) == Some(value@),
                None => self@.get(key@) is None,
            },
    {
        match self {
            Json::Object(members) => {
                let mut i: usize = members.len();
                assert(members@.take(i as int) =~= members@);
                while i > 0
                    invariant
                        *self == Json::Object(*members),
                        i <= members.len(),
                        member(members_view(members@), key@) == member(
                            members_view(members@.take(i as int)),
                            key@,
                        ),
                    decreases i,
                {
                    let ghost head = members@.take(i as int);
                    i -= 1;
                    assert(head.drop_last() =~= members@.take(i as int));
                    assert(members_view(head).drop_last() =~= members_view(head.drop_last()));
                    if same(members[i].0.as_str(), key) {
                        return Some(&members[i].1);
                    }
                }
                assert(members@.take(0) =~= Seq::empty());
                None
            },
            _ => None,
        }
    }

    /// The text, where this value is one.
    pub fn as_text(&self) -> (text: Option<&str>)
        ensures
            match text {
                Some(text) => self@.text() == Some(text@),
                None => self@.text() is None,
            },
    {
        match self {
            Json::Text(text) => Some(text.as_str()),
            _ => None,
        }
    }

    /// The text of the member `key`.
    pub fn get_text(&self, key: &str) -> (text: Option<&str>)
        ensures
            match text {
                Some(text) => self@.get_text(key@) == Some(text@),
                None => self@.get_text(key@) is None,
            },
    {
        match self.get(key) {
            Some(value) => value.as_text(),
            None => None,
        }
    }

    /// The items, where this value is a list.
    pub fn as_list(&self) -> (items: Option<&Vec<Json>>)
        ensures
            match items {
                Some(items) => self@ == JsonView::List(list_view(items@)),
                None => !(self@ is List),
            },
    {
        match self {
            Json::List(items) => Some(items),
            _ => None,
        }
    }

    /// The integer, where this value is one that is not negative.
    pub fn as_u64(&self) -> (n: Option<u64>)
        ensures
            n == self@.unsigned(),
            forall|made: u64| self@ == JsonView::Number(#[trigger] number_of(made)) ==> n == Some(made),
    {
        match self {
            Json::Number(number) => number_to_u64(number),
            _ => None,
        }
    }
}

impl Clone for Json {
    fn clone(&self) -> (copy: Self)
        ensures
            copy@ == self@,
        decreases *self,
    {
        match self {
            Json::Null => Json::Null,
            Json::Bool(b) => Json::Bool(*b),
            Json::Number(n) => Json::Number(copy_number(n)),
            Json::Text(text) => Json::Text(text.clone()),
            Json::List(items) => {
                let mut copies: Vec<Json> = Vec::new();
                let mut i: usize = 0;
                while i < items.len()
                    invariant
                        *self == Json::List(*items),
                        i <= items.len(),
                        copies.len() == i,
                        forall|j: int| 0 <= j < i ==> (#[trigger] copies@[j])@ == items@[j]@,
                    decreases items.len() - i,
                {
                    assert(decreases_to!(*self => self->List_0));
                    assert(decreases_to!(self->List_0 => items@));
                    assert(decreases_to!(items@ => items@[i as int]));
                    copies.push(items[i].clone());
                    i += 1;
                }
                proof {
                    lemma_list_view(copies@);
                    lemma_list_view(items@);
                }
                assert(list_view(copies@) =~= list_view(items@));
                Json::List(copies)
            },
            Json::Object(members) => {
                let mut copies: Vec<(String, Json)> = Vec::new();
                let mut i: usize = 0;
                while i < members.len()
                    invariant
                        *self == Json::Object(*members),
                        i <= members.len(),
                        copies.len() == i,
                        forall|j: int|
                            0 <= j < i ==> (#[trigger] copies@[j]).0@ == members@[j].0@
                                && copies@[j].1@ == members@[j].1@,
                    decreases members.len() - i,
                {
                    assert(decreases_to!(*self => self->Object_0));
                    assert(decreases_to!(self->Object_0 => members@));
                    assert(decreases_to!(members@ => members@[i as int]));
                    assert(decreases_to!(members@[i as int] => members@[i as int].1));
                    copies.push((members[i].0.clone(), members[i].1.clone()));
                    i += 1;
                }
                proof {
                    lemma_members_view(copies@);
                    lemma_members_view(members@);
                }
                assert(members_view(copies@) =~= members_view(members@));
                Json::Object(copies)
            },
        }
    }
}

/// A member that was added is found, and hides none of another name.
pub broadcast proof fn lemma_with_get(object: JsonView, key: Seq<char>, value: JsonView, asked: Seq<
    char,
>)
    requires
        object is Object,
    ensures
        #[trigger] object.with(key, value).get(asked) == if key == asked {
            Some(value)
        } else {
            object.get(asked)
        },
{
    let members = object->Object_0;
    assert(members.push((key, value)).drop_last() =~= members);
}

/// What a value is called in a complaint.
pub open spec fn called(value: JsonView) -> Seq<char> {
    match value {
        JsonView::Null => "null"@,
        JsonView::Bool(b) => if b {
            "boolean `true`"@
        } else {
            "boolean `false`"@
        },
        JsonView::Number(_) => (if has_fraction(json_text(value)) {
            "floating point `"@
        } else {
            "integer `"@
        }) + json_text(value) + "`"@,
        JsonView::Text(_) => "string"@,
        JsonView::List(_) => "sequence"@,
        JsonView::Object(_) => "map"@,
    }
}

/// Whether the text of a number has a point or an exponent.
pub open spec fn has_fraction(text: Seq<char>) -> bool {
    text.contains('.') || text.contains('e')
}

/// The complaint about a value that is not what was expected.
pub open spec fn wrong_type(value: JsonView, expected: Seq<char>) -> Seq<char> {
    "invalid type: "@ + called(value) + ", expected "@ + expected
}

/// The text of a member, or the complaint that it is missing or no text.
pub open spec fn text_field(value: JsonView, key: Seq<char>) -> Result<Seq<char>, Seq<char>> {
    match value.get(key) {
        None => Err("missing field `"@ + key + "`"@),
        Some(JsonView::Text(text)) => Ok(text),
        Some(other) => Err(wrong_type(other, "a string"@)),
    }
}

/// The object whose members have the given names, in the order of the items.
pub open spec fn named(items: Seq<JsonView>, names: Seq<Seq<char>>) -> JsonView
    decreases names.len(),
{
    if names.len() == 0 {
        jobject()
    } else {
        named(items, names.drop_last()).with(names.last(), items[names.len() - 1])
    }
}

/// The complaint about a list that is too short or too long.
pub open spec fn wrong_length(len: nat, expected: nat) -> Seq<char> {
    "invalid length "@ + decimal(len) + ", expected "@ + decimal(expected)
}

/// The texts of some names.
pub open spec fn name_texts(names: Seq<&str>) -> Seq<Seq<char>> {
    names.map_values(|name: &str| name@)
}

fn text_has_fraction(text: &str) -> (yes: bool)
    ensures
        yes == has_fraction(text@),
{
    let chars = chars_of(text);
    let mut i: usize = 0;
    while i < chars.len()
        invariant
            i <= chars.len(),
            chars@ == text@,
            forall|j: int| 0 <= j < i ==> (#[trigger] text@[j]) != '.' && text@[j] != 'e',
        decreases chars.len() - i,
    {
        if chars[i] == '.' || chars[i] == 'e' {
            assert(text@[i as int] == chars@[i as int]);
            return true;
        }
        i += 1;
    }
    false
}

impl Json {
    /// What this value is called in a complaint.
    pub fn called(&self) -> (name: String)
        ensures
            name@ == called(self@),
    {
        match self {
            Json::Null => "null".to_owned(),
            Json::Bool(b) => if *b {
                "boolean `true`".to_owned()
            } else {
                "boolean `false`".to_owned()
            },
            Json::Number(_) => {
                let text = self.print();
                let mut name = if text_has_fraction(text.as_str()) {
                    "floating point `".to_owned()
                } else {
                    "integer `".to_owned()
                };
                name.append(text.as_str());
                name.append("`");
                name
            },
            Json::Text(_) => "string".to_owned(),
            Json::List(_) => "sequence".to_owned(),
            Json::Object(_) => "map".to_owned(),
        }
    }

    /// The complaint that this value is not what was expected.
    pub fn wrong_type(&self, expected: &str) -> (why: String)
        ensures
            why@ == wrong_type(self@, expected@),
    {
        let mut why = "invalid type: ".to_owned();
        why.append(self.called().as_str());
        why.append(", expected ");
        why.append(expected);
        why
    }

    /// The text of a member, or the complaint that it is missing or no text.
    pub fn text_field(&self, key: &str) -> (out: Result<String, String>)
        ensures
            match out {
                Ok(text) => text_field(self@, key@) == Ok::<Seq<char>, Seq<char>>(text@),
                Err(why) => text_field(self@, key@) == Err::<Seq<char>, Seq<char>>(why@),
            },
    {
        match self.get(key) {
            Some(Json::Text(text)) => Ok(text.clone()),
            Some(other) => Err(other.wrong_type("a string")),
            None => {
                let mut why = "missing field `".to_owned();
                why.append(key);
                why.append("`");
                Err(why)
            },
        }
    }

    /// The object whose members have the given names, in the order of the items behind the first
    /// `skipped`, or the complaint that there are not as many.
    pub fn named(items: &Vec<Json>, skipped: usize, names: &Vec<&'static str>) -> (out: Result<
        Json,
        String,
    >)
        requires
            skipped <= items.len(),
        ensures
            match out {
                Ok(value) => {
                    &&& items.len() - skipped == names.len()
                    &&& value@ == named(list_view(items@).skip(skipped as int), name_texts(names@))
                },
                Err(why) => {
                    &&& items.len() - skipped != names.len()
                    &&& why@ == wrong_length((items.len() - skipped) as nat, names.len() as nat)
                },
            },
    {
        let len: usize = items.len() - skipped;
        if len != names.len() {
            let mut why = "invalid length ".to_owned();
            push_decimal(&mut why, len as u64);
            why.append(", expected ");
            push_decimal(&mut why, names.len() as u64);
            return Err(why);
        }
        let ghost views = list_view(items@).skip(skipped as int);
        let ghost all = name_texts(names@);
        proof {
            lemma_list_view(items@);
        }
        let mut value = Json::object();
        let mut i: usize = 0;
        assert(all.take(0) =~= seq![]);
        while i < len
            invariant
                i <= len,
                len == items.len() - skipped,
                len == names.len(),
                views == list_view(items@).skip(skipped as int),
                all == name_texts(names@),
                list_view(items@).len() == items.len(),
                forall|j: int|
                    0 <= j < items@.len() ==> #[trigger] list_view(items@)[j] == items@[j]@,
                value@ == named(views, all.take(i as int)),
            decreases len - i,
        {
            assert(all.take(i + 1).drop_last() =~= all.take(i as int));
            assert(all.take(i + 1).last() == names@[i as int]@);
            assert(views[i as int] == list_view(items@)[skipped + i]);
            value = value.with(names[i], items[skipped + i].clone());
            i += 1;
        }
        assert(all.take(len as int) =~= all);
        Ok(value)
    }
}

} // verus!
