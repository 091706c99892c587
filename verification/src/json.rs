//! JSON values, read and written by `serde_json`.
use vstd::prelude::*;

use crate::text::same;

verus! {

/// A number of `serde_json`, carried through as it is.
#[verifier::external_type_specification]
#[verifier::external_body]
pub struct ExNumber(serde_json::Number);

/// A value of `serde_json`, as it comes out of a text or goes into one.
#[verifier::external_type_specification]
#[verifier::external_body]
pub struct ExValue(serde_json::Value);

/// A JSON value.
pub enum Json {
    Null,
    Bool(bool),
    Number(serde_json::Number),
    Text(String),
    Array(Vec<Json>),
    /// The fields in order; where a name occurs twice the later field counts.
    Object(Vec<(String, Json)>),
}

/// A JSON value as mathematics: an object maps names to values.
#[verifier::ext_equal]
pub enum JsonView {
    Null,
    Bool(bool),
    Number(serde_json::Number),
    Text(Seq<char>),
    Array(Seq<JsonView>),
    Object(Map<Seq<char>, JsonView>),
}

/// The values of an array.
pub open spec fn items_view(items: Seq<Json>) -> Seq<JsonView>
    decreases items,
{
    if items.len() == 0 {
        Seq::empty()
    } else {
        items_view(items.drop_last()).push(json_view(items.last()))
    }
}

/// The fields of an object; a later field replaces an earlier one of the same name.
pub open spec fn fields_view(fields: Seq<(String, Json)>) -> Map<Seq<char>, JsonView>
    decreases fields,
{
    if fields.len() == 0 {
        Map::empty()
    } else {
        fields_view(fields.drop_last()).insert(fields.last().0@, json_view(fields.last().1))
    }
}

pub open spec fn json_view(j: Json) -> JsonView
    decreases j,
{
    match j {
        Json::Null => JsonView::Null,
        Json::Bool(b) => JsonView::Bool(b),
        Json::Number(n) => JsonView::Number(n),
        Json::Text(s) => JsonView::Text(s@),
        Json::Array(items) => JsonView::Array(items_view(items@)),
        Json::Object(fields) => JsonView::Object(fields_view(fields@)),
    }
}

impl View for Json {
    type V = JsonView;

    open spec fn view(&self) -> JsonView {
        json_view(*self)
    }
}

impl DeepView for Json {
    type V = JsonView;

    open spec fn deep_view(&self) -> JsonView {
        json_view(*self)
    }
}

impl JsonView {
    /// The field of that name, where this is an object that has one.
    pub open spec fn get(self, name: Seq<char>) -> Option<JsonView> {
        match self {
            JsonView::Object(fields) => if fields.dom().contains(name) {
                Some(fields[name])
            } else {
                None
            },
            _ => None,
        }
    }

    pub open spec fn as_text(self) -> Option<Seq<char>> {
        match self {
            JsonView::Text(s) => Some(s),
            _ => None,
        }
    }

    pub open spec fn as_bool(self) -> Option<bool> {
        match self {
            JsonView::Bool(b) => Some(b),
            _ => None,
        }
    }

    /// The text in the field of that name.
    pub open spec fn text_at(self, name: Seq<char>) -> Option<Seq<char>> {
        match self.get(name) {
            Some(j) => j.as_text(),
            None => None,
        }
    }

    /// The text in the field of that name, or `other` where there is none.
    pub open spec fn text_or(self, name: Seq<char>, other: Seq<char>) -> Seq<char> {
        match self.text_at(name) {
            Some(s) => s,
            None => other,
        }
    }

    /// The truth value in the field of that name; false where there is none.
    pub open spec fn flag_at(self, name: Seq<char>) -> bool {
        match self.get(name) {
            Some(j) => j.as_bool() == Some(true),
            None => false,
        }
    }

    /// The field `inner` of the object in the field `outer`.
    pub open spec fn get_in(self, outer: Seq<char>, inner: Seq<char>) -> Option<JsonView> {
        match self.get(outer) {
            Some(j) => j.get(inner),
            None => None,
        }
    }

    /// The object with a field set.
    pub open spec fn with(self, name: Seq<char>, value: JsonView) -> JsonView {
        match self {
            JsonView::Object(fields) => JsonView::Object(fields.insert(name, value)),
            _ => JsonView::Object(Map::empty().insert(name, value)),
        }
    }

    /// Whether no more than `n` arrays and objects lie inside one another.
    pub open spec fn nested_within(self, n: nat) -> bool
        decreases n,
    {
        match self {
            JsonView::Array(items) => n > 0 && forall|i: int|
                0 <= i < items.len() ==> (#[trigger] items[i]).nested_within((n - 1) as nat),
            JsonView::Object(fields) => n > 0 && forall|name: Seq<char>| #[trigger]
                fields.dom().contains(name) ==> fields[name].nested_within((n - 1) as nat),
            _ => true,
        }
    }

    /// Whether this is an object none of whose fields holds an array or another object.
    pub open spec fn flat(self) -> bool {
        match self {
            JsonView::Object(fields) => forall|name: Seq<char>| #[trigger]
                fields.dom().contains(name) ==> !(fields[name] is Array) && !(fields[name] is Object),
            _ => false,
        }
    }
}

/// The object without fields.
pub open spec fn empty_object() -> JsonView {
    JsonView::Object(Map::empty())
}

// ── The calls into `serde_json` ──

/// How many arrays and objects inside one another `serde_json::from_str` reads.
pub const DEPTH_READ: u64 = 127;

/// What a value of `serde_json` holds.
pub uninterp spec fn value_contents(value: serde_json::Value) -> JsonView;

/// What `serde_json::from_str` makes of a text: a value, or the message of its error.
pub uninterp spec fn parsed_json(text: Seq<char>) -> Result<JsonView, Seq<char>>;

/// Whether a text is JSON and holds this value.
pub open spec fn reads_as(text: Seq<char>, json: JsonView) -> bool {
    parsed_json(text) == Ok::<JsonView, Seq<char>>(json)
}

/// Whether a text is no JSON and reading it fails with this message.
pub open spec fn unreadable(text: Seq<char>, message: Seq<char>) -> bool {
    parsed_json(text) == Err::<JsonView, Seq<char>>(message)
}

/// The text of a value on one line, as `Display` of `serde_json::Value` gives it.
pub uninterp spec fn compact_json(json: JsonView) -> Seq<char>;

/// The text of a value over several lines, as `serde_json::to_string_pretty` gives it.
pub uninterp spec fn pretty_json(json: JsonView) -> Seq<char>;

/// What `serde_json::Number::as_u64` says of a number.
pub uninterp spec fn number_u64(number: serde_json::Number) -> Option<u64>;

/// The number that `serde_json::Number::from` makes of a `u64`.
pub uninterp spec fn u64_number(n: u64) -> serde_json::Number;

/// `serde_json::from_str` is a fixed function of the text; of an error, its message is kept.
#[verifier::external_body]
fn read_value(text: &str) -> (r: Result<serde_json::Value, String>)
    ensures
        parsed_json(text@) == (match r {
            Ok(value) => Ok(value_contents(value)),
            Err(e) => Err(e@),
        }),
{
    serde_json::from_str(text).map_err(|e: serde_json::Error| e.to_string())
}

/// A value of `serde_json`, taken apart by one level.
enum Parts {
    Null,
    Bool(bool),
    Number(serde_json::Number),
    Text(String),
    Array(Vec<serde_json::Value>),
    Object(Vec<(String, serde_json::Value)>),
}

/// What members hold together; a later one replaces an earlier one of the same name.
spec fn members_view(members: Seq<(String, serde_json::Value)>) -> Map<Seq<char>, JsonView>
    decreases members.len(),
{
    if members.len() == 0 {
        Map::empty()
    } else {
        members_view(members.drop_last()).insert(
            members.last().0@,
            value_contents(members.last().1),
        )
    }
}

/// What the parts of a value hold together.
spec fn parts_view(parts: Parts) -> JsonView {
    match parts {
        Parts::Null => JsonView::Null,
        Parts::Bool(b) => JsonView::Bool(b),
        Parts::Number(n) => JsonView::Number(n),
        Parts::Text(s) => JsonView::Text(s@),
        Parts::Array(items) => JsonView::Array(
            items@.map_values(|v: serde_json::Value| value_contents(v)),
        ),
        Parts::Object(members) => JsonView::Object(members_view(members@)),
    }
}

/// No two members have the same name.
spec fn names_differ(members: Seq<(String, serde_json::Value)>) -> bool {
    forall|i: int, j: int| 0 <= i < j < members.len() ==> members[i].0@ != members[j].0@
}

/// Takes a `serde_json::Value` apart by one level: nothing of it is lost, and the map in it has
/// each name once.
#[verifier::external_body]
fn open_value(value: serde_json::Value) -> (parts: Parts)
    ensures
        parts_view(parts) == value_contents(value),
        parts matches Parts::Object(members) ==> names_differ(members@),
{
    match value {
        serde_json::Value::Null => Parts::Null,
        serde_json::Value::Bool(b) => Parts::Bool(b),
        serde_json::Value::Number(n) => Parts::Number(n),
        serde_json::Value::String(s) => Parts::Text(s),
        serde_json::Value::Array(items) => Parts::Array(items),
        serde_json::Value::Object(map) => Parts::Object(map.into_iter().collect()),
    }
}

/// Puts a `serde_json::Value` together from its parts; the members of an object have different
/// names, so that its map holds each of them.
#[verifier::external_body]
fn close_value(parts: Parts) -> (value: serde_json::Value)
    requires
        parts matches Parts::Object(members) ==> names_differ(members@),
    ensures
        value_contents(value) == parts_view(parts),
{
    match parts {
        Parts::Null => serde_json::Value::Null,
        Parts::Bool(b) => serde_json::Value::Bool(b),
        Parts::Number(n) => serde_json::Value::Number(n),
        Parts::Text(s) => serde_json::Value::String(s),
        Parts::Array(items) => serde_json::Value::Array(items),
        Parts::Object(members) => serde_json::Value::Object(members.into_iter().collect()),
    }
}

/// `serde_json::Map::insert` on the map of an object: the member is added, or takes the place of
/// the one that had its name.
#[verifier::external_body]
fn put_member(object: serde_json::Value, name: String, member: serde_json::Value) -> (r:
    serde_json::Value)
    requires
        value_contents(object) is Object,
    ensures
        value_contents(r) == JsonView::Object(
            value_contents(object)->Object_0.insert(name@, value_contents(member)),
        ),
{
    match object {
        serde_json::Value::Object(mut map) => {
            map.insert(name, member);
            serde_json::Value::Object(map)
        },
        other => other,
    }
}

/// `Display` of `serde_json::Value` writes the value on one line, as a fixed function of what it
/// holds; a line feed in a text is written as an escape. `serde_json::from_str` reads the value
/// back as it was written, unless it is nested deeper than that function goes.
#[verifier::external_body]
fn write_compact(value: &serde_json::Value) -> (text: String)
    ensures
        text@ == compact_json(value_contents(*value)),
        !text@.contains('\n'),
        value_contents(*value).nested_within(DEPTH_READ as nat) ==> reads_as(
            text@,
            value_contents(*value),
        ),
{
    value.to_string()
}

/// `serde_json::to_string_pretty` writes the value over several lines, as a fixed function of what
/// it holds. On a `Value` it has no error to give.
#[verifier::external_body]
fn write_pretty(value: &serde_json::Value) -> (text: String)
    ensures
        text@ == pretty_json(value_contents(*value)),
{
    serde_json::to_string_pretty(value).unwrap_or_default()
}

/// `serde_json::Number::as_u64` is a fixed function of the number.
#[verifier::external_body]
pub(crate) fn number_as_u64(number: &serde_json::Number) -> (r: Option<u64>)
    ensures
        r == number_u64(*number),
{
    number.as_u64()
}

/// `serde_json::Number::from(u64)` gives the number that `as_u64` reads back.
#[verifier::external_body]
fn number_from_u64(n: u64) -> (number: serde_json::Number)
    ensures
        number == u64_number(n),
        number_u64(number) == Some(n),
{
    serde_json::Number::from(n)
}

// ── Reading and writing ──

proof fn lemma_members(members: Seq<(String, serde_json::Value)>)
    requires
        names_differ(members),
    ensures
        members_view(members).dom().finite(),
        forall|i: int|
            0 <= i < members.len() ==> members_view(members).contains_key(
                (#[trigger] members[i]).0@,
            ) && members_view(members)[members[i].0@] == value_contents(members[i].1),
    decreases members.len(),
{
    if members.len() > 0 {
        let before = members.drop_last();
        assert forall|i: int, j: int| 0 <= i < j < before.len() implies before[i].0@
            != before[j].0@ by {
            assert(before[i] == members[i] && before[j] == members[j]);
        }
        lemma_members(before);
        assert forall|i: int| 0 <= i < members.len() implies members_view(members).contains_key(
            (#[trigger] members[i]).0@,
        ) && members_view(members)[members[i].0@] == value_contents(members[i].1) by {
            if i < before.len() {
                assert(before[i] == members[i]);
                assert(members[i].0@ != members.last().0@);
            }
        }
    }
}

/// All levels of a value of `serde_json`.
fn from_value(value: serde_json::Value) -> (json: Json)
    ensures
        json@ == value_contents(value),
    decreases value_contents(value),
{
    let ghost contents = value_contents(value);
    match open_value(value) {
        Parts::Null => Json::Null,
        Parts::Bool(b) => Json::Bool(b),
        Parts::Number(n) => Json::Number(n),
        Parts::Text(s) => Json::Text(s),
        Parts::Array(items) => {
            let ghost all = items@;
            let ghost held = all.map_values(|v: serde_json::Value| value_contents(v));
            let mut r: Vec<Json> = Vec::new();
            for item in it: items
                invariant
                    it.seq() == all,
                    contents == value_contents(value),
                    contents == JsonView::Array(held),
                    held == all.map_values(|v: serde_json::Value| value_contents(v)),
                    items_view(r@) == held.take(it.index()),
            {
                let ghost i = it.index();
                assert(held[i] == value_contents(item));
                assert(decreases_to!(contents => contents->Array_0));
                assert(decreases_to!(contents->Array_0 => contents->Array_0[i]));
                let json = from_value(item);
                proof {
                    lemma_items_push(r@, json);
                    assert(held.take(i + 1) == held.take(i).push(held[i]));
                }
                r.push(json);
            }
            assert(held.take(held.len() as int) == held);
            Json::Array(r)
        },
        Parts::Object(members) => {
            let ghost all = members@;
            let mut r: Vec<(String, Json)> = Vec::new();
            proof {
                lemma_members(all);
            }
            assert(all.take(0) == Seq::<(String, serde_json::Value)>::empty());
            for member in it: members
                invariant
                    it.seq() == all,
                    names_differ(all),
                    contents == value_contents(value),
                    contents == JsonView::Object(members_view(all)),
                    fields_view(r@) == members_view(all.take(it.index())),
            {
                let ghost i = it.index();
                assert(member == all[i]);
                let ghost m = members_view(all);
                proof {
                    lemma_members(all);
                    assert(m[member.0@] == value_contents(member.1));
                    assert(decreases_to!(contents => contents->Object_0));
                    assert(decreases_to!(m => m[member.0@]));
                    assert(all.take(i + 1).drop_last() == all.take(i));
                }
                let (name, inner) = member;
                let json = from_value(inner);
                let ghost before = r@;
                r.push((name, json));
                assert(r@.drop_last() == before);
            }
            assert(all.take(all.len() as int) == all);
            Json::Object(r)
        },
    }
}

/// The value of `serde_json` that holds the same.
fn to_value(json: &Json) -> (value: serde_json::Value)
    ensures
        value_contents(value) == json@,
    decreases json,
{
    let parts = match json {
        Json::Null => Parts::Null,
        Json::Bool(b) => Parts::Bool(*b),
        Json::Number(n) => Parts::Number(copy_number(n)),
        Json::Text(s) => Parts::Text(s.clone()),
        Json::Array(items) => {
            let mut r: Vec<serde_json::Value> = Vec::new();
            let mut i: usize = 0;
            while i < items.len()
                invariant
                    i <= items@.len(),
                    i == r@.len(),
                    *json matches Json::Array(f) && f == items,
                    forall|k: int| 0 <= k < i ==> value_contents(#[trigger] r@[k]) == items@[k]@,
                decreases items@.len() - i,
            {
                let value = to_value(&items[i]);
                r.push(value);
                i += 1;
            }
            proof {
                lemma_items(items@);
                assert(r@.map_values(|v: serde_json::Value| value_contents(v)) =~= items_view(
                    items@,
                ));
            }
            Parts::Array(r)
        },
        Json::Object(fields) => {
            let mut r = close_value(Parts::Object(Vec::new()));
            let mut i: usize = 0;
            assert(fields@.take(0) == Seq::<(String, Json)>::empty());
            while i < fields.len()
                invariant
                    i <= fields@.len(),
                    *json matches Json::Object(f) && f == fields,
                    value_contents(r) == JsonView::Object(fields_view(fields@.take(i as int))),
                decreases fields@.len() - i,
            {
                let name = fields[i].0.clone();
                let value = to_value(&fields[i].1);
                r = put_member(r, name, value);
                assert(fields@.take(i + 1).drop_last() == fields@.take(i as int));
                i += 1;
            }
            assert(fields@.take(i as int) == fields@);
            return r;
        },
    };
    close_value(parts)
}

/// A flat object is one level deep.
proof fn lemma_flat(json: JsonView, n: nat)
    requires
        json.flat(),
        n > 0,
    ensures
        json.nested_within(n),
{
    let fields = json->Object_0;
    assert forall|name: Seq<char>| #[trigger] fields.dom().contains(name) implies fields[
        name
    ].nested_within((n - 1) as nat) by {
        reveal_with_fuel(JsonView::nested_within, 2);
    }
}

/// Reads a JSON text.
pub fn parse(text: &str) -> (r: Result<Json, String>)
    ensures
        match r {
            Ok(json) => reads_as(text@, json@),
            Err(e) => unreadable(text@, e@),
        },
{
    match read_value(text) {
        Ok(value) => Ok(from_value(value)),
        Err(e) => Err(e),
    }
}

proof fn lemma_items_push(items: Seq<Json>, j: Json)
    ensures
        items_view(items.push(j)) == items_view(items).push(j@),
{
    assert(items.push(j).drop_last() == items);
}

/// The values of an array, one by one.
pub proof fn lemma_items(items: Seq<Json>)
    ensures
        items_view(items).len() == items.len(),
        forall|i: int| 0 <= i < items.len() ==> #[trigger] items_view(items)[i] == items[i]@,
    decreases items.len(),
{
    if items.len() > 0 {
        lemma_items(items.drop_last());
    }
}

impl Json {
    /// A text value.
    pub fn text(s: &str) -> (r: Json)
        ensures
            r@ == JsonView::Text(s@),
    {
        Json::Text(s.to_string())
    }

    /// A whole number that is not negative.
    pub fn unsigned(n: u64) -> (r: Json)
        ensures
            r@ == JsonView::Number(u64_number(n)),
            number_u64(r@->Number_0) == Some(n),
    {
        Json::Number(number_from_u64(n))
    }

    /// The object without fields.
    pub fn object() -> (r: Json)
        ensures
            r@ == empty_object(),
    {
        Json::Object(Vec::new())
    }

    /// The object with a field set. Anything but an object is replaced by one.
    pub fn with(self, name: &str, value: Json) -> (r: Json)
        ensures
            r@ == self@.with(name@, value@),
    {
        let mut fields: Vec<(String, Json)> = match self {
            Json::Object(fields) => fields,
            _ => Vec::new(),
        };
        let ghost before = fields@;
        fields.push((name.to_string(), value));
        assert(fields@.drop_last() == before);
        assert(before.len() == 0 ==> fields_view(before) == Map::<Seq<char>, JsonView>::empty());
        Json::Object(fields)
    }

    /// The text of this value on one line. It is read back as it was written, unless it is nested
    /// too deep.
    pub fn to_text(&self) -> (text: String)
        ensures
            text@ == compact_json(self@),
            !text@.contains('\n'),
            self@.nested_within(DEPTH_READ as nat) ==> reads_as(text@, self@),
            self@.flat() ==> reads_as(text@, self@),
    {
        proof {
            if self@.flat() {
                lemma_flat(self@, DEPTH_READ as nat);
            }
        }
        let value = to_value(self);
        write_compact(&value)
    }

    /// The text of this value over several lines.
    pub fn to_pretty_text(&self) -> (text: String)
        ensures
            text@ == pretty_json(self@),
    {
        let value = to_value(self);
        write_pretty(&value)
    }

    /// The field of that name, where this is an object that has one.
    pub fn get(&self, name: &str) -> (r: Option<&Json>)
        ensures
            match r {
                Some(j) => self@.get(name@) == Some(j@),
                None => self@.get(name@) is None,
            },
    {
        match self {
            Json::Object(fields) => {
                let mut i: usize = fields.len();
                assert(fields@.take(i as int) == fields@);
                while i > 0
                    invariant
                        i <= fields@.len(),
                        *self matches Json::Object(f) && f == fields,
                        self@.get(name@) == JsonView::Object(fields_view(fields@.take(i as int))).get(
                            name@,
                        ),
                    decreases i,
                {
                    i -= 1;
                    assert(fields@.take(i + 1).drop_last() == fields@.take(i as int));
                    if same(fields[i].0.as_str(), name) {
                        return Some(&fields[i].1);
                    }
                }
                None
            },
            _ => None,
        }
    }

    /// The text in the field of that name.
    pub fn text_at(&self, name: &str) -> (r: Option<&str>)
        ensures
            match r {
                Some(s) => self@.text_at(name@) == Some(s@),
                None => self@.text_at(name@) is None,
            },
    {
        match self.get(name) {
            Some(Json::Text(s)) => Some(s.as_str()),
            _ => None,
        }
    }

    /// The text in the field of that name, or `other` where there is none.
    pub fn text_or<'a>(&'a self, name: &str, other: &'a str) -> (r: &'a str)
        ensures
            r@ == self@.text_or(name@, other@),
    {
        match self.text_at(name) {
            Some(s) => s,
            None => other,
        }
    }

    /// The truth value in the field of that name; false where there is none.
    pub fn flag_at(&self, name: &str) -> (r: bool)
        ensures
            r == self@.flag_at(name@),
    {
        match self.get(name) {
            Some(Json::Bool(b)) => *b,
            _ => false,
        }
    }

    /// The field `inner` of the object in the field `outer`.
    pub fn get_in(&self, outer: &str, inner: &str) -> (r: Option<&Json>)
        ensures
            match r {
                Some(j) => self@.get_in(outer@, inner@) == Some(j@),
                None => self@.get_in(outer@, inner@) is None,
            },
    {
        match self.get(outer) {
            Some(j) => j.get(inner),
            None => None,
        }
    }

    /// The same value once more.
    pub fn copy(&self) -> (r: Json)
        ensures
            r@ == self@,
        decreases self,
    {
        match self {
            Json::Null => Json::Null,
            Json::Bool(b) => Json::Bool(*b),
            Json::Number(n) => Json::Number(copy_number(n)),
            Json::Text(s) => Json::Text(s.clone()),
            Json::Array(items) => {
                let mut v: Vec<Json> = Vec::new();
                let mut i: usize = 0;
                assert(items@.take(0) == Seq::<Json>::empty());
                while i < items.len()
                    invariant
                        i <= items@.len(),
                        *self matches Json::Array(f) && f == items,
                        items_view(v@) == items_view(items@.take(i as int)),
                    decreases items@.len() - i,
                {
                    let j = items[i].copy();
                    proof {
                        lemma_items_push(v@, j);
                        assert(items@.take(i + 1).drop_last() == items@.take(i as int));
                    }
                    v.push(j);
                    i += 1;
                }
                assert(items@.take(i as int) == items@);
                Json::Array(v)
            },
            Json::Object(fields) => {
                let mut v: Vec<(String, Json)> = Vec::new();
                let mut i: usize = 0;
                assert(fields@.take(0) == Seq::<(String, Json)>::empty());
                while i < fields.len()
                    invariant
                        i <= fields@.len(),
                        *self matches Json::Object(f) && f == fields,
                        fields_view(v@) == fields_view(fields@.take(i as int)),
                    decreases fields@.len() - i,
                {
                    let name = fields[i].0.clone();
                    let j = fields[i].1.copy();
                    let ghost before = v@;
                    v.push((name, j));
                    assert(v@.drop_last() == before);
                    assert(fields@.take(i + 1).drop_last() == fields@.take(i as int));
                    i += 1;
                }
                assert(fields@.take(i as int) == fields@);
                Json::Object(v)
            },
        }
    }
}

/// `Clone` of `serde_json::Number` gives the same number.
#[verifier::external_body]
pub(crate) fn copy_number(number: &serde_json::Number) -> (r: serde_json::Number)
    ensures
        r == *number,
{
    number.clone()
}

// ── Laws ──

/// A field that is set is found under its name, and the other fields stay as they were.
pub proof fn law_field_is_found(
    object: JsonView,
    name: Seq<char>,
    value: JsonView,
    other: Seq<char>,
)
    ensures
        object.with(name, value).get(name) == Some(value),
        object is Object && other != name ==> object.with(name, value).get(other) == object.get(
            other,
        ),
        empty_object().get(name) is None,
{
}

/// A field is read as a text, as a truth value or as an object only where it is one.
pub proof fn law_field_is_what_it_is(
    object: JsonView,
    name: Seq<char>,
    inner: Seq<char>,
    t: Seq<char>,
    other: Seq<char>,
)
    ensures
        object.text_at(name) == Some(t) <==> object.get(name) == Some(JsonView::Text(t)),
        object.text_at(name) == Some(t) ==> object.text_or(name, other) == t,
        object.text_at(name) is None ==> object.text_or(name, other) == other,
        object.flag_at(name) <==> object.get(name) == Some(JsonView::Bool(true)),
        object.get(name) matches Some(j) ==> object.get_in(name, inner) == j.get(inner),
        object.get(name) is None ==> object.get_in(name, inner) is None,
{
}

/// An array holds the values of its items in their order, and an object the value of the last
/// field of each name.
pub proof fn law_what_json_holds(
    items: Seq<Json>,
    j: Json,
    fields: Seq<(String, Json)>,
    name: String,
    other: Seq<char>,
)
    ensures
        items_view(items.push(j)) == items_view(items).push(j@),
        items_view(Seq::empty()).len() == 0,
        fields_view(fields.push((name, j))).contains_key(name@),
        fields_view(fields.push((name, j)))[name@] == j@,
        other != name@ ==> fields_view(fields.push((name, j))).contains_key(other) == fields_view(
            fields,
        ).contains_key(other),
        other != name@ && fields_view(fields).contains_key(other) ==> fields_view(
            fields.push((name, j)),
        )[other] == fields_view(fields)[other],
        fields_view(Seq::empty()) == Map::<Seq<char>, JsonView>::empty(),
{
    assert(items.push(j).drop_last() == items);
    assert(fields.push((name, j)).drop_last() == fields);
}

}
