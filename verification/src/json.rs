//! JSON trees: their content, their fields, and their text.
//!
//! Text is read and written by the `serde_json` crate. A tree is held in [`Json`], and
//! [`JsonView`] is what a tree says: the order in which an object was filled plays no part.

use vstd::prelude::*;

use crate::text;

verus! {

// ---------------------------------------------------------------------------
// The outside crate's types
// ---------------------------------------------------------------------------

/// `serde_json::Value`, the tree that the crate's parser makes and its printer takes.
#[verifier::external_type_specification]
#[verifier::external_body]
pub struct ExValue(serde_json::Value);

/// `serde_json::Map`, the fields of an object of the crate.
#[verifier::external_type_specification]
#[verifier::external_body]
#[verifier::reject_recursive_types(K)]
#[verifier::reject_recursive_types(V)]
pub struct ExMap<K, V>(serde_json::Map<K, V>);

/// `serde_json::Number`, a JSON number; it is carried through from the text that held it.
#[verifier::external_type_specification]
#[verifier::external_body]
pub struct ExNumber(serde_json::Number);

// ---------------------------------------------------------------------------
// Trees
// ---------------------------------------------------------------------------

/// A JSON tree.
///
/// Where an object holds a key more than once, the last of its fields counts.
#[derive(Debug)]
pub enum Json {
    Null,
    Bool(bool),
    Number(serde_json::Number),
    Text(String),
    Array(Vec<Json>),
    Object(Vec<(String, Json)>),
}

/// What a JSON tree says.
pub enum JsonView {
    Null,
    Bool(bool),
    Number(serde_json::Number),
    Text(Seq<char>),
    Array(Seq<JsonView>),
    Object(Map<Seq<char>, JsonView>),
}

impl JsonView {
    /// The value of a field; `None` where there is no such field or the tree is not an object.
    pub open spec fn field(self, key: Seq<char>) -> Option<JsonView> {
        match self {
            JsonView::Object(fields) => if fields.contains_key(key) {
                Some(fields[key])
            } else {
                None
            },
            _ => None,
        }
    }

    /// The value of a field of a field.
    pub open spec fn inner_field(self, outer: Seq<char>, inner: Seq<char>) -> Option<JsonView> {
        match self.field(outer) {
            Some(tree) => tree.field(inner),
            None => None,
        }
    }

    /// The text that the tree is, if it is one.
    pub open spec fn as_text(self) -> Option<Seq<char>> {
        match self {
            JsonView::Text(text) => Some(text),
            _ => None,
        }
    }

    /// The tree with a field set; a tree that is not an object stays as it is.
    pub open spec fn with_field(self, key: Seq<char>, value: JsonView) -> JsonView {
        match self {
            JsonView::Object(fields) => JsonView::Object(fields.insert(key, value)),
            _ => self,
        }
    }

    /// Whether every number in the tree is an integer of 64 bits, and arrays and objects stand
    /// nested at most `depth` deep.
    pub open spec fn is_exact(self, depth: nat) -> bool
        decreases depth,
    {
        match self {
            JsonView::Number(number) => exists|i: int|
                i64::MIN <= i <= u64::MAX && number == #[trigger] integer_number(i),
            JsonView::Array(items) => depth > 0 && forall|i: int|
                0 <= i < items.len() ==> (#[trigger] items[i]).is_exact((depth - 1) as nat),
            JsonView::Object(fields) => depth > 0 && forall|key: Seq<char>|
                fields.contains_key(key) ==> (#[trigger] fields[key]).is_exact((depth - 1) as nat),
            _ => true,
        }
    }
}

/// The text of an optional tree, if it is there and is a text.
pub open spec fn text_in(tree: Option<JsonView>) -> Option<Seq<char>> {
    match tree {
        Some(tree) => tree.as_text(),
        None => None,
    }
}

/// The tree, or `null` where there is none.
pub open spec fn or_null(tree: Option<JsonView>) -> JsonView {
    match tree {
        Some(tree) => tree,
        None => JsonView::Null,
    }
}

/// How deep arrays and objects may stand nested in text that is read.
pub open spec fn nesting_limit() -> nat {
    127
}

// ---------------------------------------------------------------------------
// Names for what the outside crate computes
// ---------------------------------------------------------------------------

/// What a tree of the outside crate holds.
pub uninterp spec fn value_json(value: serde_json::Value) -> JsonView;

/// What a map of the outside crate holds.
pub uninterp spec fn map_json(
    map: serde_json::Map<String, serde_json::Value>,
) -> Map<Seq<char>, JsonView>;

/// What `serde_json::from_str` makes of a text: a tree, or the words of its error.
pub uninterp spec fn parsed_json(text: Seq<char>) -> Result<JsonView, Seq<char>>;

/// The text that `serde_json` prints for a tree, without white space between its parts.
pub uninterp spec fn compact_text(tree: JsonView) -> Seq<char>;

/// The text that `serde_json` prints for a tree, indented over several lines.
pub uninterp spec fn pretty_text(tree: JsonView) -> Seq<char>;

/// The text that `serde_json` prints for an object whose fields come in a given order, indented
/// over several lines.
pub uninterp spec fn pretty_fields(fields: Seq<(Seq<char>, JsonView)>) -> Seq<char>;

/// Whether `serde_json` holds two trees for equal.
pub uninterp spec fn same_tree(left: JsonView, right: JsonView) -> bool;

/// The JSON number of an integer.
pub uninterp spec fn integer_number(value: int) -> serde_json::Number;

// ---------------------------------------------------------------------------
// The outside crate's functions
// ---------------------------------------------------------------------------

/// What a parse gave, as content.
pub open spec fn parse_view(
    parsed: Result<serde_json::Value, String>,
) -> Result<JsonView, Seq<char>> {
    match parsed {
        Ok(value) => Ok(value_json(value)),
        Err(error) => Err(error@),
    }
}

/// Whether a text reads as a tree.
pub open spec fn reads_as(text: Seq<char>, tree: JsonView) -> bool {
    parsed_json(text) == Ok::<JsonView, Seq<char>>(tree)
}

/// Calls `serde_json::from_str` for a `serde_json::Value`; the tree, or the words of the error,
/// depend on the text alone.
#[verifier::external_body]
fn value_from_str(raw: &str) -> (parsed: Result<serde_json::Value, String>)
    ensures
        parse_view(parsed) == parsed_json(raw@),
{
    serde_json::from_str::<serde_json::Value>(raw).map_err(|error| error.to_string())
}

/// Takes a `serde_json::Value` apart, variant by variant; the tree holds what the value held.
#[verifier::external_body]
fn json_from_value(value: serde_json::Value) -> (tree: Json)
    ensures
        tree@ == value_json(value),
{
    match value {
        serde_json::Value::Null => Json::Null,
        serde_json::Value::Bool(truth) => Json::Bool(truth),
        serde_json::Value::Number(number) => Json::Number(number),
        serde_json::Value::String(string) => Json::Text(string),
        serde_json::Value::Array(items) => {
            Json::Array(items.into_iter().map(json_from_value).collect())
        },
        serde_json::Value::Object(fields) => {
            Json::Object(fields.into_iter().map(|(k, v)| (k, json_from_value(v))).collect())
        },
    }
}

/// Makes the `serde_json::Value` of a tree that is neither an array nor an object, variant by
/// variant; the value holds what the tree holds.
#[verifier::external_body]
fn value_of_leaf(tree: &Json) -> (value: serde_json::Value)
    requires
        !(tree is Array),
        !(tree is Object),
    ensures
        value_json(value) == tree@,
{
    match tree {
        Json::Bool(truth) => serde_json::Value::Bool(*truth),
        Json::Number(number) => serde_json::Value::Number(number.clone()),
        Json::Text(string) => serde_json::Value::String(string.clone()),
        _ => serde_json::Value::Null,
    }
}

/// Makes a `serde_json::Value::Array` of values; it holds what they hold, in their order.
#[verifier::external_body]
fn value_of_items(items: Vec<serde_json::Value>) -> (value: serde_json::Value)
    ensures
        value_json(value) == JsonView::Array(values_view(items@)),
{
    serde_json::Value::Array(items)
}

/// Makes a `serde_json::Value::Object` of a map; it holds what the map holds.
#[verifier::external_body]
fn value_of_map(map: serde_json::Map<String, serde_json::Value>) -> (value: serde_json::Value)
    ensures
        value_json(value) == JsonView::Object(map_json(map)),
{
    serde_json::Value::Object(map)
}

/// What an object without fields says.
pub open spec fn no_fields() -> Map<Seq<char>, JsonView> {
    Map::empty()
}

/// Calls `serde_json::Map::new`: a map without entries.
#[verifier::external_body]
fn new_map() -> (map: serde_json::Map<String, serde_json::Value>)
    ensures
        map_json(map) == no_fields(),
{
    serde_json::Map::new()
}

/// Calls `serde_json::Map::insert`: the key leads to the value from then on, whether or not it was
/// there before; no other key is touched.
#[verifier::external_body]
fn map_insert(
    map: &mut serde_json::Map<String, serde_json::Value>,
    key: String,
    value: serde_json::Value,
)
    ensures
        map_json(*final(map)) == map_json(*old(map)).insert(key@, value_json(value)),
{
    map.insert(key, value);
}

/// Prints a `serde_json::Value` with its `Display`, on one line without white space: the ends of
/// lines in a text are written as escapes. Text of a tree whose numbers are integers, and which is
/// not nested too deep, reads back as that tree.
#[verifier::external_body]
fn value_to_text(value: &serde_json::Value) -> (printed: String)
    ensures
        printed@ == compact_text(value_json(*value)),
        !printed@.contains('\n'),
        value_json(*value).is_exact(nesting_limit()) ==> reads_as(
            printed@,
            value_json(*value),
        ),
{
    value.to_string()
}

/// Prints a `serde_json::Value` with its alternate `Display`, indented. Text of a tree whose
/// numbers are integers, and which is not nested too deep, reads back as that tree.
#[verifier::external_body]
fn value_to_pretty(value: &serde_json::Value) -> (printed: String)
    ensures
        printed@ == pretty_text(value_json(*value)),
        value_json(*value).is_exact(nesting_limit()) ==> reads_as(
            printed@,
            value_json(*value),
        ),
{
    format!("{value:#}")
}

/// Whether no key occurs twice among fields.
pub open spec fn distinct_keys(fields: Seq<(String, Json)>) -> bool {
    forall|i: int, j: int|
        0 <= i < j < fields.len() ==> (#[trigger] fields[i]).0@ != (#[trigger] fields[j]).0@
}

/// Prints fields with `serde::Serializer::collect_map` of a `serde_json::Serializer::pretty`: an
/// object, indented, all its fields in the order in which they come; it starts with a brace. Where
/// every number is an integer and nothing is nested too deep, the text reads back as the object of
/// these fields.
#[verifier::external_body]
fn fields_to_pretty(fields: &Vec<(String, Json)>) -> (printed: String)
    requires
        distinct_keys(fields@),
    ensures
        printed@ == pretty_fields(listed_fields(fields@)),
        printed@.len() > 0 && printed@[0] == '{',
        JsonView::Object(fields_view(fields@)).is_exact(nesting_limit()) ==> reads_as(
            printed@,
            JsonView::Object(fields_view(fields@)),
        ),
{
    let mut out: Vec<u8> = Vec::new();
    let _ = serde::Serializer::collect_map(
        &mut serde_json::Serializer::pretty(&mut out),
        fields.iter().map(|(key, value)| (key, value_from_json(value))),
    );
    String::from_utf8(out).unwrap_or_default()
}

/// Compares two values with `==` of `serde_json::Value`. A tree equals itself, and trees whose
/// numbers are integers are equal only where they hold the same.
#[verifier::external_body]
fn values_equal(left: &serde_json::Value, right: &serde_json::Value) -> (equal: bool)
    ensures
        equal == same_tree(value_json(*left), value_json(*right)),
        value_json(*left) == value_json(*right) ==> equal,
        equal && value_json(*left).is_exact(nesting_limit()) && value_json(*right).is_exact(
            nesting_limit(),
        ) ==> value_json(*left) == value_json(*right),
{
    left == right
}

/// `serde_json::Number::clone` copies the number.
pub assume_specification[ <serde_json::Number as Clone>::clone ](
    number: &serde_json::Number,
) -> (copy: serde_json::Number)
    ensures
        copy == *number,
;

/// Makes a number with `serde_json::Number::from`; no other integer makes the same number.
#[verifier::external_body]
fn number_from_i64(value: i64) -> (number: serde_json::Number)
    ensures
        number == integer_number(value as int),
        forall|other: int|
            i64::MIN <= other <= u64::MAX && number == #[trigger] integer_number(other) ==> other
                == value,
{
    serde_json::Number::from(value)
}

/// Reads a number with `serde_json::Number::as_u64`: `Some` exactly for the numbers that were
/// made of an integer from zero on.
#[verifier::external_body]
fn number_as_u64(number: &serde_json::Number) -> (read: Option<u64>)
    ensures
        read matches Some(value) ==> *number == integer_number(value as int),
        forall|value: u64| *number == #[trigger] integer_number(value as int) ==> read == Some(value),
{
    number.as_u64()
}

// ---------------------------------------------------------------------------
// Content
// ---------------------------------------------------------------------------

impl Json {
    /// What the tree says.
    pub open spec fn view(&self) -> JsonView
        decreases self, 0nat,
    {
        match self {
            Json::Null => JsonView::Null,
            Json::Bool(truth) => JsonView::Bool(*truth),
            Json::Number(number) => JsonView::Number(*number),
            Json::Text(string) => JsonView::Text(string@),
            Json::Array(items) => JsonView::Array(items_view(items@)),
            Json::Object(fields) => JsonView::Object(fields_view(fields@)),
        }
    }
}

/// What the members of an array say.
pub open spec fn items_view(items: Seq<Json>) -> Seq<JsonView>
    decreases items, 1nat,
{
    Seq::new(
        items.len(),
        |i: int|
            if 0 <= i < items.len() {
                items[i].view()
            } else {
                JsonView::Null
            },
    )
}

/// What the fields of an object say; the last field of a key counts.
pub open spec fn fields_view(fields: Seq<(String, Json)>) -> Map<Seq<char>, JsonView>
    decreases fields, 1nat,
{
    if fields.len() == 0 {
        Map::empty()
    } else {
        fields_view(fields.drop_last()).insert(fields.last().0@, fields.last().1.view())
    }
}

/// What values of the outside crate hold, one by one.
pub open spec fn values_view(values: Seq<serde_json::Value>) -> Seq<JsonView> {
    values.map_values(|value: serde_json::Value| value_json(value))
}

/// Fields one by one, each key with what its value says.
pub open spec fn listed_fields(fields: Seq<(String, Json)>) -> Seq<(Seq<char>, JsonView)> {
    Seq::new(fields.len(), |i: int| (fields[i].0@, fields[i].1@))
}

/// What an optional tree says.
pub open spec fn option_view(tree: Option<Json>) -> Option<JsonView> {
    match tree {
        Some(tree) => Some(tree@),
        None => None,
    }
}

/// The keys with a value are those of the fields.
pub proof fn fields_view_keys(fields: Seq<(String, Json)>, key: Seq<char>)
    ensures
        fields_view(fields).contains_key(key) == exists|i: int|
            0 <= i < fields.len() && (#[trigger] fields[i]).0@ == key,
    decreases fields.len(),
{
    if fields.len() > 0 {
        let front = fields.drop_last();
        fields_view_keys(front, key);
        if fields.last().0@ == key {
            assert(fields[fields.len() - 1].0@ == key);
        } else {
            assert forall|i: int| 0 <= i < fields.len() && fields[i].0@ == key implies i
                < front.len() && #[trigger] front[i].0@ == key by {
            }
            if fields_view(front).contains_key(key) {
                let i = choose|i: int| 0 <= i < front.len() && (#[trigger] front[i]).0@ == key;
                assert(fields[i].0@ == key);
            }
            if exists|i: int| 0 <= i < fields.len() && (#[trigger] fields[i]).0@ == key {
                let i = choose|i: int| 0 <= i < fields.len() && (#[trigger] fields[i]).0@ == key;
                assert(front[i].0@ == key);
            }
        }
    }
}

/// A key has a value where some field has it, and the value is that of the last one.
proof fn fields_view_looks_up(fields: Seq<(String, Json)>, key: Seq<char>, at: int)
    requires
        -1 <= at < fields.len(),
        at >= 0 ==> fields[at].0@ == key,
        forall|j: int| at < j < fields.len() ==> (#[trigger] fields[j]).0@ != key,
    ensures
        fields_view(fields).contains_key(key) == (at >= 0),
        at >= 0 ==> fields_view(fields)[key] == fields[at].1@,
    decreases fields.len(),
{
    if fields.len() > 0 && at < fields.len() - 1 {
        assert(fields.last().0@ != key);
        let front = fields.drop_last();
        assert forall|j: int| at < j < front.len() implies (#[trigger] front[j]).0@ != key by {
            assert(fields[j].0@ != key);
        }
        fields_view_looks_up(front, key, at);
    }
}

/// To replace the last field of a key is to set the key.
proof fn fields_view_replaces(fields: Seq<(String, Json)>, at: int, entry: (String, Json))
    requires
        0 <= at < fields.len(),
        fields[at].0@ == entry.0@,
        forall|j: int| at < j < fields.len() ==> (#[trigger] fields[j]).0@ != entry.0@,
    ensures
        fields_view(fields.update(at, entry)) == fields_view(fields).insert(entry.0@, entry.1@),
    decreases fields.len(),
{
    let changed = fields.update(at, entry);
    if at == fields.len() - 1 {
        assert(changed.drop_last() =~= fields.drop_last());
        assert(fields_view(changed) =~= fields_view(fields).insert(entry.0@, entry.1@));
    } else {
        let front = fields.drop_last();
        assert forall|j: int| at < j < front.len() implies (#[trigger] front[j]).0@
            != entry.0@ by {
            assert(fields[j].0@ != entry.0@);
        }
        fields_view_replaces(front, at, entry);
        assert(changed.drop_last() =~= front.update(at, entry));
        assert(fields.last().0@ != entry.0@);
        assert(fields_view(changed) =~= fields_view(fields).insert(entry.0@, entry.1@));
    }
}

/// The position of the last field with a key.
fn find_field(fields: &Vec<(String, Json)>, key: &str) -> (at: Option<usize>)
    ensures
        at is Some == fields_view(fields@).contains_key(key@),
        at matches Some(i) ==> {
            &&& i < fields@.len()
            &&& fields@[i as int].0@ == key@
            &&& fields_view(fields@)[key@] == fields@[i as int].1@
            &&& forall|j: int| i < j < fields@.len() ==> (#[trigger] fields@[j]).0@ != key@
        },
{
    let mut end: usize = fields.len();
    while end > 0
        invariant
            end <= fields@.len(),
            forall|j: int| end <= j < fields@.len() ==> (#[trigger] fields@[j]).0@ != key@,
        decreases end,
    {
        if text::same_text(fields[end - 1].0.as_str(), key) {
            proof {
                fields_view_looks_up(fields@, key@, end - 1);
            }
            return Some(end - 1);
        }
        end -= 1;
    }
    proof {
        fields_view_looks_up(fields@, key@, -1);
    }
    None
}

/// The value of a key among the fields of an object.
pub fn get_field<'a>(fields: &'a Vec<(String, Json)>, key: &str) -> (value: Option<&'a Json>)
    ensures
        value is Some == fields_view(fields@).contains_key(key@),
        value matches Some(v) ==> v@ == fields_view(fields@)[key@],
{
    match find_field(fields, key) {
        Some(at) => Some(&fields[at].1),
        None => None,
    }
}

/// Sets the value of a key among the fields of an object.
pub fn put_field(fields: &mut Vec<(String, Json)>, key: &str, value: Json)
    ensures
        fields_view(final(fields)@) == fields_view(old(fields)@).insert(key@, value@),
{
    let ghost before = fields@;
    let at = find_field(fields, key);
    let entry = (key.to_owned(), value);
    let ghost put = entry;
    match at {
        Some(i) => {
            fields.set(i, entry);
            proof {
                fields_view_replaces(before, i as int, put);
            }
        },
        None => {
            fields.push(entry);
            proof {
                assert(fields@.drop_last() =~= before);
            }
        },
    }
}

/// The text of an object with its fields in the order in which they come, indented.
pub fn print_fields(fields: &Vec<(String, Json)>) -> (printed: String)
    requires
        distinct_keys(fields@),
    ensures
        printed@ == pretty_fields(listed_fields(fields@)),
        printed@.len() > 0 && printed@[0] == '{',
        JsonView::Object(fields_view(fields@)).is_exact(nesting_limit()) ==> reads_as(
            printed@,
            JsonView::Object(fields_view(fields@)),
        ),
{
    fields_to_pretty(fields)
}

/// A copy of the fields of an object.
pub fn copy_fields(fields: &Vec<(String, Json)>) -> (copies: Vec<(String, Json)>)
    ensures
        fields_view(copies@) == fields_view(fields@),
    decreases fields,
{
    let mut copies: Vec<(String, Json)> = Vec::new();
    let mut i: usize = 0;
    proof {
        assert(fields@.take(0) =~= copies@);
    }
    while i < fields.len()
        invariant
            i <= fields@.len(),
            fields_view(copies@) == fields_view(fields@.take(i as int)),
        decreases fields@.len() - i,
    {
        let ghost before = copies@;
        proof {
            assert(decreases_to!(fields => fields[i as int]));
            assert(decreases_to!(fields[i as int] => fields[i as int].1));
        }
        copies.push((fields[i].0.clone(), fields[i].1.duplicate()));
        proof {
            assert(copies@.drop_last() =~= before);
            assert(fields@.take(i + 1).drop_last() =~= fields@.take(i as int));
        }
        i += 1;
    }
    proof {
        assert(fields@.take(fields@.len() as int) =~= fields@);
    }
    copies
}

/// A copy of the members of an array.
pub fn copy_items(items: &Vec<Json>) -> (copies: Vec<Json>)
    ensures
        items_view(copies@) == items_view(items@),
    decreases items,
{
    let mut copies: Vec<Json> = Vec::new();
    let mut i: usize = 0;
    while i < items.len()
        invariant
            i <= items@.len(),
            copies@.len() == i,
            forall|j: int| 0 <= j < i ==> (#[trigger] copies@[j])@ == items@[j]@,
        decreases items@.len() - i,
    {
        proof {
            assert(decreases_to!(items => items[i as int]));
        }
        copies.push(items[i].duplicate());
        i += 1;
    }
    proof {
        assert(items_view(copies@) =~= items_view(items@));
    }
    copies
}

/// The map of the outside crate that holds what fields say.
fn map_from_fields(fields: &Vec<(String, Json)>) -> (map: serde_json::Map<
    String,
    serde_json::Value,
>)
    ensures
        map_json(map) == fields_view(fields@),
    decreases fields,
{
    let mut map = new_map();
    let mut i: usize = 0;
    proof {
        assert(fields@.take(0) =~= Seq::empty());
    }
    while i < fields.len()
        invariant
            i <= fields@.len(),
            map_json(map) == fields_view(fields@.take(i as int)),
        decreases fields@.len() - i,
    {
        proof {
            assert(decreases_to!(fields => fields[i as int]));
            assert(decreases_to!(fields[i as int] => fields[i as int].1));
            assert(fields@.take(i + 1).drop_last() =~= fields@.take(i as int));
        }
        map_insert(&mut map, fields[i].0.clone(), value_from_json(&fields[i].1));
        i += 1;
    }
    proof {
        assert(fields@.take(fields@.len() as int) =~= fields@);
    }
    map
}

/// The values of the outside crate that hold what the members of an array say.
fn values_from_items(items: &Vec<Json>) -> (values: Vec<serde_json::Value>)
    ensures
        values_view(values@) == items_view(items@),
    decreases items,
{
    let mut values: Vec<serde_json::Value> = Vec::new();
    let mut i: usize = 0;
    while i < items.len()
        invariant
            i <= items@.len(),
            values@.len() == i,
            forall|j: int| 0 <= j < i ==> value_json(#[trigger] values@[j]) == items@[j]@,
        decreases items@.len() - i,
    {
        proof {
            assert(decreases_to!(items => items[i as int]));
        }
        values.push(value_from_json(&items[i]));
        i += 1;
    }
    proof {
        assert(values_view(values@) =~= items_view(items@));
    }
    values
}

/// The value of the outside crate that holds what a tree says; of fields with the same key it holds
/// the last.
fn value_from_json(tree: &Json) -> (value: serde_json::Value)
    ensures
        value_json(value) == tree@,
    decreases tree,
{
    match tree {
        Json::Array(items) => value_of_items(values_from_items(items)),
        Json::Object(fields) => value_of_map(map_from_fields(fields)),
        _ => value_of_leaf(tree),
    }
}

impl Json {
    /// A copy of the tree.
    pub fn duplicate(&self) -> (copy: Json)
        ensures
            copy@ == self@,
        decreases self,
    {
        match self {
            Json::Null => Json::Null,
            Json::Bool(truth) => Json::Bool(*truth),
            Json::Number(number) => Json::Number(number.clone()),
            Json::Text(string) => Json::Text(string.clone()),
            Json::Array(items) => Json::Array(copy_items(items)),
            Json::Object(fields) => Json::Object(copy_fields(fields)),
        }
    }

    /// A text.
    pub fn text(string: &str) -> (tree: Json)
        ensures
            tree@ == JsonView::Text(string@),
    {
        Json::Text(string.to_owned())
    }

    /// A text, or `null` where there is none.
    pub fn optional_text(string: &Option<String>) -> (tree: Json)
        ensures
            tree@ == (match *string {
                Some(s) => JsonView::Text(s@),
                None => JsonView::Null,
            }),
    {
        match string {
            Some(s) => Json::Text(s.clone()),
            None => Json::Null,
        }
    }

    /// An integer.
    pub fn integer(value: i64) -> (tree: Json)
        ensures
            tree@ == JsonView::Number(integer_number(value as int)),
            forall|other: int|
                i64::MIN <= other <= u64::MAX && integer_number(value as int)
                    == #[trigger] integer_number(other) ==> other == value,
    {
        Json::Number(number_from_i64(value))
    }

    /// The integer that the tree is, where it is one from zero on.
    pub fn as_u64(&self) -> (value: Option<u64>)
        ensures
            value matches Some(n) ==> self@ == JsonView::Number(integer_number(n as int)),
            forall|n: u64|
                self@ == JsonView::Number(#[trigger] integer_number(n as int)) ==> value == Some(n),
    {
        match self {
            Json::Number(number) => number_as_u64(number),
            _ => None,
        }
    }

    /// An object without fields.
    pub fn empty_object() -> (tree: Json)
        ensures
            tree@ == JsonView::Object(Map::empty()),
    {
        Json::Object(Vec::new())
    }

    /// The value of a field.
    pub fn field(&self, key: &str) -> (value: Option<&Json>)
        ensures
            value is Some == self@.field(key@) is Some,
            value matches Some(v) ==> self@.field(key@) == Some(v@),
    {
        match self {
            Json::Object(fields) => get_field(fields, key),
            _ => None,
        }
    }

    /// A copy of the value of a field.
    pub fn field_copy(&self, key: &str) -> (value: Option<Json>)
        ensures
            option_view(value) == self@.field(key@),
    {
        match self.field(key) {
            Some(tree) => Some(tree.duplicate()),
            None => None,
        }
    }

    /// The text that the tree is, if it is one.
    pub fn as_text(&self) -> (string: Option<String>)
        ensures
            string is Some == self@.as_text() is Some,
            string matches Some(s) ==> self@.as_text() == Some(s@),
    {
        match self {
            Json::Text(string) => Some(string.clone()),
            _ => None,
        }
    }

    /// The text in a field, if there is one.
    pub fn text_field(&self, key: &str) -> (string: Option<String>)
        ensures
            string is Some == text_in(self@.field(key@)) is Some,
            string matches Some(s) ==> text_in(self@.field(key@)) == Some(s@),
    {
        match self.field(key) {
            Some(tree) => tree.as_text(),
            None => None,
        }
    }

    /// Sets a field; a tree that is not an object stays as it is.
    pub fn set_field(&mut self, key: &str, value: Json)
        ensures
            final(self)@ == old(self)@.with_field(key@, value@),
    {
        match self {
            Json::Object(fields) => {
                put_field(fields, key, value);
            },
            _ => {},
        }
    }

    /// The object with one more field.
    pub fn and(self, key: &str, value: Json) -> (tree: Json)
        ensures
            tree@ == self@.with_field(key@, value@),
    {
        let mut tree = self;
        tree.set_field(key, value);
        tree
    }

    /// Reads a tree from its text.
    pub fn parse(raw: &str) -> (parsed: Result<Json, String>)
        ensures
            parsed_view(parsed) == parsed_json(raw@),
    {
        match value_from_str(raw) {
            Ok(value) => Ok(json_from_value(value)),
            Err(error) => Err(error),
        }
    }

    /// The text of the tree, on one line.
    pub fn to_text(&self) -> (printed: String)
        ensures
            printed@ == compact_text(self@),
            !printed@.contains('\n'),
            self@.is_exact(nesting_limit()) ==> reads_as(printed@, self@),
    {
        value_to_text(&value_from_json(self))
    }

    /// The text of the tree, indented.
    pub fn to_pretty(&self) -> (printed: String)
        ensures
            printed@ == pretty_text(self@),
            self@.is_exact(nesting_limit()) ==> reads_as(printed@, self@),
    {
        value_to_pretty(&value_from_json(self))
    }

    /// Whether two trees are equal.
    pub fn equals(&self, other: &Json) -> (equal: bool)
        ensures
            equal == same_tree(self@, other@),
            self@ == other@ ==> equal,
            equal && self@.is_exact(nesting_limit()) && other@.is_exact(nesting_limit()) ==> self@
                == other@,
    {
        values_equal(&value_from_json(self), &value_from_json(other))
    }
}

/// What a parse gave, as content.
pub open spec fn parsed_view(parsed: Result<Json, String>) -> Result<JsonView, Seq<char>> {
    match parsed {
        Ok(tree) => Ok(tree@),
        Err(error) => Err(error@),
    }
}

}
