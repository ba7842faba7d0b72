//! JSON values: what the protocol's messages are made of.
//!
//! [`Json`] is the value that the library reads and builds. Text is parsed and
//! rendered by `serde_json`, and a [`serde_json::Value`] converts to a [`Json`]
//! and back.

use crate::text::{chars_of, same_text};
use vstd::prelude::*;
use vstd::string::*;

verus! {

/// `serde_json::Number`, carried through unread.
#[verifier::external_type_specification]
#[verifier::external_body]
pub struct ExNumber(serde_json::Number);

/// `serde_json::Value`, what JSON text is parsed into and rendered from.
#[verifier::external_type_specification]
#[verifier::external_body]
pub struct ExValue(serde_json::Value);

/// A JSON value.
#[derive(Debug)]
pub enum Json {
    Null,
    Bool(bool),
    Number(serde_json::Number),
    Text(String),
    Array(Vec<Json>),
    Object(JsonObject),
}

/// A JSON object: its entries are added in turn, and a later entry replaces an
/// earlier one with the same key.
#[derive(Debug)]
pub struct JsonObject {
    pub entries: Vec<(String, Json)>,
}

/// The mathematical model of a JSON value.
#[verifier::ext_equal]
pub enum JsonView {
    Null,
    Bool(bool),
    Integer(int),
    Float(serde_json::Number),
    Text(Seq<char>),
    Array(Seq<JsonView>),
    Object(Map<Seq<char>, JsonView>),
}

/// The integer that a number is, where it is one and not a fraction.
pub uninterp spec fn number_int(n: serde_json::Number) -> Option<int>;

/// The value that a `serde_json::Value` holds.
pub uninterp spec fn value_view(value: serde_json::Value) -> JsonView;

/// What `serde_json::from_str` makes of a text: `None` where it is no JSON.
pub uninterp spec fn parsed_json(text: Seq<char>) -> Option<JsonView>;

/// The compact text that `serde_json` renders a value as.
pub uninterp spec fn json_text(value: JsonView) -> Seq<char>;

/// The key that `serde_json`, built with raw values, keeps for an object that stands for
/// JSON in a text.
pub open spec fn reserved_key() -> Seq<char> {
    "$serde_json::private::RawValue"@
}

/// The model of a number.
pub open spec fn number_view(n: serde_json::Number) -> JsonView {
    match number_int(n) {
        Some(i) => JsonView::Integer(i),
        None => JsonView::Float(n),
    }
}

/// The model of the items of an array.
pub open spec fn items_view(items: Seq<Json>) -> Seq<JsonView>
    decreases items,
{
    if items.len() == 0 {
        Seq::empty()
    } else {
        items_view(items.drop_last()).push(json_view(items.last()))
    }
}

/// The model of the entries of an object.
pub open spec fn entries_view(entries: Seq<(String, Json)>) -> Map<Seq<char>, JsonView>
    decreases entries,
{
    if entries.len() == 0 {
        Map::empty()
    } else {
        entries_view(entries.drop_last()).insert(entries.last().0@, json_view(entries.last().1))
    }
}

/// The model of a value.
pub open spec fn json_view(json: Json) -> JsonView
    decreases json,
{
    match json {
        Json::Null => JsonView::Null,
        Json::Bool(b) => JsonView::Bool(b),
        Json::Number(n) => number_view(n),
        Json::Text(s) => JsonView::Text(s@),
        Json::Array(items) => JsonView::Array(items_view(items@)),
        Json::Object(object) => JsonView::Object(entries_view(object.entries@)),
    }
}

impl View for Json {
    type V = JsonView;

    open spec fn view(&self) -> JsonView {
        json_view(*self)
    }
}

impl View for JsonObject {
    type V = Map<Seq<char>, JsonView>;

    open spec fn view(&self) -> Map<Seq<char>, JsonView> {
        entries_view(self.entries@)
    }
}

/// Whether a text is a decimal number as an array index is written: digits, and
/// no zero in front of others.
pub open spec fn is_index_token(token: Seq<char>) -> bool {
    &&& token.len() > 0
    &&& forall|i: int| 0 <= i < token.len() ==> '0' <= #[trigger] token[i] <= '9'
    &&& token.len() > 1 ==> token[0] != '0'
}

/// The number that decimal digits stand for.
pub open spec fn decimal_value(digits: Seq<char>) -> int
    decreases digits.len(),
{
    if digits.len() == 0 {
        0
    } else {
        decimal_value(digits.drop_last()) * 10 + (digits.last() as int - '0' as int)
    }
}

impl JsonView {
    /// The member of an object under a key.
    pub open spec fn get(self, key: Seq<char>) -> Option<JsonView> {
        match self {
            JsonView::Object(members) => if members.contains_key(key) {
                Some(members[key])
            } else {
                None
            },
            _ => None,
        }
    }

    /// The text that a value is, where it is one.
    pub open spec fn text(self) -> Option<Seq<char>> {
        match self {
            JsonView::Text(s) => Some(s),
            _ => None,
        }
    }

    /// The items of an array.
    pub open spec fn items(self) -> Option<Seq<JsonView>> {
        match self {
            JsonView::Array(items) => Some(items),
            _ => None,
        }
    }

    /// The value that one step of a JSON pointer leads to: the member of an object
    /// under the token, or the item of an array at the index that the token is.
    pub open spec fn child(self, token: Seq<char>) -> Option<JsonView> {
        match self {
            JsonView::Array(items) => if is_index_token(token) && decimal_value(token)
                < items.len() {
                Some(items[decimal_value(token)])
            } else {
                None
            },
            _ => self.get(token),
        }
    }

    /// The value at the end of a path of tokens.
    pub open spec fn pointer(self, tokens: Seq<Seq<char>>) -> Option<JsonView>
        decreases tokens.len(),
    {
        if tokens.len() == 0 {
            Some(self)
        } else {
            match self.child(tokens[0]) {
                Some(next) => next.pointer(tokens.drop_first()),
                None => None,
            }
        }
    }

    /// The text of a member, or another text where there is no such member or it is
    /// no text.
    pub open spec fn text_member_or(self, key: Seq<char>, otherwise: Seq<char>) -> Seq<char> {
        match self.get(key) {
            Some(member) => match member.text() {
                Some(s) => s,
                None => otherwise,
            },
            None => otherwise,
        }
    }

    /// Whether a value holds no fraction and no object with the reserved key, and nests
    /// no more than `depth` arrays and objects in one another.
    pub open spec fn plain_within(self, depth: nat) -> bool
        decreases depth,
    {
        match self {
            JsonView::Float(_) => false,
            JsonView::Array(items) => depth > 0 && forall|i: int|
                0 <= i < items.len() ==> (#[trigger] items[i]).plain_within((depth - 1) as nat),
            JsonView::Object(members) => depth > 0 && !members.contains_key(reserved_key())
                && forall|k: Seq<char>| #[trigger]
                members.contains_key(k) ==> members[k].plain_within((depth - 1) as nat),
            _ => true,
        }
    }
}

/// `Number::from` for `u64`: the number is that integer.
#[verifier::external_body]
fn number_from_u64(n: u64) -> (number: serde_json::Number)
    ensures
        number_int(number) == Some(n as int),
{
    serde_json::Number::from(n)
}

/// `Number::from` for `i64`: the number is that integer.
#[verifier::external_body]
fn number_from_i64(n: i64) -> (number: serde_json::Number)
    ensures
        number_int(number) == Some(n as int),
{
    serde_json::Number::from(n)
}

/// `Number::clone`: a copy is the same number.
#[verifier::external_body]
fn number_clone(n: &serde_json::Number) -> (copy: serde_json::Number)
    ensures
        copy == *n,
{
    n.clone()
}

/// The outermost layer of a `serde_json::Value`: its variant and what is directly in it.
enum Layer {
    Null,
    Bool(bool),
    Number(serde_json::Number),
    Text(String),
    Array(Vec<serde_json::Value>),
    Object(Vec<(String, serde_json::Value)>),
}

/// The model of values in an array.
spec fn values_view(values: Seq<serde_json::Value>) -> Seq<JsonView> {
    values.map_values(|value: serde_json::Value| value_view(value))
}

/// The model of an object that members are added to in turn.
spec fn members_view(members: Seq<(String, serde_json::Value)>) -> Map<Seq<char>, JsonView>
    decreases members.len(),
{
    if members.len() == 0 {
        Map::empty()
    } else {
        members_view(members.drop_last()).insert(members.last().0@, value_view(members.last().1))
    }
}

/// The model of a layer.
spec fn layer_view(layer: Layer) -> JsonView {
    match layer {
        Layer::Null => JsonView::Null,
        Layer::Bool(b) => JsonView::Bool(b),
        Layer::Number(n) => number_view(n),
        Layer::Text(s) => JsonView::Text(s@),
        Layer::Array(values) => JsonView::Array(values_view(values@)),
        Layer::Object(members) => JsonView::Object(members_view(members@)),
    }
}

/// Whether the members of an object have different keys.
spec fn distinct_keys(members: Seq<(String, serde_json::Value)>) -> bool {
    forall|i: int, j: int|
        0 <= i < j < members.len() ==> (#[trigger] members[i]).0@ != (#[trigger] members[j]).0@
}

/// Tells the variants of a `serde_json::Value` apart. The value holds what its outermost
/// layer holds, and the members of an object have different keys.
#[verifier::external_body]
fn open_value(value: serde_json::Value) -> (layer: Layer)
    ensures
        layer_view(layer) == value_view(value),
        layer matches Layer::Object(members) ==> distinct_keys(members@),
{
    match value {
        serde_json::Value::Null => Layer::Null,
        serde_json::Value::Bool(b) => Layer::Bool(b),
        serde_json::Value::Number(n) => Layer::Number(n),
        serde_json::Value::String(s) => Layer::Text(s),
        serde_json::Value::Array(values) => Layer::Array(values),
        serde_json::Value::Object(members) => Layer::Object(members.into_iter().collect()),
    }
}

/// Makes a `serde_json::Value` of the variant that a layer stands for. The value holds
/// what the layer holds; the members of an object are collected into a `serde_json::Map`,
/// where a later one replaces an earlier one with the same key.
#[verifier::external_body]
fn close_value(layer: Layer) -> (value: serde_json::Value)
    ensures
        value_view(value) == layer_view(layer),
{
    match layer {
        Layer::Null => serde_json::Value::Null,
        Layer::Bool(b) => serde_json::Value::Bool(b),
        Layer::Number(n) => serde_json::Value::Number(n),
        Layer::Text(s) => serde_json::Value::String(s),
        Layer::Array(values) => serde_json::Value::Array(values),
        Layer::Object(members) => serde_json::Value::Object(members.into_iter().collect()),
    }
}

/// `serde_json::from_str` for `serde_json::Value`. Its result depends on the text
/// alone; what it is has the name [`parsed_json`].
#[verifier::external_body]
fn parse_value(text: &str) -> (value: Option<serde_json::Value>)
    ensures
        match value {
            Some(v) => parsed_json(text@) == Some(value_view(v)),
            None => parsed_json(text@) is None,
        },
{
    serde_json::from_str(text).ok()
}

/// `Display` of `serde_json::Value`. The text depends on what the value holds alone
/// and has the name [`json_text`]. Parsing the text gives the value back, where it
/// holds no fraction and no object with the reserved key, and nests less deep than the
/// parser's limit of 128: a fraction may come back as its neighbour, an object that
/// starts with the reserved key is taken for raw JSON, and deeper text is refused.
#[verifier::external_body]
fn value_text(value: &serde_json::Value) -> (text: String)
    ensures
        text@ == json_text(value_view(*value)),
        value_view(*value).plain_within(127) ==> parsed_json(text@) == Some(value_view(*value)),
{
    value.to_string()
}

/// The model of an array has its items' models in their order.
pub(crate) proof fn lemma_items_view(items: Seq<Json>)
    ensures
        items_view(items).len() == items.len(),
        forall|i: int| 0 <= i < items.len() ==> #[trigger] items_view(items)[i] == items[i]@,
    decreases items.len(),
{
    if items.len() > 0 {
        lemma_items_view(items.drop_last());
        assert forall|i: int| 0 <= i < items.len() implies #[trigger] items_view(items)[i]
            == items[i]@ by {
            if i < items.len() - 1 {
                assert(items_view(items.drop_last())[i] == items.drop_last()[i]@);
            }
        }
    }
}

proof fn lemma_items_push(items: Seq<Json>, item: Json)
    ensures
        items_view(items.push(item)) == items_view(items).push(item@),
{
    assert(items.push(item).drop_last() =~= items);
}

proof fn lemma_entries_push(entries: Seq<(String, Json)>, key: String, value: Json)
    ensures
        entries_view(entries.push((key, value))) == entries_view(entries).insert(key@, value@),
{
    assert(entries.push((key, value)).drop_last() =~= entries);
}

proof fn lemma_members_view(members: Seq<(String, serde_json::Value)>, i: int)
    requires
        distinct_keys(members),
        0 <= i < members.len(),
    ensures
        members_view(members).dom().finite(),
        members_view(members).contains_key(members[i].0@),
        members_view(members)[members[i].0@] == value_view(members[i].1),
    decreases members.len(),
{
    let rest = members.drop_last();
    lemma_members_finite(rest);
    if i < members.len() - 1 {
        lemma_members_view(rest, i);
        assert(members[i].0@ != members[members.len() - 1].0@);
    }
}

proof fn lemma_members_finite(members: Seq<(String, serde_json::Value)>)
    ensures
        members_view(members).dom().finite(),
    decreases members.len(),
{
    if members.len() > 0 {
        lemma_members_finite(members.drop_last());
    }
}

impl Clone for Json {
    fn clone(&self) -> (copy: Json)
        ensures
            copy@ == self@,
        decreases self,
    {
        match self {
            Json::Null => Json::Null,
            Json::Bool(b) => Json::Bool(*b),
            Json::Number(n) => Json::Number(number_clone(n)),
            Json::Text(s) => Json::Text(s.clone()),
            Json::Array(items) => {
                assert(decreases_to!(*self => self->Array_0));
                Json::Array(clone_items(items))
            },
            Json::Object(object) => {
                let entries: &Vec<(String, Json)> = &object.entries;
                let mut copies: Vec<(String, Json)> = Vec::new();
                let mut i: usize = 0;
                while i < entries.len()
                    invariant
                        self == Json::Object(*object),
                        object.entries == *entries,
                        i <= entries.len(),
                        entries_view(copies@) == entries_view(entries@.take(i as int)),
                    decreases entries.len() - i,
                {
                    let ghost before = copies@;
                    let key: String = entries[i].0.clone();
                    assert(decreases_to!(*self => self->Object_0));
                    assert(decreases_to!(*object => object.entries));
                    assert(decreases_to!(entries@ => entries@[i as int]));
                    assert(decreases_to!(entries@[i as int] => entries@[i as int].1));
                    let value: Json = entries[i].1.clone();
                    copies.push((key, value));
                    proof {
                        lemma_entries_push(before, key, value);
                        lemma_entries_push(
                            entries@.take(i as int),
                            entries@[i as int].0,
                            entries@[i as int].1,
                        );
                        assert(entries@.take(i + 1) =~= entries@.take(i as int).push(
                            entries@[i as int],
                        ));
                    }
                    i += 1;
                }
                assert(entries@.take(entries@.len() as int) =~= entries@);
                Json::Object(JsonObject { entries: copies })
            },
        }
    }
}

impl JsonObject {
    /// An object without members.
    pub fn new() -> (object: JsonObject)
        ensures
            object@ == Map::<Seq<char>, JsonView>::empty(),
    {
        JsonObject { entries: Vec::new() }
    }

    /// The object with one more member, or with another value for its key.
    pub fn with(self, key: &str, value: Json) -> (object: JsonObject)
        ensures
            object@ == self@.insert(key@, value@),
    {
        let mut entries: Vec<(String, Json)> = self.entries;
        let name: String = key.to_owned();
        proof {
            lemma_entries_push(entries@, name, value);
        }
        entries.push((name, value));
        JsonObject { entries }
    }

    /// The member under a key.
    pub fn get(&self, key: &str) -> (member: Option<&Json>)
        ensures
            match member {
                Some(value) => self@.contains_key(key@) && self@[key@] == value@,
                None => !self@.contains_key(key@),
            },
    {
        let mut i: usize = self.entries.len();
        assert(self.entries@.take(self.entries@.len() as int) =~= self.entries@);
        while i > 0
            invariant
                i <= self.entries.len(),
                self@.contains_key(key@) == entries_view(self.entries@.take(i as int)).contains_key(
                    key@,
                ),
                self@.contains_key(key@) ==> self@[key@] == entries_view(
                    self.entries@.take(i as int),
                )[key@],
            decreases i,
        {
            i -= 1;
            let ghost seen = self.entries@.take(i + 1);
            assert(seen.drop_last() =~= self.entries@.take(i as int));
            assert(seen.last() == self.entries@[i as int]);
            if same_text(self.entries[i].0.as_str(), key) {
                return Some(&self.entries[i].1);
            }
        }
        None
    }
}

proof fn lemma_decimal_value_grows(digits: Seq<char>, shorter: int)
    requires
        0 <= shorter <= digits.len(),
        forall|i: int| 0 <= i < digits.len() ==> '0' <= #[trigger] digits[i] <= '9',
    ensures
        0 <= decimal_value(digits.take(shorter)) <= decimal_value(digits),
    decreases digits.len(),
{
    if digits.len() == 0 {
        assert(digits.take(shorter) =~= digits);
    } else if shorter == digits.len() {
        assert(digits.take(shorter) =~= digits);
        lemma_decimal_value_grows(digits.drop_last(), 0);
        assert(digits.drop_last().take(0) =~= Seq::<char>::empty());
    } else {
        lemma_decimal_value_grows(digits.drop_last(), shorter);
        assert(digits.drop_last().take(shorter) =~= digits.take(shorter));
    }
}

/// The array index that a token is written for, where it is one and fits.
fn index_of_token(token: &str) -> (index: Option<usize>)
    ensures
        match index {
            Some(n) => is_index_token(token@) && decimal_value(token@) == n,
            None => !is_index_token(token@) || decimal_value(token@) > usize::MAX,
        },
{
    let digits: Vec<char> = chars_of(token);
    if digits.len() == 0 || (digits.len() > 1 && digits[0] == '0') {
        return None;
    }
    let mut i: usize = 0;
    while i < digits.len()
        invariant
            digits@ == token@,
            i <= digits.len(),
            forall|j: int| 0 <= j < i ==> '0' <= #[trigger] token@[j] <= '9',
        decreases digits.len() - i,
    {
        if digits[i] < '0' || digits[i] > '9' {
            return None;
        }
        i += 1;
    }
    let mut value: usize = 0;
    let mut k: usize = 0;
    while k < digits.len()
        invariant
            digits@ == token@,
            is_index_token(token@),
            k <= digits.len(),
            value == decimal_value(token@.take(k as int)),
        decreases digits.len() - k,
    {
        let digit: usize = (digits[k] as u8 - '0' as u8) as usize;
        proof {
            assert(token@.take(k + 1).drop_last() =~= token@.take(k as int));
            lemma_decimal_value_grows(token@, k + 1);
        }
        if value > usize::MAX / 10 || value * 10 > usize::MAX - digit {
            return None;
        }
        value = value * 10 + digit;
        k += 1;
    }
    assert(token@.take(token@.len() as int) =~= token@);
    Some(value)
}

/// The texts that tokens are.
pub open spec fn tokens_view(tokens: Seq<&str>) -> Seq<Seq<char>> {
    tokens.map_values(|token: &str| token@)
}

impl Json {
    /// What a `serde_json::Value` holds.
    pub fn from_value(value: serde_json::Value) -> (json: Json)
        ensures
            json@ == value_view(value),
        decreases value_view(value),
    {
        match open_value(value) {
            Layer::Null => Json::Null,
            Layer::Bool(b) => Json::Bool(b),
            Layer::Number(n) => Json::Number(n),
            Layer::Text(s) => Json::Text(s),
            Layer::Array(values) => {
                let ghost all = values@;
                let mut items: Vec<Json> = Vec::new();
                for item in it: values
                    invariant
                        it.seq() == all,
                        value_view(value) == JsonView::Array(values_view(all)),
                        items_view(items@) == values_view(all).take(it.index() as int),
                {
                    let ghost before = items@;
                    let ghost k = it.index() as int;
                    proof {
                        assert(values_view(all)[k] == value_view(item));
                        assert(decreases_to!(value_view(value) => value_view(value)->Array_0));
                        assert(decreases_to!(values_view(all) => values_view(all)[k]));
                    }
                    let json: Json = Json::from_value(item);
                    items.push(json);
                    proof {
                        lemma_items_push(before, json);
                        assert(values_view(all).take(k + 1) =~= values_view(all).take(k).push(
                            values_view(all)[k],
                        ));
                    }
                }
                assert(values_view(all).take(all.len() as int) =~= values_view(all));
                Json::Array(items)
            },
            Layer::Object(members) => {
                let ghost all = members@;
                let mut entries: Vec<(String, Json)> = Vec::new();
                for member in it: members
                    invariant
                        it.seq() == all,
                        distinct_keys(all),
                        value_view(value) == JsonView::Object(members_view(all)),
                        entries_view(entries@) == members_view(all.take(it.index() as int)),
                {
                    let ghost before = entries@;
                    let ghost k = it.index() as int;
                    proof {
                        lemma_members_view(all, k);
                        assert(decreases_to!(value_view(value) => value_view(value)->Object_0));
                        assert(decreases_to!(
                            members_view(all) => members_view(all)[all[k].0@]
                        ));
                    }
                    let json: Json = Json::from_value(member.1);
                    let key: String = member.0;
                    entries.push((key, json));
                    proof {
                        lemma_entries_push(before, key, json);
                        assert(all.take(k + 1).drop_last() =~= all.take(k));
                    }
                }
                assert(all.take(all.len() as int) =~= all);
                Json::Object(JsonObject { entries })
            },
        }
    }

    /// A `serde_json::Value` that holds this value.
    pub fn into_value(self) -> (value: serde_json::Value)
        ensures
            value_view(value) == self@,
        decreases self,
    {
        match self {
            Json::Null => close_value(Layer::Null),
            Json::Bool(b) => close_value(Layer::Bool(b)),
            Json::Number(n) => close_value(Layer::Number(n)),
            Json::Text(s) => close_value(Layer::Text(s)),
            Json::Array(items) => {
                let ghost all = items@;
                let mut values: Vec<serde_json::Value> = Vec::new();
                proof {
                    lemma_items_view(all);
                }
                for item in it: items
                    invariant
                        it.seq() == all,
                        self is Array,
                        all == (self->Array_0)@,
                        values@.len() == it.index(),
                        forall|i: int|
                            0 <= i < it.index() ==> value_view(#[trigger] values@[i]) == all[i]@,
                {
                    proof {
                        assert(decreases_to!(self => self->Array_0));
                        assert(decreases_to!(all => all[it.index() as int]));
                    }
                    values.push(item.into_value());
                }
                assert(values_view(values@) =~= items_view(all));
                close_value(Layer::Array(values))
            },
            Json::Object(object) => {
                let ghost all = object.entries@;
                let mut members: Vec<(String, serde_json::Value)> = Vec::new();
                for entry in it: object.entries
                    invariant
                        it.seq() == all,
                        self is Object,
                        all == (self->Object_0).entries@,
                        members_view(members@) == entries_view(all.take(it.index() as int)),
                {
                    let ghost before = members@;
                    let ghost k = it.index() as int;
                    proof {
                        assert(decreases_to!(self => self->Object_0));
                        assert(decreases_to!(self->Object_0 => (self->Object_0).entries));
                        assert(decreases_to!(all => all[k]));
                        assert(decreases_to!(all[k] => all[k].1));
                    }
                    let value: serde_json::Value = entry.1.into_value();
                    let key: String = entry.0;
                    members.push((key, value));
                    proof {
                        assert(members@.drop_last() =~= before);
                        assert(all.take(k + 1).drop_last() =~= all.take(k));
                    }
                }
                assert(all.take(all.len() as int) =~= all);
                close_value(Layer::Object(members))
            },
        }
    }

    /// The value that a text is the JSON of, or `None` where it is no JSON.
    pub fn parse(text: &str) -> (json: Option<Json>)
        ensures
            match json {
                Some(value) => parsed_json(text@) == Some(value@),
                None => parsed_json(text@) is None,
            },
    {
        match parse_value(text) {
            Some(value) => Some(Json::from_value(value)),
            None => None,
        }
    }

    /// The compact JSON text of the value. It parses back to the value, unless the
    /// value holds a fraction or a reserved key, or nests too deep.
    pub fn render(&self) -> (text: String)
        ensures
            text@ == json_text(self@),
            self@.plain_within(127) ==> parsed_json(text@) == Some(self@),
    {
        let value: serde_json::Value = self.clone().into_value();
        value_text(&value)
    }

    /// The text value of a string.
    pub fn text(s: &str) -> (json: Json)
        ensures
            json@ == JsonView::Text(s@),
    {
        Json::Text(s.to_owned())
    }

    /// The array with one item.
    pub fn singleton(item: Json) -> (json: Json)
        ensures
            json@ == JsonView::Array(seq![item@]),
    {
        let mut items: Vec<Json> = Vec::new();
        items.push(item);
        proof {
            lemma_items_view(items@);
            assert(items_view(items@) =~= seq![item@]);
        }
        Json::Array(items)
    }

    /// The integer value of an unsigned number.
    pub fn unsigned(n: u64) -> (json: Json)
        ensures
            json@ == JsonView::Integer(n as int),
    {
        Json::Number(number_from_u64(n))
    }

    /// The integer value of a signed number.
    pub fn signed(n: i64) -> (json: Json)
        ensures
            json@ == JsonView::Integer(n as int),
    {
        Json::Number(number_from_i64(n))
    }

    /// The member of an object under a key; other values have no members.
    pub fn get(&self, key: &str) -> (member: Option<&Json>)
        ensures
            match member {
                Some(value) => self@.get(key@) == Some(value@),
                None => self@.get(key@) is None,
            },
    {
        match self {
            Json::Object(object) => object.get(key),
            _ => None,
        }
    }

    /// The text that the value is, where it is one.
    pub fn as_str(&self) -> (text: Option<&str>)
        ensures
            match text {
                Some(s) => self@.text() == Some(s@),
                None => self@.text() is None,
            },
    {
        match self {
            Json::Text(s) => Some(s.as_str()),
            _ => None,
        }
    }

    /// The items of an array.
    pub fn as_array(&self) -> (items: Option<&Vec<Json>>)
        ensures
            match items {
                Some(v) => self@.items() == Some(items_view(v@)),
                None => self@.items() is None,
            },
    {
        match self {
            Json::Array(items) => Some(items),
            _ => None,
        }
    }

    /// One step of a JSON pointer: the member of an object under the token, or the
    /// item of an array at the index that the token is.
    pub fn child(&self, token: &str) -> (next: Option<&Json>)
        ensures
            match next {
                Some(value) => self@.child(token@) == Some(value@),
                None => self@.child(token@) is None,
            },
    {
        match self {
            Json::Array(items) => {
                let count: usize = items.len();
                proof {
                    lemma_items_view(items@);
                }
                match index_of_token(token) {
                    Some(index) => if index < count {
                        Some(&items[index])
                    } else {
                        None
                    },
                    None => None,
                }
            },
            _ => self.get(token),
        }
    }

    /// The value at the end of a path of tokens.
    pub fn pointer(&self, tokens: &[&str]) -> (found: Option<&Json>)
        ensures
            match found {
                Some(value) => self@.pointer(tokens_view(tokens@)) == Some(value@),
                None => self@.pointer(tokens_view(tokens@)) is None,
            },
    {
        let ghost path = tokens_view(tokens@);
        let mut at: &Json = self;
        let mut i: usize = 0;
        assert(path.skip(0) =~= path);
        while i < tokens.len()
            invariant
                path == tokens_view(tokens@),
                i <= tokens.len(),
                at@.pointer(path.skip(i as int)) == self@.pointer(path),
            decreases tokens.len() - i,
        {
            proof {
                assert(path.skip(i as int)[0] == tokens@[i as int]@);
                assert(path.skip(i as int).drop_first() =~= path.skip(i + 1));
            }
            match at.child(tokens[i]) {
                Some(next) => {
                    at = next;
                },
                None => {
                    return None;
                },
            }
            i += 1;
        }
        Some(at)
    }
}

/// Copies of JSON values, in the same order.
pub(crate) fn clone_items(items: &Vec<Json>) -> (copies: Vec<Json>)
    ensures
        items_view(copies@) == items_view(items@),
    decreases items,
{
    let mut copies: Vec<Json> = Vec::new();
    let mut i: usize = 0;
    while i < items.len()
        invariant
            i <= items.len(),
            items_view(copies@) == items_view(items@.take(i as int)),
        decreases items.len() - i,
    {
        let ghost before = copies@;
        assert(decreases_to!(items@ => items@[i as int]));
        let item: Json = items[i].clone();
        copies.push(item);
        proof {
            lemma_items_push(before, item);
            lemma_items_push(items@.take(i as int), items@[i as int]);
            assert(items@.take(i + 1) =~= items@.take(i as int).push(items@[i as int]));
        }
        i += 1;
    }
    assert(items@.take(items@.len() as int) =~= items@);
    copies
}

/// What is read from an object: a member that was added is found under its key, the others
/// stay as they were, and an object without members has none. Other values have no members.
pub proof fn law_members(
    members: Map<Seq<char>, JsonView>,
    key: Seq<char>,
    value: JsonView,
    other: Seq<char>,
)
    ensures
        JsonView::Object(members.insert(key, value)).get(key) == Some(value),
        other != key ==> JsonView::Object(members.insert(key, value)).get(other)
            == JsonView::Object(members).get(other),
        JsonView::Object(Map::empty()).get(key) is None,
        !(value is Object) ==> value.get(key) is None,
{
}

/// A text is read as itself and an array as its items, and nothing else is read as either.
pub proof fn law_texts_and_items(s: Seq<char>, items: Seq<JsonView>, value: JsonView)
    ensures
        JsonView::Text(s).text() == Some(s),
        JsonView::Array(items).items() == Some(items),
        !(value is Text) ==> value.text() is None,
        !(value is Array) ==> value.items() is None,
{
}

/// A path leads on from where its first part ends, an empty one stays, and one of a single
/// token takes one step: to the member of an object under the token, and nowhere from a
/// value that is neither an object nor an array.
pub proof fn law_paths(value: JsonView, front: Seq<Seq<char>>, back: Seq<Seq<char>>, token: Seq<char>)
    ensures
        value.pointer(Seq::empty()) == Some(value),
        value.pointer(seq![token]) == value.child(token),
        value.pointer(front + back) == (match value.pointer(front) {
            Some(next) => next.pointer(back),
            None => None,
        }),
        value is Object ==> value.child(token) == value.get(token),
        !(value is Object) && !(value is Array) ==> value.child(token) is None,
    decreases front.len(),
{
    assert(seq![token].drop_first() =~= Seq::<Seq<char>>::empty());
    reveal_with_fuel(JsonView::pointer, 2);
    if front.len() == 0 {
        assert(front + back =~= back);
    } else {
        assert((front + back)[0] == front[0]);
        assert((front + back).drop_first() =~= front.drop_first() + back);
        if let Some(next) = value.child(front[0]) {
            law_paths(next, front.drop_first(), back, token);
        }
    }
}

/// A digit leads to the item of an array at that place, and nowhere where the array is too
/// short. Nothing but digits leads to an item, nor does a zero in front of other digits.
pub proof fn law_array_steps(items: Seq<JsonView>, digit: char, token: Seq<char>)
    ensures
        '0' <= digit <= '9' ==> JsonView::Array(items).child(seq![digit]) == (if digit as int - 48
            < items.len() {
            Some(items[digit as int - 48])
        } else {
            None
        }),
        token.len() == 0 ==> JsonView::Array(items).child(token) is None,
        (exists|i: int| 0 <= i < token.len() && !('0' <= #[trigger] token[i] <= '9'))
            ==> JsonView::Array(items).child(token) is None,
        token.len() > 1 && token[0] == '0' ==> JsonView::Array(items).child(token) is None,
{
    assert(seq![digit].drop_last() =~= Seq::<char>::empty());
    reveal_with_fuel(decimal_value, 2);
}

/// A further digit stands for ten times as many items and those of the digit: where a token
/// leads to the place `at` of every array that is long enough, the longer token leads to
/// ten times `at` and the digit.
pub proof fn law_array_places(token: Seq<char>, at: int, digit: char, items: Seq<JsonView>)
    requires
        0 < at,
        '0' <= digit <= '9',
        forall|array: Seq<JsonView>|
            array.len() > at ==> #[trigger] JsonView::Array(array).child(token) == Some(array[at]),
    ensures
        JsonView::Array(items).child(token.push(digit)) == (if 10 * at + (digit as int - 48)
            < items.len() {
            Some(items[10 * at + (digit as int - 48)])
        } else {
            None
        }),
{
    let count = Seq::new((at + 1) as nat, |i: int| JsonView::Integer(i));
    assert(JsonView::Array(count).child(token) == Some(count[at]));
    assert(is_index_token(token));
    lemma_decimal_value_grows(token, token.len() as int);
    assert(token.take(token.len() as int) =~= token);
    let place = decimal_value(token);
    assert(0 <= place <= at);
    assert(count[place] == count[at]);
    assert(place == at);
    let longer = token.push(digit);
    assert(longer.drop_last() =~= token);
    assert(token[0] != '0') by {
        if token[0] == '0' {
            assert(token.len() == 1);
            assert(token.drop_last() =~= Seq::<char>::empty());
            reveal_with_fuel(decimal_value, 2);
        }
    }
    assert(longer[0] != '0');
    assert forall|i: int| 0 <= i < longer.len() implies '0' <= #[trigger] longer[i] <= '9' by {
        if i < token.len() {
            assert(longer[i] == token[i]);
        }
    }
    assert(is_index_token(longer));
}

/// The model of an array has the models of its items, in order, and that of an object has
/// the model of a further entry under its key.
pub proof fn law_models(items: Seq<Json>, entries: Seq<(String, Json)>, key: String, value: Json)
    ensures
        items_view(items).len() == items.len(),
        forall|i: int| 0 <= i < items.len() ==> #[trigger] items_view(items)[i] == items[i]@,
        entries_view(Seq::empty()) == Map::<Seq<char>, JsonView>::empty(),
        entries_view(entries.push((key, value))) == entries_view(entries).insert(key@, value@),
        value matches Json::Text(s) ==> value@ == JsonView::Text(s@),
        value matches Json::Bool(b) ==> value@ == JsonView::Bool(b),
        value matches Json::Null ==> value@ == JsonView::Null,
        value matches Json::Array(list) ==> value@ == JsonView::Array(items_view(list@)),
        value matches Json::Object(object) ==> value@ == JsonView::Object(object@),
        value matches Json::Object(object) ==> object@ == entries_view(object.entries@),
        value matches Json::Number(n) ==> (number_int(n) matches Some(i) ==> value@
            == JsonView::Integer(i)),
{
    lemma_items_view(items);
    lemma_entries_push(entries, key, value);
}

/// Which values parse back from their text: texts, integers, booleans and null, and arrays
/// and objects of such values, one level deeper, without the reserved key.
pub proof fn law_plain_values(
    depth: nat,
    s: Seq<char>,
    b: bool,
    n: int,
    items: Seq<JsonView>,
    members: Map<Seq<char>, JsonView>,
)
    requires
        depth > 0,
    ensures
        JsonView::Null.plain_within(depth),
        JsonView::Bool(b).plain_within(depth),
        JsonView::Integer(n).plain_within(depth),
        JsonView::Text(s).plain_within(depth),
        JsonView::Array(items).plain_within(depth) <==> forall|i: int|
            0 <= i < items.len() ==> (#[trigger] items[i]).plain_within((depth - 1) as nat),
        JsonView::Object(members).plain_within(depth) <==> !members.contains_key(
            "$serde_json::private::RawValue"@,
        ) && forall|key: Seq<char>| #[trigger]
            members.contains_key(key) ==> members[key].plain_within((depth - 1) as nat),
{
    let value = JsonView::Array(items);
    if value.plain_within(depth) {
        assert forall|i: int| 0 <= i < items.len() implies (#[trigger] items[i]).plain_within(
            (depth - 1) as nat,
        ) by {
            assert(value->Array_0[i] == items[i]);
        }
    } else if forall|i: int|
        0 <= i < items.len() ==> (#[trigger] items[i]).plain_within((depth - 1) as nat) {
        assert forall|i: int| 0 <= i < value->Array_0.len() implies (
        #[trigger] value->Array_0[i]).plain_within((depth - 1) as nat) by {
            assert(items[i].plain_within((depth - 1) as nat));
        }
        assert(value.plain_within(depth));
    }
}

} // verus!
