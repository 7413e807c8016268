//! JSON values, and their text as `serde_json` reads and writes it.

use crate::text::same_text;
use vstd::prelude::*;

verus! {

/// A JSON value. A number is its decimal text; an object maps each key to its value.
#[verifier::ext_equal]
pub enum JsonView {
    Null,
    Bool(bool),
    Number(Seq<char>),
    Str(Seq<char>),
    Array(Seq<JsonView>),
    Object(Map<Seq<char>, JsonView>),
}

impl JsonView {
    /// The value under `key`: there is none in a value that is not an object.
    pub open spec fn get(self, key: Seq<char>) -> Option<JsonView> {
        match self {
            JsonView::Object(fields) => if fields.contains_key(key) {
                Some(fields[key])
            } else {
                None
            },
            _ => None,
        }
    }

    /// The text of a string.
    pub open spec fn as_str(self) -> Option<Seq<char>> {
        match self {
            JsonView::Str(s) => Some(s),
            _ => None,
        }
    }

    /// The truth value of a boolean.
    pub open spec fn as_bool(self) -> Option<bool> {
        match self {
            JsonView::Bool(b) => Some(b),
            _ => None,
        }
    }
}

/// A JSON value that the library reads and builds. Of two fields with one key the later counts.
pub enum Json {
    Null,
    Bool(bool),
    Number(serde_json::Number),
    Str(String),
    Array(Vec<Json>),
    Object(Vec<(String, Json)>),
}

/// The value that `j` stands for.
pub open spec fn json_of(j: Json) -> JsonView
    decreases j,
{
    match j {
        Json::Null => JsonView::Null,
        Json::Bool(b) => JsonView::Bool(b),
        Json::Number(n) => JsonView::Number(number_text(n)),
        Json::Str(s) => JsonView::Str(s@),
        Json::Array(items) => JsonView::Array(items_of(items@)),
        Json::Object(fields) => JsonView::Object(fields_of(fields@)),
    }
}

/// The values that a list of items stands for.
pub open spec fn items_of(items: Seq<Json>) -> Seq<JsonView>
    decreases items,
{
    if items.len() == 0 {
        Seq::empty()
    } else {
        items_of(items.drop_last()).push(json_of(items.last()))
    }
}

/// The map that a list of fields stands for.
pub open spec fn fields_of(fields: Seq<(String, Json)>) -> Map<Seq<char>, JsonView>
    decreases fields,
{
    if fields.len() == 0 {
        Map::empty()
    } else {
        fields_of(fields.drop_last()).insert(fields.last().0@, json_of(fields.last().1))
    }
}

impl View for Json {
    type V = JsonView;

    open spec fn view(&self) -> JsonView {
        json_of(*self)
    }
}

/// `serde_json::Value`, a JSON value of that crate.
#[verifier::external_type_specification]
#[verifier::external_body]
pub struct ExValue(serde_json::Value);

/// `serde_json::Number`, a JSON number of that crate.
#[verifier::external_type_specification]
#[verifier::external_body]
pub struct ExNumber(serde_json::Number);

/// `serde_json::Error`, why a text is not JSON.
#[verifier::external_type_specification]
#[verifier::external_body]
pub struct ExError(serde_json::Error);

/// The text that a number is written as.
pub uninterp spec fn number_text(n: serde_json::Number) -> Seq<char>;

/// The JSON value that a `serde_json::Value` holds.
pub uninterp spec fn json_view(v: serde_json::Value) -> JsonView;

/// The value that `serde_json` reads out of a text, if it reads one.
pub uninterp spec fn parsed(text: Seq<char>) -> Option<JsonView>;

/// The text that `serde_json` writes a value as, without white space between tokens.
pub uninterp spec fn json_text(v: JsonView) -> Seq<char>;

/// The text that `serde_json` writes a value as, spread over lines and indented.
pub uninterp spec fn pretty_text(v: JsonView) -> Seq<char>;

/// One layer of a `serde_json::Value`.
enum Layer {
    Null,
    Bool(bool),
    Number(serde_json::Number),
    Str(String),
    Array(Vec<serde_json::Value>),
    Object(Vec<(String, serde_json::Value)>),
}

/// The map that a list of entries makes when they are inserted in order.
spec fn entries_map(entries: Seq<(String, serde_json::Value)>) -> Map<Seq<char>, JsonView>
    decreases entries.len(),
{
    if entries.len() == 0 {
        Map::empty()
    } else {
        entries_map(entries.drop_last()).insert(entries.last().0@, json_view(entries.last().1))
    }
}

impl View for Layer {
    type V = JsonView;

    closed spec fn view(&self) -> JsonView {
        match *self {
            Layer::Null => JsonView::Null,
            Layer::Bool(b) => JsonView::Bool(b),
            Layer::Number(n) => JsonView::Number(number_text(n)),
            Layer::Str(s) => JsonView::Str(s@),
            Layer::Array(items) => JsonView::Array(
                Seq::new(items@.len(), |i: int| json_view(items@[i])),
            ),
            Layer::Object(entries) => JsonView::Object(entries_map(entries@)),
        }
    }
}

/// No two entries have one key.
spec fn distinct_keys(entries: Seq<(String, serde_json::Value)>) -> bool {
    forall|i: int, j: int|
        0 <= i < j < entries.len() ==> (#[trigger] entries[i]).0@ != (#[trigger] entries[j]).0@
}

/// Takes a `serde_json::Value` apart by its variants. Trusted: the layer that comes out holds
/// what the value held; `serde_json::Map` yields each key of an object once.
#[verifier::external_body]
fn peel(v: serde_json::Value) -> (r: Layer)
    ensures
        r@ == json_view(v),
        r matches Layer::Object(entries) ==> distinct_keys(entries@),
{
    match v {
        serde_json::Value::Null => Layer::Null,
        serde_json::Value::Bool(b) => Layer::Bool(b),
        serde_json::Value::Number(n) => Layer::Number(n),
        serde_json::Value::String(s) => Layer::Str(s),
        serde_json::Value::Array(items) => Layer::Array(items),
        serde_json::Value::Object(map) => Layer::Object(map.into_iter().collect()),
    }
}

/// Puts a `serde_json::Value` together. Trusted: the value holds what the layer held. The entries
/// of an object, each with a key of its own, are collected into a `serde_json::Map`.
#[verifier::external_body]
fn assemble(layer: Layer) -> (r: serde_json::Value)
    requires
        layer matches Layer::Object(entries) ==> distinct_keys(entries@),
    ensures
        json_view(r) == layer@,
{
    match layer {
        Layer::Null => serde_json::Value::Null,
        Layer::Bool(b) => serde_json::Value::Bool(b),
        Layer::Number(n) => serde_json::Value::Number(n),
        Layer::Str(s) => serde_json::Value::String(s),
        Layer::Array(items) => serde_json::Value::Array(items),
        Layer::Object(entries) => serde_json::Value::Object(entries.into_iter().collect()),
    }
}

/// The decimal digits of a natural number.
pub open spec fn digits(n: nat) -> Seq<char>
    decreases n,
{
    if n < 10 {
        seq![(48 + n) as char]
    } else {
        digits(n / 10).push((48 + n % 10) as char)
    }
}

/// An integer in decimal notation.
pub open spec fn decimal(n: int) -> Seq<char> {
    if n < 0 {
        seq!['-'] + digits((-n) as nat)
    } else {
        digits(n as nat)
    }
}

/// Makes a number out of an integer with `serde_json::Number::from`. Trusted: the number is
/// written in decimal notation.
#[verifier::external_body]
fn integer(n: i64) -> (r: serde_json::Number)
    ensures
        number_text(r) == decimal(n as int),
{
    serde_json::Number::from(n)
}

/// Reads JSON text with `serde_json::from_str`. Trusted: whether the text is read, and what
/// value comes out, depends on the text alone.
#[verifier::external_body]
fn read_value(text: &str) -> (r: Result<serde_json::Value, serde_json::Error>)
    ensures
        match r {
            Ok(v) => parsed(text@) == Some(json_view(v)),
            Err(_) => parsed(text@) is None,
        },
{
    serde_json::from_str::<serde_json::Value>(text)
}

/// Writes a value with `serde_json::to_string`, which does not fail on a `Value`. Trusted: the
/// text depends on the value alone, and holds no line feed (one in a string is escaped).
#[verifier::external_body]
fn write_value(v: &serde_json::Value) -> (r: String)
    ensures
        r@ == json_text(json_view(*v)),
        !r@.contains('\n'),
{
    serde_json::to_string(v).unwrap()
}

/// Writes a value with `serde_json::to_string_pretty`, which does not fail on a `Value`.
/// Trusted: the text depends on the value alone.
#[verifier::external_body]
fn write_value_pretty(v: &serde_json::Value) -> (r: String)
    ensures
        r@ == pretty_text(json_view(*v)),
{
    serde_json::to_string_pretty(v).unwrap()
}

/// Copies a number with `serde_json::Number::clone`. Trusted: both are written alike.
#[verifier::external_body]
fn copy_number(n: &serde_json::Number) -> (r: serde_json::Number)
    ensures
        number_text(r) == number_text(*n),
{
    n.clone()
}

proof fn lemma_entries_map(entries: Seq<(String, serde_json::Value)>)
    ensures
        entries_map(entries).dom().finite(),
        distinct_keys(entries) ==> forall|i: int|
            0 <= i < entries.len() ==> entries_map(entries).contains_key(
                (#[trigger] entries[i]).0@,
            ) && entries_map(entries)[entries[i].0@] == json_view(entries[i].1),
    decreases entries.len(),
{
    if entries.len() > 0 {
        let front = entries.drop_last();
        lemma_entries_map(front);
        if distinct_keys(entries) {
            assert forall|i: int| 0 <= i < entries.len() implies entries_map(entries).contains_key(
                (#[trigger] entries[i]).0@,
            ) && entries_map(entries)[entries[i].0@] == json_view(entries[i].1) by {
                if i < front.len() {
                    assert(front[i] == entries[i]);
                    assert(entries[i].0@ != entries[entries.len() - 1].0@);
                }
            }
        }
    }
}

proof fn lemma_entries_keys(entries: Seq<(String, serde_json::Value)>, key: Seq<char>)
    ensures
        entries_map(entries).contains_key(key) <==> exists|i: int|
            0 <= i < entries.len() && (#[trigger] entries[i]).0@ == key,
    decreases entries.len(),
{
    if entries.len() > 0 {
        let front = entries.drop_last();
        lemma_entries_keys(front, key);
        assert(entries[entries.len() - 1] == entries.last());
        if entries_map(front).contains_key(key) {
            let i = choose|i: int| 0 <= i < front.len() && (#[trigger] front[i]).0@ == key;
            assert(entries[i].0@ == key);
        }
        if exists|i: int| 0 <= i < entries.len() && (#[trigger] entries[i]).0@ == key {
            let i = choose|i: int| 0 <= i < entries.len() && (#[trigger] entries[i]).0@ == key;
            if i < front.len() {
                assert(front[i].0@ == key);
            }
        }
    }
}

/// Whether an entry has this key.
fn holds_key(entries: &Vec<(String, serde_json::Value)>, key: &str) -> (r: bool)
    ensures
        r == entries_map(entries@).contains_key(key@),
{
    proof {
        lemma_entries_keys(entries@, key@);
    }
    let mut i: usize = 0;
    while i < entries.len()
        invariant
            entries_map(entries@).contains_key(key@) <==> exists|j: int|
                0 <= j < entries@.len() && (#[trigger] entries@[j]).0@ == key@,
            i <= entries@.len(),
            forall|j: int| 0 <= j < i ==> (#[trigger] entries@[j]).0@ != key@,
        decreases entries@.len() - i,
    {
        if same_text(entries[i].0.as_str(), key) {
            assert(entries@[i as int].0@ == key@);
            return true;
        }
        i += 1;
    }
    false
}

/// Adding an item to a list adds its value.
pub proof fn lemma_items_of_push(items: Seq<Json>, item: Json)
    ensures
        items_of(items.push(item)) == items_of(items).push(json_of(item)),
{
    assert(items.push(item).drop_last() =~= items);
}

impl Json {
    /// The value that a `serde_json::Value` holds.
    pub fn from_value(v: serde_json::Value) -> (r: Json)
        ensures
            r@ == json_view(v),
        decreases json_view(v),
    {
        let ghost whole = json_view(v);
        match peel(v) {
            Layer::Null => Json::Null,
            Layer::Bool(b) => Json::Bool(b),
            Layer::Number(n) => Json::Number(n),
            Layer::Str(s) => Json::Str(s),
            Layer::Array(values) => {
                let mut items: Vec<Json> = Vec::new();
                let ghost all = values@;
                for value in it: values
                    invariant
                        it.seq() == all,
                        whole == json_view(v),
                        whole == JsonView::Array(Seq::new(all.len(), |i: int| json_view(all[i]))),
                        items_of(items@) == Seq::new(
                            it.index() as nat,
                            |i: int| json_view(all[i]),
                        ),
                {
                    proof {
                        let views = whole->Array_0;
                        assert(views[it.index() as int] == json_view(value));
                        assert(decreases_to!(whole => views));
                        assert(decreases_to!(views => views[it.index() as int]));
                    }
                    let item: Json = Json::from_value(value);
                    proof {
                        lemma_items_of_push(items@, item);
                    }
                    items.push(item);
                    assert(items_of(items@) =~= Seq::new(
                        (it.index() + 1) as nat,
                        |i: int| json_view(all[i]),
                    ));
                }
                Json::Array(items)
            },
            Layer::Object(entries) => {
                let mut fields: Vec<(String, Json)> = Vec::new();
                let ghost all = entries@;
                assert(all.take(0) =~= Seq::empty());
                proof {
                    lemma_entries_map(all);
                }
                for entry in it: entries
                    invariant
                        it.seq() == all,
                        whole == json_view(v),
                        distinct_keys(all),
                        entries_map(all).dom().finite(),
                        forall|i: int|
                            0 <= i < all.len() ==> entries_map(all).contains_key(
                                (#[trigger] all[i]).0@,
                            ) && entries_map(all)[all[i].0@] == json_view(all[i].1),
                        whole == JsonView::Object(entries_map(all)),
                        fields_of(fields@) == entries_map(all.take(it.index() as int)),
                {
                    let ghost k = it.index() as int;
                    let (key, value) = entry;
                    proof {
                        let views = whole->Object_0;
                        assert(views[all[k].0@] == json_view(value));
                        assert(decreases_to!(whole => views));
                        assert(decreases_to!(views => views[all[k].0@]));
                    }
                    let item: Json = Json::from_value(value);
                    proof {
                        assert(fields@.push((key, item)).drop_last() =~= fields@);
                        assert(all.take(k + 1).drop_last() =~= all.take(k));
                    }
                    fields.push((key, item));
                }
                assert(all.take(all.len() as int) =~= all);
                Json::Object(fields)
            },
        }
    }

    /// The same value as a `serde_json::Value`.
    pub fn to_value(&self) -> (r: serde_json::Value)
        ensures
            json_view(r) == self@,
        decreases *self,
    {
        match self {
            Json::Null => assemble(Layer::Null),
            Json::Bool(b) => assemble(Layer::Bool(*b)),
            Json::Number(n) => assemble(Layer::Number(copy_number(n))),
            Json::Str(s) => assemble(Layer::Str(s.clone())),
            Json::Array(items) => {
                let mut values: Vec<serde_json::Value> = Vec::new();
                let mut i: usize = 0;
                assert(items@.take(0) =~= Seq::empty());
                while i < items.len()
                    invariant
                        *self == Json::Array(*items),
                        i <= items@.len(),
                        values@.len() == i,
                        items_of(items@.take(i as int)) =~= Seq::new(
                            i as nat,
                            |j: int| json_view(values@[j]),
                        ),
                    decreases items@.len() - i,
                {
                    assert(decreases_to!(*self => items@[i as int])) by {
                        assert(decreases_to!(*self => self->Array_0));
                        assert(decreases_to!(self->Array_0 => items@));
                        assert(decreases_to!(items@ => items@[i as int]));
                    }
                    let value: serde_json::Value = items[i].to_value();
                    values.push(value);
                    proof {
                        assert(items@.take(i + 1) =~= items@.take(i as int).push(items@[i as int]));
                        lemma_items_of_push(items@.take(i as int), items@[i as int]);
                    }
                    i += 1;
                }
                assert(items@.take(items@.len() as int) =~= items@);
                assemble(Layer::Array(values))
            },
            Json::Object(fields) => {
                let mut entries: Vec<(String, serde_json::Value)> = Vec::new();
                let mut i: usize = fields.len();
                assert(fields@.take(fields@.len() as int) =~= fields@);
                assert(fields_of(fields@).union_prefer_right(Map::empty()) =~= fields_of(fields@));
                while i > 0
                    invariant
                        *self == Json::Object(*fields),
                        i <= fields@.len(),
                        distinct_keys(entries@),
                        fields_of(fields@) == fields_of(
                            fields@.take(i as int),
                        ).union_prefer_right(entries_map(entries@)),
                    decreases i,
                {
                    i -= 1;
                    let ghost front = fields_of(fields@.take(i as int));
                    let ghost before = entries@;
                    let ghost key = fields@[i as int].0@;
                    assert(fields@.take(i + 1).drop_last() =~= fields@.take(i as int));
                    if holds_key(&entries, fields[i].0.as_str()) {
                        assert(front.insert(key, json_of(fields@[i as int].1)).union_prefer_right(
                            entries_map(before),
                        ) =~= front.union_prefer_right(entries_map(before)));
                    } else {
                        assert(decreases_to!(*self => fields@[i as int].1)) by {
                            assert(decreases_to!(*self => self->Object_0));
                            assert(decreases_to!(self->Object_0 => fields@));
                            assert(decreases_to!(fields@ => fields@[i as int]));
                            assert(decreases_to!(fields@[i as int] => fields@[i as int].1));
                        }
                        let value: serde_json::Value = fields[i].1.to_value();
                        entries.push((fields[i].0.clone(), value));
                        proof {
                            lemma_entries_keys(before, key);
                            assert(entries@.drop_last() =~= before);
                            assert(front.insert(key, json_view(value)).union_prefer_right(
                                entries_map(before),
                            ) =~= front.union_prefer_right(
                                entries_map(before).insert(key, json_view(value)),
                            ));
                        }
                    }
                }
                assert(fields_of(fields@) =~= entries_map(entries@)) by {
                    assert(fields@.take(0) =~= Seq::empty());
                }
                assemble(Layer::Object(entries))
            },
        }
    }

    /// A copy of the value.
    pub fn copy(&self) -> (r: Json)
        ensures
            r@ == self@,
        decreases *self, 1nat,
    {
        match self {
            Json::Null => Json::Null,
            Json::Bool(b) => Json::Bool(*b),
            Json::Number(n) => Json::Number(copy_number(n)),
            Json::Str(s) => Json::Str(s.clone()),
            Json::Array(items) => {
                assert(decreases_to!(*self => items@)) by {
                    assert(decreases_to!(*self => self->Array_0));
                    assert(decreases_to!(self->Array_0 => items@));
                }
                Json::Array(copy_items(items))
            },
            Json::Object(fields) => {
                let mut out: Vec<(String, Json)> = Vec::new();
                let mut i: usize = 0;
                assert(fields@.take(0) =~= Seq::empty());
                while i < fields.len()
                    invariant
                        *self == Json::Object(*fields),
                        i <= fields@.len(),
                        fields_of(out@) == fields_of(fields@.take(i as int)),
                    decreases fields@.len() - i,
                {
                    let ghost before = out@;
                    assert(decreases_to!(*self => fields@[i as int].1)) by {
                        assert(decreases_to!(*self => self->Object_0));
                        assert(decreases_to!(self->Object_0 => fields@));
                        assert(decreases_to!(fields@ => fields@[i as int]));
                        assert(decreases_to!(fields@[i as int] => fields@[i as int].1));
                    }
                    let value: Json = fields[i].1.copy();
                    out.push((fields[i].0.clone(), value));
                    proof {
                        assert(fields@.take(i + 1).drop_last() =~= fields@.take(i as int));
                        assert(out@.drop_last() =~= before);
                    }
                    i += 1;
                }
                assert(fields@.take(fields@.len() as int) =~= fields@);
                Json::Object(out)
            },
        }
    }

    /// Reads JSON text. Nothing comes of a text that is not JSON.
    pub fn parse(text: &str) -> (r: Option<Json>)
        ensures
            match r {
                Some(v) => parsed(text@) == Some(v@),
                None => parsed(text@) is None,
            },
    {
        match read_value(text) {
            Ok(v) => Some(Json::from_value(v)),
            Err(_) => None,
        }
    }

    /// The value as JSON text on one line.
    pub fn to_text(&self) -> (r: String)
        ensures
            r@ == json_text(self@),
            !r@.contains('\n'),
    {
        write_value(&self.to_value())
    }

    /// The value as indented JSON text.
    pub fn to_pretty_text(&self) -> (r: String)
        ensures
            r@ == pretty_text(self@),
    {
        write_value_pretty(&self.to_value())
    }

    /// The value under `key`: there is none in a value that is not an object.
    pub fn get(&self, key: &str) -> (r: Option<&Json>)
        ensures
            match r {
                Some(v) => self@.get(key@) == Some(v@),
                None => self@.get(key@) is None,
            },
    {
        match self {
            Json::Object(fields) => {
                let mut i: usize = fields.len();
                assert(fields@.take(fields@.len() as int) =~= fields@);
                while i > 0
                    invariant
                        *self == Json::Object(*fields),
                        i <= fields@.len(),
                        self@.get(key@) == JsonView::Object(fields_of(fields@.take(i as int))).get(
                            key@,
                        ),
                    decreases i,
                {
                    assert(fields@.take(i as int).drop_last() =~= fields@.take(i - 1));
                    if same_text(fields[i - 1].0.as_str(), key) {
                        return Some(&fields[i - 1].1);
                    }
                    i -= 1;
                }
                None
            },
            _ => None,
        }
    }

    /// The value under `key`, moved out.
    pub fn into_field(self, key: &str) -> (r: Option<Json>)
        ensures
            match r {
                Some(v) => self@.get(key@) == Some(v@),
                None => self@.get(key@) is None,
            },
    {
        match self {
            Json::Object(entries) => {
                let mut fields: Vec<(String, Json)> = entries;
                let ghost whole = JsonView::Object(fields_of(fields@));
                while fields.len() > 0
                    invariant
                        whole == self@,
                        whole.get(key@) == JsonView::Object(fields_of(fields@)).get(key@),
                    decreases fields@.len(),
                {
                    let ghost before = fields@;
                    if let Some((name, value)) = fields.pop() {
                        assert(fields@ =~= before.drop_last());
                        if same_text(name.as_str(), key) {
                            return Some(value);
                        }
                    }
                }
                None
            },
            _ => None,
        }
    }

    /// The text of a string.
    pub fn as_str(&self) -> (r: Option<&str>)
        ensures
            match r {
                Some(s) => self@.as_str() == Some(s@),
                None => self@.as_str() is None,
            },
    {
        match self {
            Json::Str(s) => Some(s.as_str()),
            _ => None,
        }
    }

    /// The truth value of a boolean.
    pub fn as_bool(&self) -> (r: Option<bool>)
        ensures
            r == self@.as_bool(),
    {
        match self {
            Json::Bool(b) => Some(*b),
            _ => None,
        }
    }

    /// A string.
    pub fn text(s: &str) -> (r: Json)
        ensures
            r@ == JsonView::Str(s@),
    {
        Json::Str(s.to_string())
    }

    /// An integer.
    pub fn whole_number(n: i64) -> (r: Json)
        ensures
            r@ == JsonView::Number(decimal(n as int)),
    {
        Json::Number(integer(n))
    }
}

/// A copy of a list of values.
pub fn copy_items(items: &Vec<Json>) -> (r: Vec<Json>)
    ensures
        items_of(r@) == items_of(items@),
    decreases items@, 0nat,
{
    let mut out: Vec<Json> = Vec::new();
    let mut i: usize = 0;
    assert(items@.take(0) =~= Seq::empty());
    while i < items.len()
        invariant
            i <= items@.len(),
            items_of(out@) == items_of(items@.take(i as int)),
        decreases items@.len() - i,
    {
        assert(decreases_to!(items@ => items@[i as int]));
        let item: Json = items[i].copy();
        proof {
            assert(items@.take(i + 1) =~= items@.take(i as int).push(items@[i as int]));
            lemma_items_of_push(items@.take(i as int), items@[i as int]);
            lemma_items_of_push(out@, item);
        }
        out.push(item);
        i += 1;
    }
    assert(items@.take(items@.len() as int) =~= items@);
    out
}

/// Adds a field to the fields of an object under construction.
pub fn field(fields: Vec<(String, Json)>, key: &str, value: Json) -> (r: Vec<(String, Json)>)
    ensures
        fields_of(r@) == fields_of(fields@).insert(key@, value@),
{
    let mut out: Vec<(String, Json)> = fields;
    let ghost before = out@;
    out.push((key.to_string(), value));
    assert(out@.drop_last() =~= before);
    out
}

/// A value is found under a key exactly where an object has it there; text and truth values are
/// read out of strings and booleans, and of nothing else.
pub proof fn law_values_are_read(v: JsonView, key: Seq<char>)
    ensures
        v matches JsonView::Object(fields) ==> v.get(key) == if fields.contains_key(key) {
            Some(fields[key])
        } else {
            None
        },
        v !is Object ==> v.get(key) is None,
        v matches JsonView::Str(s) ==> v.as_str() == Some(s),
        v !is Str ==> v.as_str() is None,
        v matches JsonView::Bool(b) ==> v.as_bool() == Some(b),
        v !is Bool ==> v.as_bool() is None,
{
}

/// A field that is added counts, and takes the place of an earlier one with its key; the others
/// stay.
pub proof fn law_field_counts(fields: Seq<(String, Json)>, key: String, value: Json, other: Seq<char>)
    ensures
        fields_of(fields.push((key, value))).contains_key(key@),
        fields_of(fields.push((key, value)))[key@] == value@,
        other != key@ ==> (fields_of(fields.push((key, value))).contains_key(other)
            <==> fields_of(fields).contains_key(other)),
        other != key@ && fields_of(fields).contains_key(other) ==> fields_of(
            fields.push((key, value)),
        )[other] == fields_of(fields)[other],
{
    assert(fields.push((key, value)).drop_last() =~= fields);
}

/// The number that decimal digits stand for.
pub open spec fn digits_value(s: Seq<char>) -> int
    decreases s.len(),
{
    if s.len() == 0 {
        0
    } else {
        10 * digits_value(s.drop_last()) + (s.last() as int - 48)
    }
}

/// Decimal notation is made of digits, without a needless zero in front, and stands for the number
/// that was written.
pub proof fn law_digits_read_back(n: nat)
    ensures
        digits_value(digits(n)) == n,
        digits(n).len() > 0,
        forall|i: int| 0 <= i < digits(n).len() ==> '0' <= #[trigger] digits(n)[i] <= '9',
        n > 0 ==> digits(n)[0] != '0',
    decreases n,
{
    if n < 10 {
        let s = digits(n);
        assert(s.drop_last() =~= Seq::empty());
        assert(digits_value(s.drop_last()) == 0);
    } else {
        law_digits_read_back(n / 10);
        assert(digits(n).drop_last() =~= digits(n / 10));
    }
}

/// A negative number is its amount behind a minus sign.
pub proof fn law_sign_comes_first(n: int)
    ensures
        n >= 0 ==> decimal(n) == digits(n as nat),
        n < 0 ==> decimal(n)[0] == '-' && decimal(n).skip(1) == digits((-n) as nat),
{
    if n < 0 {
        assert(decimal(n).skip(1) =~= digits((-n) as nat));
    }
}

} // verus!
