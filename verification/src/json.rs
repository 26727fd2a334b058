//! JSON values: the tree that the library reads and writes, and its text form.
use crate::text::same_text;
use serde_json::Value;
use vstd::prelude::*;

verus! {

/// A JSON value.
#[derive(Debug)]
pub enum Json {
    Null,
    Bool(bool),
    /// An integer from zero up.
    PosInt(u64),
    /// An integer below zero.
    NegInt(i64),
    /// Any other number, by its JSON text.
    Float(String),
    Text(String),
    List(Vec<Json>),
    Object(JsonMap),
}

/// A JSON object: values by key, no key twice.
#[derive(Debug)]
pub struct JsonMap {
    entries: Vec<(String, Json)>,
}

/// What a JSON value stands for.
#[verifier::ext_equal]
pub enum JsonTree {
    Null,
    Bool(bool),
    Int(int),
    Float(Seq<char>),
    Text(Seq<char>),
    List(Seq<JsonTree>),
    Object(Map<Seq<char>, JsonTree>),
}

/// The tree of a value.
pub closed spec fn tree_of_json(json: Json) -> JsonTree
    decreases json,
{
    match json {
        Json::Null => JsonTree::Null,
        Json::Bool(b) => JsonTree::Bool(b),
        Json::PosInt(n) => JsonTree::Int(n as int),
        Json::NegInt(n) => JsonTree::Int(n as int),
        Json::Float(t) => JsonTree::Float(t@),
        Json::Text(t) => JsonTree::Text(t@),
        Json::List(items) => JsonTree::List(trees(items@)),
        Json::Object(map) => JsonTree::Object(entry_trees(map.entries@)),
    }
}

/// The trees of a list of values.
pub closed spec fn trees(items: Seq<Json>) -> Seq<JsonTree>
    decreases items,
{
    if items.len() == 0 {
        Seq::empty()
    } else {
        trees(items.drop_last()).push(tree_of_json(items.last()))
    }
}

spec fn entry_trees(entries: Seq<(String, Json)>) -> Map<Seq<char>, JsonTree>
    decreases entries,
{
    if entries.len() == 0 {
        Map::empty()
    } else {
        entry_trees(entries.drop_last()).insert(
            entries.last().0@,
            tree_of_json(entries.last().1),
        )
    }
}

spec fn keys_distinct(entries: Seq<(String, Json)>) -> bool {
    forall|i: int, j: int|
        0 <= i < j < entries.len() ==> (#[trigger] entries[i]).0@ != (#[trigger] entries[j]).0@
}

impl View for Json {
    type V = JsonTree;

    open spec fn view(&self) -> JsonTree {
        tree_of_json(*self)
    }
}

impl View for JsonMap {
    type V = Map<Seq<char>, JsonTree>;

    closed spec fn view(&self) -> Map<Seq<char>, JsonTree> {
        entry_trees(self.entries@)
    }
}

/// Every kind of value and the tree it stands for.
pub broadcast proof fn tree_cases(json: Json)
    ensures
        #[trigger] tree_of_json(json) == match json {
            Json::Null => JsonTree::Null,
            Json::Bool(b) => JsonTree::Bool(b),
            Json::PosInt(n) => JsonTree::Int(n as int),
            Json::NegInt(n) => JsonTree::Int(n as int),
            Json::Float(t) => JsonTree::Float(t@),
            Json::Text(t) => JsonTree::Text(t@),
            Json::List(items) => JsonTree::List(trees(items@)),
            Json::Object(map) => JsonTree::Object(map@),
        },
{
}

/// The trees of a list are its members' trees, in order.
pub broadcast proof fn trees_members(items: Seq<Json>)
    ensures
        (#[trigger] trees(items)).len() == items.len(),
        forall|i: int|
            #![trigger trees(items)[i]]
            #![trigger items[i]]
            0 <= i < items.len() ==> trees(items)[i] == items[i]@,
    decreases items.len(),
{
    if items.len() > 0 {
        trees_members(items.drop_last());
        assert forall|i: int| 0 <= i < items.len() implies trees(items)[i] == (#[trigger] items[i])@ by {
            if i < items.len() - 1 {
                assert(items.drop_last()[i] == items[i]);
            }
        }
    }
}

proof fn entry_trees_members(entries: Seq<(String, Json)>)
    requires
        keys_distinct(entries),
    ensures
        forall|i: int|
            0 <= i < entries.len() ==> {
                &&& entry_trees(entries).contains_key((#[trigger] entries[i]).0@)
                &&& entry_trees(entries)[entries[i].0@] == entries[i].1@
            },
        forall|k: Seq<char>| #[trigger]
            entry_trees(entries).contains_key(k) ==> exists|i: int|
                0 <= i < entries.len() && (#[trigger] entries[i]).0@ == k,
    decreases entries.len(),
{
    if entries.len() > 0 {
        let front = entries.drop_last();
        assert forall|i: int, j: int| 0 <= i < j < front.len() implies (#[trigger] front[i]).0@ != (
        #[trigger] front[j]).0@ by {
            assert(front[i] == entries[i] && front[j] == entries[j]);
        }
        entry_trees_members(front);
        assert forall|i: int| 0 <= i < entries.len() implies {
            &&& entry_trees(entries).contains_key((#[trigger] entries[i]).0@)
            &&& entry_trees(entries)[entries[i].0@] == entries[i].1@
        } by {
            if i < entries.len() - 1 {
                assert(front[i] == entries[i]);
                assert(entries[i].0@ != entries[entries.len() - 1].0@);
            }
        }
        assert forall|k: Seq<char>| #[trigger]
            entry_trees(entries).contains_key(k) implies exists|i: int|
            0 <= i < entries.len() && (#[trigger] entries[i]).0@ == k by {
            if k == entries.last().0@ {
                assert(entries[entries.len() - 1].0@ == k);
            } else {
                assert(entry_trees(front).contains_key(k));
                let i = choose|i: int| 0 <= i < front.len() && (#[trigger] front[i]).0@ == k;
                assert(entries[i] == front[i]);
            }
        }
    }
}

impl JsonMap {
    #[verifier::type_invariant]
    spec fn well_formed(self) -> bool {
        keys_distinct(self.entries@)
    }

    /// The empty object.
    pub fn new() -> (r: JsonMap)
        ensures
            r@ == Map::<Seq<char>, JsonTree>::empty(),
    {
        JsonMap { entries: Vec::new() }
    }

    /// The keys, in the order of the entries.
    pub closed spec fn keys(&self) -> Seq<Seq<char>> {
        Seq::new(self.entries@.len(), |i: int| self.entries@[i].0@)
    }

    /// How many entries there are.
    pub fn len(&self) -> (r: usize)
        ensures
            r == self.keys().len(),
            self.keys().no_duplicates(),
            forall|k: Seq<char>| self@.contains_key(k) <==> #[trigger] self.keys().contains(k),
    {
        proof {
            use_type_invariant(self);
            entry_trees_members(self.entries@);
            assert forall|i: int, j: int|
                0 <= i < self.keys().len() && 0 <= j < self.keys().len() && i
                    != j implies self.keys()[i] != self.keys()[j] by {
                assert(self.entries@[i].0@ == self.keys()[i]);
                assert(self.entries@[j].0@ == self.keys()[j]);
            }
            assert forall|k: Seq<char>|
                self@.contains_key(k) <==> #[trigger] self.keys().contains(k) by {
                if self@.contains_key(k) {
                    let i = choose|i: int|
                        0 <= i < self.entries@.len() && (#[trigger] self.entries@[i]).0@ == k;
                    assert(self.keys()[i] == k);
                }
                if self.keys().contains(k) {
                    let i = self.keys().index_of(k);
                    assert(self.entries@[i].0@ == k);
                }
            }
        }
        self.entries.len()
    }

    fn position(&self, key: &str) -> (r: Option<usize>)
        ensures
            match r {
                Some(i) => i < self.entries@.len() && self.entries@[i as int].0@ == key@,
                None => forall|i: int|
                    0 <= i < self.entries@.len() ==> (#[trigger] self.entries@[i]).0@ != key@,
            },
    {
        let mut i: usize = 0;
        while i < self.entries.len()
            invariant
                i <= self.entries@.len(),
                forall|k: int| 0 <= k < i ==> (#[trigger] self.entries@[k]).0@ != key@,
            decreases self.entries@.len() - i,
        {
            if same_text(self.entries[i].0.as_str(), key) {
                return Some(i);
            }
            i += 1;
        }
        None
    }

    /// The value under `key`.
    pub fn get(&self, key: &str) -> (r: Option<&Json>)
        ensures
            match r {
                Some(v) => self@.contains_key(key@) && v@ == self@[key@],
                None => !self@.contains_key(key@),
            },
    {
        proof {
            use_type_invariant(self);
            entry_trees_members(self.entries@);
        }
        match self.position(key) {
            Some(i) => Some(&self.entries[i].1),
            None => None,
        }
    }

    /// Whether there is a value under `key`.
    pub fn contains_key(&self, key: &str) -> (r: bool)
        ensures
            r == self@.contains_key(key@),
    {
        self.get(key).is_some()
    }

    /// Puts `value` under `key`, in place of what was there.
    pub fn insert(&mut self, key: String, value: Json)
        ensures
            final(self)@ == old(self)@.insert(key@, value@),
    {
        proof {
            use_type_invariant(&*self);
            entry_trees_members(self.entries@);
        }
        let found = self.position(key.as_str());
        let ghost before = self.entries@;
        let mut entries: Vec<(String, Json)> = Vec::new();
        std::mem::swap(&mut entries, &mut self.entries);
        match found {
            Some(i) => {
                let ghost k = key@;
                entries.set(i, (key, value));
                proof {
                    let after = entries@;
                    assert forall|a: int, b: int| 0 <= a < b < after.len() implies (
                    #[trigger] after[a]).0@ != (#[trigger] after[b]).0@ by {
                        assert(before[a].0@ == after[a].0@);
                        assert(before[b].0@ == after[b].0@);
                    }
                    entry_trees_members(after);
                    let want = entry_trees(before).insert(k, value@);
                    assert forall|q: Seq<char>| #[trigger]
                        want.contains_key(q) == entry_trees(after).contains_key(q) by {
                        if want.contains_key(q) && q != k {
                            let j = choose|j: int|
                                0 <= j < before.len() && (#[trigger] before[j]).0@ == q;
                            assert(after[j].0@ == q);
                        }
                        if q == k {
                            assert(after[i as int].0@ == k);
                        }
                        if entry_trees(after).contains_key(q) {
                            let j = choose|j: int|
                                0 <= j < after.len() && (#[trigger] after[j]).0@ == q;
                            assert(before[j].0@ == q);
                        }
                    }
                    assert forall|q: Seq<char>| #[trigger]
                        want.contains_key(q) implies want[q] == entry_trees(after)[q] by {
                        if q == k {
                            assert(after[i as int].0@ == k);
                        } else {
                            let j = choose|j: int|
                                0 <= j < before.len() && (#[trigger] before[j]).0@ == q;
                            assert(after[j] == before[j]);
                        }
                    }
                    assert(entry_trees(after) =~= want);
                }
            },
            None => {
                entries.push((key, value));
                proof {
                    assert(entries@.drop_last() == before);
                }
            },
        }
        self.entries = entries;
    }
}

impl JsonMap {
    /// The entry at place `i`, in no particular order.
    pub fn entry(&self, i: usize) -> (r: (&str, &Json))
        requires
            i < self.keys().len(),
        ensures
            r.0@ == self.keys()[i as int],
            self@.contains_key(r.0@),
            r.1@ == self@[r.0@],
    {
        proof {
            use_type_invariant(self);
            entry_trees_members(self.entries@);
        }
        (self.entries[i].0.as_str(), &self.entries[i].1)
    }
}

/// A copy of a list of values.
pub fn copy_list(items: &Vec<Json>) -> (r: Vec<Json>)
    ensures
        trees(r@) == trees(items@),
    decreases items, 0int,
{
    let mut out: Vec<Json> = Vec::new();
    let mut i: usize = 0;
    while i < items.len()
        invariant
            i <= items@.len(),
            trees(out@) == trees(items@.take(i as int)),
        decreases items@.len() - i,
    {
        let copied = copy_json(&items[i]);
        proof {
            assert(items@.take(i + 1).drop_last() == items@.take(i as int));
            assert(out@.push(copied).drop_last() == out@);
        }
        out.push(copied);
        i += 1;
    }
    assert(items@.take(items@.len() as int) == items@);
    out
}

/// A copy of a value.
pub fn copy_json(json: &Json) -> (r: Json)
    ensures
        r@ == json@,
    decreases json, 1int,
{
    broadcast use tree_cases;
    match json {
        Json::Null => Json::Null,
        Json::Bool(b) => Json::Bool(*b),
        Json::PosInt(n) => Json::PosInt(*n),
        Json::NegInt(n) => Json::NegInt(*n),
        Json::Float(t) => Json::Float(t.clone()),
        Json::Text(t) => Json::Text(t.clone()),
        Json::List(items) => Json::List(copy_list(items)),
        Json::Object(map) => Json::Object(copy_map(map)),
    }
}

/// A copy of an object.
pub fn copy_map(map: &JsonMap) -> (r: JsonMap)
    ensures
        r@ == map@,
    decreases map, 0int,
{
    let mut out: Vec<(String, Json)> = Vec::new();
    let mut i: usize = 0;
    while i < map.entries.len()
        invariant
            i <= map.entries@.len(),
            out@.len() == i,
            forall|k: int| 0 <= k < i ==> (#[trigger] out@[k]).0@ == map.entries@[k].0@,
            entry_trees(out@) == entry_trees(map.entries@.take(i as int)),
        decreases map.entries@.len() - i,
    {
        let copied = (map.entries[i].0.clone(), copy_json(&map.entries[i].1));
        proof {
            assert(map.entries@.take(i + 1).drop_last() == map.entries@.take(i as int));
            assert(out@.push(copied).drop_last() == out@);
        }
        out.push(copied);
        i += 1;
    }
    proof {
        use_type_invariant(map);
        assert(map.entries@.take(map.entries@.len() as int) == map.entries@);
        assert forall|a: int, b: int| 0 <= a < b < out@.len() implies (#[trigger] out@[a]).0@ != (
        #[trigger] out@[b]).0@ by {
            assert(map.entries@[a].0@ != map.entries@[b].0@);
        }
    }
    JsonMap { entries: out }
}

/// The key by which `serde_json` marks a raw value. What it parses from an object
/// that begins with this key is not that object.
pub open spec fn raw_value_key() -> Seq<char> {
    "$serde_json::private::RawValue"@
}

impl JsonTree {
    /// The text, where the value is one.
    pub open spec fn as_text(self) -> Option<Seq<char>> {
        match self {
            JsonTree::Text(t) => Some(t),
            _ => None,
        }
    }

    /// The members, where the value is a list.
    pub open spec fn as_list(self) -> Option<Seq<JsonTree>> {
        match self {
            JsonTree::List(l) => Some(l),
            _ => None,
        }
    }

    /// The number, where the value is an integer that fits in 64 bits with a sign.
    pub open spec fn as_i64(self) -> Option<i64> {
        match self {
            JsonTree::Int(n) if i64::MIN <= n <= i64::MAX => Some(n as i64),
            _ => None,
        }
    }

    /// The number, where the value is an integer that fits in 64 bits without a sign.
    pub open spec fn as_u64(self) -> Option<u64> {
        match self {
            JsonTree::Int(n) if 0 <= n <= u64::MAX => Some(n as u64),
            _ => None,
        }
    }

    /// The value under `key`, where the value is an object that has one.
    pub open spec fn field(self, key: Seq<char>) -> Option<JsonTree> {
        match self {
            JsonTree::Object(m) if m.contains_key(key) => Some(m[key]),
            _ => None,
        }
    }

    /// No number but integers, containers at most `depth` deep, and in no object
    /// the key that the parser keeps for itself.
    pub open spec fn plain(self, depth: nat) -> bool
        decreases depth,
    {
        match self {
            JsonTree::Float(_) => false,
            JsonTree::List(l) => depth > 0 && forall|i: int|
                0 <= i < l.len() ==> (#[trigger] l[i]).plain((depth - 1) as nat),
            JsonTree::Object(m) => depth > 0 && !m.contains_key(raw_value_key()) && forall|
                k: Seq<char>,
            | #[trigger]
                m.contains_key(k) ==> m[k].plain((depth - 1) as nat),
            _ => true,
        }
    }
}

impl Json {
    /// The text, where the value is one.
    pub fn as_text(&self) -> (r: Option<&str>)
        ensures
            match r {
                Some(t) => self@.as_text() == Some(t@),
                None => self@.as_text() is None,
            },
    {
        broadcast use tree_cases;
        match self {
            Json::Text(t) => Some(t.as_str()),
            _ => None,
        }
    }

    /// The members, where the value is a list.
    pub fn as_list(&self) -> (r: Option<&Vec<Json>>)
        ensures
            match r {
                Some(l) => self@.as_list() == Some(trees(l@)),
                None => self@.as_list() is None,
            },
    {
        broadcast use tree_cases;
        match self {
            Json::List(l) => Some(l),
            _ => None,
        }
    }

    /// The object, where the value is one.
    pub fn as_object(&self) -> (r: Option<&JsonMap>)
        ensures
            match r {
                Some(m) => self@ == JsonTree::Object(m@),
                None => !(self@ is Object),
            },
    {
        broadcast use tree_cases;
        match self {
            Json::Object(m) => Some(m),
            _ => None,
        }
    }

    /// The number, where the value is an integer that fits in 64 bits with a sign.
    pub fn as_i64(&self) -> (r: Option<i64>)
        ensures
            r == self@.as_i64(),
    {
        broadcast use tree_cases;
        match self {
            Json::PosInt(n) => if *n <= i64::MAX as u64 {
                Some(*n as i64)
            } else {
                None
            },
            Json::NegInt(n) => Some(*n),
            _ => None,
        }
    }

    /// The number, where the value is an integer that fits in 64 bits without a sign.
    pub fn as_u64(&self) -> (r: Option<u64>)
        ensures
            r == self@.as_u64(),
    {
        broadcast use tree_cases;
        match self {
            Json::PosInt(n) => Some(*n),
            Json::NegInt(n) => if *n >= 0 {
                Some(*n as u64)
            } else {
                None
            },
            _ => None,
        }
    }

    /// The value under `key`, where the value is an object that has one.
    pub fn get(&self, key: &str) -> (r: Option<&Json>)
        ensures
            match r {
                Some(v) => self@.field(key@) == Some(v@),
                None => self@.field(key@) is None,
            },
    {
        match self.as_object() {
            Some(m) => m.get(key),
            None => None,
        }
    }

    /// The value of an integer.
    pub fn from_i64(n: i64) -> (r: Json)
        ensures
            r@ == JsonTree::Int(n as int),
    {
        broadcast use tree_cases;
        if n < 0 {
            Json::NegInt(n)
        } else {
            Json::PosInt(n as u64)
        }
    }

    /// The value of a text.
    pub fn text(t: &str) -> (r: Json)
        ensures
            r@ == JsonTree::Text(t@),
    {
        broadcast use tree_cases;
        Json::Text(t.to_owned())
    }
}

/// `serde_json::Value`, carried through without looking inside.
#[verifier::external_type_specification]
#[verifier::external_body]
pub struct ExValue(Value);

/// What a `serde_json` value holds.
pub uninterp spec fn tree_of(value: Value) -> JsonTree;

/// What the `serde_json` value holds that is built from a tree. Numbers that are
/// no integers may change their text.
pub uninterp spec fn held(tree: JsonTree) -> JsonTree;

/// The compact text of a `serde_json` value that holds a tree.
pub uninterp spec fn value_text(tree: JsonTree) -> Seq<char>;

/// What a text parses to: what the value holds that it stands for, or the reason
/// why it is no JSON.
pub uninterp spec fn json_parsed(text: Seq<char>) -> Result<JsonTree, Seq<char>>;

/// The constructors of `serde_json::Value`: builds the value for `json`, which
/// holds the same unless there are numbers that are no integers. Such a number
/// goes through `serde_json::from_str`. That it holds the same is claimed of plain
/// values only.
#[verifier::external_body]
fn to_value(json: &Json) -> (r: Value)
    ensures
        tree_of(r) == held(json@),
        json@.plain(127) ==> tree_of(r) == json@,
{
    match json {
        Json::Null => Value::Null,
        Json::Bool(b) => Value::Bool(*b),
        Json::PosInt(n) => Value::from(*n),
        Json::NegInt(n) => Value::from(*n),
        Json::Float(t) => serde_json::from_str(t).unwrap_or_default(),
        Json::Text(t) => Value::String(t.clone()),
        Json::List(l) => Value::Array(l.iter().map(to_value).collect()),
        Json::Object(m) => Value::Object(
            m.entries.iter().map(|e| (e.0.clone(), to_value(&e.1))).collect(),
        ),
    }
}

/// Matches on `serde_json::Value`: reads the contents of `value`.
#[verifier::external_body]
fn from_value(value: &Value) -> (r: Json)
    ensures
        r@ == tree_of(*value),
{
    match value {
        Value::Null => Json::Null,
        Value::Bool(b) => Json::Bool(*b),
        Value::Number(n) if n.is_u64() => Json::PosInt(n.as_u64().unwrap_or(0)),
        Value::Number(n) if n.is_i64() => Json::NegInt(n.as_i64().unwrap_or(0)),
        Value::Number(n) => Json::Float(n.to_string()),
        Value::String(t) => Json::Text(t.clone()),
        Value::Array(l) => Json::List(l.iter().map(from_value).collect()),
        Value::Object(m) => Json::Object(JsonMap {
            entries: m.iter().map(|(k, v)| (k.clone(), from_value(v))).collect(),
        }),
    }
}

/// `serde_json::Value::to_string`: the compact text of `value`. The text of a
/// value without fractions, not too deeply nested, in which no object holds the
/// key of raw values, parses back to that value.
#[verifier::external_body]
fn render(value: &Value) -> (r: String)
    ensures
        r@ == value_text(tree_of(*value)),
        tree_of(*value).plain(127) ==> match json_parsed(r@) {
            Ok(t) => t == tree_of(*value),
            Err(_) => false,
        },
{
    value.to_string()
}

/// `serde_json::from_str`: the value that `text` stands for, or the reason why
/// it stands for none.
#[verifier::external_body]
fn parse(text: &str) -> (r: Result<Value, String>)
    ensures
        match (r, json_parsed(text@)) {
            (Ok(v), Ok(t)) => tree_of(v) == t,
            (Err(e), Err(w)) => e@ == w,
            _ => false,
        },
{
    serde_json::from_str(text).map_err(|e| e.to_string())
}

/// The compact JSON text of a tree.
pub open spec fn json_text(tree: JsonTree) -> Seq<char> {
    value_text(held(tree))
}

/// The compact JSON text of a value. That of a plain value parses back to it.
pub fn to_json_text(json: &Json) -> (r: String)
    ensures
        r@ == json_text(json@),
        json@.plain(127) ==> json_parsed(r@) == Ok::<JsonTree, Seq<char>>(json@),
{
    render(&to_value(json))
}

/// Reads a JSON text.
pub fn parse_json(text: &str) -> (r: Result<Json, String>)
    ensures
        match r {
            Ok(j) => json_parsed(text@) == Ok::<JsonTree, Seq<char>>(j@),
            Err(e) => json_parsed(text@) == Err::<JsonTree, Seq<char>>(e@),
        },
{
    match parse(text) {
        Ok(v) => Ok(from_value(&v)),
        Err(e) => Err(e),
    }
}

} // verus!
