//! The structured payloads of facts and preferences, kept under well-known keys
//! of a memory's metadata:
//!
//! - a fact holds `fact`, an object with `subject`, `predicate` and `object`;
//! - a preference holds `preference`, an object with `rule`, `decision`,
//!   `priority` and perhaps `conditions`;
//! - either may hold `provenance_ids`, `version`, `superseded_by` and
//!   `semantic_conflicts`.
use crate::json::{copy_list, tree_cases, trees, trees_members, Json, JsonMap, JsonTree};
use crate::decimal::{decimal, i64_text};
use crate::memory::{kind_name, MemoryId, MemoryKind};
use crate::model::views;
use crate::text::{blank, cat3, is_blank, same_text};
use vstd::prelude::*;

verus! {

/// The key of a fact's payload.
pub const META_FACT: &'static str = "fact";

/// The key of a preference's payload.
pub const META_PREFERENCE: &'static str = "preference";

/// The key of the list of memories that an item was derived from.
pub const META_PROVENANCE_IDS: &'static str = "provenance_ids";

/// The key of the version counter; without it the version is 1.
pub const META_VERSION: &'static str = "version";

/// The key of the id of the fact that retired this one.
pub const META_SUPERSEDED_BY: &'static str = "superseded_by";

/// The key of the facts that seem to be at odds with this one. They are hints:
/// they retire nothing.
pub const META_SEMANTIC_CONFLICTS: &'static str = "semantic_conflicts";

/// The metadata of an item, by key.
pub type MetaModel = Map<Seq<char>, JsonTree>;

/// A claim: what it is about, what it says of that, and the value it claims.
#[derive(Debug, PartialEq, Eq, Hash)]
pub struct FactPayload {
    pub subject: String,
    pub predicate: String,
    pub object: String,
}

/// The model of a claim.
pub struct FactModel {
    pub subject: Seq<char>,
    pub predicate: Seq<char>,
    pub object: Seq<char>,
}

impl View for FactPayload {
    type V = FactModel;

    open spec fn view(&self) -> FactModel {
        FactModel { subject: self.subject@, predicate: self.predicate@, object: self.object@ }
    }
}

/// A rule of behaviour, the decision it leads to, and when it applies.
#[derive(Debug)]
pub struct PreferencePayload {
    pub rule: String,
    pub decision: String,
    pub priority: u32,
    pub conditions: Vec<Json>,
}

/// The model of a rule of behaviour.
pub struct PreferenceModel {
    pub rule: Seq<char>,
    pub decision: Seq<char>,
    pub priority: u32,
    pub conditions: Seq<JsonTree>,
}

impl View for PreferencePayload {
    type V = PreferenceModel;

    open spec fn view(&self) -> PreferenceModel {
        PreferenceModel {
            rule: self.rule@,
            decision: self.decision@,
            priority: self.priority,
            conditions: trees(self.conditions@),
        }
    }
}

/// Why metadata holds no fact.
#[derive(Debug, PartialEq, Eq)]
pub enum FactValidationError {
    WrongKind { actual: MemoryKind },
    MissingPayload,
    PayloadNotObject,
    MissingField { field: &'static str },
    NotString { field: &'static str },
    Empty { field: &'static str },
}

/// Why metadata holds no preference.
#[derive(Debug, PartialEq, Eq)]
pub enum PreferenceValidationError {
    WrongKind { actual: MemoryKind },
    MissingPayload,
    PayloadNotObject,
    MissingField { field: &'static str },
    NotString { field: &'static str },
    Empty { field: &'static str },
    PriorityOutOfRange(i64),
    ConditionsNotArray,
}

/// The model of either error.
pub enum PayloadIssue {
    WrongKind { actual: MemoryKind },
    MissingPayload,
    PayloadNotObject,
    MissingField { field: Seq<char> },
    NotString { field: Seq<char> },
    Empty { field: Seq<char> },
    PriorityOutOfRange { priority: i64 },
    ConditionsNotArray,
}

impl View for FactValidationError {
    type V = PayloadIssue;

    open spec fn view(&self) -> PayloadIssue {
        match self {
            FactValidationError::WrongKind { actual } => PayloadIssue::WrongKind {
                actual: *actual,
            },
            FactValidationError::MissingPayload => PayloadIssue::MissingPayload,
            FactValidationError::PayloadNotObject => PayloadIssue::PayloadNotObject,
            FactValidationError::MissingField { field } => PayloadIssue::MissingField {
                field: field@,
            },
            FactValidationError::NotString { field } => PayloadIssue::NotString { field: field@ },
            FactValidationError::Empty { field } => PayloadIssue::Empty { field: field@ },
        }
    }
}

impl View for PreferenceValidationError {
    type V = PayloadIssue;

    open spec fn view(&self) -> PayloadIssue {
        match self {
            PreferenceValidationError::WrongKind { actual } => PayloadIssue::WrongKind {
                actual: *actual,
            },
            PreferenceValidationError::MissingPayload => PayloadIssue::MissingPayload,
            PreferenceValidationError::PayloadNotObject => PayloadIssue::PayloadNotObject,
            PreferenceValidationError::MissingField { field } => PayloadIssue::MissingField {
                field: field@,
            },
            PreferenceValidationError::NotString { field } => PayloadIssue::NotString {
                field: field@,
            },
            PreferenceValidationError::Empty { field } => PayloadIssue::Empty { field: field@ },
            PreferenceValidationError::PriorityOutOfRange(priority) => {
                PayloadIssue::PriorityOutOfRange { priority: *priority }
            },
            PreferenceValidationError::ConditionsNotArray => PayloadIssue::ConditionsNotArray,
        }
    }
}

/// A text field of a payload: it must be there, be a text, and not be blank.
pub open spec fn text_field(payload: MetaModel, field: Seq<char>) -> Result<
    Seq<char>,
    PayloadIssue,
> {
    if !payload.contains_key(field) {
        Err(PayloadIssue::MissingField { field })
    } else {
        match payload[field].as_text() {
            None => Err(PayloadIssue::NotString { field }),
            Some(t) => if blank(t) {
                Err(PayloadIssue::Empty { field })
            } else {
                Ok(t)
            },
        }
    }
}

/// The payload object under `key`.
pub open spec fn payload_of(meta: MetaModel, key: Seq<char>) -> Result<MetaModel, PayloadIssue> {
    if !meta.contains_key(key) {
        Err(PayloadIssue::MissingPayload)
    } else {
        match meta[key] {
            JsonTree::Object(o) => Ok(o),
            _ => Err(PayloadIssue::PayloadNotObject),
        }
    }
}

/// The fact that metadata holds; of several faults the first, in the order of
/// the fields.
pub open spec fn fact_of(meta: MetaModel) -> Result<FactModel, PayloadIssue> {
    match payload_of(meta, META_FACT@) {
        Err(e) => Err(e),
        Ok(o) => match text_field(o, "subject"@) {
            Err(e) => Err(e),
            Ok(subject) => match text_field(o, "predicate"@) {
                Err(e) => Err(e),
                Ok(predicate) => match text_field(o, "object"@) {
                    Err(e) => Err(e),
                    Ok(object) => Ok(FactModel { subject, predicate, object }),
                },
            },
        },
    }
}

/// The priority of a preference's payload.
pub open spec fn priority_of(payload: MetaModel) -> Result<u32, PayloadIssue> {
    if !payload.contains_key("priority"@) {
        Err(PayloadIssue::MissingField { field: "priority"@ })
    } else {
        match payload["priority"@].as_i64() {
            None => Err(PayloadIssue::MissingField { field: "priority"@ }),
            Some(n) => if 0 <= n <= u32::MAX {
                Ok(n as u32)
            } else {
                Err(PayloadIssue::PriorityOutOfRange { priority: n })
            },
        }
    }
}

/// The conditions of a preference's payload; none where none are given.
pub open spec fn conditions_of(payload: MetaModel) -> Result<Seq<JsonTree>, PayloadIssue> {
    if !payload.contains_key("conditions"@) {
        Ok(Seq::empty())
    } else {
        match payload["conditions"@].as_list() {
            Some(l) => Ok(l),
            None => Err(PayloadIssue::ConditionsNotArray),
        }
    }
}

/// The preference that metadata holds; of several faults the first, priority
/// and conditions before the texts.
pub open spec fn preference_of(meta: MetaModel) -> Result<PreferenceModel, PayloadIssue> {
    match payload_of(meta, META_PREFERENCE@) {
        Err(e) => Err(e),
        Ok(o) => match priority_of(o) {
            Err(e) => Err(e),
            Ok(priority) => match conditions_of(o) {
                Err(e) => Err(e),
                Ok(conditions) => match text_field(o, "rule"@) {
                    Err(e) => Err(e),
                    Ok(rule) => match text_field(o, "decision"@) {
                        Err(e) => Err(e),
                        Ok(decision) => Ok(
                            PreferenceModel { rule, decision, priority, conditions },
                        ),
                    },
                },
            },
        },
    }
}

/// The payload that stands for a fact.
pub open spec fn fact_tree(fact: FactModel) -> JsonTree {
    JsonTree::Object(
        Map::empty().insert("subject"@, JsonTree::Text(fact.subject)).insert(
            "predicate"@,
            JsonTree::Text(fact.predicate),
        ).insert("object"@, JsonTree::Text(fact.object)),
    )
}

/// The payload that stands for a preference.
pub open spec fn preference_tree(p: PreferenceModel) -> JsonTree {
    JsonTree::Object(
        Map::empty().insert("rule"@, JsonTree::Text(p.rule)).insert(
            "decision"@,
            JsonTree::Text(p.decision),
        ).insert("priority"@, JsonTree::Int(p.priority as int)).insert(
            "conditions"@,
            JsonTree::List(p.conditions),
        ),
    )
}

enum FieldIssue {
    Missing,
    NotString,
    Empty,
}

spec fn issue_of(issue: FieldIssue, field: Seq<char>) -> PayloadIssue {
    match issue {
        FieldIssue::Missing => PayloadIssue::MissingField { field },
        FieldIssue::NotString => PayloadIssue::NotString { field },
        FieldIssue::Empty => PayloadIssue::Empty { field },
    }
}

fn read_text_field(payload: &JsonMap, field: &str) -> (r: Result<String, FieldIssue>)
    ensures
        match (r, text_field(payload@, field@)) {
            (Ok(t), Ok(u)) => t@ == u,
            (Err(e), Err(f)) => issue_of(e, field@) == f,
            _ => false,
        },
{
    match payload.get(field) {
        None => Err(FieldIssue::Missing),
        Some(v) => match v.as_text() {
            None => Err(FieldIssue::NotString),
            Some(t) => if is_blank(t) {
                Err(FieldIssue::Empty)
            } else {
                Ok(t.to_owned())
            },
        },
    }
}

fn read_fact_field(payload: &JsonMap, field: &'static str) -> (r: Result<
    String,
    FactValidationError,
>)
    ensures
        match (r, text_field(payload@, field@)) {
            (Ok(t), Ok(u)) => t@ == u,
            (Err(e), Err(f)) => e@ == f,
            _ => false,
        },
{
    match read_text_field(payload, field) {
        Ok(t) => Ok(t),
        Err(FieldIssue::Missing) => Err(FactValidationError::MissingField { field }),
        Err(FieldIssue::NotString) => Err(FactValidationError::NotString { field }),
        Err(FieldIssue::Empty) => Err(FactValidationError::Empty { field }),
    }
}

fn read_preference_field(payload: &JsonMap, field: &'static str) -> (r: Result<
    String,
    PreferenceValidationError,
>)
    ensures
        match (r, text_field(payload@, field@)) {
            (Ok(t), Ok(u)) => t@ == u,
            (Err(e), Err(f)) => e@ == f,
            _ => false,
        },
{
    match read_text_field(payload, field) {
        Ok(t) => Ok(t),
        Err(FieldIssue::Missing) => Err(PreferenceValidationError::MissingField { field }),
        Err(FieldIssue::NotString) => Err(PreferenceValidationError::NotString { field }),
        Err(FieldIssue::Empty) => Err(PreferenceValidationError::Empty { field }),
    }
}

impl FactPayload {
    /// Reads the fact out of metadata. The kind of the item is the caller's to
    /// check.
    pub fn try_from_meta(meta: &JsonMap) -> (r: Result<FactPayload, FactValidationError>)
        ensures
            match (r, fact_of(meta@)) {
                (Ok(p), Ok(q)) => p@ == q,
                (Err(e), Err(f)) => e@ == f,
                _ => false,
            },
    {
        let payload = match meta.get(META_FACT) {
            None => return Err(FactValidationError::MissingPayload),
            Some(v) => match v.as_object() {
                None => return Err(FactValidationError::PayloadNotObject),
                Some(o) => o,
            },
        };
        let subject = match read_fact_field(payload, "subject") {
            Ok(t) => t,
            Err(e) => return Err(e),
        };
        let predicate = match read_fact_field(payload, "predicate") {
            Ok(t) => t,
            Err(e) => return Err(e),
        };
        let object = match read_fact_field(payload, "object") {
            Ok(t) => t,
            Err(e) => return Err(e),
        };
        Ok(FactPayload { subject, predicate, object })
    }

    /// Writes the fact into metadata, in place of the fact that was there.
    /// Nothing else changes.
    pub fn write_to_meta(&self, meta: &mut JsonMap)
        ensures
            final(meta)@ == old(meta)@.insert(META_FACT@, fact_tree(self@)),
    {
        broadcast use tree_cases;

        let mut payload = JsonMap::new();
        payload.insert("subject".to_owned(), Json::text(self.subject.as_str()));
        payload.insert("predicate".to_owned(), Json::text(self.predicate.as_str()));
        payload.insert("object".to_owned(), Json::text(self.object.as_str()));
        meta.insert(META_FACT.to_owned(), Json::Object(payload));
    }
}

impl PreferencePayload {
    /// Reads the preference out of metadata. The kind of the item is the
    /// caller's to check.
    pub fn try_from_meta(meta: &JsonMap) -> (r: Result<
        PreferencePayload,
        PreferenceValidationError,
    >)
        ensures
            match (r, preference_of(meta@)) {
                (Ok(p), Ok(q)) => p@ == q,
                (Err(e), Err(f)) => e@ == f,
                _ => false,
            },
    {
        let payload = match meta.get(META_PREFERENCE) {
            None => return Err(PreferenceValidationError::MissingPayload),
            Some(v) => match v.as_object() {
                None => return Err(PreferenceValidationError::PayloadNotObject),
                Some(o) => o,
            },
        };
        let raw: i64 = match payload.get("priority") {
            None => return Err(PreferenceValidationError::MissingField { field: "priority" }),
            Some(v) => match v.as_i64() {
                None => return Err(PreferenceValidationError::MissingField { field: "priority" }),
                Some(n) => n,
            },
        };
        if raw < 0 || raw > u32::MAX as i64 {
            return Err(PreferenceValidationError::PriorityOutOfRange(raw));
        }
        let conditions: Vec<Json> = match payload.get("conditions") {
            None => Vec::new(),
            Some(v) => match v.as_list() {
                None => return Err(PreferenceValidationError::ConditionsNotArray),
                Some(l) => copy_list(l),
            },
        };
        proof {
            broadcast use trees_members;

            if !payload@.contains_key("conditions"@) {
                assert(trees(conditions@) =~= Seq::<JsonTree>::empty());
            }
        }
        let rule = match read_preference_field(payload, "rule") {
            Ok(t) => t,
            Err(e) => return Err(e),
        };
        let decision = match read_preference_field(payload, "decision") {
            Ok(t) => t,
            Err(e) => return Err(e),
        };
        Ok(PreferencePayload { rule, decision, priority: raw as u32, conditions })
    }

    /// Writes the preference into metadata, in place of the one that was there.
    /// Nothing else changes.
    pub fn write_to_meta(&self, meta: &mut JsonMap)
        ensures
            final(meta)@ == old(meta)@.insert(META_PREFERENCE@, preference_tree(self@)),
    {
        broadcast use tree_cases;

        let mut payload = JsonMap::new();
        payload.insert("rule".to_owned(), Json::text(self.rule.as_str()));
        payload.insert("decision".to_owned(), Json::text(self.decision.as_str()));
        payload.insert("priority".to_owned(), Json::PosInt(self.priority as u64));
        payload.insert("conditions".to_owned(), Json::List(copy_list(&self.conditions)));
        meta.insert(META_PREFERENCE.to_owned(), Json::Object(payload));
    }
}

/// What is wrong with a payload, in words: `what` is the sort of payload, `key`
/// the key it stands under.
pub open spec fn issue_text(issue: PayloadIssue, what: Seq<char>, key: Seq<char>) -> Seq<char> {
    match issue {
        PayloadIssue::WrongKind { actual } => "MemoryItem.kind is "@ + kind_name(actual)
            + ", expected MemoryKind::"@ + what,
        PayloadIssue::MissingPayload => what + " meta is missing the `"@ + key + "` key"@,
        PayloadIssue::PayloadNotObject => what + " meta `"@ + key + "` is not a JSON object"@,
        PayloadIssue::MissingField { field } => what + " meta `"@ + key + "."@ + field
            + "` is missing"@,
        PayloadIssue::NotString { field } => what + " meta `"@ + key + "."@ + field
            + "` is not a string"@,
        PayloadIssue::Empty { field } => what + " meta `"@ + key + "."@ + field
            + "` is empty after trim — must be non-empty"@,
        PayloadIssue::PriorityOutOfRange { priority } => what + " meta `"@ + key + ".priority` ("@
            + decimal(priority as int) + ") is not a u32; must be 0..=u32::MAX"@,
        PayloadIssue::ConditionsNotArray => what + " meta `"@ + key
            + ".conditions` is not an array"@,
    }
}

fn field_text(what: &str, key: &str, field: &str, end: &str) -> (r: String)
    ensures
        r@ == what@ + " meta `"@ + key@ + "."@ + field@ + end@,
{
    let mut out = cat3(what, " meta `", key);
    out.push_str(".");
    out.push_str(field);
    out.push_str(end);
    out
}

fn kind_issue_text(actual: MemoryKind, what: &str) -> (r: String)
    ensures
        r@ == "MemoryItem.kind is "@ + kind_name(actual) + ", expected MemoryKind::"@ + what@,
{
    let mut out = cat3("MemoryItem.kind is ", actual.name(), ", expected MemoryKind::");
    out.push_str(what);
    out
}

fn whole_text(what: &str, middle: &str, key: &str, end: &str) -> (r: String)
    ensures
        r@ == what@ + middle@ + key@ + end@,
{
    let mut out = cat3(what, middle, key);
    out.push_str(end);
    out
}

impl FactValidationError {
    /// What is wrong, in words.
    pub fn to_string(&self) -> (r: String)
        ensures
            r@ == issue_text(self@, "Fact"@, META_FACT@),
    {
        match self {
            FactValidationError::WrongKind { actual } => kind_issue_text(*actual, "Fact"),
            FactValidationError::MissingPayload => whole_text(
                "Fact",
                " meta is missing the `",
                META_FACT,
                "` key",
            ),
            FactValidationError::PayloadNotObject => whole_text(
                "Fact",
                " meta `",
                META_FACT,
                "` is not a JSON object",
            ),
            FactValidationError::MissingField { field } => field_text(
                "Fact",
                META_FACT,
                field,
                "` is missing",
            ),
            FactValidationError::NotString { field } => field_text(
                "Fact",
                META_FACT,
                field,
                "` is not a string",
            ),
            FactValidationError::Empty { field } => field_text(
                "Fact",
                META_FACT,
                field,
                "` is empty after trim — must be non-empty",
            ),
        }
    }
}

impl PreferenceValidationError {
    /// What is wrong, in words.
    pub fn to_string(&self) -> (r: String)
        ensures
            r@ == issue_text(self@, "Preference"@, META_PREFERENCE@),
    {
        match self {
            PreferenceValidationError::WrongKind { actual } => kind_issue_text(
                *actual,
                "Preference",
            ),
            PreferenceValidationError::MissingPayload => whole_text(
                "Preference",
                " meta is missing the `",
                META_PREFERENCE,
                "` key",
            ),
            PreferenceValidationError::PayloadNotObject => whole_text(
                "Preference",
                " meta `",
                META_PREFERENCE,
                "` is not a JSON object",
            ),
            PreferenceValidationError::MissingField { field } => field_text(
                "Preference",
                META_PREFERENCE,
                field,
                "` is missing",
            ),
            PreferenceValidationError::NotString { field } => field_text(
                "Preference",
                META_PREFERENCE,
                field,
                "` is not a string",
            ),
            PreferenceValidationError::Empty { field } => field_text(
                "Preference",
                META_PREFERENCE,
                field,
                "` is empty after trim — must be non-empty",
            ),
            PreferenceValidationError::PriorityOutOfRange(priority) => {
                let mut out = whole_text("Preference", " meta `", META_PREFERENCE, ".priority` (");
                out.push_str(i64_text(*priority).as_str());
                out.push_str(") is not a u32; must be 0..=u32::MAX");
                out
            },
            PreferenceValidationError::ConditionsNotArray => whole_text(
                "Preference",
                " meta `",
                META_PREFERENCE,
                ".conditions` is not an array",
            ),
        }
    }
}

/// The text members of a list, in order; the others are left out.
pub open spec fn text_members(l: Seq<JsonTree>) -> Seq<Seq<char>>
    decreases l.len(),
{
    if l.len() == 0 {
        Seq::empty()
    } else {
        match l.last().as_text() {
            Some(t) => text_members(l.drop_last()).push(t),
            None => text_members(l.drop_last()),
        }
    }
}

/// The texts in a list of values, in order.
pub fn read_text_members(l: &Vec<Json>) -> (r: Vec<String>)
    ensures
        views(r@) == text_members(trees(l@)),
{
    broadcast use trees_members;

    let mut out: Vec<String> = Vec::new();
    let mut i: usize = 0;
    assert(trees(l@).take(0) == Seq::<JsonTree>::empty());
    assert(views(out@) == Seq::<Seq<char>>::empty());
    while i < l.len()
        invariant
            i <= l@.len(),
            trees(l@).len() == l@.len(),
            forall|k: int| 0 <= k < l@.len() ==> trees(l@)[k] == (#[trigger] l@[k])@,
            views(out@) == text_members(trees(l@).take(i as int)),
        decreases l@.len() - i,
    {
        let ghost before = views(out@);
        proof {
            assert(trees(l@).take(i + 1).drop_last() == trees(l@).take(i as int));
            assert(trees(l@).take(i + 1).last() == l@[i as int]@);
        }
        match l[i].as_text() {
            Some(t) => {
                out.push(t.to_owned());
                proof {
                    assert(views(out@) == before.push(t@));
                }
            },
            None => {},
        }
        i += 1;
    }
    assert(trees(l@).take(l@.len() as int) == trees(l@));
    out
}

/// The list value of some texts.
pub open spec fn text_list(texts: Seq<Seq<char>>) -> JsonTree {
    JsonTree::List(Seq::new(texts.len(), |i: int| JsonTree::Text(texts[i])))
}

/// The list value of some texts.
pub fn make_text_list(texts: &Vec<String>) -> (r: Json)
    ensures
        r@ == text_list(views(texts@)),
{
    broadcast use {tree_cases, trees_members};

    let mut out: Vec<Json> = Vec::new();
    let mut i: usize = 0;
    while i < texts.len()
        invariant
            i <= texts@.len(),
            out@.len() == i,
            forall|k: int| 0 <= k < i ==> (#[trigger] out@[k])@ == JsonTree::Text(texts@[k]@),
        decreases texts@.len() - i,
    {
        out.push(Json::text(texts[i].as_str()));
        i += 1;
    }
    proof {
        trees_members(out@);
        assert(trees(out@) =~= Seq::new(
            texts@.len(),
            |i: int| JsonTree::Text(views(texts@)[i]),
        ));
    }
    Json::List(out)
}

/// A list of texts holds those texts.
pub proof fn text_list_members(texts: Seq<Seq<char>>)
    ensures
        text_members(text_list(texts)->List_0) == texts,
    decreases texts.len(),
{
    let l = text_list(texts)->List_0;
    if texts.len() > 0 {
        text_list_members(texts.drop_last());
        assert(l.drop_last() == text_list(texts.drop_last())->List_0);
        assert(texts == texts.drop_last().push(texts.last()));
    } else {
        assert(text_members(l) == texts);
    }
}

/// The memories that an item was derived from; none where the metadata does not
/// say or says it badly.
pub open spec fn provenance_of(meta: MetaModel) -> Seq<Seq<char>> {
    if meta.contains_key(META_PROVENANCE_IDS@) {
        match meta[META_PROVENANCE_IDS@].as_list() {
            Some(l) => text_members(l),
            None => Seq::empty(),
        }
    } else {
        Seq::empty()
    }
}

/// Metadata with another provenance.
pub open spec fn with_provenance(meta: MetaModel, ids: Seq<Seq<char>>) -> MetaModel {
    meta.insert(META_PROVENANCE_IDS@, text_list(ids))
}

/// Metadata with another version.
pub open spec fn with_version(meta: MetaModel, version: u32) -> MetaModel {
    meta.insert(META_VERSION@, JsonTree::Int(version as int))
}

/// Metadata that names the fact by which this one was retired.
pub open spec fn with_superseded_by(meta: MetaModel, id: Seq<char>) -> MetaModel {
    meta.insert(META_SUPERSEDED_BY@, JsonTree::Text(id))
}

/// The version counter; 1 where it is missing or no 32-bit number.
pub open spec fn version_of(meta: MetaModel) -> u32 {
    if meta.contains_key(META_VERSION@) {
        match meta[META_VERSION@].as_u64() {
            Some(n) if n <= u32::MAX => n as u32,
            _ => 1,
        }
    } else {
        1
    }
}

/// The fact that retired this one, if any did.
pub open spec fn superseded_by_of(meta: MetaModel) -> Option<Seq<char>> {
    if meta.contains_key(META_SUPERSEDED_BY@) {
        meta[META_SUPERSEDED_BY@].as_text()
    } else {
        None
    }
}

/// The list of conflict hints; empty where the metadata holds no list.
pub open spec fn semantic_conflicts_of(meta: MetaModel) -> Seq<JsonTree> {
    if meta.contains_key(META_SEMANTIC_CONFLICTS@) {
        match meta[META_SEMANTIC_CONFLICTS@].as_list() {
            Some(l) => l,
            None => Seq::empty(),
        }
    } else {
        Seq::empty()
    }
}

/// Metadata with the hint `id` among the conflict hints.
pub open spec fn with_semantic_conflict(meta: MetaModel, id: Seq<char>) -> MetaModel {
    let hints = semantic_conflicts_of(meta);
    let after = if hints.contains(JsonTree::Text(id)) {
        hints
    } else {
        hints.push(JsonTree::Text(id))
    };
    meta.insert(META_SEMANTIC_CONFLICTS@, JsonTree::List(after))
}

/// The names in a list of texts.
pub fn ids_of(texts: Vec<String>) -> (r: Vec<MemoryId>)
    ensures
        views(r@) == views(texts@),
{
    let mut out: Vec<MemoryId> = Vec::new();
    let mut i: usize = 0;
    while i < texts.len()
        invariant
            i <= texts@.len(),
            out@.len() == i,
            forall|k: int| 0 <= k < i ==> (#[trigger] out@[k])@ == texts@[k]@,
        decreases texts@.len() - i,
    {
        out.push(MemoryId(texts[i].clone()));
        i += 1;
    }
    assert(views(out@) =~= views(texts@));
    out
}

/// The texts of a list of names.
pub fn texts_of(ids: &Vec<MemoryId>) -> (r: Vec<String>)
    ensures
        views(r@) == views(ids@),
{
    let mut out: Vec<String> = Vec::new();
    let mut i: usize = 0;
    while i < ids.len()
        invariant
            i <= ids@.len(),
            out@.len() == i,
            forall|k: int| 0 <= k < i ==> (#[trigger] out@[k])@ == ids@[k]@,
        decreases ids@.len() - i,
    {
        out.push(ids[i].0.clone());
        i += 1;
    }
    assert(views(out@) =~= views(ids@));
    out
}

/// Reads the provenance out of metadata.
pub fn read_provenance_ids(meta: &JsonMap) -> (r: Vec<MemoryId>)
    ensures
        views(r@) == provenance_of(meta@),
{
    match meta.get(META_PROVENANCE_IDS) {
        Some(v) => match v.as_list() {
            Some(l) => return ids_of(read_text_members(l)),
            None => {},
        },
        None => {},
    }
    let r: Vec<MemoryId> = Vec::new();
    assert(views(r@) =~= Seq::<Seq<char>>::empty());
    r
}

/// Replaces the provenance in metadata.
pub fn write_provenance_ids(meta: &mut JsonMap, ids: &Vec<MemoryId>)
    ensures
        final(meta)@ == with_provenance(old(meta)@, views(ids@)),
{
    meta.insert(META_PROVENANCE_IDS.to_owned(), make_text_list(&texts_of(ids)));
}

/// Reads the version counter.
pub fn read_version(meta: &JsonMap) -> (r: u32)
    ensures
        r == version_of(meta@),
{
    match meta.get(META_VERSION) {
        Some(v) => match v.as_u64() {
            Some(n) => if n <= u32::MAX as u64 {
                n as u32
            } else {
                1
            },
            None => 1,
        },
        None => 1,
    }
}

/// Sets the version counter.
pub fn write_version(meta: &mut JsonMap, version: u32)
    ensures
        final(meta)@ == with_version(old(meta)@, version),
{
    broadcast use tree_cases;

    meta.insert(META_VERSION.to_owned(), Json::PosInt(version as u64));
}

/// The fact that retired this one, if any did.
pub fn read_superseded_by(meta: &JsonMap) -> (r: Option<MemoryId>)
    ensures
        crate::model::opt(r) == superseded_by_of(meta@),
{
    match meta.get(META_SUPERSEDED_BY) {
        Some(v) => match v.as_text() {
            Some(t) => Some(MemoryId(t.to_owned())),
            None => None,
        },
        None => None,
    }
}

/// Names the fact that retired this one.
pub fn write_superseded_by(meta: &mut JsonMap, id: &MemoryId)
    ensures
        final(meta)@ == with_superseded_by(old(meta)@, id@),
{
    meta.insert(META_SUPERSEDED_BY.to_owned(), Json::text(id.0.as_str()));
}

fn holds_text_value(l: &Vec<Json>, t: &str) -> (r: bool)
    ensures
        r == trees(l@).contains(JsonTree::Text(t@)),
{
    proof {
        trees_members(l@);
    }
    let mut i: usize = 0;
    while i < l.len()
        invariant
            i <= l@.len(),
            trees(l@).len() == l@.len(),
            forall|k: int| 0 <= k < l@.len() ==> trees(l@)[k] == (#[trigger] l@[k])@,
            forall|k: int| 0 <= k < i ==> (#[trigger] l@[k])@ != JsonTree::Text(t@),
        decreases l@.len() - i,
    {
        match l[i].as_text() {
            Some(u) => if same_text(u, t) {
                assert(trees(l@)[i as int] == JsonTree::Text(t@));
                return true;
            },
            None => {},
        }
        i += 1;
    }
    proof {
        if trees(l@).contains(JsonTree::Text(t@)) {
            let k = trees(l@).index_of(JsonTree::Text(t@));
            assert(l@[k]@ == JsonTree::Text(t@));
        }
    }
    false
}

/// Adds `id` to the conflict hints, unless it is there.
pub fn record_semantic_conflict(meta: &mut JsonMap, id: &MemoryId)
    ensures
        final(meta)@ == with_semantic_conflict(old(meta)@, id@),
{
    broadcast use tree_cases;

    let mut hints: Vec<Json> = match meta.get(META_SEMANTIC_CONFLICTS) {
        Some(v) => match v.as_list() {
            Some(l) => copy_list(l),
            None => Vec::new(),
        },
        None => Vec::new(),
    };
    proof {
        trees_members(hints@);
        assert(trees(hints@) =~= semantic_conflicts_of(meta@));
    }
    if !holds_text_value(&hints, id.0.as_str()) {
        let ghost before = hints@;
        hints.push(Json::text(id.0.as_str()));
        proof {
            trees_members(before);
            trees_members(hints@);
            assert(trees(hints@) =~= trees(before).push(JsonTree::Text(id@)));
        }
    }
    meta.insert(META_SEMANTIC_CONFLICTS.to_owned(), Json::List(hints));
}

proof fn fact_keys_differ()
    ensures
        "subject"@ != "predicate"@,
        "subject"@ != "object"@,
        "predicate"@ != "object"@,
{
    reveal_strlit("subject");
    reveal_strlit("predicate");
    reveal_strlit("object");
    assert("subject"@.len() == 7 && "predicate"@.len() == 9 && "object"@.len() == 6);
}

proof fn preference_keys_differ()
    ensures
        "rule"@ != "decision"@,
        "rule"@ != "priority"@,
        "rule"@ != "conditions"@,
        "decision"@ != "priority"@,
        "decision"@ != "conditions"@,
        "priority"@ != "conditions"@,
{
    reveal_strlit("rule");
    reveal_strlit("decision");
    reveal_strlit("priority");
    reveal_strlit("conditions");
    assert("decision"@[0] == 'd' && "priority"@[0] == 'p');
    assert("rule"@.len() == 4 && "conditions"@.len() == 10 && "decision"@.len() == 8
        && "priority"@.len() == 8);
}

/// A fact written into metadata reads back as it was, and the rest of the
/// metadata stays. A fact with a blank field is the exception: it reads back as
/// an error.
pub proof fn law_fact_reads_back(meta: MetaModel, fact: FactModel)
    requires
        !blank(fact.subject),
        !blank(fact.predicate),
        !blank(fact.object),
    ensures
        fact_of(meta.insert(META_FACT@, fact_tree(fact))) == Ok::<FactModel, PayloadIssue>(fact),
        meta.insert(META_FACT@, fact_tree(fact)).remove(META_FACT@) == meta.remove(META_FACT@),
{
    fact_keys_differ();
    assert(meta.insert(META_FACT@, fact_tree(fact)).remove(META_FACT@) =~= meta.remove(META_FACT@));
}

/// A preference written into metadata reads back as it was, and the rest of the
/// metadata stays. One with a blank rule or decision is the exception: it reads
/// back as an error.
pub proof fn law_preference_reads_back(meta: MetaModel, p: PreferenceModel)
    requires
        !blank(p.rule),
        !blank(p.decision),
    ensures
        preference_of(meta.insert(META_PREFERENCE@, preference_tree(p))) == Ok::<
            PreferenceModel,
            PayloadIssue,
        >(p),
        meta.insert(META_PREFERENCE@, preference_tree(p)).remove(META_PREFERENCE@) == meta.remove(
            META_PREFERENCE@,
        ),
{
    preference_keys_differ();
    assert(meta.insert(META_PREFERENCE@, preference_tree(p)).remove(META_PREFERENCE@)
        =~= meta.remove(META_PREFERENCE@));
}

/// Provenance, version and successor read back as they were written.
pub proof fn law_meta_reads_back(meta: MetaModel, ids: Seq<Seq<char>>, version: u32, id: Seq<char>)
    ensures
        provenance_of(with_provenance(meta, ids)) == ids,
        version_of(with_version(meta, version)) == version,
        superseded_by_of(with_superseded_by(meta, id)) == Some(id),
{
    text_list_members(ids);
}

/// Recording the same conflict hint twice is the same as recording it once.
pub proof fn law_semantic_conflict_once(meta: MetaModel, id: Seq<char>)
    ensures
        with_semantic_conflict(with_semantic_conflict(meta, id), id) == with_semantic_conflict(
            meta,
            id,
        ),
        semantic_conflicts_of(with_semantic_conflict(meta, id)).contains(JsonTree::Text(id)),
{
    let once = with_semantic_conflict(meta, id);
    let hints = semantic_conflicts_of(meta);
    if !hints.contains(JsonTree::Text(id)) {
        assert(hints.push(JsonTree::Text(id)).last() == JsonTree::Text(id));
    }
    assert(with_semantic_conflict(once, id) =~= once);
}

/// Metadata holds a fact only where an object stands under `fact` that has the
/// texts `subject`, `predicate` and `object`, none of them blank; and the fact is
/// made of those texts.
pub proof fn law_facts_are_their_three_texts(meta: MetaModel)
    ensures
        fact_of(meta) matches Ok(f) ==> {
            &&& meta.contains_key("fact"@)
            &&& meta["fact"@] matches JsonTree::Object(o) && o.contains_key("subject"@)
                && o.contains_key("predicate"@) && o.contains_key("object"@) && o["subject"@]
                == JsonTree::Text(f.subject) && o["predicate"@] == JsonTree::Text(f.predicate)
                && o["object"@] == JsonTree::Text(f.object)
            &&& !blank(f.subject) && !blank(f.predicate) && !blank(f.object)
        },
{
}

/// Three texts under the right keys, none of them blank, are a fact, whatever else
/// stands beside them.
pub proof fn law_three_texts_are_a_fact(meta: MetaModel, payload: MetaModel, fact: FactModel)
    requires
        meta.contains_key("fact"@),
        meta["fact"@] == JsonTree::Object(payload),
        payload.contains_key("subject"@) && payload["subject"@] == JsonTree::Text(fact.subject),
        payload.contains_key("predicate"@) && payload["predicate"@] == JsonTree::Text(
            fact.predicate,
        ),
        payload.contains_key("object"@) && payload["object"@] == JsonTree::Text(fact.object),
        !blank(fact.subject),
        !blank(fact.predicate),
        !blank(fact.object),
    ensures
        fact_of(meta) == Ok::<FactModel, PayloadIssue>(fact),
{
}

/// Metadata holds a preference only where an object stands under `preference` whose
/// `rule` and `decision` are texts that are not blank, whose `priority` is a 32-bit
/// number without a sign, and whose `conditions`, where it has them, are a list;
/// and the preference is made of those.
pub proof fn law_preferences_are_their_fields(meta: MetaModel)
    ensures
        preference_of(meta) matches Ok(p) ==> {
            &&& meta.contains_key("preference"@)
            &&& meta["preference"@] matches JsonTree::Object(o) && o.contains_key("rule"@)
                && o.contains_key("decision"@) && o.contains_key("priority"@) && o["rule"@]
                == JsonTree::Text(p.rule) && o["decision"@] == JsonTree::Text(p.decision)
                && o["priority"@] == JsonTree::Int(p.priority as int) && if o.contains_key(
                "conditions"@,
            ) {
                o["conditions"@] == JsonTree::List(p.conditions)
            } else {
                p.conditions.len() == 0
            }
            &&& !blank(p.rule) && !blank(p.decision)
        },
{
}

/// The texts of a list are its members that are texts, each as it stands, in their
/// order.
pub proof fn law_text_members_are_the_texts(l: Seq<JsonTree>) -> (places: Seq<int>)
    ensures
        text_members(l).len() == places.len(),
        forall|a: int, b: int|
            0 <= a < b < places.len() ==> #[trigger] places[a] < #[trigger] places[b],
        forall|a: int|
            0 <= a < places.len() ==> 0 <= #[trigger] places[a] < l.len() && l[places[a]]
                == JsonTree::Text(text_members(l)[a]),
        forall|k: int| 0 <= k < l.len() && (#[trigger] l[k]) is Text ==> places.contains(k),
    decreases l.len(),
{
    if l.len() == 0 {
        Seq::empty()
    } else {
        let front = l.drop_last();
        let before = law_text_members_are_the_texts(front);
        let places = if l.last() is Text {
            before.push(l.len() - 1)
        } else {
            before
        };
        assert forall|k: int| 0 <= k < l.len() && (
        #[trigger] l[k]) is Text implies places.contains(k) by {
            if k < front.len() {
                assert(front[k] is Text);
                let a = before.index_of(k);
                assert(places[a] == k);
            } else {
                assert(places[before.len() as int] == k);
            }
        }
        places
    }
}

/// The version is the number under `version` where a 32-bit number without a sign
/// stands there, and 1 otherwise; the successor is the text under `superseded_by`.
pub proof fn law_version_and_successor_are_read(meta: MetaModel)
    ensures
        meta.contains_key("version"@) ==> (meta["version"@] matches JsonTree::Int(n) ==> {
            &&& 0 <= n <= u32::MAX ==> version_of(meta) == n
            &&& !(0 <= n <= u32::MAX) ==> version_of(meta) == 1
        }),
        !meta.contains_key("version"@) ==> version_of(meta) == 1,
        meta.contains_key("version"@) && !(meta["version"@] is Int) ==> version_of(meta) == 1,
        superseded_by_of(meta) matches Some(id) ==> meta.contains_key("superseded_by"@)
            && meta["superseded_by"@] == JsonTree::Text(id),
        meta.contains_key("superseded_by"@) && meta["superseded_by"@] is Text
            ==> superseded_by_of(meta) is Some,
{
}

/// Writing the provenance, the version, the successor or a conflict hint changes
/// nothing else in metadata: every other key keeps its value, and none is added.
pub proof fn law_writing_keeps_other_keys(
    meta: MetaModel,
    ids: Seq<Seq<char>>,
    version: u32,
    id: Seq<char>,
    key: Seq<char>,
)
    ensures
        key != "provenance_ids"@ ==> with_provenance(meta, ids).contains_key(key)
            == meta.contains_key(key) && (meta.contains_key(key) ==> with_provenance(
            meta,
            ids,
        )[key] == meta[key]),
        key != "version"@ ==> with_version(meta, version).contains_key(key) == meta.contains_key(
            key,
        ) && (meta.contains_key(key) ==> with_version(meta, version)[key] == meta[key]),
        key != "superseded_by"@ ==> with_superseded_by(meta, id).contains_key(key)
            == meta.contains_key(key) && (meta.contains_key(key) ==> with_superseded_by(
            meta,
            id,
        )[key] == meta[key]),
        key != "semantic_conflicts"@ ==> with_semantic_conflict(meta, id).contains_key(key)
            == meta.contains_key(key) && (meta.contains_key(key) ==> with_semantic_conflict(
            meta,
            id,
        )[key] == meta[key]),
{
}

/// Recording a conflict hint keeps the hints there were, at their places, and adds
/// at most the one that is recorded.
pub proof fn law_conflict_hints_are_kept(meta: MetaModel, id: Seq<char>)
    ensures
        semantic_conflicts_of(meta).len() <= semantic_conflicts_of(
            with_semantic_conflict(meta, id),
        ).len() <= semantic_conflicts_of(meta).len() + 1,
        forall|i: int|
            0 <= i < semantic_conflicts_of(meta).len() ==> #[trigger] semantic_conflicts_of(
                with_semantic_conflict(meta, id),
            )[i] == semantic_conflicts_of(meta)[i],
        semantic_conflicts_of(meta).contains(JsonTree::Text(id)) ==> semantic_conflicts_of(
            with_semantic_conflict(meta, id),
        ) == semantic_conflicts_of(meta),
        !semantic_conflicts_of(meta).contains(JsonTree::Text(id)) ==> semantic_conflicts_of(
            with_semantic_conflict(meta, id),
        ).last() == JsonTree::Text(id),
{
}

} // verus!
