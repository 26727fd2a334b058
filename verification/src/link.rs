//! Links: how memories relate to one another.
use crate::float::Float;
use crate::memory::MemoryId;
use crate::text::same_text;
use vstd::prelude::*;

verus! {

/// How one memory relates to another.
#[derive(Debug, Clone, Copy, PartialEq, Eq, Hash, Structural)]
pub enum RelationshipType {
    /// The first caused the second.
    Causal,
    /// The second was derived from the first.
    DerivedFrom,
    /// They conflict.
    Contradicts,
    /// They are equivalent.
    SameAs,
    /// The first refers to the second.
    References,
}

/// The word for a relationship.
pub open spec fn rel_text(rel: RelationshipType) -> Seq<char> {
    match rel {
        RelationshipType::Causal => "causal"@,
        RelationshipType::DerivedFrom => "derived_from"@,
        RelationshipType::Contradicts => "contradicts"@,
        RelationshipType::SameAs => "same_as"@,
        RelationshipType::References => "references"@,
    }
}

/// The relationship that a word names.
pub open spec fn rel_named(word: Seq<char>) -> Option<RelationshipType> {
    if word == "causal"@ {
        Some(RelationshipType::Causal)
    } else if word == "derived_from"@ {
        Some(RelationshipType::DerivedFrom)
    } else if word == "contradicts"@ {
        Some(RelationshipType::Contradicts)
    } else if word == "same_as"@ {
        Some(RelationshipType::SameAs)
    } else if word == "references"@ {
        Some(RelationshipType::References)
    } else {
        None
    }
}

impl RelationshipType {
    /// The word for this relationship.
    pub fn as_str(&self) -> (r: &'static str)
        ensures
            r@ == rel_text(*self),
    {
        match self {
            RelationshipType::Causal => "causal",
            RelationshipType::DerivedFrom => "derived_from",
            RelationshipType::Contradicts => "contradicts",
            RelationshipType::SameAs => "same_as",
            RelationshipType::References => "references",
        }
    }

    /// Reads a relationship.
    pub fn parse(word: &str) -> (r: Option<RelationshipType>)
        ensures
            r == rel_named(word@),
    {
        if same_text(word, "causal") {
            Some(RelationshipType::Causal)
        } else if same_text(word, "derived_from") {
            Some(RelationshipType::DerivedFrom)
        } else if same_text(word, "contradicts") {
            Some(RelationshipType::Contradicts)
        } else if same_text(word, "same_as") {
            Some(RelationshipType::SameAs)
        } else if same_text(word, "references") {
            Some(RelationshipType::References)
        } else {
            None
        }
    }
}

/// The word for a relationship reads back as that relationship.
pub proof fn law_relationship_reads_back(rel: RelationshipType)
    ensures
        rel_named(rel_text(rel)) == Some(rel),
{
    reveal_strlit("causal");
    reveal_strlit("derived_from");
    reveal_strlit("contradicts");
    reveal_strlit("same_as");
    reveal_strlit("references");
    assert("causal"@.len() == 6 && "derived_from"@.len() == 12 && "contradicts"@.len() == 11
        && "same_as"@.len() == 7 && "references"@.len() == 10);
}

/// The name of a link.
#[derive(Debug, PartialEq, Eq, Hash)]
pub struct MemoryLinkId(pub String);

impl View for MemoryLinkId {
    type V = Seq<char>;

    open spec fn view(&self) -> Seq<char> {
        self.0@
    }
}

impl Clone for MemoryLinkId {
    fn clone(&self) -> (r: MemoryLinkId)
        ensures
            r@ == self@,
    {
        MemoryLinkId(self.0.clone())
    }
}

/// A link from one memory to another, within a tenant.
#[derive(Debug)]
pub struct MemoryLink {
    pub id: MemoryLinkId,
    pub tenant_id: String,
    pub src: MemoryId,
    pub dst: MemoryId,
    pub rel: RelationshipType,
    /// How strong the link is, from 0 to 1.
    pub weight: Float,
    /// How sure it is, from 0 to 1.
    pub confidence: Float,
    pub created_at_ms: i64,
}

/// The model of a link.
pub struct LinkModel {
    pub id: Seq<char>,
    pub tenant_id: Seq<char>,
    pub src: Seq<char>,
    pub dst: Seq<char>,
    pub rel: RelationshipType,
    pub weight: Float,
    pub confidence: Float,
    pub created_at_ms: i64,
}

impl View for MemoryLink {
    type V = LinkModel;

    open spec fn view(&self) -> LinkModel {
        LinkModel {
            id: self.id@,
            tenant_id: self.tenant_id@,
            src: self.src@,
            dst: self.dst@,
            rel: self.rel,
            weight: self.weight,
            confidence: self.confidence,
            created_at_ms: self.created_at_ms,
        }
    }
}

impl Clone for MemoryLink {
    fn clone(&self) -> (r: MemoryLink)
        ensures
            r@ == self@,
    {
        MemoryLink {
            id: self.id.clone(),
            tenant_id: self.tenant_id.clone(),
            src: self.src.clone(),
            dst: self.dst.clone(),
            rel: self.rel,
            weight: self.weight,
            confidence: self.confidence,
            created_at_ms: self.created_at_ms,
        }
    }
}

/// Checks the weight and the confidence of a link.
pub fn validate_link_metadata(weight: Float, confidence: Float) -> (r: Result<(), String>)
    ensures
        match r {
            Ok(_) => weight.in_unit() && confidence.in_unit(),
            Err(e) => !(weight.in_unit() && confidence.in_unit()) && e@
                == "weight and confidence must be in 0..=1"@,
        },
{
    if !weight.within_unit() || !confidence.within_unit() {
        Err("weight and confidence must be in 0..=1".to_owned())
    } else {
        Ok(())
    }
}

/// A memory reached in a traversal, how far it is from the start, and the link
/// by which it was reached.
#[derive(Debug)]
pub struct TraversalStep {
    pub memory_id: MemoryId,
    pub depth: usize,
    pub link: MemoryLink,
}

/// The model of such a step.
pub struct StepModel {
    pub memory_id: Seq<char>,
    pub depth: usize,
    pub link: LinkModel,
}

impl View for TraversalStep {
    type V = StepModel;

    open spec fn view(&self) -> StepModel {
        StepModel { memory_id: self.memory_id@, depth: self.depth, link: self.link@ }
    }
}

/// Only the word for a relationship names it.
pub proof fn law_only_its_word_names_a_relationship(word: Seq<char>)
    ensures
        rel_named(word) matches Some(rel) ==> word == rel_text(rel),
        rel_named(word) is None <==> word != "causal"@ && word != "derived_from"@ && word
            != "contradicts"@ && word != "same_as"@ && word != "references"@,
{
}

} // verus!
