//! Embeddings: which provider makes them, of what text, and where they are kept.
use crate::float::Float;
use crate::memory::{Content, ContentModel, ItemModel, MemoryItem, MemoryKind};
use crate::model::opt;
use crate::text::{blank, cat, is_blank, same_text};
use vstd::prelude::*;

verus! {

/// Embeddings by an Ollama server.
#[derive(Debug)]
pub struct OllamaEmbedder {
    pub base_url: String,
    pub model: String,
}

impl OllamaEmbedder {
    pub fn new(base_url: String, model: String) -> (r: OllamaEmbedder)
        ensures
            r.base_url@ == base_url@,
            r.model@ == model@,
    {
        OllamaEmbedder { base_url, model }
    }

    /// Where embeddings are asked for.
    pub fn embed_url(&self) -> (r: String)
        ensures
            r@ == self.base_url@ + "/api/embeddings"@,
    {
        cat(self.base_url.as_str(), "/api/embeddings")
    }

    /// How many numbers an embedding has: 768 by `nomic-embed-text`, by any other
    /// model 1024.
    pub fn dims(&self) -> (r: usize)
        ensures
            r == if self.model@ == "nomic-embed-text"@ {
                768usize
            } else {
                1024
            },
    {
        if same_text(self.model.as_str(), "nomic-embed-text") {
            768
        } else {
            1024
        }
    }

    /// The name of the model.
    pub fn model_id(&self) -> (r: &str)
        ensures
            r@ == self.model@,
    {
        self.model.as_str()
    }
}

/// Embeddings by Mistral's service.
#[derive(Debug)]
pub struct MistralEmbedder {
    pub api_key: String,
    pub model: String,
}

impl MistralEmbedder {
    pub fn new(api_key: String, model: String) -> (r: MistralEmbedder)
        ensures
            r.api_key@ == api_key@,
            r.model@ == model@,
    {
        MistralEmbedder { api_key, model }
    }

    /// Where embeddings are asked for.
    pub fn embed_url(&self) -> (r: &'static str)
        ensures
            r@ == "https://api.mistral.ai/v1/embeddings"@,
    {
        "https://api.mistral.ai/v1/embeddings"
    }

    /// The `Authorization` header that the service asks for.
    pub fn authorization(&self) -> (r: String)
        ensures
            r@ == "Bearer "@ + self.api_key@,
    {
        cat("Bearer ", self.api_key.as_str())
    }

    /// How many numbers an embedding has.
    pub fn dims(&self) -> (r: usize)
        ensures
            r == 1024,
    {
        1024
    }

    /// The name of the model.
    pub fn model_id(&self) -> (r: &str)
        ensures
            r@ == self.model@,
    {
        self.model.as_str()
    }
}

/// Embeddings by OpenAI's service.
#[derive(Debug)]
pub struct OpenAIEmbedder {
    pub api_key: String,
    pub model: String,
}

impl OpenAIEmbedder {
    pub fn new(api_key: String, model: String) -> (r: OpenAIEmbedder)
        ensures
            r.api_key@ == api_key@,
            r.model@ == model@,
    {
        OpenAIEmbedder { api_key, model }
    }

    /// Where embeddings are asked for.
    pub fn embed_url(&self) -> (r: &'static str)
        ensures
            r@ == "https://api.openai.com/v1/embeddings"@,
    {
        "https://api.openai.com/v1/embeddings"
    }

    /// The `Authorization` header that the service asks for.
    pub fn authorization(&self) -> (r: String)
        ensures
            r@ == "Bearer "@ + self.api_key@,
    {
        cat("Bearer ", self.api_key.as_str())
    }

    /// How many numbers an embedding has: 1536 by `text-embedding-3-small`, by any
    /// other model 3072.
    pub fn dims(&self) -> (r: usize)
        ensures
            r == if self.model@ == "text-embedding-3-small"@ {
                1536usize
            } else {
                3072
            },
    {
        if same_text(self.model.as_str(), "text-embedding-3-small") {
            1536
        } else {
            3072
        }
    }

    /// The name of the model.
    pub fn model_id(&self) -> (r: &str)
        ensures
            r@ == self.model@,
    {
        self.model.as_str()
    }
}

/// The provider of embeddings that was set up.
#[derive(Debug)]
pub enum EmbeddingProvider {
    Ollama(OllamaEmbedder),
    Mistral(MistralEmbedder),
    OpenAI(OpenAIEmbedder),
}

/// What is set about embeddings. A key that cannot be had comes with the reason.
#[derive(Debug)]
pub struct EmbeddingSettings {
    pub provider: Option<String>,
    pub ollama_base_url: Option<String>,
    pub ollama_model: Option<String>,
    pub mistral_api_key: Result<String, String>,
    pub mistral_model: Option<String>,
    pub openai_api_key: Result<String, String>,
    pub openai_model: Option<String>,
}

/// What is set, or a default.
pub open spec fn set_or(set: Option<String>, other: Seq<char>) -> Seq<char> {
    match set {
        Some(s) => s@,
        None => other,
    }
}

fn value_or(set: Option<String>, other: &str) -> (r: String)
    ensures
        r@ == set_or(set, other@),
{
    match set {
        Some(s) => s,
        None => other.to_owned(),
    }
}

/// Whether `r` is the provider that the settings name: Ollama on this machine
/// where they name none. Mistral and OpenAI need a key; no other is known.
pub open spec fn is_chosen(r: Result<EmbeddingProvider, String>, s: EmbeddingSettings) -> bool {
    let provider = set_or(s.provider, "ollama"@);
    if provider == "ollama"@ {
        match r {
            Ok(EmbeddingProvider::Ollama(e)) => e.base_url@ == set_or(
                s.ollama_base_url,
                "http://localhost:11434"@,
            ) && e.model@ == set_or(s.ollama_model, "mxbai-embed-large"@),
            _ => false,
        }
    } else if provider == "mistral"@ {
        match (r, s.mistral_api_key) {
            (Ok(EmbeddingProvider::Mistral(e)), Ok(key)) => e.api_key@ == key@ && e.model@
                == set_or(s.mistral_model, "mistral-embed"@),
            (Err(e), Err(f)) => e@ == f@,
            _ => false,
        }
    } else if provider == "openai"@ {
        match (r, s.openai_api_key) {
            (Ok(EmbeddingProvider::OpenAI(e)), Ok(key)) => e.api_key@ == key@ && e.model@ == set_or(
                s.openai_model,
                "text-embedding-3-large"@,
            ),
            (Err(e), Err(f)) => e@ == f@,
            _ => false,
        }
    } else {
        match r {
            Err(e) => e@ == "Unknown embedding provider: "@ + provider,
            Ok(_) => false,
        }
    }
}

/// Sets up the provider of embeddings that the settings name.
pub fn create_embedder(settings: EmbeddingSettings) -> (r: Result<EmbeddingProvider, String>)
    ensures
        is_chosen(r, settings),
{
    let provider = value_or(settings.provider, "ollama");
    if same_text(provider.as_str(), "ollama") {
        Ok(
            EmbeddingProvider::Ollama(
                OllamaEmbedder::new(
                    value_or(settings.ollama_base_url, "http://localhost:11434"),
                    value_or(settings.ollama_model, "mxbai-embed-large"),
                ),
            ),
        )
    } else if same_text(provider.as_str(), "mistral") {
        match settings.mistral_api_key {
            Ok(key) => Ok(
                EmbeddingProvider::Mistral(
                    MistralEmbedder::new(key, value_or(settings.mistral_model, "mistral-embed")),
                ),
            ),
            Err(e) => Err(e),
        }
    } else if same_text(provider.as_str(), "openai") {
        match settings.openai_api_key {
            Ok(key) => Ok(
                EmbeddingProvider::OpenAI(
                    OpenAIEmbedder::new(
                        key,
                        value_or(settings.openai_model, "text-embedding-3-large"),
                    ),
                ),
            ),
            Err(e) => Err(e),
        }
    } else {
        Err(cat("Unknown embedding provider: ", provider.as_str()))
    }
}

/// The embedding among those that a service answered with: the first. There must
/// be one.
pub fn first_embedding(data: Vec<Vec<Float>>) -> (r: Result<Vec<Float>, String>)
    ensures
        match r {
            Ok(e) => data@.len() > 0 && e@ == data@[0]@,
            Err(m) => data@.len() == 0 && m@ == "No embeddings returned"@,
        },
{
    if data.len() == 0 {
        return Err("No embeddings returned".to_owned());
    }
    let mut rest = data;
    Ok(rest.remove(0))
}

/// The text of which an embedding is made: that of the content, where it has one
/// that is not blank. Checkpoints are not embedded.
pub open spec fn embed_text(content: ContentModel, kind: MemoryKind) -> Option<Seq<char>> {
    match content {
        ContentModel::Text(text) if kind != MemoryKind::Checkpoint && !blank(text) => Some(text),
        ContentModel::TextJson { text, .. } if kind != MemoryKind::Checkpoint && !blank(
            text,
        ) => Some(text),
        _ => None,
    }
}

/// The text of which an embedding is made, if there is one.
pub fn content_embed_text(content: &Content, kind: MemoryKind) -> (r: Option<String>)
    ensures
        opt(r) == embed_text(content@, kind),
{
    match kind {
        MemoryKind::Checkpoint => {
            return None;
        },
        _ => {},
    }
    let text = match content {
        Content::Text(t) => t,
        Content::TextJson { text, .. } => text,
        Content::Json(_) => return None,
    };
    if is_blank(text.as_str()) {
        None
    } else {
        Some(text.clone())
    }
}

/// The text that is to be embedded for an item: none where it has an embedding
/// already, or no text for one.
pub open spec fn wanted_embedding(item: ItemModel) -> Option<Seq<char>> {
    if item.embedding is Some {
        None
    } else {
        embed_text(item.content, item.kind)
    }
}

/// The text that is to be embedded for an item, if there is one.
pub fn text_to_embed(item: &MemoryItem) -> (r: Option<String>)
    ensures
        opt(r) == wanted_embedding(item@),
{
    if item.embedding.is_some() {
        None
    } else {
        content_embed_text(&item.content, item.kind)
    }
}

/// An item with the embedding that was made for it. Where none was wanted, or it
/// could not be made, the item stays as it is.
pub open spec fn with_embedding(
    item: ItemModel,
    vector: Option<Seq<Float>>,
    model_id: Seq<char>,
) -> ItemModel {
    match (wanted_embedding(item), vector) {
        (Some(_), Some(v)) => ItemModel {
            embedding: Some(v),
            embedding_model: Some(model_id),
            ..item
        },
        _ => item,
    }
}

/// Takes up the embedding that was made for an item; a failure to make one is no
/// failure of the item.
pub fn maybe_embed_item(item: MemoryItem, vector: Option<Vec<Float>>, model_id: &str) -> (r:
    MemoryItem)
    ensures
        r@ == with_embedding(item@, opt(vector), model_id@),
{
    match (text_to_embed(&item), vector) {
        (Some(_), Some(v)) => MemoryItem {
            embedding: Some(v),
            embedding_model: Some(model_id.to_owned()),
            ..item
        },
        _ => item,
    }
}

/// An embedding that is there stays, whatever was made since.
pub proof fn law_embedding_is_kept(item: ItemModel, vector: Option<Seq<Float>>, model_id: Seq<char>)
    requires
        item.embedding is Some,
    ensures
        with_embedding(item, vector, model_id) == item,
{
}

/// An embedding is made of the text of a memory that has one which is not blank,
/// that very text, unless the memory is a checkpoint or has an embedding already.
pub proof fn law_texts_are_embedded(item: ItemModel)
    ensures
        item.embedding is None && item.kind != MemoryKind::Checkpoint ==> {
            &&& item.content matches ContentModel::Text(t) ==> wanted_embedding(item) == if blank(
                t,
            ) {
                None
            } else {
                Some(t)
            }
            &&& item.content matches ContentModel::TextJson { text, .. } ==> wanted_embedding(item)
                == if blank(text) {
                None
            } else {
                Some(text)
            }
            &&& item.content is Json ==> wanted_embedding(item) is None
        },
        item.embedding is Some || item.kind == MemoryKind::Checkpoint ==> wanted_embedding(
            item,
        ) is None,
{
}

/// A memory that wants an embedding gets the one that was made, with the name of the
/// model, and changes in nothing else; where none was made it stays as it is.
pub proof fn law_made_embeddings_are_taken(
    item: ItemModel,
    vector: Seq<Float>,
    model_id: Seq<char>,
)
    ensures
        wanted_embedding(item) is Some ==> with_embedding(item, Some(vector), model_id)
            == (ItemModel {
            embedding: Some(vector),
            embedding_model: Some(model_id),
            ..item
        }),
        wanted_embedding(item) is None ==> with_embedding(item, Some(vector), model_id) == item,
        with_embedding(item, None, model_id) == item,
{
}

/// The provider of embeddings is the one that the settings name, and Ollama where
/// they name none; one that needs a key has the key that is set, and fails without.
pub proof fn law_provider_is_as_set(r: Result<EmbeddingProvider, String>, s: EmbeddingSettings)
    requires
        is_chosen(r, s),
    ensures
        s.provider is None ==> (r matches Ok(p) && p is Ollama),
        s.provider matches Some(name) ==> {
            &&& name@ == "ollama"@ ==> (r matches Ok(p) && p is Ollama)
            &&& name@ == "mistral"@ ==> (r is Ok <==> s.mistral_api_key is Ok) && (r matches Ok(p)
                ==> p is Mistral)
            &&& name@ == "openai"@ ==> (r is Ok <==> s.openai_api_key is Ok) && (r matches Ok(p)
                ==> p is OpenAI)
            &&& name@ != "ollama"@ && name@ != "mistral"@ && name@ != "openai"@ ==> r is Err
        },
        r matches Ok(EmbeddingProvider::Ollama(e)) ==> {
            &&& s.ollama_model matches Some(m) ==> e.model@ == m@
            &&& s.ollama_model is None ==> e.model@ == "mxbai-embed-large"@
            &&& s.ollama_base_url matches Some(u) ==> e.base_url@ == u@
            &&& s.ollama_base_url is None ==> e.base_url@ == "http://localhost:11434"@
        },
        r matches Ok(EmbeddingProvider::Mistral(e)) ==> (s.mistral_api_key matches Ok(key)
            && e.api_key@ == key@) && (s.mistral_model matches Some(m) ==> e.model@ == m@),
        r matches Ok(EmbeddingProvider::OpenAI(e)) ==> (s.openai_api_key matches Ok(key)
            && e.api_key@ == key@) && (s.openai_model matches Some(m) ==> e.model@ == m@),
{
    reveal_strlit("ollama");
    reveal_strlit("mistral");
    reveal_strlit("openai");
    assert("ollama"@.len() == 6 && "mistral"@.len() == 7 && "openai"@.len() == 6);
    assert("ollama"@[1] == 'l' && "openai"@[1] == 'p');
}

} // verus!
