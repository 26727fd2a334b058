//! The oxidizedRAG source: functions and patterns found in code.
use crate::decimal::{decimal, i64_text};
use crate::facts::{make_text_list, text_list};
use crate::float::{Float, SEVEN_TENTHS, SIX_TENTHS};
use crate::json::{tree_cases, Json, JsonMap, JsonTree};
use crate::memory::{ContentModel, ItemModel, MemoryItem, MemoryKind, ScopeKey, ScopeModel};
use crate::model::{opt, views};
use crate::source::ingestion::FetchFailure;
use crate::source::item::{
    level_or, put_int, put_text, sourced_item, text_or, three_texts, two_texts, Draft,
};
use crate::text::{cat, cat3, join, joined, same_beginning};
use vstd::prelude::*;

verus! {

/// The analysis of a file as oxidizedRAG gives it.
#[derive(Debug)]
pub struct OxidizedRAGAnalysis {
    pub repo: String,
    pub file: String,
    pub analysis_type: String,
    pub functions: Vec<FunctionAnalysis>,
    pub patterns: Vec<String>,
    pub dependencies: Vec<String>,
    pub timestamp: i64,
    pub confidence: Float,
}

/// A function found in the file.
#[derive(Debug)]
pub struct FunctionAnalysis {
    pub name: String,
    pub signature: String,
    pub line_start: i32,
    pub line_end: i32,
}

/// The repository that a scope stands for.
pub open spec fn repo_of(scope: ScopeModel) -> Seq<char> {
    level_or(scope.workspace_id, "default"@)
}

/// The file that a scope stands for.
pub open spec fn file_of(scope: ScopeModel) -> Seq<char> {
    level_or(scope.project_id, "all"@)
}

/// The name of a memory of what was found in a file.
pub open spec fn file_memory_id(scope: ScopeModel, what: Seq<char>) -> Seq<char> {
    "oxidizedrag:"@ + repo_of(scope) + ":"@ + file_of(scope) + ":"@ + what
}

fn name_file_memory(scope: &ScopeKey, what: &str) -> (r: String)
    ensures
        r@ == file_memory_id(scope@, what@),
{
    let mut out = cat3("oxidizedrag:", text_or(&scope.workspace_id, "default"), ":");
    out.push_str(text_or(&scope.project_id, "all"));
    out.push_str(":");
    out.push_str(what);
    out
}

/// The memory of a function.
pub open spec fn function_memory(
    f: FunctionAnalysis,
    timestamp: i64,
    confidence: Float,
    scope: ScopeModel,
) -> ItemModel {
    sourced_item(
        "oxidizedrag"@,
        scope,
        file_memory_id(scope, f.name@),
        MemoryKind::Fact,
        timestamp,
        "Function "@ + f.name@ + " at "@ + decimal(f.line_start as int) + ":"@ + decimal(
            f.line_end as int,
        ),
        Map::empty().insert("type"@, JsonTree::Text("function"@)).insert(
            "name"@,
            JsonTree::Text(f.name@),
        ).insert("signature"@, JsonTree::Text(f.signature@)).insert(
            "location"@,
            JsonTree::Object(
                Map::empty().insert("file"@, JsonTree::Text(file_of(scope))).insert(
                    "start"@,
                    JsonTree::Int(f.line_start as int),
                ).insert("end"@, JsonTree::Int(f.line_end as int)),
            ),
        ),
        seq!["code-analysis"@, "function"@, "oxidizedrag"@],
        Float(SEVEN_TENTHS),
        confidence,
    )
}

/// The memory that sums up the patterns found.
pub open spec fn patterns_memory(
    patterns: Seq<Seq<char>>,
    timestamp: i64,
    confidence: Float,
    scope: ScopeModel,
) -> ItemModel {
    sourced_item(
        "oxidizedrag"@,
        scope,
        file_memory_id(scope, "patterns"@),
        MemoryKind::Summary,
        timestamp,
        "Code patterns detected: "@ + joined(patterns, ", "@),
        Map::empty().insert("type"@, JsonTree::Text("patterns"@)).insert(
            "patterns"@,
            text_list(patterns),
        ).insert("count"@, JsonTree::Int(patterns.len() as int)),
        seq!["pattern"@, "oxidizedrag"@],
        Float(SIX_TENTHS),
        confidence,
    )
}

/// The memories of an analysis: one for each function, and one for the patterns
/// where there are any.
pub open spec fn analysis_memories(a: OxidizedRAGAnalysis, scope: ScopeModel) -> Seq<ItemModel> {
    let functions = Seq::new(
        a.functions@.len(),
        |i: int| function_memory(a.functions@[i], a.timestamp, a.confidence, scope),
    );
    if a.patterns@.len() == 0 {
        functions
    } else {
        functions.push(patterns_memory(views(a.patterns@), a.timestamp, a.confidence, scope))
    }
}

/// Makes the memory of a function.
pub fn memory_of_function(
    f: &FunctionAnalysis,
    timestamp: i64,
    confidence: Float,
    scope: &ScopeKey,
) -> (r: MemoryItem)
    ensures
        r@ == function_memory(*f, timestamp, confidence, scope@),
{
    broadcast use tree_cases;

    let mut location = JsonMap::new();
    put_text(&mut location, "file", text_or(&scope.project_id, "all"));
    put_int(&mut location, "start", f.line_start as i64);
    put_int(&mut location, "end", f.line_end as i64);
    let mut details = JsonMap::new();
    put_text(&mut details, "type", "function");
    put_text(&mut details, "name", f.name.as_str());
    put_text(&mut details, "signature", f.signature.as_str());
    details.insert("location".to_owned(), Json::Object(location));
    let mut text = cat3("Function ", f.name.as_str(), " at ");
    text.push_str(i64_text(f.line_start as i64).as_str());
    text.push_str(":");
    text.push_str(i64_text(f.line_end as i64).as_str());
    Draft {
        id: name_file_memory(scope, f.name.as_str()),
        scope: scope.clone(),
        kind: MemoryKind::Fact,
        created_at_ms: timestamp,
        text,
        details,
        tags: three_texts("code-analysis", "function", "oxidizedrag"),
        importance: Float(SEVEN_TENTHS),
        confidence,
    }.into_item("oxidizedrag")
}

/// Makes the memory that sums up the patterns found.
pub fn memory_of_patterns(
    patterns: &Vec<String>,
    timestamp: i64,
    confidence: Float,
    scope: &ScopeKey,
) -> (r: MemoryItem)
    ensures
        r@ == patterns_memory(views(patterns@), timestamp, confidence, scope@),
{
    broadcast use tree_cases;

    let mut details = JsonMap::new();
    put_text(&mut details, "type", "patterns");
    details.insert("patterns".to_owned(), make_text_list(patterns));
    let count = Json::PosInt(patterns.len() as u64);
    details.insert("count".to_owned(), count);
    Draft {
        id: name_file_memory(scope, "patterns"),
        scope: scope.clone(),
        kind: MemoryKind::Summary,
        created_at_ms: timestamp,
        text: cat("Code patterns detected: ", join(patterns, ", ").as_str()),
        details,
        tags: two_texts("pattern", "oxidizedrag"),
        importance: Float(SIX_TENTHS),
        confidence,
    }.into_item("oxidizedrag")
}

/// The oxidizedRAG source.
#[derive(Debug)]
pub struct OxidizedRAGSource {
    /// Where oxidizedRAG is reached.
    pub endpoint: String,
    /// The key that it asks for, where it asks for one.
    pub api_key: Option<String>,
}

impl OxidizedRAGSource {
    /// The source at an address, without a key.
    pub fn new(endpoint: String) -> (r: OxidizedRAGSource)
        ensures
            r.endpoint@ == endpoint@,
            r.api_key is None,
    {
        OxidizedRAGSource { endpoint, api_key: None }
    }

    /// The same source with a key.
    pub fn with_api_key(self, key: String) -> (r: OxidizedRAGSource)
        ensures
            r.endpoint@ == self.endpoint@,
            opt(r.api_key) == Some(key@),
    {
        OxidizedRAGSource { endpoint: self.endpoint, api_key: Some(key) }
    }

    /// The name of the source.
    pub fn source_id(&self) -> (r: &'static str)
        ensures
            r@ == "oxidizedrag"@,
    {
        "oxidizedrag"
    }

    /// What the source offers.
    pub fn description(&self) -> (r: &'static str)
        ensures
            r@ == "Code analysis and pattern extraction from oxidizedRAG"@,
    {
        "Code analysis and pattern extraction from oxidizedRAG"
    }

    /// Where the analysis of a scope's file is asked for.
    pub fn analyze_url(&self, scope: &ScopeKey) -> (r: String)
        ensures
            r@ == self.endpoint@ + "/v1/analyze?repo="@ + repo_of(scope@) + "&file="@ + file_of(
                scope@,
            ),
    {
        let mut url = cat3(
            self.endpoint.as_str(),
            "/v1/analyze?repo=",
            text_or(&scope.workspace_id, "default"),
        );
        url.push_str("&file=");
        url.push_str(text_or(&scope.project_id, "all"));
        url
    }

    /// Where the source's health is asked for.
    pub fn health_url(&self) -> (r: String)
        ensures
            r@ == self.endpoint@ + "/v1/health"@,
    {
        cat(self.endpoint.as_str(), "/v1/health")
    }

    /// The memories that the source's answer holds.
    pub fn fetch_memories(
        &self,
        scope: &ScopeKey,
        analysis: Result<OxidizedRAGAnalysis, FetchFailure>,
    ) -> (r: Result<Vec<MemoryItem>, String>)
        ensures
            match (r, analysis) {
                (Ok(memories), Ok(a)) => views(memories@) == analysis_memories(a, scope@),
                (Err(e), Err(FetchFailure::Parse(m))) => e@
                    == "Failed to parse oxidizedRAG response: "@ + m@,
                (Err(e), Err(FetchFailure::Call(m))) => e@ == "Failed to call oxidizedRAG API: "@
                    + m@,
                _ => false,
            },
    {
        let analysis = match analysis {
            Ok(a) => a,
            Err(FetchFailure::Parse(m)) => {
                return Err(cat("Failed to parse oxidizedRAG response: ", m.as_str()));
            },
            Err(FetchFailure::Call(m)) => {
                return Err(cat("Failed to call oxidizedRAG API: ", m.as_str()));
            },
        };
        let ghost whole = analysis_memories(analysis, scope@);
        let mut out: Vec<MemoryItem> = Vec::new();
        for i in 0..analysis.functions.len()
            invariant
                whole == analysis_memories(analysis, scope@),
                out@.len() == i,
                forall|k: int| 0 <= k < i ==> (#[trigger] out@[k])@ == whole[k],
        {
            out.push(
                memory_of_function(
                    &analysis.functions[i],
                    analysis.timestamp,
                    analysis.confidence,
                    scope,
                ),
            );
        }
        if analysis.patterns.len() > 0 {
            out.push(
                memory_of_patterns(
                    &analysis.patterns,
                    analysis.timestamp,
                    analysis.confidence,
                    scope,
                ),
            );
        }
        assert(views(out@) =~= whole);
        Ok(out)
    }
}

/// Every function becomes one memory, in their order, a fact as sure as the analysis
/// in the scope that was asked for; and where patterns were found, one summary tells
/// them all.
pub proof fn law_analyses_become_memories(a: OxidizedRAGAnalysis, scope: ScopeModel)
    ensures
        analysis_memories(a, scope).len() == a.functions@.len() + if a.patterns@.len() == 0 {
            0int
        } else {
            1
        },
        forall|i: int|
            0 <= i < a.functions@.len() ==> {
                let memory = #[trigger] analysis_memories(a, scope)[i];
                &&& memory.scope == scope
                &&& memory.kind == MemoryKind::Fact
                &&& memory.created_at_ms == a.timestamp
                &&& memory.confidence == a.confidence
                &&& memory.source == "oxidizedrag"@
                &&& a.functions@[i].name@.is_suffix_of(memory.id)
            },
        a.patterns@.len() > 0 ==> {
            let memory = analysis_memories(a, scope).last();
            &&& memory.scope == scope
            &&& memory.kind == MemoryKind::Summary
            &&& memory.created_at_ms == a.timestamp
            &&& memory.confidence == a.confidence
            &&& memory.content matches ContentModel::TextJson { text, json } && text
                == "Code patterns detected: "@ + joined(views(a.patterns@), ", "@) && json.field(
                "count"@,
            ) == Some(JsonTree::Int(a.patterns@.len() as int)) && json.field("patterns"@) == Some(
                text_list(views(a.patterns@)),
            )
        },
{
    let all = analysis_memories(a, scope);
    assert forall|i: int| 0 <= i < a.functions@.len() implies a.functions@[i].name@.is_suffix_of(
        (#[trigger] all[i]).id,
    ) by {
        let id = all[i].id;
        let name = a.functions@[i].name@;
        assert(id.subrange(id.len() - name.len(), id.len() as int) =~= name);
    }
    reveal_strlit("type");
    reveal_strlit("patterns");
    reveal_strlit("count");
    assert("type"@.len() == 4 && "patterns"@.len() == 8 && "count"@.len() == 5);
}

/// A function's memory tells its name and its lines, from the first to the last, and
/// holds its signature and where it stands; different functions of a file become
/// different memories.
pub proof fn law_function_memory_tells_its_function(
    f: FunctionAnalysis,
    g: FunctionAnalysis,
    timestamp: i64,
    confidence: Float,
    scope: ScopeModel,
)
    ensures
        function_memory(f, timestamp, confidence, scope).content matches ContentModel::TextJson {
            text,
            json,
        } && {
            &&& text == "Function "@ + f.name@ + " at "@ + decimal(f.line_start as int) + ":"@
                + decimal(f.line_end as int)
            &&& json.field("name"@) == Some(JsonTree::Text(f.name@))
            &&& json.field("signature"@) == Some(JsonTree::Text(f.signature@))
            &&& json.field("location"@) matches Some(location) && location.field("start"@) == Some(
                JsonTree::Int(f.line_start as int),
            ) && location.field("end"@) == Some(JsonTree::Int(f.line_end as int))
        },
        f.name@ != g.name@ ==> function_memory(f, timestamp, confidence, scope).id
            != function_memory(g, timestamp, confidence, scope).id,
{
    reveal_strlit("type");
    reveal_strlit("name");
    reveal_strlit("signature");
    reveal_strlit("location");
    reveal_strlit("file");
    reveal_strlit("start");
    reveal_strlit("end");
    assert("type"@.len() == 4 && "name"@.len() == 4 && "signature"@.len() == 9 && "location"@.len()
        == 8 && "file"@.len() == 4 && "start"@.len() == 5 && "end"@.len() == 3);
    assert("type"@[0] == 't' && "name"@[0] == 'n');
    same_beginning(
        "oxidizedrag:"@ + repo_of(scope) + ":"@ + file_of(scope) + ":"@,
        f.name@,
        g.name@,
    );
}

/// The memories of an analysis are named after its repository and its file, or after
/// words that stand for them where they are not given.
pub proof fn law_analysis_memories_name_their_file(
    f: FunctionAnalysis,
    patterns: Seq<Seq<char>>,
    timestamp: i64,
    confidence: Float,
    scope: ScopeModel,
)
    ensures
        ({
            let repo = match scope.workspace_id {
                Some(workspace) => workspace,
                None => "default"@,
            };
            let file = match scope.project_id {
                Some(project) => project,
                None => "all"@,
            };
            let front = "oxidizedrag:"@ + repo + ":"@ + file + ":"@;
            &&& function_memory(f, timestamp, confidence, scope).id == front + f.name@
            &&& patterns_memory(patterns, timestamp, confidence, scope).id == front + "patterns"@
        }),
{
}

} // verus!
