//! Analysis requests and the text handling around the analysis agent:
//! prompts, parsing of its answers, and simple code and repository metrics.

use vstd::prelude::*;
use crate::text::{
    chars_of, chars_eq, contains, has_sub, lines, lines_of, lowercase_of, to_lowercase, string_of,
    split_str, split_on, count_matches, count_occurrences, lemma_count_matches_bound, lemma_count_matches_push,
    lemma_line_scan_concat, line_scan, strip_cr, trim, trim_chars, has_prefix, starts_with,
};
use crate::processors::local::{tally, tally_view, most_frequent, most_frequent_index};
use crate::processors::npm::count_items;
use crate::error::{detail, ProcessorError, Result};

verus! {

/// Types of analysis that can be performed.
pub enum AnalysisType {
    /// Generate comprehensive repository documentation
    Documentation,
    /// Analyze code quality and suggest improvements
    CodeReview,
    /// Generate API documentation
    ApiDocumentation,
    /// Analyze dependencies and security
    SecurityAudit,
    /// Generate usage examples
    Examples,
    /// Custom analysis with user-defined prompt
    Custom(String),
}

/// Repository analysis request.
pub struct AnalysisRequest {
    /// Repository URL or path
    pub repository: String,
    /// Type of analysis to perform
    pub analysis_type: AnalysisType,
    /// Additional context or instructions
    pub context: Option<String>,
    /// Custom parameters for the analysis
    pub parameters: Vec<(String, String)>,
}

/// Parses an analysis type name; any other name is a custom analysis with
/// that name as its prompt.
pub fn parse_analysis_type(s: &str) -> (t: AnalysisType)
    ensures
        s@ == "documentation"@ ==> t is Documentation,
        s@ == "security"@ ==> t is SecurityAudit,
        s@ == "code_review"@ ==> t is CodeReview,
        s@ == "examples"@ ==> t is Examples,
        s@ == "api_docs"@ ==> t is ApiDocumentation,
        s@ != "documentation"@ && s@ != "security"@ && s@ != "code_review"@ && s@ != "examples"@
            && s@ != "api_docs"@ ==> (t matches AnalysisType::Custom(p) && p@ == s@),
{
    proof {
        reveal_strlit("documentation");
        reveal_strlit("security");
        reveal_strlit("code_review");
        reveal_strlit("examples");
        reveal_strlit("api_docs");
        assert("documentation"@ != "security"@) by {
            assert("documentation"@.len() != "security"@.len());
        }
        assert("documentation"@ != "code_review"@) by {
            assert("documentation"@.len() != "code_review"@.len());
        }
        assert("documentation"@ != "examples"@) by {
            assert("documentation"@.len() != "examples"@.len());
        }
        assert("security"@ != "code_review"@) by {
            assert("security"@.len() != "code_review"@.len());
        }
        assert("security"@ != "examples"@) by {
            assert("security"@[0] != "examples"@[0]);
        }
        assert("code_review"@ != "examples"@) by {
            assert("code_review"@.len() != "examples"@.len());
        }
    }
    let c = chars_of(s);
    if chars_eq(&c, &chars_of("documentation")) {
        AnalysisType::Documentation
    } else if chars_eq(&c, &chars_of("security")) {
        AnalysisType::SecurityAudit
    } else if chars_eq(&c, &chars_of("code_review")) {
        AnalysisType::CodeReview
    } else if chars_eq(&c, &chars_of("examples")) {
        AnalysisType::Examples
    } else if chars_eq(&c, &chars_of("api_docs")) {
        AnalysisType::ApiDocumentation
    } else {
        AnalysisType::Custom(String::from_str(s))
    }
}

/// The instructions added to the system prompt for each analysis type.
pub open spec fn instructions(t: AnalysisType) -> Seq<char> {
    match t {
        AnalysisType::Documentation => "Focus on creating comprehensive, well-structured documentation."@,
        AnalysisType::CodeReview => "Analyze code quality, patterns, and suggest improvements."@,
        AnalysisType::ApiDocumentation => "Generate detailed API documentation with examples."@,
        AnalysisType::SecurityAudit => "Identify security vulnerabilities and best practices."@,
        AnalysisType::Examples => "Create practical, working examples of how to use this code."@,
        AnalysisType::Custom(p) => p@,
    }
}

/// The system prompt for a request: the base prompt and the type's instructions.
pub fn build_system_prompt(base_prompt: &str, t: &AnalysisType) -> (r: String)
    ensures
        r@ == base_prompt@ + "\n\nSpecific Instructions: "@ + instructions(*t),
{
    let mut out = String::from_str(base_prompt);
    out.append("\n\nSpecific Instructions: ");
    match t {
        AnalysisType::Documentation => out.append("Focus on creating comprehensive, well-structured documentation."),
        AnalysisType::CodeReview => out.append("Analyze code quality, patterns, and suggest improvements."),
        AnalysisType::ApiDocumentation => out.append("Generate detailed API documentation with examples."),
        AnalysisType::SecurityAudit => out.append("Identify security vulnerabilities and best practices."),
        AnalysisType::Examples => out.append("Create practical, working examples of how to use this code."),
        AnalysisType::Custom(p) => out.append(p.as_str()),
    }
    out
}

/// The content of the placeholder analysis of `repository`.
pub fn mock_analysis_content(repository: &str) -> (r: String)
    ensures
        r@ == "Mock analysis for repository: "@ + repository@,
{
    let mut out = String::from_str("Mock analysis for repository: ");
    out.append(repository);
    out
}

/// The context loaded for a conversation about `repository`.
pub fn repository_context(repository: &str) -> (r: String)
    ensures
        r@ == "Repository: "@ + repository@ + "\nLoaded basic context"@,
{
    let mut out = String::from_str("Repository: ");
    out.append(repository);
    out.append("\nLoaded basic context");
    out
}

/// The pieces at odd positions of `pieces` (the code blocks between fences).
pub open spec fn odd_pieces(pieces: Seq<Seq<char>>) -> Seq<Seq<char>>
    decreases pieces.len(),
{
    if pieces.len() == 0 {
        Seq::empty()
    } else if (pieces.len() - 1) % 2 == 1 {
        odd_pieces(pieces.drop_last()).push(pieces.last())
    } else {
        odd_pieces(pieces.drop_last())
    }
}

/// The code examples of an answer: the text inside each pair of code fences.
pub fn extract_examples(content: &str) -> (r: Vec<String>)
    ensures
        r@.map_values(|s: String| s@) == odd_pieces(split_str(content@, "```"@)),
{
    proof {
        reveal_strlit("```");
    }
    let pieces = split_on(&chars_of(content), &chars_of("```"));
    let ghost pv = pieces@.map_values(|v: Vec<char>| v@);
    let mut r: Vec<String> = Vec::new();
    let mut i: usize = 0;
    while i < pieces.len()
        invariant
            i <= pieces@.len(),
            pv == pieces@.map_values(|v: Vec<char>| v@),
            r@.map_values(|s: String| s@) == odd_pieces(pv.take(i as int)),
        decreases pieces@.len() - i,
    {
        assert(pv.take(i + 1).drop_last() =~= pv.take(i as int));
        assert(pv.take(i + 1).last() == pieces@[i as int]@);
        if i % 2 == 1 {
            let ghost rb = r@;
            r.push(string_of(&pieces[i]));
            assert(r@.map_values(|s: String| s@) =~= rb.map_values(|s: String| s@).push(pieces@[i as int]@));
        }
        i = i + 1;
    }
    assert(pv.take(pieces@.len() as int) =~= pv);
    r
}

/// The lines of `ls` whose lowercase form holds `a` or `b`.
pub open spec fn lines_mentioning(ls: Seq<Seq<char>>, a: Seq<char>, b: Seq<char>) -> Seq<Seq<char>>
    decreases ls.len(),
{
    if ls.len() == 0 {
        Seq::empty()
    } else if has_sub(lowercase_of(ls.last()), a) || has_sub(lowercase_of(ls.last()), b) {
        lines_mentioning(ls.drop_last(), a, b).push(ls.last())
    } else {
        lines_mentioning(ls.drop_last(), a, b)
    }
}

fn filter_lines(content: &str, a: &str, b: &str) -> (r: Vec<String>)
    ensures
        r@.map_values(|s: String| s@) == lines_mentioning(lines_of(content@), a@, b@),
{
    let ls = lines(&chars_of(content));
    let ghost all = lines_of(content@);
    let ca = chars_of(a);
    let cb = chars_of(b);
    let mut r: Vec<String> = Vec::new();
    let mut i: usize = 0;
    while i < ls.len()
        invariant
            i <= ls@.len() == all.len(),
            forall|k: int| 0 <= k < ls@.len() ==> #[trigger] ls@[k]@ == all[k],
            ca@ == a@,
            cb@ == b@,
            r@.map_values(|s: String| s@) == lines_mentioning(all.take(i as int), a@, b@),
        decreases ls@.len() - i,
    {
        assert(all.take(i + 1).drop_last() =~= all.take(i as int));
        assert(all.take(i + 1).last() == all[i as int]);
        let line = string_of(&ls[i]);
        let lower = chars_of(to_lowercase(line.as_str()).as_str());
        if contains(&lower, &ca) || contains(&lower, &cb) {
            let ghost rb = r@;
            r.push(line);
            assert(r@.map_values(|s: String| s@) =~= rb.map_values(|s: String| s@).push(all[i as int]));
        }
        i = i + 1;
    }
    assert(all.take(ls@.len() as int) =~= all);
    r
}

/// The lines of an answer that mention a vulnerability or security.
pub fn parse_vulnerabilities(content: &str) -> (r: Vec<String>)
    ensures
        r@.map_values(|s: String| s@) == lines_mentioning(lines_of(content@), "vulnerability"@, "security"@),
{
    filter_lines(content, "vulnerability", "security")
}

/// The lines of an answer that recommend something.
pub fn parse_recommendations(content: &str) -> (r: Vec<String>)
    ensures
        r@.map_values(|s: String| s@) == lines_mentioning(lines_of(content@), "recommend"@, "should"@),
{
    filter_lines(content, "recommend", "should")
}

/// How often the risk words occur in the lowercased answer.
pub open spec fn risk_count(content: Seq<char>) -> nat {
    let l = lowercase_of(content);
    count_matches(l, "critical"@) + count_matches(l, "high"@) + count_matches(l, "vulnerability"@)
        + count_matches(l, "exploit"@)
}

/// The risk score of an answer: twenty per risk word, at most 100.
pub fn calculate_risk_score(content: &str) -> (r: u8)
    ensures
        r == (if risk_count(content@) * 20 < 100 { risk_count(content@) * 20 } else { 100 }),
{
    let lower = chars_of(to_lowercase(content).as_str());
    proof {
        reveal_strlit("critical");
        reveal_strlit("high");
        reveal_strlit("vulnerability");
        reveal_strlit("exploit");
    }
    let a = count_occurrences(&lower, &chars_of("critical"));
    let b = count_occurrences(&lower, &chars_of("high"));
    let c = count_occurrences(&lower, &chars_of("vulnerability"));
    let d = count_occurrences(&lower, &chars_of("exploit"));
    proof {
        lemma_count_matches_bound(lower@, "critical"@);
        lemma_count_matches_bound(lower@, "high"@);
        lemma_count_matches_bound(lower@, "vulnerability"@);
        lemma_count_matches_bound(lower@, "exploit"@);
    }
    let total: u128 = a as u128 + b as u128 + c as u128 + d as u128;
    if total < 5 {
        (total * 20) as u8
    } else {
        100
    }
}

/// Individual message in a conversation.
pub struct Message {
    /// Message role (user, assistant, system)
    pub role: String,
    /// Message content
    pub content: String,
    /// Message timestamp (RFC 3339)
    pub timestamp: String,
}

/// Conversation context for interactive analysis.
pub struct ConversationContext {
    /// Conversation ID
    pub id: String,
    /// Message history
    pub messages: Vec<Message>,
    /// Repository context
    pub repository_context: String,
    /// Analysis session state
    pub session_state: Vec<(String, String)>,
}

/// Continues a conversation: records the user's message at `asked_at` and the
/// answer at `answered_at`, and returns the answer.
pub fn continue_conversation(
    context: &mut ConversationContext,
    user_message: &str,
    asked_at: &str,
    answered_at: &str,
) -> (r: String)
    ensures
        r@ == "Mock response to: "@ + user_message@,
        final(context).messages@.len() == old(context).messages@.len() + 2,
        forall|i: int| 0 <= i < old(context).messages@.len() ==> #[trigger] final(context).messages@[i] == old(context).messages@[i],
        final(context).messages@[old(context).messages@.len() as int].role@ == "user"@,
        final(context).messages@[old(context).messages@.len() as int].content@ == user_message@,
        final(context).messages@[old(context).messages@.len() as int].timestamp@ == asked_at@,
        final(context).messages@[old(context).messages@.len() + 1int].role@ == "assistant"@,
        final(context).messages@[old(context).messages@.len() + 1int].content@ == r@,
        final(context).messages@[old(context).messages@.len() + 1int].timestamp@ == answered_at@,
        final(context).id == old(context).id,
        final(context).repository_context == old(context).repository_context,
{
    context.messages.push(Message {
        role: String::from_str("user"),
        content: String::from_str(user_message),
        timestamp: String::from_str(asked_at),
    });
    let mut response = String::from_str("Mock response to: ");
    response.append(user_message);
    context.messages.push(Message {
        role: String::from_str("assistant"),
        content: response.clone(),
        timestamp: String::from_str(answered_at),
    });
    response
}


/// The active conversations, each under its identifier; identifiers are
/// unique and conversations are kept in the order they were started.
pub struct ConversationManager {
    conversations: Vec<ConversationContext>,
}

/// The identifiers of the conversations.
pub open spec fn conversation_ids(cs: Seq<ConversationContext>) -> Seq<Seq<char>> {
    cs.map_values(|c: ConversationContext| c.id@)
}

/// The position of the conversation `id`, when there is one.
pub open spec fn conversation_index(cs: Seq<ConversationContext>, id: Seq<char>) -> Option<int> {
    if exists|i: int| 0 <= i < cs.len() && #[trigger] cs[i].id@ == id {
        Some(choose|i: int| 0 <= i < cs.len() && #[trigger] cs[i].id@ == id)
    } else {
        None
    }
}

impl ConversationManager {
    /// The conversations, in the order they were started.
    pub closed spec fn view(&self) -> Seq<ConversationContext> {
        self.conversations@
    }

    /// Identifiers are unique.
    pub closed spec fn wf(&self) -> bool {
        forall|i: int, j: int|
            0 <= i < j < self.conversations@.len() ==> #[trigger] self.conversations@[i].id@
                != #[trigger] self.conversations@[j].id@
    }

    /// A manager with no conversation.
    pub fn new() -> (m: Self)
        ensures
            m.wf(),
            m.view() == Seq::<ConversationContext>::empty(),
    {
        ConversationManager { conversations: Vec::new() }
    }

    fn position(&self, id: &str) -> (r: Option<usize>)
        requires
            self.wf(),
        ensures
            match r {
                Some(i) => i < self.view().len() && self.view()[i as int].id@ == id@
                    && conversation_index(self.view(), id@) == Some(i as int),
                None => conversation_index(self.view(), id@) is None,
            },
    {
        let k = chars_of(id);
        let mut i: usize = 0;
        while i < self.conversations.len()
            invariant
                i <= self.conversations@.len(),
                k@ == id@,
                self.wf(),
                forall|j: int| 0 <= j < i ==> #[trigger] self.conversations@[j].id@ != id@,
            decreases self.conversations@.len() - i,
        {
            if chars_eq(&chars_of(self.conversations[i].id.as_str()), &k) {
                proof {
                    assert(self.conversations@[i as int].id@ == id@);
                    let c = choose|j: int| 0 <= j < self.conversations@.len() && #[trigger] self.conversations@[j].id@ == id@;
                    if c < i as int {
                        assert(self.conversations@[c].id@ != self.conversations@[i as int].id@);
                    } else if c > i as int {
                        assert(self.conversations@[i as int].id@ != self.conversations@[c].id@);
                    }
                }
                return Some(i);
            }
            i = i + 1;
        }
        None
    }

    /// Records a started conversation under its identifier, replacing any
    /// conversation with the same identifier; returns the identifier.
    pub fn start_conversation(&mut self, context: ConversationContext) -> (id: String)
        requires
            old(self).wf(),
        ensures
            final(self).wf(),
            id@ == context.id@,
            match conversation_index(old(self).view(), context.id@) {
                Some(i) => final(self).view() == old(self).view().update(i, context),
                None => final(self).view() == old(self).view().push(context),
            },
    {
        let id = context.id.clone();
        match self.position(id.as_str()) {
            Some(i) => {
                self.conversations.set(i, context);
                proof {
                    assert forall|a: int, b: int|
                        0 <= a < b < self.conversations@.len() implies #[trigger] self.conversations@[a].id@
                            != #[trigger] self.conversations@[b].id@ by {
                        assert(old(self).conversations@[a].id@ != old(self).conversations@[b].id@ || a == i || b == i);
                        if a == i as int {
                            assert(old(self).conversations@[b].id@ != old(self).conversations@[a].id@);
                        } else if b == i as int {
                            assert(old(self).conversations@[a].id@ != old(self).conversations@[b].id@);
                        }
                    }
                }
            },
            None => {
                self.conversations.push(context);
                proof {
                    assert forall|a: int, b: int|
                        0 <= a < b < self.conversations@.len() implies #[trigger] self.conversations@[a].id@
                            != #[trigger] self.conversations@[b].id@ by {
                        if b == self.conversations@.len() - 1 {
                            assert(self.conversations@[a] == old(self).conversations@[a]);
                            if old(self).conversations@[a].id@ == id@ {
                                assert(exists|i: int| 0 <= i < old(self).conversations@.len() && #[trigger] old(self).conversations@[i].id@ == id@);
                            }
                        }
                    }
                }
            },
        }
        id
    }

    /// The conversation `id`, when there is one.
    pub fn get_conversation(&self, id: &str) -> (r: Option<&ConversationContext>)
        requires
            self.wf(),
        ensures
            match conversation_index(self.view(), id@) {
                Some(i) => r == Some(&self.view()[i]),
                None => r is None,
            },
    {
        match self.position(id) {
            Some(i) => Some(&self.conversations[i]),
            None => None,
        }
    }

    /// Ends conversation `id`; whether there was one.
    pub fn end_conversation(&mut self, id: &str) -> (b: bool)
        requires
            old(self).wf(),
        ensures
            final(self).wf(),
            match conversation_index(old(self).view(), id@) {
                Some(i) => b && final(self).view() == old(self).view().remove(i),
                None => !b && final(self).view() == old(self).view(),
            },
    {
        match self.position(id) {
            Some(i) => {
                let ghost before = self.conversations@;
                self.conversations.remove(i);
                proof {
                    assert forall|a: int, b: int|
                        0 <= a < b < self.conversations@.len() implies #[trigger] self.conversations@[a].id@
                            != #[trigger] self.conversations@[b].id@ by {
                        let a2 = if a < i { a } else { a + 1 };
                        let b2 = if b < i { b } else { b + 1 };
                        assert(self.conversations@[a] == before[a2]);
                        assert(self.conversations@[b] == before[b2]);
                        assert(before[a2].id@ != before[b2].id@);
                    }
                }
                true
            },
            None => false,
        }
    }

    /// Sends `message` in conversation `id`, asked at `asked_at` and answered
    /// at `answered_at`; an error when there is no such conversation.
    pub fn send_message(&mut self, id: &str, message: &str, asked_at: &str, answered_at: &str) -> (r: Result<String>)
        requires
            old(self).wf(),
        ensures
            final(self).wf(),
            match conversation_index(old(self).view(), id@) {
                None => final(self).view() == old(self).view() && (r matches Err(e) && e is Message && detail(e)
                    == "Conversation not found"@),
                Some(i) => {
                    let before = old(self).view()[i];
                    let after = final(self).view()[i];
                    &&& r matches Ok(a) && a@ == "Mock response to: "@ + message@
                    &&& final(self).view().len() == old(self).view().len()
                    &&& forall|j: int| 0 <= j < old(self).view().len() && j != i ==> #[trigger] final(self).view()[j] == old(self).view()[j]
                    &&& after.id == before.id
                    &&& after.repository_context == before.repository_context
                    &&& after.messages@.len() == before.messages@.len() + 2
                    &&& forall|k: int| 0 <= k < before.messages@.len() ==> #[trigger] after.messages@[k] == before.messages@[k]
                    &&& after.messages@[before.messages@.len() as int].role@ == "user"@
                    &&& after.messages@[before.messages@.len() as int].content@ == message@
                    &&& after.messages@[before.messages@.len() as int].timestamp@ == asked_at@
                    &&& after.messages@[before.messages@.len() + 1int].role@ == "assistant"@
                    &&& after.messages@[before.messages@.len() + 1int].content@ == "Mock response to: "@ + message@
                    &&& after.messages@[before.messages@.len() + 1int].timestamp@ == answered_at@
                },
            },
    {
        match self.position(id) {
            None => Err(ProcessorError::new("Conversation not found")),
            Some(i) => {
                let ghost before = self.conversations@;
                let mut c = self.conversations.remove(i);
                let answer = continue_conversation(&mut c, message, asked_at, answered_at);
                self.conversations.insert(i, c);
                proof {
                    assert forall|j: int| 0 <= j < before.len() && j != i implies #[trigger] self.conversations@[j] == before[j] by {}
                    assert forall|a: int, b: int|
                        0 <= a < b < self.conversations@.len() implies #[trigger] self.conversations@[a].id@
                            != #[trigger] self.conversations@[b].id@ by {
                        assert(self.conversations@[a].id == before[a].id);
                        assert(self.conversations@[b].id == before[b].id);
                        assert(before[a].id@ != before[b].id@);
                    }
                }
                Ok(answer)
            },
        }
    }

    /// The identifiers of the active conversations, in the order they started.
    pub fn list_conversations(&self) -> (r: Vec<String>)
        ensures
            r@.map_values(|s: String| s@) == conversation_ids(self.view()),
    {
        let mut r: Vec<String> = Vec::new();
        let mut i: usize = 0;
        while i < self.conversations.len()
            invariant
                i <= self.conversations@.len(),
                r@.map_values(|s: String| s@) == conversation_ids(self.conversations@).take(i as int),
            decreases self.conversations@.len() - i,
        {
            let c = self.conversations[i].id.clone();
            assert(c@ == self.conversations@[i as int].id@);
            let ghost rb = r@;
            r.push(c);
            assert(r@.map_values(|s: String| s@) =~= rb.map_values(|s: String| s@).push(c@));
            assert(conversation_ids(self.conversations@).take(i + 1) =~= conversation_ids(self.conversations@).take(
                i as int,
            ).push(c@));
            i = i + 1;
        }
        assert(conversation_ids(self.conversations@).take(self.conversations@.len() as int) =~= conversation_ids(
            self.conversations@,
        ));
        r
    }
}

/// The language of a file extension, for the languages counted.
pub open spec fn extension_language(e: Seq<char>) -> Option<Seq<char>> {
    if e == "rs"@ {
        Some("Rust"@)
    } else if e == "py"@ {
        Some("Python"@)
    } else if e == "js"@ || e == "jsx"@ {
        Some("JavaScript"@)
    } else if e == "ts"@ || e == "tsx"@ {
        Some("TypeScript"@)
    } else if e == "go"@ {
        Some("Go"@)
    } else if e == "java"@ {
        Some("Java"@)
    } else if e == "cpp"@ || e == "cc"@ || e == "cxx"@ {
        Some("C++"@)
    } else if e == "c"@ {
        Some("C"@)
    } else {
        None
    }
}

fn extension_language_of(e: &[char]) -> (r: Option<String>)
    ensures
        match r {
            Some(l) => extension_language(e@) == Some(l@),
            None => extension_language(e@) is None,
        },
{
    if chars_eq(e, &chars_of("rs")) {
        Some(String::from_str("Rust"))
    } else if chars_eq(e, &chars_of("py")) {
        Some(String::from_str("Python"))
    } else if chars_eq(e, &chars_of("js")) || chars_eq(e, &chars_of("jsx")) {
        Some(String::from_str("JavaScript"))
    } else if chars_eq(e, &chars_of("ts")) || chars_eq(e, &chars_of("tsx")) {
        Some(String::from_str("TypeScript"))
    } else if chars_eq(e, &chars_of("go")) {
        Some(String::from_str("Go"))
    } else if chars_eq(e, &chars_of("java")) {
        Some(String::from_str("Java"))
    } else if chars_eq(e, &chars_of("cpp")) || chars_eq(e, &chars_of("cc")) || chars_eq(e, &chars_of("cxx")) {
        Some(String::from_str("C++"))
    } else if chars_eq(e, &chars_of("c")) {
        Some(String::from_str("C"))
    } else {
        None
    }
}

/// The languages of the entries' extensions that are counted, in order.
pub open spec fn entry_languages(exts: Seq<Option<String>>) -> Seq<Seq<char>>
    decreases exts.len(),
{
    if exts.len() == 0 {
        Seq::empty()
    } else {
        let earlier = entry_languages(exts.drop_last());
        match exts.last() {
            Some(e) => match extension_language(e@) {
                Some(l) => earlier.push(l),
                None => earlier,
            },
            None => earlier,
        }
    }
}

/// Repository analysis tools.
pub struct RepositoryTools;

/// The files that mark a repository's key files.
pub open spec fn key_file_names() -> Seq<Seq<char>> {
    seq![
        "README.md"@, "README.txt"@, "README"@, "Cargo.toml"@, "package.json"@, "setup.py"@,
        "requirements.txt"@, "go.mod"@, "pom.xml"@, "LICENSE"@, "LICENSE.txt"@, "LICENSE.md"@,
    ]
}

/// The names of `names` that are key file names, in order.
pub open spec fn key_files_among(names: Seq<String>) -> Seq<Seq<char>>
    decreases names.len(),
{
    if names.len() == 0 {
        Seq::empty()
    } else if key_file_names().contains(names.last()@) {
        key_files_among(names.drop_last()).push(names.last()@)
    } else {
        key_files_among(names.drop_last())
    }
}

impl RepositoryTools {
    /// The primary language of a directory whose entries have the extensions
    /// `exts`: the counted language with the most entries, `Unknown` when none
    /// is counted.
    pub fn detect_primary_language(exts: &Vec<Option<String>>) -> (r: String)
        ensures
            match most_frequent(tally(entry_languages(exts@))) {
                Some(b) => r@ == b.0,
                None => r@ == "Unknown"@,
            },
    {
        let mut langs: Vec<String> = Vec::new();
        let mut i: usize = 0;
        while i < exts.len()
            invariant
                i <= exts@.len(),
                langs@.map_values(|s: String| s@) == entry_languages(exts@.take(i as int)),
            decreases exts@.len() - i,
        {
            assert(exts@.take(i + 1).drop_last() =~= exts@.take(i as int));
            assert(exts@.take(i + 1).last() == exts@[i as int]);
            match &exts[i] {
                Some(e) => match extension_language_of(&chars_of(e.as_str())) {
                    Some(l) => {
                        let ghost lb = langs@;
                        langs.push(l);
                        assert(langs@.map_values(|s: String| s@) =~= lb.map_values(|s: String| s@).push(
                            langs@.last()@,
                        ));
                    },
                    None => {},
                },
                None => {},
            }
            i = i + 1;
        }
        assert(exts@.take(exts@.len() as int) =~= exts@);
        let counts = count_items(&langs);
        match most_frequent_index(&counts) {
            Some(x) => counts[x].0.clone(),
            None => String::from_str("Unknown"),
        }
    }

    /// The key files among a directory's entry names, in order.
    pub fn identify_key_files(names: &Vec<String>) -> (r: Vec<String>)
        ensures
            r@.map_values(|s: String| s@) == key_files_among(names@),
    {
        let keys: Vec<&str> = vec![
            "README.md", "README.txt", "README", "Cargo.toml", "package.json", "setup.py",
            "requirements.txt", "go.mod", "pom.xml", "LICENSE", "LICENSE.txt", "LICENSE.md",
        ];
        let mut r: Vec<String> = Vec::new();
        let mut i: usize = 0;
        while i < names.len()
            invariant
                i <= names@.len(),
                keys@.len() == 12,
                forall|k: int| 0 <= k < 12 ==> #[trigger] keys@[k]@ == key_file_names()[k],
                r@.map_values(|s: String| s@) == key_files_among(names@.take(i as int)),
            decreases names@.len() - i,
        {
            assert(names@.take(i + 1).drop_last() =~= names@.take(i as int));
            assert(names@.take(i + 1).last() == names@[i as int]);
            let n = chars_of(names[i].as_str());
            let mut j: usize = 0;
            let mut found = false;
            while j < keys.len()
                invariant
                    j <= keys@.len() == 12,
                    forall|k: int| 0 <= k < 12 ==> #[trigger] keys@[k]@ == key_file_names()[k],
                    n@ == names@[i as int]@,
                    found == exists|k: int| 0 <= k < j && key_file_names()[k] == n@,
                decreases keys@.len() - j,
            {
                if chars_eq(&chars_of(keys[j]), &n) {
                    found = true;
                }
                j = j + 1;
            }
            proof {
                if key_file_names().contains(n@) {
                    let k = choose|k: int| 0 <= k < key_file_names().len() && key_file_names()[k] == n@;
                }
            }
            if found {
                let ghost rb = r@;
                r.push(names[i].clone());
                assert(r@.map_values(|s: String| s@) =~= rb.map_values(|s: String| s@).push(n@));
            }
            i = i + 1;
        }
        assert(names@.take(names@.len() as int) =~= names@);
        r
    }
}

/// Summary of a repository's key characteristics.
pub struct RepositorySummary {
    /// Repository name
    pub name: String,
    /// Primary programming language
    pub primary_language: String,
    /// Number of files
    pub file_count: usize,
    /// Total size in bytes
    pub total_size: u64,
    /// Key files found
    pub key_files: Vec<String>,
}

/// Code complexity metrics.
pub struct ComplexityMetrics {
    /// Total lines of code
    pub total_lines: usize,
    /// Lines of actual code (excluding comments and empty lines)
    pub code_lines: usize,
    /// Lines of comments
    pub comment_lines: usize,
    /// Estimated cyclomatic complexity
    pub cyclomatic_complexity: u32,
}

/// Code analysis utilities.
pub struct CodeAnalysisTools;

/// How often the branching keywords occur in a line.
pub open spec fn line_branches(l: Seq<char>) -> nat {
    count_matches(l, "if"@) + count_matches(l, "else"@) + count_matches(l, "while"@) + count_matches(l, "for"@)
        + count_matches(l, "match"@) + count_matches(l, "case"@) + count_matches(l, "catch"@)
        + count_matches(l, "?"@)
}

/// The branching keywords of all lines.
pub open spec fn branches(ls: Seq<Seq<char>>) -> nat
    decreases ls.len(),
{
    if ls.len() == 0 {
        0
    } else {
        branches(ls.drop_last()) + line_branches(ls.last())
    }
}

/// Whether a line is a comment: its trimmed text starts with `//` or `#`.
pub open spec fn comment_line(l: Seq<char>) -> bool {
    has_prefix(trim(l), "//"@) || has_prefix(trim(l), "#"@)
}

/// The lines of `ls` satisfying `p`.
pub open spec fn count_lines(ls: Seq<Seq<char>>, p: spec_fn(Seq<char>) -> bool) -> nat
    decreases ls.len(),
{
    if ls.len() == 0 {
        0
    } else {
        count_lines(ls.drop_last(), p) + if p(ls.last()) {
            1nat
        } else {
            0nat
        }
    }
}

proof fn lemma_comment_lines_non_empty(ls: Seq<Seq<char>>)
    ensures
        count_lines(ls, |l: Seq<char>| comment_line(l)) <= count_lines(ls, |l: Seq<char>| trim(l).len() > 0),
        count_lines(ls, |l: Seq<char>| trim(l).len() > 0) <= ls.len(),
    decreases ls.len(),
{
    reveal_strlit("//");
    reveal_strlit("#");
    if ls.len() > 0 {
        lemma_comment_lines_non_empty(ls.drop_last());
    }
}

fn line_branch_count(l: &[char]) -> (n: u128)
    ensures
        n == line_branches(l@),
{
    proof {
        reveal_strlit("if");
        reveal_strlit("else");
        reveal_strlit("while");
        reveal_strlit("for");
        reveal_strlit("match");
        reveal_strlit("case");
        reveal_strlit("catch");
        reveal_strlit("?");
    }
    let a = count_occurrences(l, &chars_of("if")) as u128;
    let b = count_occurrences(l, &chars_of("else")) as u128;
    let c = count_occurrences(l, &chars_of("while")) as u128;
    let d = count_occurrences(l, &chars_of("for")) as u128;
    let e = count_occurrences(l, &chars_of("match")) as u128;
    let f = count_occurrences(l, &chars_of("case")) as u128;
    let g = count_occurrences(l, &chars_of("catch")) as u128;
    let h = count_occurrences(l, &chars_of("?")) as u128;
    proof {
        lemma_count_matches_bound(l@, "if"@);
        lemma_count_matches_bound(l@, "else"@);
        lemma_count_matches_bound(l@, "while"@);
        lemma_count_matches_bound(l@, "for"@);
        lemma_count_matches_bound(l@, "match"@);
        lemma_count_matches_bound(l@, "case"@);
        lemma_count_matches_bound(l@, "catch"@);
        lemma_count_matches_bound(l@, "?"@);
        assert(l@.len() == l.len());
    }
    a + b + c + d + e + f + g + h
}

proof fn lemma_branches_prefix(ls: Seq<Seq<char>>, k: int)
    requires
        0 <= k <= ls.len(),
    ensures
        branches(ls.take(k)) <= branches(ls),
    decreases ls.len() - k,
{
    if k < ls.len() {
        lemma_branches_prefix(ls, k + 1);
        assert(ls.take(k + 1).drop_last() =~= ls.take(k));
    } else {
        assert(ls.take(k) =~= ls);
    }
}

impl CodeAnalysisTools {
    /// Estimates cyclomatic complexity: one plus every occurrence of a
    /// branching keyword in every line. The count is a `u32` that must not
    /// overflow.
    pub fn estimate_cyclomatic_complexity(code: &str) -> (n: u32)
        requires
            1 + branches(lines_of(code@)) <= u32::MAX,
        ensures
            n == 1 + branches(lines_of(code@)),
    {
        let ls = lines(&chars_of(code));
        let ghost all = lines_of(code@);
        let mut total: u128 = 1;
        let mut i: usize = 0;
        while i < ls.len()
            invariant
                i <= ls@.len() == all.len(),
                forall|k: int| 0 <= k < ls@.len() ==> #[trigger] ls@[k]@ == all[k],
                1 + branches(all) <= u32::MAX,
                total == 1 + branches(all.take(i as int)),
            decreases ls@.len() - i,
        {
            assert(all.take(i + 1).drop_last() =~= all.take(i as int));
            assert(all.take(i + 1).last() == all[i as int]);
            proof {
                lemma_branches_prefix(all, i + 1);
            }
            let n = line_branch_count(&ls[i]);
            total = total + n;
            i = i + 1;
        }
        assert(all.take(ls@.len() as int) =~= all);
        total as u32
    }

    /// Basic complexity metrics of `code`: its lines, its non-empty lines
    /// that are not comments, its comment lines, and its cyclomatic complexity.
    pub fn calculate_complexity(code: &str) -> (m: ComplexityMetrics)
        requires
            1 + branches(lines_of(code@)) <= u32::MAX,
        ensures
            m.total_lines == lines_of(code@).len(),
            m.comment_lines == count_lines(lines_of(code@), |l: Seq<char>| comment_line(l)),
            m.code_lines == count_lines(lines_of(code@), |l: Seq<char>| trim(l).len() > 0) - count_lines(
                lines_of(code@),
                |l: Seq<char>| comment_line(l),
            ),
            m.cyclomatic_complexity == 1 + branches(lines_of(code@)),
    {
        let ls = lines(&chars_of(code));
        let ghost all = lines_of(code@);
        let mut non_empty: usize = 0;
        let mut comments: usize = 0;
        let mut i: usize = 0;
        while i < ls.len()
            invariant
                i <= ls@.len() == all.len(),
                forall|k: int| 0 <= k < ls@.len() ==> #[trigger] ls@[k]@ == all[k],
                non_empty == count_lines(all.take(i as int), |l: Seq<char>| trim(l).len() > 0),
                comments == count_lines(all.take(i as int), |l: Seq<char>| comment_line(l)),
                non_empty <= i,
                comments <= i,
            decreases ls@.len() - i,
        {
            assert(all.take(i + 1).drop_last() =~= all.take(i as int));
            assert(all.take(i + 1).last() == all[i as int]);
            let t = trim_chars(&ls[i]);
            if t.len() > 0 {
                non_empty = non_empty + 1;
            }
            if starts_with(&t, &chars_of("//")) || starts_with(&t, &chars_of("#")) {
                comments = comments + 1;
            }
            i = i + 1;
        }
        assert(all.take(ls@.len() as int) =~= all);
        proof {
            lemma_comment_lines_non_empty(all);
        }
        ComplexityMetrics {
            total_lines: ls.len(),
            code_lines: non_empty - comments,
            comment_lines: comments,
            cyclomatic_complexity: Self::estimate_cyclomatic_complexity(code),
        }
    }
}


proof fn lemma_branches_concat(x: Seq<Seq<char>>, y: Seq<Seq<char>>)
    ensures
        branches(x + y) == branches(x) + branches(y),
    decreases y.len(),
{
    if y.len() > 0 {
        lemma_branches_concat(x, y.drop_last());
        assert((x + y).drop_last() =~= x + y.drop_last());
        assert((x + y).last() == y.last());
    } else {
        assert(x + y =~= x);
    }
}

proof fn lemma_line_branches_strip_cr(c: Seq<char>)
    ensures
        line_branches(strip_cr(c)) == line_branches(c),
{
    if c.len() > 0 && c.last() == '\r' {
        let d = c.drop_last();
        assert(d.push('\r') =~= c);
        reveal_strlit("if");
        reveal_strlit("else");
        reveal_strlit("while");
        reveal_strlit("for");
        reveal_strlit("match");
        reveal_strlit("case");
        reveal_strlit("catch");
        reveal_strlit("?");
        assert(!"if"@.contains('\r'));
        assert(!"else"@.contains('\r'));
        assert(!"while"@.contains('\r'));
        assert(!"for"@.contains('\r'));
        assert(!"match"@.contains('\r'));
        assert(!"case"@.contains('\r'));
        assert(!"catch"@.contains('\r'));
        assert(!"?"@.contains('\r'));
        lemma_count_matches_push(d, '\r', "if"@);
        lemma_count_matches_push(d, '\r', "else"@);
        lemma_count_matches_push(d, '\r', "while"@);
        lemma_count_matches_push(d, '\r', "for"@);
        lemma_count_matches_push(d, '\r', "match"@);
        lemma_count_matches_push(d, '\r', "case"@);
        lemma_count_matches_push(d, '\r', "catch"@);
        lemma_count_matches_push(d, '\r', "?"@);
    }
}

/// Cyclomatic complexity adds up over a text joined from two parts by a
/// newline: the branching keywords of the whole are those of the parts, so
/// `estimate_cyclomatic_complexity` of the whole plus one equals the sum of
/// the estimates of the parts.
pub proof fn law_complexity_adds_up(a: Seq<char>, b: Seq<char>)
    ensures
        branches(lines_of(a + "\n"@ + b)) == branches(lines_of(a)) + branches(lines_of(b)),
        (1 + branches(lines_of(a + "\n"@ + b))) + 1 == (1 + branches(lines_of(a))) + (1 + branches(lines_of(b))),
{
    reveal_strlit("\n");
    let an = a + "\n"@;
    assert(an.drop_last() =~= a);
    assert(an.last() == '\n');
    let (d, c) = line_scan(a);
    let sc = strip_cr(c);
    assert(line_scan(an) == (d.push(sc), Seq::<char>::empty()));
    lemma_line_scan_concat(an, b);
    let (db, cb) = line_scan(b);
    let whole = an + b;
    assert(lines_of(whole) =~= d.push(sc) + lines_of(b));
    lemma_branches_concat(d.push(sc), lines_of(b));
    assert(d.push(sc).drop_last() =~= d);
    lemma_line_branches_strip_cr(c);
    if c.len() == 0 {
        reveal_strlit("if");
        reveal_strlit("else");
        reveal_strlit("while");
        reveal_strlit("for");
        reveal_strlit("match");
        reveal_strlit("case");
        reveal_strlit("catch");
        reveal_strlit("?");
        assert(line_branches(c) == 0);
    } else {
        assert(lines_of(a) == d.push(c));
        assert(d.push(c).drop_last() =~= d);
    }
}

} // verus!
