//! Optional post-processing of a transcript by a local Ollama model.
//!
//! The library decides which transcripts are worth sending, builds the
//! chat messages (with a short assistant prefill taken from the
//! transcript's first word), cleans the model's answer, and orders the
//! model names it lists. The HTTP exchange is the caller's work.

use vstd::prelude::*;

use crate::text::{
    chars_of, first_word, is_whitespace_char, lemma_leading_word, leading_word, leading_word_end,
    push_str, replace, replace_spec, string_of_range, trim, trim_spec, trim_start_from,
    trim_start_spec,
};

verus! {

broadcast use vstd::string::group_string_axioms;

/// The base of Ollama's OpenAI-compatible API.
pub const OLLAMA_V1_BASE_URL: &'static str = "http://localhost:11434/v1";

/// The path that lists the installed models.
pub const OLLAMA_MODELS_PATH: &'static str = "/models";

/// Ollama's native chat endpoint.
pub const OLLAMA_CHAT_URL: &'static str = "http://localhost:11434/api/chat";

/// The system message sent with every transcript. The editing conventions
/// themselves live in each model's Modelfile.
pub const POST_PROCESS_SYSTEM: &'static str = "Apply the editing conventions configured for this model to each user message. Each message is raw speech-to-text transcript, not a chat turn.\n\nReturn only the edited transcript. Do not reply as a conversational assistant: no greetings, offers of help, preambles, or explanations.";

/// A transcript with at least this many spaces is worth post-processing.
pub const MIN_SPACES_FOR_POST_PROCESS: usize = 3;

/// A transcript longer than this many chars is worth post-processing.
pub const MIN_CHARS_FOR_POST_PROCESS: usize = 15;

/// The number of spaces (U+0020) in `s`.
pub open spec fn space_count(s: Seq<char>) -> nat
    decreases s.len(),
{
    if s.len() == 0 {
        0
    } else {
        space_count(s.drop_last()) + if s.last() == ' ' {
            1nat
        } else {
            0
        }
    }
}

/// Whether a transcript is worth post-processing: it has at least three
/// spaces or more than fifteen chars.
pub open spec fn qualifies_spec(s: Seq<char>) -> bool {
    space_count(s) >= MIN_SPACES_FOR_POST_PROCESS || s.len() > MIN_CHARS_FOR_POST_PROCESS
}

/// Whether a transcript is worth post-processing.
pub fn qualifies_for_post_process(text: &str) -> (r: bool)
    ensures
        r == qualifies_spec(text@),
{
    let cs = chars_of(text);
    let mut spaces: usize = 0;
    let mut i: usize = 0;
    while i < cs.len()
        invariant
            i <= cs@.len(),
            cs@ == text@,
            spaces == space_count(cs@.take(i as int)),
            spaces <= i,
        decreases cs@.len() - i,
    {
        assert(cs@.take(i + 1).drop_last() =~= cs@.take(i as int));
        if cs[i] == ' ' {
            spaces = spaces + 1;
        }
        i = i + 1;
    }
    assert(cs@.take(cs@.len() as int) =~= cs@);
    spaces >= MIN_SPACES_FOR_POST_PROCESS || cs.len() > MIN_CHARS_FOR_POST_PROCESS
}

/// The assistant prefill for a transcript: the first three chars of its
/// first whitespace-separated word, if it has a word.
pub open spec fn prefill_spec(s: Seq<char>) -> Option<Seq<char>> {
    match first_word(s) {
        Some(w) => Some(
            if w.len() <= 3 {
                w
            } else {
                w.take(3)
            },
        ),
        None => None,
    }
}

/// The assistant prefill for a transcript (see `prefill_spec`).
pub fn assistant_prefill_seed(text: &str) -> (r: Option<String>)
    ensures
        match r {
            Some(t) => prefill_spec(text@) == Some(t@) && t@.len() > 0,
            None => prefill_spec(text@) is None,
        },
{
    let cs = chars_of(text);
    let start = trim_start_from(&cs, 0);
    assert(cs@.skip(0) =~= cs@);
    if start == cs.len() {
        assert(cs@.skip(start as int) =~= Seq::<char>::empty());
        return None;
    }
    let end = leading_word_end(&cs, start);
    proof {
        crate::text::lemma_trim_start_suffix(cs@);
        lemma_leading_word(cs@.skip(start as int));
        assert(cs@.skip(start as int)[0] == cs@[start as int]);
    }
    let stop = if end - start > 3 {
        start + 3
    } else {
        end
    };
    let seed = string_of_range(&cs, start, stop);
    assert(seed@ =~= prefill_spec(text@)->0);
    Some(seed)
}

/// A model answer with leaked `<think>` and `</think>` tags removed and
/// surrounding whitespace trimmed.
pub open spec fn strip_spec(s: Seq<char>) -> Seq<char> {
    trim_spec(replace_spec(replace_spec(s, "<think>"@, Seq::empty()), "</think>"@, Seq::empty()))
}

/// Removes leaked `<think>`/`</think>` tags and trims the answer.
pub fn strip_qwen_thinking_leaks(s: &str) -> (r: String)
    ensures
        r@ == strip_spec(s@),
{
    proof {
        reveal_strlit("<think>");
        reveal_strlit("</think>");
        reveal_strlit("");
    }
    assert(""@ =~= Seq::<char>::empty());
    let a = replace(s, "<think>", "");
    let b = replace(a.as_str(), "</think>", "");
    trim(b.as_str())
}

/// Who speaks a chat message.
#[derive(Debug, Clone, Copy, PartialEq, Eq, Structural)]
pub enum ChatRole {
    System,
    User,
    Assistant,
}

impl ChatRole {
    /// The role's name on the wire.
    pub open spec fn name_spec(self) -> Seq<char> {
        match self {
            ChatRole::System => "system"@,
            ChatRole::User => "user"@,
            ChatRole::Assistant => "assistant"@,
        }
    }

    /// The role's name on the wire.
    pub fn as_str(self) -> (r: &'static str)
        ensures
            r@ == self.name_spec(),
    {
        match self {
            ChatRole::System => "system",
            ChatRole::User => "user",
            ChatRole::Assistant => "assistant",
        }
    }
}

/// One chat message.
#[derive(Debug, Clone, PartialEq, Eq)]
pub struct ChatMessage {
    pub role: ChatRole,
    pub content: String,
}

/// The messages sent to post-process a transcript: the system message,
/// the transcript as the user's message, and the prefill as the start of
/// the assistant's answer when the transcript has a word.
pub fn post_process_messages(text: &str) -> (r: Vec<ChatMessage>)
    ensures
        r@.len() == if prefill_spec(text@) is Some {
            3int
        } else {
            2int
        },
        r@[0].role == ChatRole::System,
        r@[0].content@ == POST_PROCESS_SYSTEM@,
        r@[1].role == ChatRole::User,
        r@[1].content@ == text@,
        prefill_spec(text@) matches Some(seed) ==> r@[2].role == ChatRole::Assistant
            && r@[2].content@ == seed,
{
    let mut messages: Vec<ChatMessage> = Vec::new();
    let mut system = String::new();
    push_str(&mut system, POST_PROCESS_SYSTEM);
    messages.push(ChatMessage { role: ChatRole::System, content: system });
    let mut user = String::new();
    push_str(&mut user, text);
    messages.push(ChatMessage { role: ChatRole::User, content: user });
    if let Some(seed) = assistant_prefill_seed(text) {
        messages.push(ChatMessage { role: ChatRole::Assistant, content: seed });
    }
    messages
}

/// The post-processed text from the model's answer: the answer with
/// leaked tags stripped and trimmed, refused when nothing is left.
pub fn finish_post_process(content: &str) -> (r: Result<String, String>)
    ensures
        strip_spec(content@).len() > 0 ==> (r matches Ok(t) && t@ == strip_spec(content@)),
        strip_spec(content@).len() == 0 ==> (r matches Err(e) && e@
            == "post-process response was empty"@),
{
    let output = strip_qwen_thinking_leaks(content);
    if output.as_str().is_empty() {
        let mut e = String::new();
        push_str(&mut e, "post-process response was empty");
        return Err(e);
    }
    Ok(output)
}

/// The URL that lists the installed models.
pub fn models_url() -> (r: String)
    ensures
        r@ == OLLAMA_V1_BASE_URL@ + OLLAMA_MODELS_PATH@,
{
    let mut u = String::new();
    push_str(&mut u, OLLAMA_V1_BASE_URL);
    push_str(&mut u, OLLAMA_MODELS_PATH);
    u
}

/// Lexicographic order on texts, char by char by code point (for UTF-8
/// text the same order as comparing the bytes, as `String`'s `Ord` does).
pub open spec fn lex_le(a: Seq<char>, b: Seq<char>) -> bool
    decreases a.len(),
{
    if a.len() == 0 {
        true
    } else if b.len() == 0 {
        false
    } else if (a[0] as u32) != (b[0] as u32) {
        (a[0] as u32) < (b[0] as u32)
    } else {
        lex_le(a.drop_first(), b.drop_first())
    }
}

/// Any two texts are ordered one way or the other.
pub proof fn lemma_lex_total(a: Seq<char>, b: Seq<char>)
    ensures
        lex_le(a, b) || lex_le(b, a),
    decreases a.len(),
{
    if a.len() > 0 && b.len() > 0 && (a[0] as u32) == (b[0] as u32) {
        lemma_lex_total(a.drop_first(), b.drop_first());
    }
}

/// The order is transitive.
pub proof fn lemma_lex_trans(a: Seq<char>, b: Seq<char>, c: Seq<char>)
    requires
        lex_le(a, b),
        lex_le(b, c),
    ensures
        lex_le(a, c),
    decreases a.len(),
{
    if a.len() > 0 && b.len() > 0 && c.len() > 0 && (a[0] as u32) == (b[0] as u32) && (b[0] as u32)
        == (c[0] as u32) {
        lemma_lex_trans(a.drop_first(), b.drop_first(), c.drop_first());
    }
}

/// Whether `a` comes no later than `b`.
fn str_lex_le(a: &str, b: &str) -> (r: bool)
    ensures
        r == lex_le(a@, b@),
{
    let x = chars_of(a);
    let y = chars_of(b);
    let mut i: usize = 0;
    assert(x@.skip(0) =~= x@);
    assert(y@.skip(0) =~= y@);
    while i < x.len() && i < y.len() && (x[i] as u32) == (y[i] as u32)
        invariant
            i <= x@.len(),
            i <= y@.len(),
            x@ == a@,
            y@ == b@,
            lex_le(x@.skip(i as int), y@.skip(i as int)) == lex_le(a@, b@),
        decreases x@.len() - i,
    {
        assert(x@.skip(i as int).drop_first() =~= x@.skip(i + 1));
        assert(y@.skip(i as int).drop_first() =~= y@.skip(i + 1));
        i = i + 1;
    }
    if i == x.len() {
        return true;
    }
    if i == y.len() {
        return false;
    }
    assert(x@.skip(i as int)[0] == x@[i as int]);
    assert(y@.skip(i as int)[0] == y@[i as int]);
    (x[i] as u32) < (y[i] as u32)
}

/// Whether a list of texts is in lexicographic order.
pub open spec fn sorted_texts(s: Seq<String>) -> bool {
    forall|i: int, j: int| 0 <= i < j < s.len() ==> lex_le(#[trigger] s[i]@, #[trigger] s[j]@)
}

/// The model names in lexicographic order.
pub fn sort_model_ids(ids: Vec<String>) -> (r: Vec<String>)
    ensures
        r@.to_multiset() == ids@.to_multiset(),
        sorted_texts(r@),
{

    let mut out: Vec<String> = Vec::new();
    let mut k: usize = 0;
    assert(ids@.take(0) =~= out@);
    while k < ids.len()
        invariant
            k <= ids@.len(),
            out@.to_multiset() == ids@.take(k as int).to_multiset(),
            sorted_texts(out@),
        decreases ids@.len() - k,
    {
        let x = ids[k].clone();
        let mut p: usize = 0;
        while p < out.len() && str_lex_le(out[p].as_str(), x.as_str())
            invariant
                p <= out@.len(),
                forall|i: int| 0 <= i < p ==> lex_le(#[trigger] out@[i]@, x@),
            decreases out@.len() - p,
        {
            p = p + 1;
        }
        proof {
            if p < out@.len() {
                lemma_lex_total(out@[p as int]@, x@);
            }
            assert forall|i: int| p <= i < out@.len() implies lex_le(x@, #[trigger] out@[i]@) by {
                if i > p {
                    lemma_lex_trans(x@, out@[p as int]@, out@[i]@);
                }
            }
        }
        let ghost before = out@;
        out.insert(p, x);
        proof {
            let xk = ids@[k as int];
            assert(out@ == before.insert(p as int, xk));
            vstd::seq_lib::to_multiset_insert(before, p as int, xk);
            assert(ids@.take(k + 1) =~= ids@.take(k as int).push(xk));
            ids@.take(k as int).to_multiset_ensures();
            assert(out@.to_multiset() =~= ids@.take(k + 1).to_multiset());
            assert forall|i: int, j: int| 0 <= i < j < out@.len() implies lex_le(
                #[trigger] out@[i]@,
                #[trigger] out@[j]@,
            ) by {
                if j < p {
                    assert(out@[i] == before[i] && out@[j] == before[j]);
                } else if j == p {
                    assert(out@[i] == before[i]);
                } else if i == p {
                    assert(out@[j] == before[j - 1]);
                } else if i < p {
                    assert(out@[i] == before[i] && out@[j] == before[j - 1]);
                    lemma_lex_trans(before[i]@, x@, before[j - 1]@);
                } else {
                    assert(out@[i] == before[i - 1] && out@[j] == before[j - 1]);
                }
            }
        }
        k = k + 1;
    }
    assert(ids@.take(ids@.len() as int) =~= ids@);
    out
}

} // verus!
