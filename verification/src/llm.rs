//! The computing side of talking to the language model: the request that is
//! sent, the interpretation of the reply, and the clean-up of the generated
//! program text.
use vstd::prelude::*;
use crate::text::{lemma_trim_idempotent, chars_of, chars_match_at, chars_match_before, has_prefix, has_suffix, push_str, string_from_chars, trim, trim_bounds};

verus! {

/// One turn of the conversation with the model.
#[derive(Debug, Clone)]
pub struct Message {
    pub role: String,
    pub content: String,
}

impl Message {
    /// A message with the given role and content.
    pub fn new(role: &str, content: String) -> (r: Message)
        ensures
            r.role@ == role@,
            r.content@ == content@,
    {
        Message { role: role.to_owned(), content }
    }

    /// A copy of the message.
    pub fn duplicate(&self) -> (r: Message)
        ensures
            r.role@ == self.role@,
            r.content@ == self.content@,
    {
        Message { role: self.role.clone(), content: self.content.clone() }
    }
}

/// The largest number of tokens the model may answer with.
pub const MAX_TOKENS: u32 = 4096;

/// The body of a request to the messages endpoint.
#[derive(Debug)]
pub struct ApiRequest {
    pub model: String,
    pub max_tokens: u32,
    pub system: String,
    pub messages: Vec<Message>,
}

/// Whether `a` and `b` hold the same roles and contents, in the same order.
pub open spec fn same_turns(a: Seq<Message>, b: Seq<Message>) -> bool {
    &&& a.len() == b.len()
    &&& forall|j: int| 0 <= j < a.len() ==> #[trigger] a[j].role@ == b[j].role@ && a[j].content@ == b[j].content@
}

/// The request asking `model` to continue the conversation `messages`
/// under the system prompt `system_prompt`.
pub fn build_request(model: &str, system_prompt: &str, messages: &Vec<Message>) -> (r: ApiRequest)
    ensures
        r.model@ == model@,
        r.max_tokens == MAX_TOKENS,
        r.system@ == system_prompt@,
        same_turns(r.messages@, messages@),
{
    let mut copied: Vec<Message> = Vec::new();
    let n = messages.len();
    let mut i: usize = 0;
    while i < n
        invariant
            n == messages@.len(),
            i <= n,
            copied@.len() == i,
            forall|j: int| 0 <= j < i ==> #[trigger] copied@[j].role@ == messages@[j].role@ && copied@[j].content@ == messages@[j].content@,
        decreases n - i,
    {
        copied.push(messages[i].duplicate());
        i = i + 1;
    }
    ApiRequest {
        model: model.to_owned(),
        max_tokens: MAX_TOKENS,
        system: system_prompt.to_owned(),
        messages: copied,
    }
}

/// Why a call to the model failed.
#[derive(Debug)]
pub enum LlmError {
    /// The HTTP exchange failed; holds the transport's description of the failure.
    Http(String),
    /// The API answered with an error status.
    Api(String),
    /// The API answered with no text.
    NoContent,
}

/// The text an `LlmError` is reported with.
pub open spec fn llm_error_text(e: LlmError) -> Seq<char> {
    match e {
        LlmError::Http(t) => "HTTP error: "@ + t@,
        LlmError::Api(m) => "API error: "@ + m@,
        LlmError::NoContent => "empty response from API"@,
    }
}

impl LlmError {
    /// The text this error is reported with.
    pub fn message(&self) -> (r: String)
        ensures
            r@ == llm_error_text(*self),
    {
        let mut r = String::new();
        match self {
            LlmError::Http(t) => {
                push_str(&mut r, "HTTP error: ");
                push_str(&mut r, t.as_str());
            },
            LlmError::Api(m) => {
                push_str(&mut r, "API error: ");
                push_str(&mut r, m.as_str());
            },
            LlmError::NoContent => {
                push_str(&mut r, "empty response from API");
            },
        }
        r
    }
}

/// The error for a reply with a failing HTTP status; `status` is the status
/// as it is displayed (code and reason) and `body` the reply's body.
pub fn status_error(status: &str, body: &str) -> (r: LlmError)
    ensures
        r matches LlmError::Api(m) && m@ == "status "@ + status@ + ": "@ + body@,
{
    let mut m = String::new();
    push_str(&mut m, "status ");
    push_str(&mut m, status);
    push_str(&mut m, ": ");
    push_str(&mut m, body);
    LlmError::Api(m)
}

/// The concatenation of `parts`.
pub open spec fn concat(parts: Seq<Seq<char>>) -> Seq<char>
    decreases parts.len(),
{
    if parts.len() == 0 {
        Seq::empty()
    } else {
        concat(parts.drop_last()) + parts.last()
    }
}

/// The texts of `blocks`.
pub open spec fn texts(blocks: Seq<String>) -> Seq<Seq<char>> {
    blocks.map_values(|b: String| b@)
}

/// The answer made of the text blocks of a successful reply, joined with
/// nothing between them; a reply without any text is `NoContent`.
pub fn join_content(blocks: &Vec<String>) -> (r: Result<String, LlmError>)
    ensures
        match r {
            Ok(t) => t@ == concat(texts(blocks@)) && t@.len() > 0,
            Err(e) => e is NoContent && concat(texts(blocks@)).len() == 0,
        },
{
    let mut t = String::new();
    let n = blocks.len();
    let mut i: usize = 0;
    while i < n
        invariant
            n == blocks@.len(),
            i <= n,
            t@ == concat(texts(blocks@.subrange(0, i as int))),
        decreases n - i,
    {
        assert(texts(blocks@.subrange(0, i + 1)).drop_last() =~= texts(blocks@.subrange(0, i as int)));
        push_str(&mut t, blocks[i].as_str());
        i = i + 1;
    }
    assert(blocks@.subrange(0, n as int) =~= blocks@);
    if t.as_str().is_empty() {
        Err(LlmError::NoContent)
    } else {
        Ok(t)
    }
}

/// The fence that opens a Lua code block.
pub open spec fn lua_fence() -> Seq<char> {
    "```lua"@
}

/// The fence that opens or closes a code block.
pub open spec fn fence() -> Seq<char> {
    "```"@
}

/// `s` with `p` removed from its front and `q` from its back.
pub open spec fn between(s: Seq<char>, p: Seq<char>, q: Seq<char>) -> Seq<char> {
    s.subrange(p.len() as int, s.len() - q.len())
}

/// Whether `s` begins with `p` and what follows `p` ends with `q`.
pub open spec fn enclosed(s: Seq<char>, p: Seq<char>, q: Seq<char>) -> bool {
    has_prefix(s, p) && has_suffix(s.subrange(p.len() as int, s.len() as int), q)
}

/// The program held in a model answer: the trimmed answer, and where it is
/// wrapped in a ```` ```lua ```` or ```` ``` ```` fence, the trimmed text
/// inside the fence.
pub open spec fn stripped_code(raw: Seq<char>) -> Seq<char> {
    let t = trim(raw);
    if enclosed(t, lua_fence(), fence()) {
        trim(between(t, lua_fence(), fence()))
    } else if enclosed(t, fence(), fence()) {
        trim(between(t, fence(), fence()))
    } else {
        t
    }
}

/// Strips markdown code fences from model output: handles ```` ```lua ... ``` ````,
/// ```` ``` ... ``` ```` and bare code.
pub fn strip_code_fences(raw: &str) -> (r: String)
    ensures
        r@ == stripped_code(raw@),
{
    let cs = chars_of(raw);
    let lua = chars_of("```lua");
    let plain = chars_of("```");
    let (a, b) = trim_bounds(&cs, 0, cs.len());
    let ghost t = cs@.subrange(a as int, b as int);
    assert(cs@.subrange(0, cs@.len() as int) =~= cs@);
    let open_lua = chars_match_at(&cs, a, b, &lua);
    if open_lua {
        let close = chars_match_before(&cs, a + lua.len(), b, &plain);
        assert(t.subrange(lua@.len() as int, t.len() as int) =~= cs@.subrange(a + lua@.len(), b as int));
        if close {
            let (c, d) = trim_bounds(&cs, a + lua.len(), b - plain.len());
            assert(between(t, lua@, plain@) =~= cs@.subrange(a + lua@.len(), b - plain@.len()));
            return string_from_chars(&cs, c, d);
        }
    }
    let open_plain = chars_match_at(&cs, a, b, &plain);
    if open_plain {
        let close = chars_match_before(&cs, a + plain.len(), b, &plain);
        assert(t.subrange(plain@.len() as int, t.len() as int) =~= cs@.subrange(a + plain@.len(), b as int));
        if close {
            let (c, d) = trim_bounds(&cs, a + plain.len(), b - plain.len());
            assert(between(t, plain@, plain@) =~= cs@.subrange(a + plain@.len(), b - plain@.len()));
            return string_from_chars(&cs, c, d);
        }
    }
    string_from_chars(&cs, a, b)
}

} // verus!

verus! {

/// The program taken from an answer never begins or ends with white space.
pub proof fn lemma_stripped_code_is_trimmed(raw: Seq<char>)
    ensures
        trim(stripped_code(raw)) == stripped_code(raw),
{
    let t = trim(raw);
    lemma_trim_idempotent(raw);
    lemma_trim_idempotent(between(t, lua_fence(), fence()));
    lemma_trim_idempotent(between(t, fence(), fence()));
}

} // verus!
