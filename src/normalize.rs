use vstd::prelude::*;
use vstd::string::*;

use crate::text::{
    blank, decimal, decimal_text, ends_with, has_prefix, has_suffix, is_blank, is_ws, starts_with, trim, trim_back,
    trim_front, trimmed,
};

verus! {

/// The text of the reply that a chat response body carries at
/// `message.content`, when the body is JSON of that shape.
pub uninterp spec fn chat_reply_content(body: Seq<char>) -> Option<Seq<char>>;

/// Relies on serde_json::from_str (into `serde_json::Value`) and on
/// `Value::get` / `Value::as_str`: the reply text at `message.content`, or
/// nothing when the body does not parse or has no such string.
#[verifier::external_body]
fn parse_chat_reply(body: &str) -> (r: Option<String>)
    ensures
        match r {
            Some(c) => chat_reply_content(body@) == Some(c@),
            None => chat_reply_content(body@) is None,
        },
{
    let parsed: serde_json::Result<serde_json::Value> = serde_json::from_str(body);
    match parsed {
        Ok(v) => v.get("message").and_then(|m| m.get("content")).and_then(|c| c.as_str()).map(
            |c| c.to_string(),
        ),
        Err(_) => None,
    }
}

/// Why a backend reply could not be used.
#[derive(Debug)]
pub enum ResponseError {
    /// The backend answered with a failure status.
    Status(u16),
    /// The body was empty or held only whitespace.
    EmptyResponse,
    /// No reply could be read from the body; `prefix` holds its first
    /// characters.
    Malformed { prefix: String },
    /// The reply was there but held only whitespace.
    EmptyContent,
}

/// What a `ResponseError` says.
pub enum ResponseFailure {
    Status(u16),
    EmptyResponse,
    Malformed(Seq<char>),
    EmptyContent,
}

impl View for ResponseError {
    type V = ResponseFailure;

    open spec fn view(&self) -> ResponseFailure {
        match self {
            ResponseError::Status(c) => ResponseFailure::Status(*c),
            ResponseError::EmptyResponse => ResponseFailure::EmptyResponse,
            ResponseError::Malformed { prefix } => ResponseFailure::Malformed(prefix@),
            ResponseError::EmptyContent => ResponseFailure::EmptyContent,
        }
    }
}

pub open spec fn reply_outcome(r: Result<String, ResponseError>) -> Result<
    Seq<char>,
    ResponseFailure,
> {
    match r {
        Ok(c) => Ok(c@),
        Err(e) => Err(e@),
    }
}

/// How many characters of a body an error report quotes.
pub const PREFIX_CHARS: usize = 200;

/// The start of a body that an error report quotes.
pub open spec fn quoted_prefix(s: Seq<char>) -> Seq<char> {
    if s.len() <= PREFIX_CHARS {
        s
    } else {
        s.subrange(0, PREFIX_CHARS as int)
    }
}

pub open spec fn fence() -> Seq<char> {
    seq!['`', '`', '`']
}

pub open spec fn json_fence() -> Seq<char> {
    seq!['`', '`', '`', 'j', 's', 'o', 'n']
}

/// Whether the trimmed text opens with a code fence.
pub open spec fn is_fenced(s: Seq<char>) -> bool {
    starts_with(trim(s), fence())
}

/// The text inside a fenced block: the opening fence (with an optional
/// `json` tag) and a closing fence are cut off and the rest trimmed.
/// Text that does not open with a fence is left as it is.
pub open spec fn fence_body(s: Seq<char>) -> Seq<char> {
    let t = trim(s);
    if starts_with(t, fence()) {
        let a = if starts_with(t, json_fence()) {
            t.subrange(7, t.len() as int)
        } else {
            t.subrange(3, t.len() as int)
        };
        let b = if ends_with(a, fence()) {
            a.subrange(0, a.len() - 3)
        } else {
            a
        };
        trim(b)
    } else {
        s
    }
}

/// A payload wrapped in a fence tagged `json`, one line break inside
/// each fence.
pub open spec fn fenced_json(p: Seq<char>) -> Seq<char> {
    json_fence() + seq!['\n'] + p + seq!['\n'] + fence()
}

/// Takes a fenced block apart; text that does not open with a fence comes
/// back unchanged.
pub fn extract_from_fence(s: &str) -> (r: String)
    ensures
        r@ == fence_body(s@),
        !is_fenced(s@) ==> r@ == s@,
{
    proof {
        reveal_strlit("```");
        reveal_strlit("```json");
    }
    assert("```"@ =~= fence());
    assert("```json"@ =~= json_fence());
    let t = trimmed(s);
    if !has_prefix(t, "```") {
        return s.to_owned();
    }
    let n = t.unicode_len();
    let a = if has_prefix(t, "```json") {
        t.substring_char(7, n)
    } else {
        t.substring_char(3, n)
    };
    let m = a.unicode_len();
    let b = if has_suffix(a, "```") {
        a.substring_char(0, m - 3)
    } else {
        a
    };
    trimmed(b).to_owned()
}

/// The first characters of a body, for an error report.
fn body_prefix(s: &str) -> (r: String)
    ensures
        r@ == quoted_prefix(s@),
{
    let n = s.unicode_len();
    if n <= PREFIX_CHARS {
        s.to_owned()
    } else {
        s.substring_char(0, PREFIX_CHARS).to_owned()
    }
}

/// What a reply read from `raw` comes to: `None` is a body that did not
/// parse, a blank reply is an error of its own.
pub open spec fn accepted(raw: Seq<char>, content: Option<Seq<char>>) -> Result<
    Seq<char>,
    ResponseFailure,
> {
    match content {
        None => Err(ResponseFailure::Malformed(quoted_prefix(raw))),
        Some(c) => if is_blank(c) {
            Err(ResponseFailure::EmptyContent)
        } else {
            Ok(c)
        },
    }
}

/// Decides on the reply that was read from the body `raw`.
pub fn accept_content(raw: &str, content: Option<String>) -> (r: Result<String, ResponseError>)
    ensures
        reply_outcome(r) == accepted(
            raw@,
            match content {
                Some(c) => Some(c@),
                None => None,
            },
        ),
{
    match content {
        None => Err(ResponseError::Malformed { prefix: body_prefix(raw) }),
        Some(c) => if blank(c.as_str()) {
            Err(ResponseError::EmptyContent)
        } else {
            Ok(c)
        },
    }
}

/// The reply of a body: blank bodies are refused; the body is read as it
/// is and, when that fails and it opens with a fence, once more from
/// inside the fence.
pub open spec fn normalized(raw: Seq<char>) -> Result<Seq<char>, ResponseFailure> {
    if is_blank(raw) {
        Err(ResponseFailure::EmptyResponse)
    } else if chat_reply_content(raw) is Some || !is_fenced(raw) {
        accepted(raw, chat_reply_content(raw))
    } else {
        accepted(raw, chat_reply_content(fence_body(raw)))
    }
}

/// Reads the reply out of a backend response body.
pub fn normalize_response(raw: &str) -> (r: Result<String, ResponseError>)
    ensures
        reply_outcome(r) == normalized(raw@),
{
    proof {
        reveal_strlit("```");
    }
    assert("```"@ =~= fence());
    if blank(raw) {
        return Err(ResponseError::EmptyResponse);
    }
    let direct = parse_chat_reply(raw);
    if direct.is_some() || !has_prefix(trimmed(raw), "```") {
        return accept_content(raw, direct);
    }
    let inner = extract_from_fence(raw);
    let retry = parse_chat_reply(inner.as_str());
    accept_content(raw, retry)
}

/// A response of the backend: its status first, then its body.
pub fn read_backend_reply(status: u16, body: &str) -> (r: Result<String, ResponseError>)
    ensures
        200 <= status < 300 ==> reply_outcome(r) == normalized(body@),
        !(200 <= status < 300) ==> reply_outcome(r) == Err::<Seq<char>, ResponseFailure>(
            ResponseFailure::Status(status),
        ),
{
    if status < 200 || status >= 300 {
        return Err(ResponseError::Status(status));
    }
    normalize_response(body)
}

proof fn lemma_trim_wrapped(p: Seq<char>)
    requires
        p.len() == 0 || (!is_ws(p[0]) && !is_ws(p.last())),
    ensures
        trim(seq!['\n'] + p + seq!['\n']) == p,
{
    let s = seq!['\n'] + p + seq!['\n'];
    let u = p + seq!['\n'];
    assert(is_ws('\n'));
    assert(s.drop_first() =~= u);
    if p.len() == 0 {
        assert(u =~= seq!['\n']);
        assert(u.drop_first() =~= Seq::<char>::empty());
        assert(trim_front(Seq::<char>::empty()) == Seq::<char>::empty());
        assert(u[0] == '\n');
        assert(trim_front(u) == trim_front(u.drop_first()));
        assert(trim_front(u) == Seq::<char>::empty());
    } else {
        assert(u[0] == p[0]);
        assert(trim_front(u) == u);
        assert(u.drop_last() =~= p);
        assert(trim_back(p) == p);
    }
}

/// Fencing a payload and taking the fence apart again gives back the
/// payload, so the reply read from either is the same; text that does not
/// open with a fence is left as it is.
pub proof fn lemma_fence_round_trip(p: Seq<char>, s: Seq<char>)
    requires
        p.len() == 0 || (!is_ws(p[0]) && !is_ws(p.last())),
    ensures
        fence_body(fenced_json(p)) == p,
        chat_reply_content(fence_body(fenced_json(p))) == chat_reply_content(p),
        !is_fenced(s) ==> fence_body(s) == s,
{
    let f = fenced_json(p);
    assert(!is_ws('`'));
    assert(f[0] == '`');
    assert(f.last() == '`');
    assert(trim_front(f) == f);
    assert(trim_back(f) == f);
    assert(f.subrange(0, 3) =~= fence());
    assert(f.subrange(0, 7) =~= json_fence());
    let a = f.subrange(7, f.len() as int);
    assert(a =~= seq!['\n'] + p + seq!['\n'] + fence());
    assert(a.subrange(a.len() - 3, a.len() as int) =~= fence());
    assert(a.subrange(0, a.len() - 3) =~= seq!['\n'] + p + seq!['\n']);
    lemma_trim_wrapped(p);
}

/// A blank body, and a body from which no reply can be read, both end in an
/// error: never in an empty reply.
pub proof fn lemma_bad_bodies_fail(raw: Seq<char>)
    ensures
        is_blank(raw) ==> normalized(raw) == Err::<Seq<char>, ResponseFailure>(
            ResponseFailure::EmptyResponse,
        ),
        !is_blank(raw) && chat_reply_content(raw) is None && (!is_fenced(raw)
            || chat_reply_content(fence_body(raw)) is None) ==> normalized(raw) == Err::<
            Seq<char>,
            ResponseFailure,
        >(ResponseFailure::Malformed(quoted_prefix(raw))),
        normalized(raw) matches Ok(c) ==> !is_blank(c),
{
}

} // verus!

verus! {

impl ResponseError {
    /// The message that reports the failure.
    pub fn message(&self) -> (r: String)
        ensures
            match self {
                ResponseError::Status(c) => r@ == "Ollama API returned error: "@ + decimal(
                    *c as nat,
                ),
                ResponseError::EmptyResponse => r@
                    == "Ollama returned empty response. The model may have crashed or disconnected."@,
                ResponseError::Malformed { prefix } => r@
                    == "Failed to parse Ollama response. First 200 chars: "@ + prefix@,
                ResponseError::EmptyContent => r@
                    == "Ollama returned empty content. The model may not have generated a response."@,
            },
    {
        match self {
            ResponseError::Status(c) => {
                let mut m = String::from_str("Ollama API returned error: ");
                m.append(decimal_text(*c as u64).as_str());
                m
            },
            ResponseError::EmptyResponse => String::from_str(
                "Ollama returned empty response. The model may have crashed or disconnected.",
            ),
            ResponseError::Malformed { prefix } => {
                let mut m = String::from_str("Failed to parse Ollama response. First 200 chars: ");
                m.append(prefix.as_str());
                m
            },
            ResponseError::EmptyContent => String::from_str(
                "Ollama returned empty content. The model may not have generated a response.",
            ),
        }
    }
}

} // verus!

verus! {

/// A payload whose reply can be read gives the same outcome whether the
/// backend sends it bare or wrapped in a `json` fence (a fenced body is
/// not itself a readable body, so the fence is taken apart first).
pub proof fn lemma_fenced_reply(p: Seq<char>)
    requires
        p.len() > 0,
        !is_ws(p[0]),
        !is_ws(p.last()),
        chat_reply_content(p) is Some,
        chat_reply_content(fenced_json(p)) is None,
    ensures
        normalized(fenced_json(p)) == normalized(p),
{
    lemma_fence_round_trip(p, p);
    let f = fenced_json(p);
    assert(trim_front(p) == p);
    assert(trim_back(p) == p);
    assert(!is_blank(p));
    assert(f[0] == '`');
    assert(f.last() == '`');
    assert(trim_front(f) == f);
    assert(trim_back(f) == f);
    assert(!is_blank(f));
    assert(f.subrange(0, 3) =~= fence());
    assert(is_fenced(f));
}

} // verus!
