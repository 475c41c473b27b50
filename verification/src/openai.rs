//! The completion client: holds the API credential, the model identifier and
//! the HTTP client, frames the JSON request body for one turn, and classifies
//! the endpoint's answer into a reply text or a request error.

use crate::text::push_char;
use vstd::prelude::*;

verus! {

/// The completion endpoint one request per turn is sent to.
pub const OPENAI_API_URL: &'static str = "https://api.openai.com/v1/chat/completions";

/// A startup configuration failure: the client cannot be built.
#[derive(Clone, Copy, PartialEq, Eq, Structural, Debug)]
pub enum ConfigError {
    /// No API credential was available from the environment.
    MissingApiKey,
    /// The HTTP client could not be initialized.
    ClientInit,
}

impl ConfigError {
    /// The message shown for this failure.
    pub fn message(&self) -> (r: String)
        ensures
            *self is MissingApiKey ==> r@ == "OPENAI_API_KEY environment variable not set"@,
            *self is ClientInit ==> r@ == "failed to initialize the HTTP client"@,
    {
        match self {
            ConfigError::MissingApiKey => String::from_str(
                "OPENAI_API_KEY environment variable not set",
            ),
            ConfigError::ClientInit => String::from_str("failed to initialize the HTTP client"),
        }
    }
}

/// A failed completion turn: recovered per turn, shown to the operator, and
/// the loop continues.
#[derive(PartialEq, Eq, Debug)]
pub enum RequestError {
    /// The endpoint answered with a non-success status; carries the raw
    /// response body.
    ApiFailure(String),
    /// The endpoint answered success, but the body was not the expected
    /// JSON shape.
    MalformedResponse,
    /// The endpoint answered success with an empty choices array.
    NoResponse,
}

impl RequestError {
    /// The message shown for this failure.
    pub fn message(&self) -> (r: String)
        ensures
            match *self {
                RequestError::ApiFailure(b) => r@ == "API request failed: "@ + b@,
                RequestError::MalformedResponse => r@ == "failed to parse the API response"@,
                RequestError::NoResponse => r@ == "No response from API"@,
            },
    {
        match self {
            RequestError::ApiFailure(body) => {
                let mut s = String::from_str("API request failed: ");
                s.append(body.as_str());
                s
            },
            RequestError::MalformedResponse => String::from_str(
                "failed to parse the API response",
            ),
            RequestError::NoResponse => String::from_str("No response from API"),
        }
    }
}

/// Declares `reqwest::Client` so the agent can hold one; the value is opaque
/// here, and only `app` sends requests through it.
#[verifier::external_type_specification]
#[verifier::external_body]
pub struct ExClient(reqwest::Client);

/// Relies on `reqwest::ClientBuilder::build`: constructs an HTTP client, or
/// fails when the backend cannot be initialized.
#[verifier::external_body]
fn new_http_client() -> (r: Option<reqwest::Client>) {
    reqwest::Client::builder().build().ok()
}

/// The message contents read out of a response body's choices. The body text
/// alone determines them: `Some` of the sequence of
/// `choices[i].message.content` texts when the body is a JSON object whose
/// `choices` field is an array of objects, each carrying a string
/// `message.content`; `None` for a body of any other shape.
pub uninterp spec fn choices_of(body: Seq<char>) -> Option<Seq<Seq<char>>>;

/// Relies on serde_json (`from_str`, `Value::get`, `Value::as_array`,
/// `Value::as_str`): parses a response body and maps each choice to its
/// `message.content` text, all of it a function of the body text alone,
/// named [`choices_of`]. Any choice of another shape, or a body that does
/// not parse to an object with a `choices` array, yields nothing, as the
/// strict response deserialization of the endpoint's shape would.
#[verifier::external_body]
fn read_choices(body: &str) -> (r: Option<Vec<String>>)
    ensures
        match r {
            Option::Some(cs) => choices_of(body@) == Option::Some(cs.deep_view()),
            Option::None => choices_of(body@) is None,
        },
{
    let v: serde_json::Value = serde_json::from_str(body).ok()?;
    let arr = v.get("choices")?.as_array()?;
    arr.iter()
        .map(|c| {
            c.get("message")
                .and_then(|m| m.get("content"))
                .and_then(|t| t.as_str())
                .map(|s| s.to_string())
        })
        .collect()
}

/// The hexadecimal digit for a value below sixteen, in lower case.
pub open spec fn hex_digit(v: int) -> char {
    if v < 10 {
        ((48 + v) as u8) as char
    } else {
        ((87 + v) as u8) as char
    }
}

/// The JSON string escaping of one character: quote, backslash and the
/// control characters are escaped, everything else stands as it is.
pub open spec fn json_escape_char(c: char) -> Seq<char> {
    if c == '"' {
        seq!['\\', '"']
    } else if c == '\\' {
        seq!['\\', '\\']
    } else if c == '\n' {
        seq!['\\', 'n']
    } else if c == '\r' {
        seq!['\\', 'r']
    } else if c == '\t' {
        seq!['\\', 't']
    } else if c == '\u{8}' {
        seq!['\\', 'b']
    } else if c == '\u{c}' {
        seq!['\\', 'f']
    } else if (c as u32) < 0x20 {
        seq!['\\', 'u', '0', '0', hex_digit((c as u32 / 16) as int), hex_digit(
            (c as u32 % 16) as int,
        )]
    } else {
        seq![c]
    }
}

/// The JSON string escaping of a text.
pub open spec fn json_escape(s: Seq<char>) -> Seq<char>
    decreases s.len(),
{
    if s.len() == 0 {
        Seq::empty()
    } else {
        json_escape(s.drop_last()) + json_escape_char(s.last())
    }
}

fn hex_digit_char(v: u32) -> (c: char)
    requires
        v < 16,
    ensures
        c == hex_digit(v as int),
{
    if v < 10 {
        (48 + v as u8) as char
    } else {
        (87 + v as u8) as char
    }
}

fn escape_json_into(out: &mut String, s: &str)
    ensures
        final (out)@ == old(out)@ + json_escape(s@),
{
    let len = s.unicode_len();
    let mut i: usize = 0;
    proof {
        assert(s@.take(0) =~= Seq::<char>::empty());
        assert(out@ + json_escape(s@.take(0)) =~= out@);
    }
    while i < len
        invariant
            0 <= i <= len,
            len == s@.len(),
            out@ == old(out)@ + json_escape(s@.take(i as int)),
        decreases len - i,
    {
        let c = s.get_char(i);
        let ghost before = out@;
        if c == '"' {
            out.append("\\\"");
        } else if c == '\\' {
            out.append("\\\\");
        } else if c == '\n' {
            out.append("\\n");
        } else if c == '\r' {
            out.append("\\r");
        } else if c == '\t' {
            out.append("\\t");
        } else if c == '\u{8}' {
            out.append("\\b");
        } else if c == '\u{c}' {
            out.append("\\f");
        } else if (c as u32) < 0x20 {
            out.append("\\u00");
            push_char(out, hex_digit_char((c as u32) / 16));
            push_char(out, hex_digit_char((c as u32) % 16));
        } else {
            push_char(out, c);
        }
        i = i + 1;
        proof {
            reveal_strlit("\\\"");
            reveal_strlit("\\\\");
            reveal_strlit("\\n");
            reveal_strlit("\\r");
            reveal_strlit("\\t");
            reveal_strlit("\\b");
            reveal_strlit("\\f");
            reveal_strlit("\\u00");
            let t = s@.take(i as int);
            assert(t.drop_last() =~= s@.take(i - 1));
            assert(t.last() == s@[i - 1]);
            assert(out@ =~= before + json_escape_char(s@[i - 1]));
            assert(out@ =~= old(out)@ + json_escape(s@.take(i as int)));
        }
    }
    proof {
        assert(s@.take(len as int) =~= s@);
    }
}

/// The JSON body of one completion request: the model identifier, a system
/// and a user message in that order, and the fixed sampling temperature.
pub open spec fn request_body_spec(
    model: Seq<char>,
    system_prompt: Seq<char>,
    user_prompt: Seq<char>,
) -> Seq<char> {
    "{\"model\":\""@ + json_escape(model)
        + "\",\"messages\":[{\"role\":\"system\",\"content\":\""@ + json_escape(system_prompt)
        + "\"},{\"role\":\"user\",\"content\":\""@ + json_escape(user_prompt)
        + "\"}],\"temperature\":0.7}"@
}

/// Frames the JSON body of one completion request, as [`request_body_spec`]
/// states: the system message comes first, the user's prompt second and
/// verbatim, and the temperature is fixed.
pub fn build_request_body(model: &str, system_prompt: &str, user_prompt: &str) -> (r: String)
    ensures
        r@ == request_body_spec(model@, system_prompt@, user_prompt@),
{
    let mut s = String::from_str("{\"model\":\"");
    escape_json_into(&mut s, model);
    s.append("\",\"messages\":[{\"role\":\"system\",\"content\":\"");
    escape_json_into(&mut s, system_prompt);
    s.append("\"},{\"role\":\"user\",\"content\":\"");
    escape_json_into(&mut s, user_prompt);
    s.append("\"}],\"temperature\":0.7}");
    s
}

/// The reply carried by the extracted choice contents: the first one,
/// unmodified; an empty sequence of choices is the no-response error.
pub fn first_choice_content(choices: Vec<String>) -> (r: Result<String, RequestError>)
    ensures
        choices@.len() == 0 ==> r == Err::<String, RequestError>(RequestError::NoResponse),
        choices@.len() > 0 ==> (r matches Ok(text) && text@ == choices@[0]@),
{
    let mut choices = choices;
    if choices.len() == 0 {
        Err(RequestError::NoResponse)
    } else {
        Ok(choices.remove(0))
    }
}

/// Classifies the endpoint's answer to one request: a non-success status is
/// an API failure carrying the raw body; on success the reply is the first
/// choice's message content, returned unmodified, an empty choices array is
/// the no-response error, and a body of any other shape — see
/// [`choices_of`] — is a malformed response.
pub fn classify_response(status_ok: bool, body: String) -> (r: Result<String, RequestError>)
    ensures
        !status_ok ==> (r matches Err(e) && e matches RequestError::ApiFailure(b) && b@ == body@),
        status_ok ==> match choices_of(body@) {
            Option::Some(cs) => {
                if cs.len() == 0 {
                    r == Err::<String, RequestError>(RequestError::NoResponse)
                } else {
                    r matches Ok(text) && text@ == cs[0]
                }
            },
            Option::None => r == Err::<String, RequestError>(RequestError::MalformedResponse),
        },
{
    if !status_ok {
        return Err(RequestError::ApiFailure(body));
    }
    match read_choices(body.as_str()) {
        Option::None => Err(RequestError::MalformedResponse),
        Option::Some(cs) => {
            proof {
                assert(cs.deep_view().len() == cs@.len());
                if cs@.len() > 0 {
                    assert(cs.deep_view()[0] == cs@[0]@);
                }
            }
            first_choice_content(cs)
        },
    }
}

/// The completion client of one session: one credential, one model, one HTTP
/// client. Switching models constructs a new one.
#[derive(Debug)]
pub struct OpenAIAgent {
    pub api_key: String,
    pub model: String,
    pub client: reqwest::Client,
}

impl OpenAIAgent {
    /// Builds a client for the given model: fails with the missing-key error
    /// when no credential was found in the environment, and holds the
    /// credential and model otherwise.
    pub fn new(model: String, api_key: Option<String>) -> (r: Result<OpenAIAgent, ConfigError>)
        ensures
            match api_key {
                Option::None => r == Err::<OpenAIAgent, ConfigError>(ConfigError::MissingApiKey),
                Option::Some(k) => match r {
                    Ok(agent) => agent.api_key == k && agent.model == model,
                    Err(e) => e == ConfigError::ClientInit,
                },
            },
    {
        let key = match api_key {
            Option::Some(k) => k,
            Option::None => {
                return Err(ConfigError::MissingApiKey);
            },
        };
        match new_http_client() {
            Option::Some(client) => Ok(OpenAIAgent { api_key: key, model, client }),
            Option::None => Err(ConfigError::ClientInit),
        }
    }

    /// The JSON body of one request of this client, for the given system
    /// prompt and the user's prompt verbatim.
    pub fn request_body_for(&self, system_prompt: &str, user_prompt: &str) -> (r: String)
        ensures
            r@ == request_body_spec(self.model@, system_prompt@, user_prompt@),
    {
        build_request_body(self.model.as_str(), system_prompt, user_prompt)
    }

    /// The authorization header value of this client's requests.
    pub fn bearer_header(&self) -> (r: String)
        ensures
            r@ == "Bearer "@ + self.api_key@,
    {
        let mut s = String::from_str("Bearer ");
        s.append(self.api_key.as_str());
        s
    }
}

} // verus!
