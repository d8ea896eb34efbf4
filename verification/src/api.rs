//! The one HTTP call. The request body is the lowest common denominator of
//! the chat-completions wire format, model and messages only, so any
//! OpenAI-compatible provider accepts it; of the response only what is needed
//! is read, for the same reason.

use vstd::prelude::*;

use crate::auth::{Authorization, AuthorizationView};
use crate::chars;
use crate::text;

verus! {

/// Generous for slow local models, but still ends a hung provider; without a
/// timeout, `git commit -m "$(lede generate)"` blocks forever.
pub const TIMEOUT_SECONDS: u64 = 120;

/// One message in the conversation. `role` is `&'static str` because lede
/// only ever sends its own three wire strings: "system", "user", and
/// "assistant" (the last one when the retry replays the model's reply).
#[derive(Debug)]
pub struct ChatMessage {
    pub role: &'static str,
    pub content: String,
}

/// What a [`ChatMessage`] holds.
pub struct ChatMessageView {
    pub role: Seq<char>,
    pub content: Seq<char>,
}

impl View for ChatMessage {
    type V = ChatMessageView;

    open spec fn view(&self) -> ChatMessageView {
        ChatMessageView { role: self.role@, content: self.content@ }
    }
}

pub open spec fn messages_view(messages: Seq<ChatMessage>) -> Seq<ChatMessageView> {
    messages.map_values(|message: ChatMessage| message@)
}

/// One chat-completions call. It holds the full message list rather than a
/// fixed system-and-user pair so the subject-shortening retry can extend the
/// conversation.
#[derive(Debug)]
pub struct Chat {
    pub base_url: String,
    pub model: String,
    pub authorization: Authorization,
    pub messages: Vec<ChatMessage>,
}

/// What a [`Chat`] holds.
pub struct ChatView {
    pub base_url: Seq<char>,
    pub model: Seq<char>,
    pub authorization: AuthorizationView,
    pub messages: Seq<ChatMessageView>,
}

impl View for Chat {
    type V = ChatView;

    open spec fn view(&self) -> ChatView {
        ChatView {
            base_url: self.base_url@,
            model: self.model@,
            authorization: self.authorization@,
            messages: messages_view(self.messages@),
        }
    }
}

impl ChatView {
    /// Where the call goes.
    pub open spec fn url(self) -> Seq<char> {
        text::trim_end_char(self.base_url, '/') + "/chat/completions"@
    }

    /// The value of the Authorization header, where there is one.
    pub open spec fn authorization_header(self) -> Option<Seq<char>> {
        match self.authorization {
            AuthorizationView::NoAuth => None,
            AuthorizationView::Bearer(key) => Some("Bearer "@ + key),
        }
    }
}

/// Why a call gave no text.
#[derive(Debug)]
pub enum ApiError {
    NotSent { url: String, cause: String },
    /// The provider answered with a status that is no success.
    Refused { status: u16, detail: String },
    Unreadable(String),
    NoChoices,
    EmptyMessage,
}

/// What an [`ApiError`] holds.
pub enum ApiErrorView {
    NotSent { url: Seq<char>, cause: Seq<char> },
    Refused { status: u16, detail: Seq<char> },
    Unreadable(Seq<char>),
    NoChoices,
    EmptyMessage,
}

impl View for ApiError {
    type V = ApiErrorView;

    open spec fn view(&self) -> ApiErrorView {
        match self {
            ApiError::NotSent { url, cause } => ApiErrorView::NotSent { url: url@, cause: cause@ },
            ApiError::Refused { status, detail } => ApiErrorView::Refused {
                status: *status,
                detail: detail@,
            },
            ApiError::Unreadable(cause) => ApiErrorView::Unreadable(cause@),
            ApiError::NoChoices => ApiErrorView::NoChoices,
            ApiError::EmptyMessage => ApiErrorView::EmptyMessage,
        }
    }
}

/// A 2xx status.
pub open spec fn is_success(status: u16) -> bool {
    200 <= status < 300
}

/// Whether a status is a success.
pub fn succeeded(status: u16) -> (r: bool)
    ensures
        r == is_success(status),
{
    200 <= status && status < 300
}

impl Chat {
    /// Where the call goes.
    pub fn url(&self) -> (r: String)
        ensures
            r@ == self@.url(),
    {
        let base = chars::of(self.base_url.as_str());
        let mut out = chars::copy(chars::trim_end_char(base.as_slice(), '/'));
        chars::append_str(&mut out, "/chat/completions");
        chars::string(out.as_slice())
    }

    /// The value of the Authorization header, where there is one.
    pub fn authorization_header(&self) -> (r: Option<String>)
        ensures
            chars::optional(r) == self@.authorization_header(),
    {
        match &self.authorization {
            Authorization::NoAuth => None,
            Authorization::Bearer(key) => {
                let mut out = chars::of("Bearer ");
                chars::append_str(&mut out, key.as_str());
                Some(chars::string(out.as_slice()))
            },
        }
    }
}

/// What a refusal says: the provider's own message, or the first line of a
/// body in which none was found.
pub open spec fn detail_of(body: Seq<char>, message: Option<Seq<char>>) -> Seq<char> {
    match message {
        Some(message) => message,
        None => {
            let lines = text::lines(body);
            if lines.len() > 0 {
                text::trim(lines[0])
            } else {
                Seq::empty()
            }
        },
    }
}

/// Read a refusal. A non-2xx body carries the provider's own error message,
/// which beats a bare status code on stderr: `message` is that message where
/// the body has the shape most providers return. A body that is something
/// else falls back to its first line.
pub fn refusal(status: u16, body: &str, message: Option<String>) -> (r: ApiError)
    ensures
        r@ == (ApiErrorView::Refused { status, detail: detail_of(body@, chars::optional(message)) }),
{
    let detail = match message {
        Some(message) => message,
        None => {
            let source = chars::of(body);
            let lines = chars::lines(source.as_slice());
            if lines.len() > 0 {
                assert(chars::views(lines@)[0] == lines@[0]@);
                chars::string(chars::trim(lines[0]))
            } else {
                let empty: Vec<char> = Vec::new();
                chars::string(empty.as_slice())
            }
        },
    };
    ApiError::Refused { status, detail }
}

/// The contents of the choices of a response, or why it could not be read.
pub open spec fn choices_view(choices: Result<Vec<Option<String>>, String>) -> Result<
    Seq<Option<Seq<char>>>,
    Seq<char>,
> {
    match choices {
        Ok(choices) => Ok(choices@.map_values(|choice: Option<String>| chars::optional(choice))),
        Err(cause) => Err(cause@),
    }
}

/// The assistant's text: what the first choice holds, unless it is blank.
pub open spec fn reply_of(choices: Result<Seq<Option<Seq<char>>>, Seq<char>>) -> Result<
    Seq<char>,
    ApiErrorView,
> {
    match choices {
        Err(cause) => Err(ApiErrorView::Unreadable(cause)),
        Ok(choices) => if choices.len() == 0 {
            Err(ApiErrorView::NoChoices)
        } else {
            match choices[0] {
                Some(content) if !text::is_blank(content) => Ok(content),
                _ => Err(ApiErrorView::EmptyMessage),
            }
        },
    }
}

/// Take the assistant's text from the contents of the choices of a successful
/// response.
pub fn reply(choices: Result<Vec<Option<String>>, String>) -> (r: Result<String, ApiError>)
    ensures
        match r {
            Ok(content) => reply_of(choices_view(choices)) == Ok::<Seq<char>, ApiErrorView>(
                content@,
            ),
            Err(error) => reply_of(choices_view(choices)) == Err::<Seq<char>, ApiErrorView>(error@),
        },
{
    let choices = match choices {
        Ok(choices) => choices,
        Err(cause) => {
            return Err(ApiError::Unreadable(cause));
        },
    };
    if choices.len() == 0 {
        return Err(ApiError::NoChoices);
    }
    match &choices[0] {
        Some(content) => {
            let source = chars::of(content.as_str());
            if chars::is_blank(source.as_slice()) {
                Err(ApiError::EmptyMessage)
            } else {
                Ok(content.clone())
            }
        },
        None => Err(ApiError::EmptyMessage),
    }
}

impl ApiErrorView {
    /// The words in which an error reaches the user.
    pub open spec fn message(self) -> Seq<char> {
        match self {
            ApiErrorView::NotSent { url, cause } => "request to "@ + url + " failed: "@ + cause,
            ApiErrorView::Refused { status, detail } => "API error (HTTP "@ + text::decimal(
                status as nat,
            ) + "): "@ + detail,
            ApiErrorView::Unreadable(cause) => "failed to parse API response: "@ + cause,
            ApiErrorView::NoChoices => "API returned no choices"@,
            ApiErrorView::EmptyMessage => "API returned an empty message"@,
        }
    }
}

impl ApiError {
    /// The words in which the error reaches the user.
    pub fn message(&self) -> (r: String)
        ensures
            r@ == self@.message(),
    {
        let mut out: Vec<char>;
        match self {
            ApiError::NotSent { url, cause } => {
                out = chars::of("request to ");
                chars::append_str(&mut out, url.as_str());
                chars::append_str(&mut out, " failed: ");
                chars::append_str(&mut out, cause.as_str());
            },
            ApiError::Refused { status, detail } => {
                out = chars::of("API error (HTTP ");
                chars::append(&mut out, chars::decimal(*status as usize).as_slice());
                chars::append_str(&mut out, "): ");
                chars::append_str(&mut out, detail.as_str());
            },
            ApiError::Unreadable(cause) => {
                out = chars::of("failed to parse API response: ");
                chars::append_str(&mut out, cause.as_str());
            },
            ApiError::NoChoices => {
                out = chars::of("API returned no choices");
            },
            ApiError::EmptyMessage => {
                out = chars::of("API returned an empty message");
            },
        }
        chars::string(out.as_slice())
    }
}

} // verus!
