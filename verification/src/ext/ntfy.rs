//! A notification for an ntfy server: building it, checking it, and
//! composing the request that carries it.

use validator::ValidateUrl;
use vstd::prelude::*;
use vstd::string::StringExecFns;

verus! {

/// A notification in the making.
#[derive(Debug)]
pub struct NtfyMessage {
    url: String,
    topic: Option<String>,
    message: Option<String>,
    title: Option<String>,
    message_template: Option<String>,
    priority: Option<u8>,
    tags: Option<Vec<String>>,
    actions: Option<Vec<Vec<String>>>,
}

/// What a notification holds.
pub struct NtfyMessageView {
    pub url: Seq<char>,
    pub topic: Option<Seq<char>>,
    pub message: Option<Seq<char>>,
    pub title: Option<Seq<char>>,
    pub message_template: Option<Seq<char>>,
    pub priority: Option<u8>,
    pub tags: Option<Seq<Seq<char>>>,
    pub actions: Option<Seq<Seq<Seq<char>>>>,
}

/// Why a notification cannot be sent.
#[derive(Clone, Copy, Debug, PartialEq, Eq, Structural)]
pub enum NtfyError {
    /// The server address is no URL, or the priority lies outside 1 to 5,
    /// or both.
    Invalid { url: bool, priority: bool },
    MissingTopic,
    MissingTitle,
    MissingMessage,
}

/// The request that carries a notification: where it is posted, its body,
/// and the values of its headers.
#[derive(Clone, Debug, PartialEq, Eq)]
pub struct NtfyRequest {
    pub uri: String,
    pub body: String,
    /// The header `X-Title`.
    pub title: String,
    /// The header `X-Priority`.
    pub priority: Option<String>,
    /// The header `X-Tags`.
    pub tags: Option<String>,
    /// The header `Actions`.
    pub actions: Option<String>,
}

/// Whether a text parses as a URL, as the `url` crate reads it.
pub uninterp spec fn valid_url(text: Seq<char>) -> bool;

/// A text in the `application/x-www-form-urlencoded` byte serialisation, as
/// the `url` crate writes it.
pub uninterp spec fn form_urlencoded(text: Seq<char>) -> Seq<char>;

/// The address of the public ntfy server.
pub open spec fn default_url() -> Seq<char> {
    "https://ntfy.sh"@
}

/// The texts, with the separator between each two of them.
pub open spec fn joined(parts: Seq<Seq<char>>, separator: Seq<char>) -> Seq<char>
    decreases parts.len(),
{
    if parts.len() == 0 {
        Seq::empty()
    } else if parts.len() == 1 {
        parts[0]
    } else {
        joined(parts.drop_last(), separator) + separator + parts.last()
    }
}

/// Each action on a line of its own: its parts, separated by a comma and a
/// space.
pub open spec fn action_texts(actions: Seq<Seq<Seq<char>>>) -> Seq<Seq<char>> {
    Seq::new(actions.len(), |i: int| joined(actions[i], ", "@))
}

/// A priority is in range when it lies from 1 to 5; none given is in range.
pub open spec fn priority_in_range(priority: Option<u8>) -> bool {
    match priority {
        Some(p) => 1 <= p <= 5,
        None => true,
    }
}

/// The digit of a priority from 1 to 5.
pub open spec fn priority_text(priority: u8) -> Seq<char> {
    if priority == 1 {
        "1"@
    } else if priority == 2 {
        "2"@
    } else if priority == 3 {
        "3"@
    } else if priority == 4 {
        "4"@
    } else {
        "5"@
    }
}

/// Where a notification is posted: the topic under the server address,
/// and, where a template is used, the template behind it.
pub open spec fn uri_for(url: Seq<char>, topic: Seq<char>, encoded_template: Option<Seq<char>>) -> Seq<
    char,
> {
    match encoded_template {
        Some(template) => url + "/"@ + topic + "?tpl=1&m="@ + template,
        None => url + "/"@ + topic,
    }
}

/// The first thing that keeps a notification from being sent, if anything
/// does.
pub open spec fn refusal(m: NtfyMessageView, url_is_valid: bool) -> Option<NtfyError> {
    if !url_is_valid || !priority_in_range(m.priority) {
        Some(NtfyError::Invalid { url: !url_is_valid, priority: !priority_in_range(m.priority) })
    } else if m.topic.is_none() {
        Some(NtfyError::MissingTopic)
    } else if m.title.is_none() {
        Some(NtfyError::MissingTitle)
    } else if m.message.is_none() {
        Some(NtfyError::MissingMessage)
    } else {
        None
    }
}

/// The request carries the notification.
pub open spec fn carries(
    request: &NtfyRequest,
    m: NtfyMessageView,
    encoded_template: Option<Seq<char>>,
) -> bool {
    &&& request.uri@ == uri_for(m.url, m.topic.unwrap(), encoded_template)
    &&& request.body@ == m.message.unwrap()
    &&& request.title@ == m.title.unwrap()
    &&& match m.priority {
        Some(p) => request.priority.is_some() && request.priority.unwrap()@ == priority_text(p),
        None => request.priority.is_none(),
    }
    &&& match m.tags {
        Some(tags) => request.tags.is_some() && request.tags.unwrap()@ == joined(tags, ","@),
        None => request.tags.is_none(),
    }
    &&& match m.actions {
        Some(actions) => request.actions.is_some() && request.actions.unwrap()@ == joined(
            action_texts(actions),
            "; "@,
        ),
        None => request.actions.is_none(),
    }
}

/// The view of a text that may be missing.
pub open spec fn text_view(text: Option<String>) -> Option<Seq<char>> {
    match text {
        Some(s) => Some(s@),
        None => None,
    }
}

impl View for NtfyMessage {
    type V = NtfyMessageView;

    closed spec fn view(&self) -> NtfyMessageView {
        NtfyMessageView {
            url: self.url@,
            topic: text_view(self.topic),
            message: text_view(self.message),
            title: text_view(self.title),
            message_template: text_view(self.message_template),
            priority: self.priority,
            tags: match self.tags {
                Some(tags) => Some(tags.deep_view()),
                None => None,
            },
            actions: match self.actions {
                Some(actions) => Some(actions.deep_view()),
                None => None,
            },
        }
    }
}

/// Calls `validator::ValidateUrl::validate_url` on a text. Believed: the
/// answer depends on the text alone.
#[verifier::external_body]
fn is_valid_url(text: &str) -> (r: bool)
    ensures
        r == valid_url(text@),
{
    text.validate_url()
}

/// Calls `url::form_urlencoded::byte_serialize` on the bytes of a text and
/// collects the pieces. Believed: the result depends on the text alone.
#[verifier::external_body]
fn form_urlencode(text: &str) -> (r: String)
    ensures
        r@ == form_urlencoded(text@),
{
    url::form_urlencoded::byte_serialize(text.as_bytes()).collect()
}

/// The texts, with the separator between each two of them.
pub fn join(parts: &Vec<String>, separator: &str) -> (out: String)
    ensures
        out@ == joined(parts.deep_view(), separator@),
{
    let mut out: String = String::new();
    let mut i: usize = 0;
    while i < parts.len()
        invariant
            i <= parts.len(),
            out@ == joined(parts.deep_view().take(i as int), separator@),
        decreases parts.len() - i,
    {
        let ghost before = out@;
        if i > 0 {
            out.append(separator);
        }
        out.append(parts[i].as_str());
        proof {
            let all = parts.deep_view();
            assert(all.take(i + 1).drop_last() =~= all.take(i as int));
            assert(all.take(i + 1).last() == parts@[i as int]@);
            if i == 0 {
                assert(before =~= Seq::<char>::empty());
                assert(out@ =~= parts@[0]@);
            }
        }
        i += 1;
    }
    assert(parts.deep_view().take(i as int) =~= parts.deep_view());
    out
}

impl Default for NtfyMessage {
    /// A notification for the public ntfy server, with nothing set.
    fn default() -> (m: NtfyMessage)
        ensures
            m@ == (NtfyMessageView {
                url: default_url(),
                topic: None,
                message: None,
                title: None,
                message_template: None,
                priority: None,
                tags: None,
                actions: None,
            }),
    {
        NtfyMessage {
            url: String::from_str("https://ntfy.sh"),
            topic: None,
            message: None,
            title: None,
            message_template: None,
            priority: None,
            tags: None,
            actions: None,
        }
    }
}

impl NtfyMessage {
    /// A notification for the server at `url`, with nothing set.
    pub fn new(url: &str) -> (m: NtfyMessage)
        ensures
            m@ == (NtfyMessageView {
                url: url@,
                topic: None,
                message: None,
                title: None,
                message_template: None,
                priority: None,
                tags: None,
                actions: None,
            }),
    {
        NtfyMessage::default().url(url)
    }

    pub fn url(self, url: &str) -> (m: NtfyMessage)
        ensures
            m@ == (NtfyMessageView { url: url@, ..self@ }),
    {
        let mut m = self;
        m.url = String::from_str(url);
        m
    }

    pub fn topic(self, topic: &str) -> (m: NtfyMessage)
        ensures
            m@ == (NtfyMessageView { topic: Some(topic@), ..self@ }),
    {
        let mut m = self;
        m.topic = Some(String::from_str(topic));
        m
    }

    pub fn title(self, title: &str) -> (m: NtfyMessage)
        ensures
            m@ == (NtfyMessageView { title: Some(title@), ..self@ }),
    {
        let mut m = self;
        m.title = Some(String::from_str(title));
        m
    }

    pub fn message_template(self, message_template: &str) -> (m: NtfyMessage)
        ensures
            m@ == (NtfyMessageView { message_template: Some(message_template@), ..self@ }),
    {
        let mut m = self;
        m.message_template = Some(String::from_str(message_template));
        m
    }

    pub fn message(self, message: &str) -> (m: NtfyMessage)
        ensures
            m@ == (NtfyMessageView { message: Some(message@), ..self@ }),
    {
        let mut m = self;
        m.message = Some(String::from_str(message));
        m
    }

    pub fn priority(self, priority: u8) -> (m: NtfyMessage)
        ensures
            m@ == (NtfyMessageView { priority: Some(priority), ..self@ }),
    {
        let mut m = self;
        m.priority = Some(priority);
        m
    }

    pub fn tags(self, tags: Vec<String>) -> (m: NtfyMessage)
        ensures
            m@ == (NtfyMessageView { tags: Some(tags.deep_view()), ..self@ }),
    {
        let mut m = self;
        m.tags = Some(tags);
        m
    }

    pub fn actions(self, actions: Vec<Vec<String>>) -> (m: NtfyMessage)
        ensures
            m@ == (NtfyMessageView { actions: Some(actions.deep_view()), ..self@ }),
    {
        let mut m = self;
        m.actions = Some(actions);
        m
    }

    /// Checks the notification and composes its request, given whether its
    /// server address is a URL and, where a template is to be used, the
    /// template in its encoded form.
    pub fn compose(self, url_is_valid: bool, encoded_template: Option<String>) -> (r: Result<
        NtfyRequest,
        NtfyError,
    >)
        ensures
            match r {
                Ok(request) => refusal(self@, url_is_valid).is_none() && carries(
                    &request,
                    self@,
                    text_view(encoded_template),
                ),
                Err(e) => refusal(self@, url_is_valid) == Some(e),
            },
    {
        let priority_ok: bool = match self.priority {
            Some(p) => 1 <= p && p <= 5,
            None => true,
        };
        if !url_is_valid || !priority_ok {
            return Err(NtfyError::Invalid { url: !url_is_valid, priority: !priority_ok });
        }
        let topic: String = match self.topic {
            Some(topic) => topic,
            None => {
                return Err(NtfyError::MissingTopic);
            },
        };
        let title: String = match self.title {
            Some(title) => title,
            None => {
                return Err(NtfyError::MissingTitle);
            },
        };
        let body: String = match self.message {
            Some(message) => message,
            None => {
                return Err(NtfyError::MissingMessage);
            },
        };
        let mut uri: String = self.url;
        uri.append("/");
        uri.append(topic.as_str());
        match &encoded_template {
            Some(template) => {
                uri.append("?tpl=1&m=");
                uri.append(template.as_str());
            },
            None => {},
        }
        let priority: Option<String> = match self.priority {
            Some(p) => Some(
                String::from_str(
                    if p == 1 {
                        "1"
                    } else if p == 2 {
                        "2"
                    } else if p == 3 {
                        "3"
                    } else if p == 4 {
                        "4"
                    } else {
                        "5"
                    },
                ),
            ),
            None => None,
        };
        let tags: Option<String> = match &self.tags {
            Some(tags) => Some(join(tags, ",")),
            None => None,
        };
        let actions: Option<String> = match &self.actions {
            Some(actions) => {
                let mut lines: Vec<String> = Vec::new();
                let mut i: usize = 0;
                while i < actions.len()
                    invariant
                        i <= actions.len(),
                        lines@.len() == i,
                        forall|j: int|
                            0 <= j < i ==> lines@[j]@ == joined(actions.deep_view()[j], ", "@),
                    decreases actions.len() - i,
                {
                    lines.push(join(&actions[i], ", "));
                    i += 1;
                }
                assert(lines.deep_view() =~= action_texts(actions.deep_view()));
                Some(join(&lines, "; "))
            },
            None => None,
        };
        Ok(NtfyRequest { uri, body, title, priority, tags, actions })
    }

    /// Checks the notification and composes the request that carries it.
    ///
    /// The server address has to be a URL and a priority has to lie from 1
    /// to 5; topic, title and message have to be set. A template, where one
    /// is set, goes into the address in its encoded form.
    pub fn request(self) -> (r: Result<NtfyRequest, NtfyError>)
        ensures
            match r {
                Ok(request) => refusal(self@, valid_url(self@.url)).is_none() && carries(
                    &request,
                    self@,
                    match self@.message_template {
                        Some(template) => Some(form_urlencoded(template)),
                        None => None,
                    },
                ),
                Err(e) => refusal(self@, valid_url(self@.url)) == Some(e),
            },
    {
        let url_is_valid: bool = is_valid_url(self.url.as_str());
        let encoded_template: Option<String> = match &self.message_template {
            Some(template) => Some(form_urlencode(template.as_str())),
            None => None,
        };
        self.compose(url_is_valid, encoded_template)
    }
}

} // verus!
