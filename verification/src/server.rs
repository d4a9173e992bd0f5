//! The decisions of the language server's message loop: what each message
//! from the editor asks of the server, which query goes to the model, and
//! how the reply is returned.

use vstd::prelude::*;
use vstd::string::StringExecFns;
use crate::document::{DocumentCache, TextDocument};
use crate::text::{chars_of, range_equals};

verus! {

broadcast use vstd::string::group_string_axioms;

/// The folder that holds the server's assets, secrets and logs.
pub open spec fn base_folder() -> Seq<char> {
    "/home/marco/dev/projects/lsp-gpt"@
}

/// A path below the server's base folder.
pub fn create_path(subpath: &str) -> (r: String)
    ensures
        r@ == base_folder() + subpath@,
{
    let mut path = String::from_str("/home/marco/dev/projects/lsp-gpt");
    path.append(subpath);
    path
}

/// The notifications of the editor that the server acts on.
#[derive(PartialEq, Eq, Structural, Clone, Copy, Debug)]
pub enum NotificationKind {
    /// A document was opened.
    DidOpen,
    /// A document changed.
    DidChange,
    /// A document was saved.
    DidSave,
    /// Any other notification.
    Other,
}

/// The method of the notification sent when a document is opened.
pub open spec fn did_open_method() -> Seq<char> {
    "textDocument/didOpen"@
}

/// The method of the notification sent when a document changes.
pub open spec fn did_change_method() -> Seq<char> {
    "textDocument/didChange"@
}

/// The method of the notification sent when a document is saved.
pub open spec fn did_save_method() -> Seq<char> {
    "textDocument/didSave"@
}

/// The kind of notification that `method` names.
pub open spec fn kind_of(method: Seq<char>) -> NotificationKind {
    if method == did_open_method() {
        NotificationKind::DidOpen
    } else if method == did_change_method() {
        NotificationKind::DidChange
    } else if method == did_save_method() {
        NotificationKind::DidSave
    } else {
        NotificationKind::Other
    }
}

fn str_equals(a: &str, b: &str) -> (r: bool)
    ensures
        r == (a@ == b@),
{
    let x = chars_of(a);
    let y = chars_of(b);
    assert(x@.subrange(0, x@.len() as int) =~= x@);
    range_equals(&x, 0, x.len(), &y)
}

/// The kind of notification that `method` names.
pub fn notification_kind(method: &str) -> (r: NotificationKind)
    ensures
        r == kind_of(method@),
{
    if str_equals(method, "textDocument/didOpen") {
        NotificationKind::DidOpen
    } else if str_equals(method, "textDocument/didChange") {
        NotificationKind::DidChange
    } else if str_equals(method, "textDocument/didSave") {
        NotificationKind::DidSave
    } else {
        NotificationKind::Other
    }
}

/// A question for the model.
pub struct Query {
    /// The method whose prompt configuration answers it.
    pub prompt_method: String,
    /// The client message that the model answers.
    pub user_message: String,
    /// The method under which the invocation is logged.
    pub log_method: String,
    /// Whether the answer goes back as a notification (else as a response).
    pub as_notification: bool,
}

/// The query for a client request: the request itself is asked with the
/// prompts of its method and answered as a response.
pub fn request_query(method: &str, raw_msg: String) -> (r: Query)
    ensures
        r.prompt_method@ == method@,
        r.user_message == raw_msg,
        r.log_method@ == method@,
        !r.as_notification,
{
    Query {
        prompt_method: String::from_str(method),
        user_message: raw_msg,
        log_method: String::from_str(method),
        as_notification: false,
    }
}

/// The method of the diagnostic request made when a document is saved.
pub open spec fn diagnostic_method() -> Seq<char> {
    "textDocument/diagnostic"@
}

/// The diagnostic request made for the document at `url`, answered by a
/// notification.
pub open spec fn diagnostic_request(url: Seq<char>) -> Seq<char> {
    "{\"method\":\"textDocument/diagnostic\",\"params\":{\"textDocument\":{\"uri\":\""@ + url
        + "\"}, \"response_type\":\"notification\"}}"@
}

/// The query made when the document at `url` is saved: a diagnostic request
/// for it, asked with the prompts of the save notification's method, logged
/// as `textDocument/diagnostic#` and that method, answered as a notification.
pub fn save_query(notification_method: &str, url: &str) -> (r: Query)
    ensures
        r.prompt_method@ == notification_method@,
        r.user_message@ == diagnostic_request(url@),
        r.log_method@ == diagnostic_method() + seq!['#'] + notification_method@,
        r.as_notification,
{
    let mut message = String::from_str(
        "{\"method\":\"textDocument/diagnostic\",\"params\":{\"textDocument\":{\"uri\":\"",
    );
    message.append(url);
    message.append("\"}, \"response_type\":\"notification\"}}");
    let mut log_method = String::from_str("textDocument/diagnostic#");
    proof {
        reveal_strlit("textDocument/diagnostic#");
        reveal_strlit("textDocument/diagnostic");
    }
    log_method.append(notification_method);
    assert(log_method@ =~= diagnostic_method() + seq!['#'] + notification_method@);
    Query {
        prompt_method: String::from_str(notification_method),
        user_message: message,
        log_method,
        as_notification: true,
    }
}

/// A message from the editor, with the parameters the server reads already
/// decoded (`None` where they could not be decoded).
pub enum ServerEvent {
    /// A request other than shutdown, with its method and its JSON text.
    Request { method: String, raw_message: String },
    /// A response to something the server sent.
    Response,
    /// A document was opened.
    Opened(Option<TextDocument>),
    /// The document at the URI changed.
    Changed(Option<String>),
    /// The document at the URI was saved.
    Saved(Option<String>),
    /// Any other notification.
    OtherNotification,
}

/// What the server does next for an event: read a document again, then ask
/// the model.
pub struct ServerStep {
    /// The URI of the latest document, to be read again before the query.
    pub reload_url: Option<String>,
    /// The question for the model.
    pub query: Option<Query>,
}

/// The URI to read again when the document at `url` changed: `url` when it
/// is the latest document.
pub open spec fn reload_for(cache: DocumentCache, url: Seq<char>) -> Option<Seq<char>> {
    if cache.latest matches Some(d) && d.uri@ == url {
        Some(url)
    } else {
        None
    }
}

/// The URI of the step, as characters.
pub open spec fn reload_view(step: ServerStep) -> Option<Seq<char>> {
    match step.reload_url {
        Some(u) => Some(u@),
        None => None,
    }
}

/// A change of the latest document has it read again, and with no document
/// opened nothing is read again.
pub proof fn lemma_reload_latest(doc: TextDocument, url: Seq<char>)
    ensures
        reload_for(DocumentCache { latest: Some(doc) }, doc.uri@) == Some(doc.uri@),
        reload_for(DocumentCache { latest: None }, url) is None,
        url != doc.uri@ ==> reload_for(DocumentCache { latest: Some(doc) }, url) is None,
{
}

impl DocumentCache {
    /// Decides what the server does for an event and updates the latest
    /// document: a request is put to the model and answered as a response;
    /// an opened document becomes the latest; a change of the latest document
    /// has it read again; a save has it read again and asks the model for
    /// diagnostics of the saved document, answered as a notification;
    /// everything else, and any notification whose parameters could not be
    /// decoded, changes nothing.
    pub fn handle_event(&mut self, event: ServerEvent) -> (r: ServerStep)
        ensures
            match event {
                ServerEvent::Request { method, raw_message } => {
                    &&& final(self).latest == old(self).latest
                    &&& r.reload_url is None
                    &&& r.query matches Some(q) && q.prompt_method@ == method@ && q.user_message
                        == raw_message && q.log_method@ == method@ && !q.as_notification
                },
                ServerEvent::Opened(Some(doc)) => {
                    &&& final(self).latest == Some(doc)
                    &&& r.reload_url is None
                    &&& r.query is None
                },
                ServerEvent::Changed(Some(url)) => {
                    &&& final(self).latest == old(self).latest
                    &&& reload_view(r) == reload_for(*old(self), url@)
                    &&& r.query is None
                },
                ServerEvent::Saved(Some(url)) => {
                    &&& final(self).latest == old(self).latest
                    &&& reload_view(r) == reload_for(*old(self), url@)
                    &&& r.query matches Some(q) && q.prompt_method@ == did_save_method()
                        && q.user_message@ == diagnostic_request(url@) && q.log_method@
                        == diagnostic_method() + seq!['#'] + did_save_method() && q.as_notification
                },
                _ => {
                    &&& final(self).latest == old(self).latest
                    &&& r.reload_url is None
                    &&& r.query is None
                },
            },
    {
        match event {
            ServerEvent::Request { method, raw_message } => {
                let q = request_query(method.as_str(), raw_message);
                ServerStep { reload_url: None, query: Some(q) }
            },
            ServerEvent::Opened(Some(doc)) => {
                self.open(doc);
                ServerStep { reload_url: None, query: None }
            },
            ServerEvent::Changed(Some(url)) => {
                let reload = self.is_latest(url.as_str());
                ServerStep { reload_url: if reload { Some(url) } else { None }, query: None }
            },
            ServerEvent::Saved(Some(url)) => {
                let reload = self.is_latest(url.as_str());
                let q = save_query("textDocument/didSave", url.as_str());
                ServerStep { reload_url: if reload { Some(url) } else { None }, query: Some(q) }
            },
            _ => ServerStep { reload_url: None, query: None },
        }
    }
}

/// The value of the authorization header for `api_key`.
pub fn authorization_value(api_key: &str) -> (r: String)
    ensures
        r@ == "Bearer "@ + api_key@,
{
    let mut auth = String::from_str("Bearer ");
    auth.append(api_key);
    auth
}

/// The headers of every request to the model's API, as (name, value) pairs:
/// JSON content, the authorization `auth`, and the organization.
pub fn create_headers(auth: &str, api_company_id: &str) -> (r: Vec<(String, String)>)
    ensures
        r@.len() == 3,
        r@[0].0@ == "content-type"@ && r@[0].1@ == "application/json"@,
        r@[1].0@ == "authorization"@ && r@[1].1@ == auth@,
        r@[2].0@ == "OpenAI-Organization"@ && r@[2].1@ == api_company_id@,
{
    let mut headers: Vec<(String, String)> = Vec::new();
    headers.push((String::from_str("content-type"), String::from_str("application/json")));
    headers.push((String::from_str("authorization"), String::from_str(auth)));
    headers.push((String::from_str("OpenAI-Organization"), String::from_str(api_company_id)));
    headers
}

} // verus!
