//! Data carried by the XRPC client, and the pure decisions that the client
//! makes on it.
use vstd::prelude::*;

verus! {

/// The error body that the server sends with a failed call.
#[derive(Debug)]
pub struct ApiError {
    pub error: String,
    pub message: Option<String>,
}

impl ApiError {
    /// The text shown for this error: its name and its message (empty when
    /// there is none), on two lines.
    pub fn describe(&self) -> (r: String)
        ensures
            r@ == "Error: "@ + self.error@ + "\nMessage: "@ + match self.message {
                Some(m) => m@,
                None => Seq::empty(),
            } + "\n"@,
    {
        let mut out = String::new();
        out.append("Error: ");
        out.append(self.error.as_str());
        out.append("\nMessage: ");
        match &self.message {
            Some(m) => out.append(m.as_str()),
            None => {},
        }
        out.append("\n");
        out
    }

    /// Whether a failed call is worth one more try after refreshing the
    /// session: the token has expired, no retry was spent yet, and the client
    /// is logged in.
    pub fn should_refresh(&self, retry: bool, authenticated: bool) -> (r: bool)
        ensures
            r == (self.error@ == "ExpiredToken"@ && retry && authenticated),
    {
        crate::json::str_eq(self.error.as_str(), "ExpiredToken") && retry && authenticated
    }
}

/// How a call through the client failed.
#[derive(Debug)]
pub enum XrpcError {
    API(ApiError),
    RateLimited,
    Internal(String),
}

/// The tokens and account of a logged-in session.
#[derive(Debug)]
pub struct XrpcAuth {
    pub access_token: String,
    pub refresh_token: String,
    pub did: String,
}

impl XrpcAuth {
    /// The session state kept from a login or refresh response.
    pub fn from_session(session: SessionResponse) -> (r: XrpcAuth)
        ensures
            r.access_token == session.access_jwt,
            r.refresh_token == session.refresh_jwt,
            r.did == session.did,
    {
        XrpcAuth {
            access_token: session.access_jwt,
            refresh_token: session.refresh_jwt,
            did: session.did,
        }
    }
}

/// The address of the XRPC method `method` at `provider`.
pub fn xrpc_url(provider: &str, method: &str) -> (r: String)
    ensures
        r@ == provider@ + "/xrpc/"@ + method@,
{
    let mut out = String::new();
    out.append(provider);
    out.append("/xrpc/");
    out.append(method);
    out
}

#[derive(Debug)]
pub struct ResolveHandleResponse {
    pub did: String,
}

#[derive(Debug)]
pub struct CreateSessionRequest {
    pub identifier: String,
    pub password: String,
}

#[derive(Debug)]
pub struct SessionResponse {
    pub access_jwt: String,
    pub refresh_jwt: String,
    pub handle: String,
    pub did: String,
    pub email: Option<String>,
}

#[derive(Debug)]
pub struct GetPostThreadParams {
    pub uri: String,
    pub depth: Option<i32>,
}

#[derive(Debug)]
pub struct GetPostThread {
    pub thread: ThreadView,
}

#[derive(Debug)]
pub struct ThreadView {
    pub post: Option<PostView>,
    pub parent: Option<Box<ThreadView>>,
    pub replies: Vec<ThreadView>,
}

#[derive(Debug)]
pub struct PostView {
    pub uri: String,
    pub cid: String,
    pub author: PostAuthor,
    pub record: Record,
}

#[derive(Debug)]
pub struct PostAuthor {
    pub did: String,
    pub handle: String,
}

#[derive(PartialEq, Eq, Structural, Clone, Copy, Debug)]
pub enum NotificationReason {
    Like,
    Repost,
    Follow,
    Mention,
    Reply,
    Quote,
}

/// Whether a notification asks the bot for a reply: an unread mention.
pub fn is_request(reason: NotificationReason, is_read: bool) -> (r: bool)
    ensures
        r == (reason == NotificationReason::Mention && !is_read),
{
    reason == NotificationReason::Mention && !is_read
}

#[derive(Debug)]
pub struct Record {
    pub text: Option<String>,
    pub typ: String,
}

} // verus!
