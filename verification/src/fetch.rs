//! The requests that an audit sends, and what it makes of each reply.
//!
//! Sending a request is left to the caller. This module says which request
//! comes next and, given what came back, whether the audit goes on, is done,
//! or has failed.

use crate::link::{get_next_page, next_cursor};
use crate::user::{User, UserView};
use vstd::prelude::*;
use vstd::string::*;

verus! {

/// Why an audit came to nothing.
#[derive(Clone, Copy, Debug, PartialEq, Eq)]
pub enum Error {
    /// The instance could not be reached, or did not accept the key.
    ConnectionFailed,
    /// A page of the list could not be had: the request did not get
    /// through (`status` is `None`), or was answered with a status that is
    /// no success.
    FetchFailed { status: Option<u16> },
    /// A reply did not hold what was asked for.
    DecodeFailed,
}

/// A request to send: `GET` of `url`, with `authorization` as the value of
/// the `Authorization` header.
#[derive(Debug)]
pub struct Request {
    pub url: String,
    pub authorization: String,
}

/// A request as plain text.
pub struct RequestView {
    pub url: Seq<char>,
    pub authorization: Seq<char>,
}

impl View for Request {
    type V = RequestView;

    open spec fn view(&self) -> RequestView {
        RequestView { url: self.url@, authorization: self.authorization@ }
    }
}

/// What came back for the request of the account that a key belongs to.
#[derive(Debug)]
pub enum CredentialsReply {
    /// The request did not get through.
    Unreachable,
    /// A response arrived. `body` is the account that it describes, or
    /// `None` where it describes none.
    Answered { status: u16, body: Option<User> },
}

/// What came back for the request of one page of a list of accounts.
#[derive(Debug)]
pub enum PageReply {
    /// The request did not get through.
    Unreachable,
    /// A response arrived. `link` is the value of its `link` header, if it
    /// has one; `body` is the accounts that it lists, or `None` where it
    /// holds no such list.
    Answered { status: u16, link: Option<String>, body: Option<Vec<User>> },
}

/// The reply to a request for credentials, as plain values.
pub enum CredentialsReplyView {
    Unreachable,
    Answered { status: u16, body: Option<UserView> },
}

/// The reply to a request for a page, as plain values.
pub enum PageReplyView {
    Unreachable,
    Answered { status: u16, link: Option<Seq<char>>, body: Option<Seq<UserView>> },
}

impl View for CredentialsReply {
    type V = CredentialsReplyView;

    open spec fn view(&self) -> CredentialsReplyView {
        match self {
            CredentialsReply::Unreachable => CredentialsReplyView::Unreachable,
            CredentialsReply::Answered { status, body } => CredentialsReplyView::Answered {
                status: *status,
                body: body.deep_view(),
            },
        }
    }
}

impl View for PageReply {
    type V = PageReplyView;

    open spec fn view(&self) -> PageReplyView {
        match self {
            PageReply::Unreachable => PageReplyView::Unreachable,
            PageReply::Answered { status, link, body } => PageReplyView::Answered {
                status: *status,
                link: link.deep_view(),
                body: body.deep_view(),
            },
        }
    }
}

/// Whether a status code reports success: 200 up to 299.
pub open spec fn success(status: u16) -> bool {
    200 <= status < 300
}

/// The value of the `Authorization` header for the key `api_key`.
pub open spec fn bearer_of(api_key: Seq<char>) -> Seq<char> {
    "Bearer "@ + api_key
}

/// The address at which `instance` tells whom a key belongs to.
pub open spec fn credentials_url(instance: Seq<char>) -> Seq<char> {
    instance + "/api/v1/accounts/verify_credentials"@
}

/// The address of the first page of the accounts that `user_id` follows.
pub open spec fn following_url(instance: Seq<char>, user_id: Seq<char>) -> Seq<char> {
    instance + "/api/v1/accounts/"@ + user_id + "/following"@
}

/// The account that a key belongs to, as the reply tells it: its
/// identifier where a response with a success status describes an account,
/// `ConnectionFailed` where the request did not get through or the status
/// is no success, `DecodeFailed` where the response describes no account.
pub open spec fn identity_of(reply: CredentialsReplyView) -> Result<Seq<char>, Error> {
    match reply {
        CredentialsReplyView::Unreachable => Err(Error::ConnectionFailed),
        CredentialsReplyView::Answered { status, body } => if !success(status) {
            Err(Error::ConnectionFailed)
        } else {
            match body {
                Some(user) => Ok(user.id),
                None => Err(Error::DecodeFailed),
            }
        },
    }
}

/// What an error tells the user.
pub open spec fn message_of(error: Error) -> Seq<char> {
    match error {
        Error::ConnectionFailed => "Failed to connect "@,
        Error::FetchFailed { status: None } => "Unable to fetch all followers"@,
        Error::FetchFailed { status: Some(_) } => "Invalid server response"@,
        Error::DecodeFailed => "Unable to read the server response"@,
    }
}

impl Error {
    /// What the error tells the user.
    pub fn message(&self) -> (text: String)
        ensures
            text@ == message_of(*self),
    {
        match self {
            Error::ConnectionFailed => String::from_str("Failed to connect "),
            Error::FetchFailed { status: None } => String::from_str(
                "Unable to fetch all followers",
            ),
            Error::FetchFailed { status: Some(_) } => String::from_str("Invalid server response"),
            Error::DecodeFailed => String::from_str("Unable to read the server response"),
        }
    }
}

/// Whether a status code reports success.
pub fn is_success(status: u16) -> (ok: bool)
    ensures
        ok == success(status),
{
    200 <= status && status < 300
}

/// The value of the `Authorization` header for the key `api_key`.
pub fn bearer(api_key: &str) -> (value: String)
    ensures
        value@ == bearer_of(api_key@),
{
    String::from_str("Bearer ").concat(api_key)
}

/// The request that asks `instance` whom `api_key` belongs to.
pub fn credentials_request(instance: &str, api_key: &str) -> (request: Request)
    ensures
        request@ == (RequestView {
            url: credentials_url(instance@),
            authorization: bearer_of(api_key@),
        }),
{
    Request {
        url: String::from_str(instance).concat("/api/v1/accounts/verify_credentials"),
        authorization: bearer(api_key),
    }
}

/// The identifier of the account that a key belongs to, from the reply to
/// the request for it.
pub fn identity(reply: CredentialsReply) -> (id: Result<String, Error>)
    ensures
        match id {
            Ok(text) => identity_of(reply@) == Ok::<Seq<char>, Error>(text@),
            Err(error) => identity_of(reply@) == Err::<Seq<char>, Error>(error),
        },
{
    match reply {
        CredentialsReply::Unreachable => Err(Error::ConnectionFailed),
        CredentialsReply::Answered { status, body } => {
            if !is_success(status) {
                Err(Error::ConnectionFailed)
            } else {
                match body {
                    Some(user) => Ok(user.id),
                    None => Err(Error::DecodeFailed),
                }
            }
        },
    }
}

/// A walk through the pages of the accounts that someone follows: the
/// request to send next, and the accounts that the pages brought so far.
#[derive(Debug)]
pub struct Fetch {
    authorization: String,
    url: String,
    users: Vec<User>,
}

/// A walk as plain values.
pub struct FetchView {
    pub authorization: Seq<char>,
    pub url: Seq<char>,
    pub users: Seq<UserView>,
}

impl View for Fetch {
    type V = FetchView;

    closed spec fn view(&self) -> FetchView {
        FetchView {
            authorization: self.authorization@,
            url: self.url@,
            users: self.users.deep_view(),
        }
    }
}

/// How a walk stands after a reply.
#[derive(Debug)]
pub enum Step {
    /// There is a further page: send the request of the walk.
    Continue(Fetch),
    /// The list is complete: these are its accounts.
    Done(Vec<User>),
    /// The walk is over, and nothing of what it had collected is kept.
    Failed(Error),
}

/// A step as plain values.
pub enum StepView {
    Continue(FetchView),
    Done(Seq<UserView>),
    Failed(Error),
}

impl View for Step {
    type V = StepView;

    open spec fn view(&self) -> StepView {
        match self {
            Step::Continue(fetch) => StepView::Continue(fetch@),
            Step::Done(users) => StepView::Done(users.deep_view()),
            Step::Failed(error) => StepView::Failed(*error),
        }
    }
}

/// The walk at its start: nothing collected, the first page to ask for.
pub open spec fn started(instance: Seq<char>, api_key: Seq<char>, user_id: Seq<char>) -> FetchView {
    FetchView {
        authorization: bearer_of(api_key),
        url: following_url(instance, user_id),
        users: Seq::empty(),
    }
}

/// The address of the page after the one that came with the header `link`,
/// if the header is there and names one.
pub open spec fn cursor_of(link: Option<Seq<char>>) -> Option<Seq<char>> {
    match link {
        Some(header) => next_cursor(header),
        None => None,
    }
}

/// How the walk `fetch` stands after `reply`.
///
/// It fails with `FetchFailed` where the request did not get through or the
/// status is no success, and with `DecodeFailed` where the response holds
/// no list of accounts. Otherwise the accounts of the page are added, in
/// their order, behind those collected before; the walk goes on at the
/// address that the `link` header names as next, and is done where the
/// header is missing or names none.
pub open spec fn advanced(fetch: FetchView, reply: PageReplyView) -> StepView {
    match reply {
        PageReplyView::Unreachable => StepView::Failed(Error::FetchFailed { status: None }),
        PageReplyView::Answered { status, link, body } => if !success(status) {
            StepView::Failed(Error::FetchFailed { status: Some(status) })
        } else {
            match body {
                None => StepView::Failed(Error::DecodeFailed),
                Some(page) => match cursor_of(link) {
                    Some(url) => StepView::Continue(
                        FetchView {
                            authorization: fetch.authorization,
                            url,
                            users: fetch.users + page,
                        },
                    ),
                    None => StepView::Done(fetch.users + page),
                },
            }
        },
    }
}

/// How the walk `fetch` ends when `replies` come back in this order, one
/// for each request: `None` where the walk still asks for a page after the
/// last of them. Replies behind the one that ends the walk are not looked
/// at.
pub open spec fn outcome(fetch: FetchView, replies: Seq<PageReplyView>) -> Option<
    Result<Seq<UserView>, Error>,
>
    decreases replies.len(),
{
    if replies.len() == 0 {
        None
    } else {
        match advanced(fetch, replies[0]) {
            StepView::Continue(next) => outcome(next, replies.drop_first()),
            StepView::Done(users) => Some(Ok(users)),
            StepView::Failed(error) => Some(Err(error)),
        }
    }
}

/// Whether `reply` is a page: a response with a success status that holds
/// a list of accounts.
pub open spec fn is_page(reply: PageReplyView) -> bool {
    &&& reply matches PageReplyView::Answered { status, body, .. }
    &&& success(status)
    &&& body is Some
}

/// Whether `reply` is a page that names a page after it.
pub open spec fn has_next(reply: PageReplyView) -> bool {
    &&& is_page(reply)
    &&& reply matches PageReplyView::Answered { link, .. }
    &&& cursor_of(link) is Some
}

/// The accounts of a page; none of a reply that is no page.
pub open spec fn accounts_of(reply: PageReplyView) -> Seq<UserView> {
    match reply {
        PageReplyView::Answered { body: Some(page), .. } => page,
        _ => Seq::empty(),
    }
}

/// The accounts of `replies`, page after page, each page in its own order.
pub open spec fn accounts_in(replies: Seq<PageReplyView>) -> Seq<UserView> {
    replies.map_values(|reply: PageReplyView| accounts_of(reply)).flatten()
}

/// The error that `reply` ends a walk with, if it does.
pub open spec fn failure_of(reply: PageReplyView) -> Option<Error> {
    match reply {
        PageReplyView::Unreachable => Some(Error::FetchFailed { status: None }),
        PageReplyView::Answered { status, body, .. } => if !success(status) {
            Some(Error::FetchFailed { status: Some(status) })
        } else if body is None {
            Some(Error::DecodeFailed)
        } else {
            None
        },
    }
}

/// A walk over pages of which each but the last names a next page, and the
/// last names none, ends with the accounts it had at its start followed by
/// those of all the pages, in the order of the pages and, within a page, in
/// the order of the page: nothing is dropped, doubled or moved.
pub proof fn lemma_pages_are_concatenated(fetch: FetchView, replies: Seq<PageReplyView>)
    requires
        replies.len() >= 1,
        forall|i: int| 0 <= i < replies.len() - 1 ==> has_next(#[trigger] replies[i]),
        is_page(replies.last()),
        !has_next(replies.last()),
    ensures
        outcome(fetch, replies) == Some(
            Ok::<Seq<UserView>, Error>(fetch.users + accounts_in(replies)),
        ),
    decreases replies.len(),
{
    let rest = replies.drop_first();
    let pages = replies.map_values(|reply: PageReplyView| accounts_of(reply));
    assert(pages.drop_first() == rest.map_values(|reply: PageReplyView| accounts_of(reply)));
    assert(accounts_in(replies) == accounts_of(replies[0]) + accounts_in(rest));
    if replies.len() == 1 {
        assert(replies[0] == replies.last());
        assert(accounts_in(rest) == Seq::<UserView>::empty());
    } else {
        assert(has_next(replies[0]));
        let next = advanced(fetch, replies[0])->Continue_0;
        assert(rest.last() == replies.last());
        assert forall|i: int| 0 <= i < rest.len() - 1 implies has_next(#[trigger] rest[i]) by {
            assert(rest[i] == replies[i + 1]);
        }
        lemma_pages_are_concatenated(next, rest);
        assert(next.users + accounts_in(rest) == fetch.users + accounts_in(replies));
    }
}

/// A walk that meets a reply which is no page ends with the error of that
/// reply, whatever the pages before it brought: a request that did not get
/// through or a status that is no success gives `FetchFailed`, a response
/// without a list of accounts gives `DecodeFailed`, and none of the
/// accounts collected before is handed out.
pub proof fn lemma_failure_ends_the_walk(fetch: FetchView, replies: Seq<PageReplyView>, at: int)
    requires
        0 <= at < replies.len(),
        forall|i: int| 0 <= i < at ==> has_next(#[trigger] replies[i]),
        failure_of(replies[at]) is Some,
    ensures
        outcome(fetch, replies) == Some(
            Err::<Seq<UserView>, Error>(failure_of(replies[at])->Some_0),
        ),
    decreases at,
{
    if at > 0 {
        assert(has_next(replies[0]));
        let next = advanced(fetch, replies[0])->Continue_0;
        let rest = replies.drop_first();
        assert(rest[at - 1] == replies[at]);
        assert forall|i: int| 0 <= i < at - 1 implies has_next(#[trigger] rest[i]) by {
            assert(rest[i] == replies[i + 1]);
        }
        lemma_failure_ends_the_walk(next, rest, at - 1);
    }
}

/// The view of two vectors of accounts, one behind the other.
proof fn lemma_users_joined(first: Vec<User>, second: Vec<User>, both: Vec<User>)
    requires
        both@ == first@ + second@,
    ensures
        both.deep_view() == first.deep_view() + second.deep_view(),
{
    let joined = first.deep_view() + second.deep_view();
    assert(both.deep_view().len() == joined.len());
    assert forall|i: int| 0 <= i < joined.len() implies both.deep_view()[i] == joined[i] by {
        if i < first@.len() {
            assert(both@[i] == first@[i]);
        } else {
            assert(both@[i] == second@[i - first@.len()]);
        }
    }
}

impl Fetch {
    /// The walk through the accounts that `user_id` follows on `instance`,
    /// at its start.
    pub fn start(instance: &str, api_key: &str, user_id: &str) -> (fetch: Fetch)
        ensures
            fetch@ == started(instance@, api_key@, user_id@),
    {
        let url = String::from_str(instance).concat("/api/v1/accounts/").concat(user_id).concat(
            "/following",
        );
        let fetch = Fetch { authorization: bearer(api_key), url, users: Vec::new() };
        assert(fetch.users.deep_view() == Seq::<UserView>::empty());
        fetch
    }

    /// The request to send next.
    pub fn request(&self) -> (request: Request)
        ensures
            request@ == (RequestView { url: self@.url, authorization: self@.authorization }),
    {
        Request { url: self.url.clone(), authorization: self.authorization.clone() }
    }

    /// How the walk stands after `reply`, the reply to its request.
    pub fn advance(self, reply: PageReply) -> (step: Step)
        ensures
            step@ == advanced(self@, reply@),
    {
        match reply {
            PageReply::Unreachable => Step::Failed(Error::FetchFailed { status: None }),
            PageReply::Answered { status, link, body } => {
                if !is_success(status) {
                    return Step::Failed(Error::FetchFailed { status: Some(status) });
                }
                let mut page = match body {
                    Some(page) => page,
                    None => {
                        return Step::Failed(Error::DecodeFailed);
                    },
                };
                let mut users = self.users;
                let ghost before = users;
                let ghost added = page;
                users.append(&mut page);
                proof {
                    lemma_users_joined(before, added, users);
                }
                let next = match link {
                    Some(header) => get_next_page(header),
                    None => None,
                };
                match next {
                    Some(url) => Step::Continue(
                        Fetch { authorization: self.authorization, url, users },
                    ),
                    None => Step::Done(users),
                }
            },
        }
    }
}

} // verus!
