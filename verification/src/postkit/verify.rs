//! The account a platform reports when credentials are checked, from the
//! fields of its reply.

use crate::postkit::model::{opt_view, AccountInfo, ProviderKind};
use crate::text::concat;
use vstd::prelude::*;

verus! {

/// The fields of a Graph API reply that credential checks read: the
/// `error` member (as JSON text) when present, `name` and `username` when
/// they are strings, and the whole reply as text.
#[derive(Debug)]
pub struct GraphReply {
    pub error: Option<String>,
    pub name: Option<String>,
    pub username: Option<String>,
    pub raw: String,
}

/// An account as plain data: id, platform, handle, display name.
pub type AccountView = (Seq<char>, ProviderKind, Seq<char>, Option<Seq<char>>);

pub open spec fn account_view(a: AccountInfo) -> AccountView {
    (a.id@, a.provider, a.handle@, opt_view(a.display_name))
}

/// An X account from `verify_credentials`: the screen name as handle and
/// the name as display name.
pub fn x_account(account_id: &str, screen_name: String, name: String) -> (a: AccountInfo)
    ensures
        account_view(a) == (account_id@, ProviderKind::X, screen_name@, Some(name@)),
{
    AccountInfo { id: account_id.to_owned(), provider: ProviderKind::X, handle: screen_name, display_name: Some(name) }
}

/// A Bluesky account from its session: the session's handle, no display
/// name.
pub fn bluesky_account(account_id: &str, handle: String) -> (a: AccountInfo)
    ensures
        account_view(a) == (account_id@, ProviderKind::Bluesky, handle@, None::<Seq<char>>),
{
    AccountInfo { id: account_id.to_owned(), provider: ProviderKind::Bluesky, handle, display_name: None }
}

fn meta_error(e: &str) -> (m: String)
    ensures
        m@ == "Meta API error: "@ + e@,
{
    concat("Meta API error: ", e)
}

fn unexpected(raw: &str) -> (m: String)
    ensures
        m@ == "respuesta inesperada: "@ + raw@,
{
    concat("respuesta inesperada: ", raw)
}

/// A Facebook Page from its Graph reply: an `error` member is reported; a
/// reply without `name` is unexpected; the handle is the username, else
/// the page id.
pub fn facebook_account(account_id: &str, page_id: &str, reply: &GraphReply) -> (r: Result<AccountInfo, String>)
    ensures
        match r {
            Ok(a) => reply.error is None && reply.name is Some && account_view(a) == (
                account_id@,
                ProviderKind::MetaPage,
                match reply.username {
                    Some(u) => u@,
                    None => page_id@,
                },
                Some(reply.name.unwrap()@),
            ),
            Err(m) => match reply.error {
                Some(e) => m@ == "Meta API error: "@ + e@,
                None => reply.name is None && m@ == "respuesta inesperada: "@ + reply.raw@,
            },
        },
{
    if let Some(e) = &reply.error {
        return Err(meta_error(e.as_str()));
    }
    match &reply.name {
        None => Err(unexpected(reply.raw.as_str())),
        Some(n) => {
            let handle = match &reply.username {
                Some(u) => u.clone(),
                None => page_id.to_owned(),
            };
            Ok(AccountInfo { id: account_id.to_owned(), provider: ProviderKind::MetaPage, handle, display_name: Some(n.clone()) })
        },
    }
}

/// An Instagram account from its Graph reply: an `error` member is
/// reported; the handle is the username, else the name, else the reply is
/// unexpected; the display name is the name.
pub fn instagram_account(account_id: &str, reply: &GraphReply) -> (r: Result<AccountInfo, String>)
    ensures
        match r {
            Ok(a) => reply.error is None && (reply.username is Some || reply.name is Some) && account_view(a) == (
                account_id@,
                ProviderKind::MetaInstagram,
                match reply.username {
                    Some(u) => u@,
                    None => reply.name.unwrap()@,
                },
                opt_view(reply.name),
            ),
            Err(m) => match reply.error {
                Some(e) => m@ == "Meta API error: "@ + e@,
                None => reply.username is None && reply.name is None && m@ == "respuesta inesperada: "@ + reply.raw@,
            },
        },
{
    if let Some(e) = &reply.error {
        return Err(meta_error(e.as_str()));
    }
    let handle = match &reply.username {
        Some(u) => u.clone(),
        None => match &reply.name {
            Some(n) => n.clone(),
            None => return Err(unexpected(reply.raw.as_str())),
        },
    };
    let display_name = match &reply.name {
        Some(n) => Some(n.clone()),
        None => None,
    };
    Ok(AccountInfo { id: account_id.to_owned(), provider: ProviderKind::MetaInstagram, handle, display_name })
}

} // verus!
