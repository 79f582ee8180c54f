//! The scheduler daemon's decisions: who may call the API, what each
//! request leads to, how long the worker sleeps and when accounts are
//! reloaded. The HTTP server, the store and the queue are driven by the
//! caller.

use crate::postkit::model::ProviderKind;
use crate::postkit::setup::{FileAccountsRepository, FileAppsRepository};
use crate::text::{chars_of, concat, dec, decimal, push_chars, push_str, str_eq, string_of};
use vstd::prelude::*;

verus! {

/// An API error: HTTP status and message.
#[derive(Debug, PartialEq, Eq)]
pub struct ApiError {
    pub status: u16,
    pub message: String,
}

/// Whether a request may go through: always when no key is configured;
/// otherwise the `X-Api-Key` header (empty when absent) must equal it.
pub open spec fn authorized(expected: Option<Seq<char>>, provided: Option<Seq<char>>) -> bool {
    match expected {
        None => true,
        Some(k) => match provided {
            Some(p) => p == k,
            None => k.len() == 0,
        },
    }
}

/// The characters of an optional header value.
pub open spec fn header_view(p: Option<&str>) -> Option<Seq<char>> {
    match p {
        Some(v) => Some(v@),
        None => None,
    }
}

/// Checks a request's API key (see [`authorized`]); a refusal is 401.
pub fn authorize(expected: &Option<String>, provided: Option<&str>) -> (r: Result<(), ApiError>)
    ensures
        (r is Ok) == authorized(crate::postkit::model::opt_view(*expected), header_view(provided)),
        r matches Err(e) ==> e.status == 401 && e.message@ == "invalid or missing API key"@,
{
    match expected {
        None => {
            assert(crate::postkit::model::opt_view(*expected) is None);
            Ok(())
        },
        Some(k) => {
            let p = match provided {
                Some(p) => p,
                None => "",
            };
            proof {
                reveal_strlit("");
                if provided is None && k@.len() == 0 {
                    assert(k@ =~= ""@);
                }
            }
            if str_eq(p, k.as_str()) {
                Ok(())
            } else {
                Err(ApiError { status: 401, message: "invalid or missing API key".to_owned() })
            }
        },
    }
}

/// The name stored with a scheduled post for its platform: the variant's
/// name in lower case.
pub open spec fn provider_label_of(k: ProviderKind) -> Seq<char> {
    match k {
        ProviderKind::Bluesky => "bluesky"@,
        ProviderKind::X => "x"@,
        ProviderKind::MetaPage => "metapage"@,
        ProviderKind::MetaInstagram => "metainstagram"@,
        ProviderKind::YouTube => "youtube"@,
        ProviderKind::TikTok => "tiktok"@,
    }
}

/// The platform name stored with a scheduled post (see
/// [`provider_label_of`]).
pub fn provider_label(k: ProviderKind) -> (r: &'static str)
    ensures
        r@ == provider_label_of(k),
{
    match k {
        ProviderKind::Bluesky => "bluesky",
        ProviderKind::X => "x",
        ProviderKind::MetaPage => "metapage",
        ProviderKind::MetaInstagram => "metainstagram",
        ProviderKind::YouTube => "youtube",
        ProviderKind::TikTok => "tiktok",
    }
}

/// What a schedule request does.
#[derive(Debug, PartialEq, Eq)]
pub enum ScheduleAction {
    /// Store the post as pending for `at` (Unix seconds) and queue it.
    Schedule { provider: String, at: i64 },
    /// Store the post as a draft.
    Draft { provider: String },
}

/// Index of the first provider for `account`.
pub open spec fn provider_index(providers: Seq<(String, ProviderKind)>, account: Seq<char>, i: int) -> bool {
    &&& 0 <= i < providers.len()
    &&& providers[i].0@ == account
    &&& forall|j: int| 0 <= j < i ==> (#[trigger] providers[j]).0@ != account
}

/// What a schedule request for `account_id` does: an unknown account is
/// 400; with a time the post is scheduled, without one it is a draft.
pub fn schedule_request(
    providers: &Vec<(String, ProviderKind)>,
    account_id: &str,
    scheduled_at: Option<i64>,
) -> (r: Result<ScheduleAction, ApiError>)
    ensures
        match r {
            Ok(a) => exists|i: int| provider_index(providers@, account_id@, i) && match a {
                ScheduleAction::Schedule { provider, at } => scheduled_at == Some(at)
                    && provider@ == provider_label_of(providers@[i].1),
                ScheduleAction::Draft { provider } => scheduled_at is None && provider@
                    == provider_label_of(providers@[i].1),
            },
            Err(e) => (forall|j: int| 0 <= j < providers@.len() ==> (#[trigger] providers@[j]).0@ != account_id@)
                && e.status == 400 && e.message@ == "unknown account: "@ + account_id@,
        },
{
    let mut i: usize = 0;
    while i < providers.len()
        invariant
            i <= providers@.len(),
            forall|j: int| 0 <= j < i ==> (#[trigger] providers@[j]).0@ != account_id@,
        decreases providers@.len() - i,
    {
        if str_eq(providers[i].0.as_str(), account_id) {
            let provider = provider_label(providers[i].1).to_owned();
            assert(provider_index(providers@, account_id@, i as int));
            return match scheduled_at {
                Some(at) => Ok(ScheduleAction::Schedule { provider, at }),
                None => Ok(ScheduleAction::Draft { provider }),
            };
        }
        i = i + 1;
    }
    Err(ApiError { status: 400, message: concat("unknown account: ", account_id) })
}

/// `post <id> ` followed by `rest`.
fn post_message(id: i64, rest: &str) -> (m: String)
    ensures
        m@ == "post "@ + signed_dec(id) + rest@,
{
    let mut v = chars_of("post ");
    let d = signed_decimal(id);
    push_chars(&mut v, d.as_slice());
    push_str(&mut v, rest);
    string_of(v.as_slice())
}

/// A signed number in decimal.
pub open spec fn signed_dec(n: i64) -> Seq<char> {
    if n < 0 {
        "-"@ + dec((-(n as int)) as nat)
    } else {
        dec(n as nat)
    }
}

fn signed_decimal(n: i64) -> (r: Vec<char>)
    ensures
        r@ == signed_dec(n),
{
    if n < 0 {
        let m: u64 = if n == i64::MIN {
            0x8000_0000_0000_0000
        } else {
            (-n) as u64
        };
        let mut v = chars_of("-");
        let d = decimal(m);
        push_chars(&mut v, d.as_slice());
        v
    } else {
        decimal(n as u64)
    }
}

/// A lookup by id: 404 when the post does not exist.
pub fn get_outcome(id: i64, found: bool) -> (r: Result<(), ApiError>)
    ensures
        r is Ok <==> found,
        r matches Err(e) ==> e.status == 404 && e.message@ == "post "@ + signed_dec(id) + " not found"@,
{
    if found {
        Ok(())
    } else {
        Err(ApiError { status: 404, message: post_message(id, " not found") })
    }
}

/// A cancellation: 204 when a pending post was cancelled (then it leaves
/// the queue), else 404.
pub fn cancel_outcome(id: i64, cancelled: bool) -> (r: Result<u16, ApiError>)
    ensures
        cancelled ==> r == Ok::<u16, ApiError>(204),
        !cancelled ==> (r matches Err(e) && e.status == 404 && e.message@ == "post "@ + signed_dec(id)
            + " not found or not in pending state"@),
{
    if cancelled {
        Ok(204)
    } else {
        Err(ApiError { status: 404, message: post_message(id, " not found or not in pending state") })
    }
}

/// An update request needs a new post or a new time; else 422.
pub fn update_request(has_source_post: bool, has_scheduled_at: bool) -> (r: Result<(), ApiError>)
    ensures
        r is Ok <==> (has_source_post || has_scheduled_at),
        r matches Err(e) ==> e.status == 422 && e.message@ == "nothing to update"@,
{
    if !has_source_post && !has_scheduled_at {
        Err(ApiError { status: 422, message: "nothing to update".to_owned() })
    } else {
        Ok(())
    }
}

/// An update: 204 when a pending or draft post was updated (then a new
/// time re-queues it), else 404.
pub fn update_outcome(id: i64, updated: bool) -> (r: Result<u16, ApiError>)
    ensures
        updated ==> r == Ok::<u16, ApiError>(204),
        !updated ==> (r matches Err(e) && e.status == 404 && e.message@ == "post "@ + signed_dec(id)
            + " not found or not in pending state"@),
{
    if updated {
        Ok(204)
    } else {
        Err(ApiError { status: 404, message: post_message(id, " not found or not in pending state") })
    }
}

/// A retry: 204 when a failed post was reset (then it is queued for now),
/// else 404.
pub fn retry_outcome(id: i64, reset: bool) -> (r: Result<u16, ApiError>)
    ensures
        reset ==> r == Ok::<u16, ApiError>(204),
        !reset ==> (r matches Err(e) && e.status == 404 && e.message@ == "post "@ + signed_dec(id)
            + " not found or not in failed state"@),
{
    if reset {
        Ok(204)
    } else {
        Err(ApiError { status: 404, message: post_message(id, " not found or not in failed state") })
    }
}

// ─── Worker and watcher ──────────────────────────────────────────────────────

/// Posts the worker takes from the queue per round.
pub const WORKER_BATCH: usize = 10;

/// How long the worker sleeps: until the next queued post, but never more
/// than the poll interval; the poll interval when nothing is queued or the
/// queue cannot say.
pub fn worker_sleep_secs(next_due: Option<u64>, poll_secs: u64) -> (s: u64)
    ensures
        s == match next_due {
            Some(d) => if d < poll_secs {
                d
            } else {
                poll_secs
            },
            None => poll_secs,
        },
{
    match next_due {
        Some(d) => if d < poll_secs {
            d
        } else {
            poll_secs
        },
        None => poll_secs,
    }
}

/// Whether the watcher reloads the accounts, given the files' current
/// modification times. The accounts file is only looked at when the apps
/// file is unchanged.
pub fn accounts_changed(
    apps: &mut FileAppsRepository,
    accounts: &mut FileAccountsRepository,
    apps_mtime: Option<(u64, u32)>,
    accounts_mtime: Option<(u64, u32)>,
) -> (r: bool)
    ensures
        final(apps).last_seen() == apps_mtime,
        final(apps).path() == old(apps).path(),
        final(accounts).path() == old(accounts).path(),
        old(apps).last_seen() != apps_mtime ==> r && final(accounts).last_seen() == old(accounts).last_seen(),
        old(apps).last_seen() == apps_mtime ==> r == (old(accounts).last_seen() != accounts_mtime)
            && final(accounts).last_seen() == accounts_mtime,
{
    if apps.has_changed(apps_mtime) {
        return true;
    }
    accounts.has_changed(accounts_mtime)
}

} // verus!
