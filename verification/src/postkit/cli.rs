//! The `postkit` command line: its settings, the providers it builds, and
//! how target accounts and the daemon are chosen.

use crate::postkit::bluesky::Bluesky;
use crate::postkit::model::{opt_view, strs_view};
use crate::postkit::providers::X;
use crate::postkit::setup::join_path;
use crate::text::{chars_of, concat, has_prefix, push_str, slice_chars, str_eq, str_starts_with, string_of};
use vstd::prelude::*;

verus! {

/// One account of the command line's settings.
#[derive(Debug)]
pub enum AccountConfig {
    Bluesky { handle: String, app_password: String },
    X { api_key: String, api_secret: String, access_token: String, access_token_secret: String },
    FacebookPage { page_id: String, page_access_token: String },
    Instagram { ig_user_id: String, access_token: String },
}

/// The command line's settings file.
#[derive(Debug)]
pub struct Config {
    pub accounts: Vec<(String, AccountConfig)>,
    /// Base URL of the daemon for `schedule`.
    pub daemon_url: Option<String>,
    /// API key of the daemon.
    pub daemon_api_key: Option<String>,
}

/// A provider the command line can use.
#[derive(Debug)]
pub enum CliProvider {
    Bluesky(Bluesky),
    X(X),
}

/// A provider as plain data.
pub enum CliProviderView {
    Bluesky { id: Seq<char>, handle: Seq<char>, app_password: Seq<char> },
    X { id: Seq<char>, api_key: Seq<char>, api_secret: Seq<char>, token: Seq<char>, token_secret: Seq<char> },
}

pub open spec fn cli_provider_view(p: CliProvider) -> CliProviderView {
    match p {
        CliProvider::Bluesky(b) => CliProviderView::Bluesky { id: b.account_id@, handle: b.handle@, app_password: b.app_password@ },
        CliProvider::X(x) => CliProviderView::X {
            id: x.account_id@,
            api_key: x.api_key@,
            api_secret: x.api_secret@,
            token: x.access_token@,
            token_secret: x.access_token_secret@,
        },
    }
}

/// The providers the command line builds: one per Bluesky or X account, in
/// order, from the account's credentials; Facebook and Instagram accounts
/// are left to the daemon.
pub open spec fn cli_providers_for(accounts: Seq<(String, AccountConfig)>) -> Seq<(Seq<char>, CliProviderView)>
    decreases accounts.len(),
{
    if accounts.len() == 0 {
        Seq::empty()
    } else {
        let rest = cli_providers_for(accounts.drop_last());
        let id = accounts.last().0@;
        match accounts.last().1 {
            AccountConfig::Bluesky { handle, app_password } => rest.push(
                (id, CliProviderView::Bluesky { id, handle: handle@, app_password: app_password@ }),
            ),
            AccountConfig::X { api_key, api_secret, access_token, access_token_secret } => rest.push(
                (
                    id,
                    CliProviderView::X {
                        id,
                        api_key: api_key@,
                        api_secret: api_secret@,
                        token: access_token@,
                        token_secret: access_token_secret@,
                    },
                ),
            ),
            _ => rest,
        }
    }
}

pub open spec fn cli_list_view(v: Seq<(String, CliProvider)>) -> Seq<(Seq<char>, CliProviderView)> {
    v.map_values(|p: (String, CliProvider)| (p.0@, cli_provider_view(p.1)))
}

/// The providers for the settings' accounts (see [`cli_providers_for`]).
pub fn build_providers(cfg: &Config) -> (r: Vec<(String, CliProvider)>)
    ensures
        cli_list_view(r@) == cli_providers_for(cfg.accounts@),
{
    let accs = &cfg.accounts;
    let mut out: Vec<(String, CliProvider)> = Vec::new();
    assert(cli_list_view(out@) =~= Seq::<(Seq<char>, CliProviderView)>::empty());
    let mut i: usize = 0;
    while i < accs.len()
        invariant
            accs == &cfg.accounts,
            i <= accs@.len(),
            cli_list_view(out@) == cli_providers_for(accs@.subrange(0, i as int)),
        decreases accs@.len() - i,
    {
        let ghost pre = accs@.subrange(0, i + 1);
        assert(pre.drop_last() =~= accs@.subrange(0, i as int));
        assert(pre.last() == accs@[i as int]);
        let id = &accs[i].0;
        let ghost before = out@;
        match &accs[i].1 {
            AccountConfig::Bluesky { handle, app_password } => {
                let p = CliProvider::Bluesky(Bluesky::new(id.clone(), handle.clone(), app_password.clone()));
                out.push((id.clone(), p));
                assert(cli_list_view(out@) =~= cli_list_view(before).push(
                    (id@, cli_provider_view(out@.last().1)),
                ));
            },
            AccountConfig::X { api_key, api_secret, access_token, access_token_secret } => {
                let p = CliProvider::X(
                    X::new(
                        id.clone(),
                        api_key.clone(),
                        api_secret.clone(),
                        access_token.clone(),
                        access_token_secret.clone(),
                    ),
                );
                out.push((id.clone(), p));
                assert(cli_list_view(out@) =~= cli_list_view(before).push(
                    (id@, cli_provider_view(out@.last().1)),
                ));
            },
            _ => {},
        }
        i = i + 1;
    }
    assert(accs@.subrange(0, i as int) =~= accs@);
    out
}

/// A `~/` path expanded against `HOME` when it is known; any other path
/// unchanged.
pub open spec fn expand_tilde_for(s: Seq<char>, home: Option<Seq<char>>) -> Seq<char> {
    if has_prefix(s, "~/"@) && home is Some {
        join_path(home.unwrap(), s.skip(2))
    } else {
        s
    }
}

/// The settings path with a leading `~/` expanded (see
/// [`expand_tilde_for`]).
pub fn expand_tilde(s: &str, home: Option<String>) -> (p: String)
    ensures
        p@ == expand_tilde_for(s@, opt_view(home)),
{
    proof {
        reveal_strlit("~/");
    }
    if str_starts_with(s, "~/") {
        match home {
            Some(h) => {
                let cs = chars_of(s);
                let n = cs.len();
                let rest = string_of(slice_chars(cs.as_slice(), 2, n).as_slice());
                assert(rest@ =~= s@.skip(2));
                let mut v = chars_of(h.as_str());
                if v.len() > 0 && v[v.len() - 1] != '/' {
                    push_str(&mut v, "/");
                }
                push_str(&mut v, rest.as_str());
                return string_of(v.as_slice());
            },
            None => {},
        }
    }
    s.to_owned()
}

/// The first target that names no known account.
pub open spec fn first_unknown(known: Seq<Seq<char>>, targets: Seq<Seq<char>>, i: int) -> bool {
    &&& 0 <= i < targets.len()
    &&& !known.contains(targets[i])
    &&& forall|j: int| 0 <= j < i ==> known.contains(#[trigger] targets[j])
}

fn is_known(known: &Vec<String>, t: &str) -> (r: bool)
    ensures
        r == strs_view(known@).contains(t@),
{
    let mut i: usize = 0;
    while i < known.len()
        invariant
            i <= known@.len(),
            forall|j: int| 0 <= j < i ==> known@[j]@ != t@,
        decreases known@.len() - i,
    {
        if str_eq(known[i].as_str(), t) {
            assert(strs_view(known@)[i as int] == t@);
            return true;
        }
        i = i + 1;
    }
    proof {
        if strs_view(known@).contains(t@) {
            let j = choose|j: int| 0 <= j < strs_view(known@).len() && strs_view(known@)[j] == t@;
            assert(known@[j]@ == t@);
        }
    }
    false
}

/// The accounts to act on: every known account when no target is given;
/// else the targets, as given, when all are known; else the first unknown
/// one is the error.
pub fn resolve_targets(known: &Vec<String>, targets: &Vec<String>) -> (r: Result<Vec<String>, String>)
    ensures
        targets@.len() == 0 ==> r is Ok && strs_view(r.unwrap()@) == strs_view(known@),
        targets@.len() > 0 ==> match r {
            Ok(v) => strs_view(v@) == strs_view(targets@) && forall|j: int|
                0 <= j < targets@.len() ==> strs_view(known@).contains(#[trigger] targets@[j]@),
            Err(t) => exists|i: int| first_unknown(strs_view(known@), strs_view(targets@), i)
                && t@ == targets@[i]@,
        },
{
    let mut out: Vec<String> = Vec::new();
    if targets.len() == 0 {
        let mut i: usize = 0;
        while i < known.len()
            invariant
                i <= known@.len(),
                out@.len() == i,
                forall|j: int| 0 <= j < i ==> out@[j]@ == known@[j]@,
            decreases known@.len() - i,
        {
            out.push(known[i].clone());
            i = i + 1;
        }
        assert(strs_view(out@) =~= strs_view(known@));
        return Ok(out);
    }
    let mut i: usize = 0;
    while i < targets.len()
        invariant
            targets@.len() > 0,
            i <= targets@.len(),
            out@.len() == i,
            forall|j: int| 0 <= j < i ==> out@[j]@ == targets@[j]@,
            forall|j: int| 0 <= j < i ==> strs_view(known@).contains(#[trigger] targets@[j]@),
        decreases targets@.len() - i,
    {
        if !is_known(known, targets[i].as_str()) {
            proof {
                assert forall|j: int| 0 <= j < i implies strs_view(known@).contains(
                    #[trigger] strs_view(targets@)[j],
                ) by {
                    assert(strs_view(targets@)[j] == targets@[j]@);
                }
                assert(first_unknown(strs_view(known@), strs_view(targets@), i as int));
            }
            return Err(targets[i].clone());
        }
        out.push(targets[i].clone());
        i = i + 1;
    }
    assert(strs_view(out@) =~= strs_view(targets@));
    Ok(out)
}

/// The message for an unknown target.
pub fn unknown_account_message(t: &str) -> (m: String)
    ensures
        m@ == "unknown account: "@ + t@,
{
    concat("unknown account: ", t)
}

/// The instant an RFC 3339 date denotes, as `chrono::DateTime::
/// parse_from_rfc3339` reads it: Unix seconds and the nanoseconds within
/// the second; `None` when the text is not an RFC 3339 date.
pub uninterp spec fn rfc3339_instant(s: Seq<char>) -> Option<(i64, u32)>;

/// `chrono::DateTime::parse_from_rfc3339(s)`, taken as its Unix seconds
/// (`timestamp`) and nanoseconds (`timestamp_subsec_nanos`).
#[verifier::external_body]
fn parse_rfc3339(s: &str) -> (r: Option<(i64, u32)>)
    ensures
        r == rfc3339_instant(s@),
{
    chrono::DateTime::parse_from_rfc3339(s).ok().map(|t| (t.timestamp(), t.timestamp_subsec_nanos()))
}

/// The publication time given on the command line, from what the date
/// parser made of it: the instant, or the error `invalid date: <text>`.
pub open spec fn schedule_time_for(at: Seq<char>, parsed: Option<(i64, u32)>) -> Result<(i64, u32), Seq<char>> {
    match parsed {
        Some(t) => Ok(t),
        None => Err("invalid date: "@ + at),
    }
}

/// The publication time for a parsed date (see [`schedule_time_for`]).
pub fn schedule_time_from(at: &str, parsed: Option<(i64, u32)>) -> (r: Result<(i64, u32), String>)
    ensures
        match schedule_time_for(at@, parsed) {
            Ok(t) => r == Ok::<(i64, u32), String>(t),
            Err(m) => r matches Err(e) && e@ == m,
        },
{
    match parsed {
        Some(t) => Ok(t),
        None => Err(concat("invalid date: ", at)),
    }
}

/// The publication time given on the command line (see
/// [`schedule_time_for`]), read as an RFC 3339 date.
pub fn schedule_time(at: &str) -> (r: Result<(i64, u32), String>)
    ensures
        match schedule_time_for(at@, rfc3339_instant(at@)) {
            Ok(t) => r == Ok::<(i64, u32), String>(t),
            Err(m) => r matches Err(e) && e@ == m,
        },
{
    let parsed = parse_rfc3339(at);
    schedule_time_from(at, parsed)
}

/// The daemon to schedule with: the command-line value, else the settings'
/// value, else `http://localhost:8080`.
pub fn daemon_url(flag: Option<String>, configured: &Option<String>) -> (u: String)
    ensures
        u@ == match flag {
            Some(f) => f@,
            None => match configured {
                Some(c) => c@,
                None => "http://localhost:8080"@,
            },
        },
{
    match flag {
        Some(f) => f,
        None => match configured {
            Some(c) => c.clone(),
            None => "http://localhost:8080".to_owned(),
        },
    }
}

/// The daemon's API key: the command-line value, else the settings' value.
pub fn daemon_api_key(flag: Option<String>, configured: &Option<String>) -> (k: Option<String>)
    ensures
        opt_view(k) == match flag {
            Some(f) => Some(f@),
            None => opt_view(*configured),
        },
{
    match flag {
        Some(f) => Some(f),
        None => match configured {
            Some(c) => Some(c.clone()),
            None => None,
        },
    }
}

/// The schedule endpoint of a daemon.
pub fn schedule_url(daemon: &str) -> (u: String)
    ensures
        u@ == daemon@ + "/schedule"@,
{
    concat(daemon, "/schedule")
}

} // verus!
