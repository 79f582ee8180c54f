//! The scheduler daemon's settings and the wiring of configured accounts to
//! providers: credentials, stored tokens and where configuration is looked
//! for.

use crate::lines::{split_char, split_on};
use crate::postkit::bluesky::Bluesky;
use crate::postkit::providers::{FacebookPage, Instagram, X};
use crate::postkit::clock::unix_now;
use crate::text::{chars_of, push_str, str_eq, string_of};
use vstd::prelude::*;

verus! {

// ─── Daemon settings ─────────────────────────────────────────────────────────

/// Where apps and accounts are read from.
#[derive(Debug)]
pub enum SourceConfig {
    File { path: String },
}

/// The daemon's settings file.
#[derive(Debug)]
pub struct DaemonConfig {
    pub db_path: String,
    pub listen: String,
    pub poll_interval_secs: u64,
    pub accounts_config: String,
    pub max_attempts: u32,
    pub retry_delay_secs: u64,
    /// `None` disables authentication.
    pub api_key: Option<String>,
    /// `None` (or an unreachable server) means the in-process queue.
    pub redis_url: Option<String>,
}

/// Seconds between queue polls when the settings do not say.
pub fn default_poll() -> (r: u64)
    ensures
        r == 30,
{
    30
}

/// Publishing attempts per post when the settings do not say.
pub fn default_max_attempts() -> (r: u32)
    ensures
        r == 3,
{
    3
}

/// Base retry delay in seconds when the settings do not say.
pub fn default_retry_delay() -> (r: u64)
    ensures
        r == 60,
{
    60
}

impl DaemonConfig {
    /// The apps and accounts both live in the accounts file.
    pub fn accounts_source(&self) -> (s: SourceConfig)
        ensures
            s == (SourceConfig::File { path: self.accounts_config }),
    {
        SourceConfig::File { path: self.accounts_config.clone() }
    }
}

// ─── Apps and accounts ───────────────────────────────────────────────────────

/// App credentials, shared by the accounts of one provider.
#[derive(Debug)]
pub enum AppConfig {
    X { api_key: String, api_secret: String },
    /// Meta app id and secret; both are needed to rotate user tokens.
    Meta { app_id: Option<String>, app_secret: Option<String> },
}

/// One account's credentials; `app` names an entry of the apps table.
#[derive(Debug)]
pub enum AccountConfig {
    Bluesky { handle: String, app_password: String },
    X { app: String, access_token: String, access_token_secret: String },
    FacebookPage { app: String, page_id: String, page_access_token: String },
    Instagram { app: String, ig_user_id: String, access_token: String },
}

/// Index of the first app named `name`.
pub open spec fn app_index(apps: Seq<(String, AppConfig)>, name: Seq<char>) -> Option<int>
    decreases apps.len(),
{
    if apps.len() == 0 {
        None
    } else {
        match app_index(apps.drop_last(), name) {
            Some(i) => Some(i),
            None => if apps.last().0@ == name {
                Some(apps.len() - 1)
            } else {
                None
            },
        }
    }
}

proof fn lemma_app_index(apps: Seq<(String, AppConfig)>, name: Seq<char>, k: int)
    requires
        0 <= k <= apps.len(),
        forall|j: int| 0 <= j < k ==> apps[j].0@ != name,
        k == apps.len() || apps[k].0@ == name,
    ensures
        app_index(apps, name) == (if k < apps.len() {
            Some(k)
        } else {
            None::<int>
        }),
    decreases apps.len(),
{
    if apps.len() > 0 {
        if k < apps.len() - 1 {
            lemma_app_index(apps.drop_last(), name, k);
        } else {
            lemma_app_index(apps.drop_last(), name, apps.len() - 1);
        }
    }
}

fn find_app(apps: &Vec<(String, AppConfig)>, name: &str) -> (r: Option<usize>)
    ensures
        match r {
            Some(i) => app_index(apps@, name@) == Some(i as int) && i < apps@.len(),
            None => app_index(apps@, name@) is None,
        },
{
    let mut i: usize = 0;
    while i < apps.len() && !str_eq(apps[i].0.as_str(), name)
        invariant
            i <= apps@.len(),
            forall|j: int| 0 <= j < i ==> apps@[j].0@ != name@,
        decreases apps@.len() - i,
    {
        i = i + 1;
    }
    proof {
        lemma_app_index(apps@, name@, i as int);
    }
    if i < apps.len() {
        Some(i)
    } else {
        None
    }
}

/// Why the providers could not be built.
#[derive(Debug, PartialEq, Eq)]
pub enum BuildError {
    /// An X account names an app that is not configured.
    AppNotFound { app: String },
    /// An X account names an app of another provider.
    AppNotX { app: String },
}

impl BuildError {
    /// The error as the daemon reports it.
    pub fn message(&self) -> (m: String)
        ensures
            m@ == match self {
                BuildError::AppNotFound { app } => "app '"@ + app@ + "' not found"@,
                BuildError::AppNotX { app } => "app '"@ + app@ + "' is not of type x"@,
            },
    {
        match self {
            BuildError::AppNotFound { app } => {
                let mut v = chars_of("app '");
                push_str(&mut v, app.as_str());
                push_str(&mut v, "' not found");
                string_of(v.as_slice())
            },
            BuildError::AppNotX { app } => {
                let mut v = chars_of("app '");
                push_str(&mut v, app.as_str());
                push_str(&mut v, "' is not of type x");
                string_of(v.as_slice())
            },
        }
    }
}

/// A stored token expiring within this many seconds is refreshed at start.
pub const REFRESH_THRESHOLD_SECS: i64 = 604_800;

/// Whether a stored token is used, and whether it is fresh: an expired
/// token (expiry at or before `now`) is not used; one with no known expiry
/// is used and treated as stale; otherwise it is fresh when it expires more
/// than seven days after `now`.
pub open spec fn stored_token_for(token: Seq<char>, expires_at: Option<i64>, now: i64) -> Option<
    (Seq<char>, bool),
> {
    match expires_at {
        Some(exp) => if exp <= now {
            None
        } else {
            Some((token, exp > now + 604_800))
        },
        None => Some((token, false)),
    }
}

/// The usable stored token of an account, with its freshness (see
/// [`stored_token_for`]).
pub fn stored_token(access_token: String, expires_at: Option<i64>, now: i64) -> (r: Option<(String, bool)>)
    requires
        now + 604_800 <= i64::MAX,
    ensures
        match r {
            Some((t, f)) => stored_token_for(access_token@, expires_at, now) == Some((t@, f)),
            None => stored_token_for(access_token@, expires_at, now) is None,
        },
{
    match expires_at {
        Some(exp) => if exp <= now {
            None
        } else {
            Some((access_token, exp > now + REFRESH_THRESHOLD_SECS))
        },
        None => Some((access_token, false)),
    }
}

/// The usable stored token of an account at the current time (see
/// [`stored_token_for`]). The time comes from the clock, so the result is
/// stated for some time; the threshold is added in 128-bit arithmetic, so
/// no time overflows it.
pub fn stored_token_now(access_token: String, expires_at: Option<i64>) -> (r: Option<(String, bool)>)
    ensures
        exists|now: i64|
            match r {
                Some((t, f)) => stored_token_for(access_token@, expires_at, now) == Some((t@, f)),
                None => stored_token_for(access_token@, expires_at, now) is None,
            },
{
    let now = unix_now();
    let ghost token = access_token@;
    let r = match expires_at {
        Some(exp) => if exp <= now {
            None
        } else {
            Some((access_token, exp as i128 > now as i128 + REFRESH_THRESHOLD_SECS as i128))
        },
        None => Some((access_token, false)),
    };
    assert(match r {
        Some((t, f)) => stored_token_for(token, expires_at, now) == Some((t@, f)),
        None => stored_token_for(token, expires_at, now) is None,
    });
    r
}

/// What a configured account becomes.
#[derive(Debug)]
pub enum AccountPlan {
    Bluesky(Bluesky),
    X(X),
    /// A Facebook Page; with the app's id and secret when both are set, and
    /// whether its token should be refreshed now.
    Facebook { page: FacebookPage, app_credentials: Option<(String, String)>, refresh: bool },
    /// An Instagram account, like a Facebook Page.
    Instagram { account: Instagram, app_credentials: Option<(String, String)>, refresh: bool },
}

/// An account plan as plain values.
pub enum PlanView {
    Bluesky { id: Seq<char>, handle: Seq<char>, app_password: Seq<char> },
    X { id: Seq<char>, api_key: Seq<char>, api_secret: Seq<char>, token: Seq<char>, token_secret: Seq<char> },
    Facebook { id: Seq<char>, page_id: Seq<char>, token: Seq<char>, creds: Option<(Seq<char>, Seq<char>)>, refresh: bool },
    Instagram { id: Seq<char>, user_id: Seq<char>, token: Seq<char>, creds: Option<(Seq<char>, Seq<char>)>, refresh: bool },
}

pub open spec fn pair_view(p: Option<(String, String)>) -> Option<(Seq<char>, Seq<char>)> {
    match p {
        Some((a, b)) => Some((a@, b@)),
        None => None,
    }
}

impl View for AccountPlan {
    type V = PlanView;

    open spec fn view(&self) -> PlanView {
        match self {
            AccountPlan::Bluesky(b) => PlanView::Bluesky { id: b.account_id@, handle: b.handle@, app_password: b.app_password@ },
            AccountPlan::X(x) => PlanView::X {
                id: x.account_id@,
                api_key: x.api_key@,
                api_secret: x.api_secret@,
                token: x.access_token@,
                token_secret: x.access_token_secret@,
            },
            AccountPlan::Facebook { page, app_credentials, refresh } => PlanView::Facebook {
                id: page.account_id@,
                page_id: page.page_id@,
                token: page.page_access_token@,
                creds: pair_view(*app_credentials),
                refresh: *refresh,
            },
            AccountPlan::Instagram { account, app_credentials, refresh } => PlanView::Instagram {
                id: account.account_id@,
                user_id: account.ig_user_id@,
                token: account.access_token@,
                creds: pair_view(*app_credentials),
                refresh: *refresh,
            },
        }
    }
}

/// The app id and secret of the Meta app named `app`, when it exists and
/// both are set.
pub open spec fn meta_credentials(apps: Seq<(String, AppConfig)>, app: Seq<char>) -> Option<(Seq<char>, Seq<char>)> {
    match app_index(apps, app) {
        Some(i) => match apps[i].1 {
            AppConfig::Meta { app_id: Some(a), app_secret: Some(s) } => Some((a@, s@)),
            _ => None,
        },
        None => None,
    }
}

/// The token a Meta account uses: the stored one when usable, else the
/// configured one (then treated as stale); and whether it is fresh.
pub open spec fn meta_token(configured: Seq<char>, stored: Option<(String, bool)>) -> (Seq<char>, bool) {
    match stored {
        Some((t, f)) => (t@, f),
        None => (configured, false),
    }
}

/// What account `id` becomes: Bluesky and Meta accounts always build; an X
/// account needs its app to exist and be an X app. A Meta account's token
/// is refreshed at start when the app's credentials are known and the token
/// is not fresh.
pub open spec fn plan_for(
    apps: Seq<(String, AppConfig)>,
    id: Seq<char>,
    acc: AccountConfig,
    stored: Option<(String, bool)>,
) -> Result<PlanView, BuildError> {
    match acc {
        AccountConfig::Bluesky { handle, app_password } => Ok(
            PlanView::Bluesky { id, handle: handle@, app_password: app_password@ },
        ),
        AccountConfig::X { app, access_token, access_token_secret } => match app_index(apps, app@) {
            None => Err(BuildError::AppNotFound { app }),
            Some(i) => match apps[i].1 {
                AppConfig::X { api_key, api_secret } => Ok(
                    PlanView::X {
                        id,
                        api_key: api_key@,
                        api_secret: api_secret@,
                        token: access_token@,
                        token_secret: access_token_secret@,
                    },
                ),
                AppConfig::Meta { .. } => Err(BuildError::AppNotX { app }),
            },
        },
        AccountConfig::FacebookPage { app, page_id, page_access_token } => {
            let t = meta_token(page_access_token@, stored);
            let creds = meta_credentials(apps, app@);
            Ok(
                PlanView::Facebook {
                    id,
                    page_id: page_id@,
                    token: t.0,
                    creds,
                    refresh: creds is Some && !t.1,
                },
            )
        },
        AccountConfig::Instagram { app, ig_user_id, access_token } => {
            let t = meta_token(access_token@, stored);
            let creds = meta_credentials(apps, app@);
            Ok(
                PlanView::Instagram {
                    id,
                    user_id: ig_user_id@,
                    token: t.0,
                    creds,
                    refresh: creds is Some && !t.1,
                },
            )
        },
    }
}

/// The plans for the accounts in order, or the error of the first account
/// that cannot be built.
pub open spec fn plans_for(
    apps: Seq<(String, AppConfig)>,
    accounts: Seq<(String, AccountConfig)>,
    stored: Seq<Option<(String, bool)>>,
) -> Result<Seq<(Seq<char>, PlanView)>, BuildError>
    decreases accounts.len(),
{
    if accounts.len() == 0 {
        Ok(Seq::empty())
    } else {
        match plans_for(apps, accounts.drop_last(), stored.subrange(0, accounts.len() - 1)) {
            Err(e) => Err(e),
            Ok(ps) => match plan_for(
                apps,
                accounts.last().0@,
                accounts.last().1,
                stored[accounts.len() - 1],
            ) {
                Err(e) => Err(e),
                Ok(p) => Ok(ps.push((accounts.last().0@, p))),
            },
        }
    }
}

pub open spec fn plans_view(ps: Seq<(String, AccountPlan)>) -> Seq<(Seq<char>, PlanView)> {
    ps.map_values(|p: (String, AccountPlan)| (p.0@, p.1@))
}

fn app_credentials(apps: &Vec<(String, AppConfig)>, app: &str) -> (r: Option<(String, String)>)
    ensures
        pair_view(r) == meta_credentials(apps@, app@),
{
    match find_app(apps, app) {
        Some(i) => match &apps[i].1 {
            AppConfig::Meta { app_id: Some(a), app_secret: Some(s) } => Some((a.clone(), s.clone())),
            _ => None,
        },
        None => None,
    }
}

fn token_choice(configured: &String, stored: &Option<(String, bool)>) -> (r: (String, bool))
    ensures
        (r.0@, r.1) == meta_token(configured@, *stored),
{
    match stored {
        Some((t, f)) => (t.clone(), *f),
        None => (configured.clone(), false),
    }
}

/// The plan for one account (see [`plan_for`]).
pub fn plan_account(
    apps: &Vec<(String, AppConfig)>,
    id: &String,
    acc: &AccountConfig,
    stored: &Option<(String, bool)>,
) -> (r: Result<AccountPlan, BuildError>)
    ensures
        match r {
            Ok(p) => plan_for(apps@, id@, *acc, *stored) == Ok::<PlanView, BuildError>(p@),
            Err(e) => plan_for(apps@, id@, *acc, *stored) == Err::<PlanView, BuildError>(e),
        },
{
    match acc {
        AccountConfig::Bluesky { handle, app_password } => Ok(
            AccountPlan::Bluesky(Bluesky::new(id.clone(), handle.clone(), app_password.clone())),
        ),
        AccountConfig::X { app, access_token, access_token_secret } => match find_app(
            apps,
            app.as_str(),
        ) {
            None => Err(BuildError::AppNotFound { app: app.clone() }),
            Some(i) => match &apps[i].1 {
                AppConfig::X { api_key, api_secret } => Ok(
                    AccountPlan::X(
                        X::new(
                            id.clone(),
                            api_key.clone(),
                            api_secret.clone(),
                            access_token.clone(),
                            access_token_secret.clone(),
                        ),
                    ),
                ),
                AppConfig::Meta { .. } => Err(BuildError::AppNotX { app: app.clone() }),
            },
        },
        AccountConfig::FacebookPage { app, page_id, page_access_token } => {
            let (token, fresh) = token_choice(page_access_token, stored);
            let creds = app_credentials(apps, app.as_str());
            let refresh = creds.is_some() && !fresh;
            Ok(
                AccountPlan::Facebook {
                    page: FacebookPage::new(id.clone(), page_id.clone(), token),
                    app_credentials: creds,
                    refresh,
                },
            )
        },
        AccountConfig::Instagram { app, ig_user_id, access_token } => {
            let (token, fresh) = token_choice(access_token, stored);
            let creds = app_credentials(apps, app.as_str());
            let refresh = creds.is_some() && !fresh;
            Ok(
                AccountPlan::Instagram {
                    account: Instagram::new(id.clone(), ig_user_id.clone(), token),
                    app_credentials: creds,
                    refresh,
                },
            )
        },
    }
}

/// The providers for all accounts (see [`plans_for`]). `stored[i]` is the
/// usable stored token of account `i` (see [`stored_token`]); it is read
/// for Facebook and Instagram accounts only.
pub fn build_providers(
    apps: &Vec<(String, AppConfig)>,
    accounts: Vec<(String, AccountConfig)>,
    stored: &Vec<Option<(String, bool)>>,
) -> (r: Result<Vec<(String, AccountPlan)>, BuildError>)
    requires
        stored@.len() == accounts@.len(),
    ensures
        match r {
            Ok(ps) => plans_for(apps@, accounts@, stored@) == Ok::<Seq<(Seq<char>, PlanView)>, BuildError>(plans_view(ps@)),
            Err(e) => plans_for(apps@, accounts@, stored@) == Err::<Seq<(Seq<char>, PlanView)>, BuildError>(e),
        },
{
    let mut out: Vec<(String, AccountPlan)> = Vec::new();
    assert(plans_view(out@) =~= Seq::<(Seq<char>, PlanView)>::empty());
    let mut i: usize = 0;
    while i < accounts.len()
        invariant
            i <= accounts@.len(),
            stored@.len() == accounts@.len(),
            plans_for(apps@, accounts@.subrange(0, i as int), stored@.subrange(0, i as int)) == Ok::<
                Seq<(Seq<char>, PlanView)>,
                BuildError,
            >(plans_view(out@)),
        decreases accounts@.len() - i,
    {
        let ghost pre_a = accounts@.subrange(0, i + 1);
        let ghost pre_s = stored@.subrange(0, i + 1);
        proof {
            assert(pre_a.drop_last() =~= accounts@.subrange(0, i as int));
            assert(pre_s.subrange(0, i as int) =~= stored@.subrange(0, i as int));
            assert(pre_a.last() == accounts@[i as int]);
            assert(pre_s[i as int] == stored@[i as int]);
        }
        match plan_account(apps, &accounts[i].0, &accounts[i].1, &stored[i]) {
            Err(e) => {
                proof {
                    assert(plans_for(apps@, pre_a, pre_s) == Err::<Seq<(Seq<char>, PlanView)>, BuildError>(e));
                    lemma_plans_err_extends(apps@, accounts@, stored@, i + 1);
                }
                return Err(e);
            },
            Ok(p) => {
                let ghost before = out@;
                out.push((accounts[i].0.clone(), p));
                proof {
                    assert(plans_view(out@) =~= plans_view(before).push((accounts@[i as int].0@, p@)));
                }
            },
        }
        i = i + 1;
    }
    assert(accounts@.subrange(0, i as int) =~= accounts@);
    assert(stored@.subrange(0, i as int) =~= stored@);
    Ok(out)
}

proof fn lemma_plans_err_extends(
    apps: Seq<(String, AppConfig)>,
    accounts: Seq<(String, AccountConfig)>,
    stored: Seq<Option<(String, bool)>>,
    k: int,
)
    requires
        0 <= k <= accounts.len(),
        stored.len() == accounts.len(),
        plans_for(apps, accounts.subrange(0, k), stored.subrange(0, k)) is Err,
    ensures
        plans_for(apps, accounts, stored) == plans_for(
            apps,
            accounts.subrange(0, k),
            stored.subrange(0, k),
        ),
    decreases accounts.len() - k,
{
    if k < accounts.len() {
        let a = accounts.subrange(0, k + 1);
        let s = stored.subrange(0, k + 1);
        assert(a.drop_last() =~= accounts.subrange(0, k));
        assert(s.subrange(0, k) =~= stored.subrange(0, k));
        lemma_plans_err_extends(apps, accounts, stored, k + 1);
    } else {
        assert(accounts.subrange(0, k) =~= accounts);
        assert(stored.subrange(0, k) =~= stored);
    }
}

// ─── Repositories ────────────────────────────────────────────────────────────

/// Apps read from a file, noticing when its modification time changes.
#[derive(Debug)]
pub struct FileAppsRepository {
    path: String,
    last_mtime: Option<(u64, u32)>,
}

/// Accounts read from a file, noticing when its modification time changes.
#[derive(Debug)]
pub struct FileAccountsRepository {
    path: String,
    last_mtime: Option<(u64, u32)>,
}

impl FileAppsRepository {
    pub fn new(path: String) -> (r: FileAppsRepository)
        ensures
            r.path() == path@,
            r.last_seen() is None,
    {
        FileAppsRepository { path, last_mtime: None }
    }

    pub closed spec fn path(&self) -> Seq<char> {
        self.path@
    }

    /// The modification time last seen, as seconds and nanoseconds.
    pub closed spec fn last_seen(&self) -> Option<(u64, u32)> {
        self.last_mtime
    }

    /// The file read.
    pub fn file(&self) -> (p: &str)
        ensures
            p@ == self.path(),
    {
        self.path.as_str()
    }

    /// Whether the file may have changed since the last call, given its
    /// current modification time (`None` when it cannot be read); the time
    /// is remembered.
    pub fn has_changed(&mut self, current: Option<(u64, u32)>) -> (r: bool)
        ensures
            r == (old(self).last_seen() != current),
            final(self).last_seen() == current,
            final(self).path() == old(self).path(),
    {
        if self.last_mtime == current {
            return false;
        }
        self.last_mtime = current;
        true
    }
}

impl FileAccountsRepository {
    pub fn new(path: String) -> (r: FileAccountsRepository)
        ensures
            r.path() == path@,
            r.last_seen() is None,
    {
        FileAccountsRepository { path, last_mtime: None }
    }

    pub closed spec fn path(&self) -> Seq<char> {
        self.path@
    }

    /// The modification time last seen, as seconds and nanoseconds.
    pub closed spec fn last_seen(&self) -> Option<(u64, u32)> {
        self.last_mtime
    }

    /// The file read.
    pub fn file(&self) -> (p: &str)
        ensures
            p@ == self.path(),
    {
        self.path.as_str()
    }

    /// Whether the file may have changed since the last call (see
    /// [`FileAppsRepository::has_changed`]).
    pub fn has_changed(&mut self, current: Option<(u64, u32)>) -> (r: bool)
        ensures
            r == (old(self).last_seen() != current),
            final(self).last_seen() == current,
            final(self).path() == old(self).path(),
    {
        if self.last_mtime == current {
            return false;
        }
        self.last_mtime = current;
        true
    }
}

/// The apps repository for a source.
pub fn make_apps_repo(cfg: &SourceConfig) -> (r: FileAppsRepository)
    ensures
        match cfg {
            SourceConfig::File { path } => r.path() == path@ && r.last_seen() is None,
        },
{
    match cfg {
        SourceConfig::File { path } => FileAppsRepository::new(path.clone()),
    }
}

/// The accounts repository for a source.
pub fn make_accounts_repo(cfg: &SourceConfig) -> (r: FileAccountsRepository)
    ensures
        match cfg {
            SourceConfig::File { path } => r.path() == path@ && r.last_seen() is None,
        },
{
    match cfg {
        SourceConfig::File { path } => FileAccountsRepository::new(path.clone()),
    }
}

// ─── Where the settings file is looked for ───────────────────────────────────

/// `base` joined with the relative path `rel`, as `Path::join` does: no
/// separator added to an empty base or one that ends in `/`.
pub open spec fn join_path(base: Seq<char>, rel: Seq<char>) -> Seq<char> {
    if base.len() == 0 || base.last() == '/' {
        base + rel
    } else {
        base + "/"@ + rel
    }
}

fn join(base: &str, rel: &str) -> (r: String)
    ensures
        r@ == join_path(base@, rel@),
{
    let mut v = chars_of(base);
    if v.len() > 0 && v[v.len() - 1] != '/' {
        push_str(&mut v, "/");
    }
    push_str(&mut v, rel);
    string_of(v.as_slice())
}

/// The settings files tried, in order: `daemon.toml` under the user's
/// configuration directory (`XDG_CONFIG_HOME`, else `HOME/.config`), then
/// under each directory of `XDG_CONFIG_DIRS` (default `/etc/xdg`).
pub open spec fn config_candidates_for(
    xdg_config_home: Option<Seq<char>>,
    home: Option<Seq<char>>,
    xdg_config_dirs: Option<Seq<char>>,
) -> Seq<Seq<char>> {
    let user: Seq<Seq<char>> = match xdg_config_home {
        Some(b) => seq![join_path(b, "postkit/daemon.toml"@)],
        None => match home {
            Some(h) => seq![join_path(join_path(h, ".config"@), "postkit/daemon.toml"@)],
            None => Seq::empty(),
        },
    };
    let dirs = match xdg_config_dirs {
        Some(d) => d,
        None => "/etc/xdg"@,
    };
    user + split_on(dirs, ':').map_values(|d: Seq<char>| join_path(d, "postkit/daemon.toml"@))
}

/// The settings files tried (see [`config_candidates_for`]); the first that
/// exists is used.
pub fn config_candidates(
    xdg_config_home: Option<String>,
    home: Option<String>,
    xdg_config_dirs: Option<String>,
) -> (r: Vec<String>)
    ensures
        r@.map_values(|s: String| s@) == config_candidates_for(
            crate::postkit::model::opt_view(xdg_config_home),
            crate::postkit::model::opt_view(home),
            crate::postkit::model::opt_view(xdg_config_dirs),
        ),
{
    let mut out: Vec<String> = Vec::new();
    match &xdg_config_home {
        Some(b) => out.push(join(b.as_str(), "postkit/daemon.toml")),
        None => match &home {
            Some(h) => {
                let base = join(h.as_str(), ".config");
                out.push(join(base.as_str(), "postkit/daemon.toml"));
            },
            None => {},
        },
    }
    let ghost user = out@.map_values(|s: String| s@);
    let dirs = match xdg_config_dirs {
        Some(d) => d,
        None => "/etc/xdg".to_owned(),
    };
    let pieces = split_char(dirs.as_str(), ':');
    let ghost ps = split_on(dirs@, ':');
    let ghost joined = ps.map_values(|d: Seq<char>| join_path(d, "postkit/daemon.toml"@));
    let n0 = out.len();
    let mut i: usize = 0;
    while i < pieces.len()
        invariant
            pieces@.map_values(|p: String| p@) == ps,
            joined == ps.map_values(|d: Seq<char>| join_path(d, "postkit/daemon.toml"@)),
            i <= pieces@.len(),
            n0 == user.len(),
            out@.map_values(|s: String| s@) == user + joined.subrange(0, i as int),
        decreases pieces@.len() - i,
    {
        let ghost before = out@;
        out.push(join(pieces[i].as_str(), "postkit/daemon.toml"));
        proof {
            assert(ps[i as int] == pieces@[i as int]@);
            assert(out@.map_values(|s: String| s@) =~= before.map_values(|s: String| s@).push(
                joined[i as int],
            ));
            assert(joined.subrange(0, i + 1) =~= joined.subrange(0, i as int).push(joined[i as int]));
        }
        i = i + 1;
    }
    assert(joined.subrange(0, i as int) =~= joined);
    out
}

} // verus!
