//! Icon paths for application ids, remembered once found.
//!
//! Finding an icon means searching the icon theme and, failing that, the
//! application's `.desktop` entry; both read the disk, so the caller does
//! them. The resolver decides when a search is needed, where the desktop
//! entries are, what an entry names, and what is remembered.

use crate::ewwkit::domain::opt_str_view;
use crate::lines::{lines, text_lines};
use crate::lines::{find_char, next_char};
use crate::text::{
    chars_of, has_prefix, push_str, slice_chars, str_eq, str_starts_with, string_of, trim, trim_seq,
};
use vstd::prelude::*;

verus! {

/// The icon used when none is found.
pub open spec fn missing_icon() -> Seq<char> {
    "/usr/share/icons/hicolor/48x48/apps/icon-missing.png"@
}

/// Remembered icon paths by application id: later entries win.
pub open spec fn cache_map(pairs: Seq<(String, String)>) -> Map<Seq<char>, Seq<char>>
    decreases pairs.len(),
{
    if pairs.len() == 0 {
        Map::empty()
    } else {
        cache_map(pairs.drop_last()).insert(pairs.last().0@, pairs.last().1@)
    }
}

/// Index of the last pair for `key`, or -1.
pub open spec fn last_for(pairs: Seq<(String, String)>, key: Seq<char>) -> int
    decreases pairs.len(),
{
    if pairs.len() == 0 {
        -1
    } else if pairs.last().0@ == key {
        pairs.len() - 1
    } else {
        last_for(pairs.drop_last(), key)
    }
}

proof fn lemma_cache_lookup(pairs: Seq<(String, String)>, key: Seq<char>)
    ensures
        -1 <= last_for(pairs, key) < pairs.len(),
        cache_map(pairs).dom().contains(key) <==> last_for(pairs, key) >= 0,
        last_for(pairs, key) >= 0 ==> cache_map(pairs)[key] == pairs[last_for(pairs, key)].1@,
    decreases pairs.len(),
{
    if pairs.len() > 0 {
        lemma_cache_lookup(pairs.drop_last(), key);
    }
}

proof fn lemma_last_for(pairs: Seq<(String, String)>, key: Seq<char>, k: int)
    requires
        -1 <= k < pairs.len(),
        forall|j: int| k < j < pairs.len() ==> pairs[j].0@ != key,
        k == -1 || pairs[k].0@ == key,
    ensures
        last_for(pairs, key) == k,
    decreases pairs.len(),
{
    if pairs.len() > 0 && k < pairs.len() - 1 {
        lemma_last_for(pairs.drop_last(), key, k);
    }
}

/// Finds and remembers application icons.
pub struct IconResolver {
    cache: Vec<(String, String)>,
    default_icon: String,
}

/// The resolver as a map from application id to icon path, with the icon
/// used when none is found.
pub ghost struct IconResolverView {
    pub cache: Map<Seq<char>, Seq<char>>,
    pub default_icon: Seq<char>,
}

impl View for IconResolver {
    type V = IconResolverView;

    closed spec fn view(&self) -> IconResolverView {
        IconResolverView { cache: cache_map(self.cache@), default_icon: self.default_icon@ }
    }
}

/// What to do for an application id: the icon is known, or the icon theme
/// and desktop entries must be searched for this id.
#[derive(Debug)]
pub enum IconStep {
    Ready(String),
    Search(String),
}

/// The step for `app_id` given what the resolver remembers: no id or an
/// empty one gives the default icon, a remembered id its icon, any other
/// id a search.
pub open spec fn step_for(r: IconResolverView, app_id: Option<Seq<char>>) -> (bool, Seq<char>) {
    match app_id {
        None => (true, r.default_icon),
        Some(id) => if id.len() == 0 {
            (true, r.default_icon)
        } else if r.cache.dom().contains(id) {
            (true, r.cache[id])
        } else {
            (false, id)
        },
    }
}

/// `(true, path)` for `Ready(path)`, `(false, id)` for `Search(id)`.
pub open spec fn step_view(s: IconStep) -> (bool, Seq<char>) {
    match s {
        IconStep::Ready(p) => (true, p@),
        IconStep::Search(id) => (false, id@),
    }
}

impl IconResolver {
    /// A resolver that remembers nothing yet. Icons come from the system
    /// theme; the directory argument is accepted and not used.
    pub fn new(_custom_icon_dir: &str) -> (r: IconResolver)
        ensures
            r@.cache == Map::<Seq<char>, Seq<char>>::empty(),
            r@.default_icon == missing_icon(),
    {
        let r = IconResolver {
            cache: Vec::new(),
            default_icon: "/usr/share/icons/hicolor/48x48/apps/icon-missing.png".to_owned(),
        };
        assert(cache_map(r.cache@) =~= Map::<Seq<char>, Seq<char>>::empty());
        r
    }

    /// The icon used when none is found.
    pub fn default_icon(&self) -> (p: String)
        ensures
            p@ == self@.default_icon,
    {
        self.default_icon.clone()
    }

    /// The remembered icon for `app_id`, if any.
    pub fn cached(&self, app_id: &str) -> (p: Option<String>)
        ensures
            opt_str_view(p) == (if self@.cache.dom().contains(app_id@) {
                Some(self@.cache[app_id@])
            } else {
                None
            }),
    {
        let mut k: usize = self.cache.len();
        while k > 0 && !str_eq(self.cache[k - 1].0.as_str(), app_id)
            invariant
                k <= self.cache@.len(),
                forall|j: int| k <= j < self.cache@.len() ==> self.cache@[j].0@ != app_id@,
            decreases k,
        {
            k = k - 1;
        }
        proof {
            lemma_last_for(self.cache@, app_id@, k - 1);
            lemma_cache_lookup(self.cache@, app_id@);
        }
        if k == 0 {
            None
        } else {
            Some(self.cache[k - 1].1.clone())
        }
    }

    /// What to do for `app_id` (see [`step_for`]).
    pub fn begin(&self, app_id: &Option<String>) -> (s: IconStep)
        ensures
            step_view(s) == step_for(self@, opt_str_view(*app_id)),
    {
        match app_id {
            None => IconStep::Ready(self.default_icon()),
            Some(id) => {
                if id.as_str().is_empty() {
                    IconStep::Ready(self.default_icon())
                } else {
                    match self.cached(id.as_str()) {
                        Some(p) => IconStep::Ready(p),
                        None => IconStep::Search(id.clone()),
                    }
                }
            },
        }
    }

    /// Ends a search for `app_id`: the icon found, else the default one,
    /// is remembered for the id and returned.
    pub fn finish(&mut self, app_id: &str, found: Option<String>) -> (p: String)
        ensures
            p@ == match found {
                Some(f) => f@,
                None => old(self)@.default_icon,
            },
            final(self)@.default_icon == old(self)@.default_icon,
            final(self)@.cache == old(self)@.cache.insert(app_id@, p@),
    {
        let p = match found {
            Some(f) => f,
            None => self.default_icon.clone(),
        };
        let q = p.clone();
        let ghost before = self.cache@;
        self.cache.push((app_id.to_owned(), q));
        assert(self.cache@.drop_last() =~= before);
        p
    }
}

/// A remembered id is answered from memory with the icon remembered for it.
pub proof fn law_remembered_icon(r: IconResolverView, id: Seq<char>, path: Seq<char>)
    requires
        id.len() > 0,
    ensures
        step_for(
            IconResolverView { cache: r.cache.insert(id, path), default_icon: r.default_icon },
            Some(id),
        ) == (true, path),
{
}

// ─── Desktop entries ─────────────────────────────────────────────────────────

/// The desktop entries searched for `app_id`, in order.
pub open spec fn desktop_files_for(home: Seq<char>, app_id: Seq<char>) -> Seq<Seq<char>> {
    seq![
        "/usr/share/applications/"@ + app_id + ".desktop"@,
        home + "/.local/share/applications/"@ + app_id + ".desktop"@,
    ]
}

/// The desktop entries searched for `app_id`: the system applications
/// directory, then the one under `home` (empty when `HOME` is unset).
pub fn desktop_files(home: &str, app_id: &str) -> (r: Vec<String>)
    ensures
        r@.map_values(|s: String| s@) == desktop_files_for(home@, app_id@),
{
    let mut a = chars_of("/usr/share/applications/");
    push_str(&mut a, app_id);
    push_str(&mut a, ".desktop");
    let mut b = chars_of(home);
    push_str(&mut b, "/.local/share/applications/");
    push_str(&mut b, app_id);
    push_str(&mut b, ".desktop");
    let mut r: Vec<String> = Vec::new();
    r.push(string_of(a.as_slice()));
    r.push(string_of(b.as_slice()));
    assert(r@.map_values(|s: String| s@) =~= desktop_files_for(home@, app_id@));
    r
}

/// What a desktop entry says of its icon.
#[derive(Debug)]
pub enum DesktopIcon {
    /// No `Icon=` line: try the next entry.
    Absent,
    /// An absolute path: the icon itself.
    Path(String),
    /// A name to search in the icon theme.
    Name(String),
}

/// The value of an `Icon=` line: the text between its first and second
/// `=`, trimmed (`line.split('=').nth(1)` trimmed).
pub open spec fn icon_value(line: Seq<char>) -> Seq<char> {
    trim_seq(line.subrange(5, next_char(line, 5, '=')))
}

/// Whether `i` is the first line starting with `Icon=`.
pub open spec fn first_icon_line(ls: Seq<Seq<char>>, i: int) -> bool {
    &&& 0 <= i < ls.len()
    &&& has_prefix(ls[i], "Icon="@)
    &&& forall|j: int| 0 <= j < i ==> !has_prefix(#[trigger] ls[j], "Icon="@)
}

/// What the first `Icon=` line of an entry says: an absolute path (it
/// starts with `/`) or a name; `Absent` when there is no such line.
pub open spec fn desktop_icon_of(content: Seq<char>) -> (int, Seq<char>) {
    let ls = text_lines(content);
    if exists|i: int| first_icon_line(ls, i) {
        let v = icon_value(ls[choose|i: int| first_icon_line(ls, i)]);
        if v.len() > 0 && v[0] == '/' {
            (1, v)
        } else {
            (2, v)
        }
    } else {
        (0, Seq::empty())
    }
}

/// `(0, "")` for `Absent`, `(1, p)` for `Path(p)`, `(2, n)` for `Name(n)`.
pub open spec fn desktop_icon_view(d: DesktopIcon) -> (int, Seq<char>) {
    match d {
        DesktopIcon::Absent => (0, Seq::empty()),
        DesktopIcon::Path(p) => (1, p@),
        DesktopIcon::Name(n) => (2, n@),
    }
}

fn icon_line_value(line: &str) -> (v: String)
    requires
        has_prefix(line@, "Icon="@),
    ensures
        v@ == icon_value(line@),
{
    proof {
        reveal_strlit("Icon=");
    }
    let cs = chars_of(line);
    let end = find_char(cs.as_slice(), 5, '=');
    let field = slice_chars(cs.as_slice(), 5, end);
    string_of(trim(field.as_slice()).as_slice())
}

/// What a desktop entry's text says of the icon (see [`desktop_icon_of`]).
pub fn desktop_entry_icon(content: &str) -> (d: DesktopIcon)
    ensures
        desktop_icon_view(d) == desktop_icon_of(content@),
{
    let ls = lines(content);
    let ghost all = text_lines(content@);
    let mut i: usize = 0;
    while i < ls.len()
        invariant
            ls@.map_values(|l: String| l@) == all,
            all == text_lines(content@),
            i <= ls@.len(),
            forall|j: int| 0 <= j < i ==> !has_prefix(#[trigger] all[j], "Icon="@),
        decreases ls@.len() - i,
    {
        assert(all[i as int] == ls@[i as int]@);
        if str_starts_with(ls[i].as_str(), "Icon=") {
            proof {
                assert(first_icon_line(all, i as int));
                let c = choose|c: int| first_icon_line(all, c);
                if c < i {
                    assert(!has_prefix(all[c], "Icon="@));
                }
                if c > i {
                    assert(!has_prefix(all[i as int], "Icon="@));
                }
                assert(c == i);
            }
            let v = icon_line_value(ls[i].as_str());
            if str_starts_with(v.as_str(), "/") {
                proof {
                    reveal_strlit("/");
                    assert(v@.subrange(0, 1)[0] == v@[0]);
                }
                return DesktopIcon::Path(v);
            } else {
                proof {
                    reveal_strlit("/");
                    assert(!(v@.len() > 0 && v@[0] == '/')) by {
                        if v@.len() > 0 && v@[0] == '/' {
                            assert(v@.subrange(0, 1) =~= "/"@);
                            assert(has_prefix(v@, "/"@));
                        }
                    }
                }
                return DesktopIcon::Name(v);
            }
        }
        i = i + 1;
    }
    DesktopIcon::Absent
}

} // verus!
