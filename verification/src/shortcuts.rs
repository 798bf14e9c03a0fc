//! The shortcuts shown in the capsule: adding, removing, opening and
//! refreshing them.
use vstd::prelude::*;
use crate::text::{clone_opt_text, opt_text_eq, opt_text_view, owned, text_eq};

verus! {

broadcast use vstd::string::group_string_axioms;

/// One shortcut: a folder, an application or a file. `kind` is `folder`,
/// `app` or `file` (stored as `type`).
pub struct ShortcutItem {
    pub id: String,
    pub name: String,
    pub path: String,
    pub icon: Option<String>,
    pub kind: String,
}

pub struct ShortcutView {
    pub id: Seq<char>,
    pub name: Seq<char>,
    pub path: Seq<char>,
    pub icon: Option<Seq<char>>,
    pub kind: Seq<char>,
}

impl View for ShortcutItem {
    type V = ShortcutView;

    open spec fn view(&self) -> ShortcutView {
        ShortcutView {
            id: self.id@,
            name: self.name@,
            path: self.path@,
            icon: opt_text_view(self.icon),
            kind: self.kind@,
        }
    }
}

impl Clone for ShortcutItem {
    fn clone(&self) -> (r: Self)
        ensures
            r@ == self@,
    {
        ShortcutItem {
            id: self.id.clone(),
            name: self.name.clone(),
            path: self.path.clone(),
            icon: clone_opt_text(&self.icon),
            kind: self.kind.clone(),
        }
    }
}

pub open spec fn shortcuts_view(v: Seq<ShortcutItem>) -> Seq<ShortcutView> {
    v.map_values(|s: ShortcutItem| s@)
}

/// `s` stands somewhere in `t`, as a run of its characters.
pub open spec fn is_part_of(s: Seq<char>, t: Seq<char>) -> bool {
    exists|i: int| 0 <= i && i + s.len() <= t.len() && #[trigger] t.subrange(i, i + s.len()) == s
}

/// `p` is the start of `t`, and shorter.
pub open spec fn is_proper_prefix(p: Seq<char>, t: Seq<char>) -> bool {
    p.len() < t.len() && t.subrange(0, p.len() as int) == p
}

/// `s` stands in a proper prefix of `t`: in the directory part of a path.
pub open spec fn within_parent(s: Seq<char>, t: Seq<char>) -> bool {
    exists|k: int| 0 <= k < t.len() && is_part_of(s, #[trigger] t.subrange(0, k))
}

pub open spec fn opt_part_of(o: Option<Seq<char>>, t: Seq<char>) -> bool {
    o matches Some(x) ==> is_part_of(x, t)
}

pub open spec fn opt_within_parent(o: Option<Seq<char>>, t: Seq<char>) -> bool {
    o matches Some(x) ==> within_parent(x, t)
}

/// A path that is one plain name: not empty, not `.` or `..`, and without
/// `/`, `\` or `:`, the characters that separate components or begin a
/// prefix on some platform. Every platform reads such a path alike: as a
/// single normal component.
pub open spec fn is_plain_name(s: Seq<char>) -> bool {
    &&& s.len() > 0
    &&& !(s.len() == 1 && s[0] == '.')
    &&& !(s.len() == 2 && s[0] == '.' && s[1] == '.')
    &&& forall|i: int| 0 <= i < s.len() ==> #[trigger] s[i] != '/' && s[i] != '\\' && s[i] != ':'
}

/// The position of the last `.` in `s`, or -1 where there is none.
pub open spec fn last_dot(s: Seq<char>) -> int
    decreases s.len(),
{
    if s.len() == 0 {
        -1
    } else if s.last() == '.' {
        s.len() - 1
    } else {
        last_dot(s.drop_last())
    }
}

/// The extension of a file name: what follows its final `.`, where a `.`
/// stands after the first character; none otherwise.
pub open spec fn extension_of_name(s: Seq<char>) -> Option<Seq<char>> {
    if last_dot(s) >= 1 {
        Some(s.subrange(last_dot(s) + 1, s.len() as int))
    } else {
        None
    }
}

/// The stem of a file name: what precedes its final `.`, where a `.` stands
/// after the first character; the whole name otherwise.
pub open spec fn stem_of_name(s: Seq<char>) -> Seq<char> {
    if last_dot(s) >= 1 {
        s.subrange(0, last_dot(s))
    } else {
        s
    }
}

/// The position of the last `/` in `s`, or -1 where there is none.
pub open spec fn last_slash(s: Seq<char>) -> int
    decreases s.len(),
{
    if s.len() == 0 {
        -1
    } else if s.last() == '/' {
        s.len() - 1
    } else {
        last_slash(s.drop_last())
    }
}

/// Where the last `/` stands: within the text, on a `/`, with none after it.
pub proof fn lemma_last_slash(s: Seq<char>)
    ensures
        -1 <= last_slash(s) < s.len(),
        last_slash(s) >= 0 ==> s[last_slash(s)] == '/',
        forall|j: int| last_slash(s) < j < s.len() ==> s[j] != '/',
    decreases s.len(),
{
    if s.len() > 0 && s.last() != '/' {
        let t = s.drop_last();
        lemma_last_slash(t);
        assert forall|j: int| last_slash(s) < j < s.len() implies s[j] != '/' by {
            if j < s.len() - 1 {
                assert(s[j] == t[j]);
            }
        }
    }
}

/// A path of plain names joined by single `/`, perhaps after one leading
/// `/`: every platform reads it alike, as those names (after a root where it
/// begins with `/`).
pub open spec fn is_simple_path(s: Seq<char>) -> bool
    decreases s.len(),
{
    if last_slash(s) < 0 {
        is_plain_name(s)
    } else {
        proof {
            lemma_last_slash(s);
        }
        &&& is_plain_name(s.subrange(last_slash(s) + 1, s.len() as int))
        &&& (last_slash(s) == 0 || is_simple_path(s.subrange(0, last_slash(s))))
    }
}

/// The last component of a simple path: what follows its last `/`.
pub open spec fn last_name(s: Seq<char>) -> Seq<char> {
    s.subrange(last_slash(s) + 1, s.len() as int)
}

/// The parent of a simple path: what precedes its last `/`; the root `/` for
/// a path with one name after the root; the empty path for a single name.
pub open spec fn parent_part(s: Seq<char>) -> Seq<char> {
    if last_slash(s) > 0 {
        s.subrange(0, last_slash(s))
    } else if last_slash(s) == 0 {
        s.subrange(0, 1)
    } else {
        Seq::empty()
    }
}

/// The name of the directory that holds the item at a simple path: the last
/// name of its parent, where the parent has a name.
pub open spec fn simple_parent_name(s: Seq<char>) -> Option<Seq<char>> {
    if last_slash(s) > 0 {
        Some(last_name(s.subrange(0, last_slash(s))))
    } else {
        None
    }
}

/// `Path::extension`, as text. Which part of the path it is follows the path
/// rules of the platform the program runs on (`\` separates components on
/// Windows, not elsewhere), so it is stated only that it is a part of the
/// path (the standard library slices it out of the path's own bytes), and,
/// for a simple path, what the documentation gives: what follows the final
/// `.` of its last name, none where the only `.` is the name's first
/// character or there is none.
#[verifier::external_body]
fn path_extension(path: &str) -> (r: Option<&str>)
    ensures
        r matches Some(e) ==> is_part_of(e@, path@),
        is_simple_path(path@) ==> match r {
            Some(e) => extension_of_name(last_name(path@)) == Some(e@),
            None => extension_of_name(last_name(path@)) is None,
        },
{
    std::path::Path::new(path).extension().and_then(|e| e.to_str())
}

/// `Path::parent`, as text. It follows the path rules of the platform the
/// program runs on, so it is stated only that it is a proper prefix of the
/// path (the path without its last component, which is never empty), and,
/// for a simple path, that it is the path without its last name (see
/// `parent_part`).
#[verifier::external_body]
fn path_parent(path: &str) -> (r: Option<&str>)
    ensures
        r matches Some(p) ==> is_proper_prefix(p@, path@),
        is_simple_path(path@) ==> match r {
            Some(p) => p@ == parent_part(path@),
            None => false,
        },
{
    std::path::Path::new(path).parent().and_then(|p| p.to_str())
}

/// `Path::file_name`, as text. It follows the path rules of the platform the
/// program runs on, so it is stated only that it is a part of the path, that
/// the empty path and the root `/` have none, and that the file name of a
/// simple path is its last name.
#[verifier::external_body]
fn path_file_name(path: &str) -> (r: Option<&str>)
    ensures
        r matches Some(n) ==> is_part_of(n@, path@),
        path@.len() == 0 ==> r is None,
        path@.len() == 1 && path@[0] == '/' ==> r is None,
        is_simple_path(path@) ==> match r {
            Some(n) => n@ == last_name(path@),
            None => false,
        },
{
    std::path::Path::new(path).file_name().and_then(|n| n.to_str())
}

/// `Path::file_stem`, as text. It follows the path rules of the platform the
/// program runs on, so it is stated only that it is a part of the path, and,
/// for a simple path, what the documentation gives: what precedes the final
/// `.` of its last name, the whole name where the only `.` is its first
/// character or there is none.
#[verifier::external_body]
fn path_file_stem(path: &str) -> (r: Option<&str>)
    ensures
        r matches Some(n) ==> is_part_of(n@, path@),
        is_simple_path(path@) ==> match r {
            Some(n) => n@ == stem_of_name(last_name(path@)),
            None => false,
        },
{
    std::path::Path::new(path).file_stem().and_then(|n| n.to_str())
}

/// The name of the directory that holds the item at `path`: the file name of
/// its parent, which stands in the directory part of the path.
fn parent_dir_name(path: &str) -> (r: Option<&str>)
    ensures
        r matches Some(n) ==> within_parent(n@, path@),
        is_simple_path(path@) ==> match r {
            Some(n) => simple_parent_name(path@) == Some(n@),
            None => simple_parent_name(path@) is None,
        },
{
    match path_parent(path) {
        Some(parent) => {
            proof {
                if is_simple_path(path@) {
                    lemma_last_slash(path@);
                }
            }
            let r = path_file_name(parent);
            proof {
                if let Some(n) = r {
                    assert(path@.subrange(0, parent@.len() as int) == parent@);
                    assert(is_part_of(n@, path@.subrange(0, parent@.len() as int)));
                }
            }
            r
        },
        None => None,
    }
}

/// A fresh random id: `uuid::Uuid::new_v4`, written out hyphenated, which
/// takes 36 characters. The id is random, so nothing more is stated.
#[verifier::external_body]
fn new_shortcut_id() -> (r: String)
    ensures
        r@.len() == 36,
{
    uuid::Uuid::new_v4().to_string()
}

/// The kind of a shortcut to a directory (`folder`), a file with extension
/// `exe` (`app`), or any other file (`file`).
pub open spec fn kind_of(is_dir: bool, extension: Option<Seq<char>>) -> Seq<char> {
    if is_dir {
        "folder"@
    } else if extension == Some("exe"@) {
        "app"@
    } else {
        "file"@
    }
}

pub fn shortcut_kind(is_dir: bool, extension: Option<&str>) -> (r: String)
    ensures
        r@ == kind_of(
            is_dir,
            match extension {
                Some(e) => Some(e@),
                None => None,
            },
        ),
{
    if is_dir {
        owned("folder")
    } else {
        match extension {
            Some(e) => if text_eq(e, "exe") {
                owned("app")
            } else {
                owned("file")
            },
            None => owned("file"),
        }
    }
}

/// The name a new shortcut shows: for a folder the name of the directory
/// that holds it, for a file its name without extension; the whole path where
/// there is no such name.
pub open spec fn display_name_of(
    is_folder: bool,
    path: Seq<char>,
    parent_name: Option<Seq<char>>,
    stem: Option<Seq<char>>,
) -> Seq<char> {
    if is_folder {
        match parent_name {
            Some(n) => n,
            None => path,
        }
    } else {
        match stem {
            Some(n) => n,
            None => path,
        }
    }
}

/// A new shortcut, from the parts of its path.
pub fn make_shortcut(
    id: String,
    path: String,
    is_dir: bool,
    icon: Option<String>,
    extension: Option<&str>,
    parent_name: Option<&str>,
    stem: Option<&str>,
) -> (r: ShortcutItem)
    ensures
        r@ == (ShortcutView {
            id: id@,
            name: display_name_of(
                is_dir,
                path@,
                match parent_name {
                    Some(n) => Some(n@),
                    None => None,
                },
                match stem {
                    Some(n) => Some(n@),
                    None => None,
                },
            ),
            path: path@,
            icon: opt_text_view(icon),
            kind: kind_of(
                is_dir,
                match extension {
                    Some(e) => Some(e@),
                    None => None,
                },
            ),
        }),
{
    let kind = shortcut_kind(is_dir, extension);
    let name = if is_dir {
        match parent_name {
            Some(n) => owned(n),
            None => path.clone(),
        }
    } else {
        match stem {
            Some(n) => owned(n),
            None => path.clone(),
        }
    };
    ShortcutItem { id, name, path, icon, kind }
}

/// Some shortcut has the given path.
pub open spec fn has_path(ss: Seq<ShortcutView>, path: Seq<char>) -> bool {
    exists|i: int| 0 <= i < ss.len() && #[trigger] ss[i].path == path
}

/// Whether some shortcut has the given path.
pub fn has_shortcut_path(shortcuts: &Vec<ShortcutItem>, path: &str) -> (r: bool)
    ensures
        r == has_path(shortcuts_view(shortcuts@), path@),
{
    let ghost ss = shortcuts_view(shortcuts@);
    let n = shortcuts.len();
    let mut i: usize = 0;
    while i < n
        invariant
            n == shortcuts@.len(),
            ss == shortcuts_view(shortcuts@),
            i <= n,
            forall|j: int| 0 <= j < i ==> #[trigger] ss[j].path != path@,
        decreases n - i,
    {
        if text_eq(shortcuts[i].path.as_str(), path) {
            assert(ss[i as int].path == path@);
            return true;
        }
        i = i + 1;
    }
    false
}

/// Adds the shortcut `item` unless one with its path is there already;
/// whether it was added.
pub fn insert_shortcut(shortcuts: &mut Vec<ShortcutItem>, item: ShortcutItem) -> (r: bool)
    ensures
        r == !has_path(shortcuts_view(old(shortcuts)@), item@.path),
        shortcuts_view(final(shortcuts)@) == (if r {
            shortcuts_view(old(shortcuts)@).push(item@)
        } else {
            shortcuts_view(old(shortcuts)@)
        }),
{
    if has_shortcut_path(shortcuts, item.path.as_str()) {
        return false;
    }
    let ghost before = shortcuts@;
    let ghost iv = item@;
    shortcuts.push(item);
    assert(shortcuts_view(shortcuts@) =~= shortcuts_view(before).push(iv));
    true
}

/// Adds a shortcut to `path` (a directory where `is_dir`) with the given
/// icon, unless one with that path is there already; whether it was added.
/// The new shortcut gets a fresh random id, its kind and its name from the
/// parts of its path (see `make_shortcut`).
pub fn add_shortcut(
    shortcuts: &mut Vec<ShortcutItem>,
    path: String,
    is_dir: bool,
    icon: Option<String>,
) -> (r: bool)
    ensures
        r == !has_path(shortcuts_view(old(shortcuts)@), path@),
        !r ==> shortcuts_view(final(shortcuts)@) == shortcuts_view(old(shortcuts)@),
        r ==> {
            &&& final(shortcuts)@.len() == old(shortcuts)@.len() + 1
            &&& shortcuts_view(final(shortcuts)@).drop_last() == shortcuts_view(old(shortcuts)@)
            &&& shortcuts_view(final(shortcuts)@).last().id.len() == 36
            &&& shortcuts_view(final(shortcuts)@).last().path == path@
            &&& shortcuts_view(final(shortcuts)@).last().icon == opt_text_view(icon)
            &&& exists|extension: Option<Seq<char>>|
                opt_part_of(extension, path@) && #[trigger] kind_of(is_dir, extension)
                    == shortcuts_view(final(shortcuts)@).last().kind
            &&& exists|parent_name: Option<Seq<char>>, stem: Option<Seq<char>>|
                opt_within_parent(parent_name, path@) && opt_part_of(stem, path@)
                    && #[trigger] display_name_of(is_dir, path@, parent_name, stem)
                    == shortcuts_view(final(shortcuts)@).last().name
            &&& is_simple_path(path@) ==> shortcuts_view(final(shortcuts)@).last().kind == kind_of(
                is_dir,
                extension_of_name(last_name(path@)),
            )
            &&& is_simple_path(path@) ==> shortcuts_view(final(shortcuts)@).last().name
                == display_name_of(
                is_dir,
                path@,
                simple_parent_name(path@),
                Some(stem_of_name(last_name(path@))),
            )
        },
{
    if has_shortcut_path(shortcuts, path.as_str()) {
        return false;
    }
    let id = new_shortcut_id();
    let p = path.clone();
    let extension = path_extension(p.as_str());
    let parent_name = if is_dir {
        parent_dir_name(p.as_str())
    } else {
        None
    };
    let stem = if is_dir {
        None
    } else {
        path_file_stem(p.as_str())
    };
    let item = make_shortcut(id, path, is_dir, icon, extension, parent_name, stem);
    let ghost before = shortcuts@;
    let ghost iv = item@;
    shortcuts.push(item);
    assert(shortcuts_view(shortcuts@) =~= shortcuts_view(before).push(iv));
    assert(shortcuts_view(shortcuts@).drop_last() =~= shortcuts_view(before));
    let ghost ext = match extension {
        Some(e) => Some(e@),
        None => None::<Seq<char>>,
    };
    let ghost pn = match parent_name {
        Some(n) => Some(n@),
        None => None::<Seq<char>>,
    };
    let ghost st = match stem {
        Some(n) => Some(n@),
        None => None::<Seq<char>>,
    };
    assert(shortcuts_view(shortcuts@).last() == iv);
    assert(kind_of(is_dir, ext) == iv.kind);
    assert(display_name_of(is_dir, path@, pn, st) == iv.name);
    true
}

/// The shortcuts left after removing every one with the given id, in order.
pub open spec fn without_id(ss: Seq<ShortcutView>, id: Seq<char>) -> Seq<ShortcutView>
    decreases ss.len(),
{
    if ss.len() == 0 {
        ss
    } else if ss.last().id == id {
        without_id(ss.drop_last(), id)
    } else {
        without_id(ss.drop_last(), id).push(ss.last())
    }
}

/// Removes every shortcut with the given id.
pub fn remove_shortcut(shortcuts: &mut Vec<ShortcutItem>, id: &str)
    ensures
        shortcuts_view(final(shortcuts)@) == without_id(shortcuts_view(old(shortcuts)@), id@),
        shortcuts_view(final(shortcuts)@) == shortcuts_view(old(shortcuts)@).filter(
            |s: ShortcutView| s.id != id@,
        ),
{
    let ghost orig = shortcuts_view(shortcuts@);
    let n = shortcuts.len();
    let mut kept: Vec<ShortcutItem> = Vec::new();
    let mut i: usize = 0;
    while i < n
        invariant
            n == shortcuts@.len(),
            orig == shortcuts_view(shortcuts@),
            i <= n,
            shortcuts_view(kept@) == without_id(orig.take(i as int), id@),
        decreases n - i,
    {
        assert(orig.take(i + 1).drop_last() =~= orig.take(i as int));
        if !text_eq(shortcuts[i].id.as_str(), id) {
            let s = shortcuts[i].clone();
            let ghost before = kept@;
            kept.push(s);
            assert(shortcuts_view(kept@) =~= shortcuts_view(before).push(s@));
        }
        i = i + 1;
    }
    assert(orig.take(n as int) =~= orig);
    *shortcuts = kept;
    proof {
        law_remove_keeps_order(orig, id@);
    }
}

/// What opening a shortcut does.
pub enum ShortcutLaunch {
    /// Starts the program at the path.
    StartProgram(String),
    /// Opens the path with the shell (Explorer for a folder).
    OpenWithShell(String),
}

/// The position of the first shortcut with the given id.
pub fn find_shortcut(shortcuts: &Vec<ShortcutItem>, id: &str) -> (r: Option<usize>)
    ensures
        match r {
            Some(i) => i < shortcuts@.len() && shortcuts@[i as int].id@ == id@ && forall|j: int|
                0 <= j < i ==> #[trigger] shortcuts@[j].id@ != id@,
            None => forall|j: int| 0 <= j < shortcuts@.len() ==> #[trigger] shortcuts@[j].id@ != id@,
        },
{
    let n = shortcuts.len();
    let mut i: usize = 0;
    while i < n
        invariant
            n == shortcuts@.len(),
            i <= n,
            forall|j: int| 0 <= j < i ==> #[trigger] shortcuts@[j].id@ != id@,
        decreases n - i,
    {
        if text_eq(shortcuts[i].id.as_str(), id) {
            return Some(i);
        }
        i = i + 1;
    }
    None
}

/// What opening the shortcut with the given id does: an `app` shortcut
/// starts its program, any other opens its path with the shell; with no such
/// shortcut, the error `Shortcut not found`.
pub fn open_shortcut(shortcuts: &Vec<ShortcutItem>, id: &str) -> (r: Result<ShortcutLaunch, String>)
    ensures
        (forall|j: int| 0 <= j < shortcuts@.len() ==> #[trigger] shortcuts@[j].id@ != id@) ==> (
        r matches Err(e) && e@ == "Shortcut not found"@),
        (exists|j: int| 0 <= j < shortcuts@.len() && #[trigger] shortcuts@[j].id@ == id@) ==> (
        exists|i: int|
            0 <= i < shortcuts@.len() && #[trigger] shortcuts@[i].id@ == id@ && (forall|j: int|
                0 <= j < i ==> #[trigger] shortcuts@[j].id@ != id@) && match r {
                Ok(ShortcutLaunch::StartProgram(p)) => shortcuts@[i].kind@ == "app"@
                    && p@ == shortcuts@[i].path@,
                Ok(ShortcutLaunch::OpenWithShell(p)) => shortcuts@[i].kind@ != "app"@
                    && p@ == shortcuts@[i].path@,
                Err(_) => false,
            }),
{
    match find_shortcut(shortcuts, id) {
        Some(i) => {
            let item = &shortcuts[i];
            if text_eq(item.kind.as_str(), "app") {
                Ok(ShortcutLaunch::StartProgram(item.path.clone()))
            } else {
                Ok(ShortcutLaunch::OpenWithShell(item.path.clone()))
            }
        },
        None => Err(owned("Shortcut not found")),
    }
}

/// A shortcut brought up to date: a folder's name becomes the name of the
/// directory that holds it (where there is one), and the icon becomes the
/// freshly made one (where one could be made). Whether anything changed.
pub open spec fn refreshed(
    s: ShortcutView,
    parent_name: Option<Seq<char>>,
    icon: Option<Seq<char>>,
) -> (ShortcutView, bool) {
    let name = if s.kind == "folder"@ {
        match parent_name {
            Some(n) => n,
            None => s.name,
        }
    } else {
        s.name
    };
    let new_icon = match icon {
        Some(i) => Some(i),
        None => s.icon,
    };
    (
        ShortcutView { name, icon: new_icon, ..s },
        name != s.name || (icon is Some && icon != s.icon),
    )
}

/// One shortcut brought up to date (see `refreshed`).
pub fn refresh_shortcut(
    item: &ShortcutItem,
    parent_name: Option<&str>,
    icon: &Option<String>,
) -> (r: (ShortcutItem, bool))
    ensures
        (r.0@, r.1) == refreshed(
            item@,
            match parent_name {
                Some(n) => Some(n@),
                None => None,
            },
            opt_text_view(*icon),
        ),
{
    let mut s = item.clone();
    let mut changed = false;
    if text_eq(item.kind.as_str(), "folder") {
        let new_name = match parent_name {
            Some(n) => owned(n),
            None => item.name.clone(),
        };
        if !text_eq(item.name.as_str(), new_name.as_str()) {
            s.name = new_name;
            changed = true;
        }
    }
    if icon.is_some() {
        if !opt_text_eq(&item.icon, icon) {
            s.icon = clone_opt_text(icon);
            changed = true;
        }
    }
    (s, changed)
}

/// `out` and `changed` are the shortcuts brought up to date with the names
/// of the directories that hold them (`parents`) and the fresh icons, and
/// whether any changed.
pub open spec fn refreshed_all(
    items: Seq<ShortcutItem>,
    parents: Seq<Option<Seq<char>>>,
    icons: Seq<Option<String>>,
    out: Seq<ShortcutItem>,
    changed: bool,
) -> bool {
    &&& parents.len() == items.len()
    &&& forall|i: int| 0 <= i < items.len() ==> opt_within_parent(#[trigger] parents[i], items[i]@.path)
    &&& forall|i: int| 0 <= i < items.len() && is_simple_path(items[i]@.path) ==> #[trigger] parents[i] == simple_parent_name(items[i]@.path)
    &&& out.len() == items.len()
    &&& forall|i: int|
        0 <= i < items.len() ==> (#[trigger] out[i])@ == refreshed(
            items[i]@,
            parents[i],
            opt_text_view(icons[i]),
        ).0
    &&& changed == exists|i: int|
        0 <= i < items.len() && #[trigger] refreshed(
            items[i]@,
            parents[i],
            opt_text_view(icons[i]),
        ).1
}

/// All shortcuts brought up to date, with the icons freshly made for them
/// (one per shortcut, none where none could be made), and whether any
/// changed. The name of the directory that holds a folder comes from the
/// platform's path rules (see `path_parent`), so it is stated only that one
/// was taken for each shortcut.
pub fn refresh_shortcuts(shortcuts: &Vec<ShortcutItem>, icons: &Vec<Option<String>>) -> (r: (
    Vec<ShortcutItem>,
    bool,
))
    requires
        icons@.len() == shortcuts@.len(),
    ensures
        r.0@.len() == shortcuts@.len(),
        exists|parents: Seq<Option<Seq<char>>>|
            #[trigger] refreshed_all(shortcuts@, parents, icons@, r.0@, r.1),
{
    let n = shortcuts.len();
    let mut out: Vec<ShortcutItem> = Vec::new();
    let mut changed = false;
    let ghost mut parents: Seq<Option<Seq<char>>> = Seq::empty();
    let mut i: usize = 0;
    while i < n
        invariant
            n == shortcuts@.len(),
            n == icons@.len(),
            i <= n,
            out@.len() == i,
            parents.len() == i,
            forall|j: int|
                0 <= j < i ==> opt_within_parent(#[trigger] parents[j], shortcuts@[j]@.path),
            forall|j: int|
                0 <= j < i && is_simple_path(shortcuts@[j]@.path) ==> #[trigger] parents[j]
                    == simple_parent_name(shortcuts@[j]@.path),
            forall|j: int|
                0 <= j < i ==> (#[trigger] out@[j])@ == refreshed(
                    shortcuts@[j]@,
                    parents[j],
                    opt_text_view(icons@[j]),
                ).0,
            changed == exists|j: int|
                0 <= j < i && #[trigger] refreshed(
                    shortcuts@[j]@,
                    parents[j],
                    opt_text_view(icons@[j]),
                ).1,
        decreases n - i,
    {
        let parent_name = parent_dir_name(shortcuts[i].path.as_str());
        let (s, c) = refresh_shortcut(&shortcuts[i], parent_name, &icons[i]);
        let ghost pn = match parent_name {
            Some(x) => Some(x@),
            None => None::<Seq<char>>,
        };
        let ghost old_parents = parents;
        let ghost old_changed = changed;
        proof {
            parents = parents.push(pn);
        }
        out.push(s);
        changed = changed || c;
        proof {
            let icon_i = opt_text_view(icons@[i as int]);
            assert(refreshed(shortcuts@[i as int]@, parents[i as int], icon_i).1 == c);
            assert forall|j: int| 0 <= j < i implies parents[j] == old_parents[j] by {}
            assert(opt_within_parent(parents[i as int], shortcuts@[i as int]@.path));
            if old_changed {
                let j0 = choose|j: int|
                    0 <= j < i && #[trigger] refreshed(
                        shortcuts@[j]@,
                        old_parents[j],
                        opt_text_view(icons@[j]),
                    ).1;
                assert(refreshed(shortcuts@[j0]@, parents[j0], opt_text_view(icons@[j0])).1);
            } else if c {
                assert(refreshed(shortcuts@[i as int]@, parents[i as int], icon_i).1);
            } else {
                assert forall|j: int| 0 <= j < i + 1 implies !#[trigger] refreshed(
                    shortcuts@[j]@,
                    parents[j],
                    opt_text_view(icons@[j]),
                ).1 by {
                    if j < i {
                        assert(parents[j] == old_parents[j]);
                    }
                }
            }
        }
        i = i + 1;
    }
    assert(refreshed_all(shortcuts@, parents, icons@, out@, changed));
    let r = (out, changed);
    assert(refreshed_all(shortcuts@, parents, icons@, r.0@, r.1));
    r
}

/// No two shortcuts share a path.
pub open spec fn paths_distinct(ss: Seq<ShortcutView>) -> bool {
    forall|i: int, j: int| 0 <= i < j < ss.len() ==> #[trigger] ss[i].path != #[trigger] ss[j].path
}

/// Law: adding a shortcut never makes two shortcuts share a path.
pub proof fn law_add_keeps_paths_distinct(ss: Seq<ShortcutView>, item: ShortcutView)
    requires
        paths_distinct(ss),
    ensures
        paths_distinct(if has_path(ss, item.path) { ss } else { ss.push(item) }),
{
    if !has_path(ss, item.path) {
        let t = ss.push(item);
        assert forall|i: int, j: int| 0 <= i < j < t.len() implies #[trigger] t[i].path
            != #[trigger] t[j].path by {
            if j < ss.len() {
                assert(ss[i].path != ss[j].path);
            } else {
                assert(ss[i].path != item.path);
            }
        }
    }
}

/// Law: after removing an id, no shortcut has it, and every other shortcut
/// is still there.
pub proof fn law_removed_id_is_gone(ss: Seq<ShortcutView>, id: Seq<char>)
    ensures
        forall|i: int| 0 <= i < without_id(ss, id).len() ==> #[trigger] without_id(ss, id)[i].id != id,
        forall|i: int|
            0 <= i < ss.len() && #[trigger] ss[i].id != id ==> without_id(ss, id).contains(ss[i]),
    decreases ss.len(),
{
    if ss.len() > 0 {
        law_removed_id_is_gone(ss.drop_last(), id);
        let rest = without_id(ss.drop_last(), id);
        assert forall|i: int| 0 <= i < ss.len() && #[trigger] ss[i].id != id implies without_id(
            ss,
            id,
        ).contains(ss[i]) by {
            if i < ss.len() - 1 {
                assert(ss.drop_last()[i] == ss[i]);
                assert(rest.contains(ss[i]));
                let k = choose|k: int| 0 <= k < rest.len() && rest[k] == ss[i];
                if ss.last().id != id {
                    assert(without_id(ss, id)[k] == ss[i]);
                }
            } else {
                assert(without_id(ss, id).last() == ss[i]);
            }
        }
    }
}

/// Law: removing an id keeps exactly the shortcuts with another id, in the
/// order they had.
pub proof fn law_remove_keeps_order(ss: Seq<ShortcutView>, id: Seq<char>)
    ensures
        without_id(ss, id) == ss.filter(|s: ShortcutView| s.id != id),
    decreases ss.len(),
{
    reveal(Seq::filter);
    if ss.len() > 0 {
        law_remove_keeps_order(ss.drop_last(), id);
    }
}

/// Law: refreshing a shortcut keeps its id, path and kind; it takes the fresh
/// icon where one was made and keeps its own otherwise; only a folder is
/// renamed, after the directory that holds it; and it counts as changed
/// exactly when its name or icon differs afterwards.
pub proof fn law_refresh_keeps_what_it_cannot_renew(
    s: ShortcutView,
    parent_name: Option<Seq<char>>,
    icon: Option<Seq<char>>,
)
    ensures
        ({
            let (t, changed) = refreshed(s, parent_name, icon);
            &&& t.id == s.id && t.path == s.path && t.kind == s.kind
            &&& icon is None ==> t.icon == s.icon
            &&& icon matches Some(x) ==> t.icon == Some(x)
            &&& s.kind != "folder"@ ==> t.name == s.name
            &&& (s.kind == "folder"@ && parent_name is Some) ==> Some(t.name) == parent_name
            &&& parent_name is None ==> t.name == s.name
            &&& changed <==> (t.name != s.name || t.icon != s.icon)
            &&& (icon is None && parent_name is None) ==> !changed
        }),
{
}

} // verus!
