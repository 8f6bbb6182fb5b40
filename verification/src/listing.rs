//! The listing of a directory: its rows, its heading and its page.
//!
//! A directory is told by the relative path that the request named. Where it
//! lies is read from that path's components, so `sub`, `sub/` and `./sub/.`
//! are one directory with one listing.

use std::collections::HashMap;
use vstd::prelude::*;
use vstd::string::*;
use vstd::utf8::encode_utf8;
use crate::error::{render_failure_text, ServeError};
use crate::paths::{
    components, components_of, find_last, is_absolute, is_component, join_components, joined,
    joined_components, lemma_components_after_separator, lemma_components_are_components,
    lemma_components_concat, lemma_components_joined, lemma_components_of_joined_components,
    lemma_joined_components_start, lemma_last_index_of, last_index_of, text_views, SEPARATOR,
};
use crate::resolve::{
    has_escape, lemma_link_resolves, resolved_path, without_leading_separator,
};

verus! {

/// The name of the row that leads to the directory above.
pub const PARENT_NAME: &'static str = "..";

/// The page that a listing is rendered from. `dir_name` is the heading;
/// `files` is the sequence of rows, each with a `name` and a `path`.
pub const LISTING_TEMPLATE: &'static str =
    "<!DOCTYPE html>\n<html>\n<head>\n<meta charset=\"utf-8\">\n<title>Index of {{ dir_name }}</title>\n</head>\n<body>\n<h1>Index of {{ dir_name }}</h1>\n<ul>\n{% for file in files %}<li><a href=\"{{ file.path }}\">{{ file.name }}</a></li>\n{% endfor %}</ul>\n</body>\n</html>\n";

/// One child of a directory, as the file system told it.
#[derive(Debug, Clone)]
pub struct Child {
    /// The child's name within its directory.
    pub name: String,
    /// Whether the child is itself a directory.
    pub is_dir: bool,
}

/// What a `Child` holds.
pub ghost struct ChildView {
    pub name: Seq<char>,
    pub is_dir: bool,
}

impl View for Child {
    type V = ChildView;

    open spec fn view(&self) -> ChildView {
        ChildView { name: self.name@, is_dir: self.is_dir }
    }
}

/// One row of a listing.
#[derive(Debug, Clone)]
pub struct DirEntry {
    /// What the row shows: the entry's name, with a separator behind it where
    /// the entry is a directory.
    pub name: String,
    /// Where the row leads: the request path of the entry, which starts with a
    /// separator.
    pub link_path: String,
}

/// What a `DirEntry` holds.
pub ghost struct DirEntryView {
    pub name: Seq<char>,
    pub link_path: Seq<char>,
}

impl View for DirEntry {
    type V = DirEntryView;

    open spec fn view(&self) -> DirEntryView {
        DirEntryView { name: self.name@, link_path: self.link_path@ }
    }
}

/// What each of `children` holds.
pub open spec fn child_views(children: Seq<Child>) -> Seq<ChildView> {
    children.map_values(|c: Child| c@)
}

/// What each of `entries` holds.
pub open spec fn entry_views(entries: Seq<DirEntry>) -> Seq<DirEntryView> {
    entries.map_values(|e: DirEntry| e@)
}


/// Where a directory lies.
#[derive(Debug)]
pub struct Location {
    /// Whether the directory lies under the root, or is the root.
    pub under_root: bool,
    /// The directory's components: from the root on where it lies under the
    /// root, and otherwise from the root of the file system on.
    pub components: Vec<String>,
}

/// What a `Location` holds.
pub ghost struct LocationView {
    pub under_root: bool,
    pub components: Seq<Seq<char>>,
}

impl View for Location {
    type V = LocationView;

    open spec fn view(&self) -> LocationView {
        LocationView { under_root: self.under_root, components: text_views(self.components@) }
    }
}

/// Whether `name` can be the name of a child: it is not empty and holds no
/// separator.
pub open spec fn valid_name(name: Seq<char>) -> bool {
    name.len() > 0 && forall|i: int| 0 <= i < name.len() ==> name[i] != SEPARATOR
}

/// Whether the components `a` are the first of the components `b`.
pub open spec fn is_prefix(a: Seq<Seq<char>>, b: Seq<Seq<char>>) -> bool {
    a.len() <= b.len() && forall|i: int| 0 <= i < a.len() ==> a[i] == b[i]
}

/// Where the directory lies that the relative path `dir` names under `root`.
///
/// A relative `dir` lies under the root, at its own components. An absolute
/// `dir` has replaced the root when it was joined onto it: it lies under the
/// root where its components start with those of an absolute root, and
/// outside it otherwise.
pub open spec fn location_of(root: Seq<char>, dir: Seq<char>) -> LocationView {
    let d = components_of(dir);
    let r = components_of(root);
    if !is_absolute(dir) {
        LocationView { under_root: true, components: d }
    } else if is_absolute(root) && is_prefix(r, d) {
        LocationView { under_root: true, components: d.skip(r.len() as int) }
    } else {
        LocationView { under_root: false, components: d }
    }
}

/// Whether the directory at `location` is the root itself.
pub open spec fn is_root(location: LocationView) -> bool {
    location.under_root && location.components.len() == 0
}

/// The request path that names `path`: one separator in front where `path`
/// is meant from the root on, and two where it is meant from the root of the
/// file system on.
pub open spec fn link_text(under_root: bool, path: Seq<char>) -> Seq<char> {
    if under_root {
        seq![SEPARATOR] + path
    } else {
        seq![SEPARATOR, SEPARATOR] + path
    }
}

/// The components of the directory above the one with the components `c`.
/// Nothing lies above the root of the file system.
pub open spec fn parent_components(c: Seq<Seq<char>>) -> Seq<Seq<char>> {
    if c.len() == 0 {
        c
    } else {
        c.drop_last()
    }
}

/// The row of the child `child` of the directory at `location`.
pub open spec fn child_entry(location: LocationView, child: ChildView) -> DirEntryView {
    DirEntryView {
        name: if child.is_dir {
            child.name + seq![SEPARATOR]
        } else {
            child.name
        },
        link_path: link_text(
            location.under_root,
            joined_components(location.components.push(child.name)),
        ),
    }
}

/// The row that leads from the directory at `location` to the one above it.
pub open spec fn parent_entry(location: LocationView) -> DirEntryView {
    DirEntryView {
        name: PARENT_NAME@,
        link_path: link_text(
            location.under_root,
            joined_components(parent_components(location.components)),
        ),
    }
}

/// The rows of the children of the directory at `location` in the order
/// given, without those whose name is not valid.
pub open spec fn child_entries(location: LocationView, children: Seq<ChildView>) -> Seq<
    DirEntryView,
>
    decreases children.len(),
{
    if children.len() == 0 {
        Seq::empty()
    } else if valid_name(children.last().name) {
        child_entries(location, children.drop_last()).push(child_entry(location, children.last()))
    } else {
        child_entries(location, children.drop_last())
    }
}

/// The rows of the listing of the directory at `location`: the row to the
/// directory above, unless the directory is the root, and then the
/// children's rows.
pub open spec fn entries_at(location: LocationView, children: Seq<ChildView>) -> Seq<
    DirEntryView,
> {
    if is_root(location) {
        child_entries(location, children)
    } else {
        seq![parent_entry(location)] + child_entries(location, children)
    }
}

/// The rows of the listing of the directory that `dir` names under `root`.
pub open spec fn entries_of(root: Seq<char>, dir: Seq<char>, children: Seq<ChildView>) -> Seq<
    DirEntryView,
> {
    entries_at(location_of(root, dir), children)
}

/// The components of the paths in the file system of the children of the
/// directory that `dir` names under `root`, for the children whose name is
/// valid, in the order given.
pub open spec fn child_targets(root: Seq<char>, dir: Seq<char>, children: Seq<ChildView>) -> Seq<
    Seq<Seq<char>>,
>
    decreases children.len(),
{
    if children.len() == 0 {
        Seq::empty()
    } else if valid_name(children.last().name) {
        child_targets(root, dir, children.drop_last()).push(
            components_of(joined(joined(root, dir), children.last().name)),
        )
    } else {
        child_targets(root, dir, children.drop_last())
    }
}

/// For each row of `entries_of(root, dir, children)`, the components of the
/// path in the file system of what the row was made for: the directory above
/// for the first row, unless the directory is the root, and then each child.
pub open spec fn targets_of(root: Seq<char>, dir: Seq<char>, children: Seq<ChildView>) -> Seq<
    Seq<Seq<char>>,
> {
    if is_root(location_of(root, dir)) {
        child_targets(root, dir, children)
    } else {
        seq![parent_components(components_of(joined(root, dir)))] + child_targets(
            root,
            dir,
            children,
        )
    }
}

/// The heading of the listing of the directory that `dir` names under
/// `root`, with one separator behind: the root's own name and then the
/// directory's components where it lies under the root, and its path from
/// the root of the file system on where it does not.
pub open spec fn heading_of(root: Seq<char>, dir: Seq<char>) -> Seq<char> {
    let location = location_of(root, dir);
    let r = components_of(root);
    if !location.under_root && location.components.len() == 0 {
        seq![SEPARATOR]
    } else if !location.under_root {
        seq![SEPARATOR] + joined_components(location.components) + seq![SEPARATOR]
    } else if r.len() > 0 {
        joined_components(seq![r.last()] + location.components) + seq![SEPARATOR]
    } else {
        joined_components(location.components) + seq![SEPARATOR]
    }
}

/// The rows as the template gets them: name and path of each.
pub open spec fn rows_of(entries: Seq<DirEntryView>) -> Seq<(Seq<char>, Seq<char>)> {
    entries.map_values(|e: DirEntryView| (e.name, e.link_path))
}

/// What `tera::Tera::one_off` returns for a template, a heading under
/// `dir_name` and rows under `files`, with escaping on: the page, or the
/// message of tera's error.
pub uninterp spec fn rendered_template(
    template: Seq<char>,
    dir_name: Seq<char>,
    files: Seq<(Seq<char>, Seq<char>)>,
) -> Result<Seq<char>, Seq<char>>;

/// The body of a listing, given what the renderer returned: the page as
/// UTF-8, or the text of the failure.
pub open spec fn listing_body(rendered: Result<Seq<char>, Seq<char>>) -> Seq<u8> {
    match rendered {
        Ok(page) => encode_utf8(page),
        Err(message) => encode_utf8(render_failure_text(message)),
    }
}

/// The body of the listing of the directory that `dir` names under `root`.
pub open spec fn listing_of(root: Seq<char>, dir: Seq<char>, children: Seq<ChildView>) -> Seq<u8> {
    listing_body(
        rendered_template(
            LISTING_TEMPLATE@,
            heading_of(root, dir),
            rows_of(entries_of(root, dir, children)),
        ),
    )
}

/// Every component of a location is a component of a path.
pub proof fn lemma_location_components(root: Seq<char>, dir: Seq<char>, k: int)
    requires
        0 <= k < location_of(root, dir).components.len(),
    ensures
        is_component(location_of(root, dir).components[k]),
        last_index_of(location_of(root, dir).components[k], SEPARATOR) < 0,
{
    let d = components_of(dir);
    let r = components_of(root);
    if is_absolute(dir) && is_absolute(root) && is_prefix(r, d) {
        lemma_components_are_components(dir, k + r.len());
    } else {
        lemma_components_are_components(dir, k);
    }
}

/// The components of the directory's path in the file system are those of
/// the root and then those of its location, where it lies under the root,
/// and those of its location where it does not.
pub proof fn lemma_location_in_file_system(root: Seq<char>, dir: Seq<char>)
    ensures
        location_of(root, dir).under_root ==> components_of(joined(root, dir)) == components_of(
            root,
        ) + location_of(root, dir).components && is_absolute(joined(root, dir)) == is_absolute(
            root,
        ),
        !location_of(root, dir).under_root ==> components_of(joined(root, dir)) == location_of(
            root,
            dir,
        ).components && is_absolute(joined(root, dir)),
{
    if !is_absolute(dir) {
        lemma_components_joined(root, dir);
    }
}

/// The link to a relative path `path` resolves to a path with the
/// components of `path`, behind those of the root where the link is meant
/// from the root on.
proof fn lemma_link_names(
    root: Seq<char>,
    under_root: bool,
    c: Seq<Seq<char>>,
    path: Seq<char>,
    tail: Seq<Seq<char>>,
)
    requires
        components_of(path) == c + tail,
        !is_absolute(path),
        !has_escape(encode_utf8(without_leading_separator(link_text(under_root, path)))),
    ensures
        match resolved_path(root, link_text(under_root, path)) {
            Some(t) => if under_root {
                components_of(t) == components_of(root) + c + tail && is_absolute(t)
                    == is_absolute(root)
            } else {
                components_of(t) == c + tail && is_absolute(t)
            },
            None => false,
        },
{
    if under_root {
        assert(without_leading_separator(seq![SEPARATOR] + path) == path);
        lemma_link_resolves(root, path);
        lemma_components_joined(root, path);
    } else {
        let rel = seq![SEPARATOR] + path;
        assert(seq![SEPARATOR, SEPARATOR] + path == seq![SEPARATOR] + rel);
        assert(without_leading_separator(seq![SEPARATOR] + rel) == rel);
        lemma_link_resolves(root, rel);
        lemma_components_after_separator(path);
    }
}

/// The components `c` and a valid name behind them, written as one path,
/// are a relative path with the components `c` and then those of the name.
proof fn lemma_child_path(c: Seq<Seq<char>>, name: Seq<char>)
    requires
        valid_name(name),
        forall|k: int|
            0 <= k < c.len() ==> is_component(#[trigger] c[k]) && last_index_of(c[k], SEPARATOR)
                < 0,
    ensures
        components_of(joined_components(c.push(name))) == c + components_of(name),
        !is_absolute(joined_components(c.push(name))),
{
    let all = c.push(name);
    assert(all.drop_last() == c);
    if c.len() > 0 {
        lemma_components_of_joined_components(c);
        lemma_components_concat(joined_components(c), name);
        lemma_last_index_of(c[0], SEPARATOR);
    }
    lemma_joined_components_start(all);
}

/// Every link of a listing starts with a separator.
pub proof fn lemma_links_start_at_root(
    root: Seq<char>,
    dir: Seq<char>,
    children: Seq<ChildView>,
    k: int,
)
    requires
        0 <= k < entries_of(root, dir, children).len(),
    ensures
        is_absolute(entries_of(root, dir, children)[k].link_path),
{
    let location = location_of(root, dir);
    if is_root(location) {
        lemma_child_links_start_at_root(location, children, k);
    } else if k > 0 {
        lemma_child_links_start_at_root(location, children, k - 1);
    }
}

/// Every link of a child's row starts with a separator.
proof fn lemma_child_links_start_at_root(location: LocationView, children: Seq<ChildView>, k: int)
    requires
        0 <= k < child_entries(location, children).len(),
    ensures
        is_absolute(child_entries(location, children)[k].link_path),
    decreases children.len(),
{
    let rest = children.drop_last();
    if !(valid_name(children.last().name) && k == child_entries(location, rest).len()) {
        lemma_child_links_start_at_root(location, rest, k);
    }
}

/// The rows and the targets of a directory's children go together one to
/// one, and where every child has a valid name there is one row for each.
pub proof fn lemma_child_rows_count(root: Seq<char>, dir: Seq<char>, children: Seq<ChildView>)
    ensures
        child_targets(root, dir, children).len() == child_entries(
            location_of(root, dir),
            children,
        ).len(),
        child_entries(location_of(root, dir), children).len() <= children.len(),
        (forall|i: int| 0 <= i < children.len() ==> valid_name(#[trigger] children[i].name))
            ==> child_entries(location_of(root, dir), children).len() == children.len(),
    decreases children.len(),
{
    if children.len() > 0 {
        let rest = children.drop_last();
        lemma_child_rows_count(root, dir, rest);
    }
}

/// A listing has one row for each child with a valid name, and before them
/// the row to the directory above exactly where the directory is not the
/// root.
pub proof fn lemma_rows_count(root: Seq<char>, dir: Seq<char>, children: Seq<ChildView>)
    requires
        forall|i: int| 0 <= i < children.len() ==> valid_name(#[trigger] children[i].name),
    ensures
        is_root(location_of(root, dir)) ==> entries_of(root, dir, children).len()
            == children.len(),
        !is_root(location_of(root, dir)) ==> entries_of(root, dir, children).len()
            == children.len() + 1 && entries_of(root, dir, children)[0] == parent_entry(
            location_of(root, dir),
        ),
        entries_of(root, dir, children).len() == targets_of(root, dir, children).len(),
{
    lemma_child_rows_count(root, dir, children);
}

/// Every child's row leads back to the child: its link, asked for as a
/// request path under the same root, resolves to the child's place in the
/// file system. This holds of each link whose bytes hold no escape; a name
/// such as `a%41` gives a link that resolves to another path.
pub proof fn lemma_child_links_resolve(
    root: Seq<char>,
    dir: Seq<char>,
    children: Seq<ChildView>,
    k: int,
)
    requires
        0 <= k < child_entries(location_of(root, dir), children).len(),
        !has_escape(
            encode_utf8(
                without_leading_separator(
                    child_entries(location_of(root, dir), children)[k].link_path,
                ),
            ),
        ),
    ensures
        k < child_targets(root, dir, children).len(),
        match resolved_path(root, child_entries(location_of(root, dir), children)[k].link_path) {
            Some(t) => components_of(t) == child_targets(root, dir, children)[k] && is_absolute(t)
                == is_absolute(joined(root, dir)),
            None => false,
        },
    decreases children.len(),
{
    let location = location_of(root, dir);
    lemma_child_rows_count(root, dir, children);
    let rest = children.drop_last();
    lemma_child_rows_count(root, dir, rest);
    if valid_name(children.last().name) && k == child_entries(location, rest).len() {
        let name = children.last().name;
        let c = location.components;
        assert forall|j: int| 0 <= j < c.len() implies is_component(#[trigger] c[j])
            && last_index_of(c[j], SEPARATOR) < 0 by {
            lemma_location_components(root, dir, j);
        }
        lemma_child_path(c, name);
        lemma_link_names(
            root,
            location.under_root,
            c,
            joined_components(c.push(name)),
            components_of(name),
        );
        lemma_location_in_file_system(root, dir);
        lemma_components_joined(joined(root, dir), name);
    } else {
        lemma_child_links_resolve(root, dir, rest, k);
    }
}

/// Every row of a listing leads back to what it was made for: its link,
/// asked for as a request path under the same root, resolves to the place in
/// the file system of the child, or of the directory above. The paths are
/// the same as paths are: by their components. This holds of each link
/// whose bytes hold no escape.
pub proof fn lemma_listing_links_resolve(
    root: Seq<char>,
    dir: Seq<char>,
    children: Seq<ChildView>,
    k: int,
)
    requires
        0 <= k < entries_of(root, dir, children).len(),
        !has_escape(
            encode_utf8(without_leading_separator(entries_of(root, dir, children)[k].link_path)),
        ),
    ensures
        entries_of(root, dir, children).len() == targets_of(root, dir, children).len(),
        match resolved_path(root, entries_of(root, dir, children)[k].link_path) {
            Some(t) => components_of(t) == targets_of(root, dir, children)[k] && is_absolute(t)
                == is_absolute(joined(root, dir)),
            None => false,
        },
{
    let location = location_of(root, dir);
    lemma_child_rows_count(root, dir, children);
    if is_root(location) {
        lemma_child_links_resolve(root, dir, children, k);
    } else if k == 0 {
        let pc = parent_components(location.components);
        assert forall|j: int| 0 <= j < pc.len() implies is_component(#[trigger] pc[j])
            && last_index_of(pc[j], SEPARATOR) < 0 by {
            lemma_location_components(root, dir, j);
        }
        lemma_components_of_joined_components(pc);
        lemma_link_names(root, location.under_root, pc, joined_components(pc), Seq::empty());
        lemma_location_in_file_system(root, dir);
    } else {
        lemma_child_links_resolve(root, dir, children, k - 1);
    }
}

/// Whether `name` can be the name of a child.
pub fn is_valid_name(name: &str) -> (r: bool)
    ensures
        r == valid_name(name@),
{
    proof {
        lemma_last_index_of(name@, SEPARATOR);
    }
    name.unicode_len() > 0 && find_last(name, SEPARATOR).is_none()
}

/// Whether the components `a` are the first of the components `b`.
fn starts_with(b: &Vec<String>, a: &Vec<String>) -> (r: bool)
    ensures
        r == is_prefix(text_views(a@), text_views(b@)),
{
    let n: usize = a.len();
    if n > b.len() {
        return false;
    }
    let mut i: usize = 0;
    while i < n
        invariant
            i <= n,
            n == a@.len(),
            n <= b@.len(),
            forall|j: int| 0 <= j < i ==> text_views(a@)[j] == text_views(b@)[j],
        decreases n - i,
    {
        if !(a[i] == b[i]) {
            assert(text_views(a@)[i as int] != text_views(b@)[i as int]);
            return false;
        }
        i = i + 1;
    }
    true
}

/// The components of `c` from index `from` up to index `to`.
fn some_components(c: &Vec<String>, from: usize, to: usize) -> (r: Vec<String>)
    requires
        from <= to <= c@.len(),
    ensures
        text_views(r@) == text_views(c@).subrange(from as int, to as int),
{
    let mut out: Vec<String> = Vec::new();
    let mut i: usize = from;
    while i < to
        invariant
            from <= i <= to,
            to <= c@.len(),
            text_views(out@) == text_views(c@).subrange(from as int, i as int),
        decreases to - i,
    {
        let ghost before = text_views(out@);
        out.push(c[i].clone());
        assert(text_views(out@) == before.push(c@[i as int]@));
        i = i + 1;
    }
    out
}

/// Where the directory lies that the relative path `dir` names under `root`.
pub fn locate(root: &str, dir: &str) -> (r: Location)
    ensures
        r@ == location_of(root@, dir@),
{
    let d = components(dir);
    if !(dir.unicode_len() > 0 && dir.get_char(0) == SEPARATOR) {
        return Location { under_root: true, components: d };
    }
    if root.unicode_len() > 0 && root.get_char(0) == SEPARATOR {
        let r = components(root);
        if starts_with(&d, &r) {
            let below = some_components(&d, r.len(), d.len());
            return Location { under_root: true, components: below };
        }
    }
    Location { under_root: false, components: d }
}

/// The request path that names `path`, from the root on or from the root of
/// the file system on.
fn link(under_root: bool, path: &str) -> (r: String)
    ensures
        r@ == link_text(under_root, path@),
{
    proof {
        reveal_strlit("/");
        reveal_strlit("//");
    }
    let mut text = if under_root {
        "/".to_owned()
    } else {
        "//".to_owned()
    };
    text.append(path);
    text
}

/// The row of `child` in the listing of the directory at `location`.
pub fn entry_for(location: &Location, child: &Child) -> (r: DirEntry)
    ensures
        r@ == child_entry(location@, child@),
{
    proof {
        reveal_strlit("/");
        assert("/"@ == seq![SEPARATOR]);
    }
    let mut name = child.name.clone();
    if child.is_dir {
        name.append("/");
    }
    let n: usize = location.components.len();
    let mut path = join_components(&location.components);
    if n > 0 {
        path.append("/");
    }
    path.append(child.name.as_str());
    proof {
        let c = text_views(location.components@);
        assert(c.push(child.name@).drop_last() == c);
    }
    DirEntry { name, link_path: link(location.under_root, path.as_str()) }
}

/// The rows of the listing of the directory that `dir` names under `root`:
/// first the row to the directory above, unless the directory is the root,
/// then one row for each of `children` in the order given. A child whose
/// name is empty or holds a separator gets no row.
pub fn list_entries(root: &str, dir: &str, children: &Vec<Child>) -> (r: Vec<DirEntry>)
    ensures
        entry_views(r@) == entries_of(root@, dir@, child_views(children@)),
{
    let location = locate(root, dir);
    let k: usize = location.components.len();
    let mut entries: Vec<DirEntry> = Vec::new();
    if !(location.under_root && k == 0) {
        let above = if k == 0 {
            some_components(&location.components, 0, 0)
        } else {
            some_components(&location.components, 0, k - 1)
        };
        let path = join_components(&above);
        let entry = DirEntry {
            name: PARENT_NAME.to_owned(),
            link_path: link(location.under_root, path.as_str()),
        };
        entries.push(entry);
    }
    let ghost first = entry_views(entries@);
    let ghost all = child_views(children@);
    let n: usize = children.len();
    let mut i: usize = 0;
    while i < n
        invariant
            i <= n,
            n == children@.len(),
            all == child_views(children@),
            entry_views(entries@) == first + child_entries(location@, all.take(i as int)),
        decreases n - i,
    {
        let child = &children[i];
        assert(all.take(i as int + 1).drop_last() == all.take(i as int));
        if is_valid_name(child.name.as_str()) {
            let entry = entry_for(&location, child);
            let ghost before = entry_views(entries@);
            entries.push(entry);
            assert(entry_views(entries@) == before.push(entry@));
        }
        i = i + 1;
    }
    assert(all.take(n as int) == all);
    entries
}

/// The heading of the listing of the directory that `dir` names under
/// `root`.
pub fn heading(root: &str, dir: &str) -> (r: String)
    ensures
        r@ == heading_of(root@, dir@),
{
    let location = locate(root, dir);
    let mut parts: Vec<String> = Vec::new();
    proof {
        reveal_strlit("/");
    }
    if !location.under_root {
        let mut text = "/".to_owned();
        if location.components.len() > 0 {
            let path = join_components(&location.components);
            text.append(path.as_str());
            text.append("/");
        }
        return text;
    }
    let r = components(root);
    let k: usize = r.len();
    if k > 0 {
        parts.push(r[k - 1].clone());
        assert(text_views(parts@) == seq![components_of(root@).last()]);
    }
    let ghost front = text_views(parts@);
    let n: usize = location.components.len();
    let mut i: usize = 0;
    while i < n
        invariant
            i <= n,
            n == location.components@.len(),
            text_views(parts@) == front + text_views(location.components@).take(i as int),
        decreases n - i,
    {
        let ghost before = text_views(parts@);
        parts.push(location.components[i].clone());
        assert(text_views(parts@) == before.push(location.components@[i as int]@));
        i = i + 1;
    }
    assert(text_views(location.components@).take(n as int) == text_views(location.components@));
    let mut text = join_components(&parts);
    text.append("/");
    text
}

/// What `tera::Tera::one_off(template, context, true)` returns, where the
/// context holds the heading under `dir_name` and, under `files`, one map for
/// each row with its `name` and its `path`. Trusted: for the listing template,
/// which calls no function of tera, the page or the error's message depends
/// on these values alone.
#[verifier::external_body]
fn render_template(template: &str, dir_name: &str, files: &Vec<DirEntry>) -> (r: Result<
    String,
    String,
>)
    requires
        template@ == LISTING_TEMPLATE@,
    ensures
        match r {
            Ok(page) => rendered_template(template@, dir_name@, rows_of(entry_views(files@)))
                == Ok::<Seq<char>, Seq<char>>(page@),
            Err(message) => rendered_template(template@, dir_name@, rows_of(entry_views(files@)))
                == Err::<Seq<char>, Seq<char>>(message@),
        },
{
    let rows: Vec<HashMap<&str, &str>> = files.iter().map(
        |f| HashMap::from([("name", f.name.as_str()), ("path", f.link_path.as_str())]),
    ).collect();
    let mut context = tera::Context::new();
    context.insert("files", &rows);
    context.insert("dir_name", dir_name);
    match tera::Tera::one_off(template, &context, true) {
        Ok(page) => Ok(page),
        Err(e) => Err(e.to_string()),
    }
}

/// The body of a listing from what the renderer returned: the page as UTF-8,
/// or, where rendering failed, the text of that failure.
pub fn listing_body_from(rendered: Result<String, String>) -> (r: Vec<u8>)
    ensures
        r@ == listing_body(
            match rendered {
                Ok(page) => Ok(page@),
                Err(message) => Err(message@),
            },
        ),
{
    match rendered {
        Ok(page) => page.as_str().as_bytes_vec(),
        Err(message) => ServeError::Render(message).body(),
    }
}

/// The page that lists the directory that the relative path `dir` names
/// under `root`, whose children are `children`. A failure to render does not
/// stop it: the body then tells of the failure.
pub fn handle_dir(root: &str, dir: &str, children: &Vec<Child>) -> (r: Vec<u8>)
    ensures
        r@ == listing_of(root@, dir@, child_views(children@)),
{
    let entries = list_entries(root, dir, children);
    let title = heading(root, dir);
    listing_body_from(render_template(LISTING_TEMPLATE, title.as_str(), &entries))
}

} // verus!
