//! Paths as character strings whose components are separated by `/`.
//!
//! A path is read as paths are: by its components. Repeated and trailing
//! separators and `.` components name nothing and are passed over; a `..`
//! component is kept as it is written, since nothing here touches the file
//! system and no path is canonicalised.

use vstd::prelude::*;
use vstd::string::*;

verus! {

/// The character that separates the components of a path.
pub const SEPARATOR: char = '/';

/// The index of the last occurrence of `c` in `s`, or -1 where there is none.
pub open spec fn last_index_of(s: Seq<char>, c: char) -> int
    decreases s.len(),
{
    if s.len() == 0 {
        -1
    } else if s.last() == c {
        s.len() - 1
    } else {
        last_index_of(s.drop_last(), c)
    }
}

/// Whether `p` starts at the root of the file system.
pub open spec fn is_absolute(p: Seq<char>) -> bool {
    p.len() > 0 && p[0] == SEPARATOR
}

/// `rel` appended to `base`. An absolute `rel` replaces `base`; otherwise one
/// separator is put between the two unless `base` is empty or ends with one.
pub open spec fn joined(base: Seq<char>, rel: Seq<char>) -> Seq<char> {
    if is_absolute(rel) {
        rel
    } else if base.len() == 0 || base.last() == SEPARATOR {
        base + rel
    } else {
        base + seq![SEPARATOR] + rel
    }
}

/// Whether the text `c` between two separators is a component: it is neither
/// empty nor `.`.
pub open spec fn is_component(c: Seq<char>) -> bool {
    c.len() > 0 && c != seq!['.']
}

/// `done` with `c` behind it, where `c` is a component.
pub open spec fn with_component(done: Seq<Seq<char>>, c: Seq<char>) -> Seq<Seq<char>> {
    if is_component(c) {
        done.push(c)
    } else {
        done
    }
}

/// The components of `p`, first to last: the texts between its separators,
/// without the empty ones and without `.`.
pub open spec fn components_of(p: Seq<char>) -> Seq<Seq<char>>
    decreases p.len(),
{
    if p.len() == 0 {
        Seq::empty()
    } else {
        let i = last_index_of(p, SEPARATOR);
        if 0 <= i < p.len() {
            with_component(components_of(p.take(i)), p.skip(i + 1))
        } else {
            with_component(Seq::empty(), p)
        }
    }
}

/// The components `c` written as one path, with a separator between each two.
pub open spec fn joined_components(c: Seq<Seq<char>>) -> Seq<char>
    decreases c.len(),
{
    if c.len() == 0 {
        Seq::empty()
    } else if c.len() == 1 {
        c[0]
    } else {
        joined_components(c.drop_last()) + seq![SEPARATOR] + c.last()
    }
}

/// What each of `texts` holds.
pub open spec fn text_views(texts: Seq<String>) -> Seq<Seq<char>> {
    texts.map_values(|s: String| s@)
}

/// The file name of `p`: its last component. There is none where `p` has no
/// component or ends in `..`.
pub open spec fn file_name_of(p: Seq<char>) -> Option<Seq<char>> {
    let c = components_of(p);
    if c.len() == 0 || c.last() == seq!['.', '.'] {
        None
    } else {
        Some(c.last())
    }
}

/// The extension of `p`: what follows the last `.` of its file name. There is
/// none where `p` has no file name, and where the file name holds no `.` or
/// holds its only `.` in front.
pub open spec fn extension_of(p: Seq<char>) -> Option<Seq<char>> {
    match file_name_of(p) {
        Some(name) => {
            let i = last_index_of(name, '.');
            if i <= 0 {
                None
            } else {
                Some(name.skip(i + 1))
            }
        },
        None => None,
    }
}

/// `last_index_of` is -1 or an index at which `c` stands, and `c` stands
/// nowhere behind it.
pub proof fn lemma_last_index_of(s: Seq<char>, c: char)
    ensures
        -1 <= last_index_of(s, c) < s.len(),
        last_index_of(s, c) >= 0 ==> s[last_index_of(s, c)] == c,
        forall|j: int| last_index_of(s, c) < j < s.len() ==> s[j] != c,
    decreases s.len(),
{
    if s.len() > 0 && s.last() != c {
        lemma_last_index_of(s.drop_last(), c);
        assert forall|j: int| last_index_of(s, c) < j < s.len() implies s[j] != c by {
            if j < s.len() - 1 {
                assert(s.drop_last()[j] == s[j]);
            }
        }
    }
}

/// The last occurrence of `c` in `x + y` is its last occurrence in `y`, or,
/// where `y` holds none, its last occurrence in `x`.
pub proof fn lemma_last_index_of_concat(x: Seq<char>, y: Seq<char>, c: char)
    ensures
        last_index_of(x + y, c) == if last_index_of(y, c) >= 0 {
            x.len() + last_index_of(y, c)
        } else {
            last_index_of(x, c)
        },
    decreases y.len(),
{
    if y.len() > 0 {
        assert((x + y).drop_last() == x + y.drop_last());
        lemma_last_index_of_concat(x, y.drop_last(), c);
    }
}

/// No component holds a separator, is empty or is `.`.
pub proof fn lemma_components_are_components(p: Seq<char>, k: int)
    requires
        0 <= k < components_of(p).len(),
    ensures
        is_component(components_of(p)[k]),
        last_index_of(components_of(p)[k], SEPARATOR) < 0,
    decreases p.len(),
{
    let i = last_index_of(p, SEPARATOR);
    lemma_last_index_of(p, SEPARATOR);
    let head = if 0 <= i < p.len() {
        p.take(i)
    } else {
        Seq::empty()
    };
    let tail = p.skip(i + 1);
    lemma_components_of_prefix(p);
    if k < components_of(head).len() {
        lemma_components_are_components(head, k);
    } else {
        lemma_last_index_of(tail, SEPARATOR);
        if last_index_of(tail, SEPARATOR) >= 0 {
            assert(tail[last_index_of(tail, SEPARATOR)] == p[i + 1 + last_index_of(
                tail,
                SEPARATOR,
            )]);
        }
    }
}

/// The components of `p` are those of what stands before its last separator,
/// and then what stands behind it, where that is a component.
pub proof fn lemma_components_of_prefix(p: Seq<char>)
    requires
        p.len() > 0,
    ensures
        ({
            let i = last_index_of(p, SEPARATOR);
            let head = if 0 <= i < p.len() {
                p.take(i)
            } else {
                Seq::empty()
            };
            components_of(p) == with_component(components_of(head), p.skip(i + 1))
        }),
{
    let i = last_index_of(p, SEPARATOR);
    lemma_last_index_of(p, SEPARATOR);
    if i < 0 {
        assert(p.skip(i + 1) == p);
    }
}

/// The components of two paths with a separator between them are those of
/// the first and then those of the second.
pub proof fn lemma_components_concat(a: Seq<char>, b: Seq<char>)
    ensures
        components_of(a + seq![SEPARATOR] + b) == components_of(a) + components_of(b),
    decreases b.len(),
{
    let front = a + seq![SEPARATOR];
    let p = front + b;
    let j = last_index_of(b, SEPARATOR);
    lemma_last_index_of(b, SEPARATOR);
    lemma_last_index_of_concat(front, b, SEPARATOR);
    lemma_components_of_prefix(p);
    if j >= 0 {
        let i = a.len() + 1 + j;
        assert(p.take(i) == a + seq![SEPARATOR] + b.take(j));
        assert(p.skip(i + 1) == b.skip(j + 1));
        lemma_components_concat(a, b.take(j));
        lemma_components_of_prefix(b);
        assert(components_of(a) + with_component(components_of(b.take(j)), b.skip(j + 1))
            == with_component(components_of(a) + components_of(b.take(j)), b.skip(j + 1)));
    } else {
        assert(p.take(a.len() as int) == a);
        assert(p.skip(a.len() as int + 1) == b);
        if b.len() > 0 {
            lemma_components_of_prefix(b);
            assert(components_of(a) + with_component(Seq::empty(), b) == with_component(
                components_of(a),
                b,
            ));
        }
    }
}

/// A relative path joined onto a base has the components of the base and
/// then its own, and starts at the root exactly where the base does.
pub proof fn lemma_components_joined(base: Seq<char>, rel: Seq<char>)
    requires
        !is_absolute(rel),
    ensures
        components_of(joined(base, rel)) == components_of(base) + components_of(rel),
        is_absolute(joined(base, rel)) == is_absolute(base),
{
    if base.len() > 0 && base.last() == SEPARATOR {
        let front = base.drop_last();
        assert(base + rel == front + seq![SEPARATOR] + rel);
        lemma_components_concat(front, Seq::empty());
        lemma_components_concat(front, rel);
    } else if base.len() > 0 {
        lemma_components_concat(base, rel);
    }
}

/// A path that starts with a separator has the components of what follows.
pub proof fn lemma_components_after_separator(p: Seq<char>)
    ensures
        components_of(seq![SEPARATOR] + p) == components_of(p),
{
    lemma_components_concat(Seq::empty(), p);
}

/// Components written as one path are read back as they were, and the path
/// is relative.
pub proof fn lemma_components_of_joined_components(c: Seq<Seq<char>>)
    requires
        forall|k: int|
            0 <= k < c.len() ==> is_component(#[trigger] c[k]) && last_index_of(c[k], SEPARATOR)
                < 0,
    ensures
        components_of(joined_components(c)) == c,
        !is_absolute(joined_components(c)),
    decreases c.len(),
{
    if c.len() > 0 {
        lemma_last_index_of(c.last(), SEPARATOR);
        lemma_components_of_prefix(c.last());
    }
    if c.len() > 1 {
        lemma_components_of_joined_components(c.drop_last());
        lemma_components_concat(joined_components(c.drop_last()), c.last());
        lemma_last_index_of(c[0], SEPARATOR);
        lemma_joined_components_start(c);
    }
}

/// Components written as one path start with the first of them.
pub proof fn lemma_joined_components_start(c: Seq<Seq<char>>)
    requires
        c.len() > 0,
        c[0].len() > 0,
    ensures
        joined_components(c).len() > 0,
        joined_components(c)[0] == c[0][0],
    decreases c.len(),
{
    if c.len() > 1 {
        lemma_joined_components_start(c.drop_last());
    }
}

/// Finds the last occurrence of `c` in `s`.
pub fn find_last(s: &str, c: char) -> (r: Option<usize>)
    ensures
        match r {
            Some(i) => i == last_index_of(s@, c),
            None => last_index_of(s@, c) == -1,
        },
{
    let n: usize = s.unicode_len();
    let mut i: usize = 0;
    let mut last: Option<usize> = None;
    for x in it: s.chars()
        invariant
            n == s@.len(),
            i == it.index(),
            it.seq() == s@,
            match last {
                Some(j) => j == last_index_of(s@.take(i as int), c),
                None => last_index_of(s@.take(i as int), c) == -1,
            },
    {
        assert(s@.take(i as int + 1).drop_last() == s@.take(i as int));
        if x == c {
            last = Some(i);
        }
        i = i + 1;
    }
    assert(s@.take(i as int) == s@);
    last
}

/// Whether the text `c` between two separators is a component.
pub fn is_a_component(c: &str) -> (r: bool)
    ensures
        r == is_component(c@),
{
    let n: usize = c.unicode_len();
    if n == 1 && c.get_char(0) == '.' {
        assert(c@ == seq!['.']);
        false
    } else {
        n > 0
    }
}

/// The components of `p`, first to last.
pub fn components(p: &str) -> (r: Vec<String>)
    ensures
        text_views(r@) == components_of(p@),
{
    let mut out: Vec<String> = Vec::new();
    let mut rest: &str = p;
    let mut n: usize = rest.unicode_len();
    while n > 0
        invariant
            n == rest@.len(),
            components_of(p@) == components_of(rest@) + text_views(out@),
        decreases n,
    {
        proof {
            lemma_last_index_of(rest@, SEPARATOR);
            lemma_components_of_prefix(rest@);
        }
        let ghost before = text_views(out@);
        let (head, tail) = match find_last(rest, SEPARATOR) {
            Some(i) => (rest.substring_char(0, i), rest.substring_char(i + 1, n)),
            None => (rest.substring_char(0, 0), rest),
        };
        if is_a_component(tail) {
            out.insert(0, tail.to_owned());
            assert(components_of(head@).push(tail@) + before == components_of(head@) + (seq![
                tail@,
            ] + before));
        }
        rest = head;
        n = rest.unicode_len();
    }
    out
}

/// The components `c` written as one path.
pub fn join_components(c: &Vec<String>) -> (r: String)
    ensures
        r@ == joined_components(text_views(c@)),
{
    let mut text = String::new();
    let n: usize = c.len();
    let mut i: usize = 0;
    let ghost all = text_views(c@);
    while i < n
        invariant
            i <= n,
            n == c@.len(),
            all == text_views(c@),
            text@ == joined_components(all.take(i as int)),
        decreases n - i,
    {
        assert(all.take(i as int + 1).drop_last() == all.take(i as int));
        if i > 0 {
            proof {
                reveal_strlit("/");
            }
            text.append("/");
        }
        text.append(c[i].as_str());
        i = i + 1;
    }
    assert(all.take(n as int) == all);
    text
}

/// The extension of `p`, if it has one.
pub fn extension(p: &str) -> (r: Option<String>)
    ensures
        match r {
            Some(e) => extension_of(p@) == Some(e@),
            None => extension_of(p@) is None,
        },
{
    let c = components(p);
    let k: usize = c.len();
    if k == 0 {
        return None;
    }
    let name: &str = c[k - 1].as_str();
    let n: usize = name.unicode_len();
    proof {
        lemma_last_index_of(name@, '.');
    }
    if n == 2 && name.get_char(0) == '.' && name.get_char(1) == '.' {
        assert(name@ == seq!['.', '.']);
        return None;
    }
    match find_last(name, '.') {
        Some(i) => if i == 0 {
            None
        } else {
            Some(name.substring_char(i + 1, n).to_owned())
        },
        None => None,
    }
}

/// Appends `rel` to `base`.
pub fn join(base: &str, rel: &str) -> (r: String)
    ensures
        r@ == joined(base@, rel@),
{
    let n: usize = base.unicode_len();
    if rel.unicode_len() > 0 && rel.get_char(0) == SEPARATOR {
        return rel.to_owned();
    }
    let mut r = base.to_owned();
    if n > 0 && base.get_char(n - 1) != SEPARATOR {
        proof {
            reveal_strlit("/");
        }
        r.append("/");
    }
    r.append(rel);
    r
}

} // verus!
