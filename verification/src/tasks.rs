//! Remote paths, local trees to upload, and the steps of the background tasks.

use crate::text;
use vstd::prelude::*;
#[allow(unused_imports)]
use vstd::string::*;

pub mod collect;
pub mod deadline;

verus! {

/// A path without the slashes at its end.
pub open spec fn unslashed(path: Seq<char>) -> Seq<char>
    decreases path.len(),
{
    if path.len() > 0 && path.last() == '/' {
        unslashed(path.drop_last())
    } else {
        path
    }
}

/// Where the last slash of a path stands.
pub open spec fn last_slash(path: Seq<char>) -> Option<int>
    decreases path.len(),
{
    if path.len() == 0 {
        None
    } else if path.last() == '/' {
        Some(path.len() - 1)
    } else {
        last_slash(path.drop_last())
    }
}

/// The directory above a remote path. `.` and `/` are their own parents, a bare name stands in
/// `.`, and a path of slashes alone is the root.
pub open spec fn parent(path: Seq<char>) -> Seq<char> {
    if path == "."@ || path.len() == 0 {
        "."@
    } else if unslashed(path).len() == 0 {
        "/"@
    } else {
        match last_slash(unslashed(path)) {
            Some(i) => if i == 0 {
                "/"@
            } else {
                unslashed(path).take(i)
            },
            None => "."@,
        }
    }
}

/// A name below a remote directory: `..` is the directory's parent, and below `.` (or nothing)
/// the name stands by itself.
pub open spec fn join(base: Seq<char>, name: Seq<char>) -> Seq<char> {
    if name == ".."@ {
        parent(base)
    } else if base == "."@ || base.len() == 0 {
        name
    } else if base.last() == '/' {
        base + name
    } else {
        base + "/"@ + name
    }
}

/// An unslashed path is a prefix.
proof fn lemma_unslashed(path: Seq<char>)
    ensures
        unslashed(path).len() <= path.len(),
        unslashed(path) == path.take(unslashed(path).len() as int),
        unslashed(path).len() > 0 ==> unslashed(path).last() != '/',
    decreases path.len(),
{
    if path.len() > 0 && path.last() == '/' {
        lemma_unslashed(path.drop_last());
        assert(path.drop_last().take(unslashed(path).len() as int) =~= path.take(
            unslashed(path).len() as int,
        ));
    } else {
        assert(path.take(path.len() as int) =~= path);
    }
}

/// Cutting at a character that is no slash leaves the last slash where it is.
proof fn lemma_last_slash(path: Seq<char>, k: int)
    requires
        0 <= k <= path.len(),
        forall|j: int| k <= j < path.len() ==> path[j] != '/',
    ensures
        last_slash(path) == last_slash(path.take(k)),
        match last_slash(path) {
            Some(i) => 0 <= i < path.len(),
            None => true,
        },
    decreases path.len(),
{
    if path.len() == 0 {
        assert(path.take(k) =~= path);
    } else if k == path.len() {
        assert(path.take(k) =~= path);
        if path.last() != '/' {
            let shorter = path.drop_last();
            lemma_last_slash(shorter, shorter.len() as int);
        }
    } else {
        assert(path.last() != '/');
        lemma_last_slash(path.drop_last(), k);
        assert(path.drop_last().take(k) =~= path.take(k));
    }
}

/// The directory above a remote path.
pub fn parent_path(path: &str) -> (r: String)
    ensures
        r@ == parent(path@),
{
    proof {
        reveal_strlit(".");
        reveal_strlit("/");
    }
    if text::same(path, ".") || path.is_empty() {
        return ".".to_owned();
    }
    let chars = text::chars_of(path);
    let mut end: usize = chars.len();
    proof {
        assert(path@.take(end as int) =~= path@);
    }
    while end > 0 && chars[end - 1] == '/'
        invariant
            end <= chars@.len(),
            chars@ == path@,
            unslashed(path@) == unslashed(path@.take(end as int)),
        decreases end,
    {
        assert(path@.take(end as int).drop_last() =~= path@.take(end - 1));
        end -= 1;
    }
    if end == 0 {
        return "/".to_owned();
    }
    let ghost trimmed = path@.take(end as int);
    assert(unslashed(path@) == trimmed);
    let mut cut: usize = end;
    assert(trimmed.take(cut as int) =~= trimmed);
    while cut > 0 && chars[cut - 1] != '/'
        invariant
            cut <= end <= chars@.len(),
            chars@ == path@,
            trimmed == path@.take(end as int),
            last_slash(trimmed) == last_slash(trimmed.take(cut as int)),
        decreases cut,
    {
        assert(trimmed.take(cut as int).drop_last() =~= trimmed.take(cut - 1));
        cut -= 1;
    }
    if cut == 0 {
        return ".".to_owned();
    }
    let at: usize = cut - 1;
    assert(last_slash(trimmed) == Some(at as int));
    if at == 0 {
        return "/".to_owned();
    }
    assert(trimmed.take(at as int) =~= path@.subrange(0, at as int));
    path.substring_char(0, at).to_owned()
}

/// A name below a remote directory.
pub fn join_path(base: &str, name: &str) -> (r: String)
    ensures
        r@ == join(base@, name@),
{
    if text::same(name, "..") {
        return parent_path(base);
    }
    if text::same(base, ".") || base.is_empty() {
        return name.to_owned();
    }
    let n: usize = base.unicode_len();
    if base.get_char(n - 1) == '/' {
        text::concat(base, name)
    } else {
        text::concat3(base, "/", name)
    }
}

/// How far a path is from one that is its own parent.
pub open spec fn depth(path: Seq<char>) -> nat {
    if path == "."@ || path == "/"@ {
        0
    } else {
        path.len() + 1
    }
}

/// The way up ends.
pub proof fn lemma_parent_is_higher(path: Seq<char>)
    requires
        parent(path) != path,
    ensures
        depth(parent(path)) < depth(path),
{
    reveal_strlit(".");
    reveal_strlit("/");
    lemma_unslashed(path);
    let bare = unslashed(path);
    if path == "/"@ {
        assert(path.last() == '/');
        assert(path.drop_last() =~= Seq::<char>::empty());
        assert(unslashed(path.drop_last()) =~= Seq::<char>::empty());
        assert(unslashed(path) =~= Seq::<char>::empty());
    }
    if path != "."@ && path.len() > 0 && bare.len() > 0 {
        lemma_last_slash(bare, bare.len() as int);
    }
}

/// There is something above every path.
pub proof fn lemma_parent_is_some(path: Seq<char>)
    ensures
        parent(path).len() > 0,
{
    reveal_strlit(".");
    reveal_strlit("/");
    lemma_unslashed(path);
    lemma_last_slash(unslashed(path), unslashed(path).len() as int);
}

/// A directory and those above it, the highest first.
pub open spec fn ancestors(dir: Seq<char>) -> Seq<Seq<char>>
    decreases depth(dir),
{
    if parent(dir) == dir || parent(dir).len() == 0 {
        seq![dir]
    } else {
        proof {
            lemma_parent_is_higher(dir);
        }
        ancestors(parent(dir)).push(dir)
    }
}

/// A directory and those above it, the highest first.
pub fn ancestor_dirs(dir: &str) -> (r: Vec<String>)
    ensures
        text::strings(r@) == ancestors(dir@),
    decreases depth(dir@),
{
    let above = parent_path(dir);
    if text::same(&above, dir) || above.as_str().is_empty() {
        let mut only: Vec<String> = Vec::new();
        only.push(dir.to_owned());
        assert(text::strings(only@) =~= seq![dir@]);
        only
    } else {
        proof {
            lemma_parent_is_higher(dir@);
        }
        let mut dirs = ancestor_dirs(&above);
        let ghost before = dirs@;
        dirs.push(dir.to_owned());
        assert(text::strings(dirs@) =~= text::strings(before).push(dir@));
        dirs
    }
}

/// Each directory on the way is the parent of the next, and the last is the one asked for: a
/// directory is never created before the one that holds it.
pub proof fn law_parents_come_first(dir: Seq<char>)
    ensures
        ancestors(dir).len() > 0,
        ancestors(dir).last() == dir,
        forall|i: int|
            0 <= i < ancestors(dir).len() - 1 ==> #[trigger] ancestors(dir)[i] == parent(
                ancestors(dir)[i + 1],
            ),
    decreases depth(dir),
{
    if parent(dir) == dir || parent(dir).len() == 0 {
    } else {
        lemma_parent_is_higher(dir);
        law_parents_come_first(parent(dir));
        let above = ancestors(parent(dir));
        assert forall|i: int| 0 <= i < ancestors(dir).len() - 1 implies #[trigger] ancestors(dir)[i]
            == parent(ancestors(dir)[i + 1]) by {
            if i < above.len() - 1 {
                assert(above[i] == parent(above[i + 1]));
            } else {
                assert(above[i] == above.last());
            }
        }
    }
}

/// Whether a text is a single name: not empty, and without a slash.
pub open spec fn is_name(name: Seq<char>) -> bool {
    name.len() > 0 && forall|k: int| 0 <= k < name.len() ==> #[trigger] name[k] != '/'
}

proof fn lemma_bare_name(name: Seq<char>)
    requires
        is_name(name),
    ensures
        unslashed(name) == name,
        last_slash(name) is None,
{
    lemma_last_slash(name, 0);
    assert(name.take(0) =~= Seq::<char>::empty());
    assert(name.last() == name[name.len() - 1]);
}

proof fn lemma_below(dir: Seq<char>, name: Seq<char>)
    requires
        is_name(name),
    ensures
        unslashed(dir.push('/') + name) == dir.push('/') + name,
        last_slash(dir.push('/') + name) == Some(dir.len() as int),
{
    let path = dir.push('/') + name;
    assert(path.last() == name[name.len() - 1]);
    assert forall|j: int| dir.len() + 1 <= j < path.len() implies path[j] != '/' by {
        assert(path[j] == name[j - dir.len() - 1]);
    }
    lemma_last_slash(path, dir.len() as int + 1);
    assert(path.take(dir.len() as int + 1) =~= dir.push('/'));
}

/// What is above a path, told of the path's characters: what stands in front of its last slash,
/// the root where nothing does, and `.` where there is no slash.
pub proof fn law_what_is_above_a_path(dir: Seq<char>, name: Seq<char>)
    requires
        is_name(name),
    ensures
        dir.len() > 0 ==> parent(dir.push('/') + name) == dir,
        parent(seq!['/'] + name) == seq!['/'],
        parent(name) == seq!['.'],
        parent(seq!['/']) == seq!['/'],
        parent(seq!['.']) == seq!['.'],
        parent(Seq::<char>::empty()) == seq!['.'],
{
    reveal_strlit(".");
    reveal_strlit("/");
    assert("."@ =~= seq!['.']);
    assert("/"@ =~= seq!['/']);
    lemma_bare_name(name);
    lemma_below(dir, name);
    lemma_below(Seq::empty(), name);
    let path = dir.push('/') + name;
    assert(path.len() > 1);
    assert(path.take(dir.len() as int) =~= dir);
    assert(Seq::<char>::empty().push('/') + name =~= seq!['/'] + name);
    assert(seq!['/'].drop_last() =~= Seq::<char>::empty());
    assert(unslashed(seq!['/'].drop_last()) =~= Seq::<char>::empty());
}

/// A slash behind a path changes nothing about what is above it.
pub proof fn law_slashes_at_the_end_do_not_count(path: Seq<char>)
    requires
        path.len() > 0,
        path != seq!['.'],
    ensures
        parent(path.push('/')) == parent(path),
{
    reveal_strlit(".");
    assert("."@ =~= seq!['.']);
    assert(path.push('/').drop_last() =~= path);
}

/// What is below a directory is reached through it: to join a name to a directory and to go up
/// again leads back. The name stands at the end, behind the directory and one slash; what is
/// below `.` stands by itself; and `..` leads up.
pub proof fn law_joined_paths_lead_back(dir: Seq<char>, name: Seq<char>)
    requires
        is_name(name),
        name != seq!['.', '.'],
        dir.len() > 0,
    ensures
        dir != seq!['.'] && dir.last() != '/' ==> join(dir, name) == dir.push('/') + name && parent(
            join(dir, name),
        ) == dir,
        dir == seq!['.'] ==> join(dir, name) == name && parent(join(dir, name)) == dir,
        dir == seq!['/'] ==> join(dir, name) == dir + name && parent(join(dir, name)) == dir,
        dir.last() == '/' ==> join(dir, name) == dir + name,
        join(Seq::empty(), name) == name,
        join(dir, seq!['.', '.']) == parent(dir),
{
    reveal_strlit(".");
    reveal_strlit("..");
    reveal_strlit("/");
    assert("."@ =~= seq!['.']);
    assert(".."@ =~= seq!['.', '.']);
    assert("/"@ =~= seq!['/']);
    law_what_is_above_a_path(dir, name);
    assert(dir + "/"@ =~= dir.push('/'));
    assert(seq!['/'].last() == '/');
    assert(seq!['.'].last() == '.');
}

/// A path that has more than one name is joined in the same way.
pub proof fn law_longer_paths_are_joined_alike(dir: Seq<char>, path: Seq<char>)
    requires
        path != seq!['.', '.'],
    ensures
        join(dir, path) == if dir.len() == 0 || dir == seq!['.'] {
            path
        } else if dir.last() == '/' {
            dir + path
        } else {
            dir.push('/') + path
        },
{
    reveal_strlit(".");
    reveal_strlit("..");
    reveal_strlit("/");
    assert("."@ =~= seq!['.']);
    assert(".."@ =~= seq!['.', '.']);
    assert(dir + "/"@ =~= dir.push('/'));
}

/// The way down to a directory begins where nothing is above, and holds each directory on it once.
pub proof fn law_the_way_down_begins_at_the_top(dir: Seq<char>)
    ensures
        ancestors(dir).len() > 0,
        parent(ancestors(dir)[0]) == ancestors(dir)[0],
        forall|i: int|
            0 < i < ancestors(dir).len() ==> parent(#[trigger] ancestors(dir)[i]) != ancestors(
                dir,
            )[i],
    decreases depth(dir),
{
    lemma_parent_is_some(dir);
    if parent(dir) != dir {
        lemma_parent_is_higher(dir);
        law_the_way_down_begins_at_the_top(parent(dir));
        let above = ancestors(parent(dir));
        assert forall|i: int| 0 < i < ancestors(dir).len() implies parent(
            #[trigger] ancestors(dir)[i],
        ) != ancestors(dir)[i] by {
            if i < above.len() {
                assert(above[i] == ancestors(dir)[i]);
            }
        }
    }
}

} // verus!
