//! The files below a local directory, with the paths that they are uploaded to.

use crate::local_path;
use crate::local_path::LocalPath;
use crate::text;
use crate::transfer::UploadItem;
use vstd::prelude::*;

verus! {

/// What stands at a local path.
#[derive(Debug)]
pub enum LocalNode {
    /// A file.
    File {
        /// Its path.
        path: LocalPath,
    },
    /// A directory.
    Dir {
        /// Its path.
        path: LocalPath,
        /// What is in it, in the order in which the system lists it.
        children: Vec<LocalNode>,
    },
    /// Something else, or something that cannot be read.
    Other,
}

/// The name of what stands at a path, or nothing.
pub open spec fn name_of(node: LocalNode) -> Seq<char> {
    match node {
        LocalNode::File { path } => part(path@),
        LocalNode::Dir { path, .. } => part(path@),
        LocalNode::Other => Seq::empty(),
    }
}

/// The name of what a path leads to, or nothing.
pub open spec fn part(path: Seq<u8>) -> Seq<char> {
    match local_path::shown_name(path) {
        Some(name) => name,
        None => Seq::empty(),
    }
}

/// A name below a path.
pub open spec fn under(path: Seq<char>, name: Seq<char>) -> Seq<char> {
    if path.len() == 0 {
        name
    } else {
        path + "/"@ + name
    }
}

/// A file to upload: its local path, and the path it goes to.
pub struct ItemView {
    /// The local path.
    pub local: Seq<u8>,
    /// Where it goes below the remote directory.
    pub rel: Seq<char>,
}

/// What an item holds.
pub open spec fn item(i: UploadItem) -> ItemView {
    ItemView { local: i.local@, rel: i.rel@ }
}

/// What a list of items holds.
pub open spec fn items(list: Seq<UploadItem>) -> Seq<ItemView> {
    Seq::new(list.len(), |i: int| item(list[i]))
}

/// The files at a path that goes to `rel`: the file itself, or those below the directory, each
/// below `rel` as it is below the directory.
pub open spec fn files(node: LocalNode, rel: Seq<char>) -> Seq<ItemView>
    decreases node, 0nat,
{
    match node {
        LocalNode::File { path } => seq![ItemView { local: path@, rel }],
        LocalNode::Dir { children, .. } => files_of(children, rel, children@.len()),
        LocalNode::Other => Seq::empty(),
    }
}

/// The files of the first `n` things in a directory that goes to `rel`.
pub open spec fn files_of(children: Vec<LocalNode>, rel: Seq<char>, n: nat) -> Seq<ItemView>
    decreases children, n,
{
    if n == 0 || n > children@.len() {
        Seq::empty()
    } else {
        let child = children@[n - 1];
        files_of(children, rel, (n - 1) as nat) + files(child, under(rel, name_of(child)))
    }
}

/// The files to upload for a path: a file goes under its own name, and a directory brings its own
/// name along.
pub open spec fn collected(root: LocalNode) -> Seq<ItemView> {
    files(root, name_of(root))
}

/// The name of what a path leads to, or nothing.
fn name_text(path: &LocalPath) -> (r: String)
    ensures
        r@ == part(path@),
{
    match path.name() {
        Some(name) => name,
        None => String::new(),
    }
}

/// The name of what stands at a path, or nothing.
fn node_name(node: &LocalNode) -> (r: String)
    ensures
        r@ == name_of(*node),
{
    match node {
        LocalNode::File { path } => name_text(path),
        LocalNode::Dir { path, .. } => name_text(path),
        LocalNode::Other => String::new(),
    }
}

/// A file to upload that goes under its own name.
pub fn upload_item(path: LocalPath) -> (r: UploadItem)
    ensures
        item(r) == (ItemView { local: path@, rel: part(path@) }),
{
    let rel = name_text(&path);
    UploadItem { local: path, rel }
}

/// A name below a path.
fn below(path: &str, name: &str) -> (r: String)
    ensures
        r@ == under(path@, name@),
{
    if path.is_empty() {
        name.to_owned()
    } else {
        text::concat3(path, "/", name)
    }
}

/// The files at a path that goes to `rel` are put behind others.
fn collect_upload_items_recursive(node: &LocalNode, rel: &str, out: &mut Vec<UploadItem>)
    ensures
        items(final(out)@) == items(old(out)@) + files(*node, rel@),
    decreases node,
{
    match node {
        LocalNode::File { path } => {
            let ghost before = items(out@);
            out.push(UploadItem { local: path.copied(), rel: rel.to_owned() });
            assert(items(out@) =~= before + files(*node, rel@));
        },
        LocalNode::Dir { children, .. } => {
            let ghost before = items(out@);
            let mut i: usize = 0;
            assert(items(out@) =~= before + files_of(*children, rel@, 0));
            while i < children.len()
                invariant
                    i <= children@.len(),
                    *node matches LocalNode::Dir { children: c, .. } && c == *children,
                    items(out@) == before + files_of(*children, rel@, i as nat),
                decreases children@.len() - i,
            {
                let child = &children[i];
                let name = node_name(child);
                let child_rel = below(rel, name.as_str());
                assert(decreases_to!(node => children@[i as int]));
                let ghost some = items(out@);
                collect_upload_items_recursive(child, child_rel.as_str(), out);
                i += 1;
                proof {
                    let more = files(*child, under(rel@, name_of(*child)));
                    assert(files_of(*children, rel@, i as nat) == files_of(
                        *children,
                        rel@,
                        (i - 1) as nat,
                    ) + more);
                    assert(items(out@) =~= before + files_of(*children, rel@, i as nat));
                }
            }
        },
        LocalNode::Other => {
            assert(items(out@) =~= items(old(out)@) + files(*node, rel@));
        },
    }
}

/// The files to upload for a path.
pub fn collect_upload_items(root: &LocalNode) -> (r: Vec<UploadItem>)
    ensures
        items(r@) == collected(*root),
{
    let mut out: Vec<UploadItem> = Vec::new();
    let name = node_name(root);
    assert(items(out@) =~= Seq::<ItemView>::empty());
    collect_upload_items_recursive(root, name.as_str(), &mut out);
    assert(items(out@) =~= collected(*root));
    out
}

/// How many files there are at a path.
pub open spec fn count(node: LocalNode) -> nat
    decreases node, 0nat,
{
    match node {
        LocalNode::File { .. } => 1,
        LocalNode::Dir { children, .. } => count_of(children, children@.len()),
        LocalNode::Other => 0,
    }
}

/// How many files there are in the first `n` things in a directory.
pub open spec fn count_of(children: Vec<LocalNode>, n: nat) -> nat
    decreases children, n,
{
    if n == 0 || n > children@.len() {
        0
    } else {
        count_of(children, (n - 1) as nat) + count(children@[n - 1])
    }
}

/// Each file below a directory is uploaded once, and nothing else is: directories are made as
/// files need them.
pub proof fn law_each_file_is_collected_once(node: LocalNode, rel: Seq<char>)
    ensures
        files(node, rel).len() == count(node),
    decreases node, 0nat,
{
    if let LocalNode::Dir { children, .. } = node {
        lemma_count_of(children, rel, children@.len());
    }
}

proof fn lemma_count_of(children: Vec<LocalNode>, rel: Seq<char>, n: nat)
    requires
        n <= children@.len(),
    ensures
        files_of(children, rel, n).len() == count_of(children, n),
    decreases children, n,
{
    if n > 0 {
        let child = children@[n - 1];
        lemma_count_of(children, rel, (n - 1) as nat);
        law_each_file_is_collected_once(child, under(rel, name_of(child)));
    }
}

/// Whether a path is below another one, or is that path.
pub open spec fn within(path: Seq<char>, top: Seq<char>) -> bool {
    path == top || (path.len() > top.len() && path.take(top.len() as int) == top && path[
        top.len() as int] == '/')
}

/// What is below a directory goes below the directory's own name on the other side.
pub proof fn law_files_stay_below_their_directory(node: LocalNode, rel: Seq<char>, i: int)
    requires
        rel.len() > 0,
        0 <= i < files(node, rel).len(),
    ensures
        within(files(node, rel)[i].rel, rel),
    decreases node, 0nat,
{
    if let LocalNode::Dir { children, .. } = node {
        lemma_within(children, rel, children@.len(), i);
    }
}

proof fn lemma_within(children: Vec<LocalNode>, rel: Seq<char>, n: nat, i: int)
    requires
        rel.len() > 0,
        n <= children@.len(),
        0 <= i < files_of(children, rel, n).len(),
    ensures
        within(files_of(children, rel, n)[i].rel, rel),
    decreases children, n,
{
    if n > 0 {
        let child = children@[n - 1];
        let front = files_of(children, rel, (n - 1) as nat);
        let down = under(rel, name_of(child));
        if i < front.len() {
            lemma_within(children, rel, (n - 1) as nat, i);
        } else {
            reveal_strlit("/");
            law_files_stay_below_their_directory(child, down, i - front.len());
            let path = files(child, down)[i - front.len()].rel;
            assert(down.take(rel.len() as int) =~= rel);
            assert(down[rel.len() as int] == '/');
            if path != down {
                assert(path.take(rel.len() as int) =~= path.take(down.len() as int).take(
                    rel.len() as int,
                ));
                assert(path[rel.len() as int] == path.take(down.len() as int)[rel.len() as int]);
            }
        }
    }
}

/// Whether all of some items are among others.
pub open spec fn all_among(part: Seq<ItemView>, all: Seq<ItemView>) -> bool {
    forall|k: int| 0 <= k < part.len() ==> all.contains(#[trigger] part[k])
}

/// The place of a name in a directory: behind the directory and a slash, or by itself at the top.
pub open spec fn place_below(rel: Seq<char>, name: Seq<char>) -> Seq<char> {
    if rel.len() == 0 {
        name
    } else {
        rel.push('/') + name
    }
}

/// What is in a directory goes below the directory under its own name: the tree on the other side is
/// the tree that was picked.
pub proof fn law_the_tree_is_kept(children: Vec<LocalNode>, path: LocalPath, rel: Seq<char>, i: int)
    requires
        0 <= i < children@.len(),
    ensures
        all_among(
            files(children@[i], place_below(rel, name_of(children@[i]))),
            files(LocalNode::Dir { path, children }, rel),
        ),
{
    reveal_strlit("/");
    assert(rel + "/"@ =~= rel.push('/'));
    lemma_in_all(children, rel, children@.len(), i);
}

proof fn lemma_in_all(children: Vec<LocalNode>, rel: Seq<char>, n: nat, i: int)
    requires
        0 <= i < n <= children@.len(),
    ensures
        all_among(
            files(children@[i], under(rel, name_of(children@[i]))),
            files_of(children, rel, n),
        ),
    decreases n,
{
    let part = files(children@[i], under(rel, name_of(children@[i])));
    let all = files_of(children, rel, n);
    let front = files_of(children, rel, (n - 1) as nat);
    let last = children@[n - 1];
    assert(all == front + files(last, under(rel, name_of(last))));
    if i < n - 1 {
        lemma_in_all(children, rel, (n - 1) as nat, i);
    }
    assert forall|k: int| 0 <= k < part.len() implies all.contains(#[trigger] part[k]) by {
        if i == n - 1 {
            assert(all[front.len() + k] == part[k]);
        } else {
            assert(front.contains(part[k]));
            let m = choose|m: int| 0 <= m < front.len() && front[m] == part[k];
            assert(all[m] == part[k]);
        }
    }
}

/// A file is sent from its own path and to where it is asked to go; the thing that was picked goes
/// under its own name, the last part of its path. What is no file and no directory is not sent.
pub proof fn law_a_file_is_sent_from_its_path(path: LocalPath, children: Vec<LocalNode>, rel: Seq<char>)
    ensures
        files(LocalNode::File { path }, rel) == seq![ItemView { local: path@, rel }],
        collected(LocalNode::File { path }) == seq![
            ItemView {
                local: path@,
                rel: match local_path::shown_name(path@) {
                    Some(name) => name,
                    None => Seq::empty(),
                },
            },
        ],
        collected(LocalNode::Dir { path, children }) == files(
            LocalNode::Dir { path, children },
            match local_path::shown_name(path@) {
                Some(name) => name,
                None => Seq::empty(),
            },
        ),
        files(LocalNode::Other, rel) == Seq::<ItemView>::empty(),
{
}

} // verus!
