//! Paths on this machine.
//!
//! A path is held in the encoding of the system, which need not be Unicode. Its names are parted
//! by `/`.

use crate::text;
use vstd::prelude::*;
use vstd::slice::slice_subrange;
#[allow(unused_imports)]
use vstd::string::*;
use vstd::utf8;

verus! {

/// The byte that parts the names of a path.
pub const SEPARATOR: u8 = 0x2f;

/// The byte of a dot.
pub const DOT: u8 = 0x2e;

/// A path on this machine.
#[derive(Debug)]
pub struct LocalPath {
    bytes: Vec<u8>,
}

impl View for LocalPath {
    type V = Seq<u8>;

    closed spec fn view(&self) -> Seq<u8> {
        self.bytes@
    }
}

/// What a path leads along: whether it starts at the root, and the names from there on.
#[verifier::ext_equal]
pub struct PartsView {
    /// Whether it starts at the root.
    pub absolute: bool,
    /// The names.
    pub names: Seq<Seq<u8>>,
}

/// Where the name that starts at `i` ends.
pub open spec fn name_end(p: Seq<u8>, i: int) -> int
    decreases p.len() - i,
{
    if i < 0 || i >= p.len() || p[i] == SEPARATOR {
        i
    } else {
        name_end(p, i + 1)
    }
}

/// Whether a name that starts at `i` leads anywhere: an empty one does not, and a dot does only at
/// the start of a path.
pub open spec fn leads(name: Seq<u8>, i: int) -> bool {
    name.len() > 0 && (name == seq![DOT] ==> i == 0)
}

/// The names of a path from `i` on, where a name starts.
pub open spec fn names_from(p: Seq<u8>, i: int) -> Seq<Seq<u8>>
    decreases p.len() + 1 - i,
    via names_from_decreases
{
    if i < 0 || i > p.len() {
        Seq::empty()
    } else {
        let end = name_end(p, i);
        let name = p.subrange(i, end);
        let rest = names_from(p, end + 1);
        if leads(name, i) {
            seq![name] + rest
        } else {
            rest
        }
    }
}

#[via_fn]
proof fn names_from_decreases(p: Seq<u8>, i: int) {
    if 0 <= i <= p.len() {
        lemma_name_end(p, i);
    }
}

/// What a path leads along. Separators that follow one another count as one, and so do a dot
/// between two of them and one at the end.
pub open spec fn parts(p: Seq<u8>) -> PartsView {
    PartsView { absolute: p.len() > 0 && p[0] == SEPARATOR, names: names_from(p, 0) }
}

/// Where the names of a path end, from `i` on.
pub open spec fn ends_from(p: Seq<u8>, i: int) -> Seq<int>
    decreases p.len() + 1 - i,
    via ends_from_decreases
{
    if i < 0 || i > p.len() {
        Seq::empty()
    } else {
        let end = name_end(p, i);
        let rest = ends_from(p, end + 1);
        if leads(p.subrange(i, end), i) {
            seq![end] + rest
        } else {
            rest
        }
    }
}

#[via_fn]
proof fn ends_from_decreases(p: Seq<u8>, i: int) {
    if 0 <= i <= p.len() {
        lemma_name_end(p, i);
    }
}

/// The folder that a path lies in: the path up to the end of its last name but one, and its root
/// where there is no such name. A path without names is its own folder.
pub open spec fn folder(p: Seq<u8>) -> Seq<u8> {
    let ends = ends_from(p, 0);
    if ends.len() == 0 {
        p
    } else if ends.len() > 1 {
        p.take(ends[ends.len() - 2])
    } else if parts(p).absolute {
        p.take(1)
    } else {
        Seq::empty()
    }
}

/// The two dots that lead up.
pub open spec fn up() -> Seq<u8> {
    seq![DOT, DOT]
}

/// The name of what a path leads to: its last one. A root has none, and what is reached by dots
/// alone has none.
pub open spec fn last_name(p: Seq<u8>) -> Option<Seq<u8>> {
    let names = names_from(p, 0);
    if names.len() == 0 || names.last() == seq![DOT] || names.last() == up() {
        None
    } else {
        Some(names.last())
    }
}

/// The name of what a path leads to, as it is shown.
pub open spec fn shown_name(p: Seq<u8>) -> Option<Seq<char>> {
    match last_name(p) {
        Some(name) => Some(shown(name)),
        None => None,
    }
}

/// What staging files end in.
pub open spec fn suffix() -> Seq<u8> {
    seq![0x2e, 0x70, 0x61, 0x72, 0x74]
}

/// The staging file of a path: the path with `.part` behind it.
pub open spec fn staged(p: Seq<u8>) -> Seq<u8> {
    p + suffix()
}

/// Bytes that are not UTF-8 as a text, with replacement characters for what is not.
pub uninterp spec fn lossy(bytes: Seq<u8>) -> Seq<char>;

/// `String::from_utf8_lossy`: where the bytes are UTF-8 it is their text, and else a function of
/// the bytes.
#[verifier::external_body]
fn lossy_text(bytes: &[u8]) -> (r: String)
    ensures
        utf8::valid_utf8(bytes@) ==> r@ == utf8::decode_utf8(bytes@),
        !utf8::valid_utf8(bytes@) ==> r@ == lossy(bytes@),
{
    String::from_utf8_lossy(bytes).into_owned()
}

/// Bytes as they are shown: their text, with replacement characters for what is none.
pub open spec fn shown(bytes: Seq<u8>) -> Seq<char> {
    if utf8::valid_utf8(bytes) {
        utf8::decode_utf8(bytes)
    } else {
        lossy(bytes)
    }
}

/// A path or none.
pub open spec fn opt(p: Option<LocalPath>) -> Option<Seq<u8>> {
    match p {
        Some(p) => Some(p@),
        None => None,
    }
}

proof fn lemma_name_end(p: Seq<u8>, i: int)
    requires
        0 <= i <= p.len(),
    ensures
        i <= name_end(p, i) <= p.len(),
        forall|k: int| i <= k < name_end(p, i) ==> p[k] != SEPARATOR,
        name_end(p, i) < p.len() ==> p[name_end(p, i)] == SEPARATOR,
    decreases p.len() - i,
{
    if i < p.len() && p[i] != SEPARATOR {
        lemma_name_end(p, i + 1);
    }
}

/// A copy of bytes.
fn copied_bytes(bytes: &[u8]) -> (r: Vec<u8>)
    ensures
        r@ == bytes@,
{
    let mut out: Vec<u8> = Vec::new();
    let mut i: usize = 0;
    while i < bytes.len()
        invariant
            i <= bytes@.len(),
            out@ == bytes@.take(i as int),
        decreases bytes@.len() - i,
    {
        out.push(bytes[i]);
        i += 1;
        assert(out@ =~= bytes@.take(i as int));
    }
    assert(bytes@.take(i as int) =~= bytes@);
    out
}

/// Whether two runs of bytes are the same.
fn same_bytes(a: &Vec<u8>, b: &Vec<u8>) -> (r: bool)
    ensures
        r == (a@ == b@),
{
    if a.len() != b.len() {
        return false;
    }
    let mut i: usize = 0;
    while i < a.len()
        invariant
            i <= a@.len() == b@.len(),
            forall|k: int| 0 <= k < i ==> a@[k] == b@[k],
        decreases a@.len() - i,
    {
        if a[i] != b[i] {
            return false;
        }
        i += 1;
    }
    assert(a@ =~= b@);
    true
}

/// Whether a name is a dot.
fn is_dot(name: &Vec<u8>) -> (r: bool)
    ensures
        r == (name@ == seq![DOT]),
{
    let r = name.len() == 1 && name[0] == DOT;
    assert(r ==> name@ =~= seq![DOT]);
    r
}

/// Whether a name leads up.
fn is_up(name: &Vec<u8>) -> (r: bool)
    ensures
        r == (name@ == up()),
{
    let r = name.len() == 2 && name[0] == DOT && name[1] == DOT;
    assert(r ==> name@ =~= up());
    r
}

/// What some names hold.
spec fn names_of(names: Seq<Vec<u8>>) -> Seq<Seq<u8>> {
    Seq::new(names.len(), |i: int| names[i]@)
}

/// What some places are.
spec fn ends_of(ends: Seq<usize>) -> Seq<int> {
    Seq::new(ends.len(), |i: int| ends[i] as int)
}

proof fn lemma_ends(p: Seq<u8>, i: int)
    requires
        0 <= i <= p.len(),
    ensures
        ends_from(p, i).len() == names_from(p, i).len(),
        forall|k: int|
            0 <= k < ends_from(p, i).len() ==> i < #[trigger] ends_from(p, i)[k] <= p.len(),
    decreases p.len() - i,
{
    lemma_name_end(p, i);
    let end = name_end(p, i);
    let (names, ends) = (names_from(p, end + 1), ends_from(p, end + 1));
    if end < p.len() {
        lemma_ends(p, end + 1);
    } else {
        assert(names.len() == 0 && ends.len() == 0);
    }
    if leads(p.subrange(i, end), i) {
        let all = ends_from(p, i);
        assert(all == seq![end] + ends);
        assert forall|k: int| 0 <= k < all.len() implies i < #[trigger] all[k] <= p.len() by {
            if k > 0 {
                assert(all[k] == ends[k - 1]);
            }
        }
    }
}

impl LocalPath {
    /// A path from its bytes, in the encoding of the system.
    pub fn from_bytes(bytes: Vec<u8>) -> (r: LocalPath)
        ensures
            r@ == bytes@,
    {
        LocalPath { bytes }
    }

    /// The bytes of the path, in the encoding of the system.
    pub fn bytes(&self) -> (r: &Vec<u8>)
        ensures
            r@ == self@,
    {
        &self.bytes
    }

    /// The path that a text spells.
    pub fn of(text: &str) -> (r: LocalPath)
        ensures
            r@ == utf8::encode_utf8(text@),
    {
        LocalPath { bytes: copied_bytes(text.as_bytes()) }
    }

    /// The path as it is shown: what is not Unicode is replaced.
    pub fn shown(&self) -> (r: String)
        ensures
            r@ == shown(self@),
    {
        lossy_text(self.bytes.as_slice())
    }

    /// A copy.
    pub fn copied(&self) -> (r: LocalPath)
        ensures
            r@ == self@,
    {
        LocalPath { bytes: copied_bytes(self.bytes.as_slice()) }
    }

    /// The staging file of the path.
    pub fn staging(&self) -> (r: LocalPath)
        ensures
            r@ == staged(self@),
    {
        let mut bytes = copied_bytes(self.bytes.as_slice());
        bytes.push(DOT);
        bytes.push(0x70);
        bytes.push(0x61);
        bytes.push(0x72);
        bytes.push(0x74);
        assert(bytes@ =~= staged(self@));
        LocalPath { bytes }
    }

    /// The names that the path leads along, and where they end.
    fn names(&self) -> (r: (Vec<Vec<u8>>, Vec<usize>))
        ensures
            names_of(r.0@) == names_from(self@, 0),
            ends_of(r.1@) == ends_from(self@, 0),
    {
        let ghost p = self@;
        let len: usize = self.bytes.len();
        let mut out: Vec<Vec<u8>> = Vec::new();
        let mut ends: Vec<usize> = Vec::new();
        let mut start: usize = 0;
        let mut over = false;
        assert(names_of(out@) + names_from(p, 0) =~= names_from(p, 0));
        assert(ends_of(ends@) + ends_from(p, 0) =~= ends_from(p, 0));
        while !over
            invariant
                p == self.bytes@,
                len == p.len(),
                !over ==> {
                    &&& start <= len
                    &&& names_from(p, 0) == names_of(out@) + names_from(p, start as int)
                    &&& ends_from(p, 0) == ends_of(ends@) + ends_from(p, start as int)
                },
                over ==> names_from(p, 0) == names_of(out@) && ends_from(p, 0) == ends_of(ends@),
            decreases
                    if over {
                        0
                    } else {
                        len + 1 - start
                    },
        {
            let mut name: Vec<u8> = Vec::new();
            let mut end: usize = start;
            while end < len && self.bytes[end] != SEPARATOR
                invariant
                    p == self.bytes@,
                    len == p.len(),
                    start <= end <= len,
                    name_end(p, start as int) == name_end(p, end as int),
                    name@ == p.subrange(start as int, end as int),
                decreases len - end,
            {
                name.push(self.bytes[end]);
                end += 1;
                assert(name@ =~= p.subrange(start as int, end as int));
            }
            assert(end == name_end(p, start as int));
            let dot = is_dot(&name);
            let ghost (before, rest) = (names_of(out@), names_from(p, end + 1));
            let ghost (so_far, others) = (ends_of(ends@), ends_from(p, end + 1));
            let ghost found = name@;
            if name.len() > 0 && (!dot || start == 0) {
                out.push(name);
                ends.push(end);
                proof {
                    assert(names_of(out@) =~= before.push(found));
                    assert(before + (seq![found] + rest) =~= names_of(out@) + rest);
                    assert(ends_of(ends@) =~= so_far.push(end as int));
                    assert(so_far + (seq![end as int] + others) =~= ends_of(ends@) + others);
                }
            }
            if end < len {
                start = end + 1;
            } else {
                over = true;
                assert(names_of(out@) + rest =~= names_of(out@));
                assert(ends_of(ends@) + others =~= ends_of(ends@));
            }
        }
        (out, ends)
    }

    /// The folder that the path lies in, or the path itself where it has no name.
    pub fn folder(&self) -> (r: LocalPath)
        ensures
            r@ == folder(self@),
    {
        let (_, ends) = self.names();
        proof {
            lemma_ends(self@, 0);
        }
        let ghost all = ends_from(self@, 0);
        assert(all.len() == ends@.len());
        assert(forall|k: int| 0 <= k < all.len() ==> #[trigger] all[k] == ends@[k]);
        let count: usize = ends.len();
        if count == 0 {
            return self.copied();
        }
        assert(0 < all[count - 1] <= self@.len());
        assert(count > 1 ==> 0 < all[count - 2] <= self@.len());
        let end: usize = if count > 1 {
            ends[count - 2]
        } else if self.bytes[0] == SEPARATOR {
            1
        } else {
            0
        };
        let bytes = copied_bytes(slice_subrange(self.bytes.as_slice(), 0, end));
        assert(bytes@ =~= folder(self@));
        LocalPath { bytes }
    }

    /// The name of what the path leads to, as it is shown.
    pub fn name(&self) -> (r: Option<String>)
        ensures
            text::opt(r) == shown_name(self@),
    {
        let (mut names, _) = self.names();
        let ghost all = names_from(self@, 0);
        assert(all.len() == names@.len());
        assert(forall|k: int| 0 <= k < all.len() ==> #[trigger] all[k] == names@[k]@);
        match names.pop() {
            Some(name) => {
                assert(name@ == all.last());
                if is_dot(&name) || is_up(&name) {
                    None
                } else {
                    Some(lossy_text(name.as_slice()))
                }
            },
            None => None,
        }
    }

    /// Whether two paths lead along the same names, and so to the same file.
    pub fn same_as(&self, other: &LocalPath) -> (r: bool)
        ensures
            r == (parts(self@) == parts(other@)),
    {
        let mine = self.bytes.len() > 0 && self.bytes[0] == SEPARATOR;
        let theirs = other.bytes.len() > 0 && other.bytes[0] == SEPARATOR;
        let (a, _) = self.names();
        let (b, _) = other.names();
        if mine != theirs || a.len() != b.len() {
            assert(names_of(a@).len() == a@.len() && names_of(b@).len() == b@.len());
            return false;
        }
        let mut i: usize = 0;
        while i < a.len()
            invariant
                i <= a@.len() == b@.len(),
                names_of(a@) == names_from(self@, 0),
                names_of(b@) == names_from(other@, 0),
                forall|k: int| 0 <= k < i ==> (#[trigger] a@[k])@ == b@[k]@,
            decreases a@.len() - i,
        {
            if !same_bytes(&a[i], &b[i]) {
                assert(names_of(a@)[i as int] != names_of(b@)[i as int]);
                return false;
            }
            i += 1;
        }
        assert(names_of(a@) =~= names_of(b@));
        assert(parts(self@) =~= parts(other@));
        true
    }
}

impl PartialEq for LocalPath {
    fn eq(&self, other: &LocalPath) -> (r: bool) {
        self.same_as(other)
    }
}

impl Eq for LocalPath {

}

impl vstd::std_specs::cmp::PartialEqSpecImpl for LocalPath {
    open spec fn obeys_eq_spec() -> bool {
        true
    }

    open spec fn eq_spec(&self, other: &LocalPath) -> bool {
        parts(self@) == parts(other@)
    }
}

proof fn lemma_longer_name(p: Seq<u8>, i: int)
    requires
        0 <= i <= p.len(),
    ensures
        name_end(staged(p), i) == if name_end(p, i) < p.len() {
            name_end(p, i)
        } else {
            staged(p).len() as int
        },
    decreases p.len() - i,
{
    if i < p.len() {
        assert(staged(p)[i] == p[i]);
        if p[i] != SEPARATOR {
            lemma_longer_name(p, i + 1);
        }
    } else {
        let s = staged(p);
        assert(s[i] == 0x2e && s[i + 1] == 0x70 && s[i + 2] == 0x61 && s[i + 3] == 0x72 && s[i + 4]
            == 0x74);
        reveal_with_fuel(name_end, 6);
    }
}

proof fn lemma_staged_leads_elsewhere(p: Seq<u8>, i: int)
    requires
        0 <= i <= p.len(),
    ensures
        names_from(staged(p), i) != names_from(p, i),
    decreases p.len() - i,
{
    let s = staged(p);
    let end = name_end(p, i);
    lemma_name_end(p, i);
    lemma_longer_name(p, i);
    let (a, b) = (names_from(p, i), names_from(s, i));
    if end < p.len() {
        let name = p.subrange(i, end);
        assert(s.subrange(i, end) =~= name);
        let (x, y) = (names_from(p, end + 1), names_from(s, end + 1));
        lemma_staged_leads_elsewhere(p, end + 1);
        if leads(name, i) {
            assert((seq![name] + x).skip(1) =~= x);
            assert((seq![name] + y).skip(1) =~= y);
        }
    } else {
        let (name, longer) = (p.subrange(i, end), s.subrange(i, s.len() as int));
        assert(longer.len() == name.len() + 5);
        assert(seq![DOT].len() == 1);
        assert(names_from(p, end + 1) =~= Seq::empty());
        assert(names_from(s, s.len() as int + 1) =~= Seq::empty());
        assert(b == seq![longer] + Seq::<Seq<u8>>::empty());
        assert(b[0] == longer);
        if leads(name, i) {
            assert(a[0] == name);
        }
    }
}

proof fn lemma_folder(p: Seq<u8>, i: int, e: int)
    requires
        0 <= i <= p.len(),
        ends_from(p, i).len() > 1,
        e == ends_from(p, i)[ends_from(p, i).len() - 2],
    ensures
        names_from(p.take(e), i) == names_from(p, i).drop_last(),
    decreases p.len() - i,
{
    let end = name_end(p, i);
    let q = p.take(e);
    let (names, ends) = (names_from(p, end + 1), ends_from(p, end + 1));
    lemma_name_end(p, i);
    lemma_ends(p, i);
    assert(end < p.len());
    lemma_ends(p, end + 1);
    let name = p.subrange(i, end);
    if leads(name, i) && ends.len() == 1 {
        assert(e == end);
        lemma_cut_name(p, i, e);
        assert(q.subrange(i, end) =~= name);
        assert(names_from(q, end + 1) =~= Seq::empty());
        assert(names_from(q, i) =~= seq![name]);
        assert((seq![name] + names).drop_last() =~= seq![name]);
    } else {
        if leads(name, i) {
            assert(ends_from(p, i) == seq![end] + ends);
            assert(e == ends[ends.len() - 2]);
        }
        assert(end + 1 < e);
        lemma_cut_name(p, i, e);
        assert(q.subrange(i, end) =~= name);
        lemma_folder(p, end + 1, e);
        assert((seq![name] + names).drop_last() =~= seq![name] + names.drop_last());
    }
}

proof fn lemma_cut_name(p: Seq<u8>, i: int, e: int)
    requires
        0 <= i <= name_end(p, i) <= e <= p.len(),
    ensures
        name_end(p.take(e), i) == name_end(p, i),
    decreases p.len() - i,
{
    if i < p.len() && p[i] != SEPARATOR {
        lemma_name_end(p, i + 1);
        lemma_cut_name(p, i + 1, e);
    }
}

/// What a path has a name for lies in its folder: the folder is reached along the same names but
/// for the last.
pub proof fn law_a_folder_is_a_name_shorter(p: Seq<u8>)
    requires
        parts(p).names.len() > 0,
    ensures
        parts(folder(p)) == (PartsView { names: parts(p).names.drop_last(), ..parts(p) }),
{
    let (names, ends) = (names_from(p, 0), ends_from(p, 0));
    lemma_ends(p, 0);
    assert(0 < ends[ends.len() - 1] <= p.len());
    if ends.len() > 1 {
        assert(0 < ends[ends.len() - 2] <= p.len());
        lemma_folder(p, 0, ends[ends.len() - 2]);
    } else {
        let q = folder(p);
        reveal_with_fuel(name_end, 2);
        reveal_with_fuel(names_from, 4);
        assert(names_from(q, 0) =~= Seq::empty());
        assert(names.drop_last() =~= Seq::empty());
    }
}

/// A staging file is never the file itself, however its path is spelled.
pub proof fn law_staging_is_another_file(p: Seq<u8>)
    ensures
        parts(staged(p)) != parts(p),
{
    lemma_staged_leads_elsewhere(p, 0);
}

proof fn lemma_joined_name(p: Seq<u8>, t: Seq<u8>, i: int)
    requires
        0 <= i <= p.len(),
    ensures
        name_end(p + seq![SEPARATOR] + t, i) == name_end(p, i),
    decreases p.len() - i,
{
    let q = p + seq![SEPARATOR] + t;
    if i < p.len() {
        assert(q[i] == p[i]);
        if p[i] != SEPARATOR {
            lemma_joined_name(p, t, i + 1);
        }
    } else {
        assert(q[i] == SEPARATOR);
    }
}

proof fn lemma_joined(p: Seq<u8>, t: Seq<u8>, i: int)
    requires
        0 <= i <= p.len(),
    ensures
        names_from(p + seq![SEPARATOR] + t, i) == names_from(p, i) + names_from(
            p + seq![SEPARATOR] + t,
            p.len() as int + 1,
        ),
    decreases p.len() - i,
{
    let q = p + seq![SEPARATOR] + t;
    let end = name_end(p, i);
    lemma_name_end(p, i);
    lemma_joined_name(p, t, i);
    assert(q.subrange(i, end) =~= p.subrange(i, end));
    let rest = names_from(q, p.len() as int + 1);
    if end < p.len() {
        lemma_joined(p, t, end + 1);
    } else {
        assert(names_from(p, end + 1) =~= Seq::empty());
    }
    let name = p.subrange(i, end);
    assert(seq![name] + (names_from(p, end + 1) + rest) =~= seq![name] + names_from(p, end + 1)
        + rest);
    assert(Seq::<Seq<u8>>::empty() + rest =~= rest);
}

proof fn lemma_unbroken(q: Seq<u8>, s: int)
    requires
        0 <= s <= q.len(),
        forall|k: int| s <= k < q.len() ==> q[k] != SEPARATOR,
    ensures
        name_end(q, s) == q.len(),
    decreases q.len() - s,
{
    if s < q.len() {
        lemma_unbroken(q, s + 1);
    }
}

/// A name that is joined to a path is its last one; the names before it stay as they are. To join
/// nothing, or a dot, adds no name.
pub proof fn law_a_joined_name_comes_last(p: Seq<u8>, name: Seq<u8>)
    requires
        forall|k: int| 0 <= k < name.len() ==> #[trigger] name[k] != 0x2f,
    ensures
        ({
            let q = p + seq![0x2fu8] + name;
            &&& parts(q).absolute <==> p.len() == 0 || p[0] == 0x2f
            &&& name.len() == 0 || name == seq![0x2eu8] ==> parts(q).names == parts(p).names
            &&& name.len() > 0 && name != seq![0x2eu8] ==> parts(q).names == parts(p).names.push(
                name,
            )
            &&& name.len() > 0 && name != seq![0x2eu8] && name != seq![0x2eu8, 0x2eu8]
                ==> last_name(q) == Some(name)
            &&& name == seq![0x2eu8, 0x2eu8] ==> last_name(q) is None
        }),
{
    let q = p + seq![SEPARATOR] + name;
    let s = p.len() as int + 1;
    assert forall|k: int| s <= k < q.len() implies q[k] != SEPARATOR by {
        assert(q[k] == name[k - s]);
    }
    lemma_unbroken(q, s);
    lemma_joined(p, name, 0);
    assert(q.subrange(s, q.len() as int) =~= name);
    assert(names_from(q, q.len() as int + 1) =~= Seq::empty());
    let tail = names_from(q, s);
    if name.len() > 0 && name != seq![DOT] {
        assert(tail =~= seq![name]);
        assert(parts(p).names + tail =~= parts(p).names.push(name));
    } else {
        assert(tail =~= Seq::empty());
        assert(parts(p).names + tail =~= parts(p).names);
    }
    assert(up() =~= seq![0x2eu8, 0x2eu8]);
}

/// A path without separators is one name, but for the empty one, which has none.
pub proof fn law_a_bare_name_is_its_only_one(name: Seq<u8>)
    requires
        forall|k: int| 0 <= k < name.len() ==> #[trigger] name[k] != 0x2f,
    ensures
        !parts(name).absolute,
        name.len() > 0 ==> parts(name).names == seq![name],
        name.len() == 0 ==> parts(name).names.len() == 0,
        name.len() > 0 && name != seq![0x2eu8] && name != seq![0x2eu8, 0x2eu8] ==> last_name(name)
            == Some(name),
{
    lemma_unbroken(name, 0);
    assert(name.subrange(0, name.len() as int) =~= name);
    assert(names_from(name, name.len() as int + 1) =~= Seq::empty());
    assert(up() =~= seq![0x2eu8, 0x2eu8]);
    if name.len() > 0 {
        assert(names_from(name, 0) =~= seq![name]);
    }
}

/// Bytes are staged beside the file they are for, under its name with ".part" behind it.
pub proof fn law_staged_names_end_in_part(p: Seq<u8>)
    ensures
        staged(p) == p + seq![0x2eu8, 0x70, 0x61, 0x72, 0x74],
{
}

/// A path that is text is shown as that text.
pub proof fn law_text_is_shown_as_it_is(words: Seq<char>)
    ensures
        shown(utf8::encode_utf8(words)) == words,
{
    utf8::encode_utf8_valid_utf8(words);
    utf8::encode_utf8_decode_utf8(words);
}

} // verus!
