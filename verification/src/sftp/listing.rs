//! What a remote directory holds, in the order in which it is shown.

use crate::error::{CoreError, CoreErrorKind, Source};
use crate::model::{self, EntryView, FileEntry};
use crate::text;
use vstd::prelude::*;
#[allow(unused_imports)]
use vstd::string::*;

verus! {

/// What is asked of the other side beside copying.
#[derive(Debug, Clone, Copy, PartialEq, Eq, Structural)]
pub enum Operation {
    /// A path is to be resolved.
    ResolvePath,
    /// A directory is to be listed.
    ListDir,
    /// A directory is to be made.
    CreateDir,
    /// A file is to be removed.
    RemoveFile,
    /// An empty directory is to be removed.
    RemoveDir,
    /// A file or a directory is to be given another name.
    Rename,
    /// The length of a file and when it was changed are to be found out.
    Stat,
}

/// What it means that an operation failed.
pub open spec fn kind_of(op: Operation) -> CoreErrorKind {
    match op {
        Operation::ResolvePath => CoreErrorKind::ParsePath,
        Operation::ListDir => CoreErrorKind::ReadDir,
        Operation::CreateDir => CoreErrorKind::CreateDir,
        Operation::RemoveFile => CoreErrorKind::DeleteFile,
        Operation::RemoveDir => CoreErrorKind::DeleteDir,
        Operation::Rename => CoreErrorKind::Rename,
        Operation::Stat => CoreErrorKind::RemoteMetadata,
    }
}

impl Operation {
    /// What it means that the operation failed.
    pub fn failure(self, source: Source) -> (r: CoreError)
        ensures
            r == (CoreError::Sftp { kind: kind_of(self), source: Some(source) }),
    {
        let kind = match self {
            Operation::ResolvePath => CoreErrorKind::ParsePath,
            Operation::ListDir => CoreErrorKind::ReadDir,
            Operation::CreateDir => CoreErrorKind::CreateDir,
            Operation::RemoveFile => CoreErrorKind::DeleteFile,
            Operation::RemoveDir => CoreErrorKind::DeleteDir,
            Operation::Rename => CoreErrorKind::Rename,
            Operation::Stat => CoreErrorKind::RemoteMetadata,
        };
        CoreError::sftp(kind, source)
    }
}

/// Who a file belongs to: the name where the server tells it, else the number.
pub open spec fn owner_of(name: Option<Seq<char>>, number: Option<u32>) -> Option<Seq<char>> {
    match (name, number) {
        (Some(name), _) => Some(name),
        (None, Some(n)) => Some(text::decimal(n as nat)),
        (None, None) => None,
    }
}

/// Who a file belongs to: the name where the server tells it, else the number.
pub fn owner(name: Option<String>, number: Option<u32>) -> (r: Option<String>)
    ensures
        text::opt(r) == owner_of(text::opt(name), number),
{
    match name {
        Some(name) => Some(name),
        None => match number {
            Some(n) => Some(text::to_decimal(n as u128)),
            None => None,
        },
    }
}

/// What the server tells of something in a directory.
#[derive(Debug)]
pub struct RawEntry {
    /// Its name.
    pub name: String,
    /// Whether it is a directory.
    pub is_dir: bool,
    /// Its size in bytes.
    pub size: Option<u64>,
    /// When it was last changed, in seconds since 1970.
    pub mtime: Option<u32>,
    /// Its permissions.
    pub permissions: Option<u32>,
    /// The name of whose it is.
    pub user: Option<String>,
    /// The number of whose it is.
    pub uid: Option<u32>,
    /// The name of the group it belongs to.
    pub group: Option<String>,
    /// The number of the group it belongs to.
    pub gid: Option<u32>,
}

/// What is shown of something in a directory, with the words for when it was last changed.
pub open spec fn entry_of(raw: RawEntry, modified: Option<Seq<char>>) -> EntryView {
    EntryView {
        name: raw.name@,
        is_dir: raw.is_dir,
        size: match raw.size {
            Some(n) => n,
            None => 0,
        },
        modified,
        permissions: raw.permissions,
        user: owner_of(text::opt(raw.user), raw.uid),
        group: owner_of(text::opt(raw.group), raw.gid),
    }
}

/// What is shown of something in a directory, with the words for when it was last changed.
fn shown(raw: RawEntry, modified: Option<String>) -> (r: FileEntry)
    ensures
        r@ == entry_of(raw, text::opt(modified)),
{
    let size: u64 = match raw.size {
        Some(n) => n,
        None => 0,
    };
    FileEntry {
        name: raw.name,
        is_dir: raw.is_dir,
        size,
        modified,
        permissions: raw.permissions,
        user: owner(raw.user, raw.uid),
        group: owner(raw.group, raw.gid),
    }
}

/// Seconds of a day.
pub const DAY_SECONDS: u32 = 86_400;

/// Whether a text is a time as it is shown: `1970-01-31 23:59:59`.
pub open spec fn is_time(t: Seq<char>) -> bool {
    &&& t.len() == 19
    &&& forall|i: int|
        0 <= i < 19 ==> if i == 4 || i == 7 {
            #[trigger] t[i] == '-'
        } else if i == 10 {
            t[i] == ' '
        } else if i == 13 || i == 16 {
            t[i] == ':'
        } else {
            '0' <= t[i] <= '9'
        }
}

/// The time so many seconds after 1970 began, as `chrono` writes it where no offset is counted.
pub uninterp spec fn stamp(seconds: int) -> Seq<char>;

/// Whether `t` is how the time `at` is written, and that time is less than a day away from
/// another, as the times of two zones are.
pub open spec fn tells(seconds: u32, t: Seq<char>, at: int, written: Seq<char>) -> bool {
    &&& seconds - DAY_SECONDS < at < seconds + DAY_SECONDS
    &&& t == written
}

/// Whether a text is the time so many seconds after 1970 began, in some time zone: as it is
/// written where the offset of the zone, which is less than a day, is counted in.
pub open spec fn is_time_of(seconds: u32, t: Seq<char>) -> bool {
    is_time(t) && exists|at: int| tells(seconds, t, at, #[trigger] stamp(at))
}

/// `chrono::DateTime<Local>` from a `SystemTime`, and its `format`: the time that many seconds
/// after 1970 began, in the time zone of the machine. `DateTime` counts the offset of the zone in,
/// which a `FixedOffset` bounds by a day, and then writes the fields of that time. Which offset it
/// is depends on the machine and is left open.
#[verifier::external_body]
fn local_time(seconds: u32, form: &str) -> (r: String)
    requires
        form@ == "%Y-%m-%d %H:%M:%S"@,
    ensures
        is_time(r@),
        exists|at: int| tells(seconds, r@, at, #[trigger] stamp(at)),
{
    let t = std::time::UNIX_EPOCH + std::time::Duration::from_secs(seconds as u64);
    let at: chrono::DateTime<chrono::Local> = t.into();
    at.format(form).to_string()
}

/// Whether these are words for when something was last changed: there are some exactly where the
/// server tells when that was, and they tell that time in some time zone.
pub open spec fn dated(mtime: Option<u32>, words: Option<Seq<char>>) -> bool {
    match words {
        Some(t) => mtime is Some && is_time_of(mtime->0, t),
        None => mtime is None,
    }
}

/// The words of a list of times.
pub open spec fn times_of(times: Seq<Option<String>>) -> Seq<Option<Seq<char>>> {
    Seq::new(times.len(), |i: int| text::opt(times[i]))
}

/// What is shown of a directory, in order, with the words for when each was last changed.
pub open spec fn directory(raw: Seq<RawEntry>, times: Seq<Option<Seq<char>>>) -> Seq<EntryView> {
    arranged(Seq::new(raw.len(), |i: int| entry_of(raw[i], times[i])))
}

/// What is shown of a directory: directories first, then by name. The times are shown in the time
/// zone of the machine.
pub fn list_dir(raw: Vec<RawEntry>) -> (r: Vec<FileEntry>)
    ensures
        exists|times: Seq<Option<Seq<char>>>|
            times.len() == raw@.len() && (forall|i: int|
                0 <= i < raw@.len() ==> dated(raw@[i].mtime, #[trigger] times[i]))
                && model::entries(r@) == #[trigger] directory(raw@, times),
{
    let mut times: Vec<Option<String>> = Vec::new();
    let mut i: usize = 0;
    while i < raw.len()
        invariant
            i <= raw@.len(),
            times@.len() == i,
            forall|k: int|
                0 <= k < i ==> dated(raw@[k].mtime, text::opt(#[trigger] times@[k])),
        decreases raw@.len() - i,
    {
        let words = match raw[i].mtime {
            Some(seconds) => Some(local_time(seconds, "%Y-%m-%d %H:%M:%S")),
            None => None,
        };
        times.push(words);
        i += 1;
    }
    let ghost words = times_of(times@);
    proof {
        assert forall|k: int| 0 <= k < raw@.len() implies dated(
            raw@[k].mtime,
            #[trigger] words[k],
        ) by {
            assert(words[k] == text::opt(times@[k]));
        }
    }
    list_with(raw, times)
}

/// What is shown of a directory, with the words for when each was last changed.
pub fn list_with(raw: Vec<RawEntry>, times: Vec<Option<String>>) -> (r: Vec<FileEntry>)
    requires
        raw@.len() == times@.len(),
    ensures
        model::entries(r@) == directory(raw@, times_of(times@)),
{
    let ghost (all, words) = (raw@, times_of(times@));
    let mut raw = raw;
    let mut times = times;
    let mut list: Vec<FileEntry> = Vec::new();
    while raw.len() > 0
        invariant
            raw@.len() == times@.len(),
            raw@.len() + list@.len() == all.len(),
            words.len() == all.len(),
            raw@ == all.take(raw@.len() as int),
            times_of(times@) == words.take(times@.len() as int),
            forall|k: int|
                0 <= k < list@.len() ==> (#[trigger] list@[k])@ == entry_of(
                    all[all.len() - 1 - k],
                    words[all.len() - 1 - k],
                ),
        decreases raw@.len(),
    {
        let ghost (before, said) = (raw@, times@);
        let e = raw.pop().unwrap();
        let t = times.pop().unwrap();
        proof {
            assert(e == before[before.len() - 1]);
            assert(text::opt(t) == times_of(said)[said.len() - 1]);
            assert(raw@ =~= all.take(raw@.len() as int));
            assert(times_of(times@) =~= times_of(said).drop_last());
            assert(times_of(times@) =~= words.take(times@.len() as int));
        }
        list.push(shown(e, t));
    }
    let list = turned(list);
    assert(model::entries(list@) =~= Seq::new(all.len(), |i: int| entry_of(all[i], words[i])));
    arrange(list)
}

/// Whether `a` comes before `b` in a dictionary that goes by the characters' code points, from
/// `i` on.
pub open spec fn before_from(a: Seq<char>, b: Seq<char>, i: int) -> bool
    decreases a.len() - i,
{
    if i < 0 || i >= b.len() {
        false
    } else if i >= a.len() {
        true
    } else if a[i] == b[i] {
        before_from(a, b, i + 1)
    } else {
        (a[i] as int) < (b[i] as int)
    }
}

/// Whether `a` comes before `b` in a dictionary that goes by the characters' code points.
pub open spec fn before(a: Seq<char>, b: Seq<char>) -> bool {
    before_from(a, b, 0)
}

/// Whether `a` comes before `b` in a dictionary that goes by the characters' code points.
pub fn comes_before(a: &str, b: &str) -> (r: bool)
    ensures
        r == before(a@, b@),
{
    let x = text::chars_of(a);
    let y = text::chars_of(b);
    let mut i: usize = 0;
    while i < x.len() && i < y.len() && x[i] == y[i]
        invariant
            x@ == a@,
            y@ == b@,
            i <= x@.len(),
            i <= y@.len(),
            before(a@, b@) == before_from(a@, b@, i as int),
        decreases x@.len() - i,
    {
        i += 1;
    }
    if i >= y.len() {
        false
    } else if i >= x.len() {
        true
    } else {
        code_point(x[i]) < code_point(y[i])
    }
}

/// The code point of a character.
fn code_point(c: char) -> (r: u32)
    ensures
        r == c as int,
{
    c as u32
}

/// Whether `a` is shown above `b`, whatever order they came in: directories come first, and then
/// the names count, without regard to upper and lower case.
pub open spec fn above(a: EntryView, b: EntryView) -> bool {
    if a.is_dir != b.is_dir {
        a.is_dir
    } else {
        before(text::lowercase(a.name), text::lowercase(b.name))
    }
}

/// Whether `a` is shown above `b`.
fn is_above(a: &FileEntry, b: &FileEntry) -> (r: bool)
    ensures
        r == above(a@, b@),
{
    if a.is_dir != b.is_dir {
        a.is_dir
    } else {
        comes_before(a.name.to_lowercase().as_str(), b.name.to_lowercase().as_str())
    }
}

/// How many of the first `n` of a list stay above one that comes behind them.
pub open spec fn place_of(list: Seq<EntryView>, e: EntryView, n: int) -> int
    decreases n,
{
    if 0 < n && above(e, list[n - 1]) {
        place_of(list, e, n - 1)
    } else {
        n
    }
}

/// A list that is in order, with one more at its place: behind all that it is not shown above.
pub open spec fn placed(list: Seq<EntryView>, e: EntryView) -> Seq<EntryView> {
    list.insert(place_of(list, e, list.len() as int), e)
}

/// A list in the order in which it is shown. Those that the order does not tell apart stay in the
/// order in which they came.
pub open spec fn arranged(list: Seq<EntryView>) -> Seq<EntryView>
    decreases list.len(),
{
    if list.len() == 0 {
        list
    } else {
        placed(arranged(list.drop_last()), list.last())
    }
}

proof fn lemma_place(list: Seq<EntryView>, e: EntryView, n: int)
    requires
        0 <= n <= list.len(),
    ensures
        0 <= place_of(list, e, n) <= n,
        forall|k: int| place_of(list, e, n) <= k < n ==> above(e, #[trigger] list[k]),
        place_of(list, e, n) > 0 ==> !above(e, list[place_of(list, e, n) - 1]),
    decreases n,
{
    if 0 < n && above(e, list[n - 1]) {
        lemma_place(list, e, n - 1);
    }
}

/// One more is put into a list that is in order.
fn place(list: &mut Vec<FileEntry>, e: FileEntry)
    ensures
        model::entries(final(list)@) == placed(model::entries(old(list)@), e@),
{
    let ghost all = model::entries(list@);
    let mut i: usize = list.len();
    while 0 < i && is_above(&e, &list[i - 1])
        invariant
            i <= list@.len(),
            list@ == old(list)@,
            all == model::entries(list@),
            place_of(all, e@, all.len() as int) == place_of(all, e@, i as int),
        decreases i,
    {
        i -= 1;
        assert(all[i as int] == list@[i as int]@);
    }
    proof {
        if 0 < i {
            assert(all[i - 1] == list@[i - 1]@);
        }
    }
    list.insert(i, e);
    assert(model::entries(list@) =~= all.insert(i as int, e@));
}

/// A list in the order in which it is shown.
pub fn arrange(list: Vec<FileEntry>) -> (r: Vec<FileEntry>)
    ensures
        model::entries(r@) == arranged(model::entries(list@)),
{
    let ghost all = model::entries(list@);
    let mut back = turned(list);
    let mut out: Vec<FileEntry> = Vec::new();
    let ghost mut taken: int = 0;
    assert(all.take(0) =~= Seq::<EntryView>::empty());
    assert(model::entries(out@) =~= Seq::<EntryView>::empty());
    while back.len() > 0
        invariant
            0 <= taken <= all.len(),
            back@.len() == all.len() - taken,
            forall|k: int|
                0 <= k < back@.len() ==> (#[trigger] back@[k])@ == all[all.len() - 1 - k],
            model::entries(out@) == arranged(all.take(taken)),
        decreases back@.len(),
    {
        let ghost behind = back@;
        let e = back.pop().unwrap();
        proof {
            assert(behind[behind.len() - 1] == e);
            assert(e@ == all[taken]);
            assert forall|k: int| 0 <= k < back@.len() implies (#[trigger] back@[k])@ == all[
                all.len() - 1 - k
            ] by {
                assert(back@[k] == behind[k]);
            }
            assert(all.take(taken + 1).drop_last() =~= all.take(taken));
            assert(all.take(taken + 1).last() == e@);
            taken = taken + 1;
        }
        place(&mut out, e);
    }
    assert(all.take(taken) =~= all);
    out
}

/// A list from its end on.
fn turned(list: Vec<FileEntry>) -> (r: Vec<FileEntry>)
    ensures
        r@.len() == list@.len(),
        forall|k: int|
            0 <= k < r@.len() ==> (#[trigger] r@[k])@ == model::entries(list@)[r@.len() - 1 - k],
{
    let ghost all = list@;
    let mut rest = list;
    let mut back: Vec<FileEntry> = Vec::new();
    while rest.len() > 0
        invariant
            rest@.len() + back@.len() == all.len(),
            rest@ == all.take(rest@.len() as int),
            forall|k: int| 0 <= k < back@.len() ==> #[trigger] back@[k] == all[all.len() - 1 - k],
        decreases rest@.len(),
    {
        let ghost before = rest@;
        let e = rest.pop().unwrap();
        proof {
            assert(e == before[before.len() - 1]);
            assert(rest@ =~= all.take(rest@.len() as int));
        }
        back.push(e);
    }
    back
}

/// Whether no entry of a list is shown above one that stands before it.
pub open spec fn in_order(list: Seq<EntryView>) -> bool {
    forall|i: int, j: int| 0 <= i < j < list.len() ==> !above(#[trigger] list[j], #[trigger] list[i])
}

proof fn lemma_before_is_transitive(a: Seq<char>, b: Seq<char>, c: Seq<char>, i: int)
    requires
        i >= 0,
        !before_from(b, a, i),
        !before_from(c, b, i),
    ensures
        !before_from(c, a, i),
    decreases c.len() - i,
{
    if i < c.len() && i < a.len() {
        assert(i < b.len());
        if b[i] == a[i] && c[i] == a[i] {
            lemma_before_is_transitive(a, b, c, i + 1);
        } else {
            assert((a[i] as int) <= (b[i] as int));
            assert((b[i] as int) <= (c[i] as int));
        }
    }
}

proof fn lemma_before_is_one_way(a: Seq<char>, b: Seq<char>, i: int)
    requires
        i >= 0,
        before_from(a, b, i),
    ensures
        !before_from(b, a, i),
    decreases a.len() - i,
{
    if i < a.len() && i < b.len() && a[i] == b[i] {
        lemma_before_is_one_way(a, b, i + 1);
    }
}

proof fn lemma_above_is_transitive(a: EntryView, b: EntryView, c: EntryView)
    requires
        !above(b, a),
        !above(c, b),
    ensures
        !above(c, a),
{
    if a.is_dir == b.is_dir && b.is_dir == c.is_dir {
        lemma_before_is_transitive(
            text::lowercase(a.name),
            text::lowercase(b.name),
            text::lowercase(c.name),
            0,
        );
    }
}

proof fn lemma_above_is_one_way(a: EntryView, b: EntryView)
    requires
        above(a, b),
    ensures
        !above(b, a),
{
    if a.is_dir == b.is_dir {
        lemma_before_is_one_way(text::lowercase(a.name), text::lowercase(b.name), 0);
    }
}

/// A directory is shown in order: directories first, then by name.
pub proof fn law_arranged_lists_are_in_order(list: Seq<EntryView>)
    ensures
        in_order(arranged(list)),
    decreases list.len(),
{
    if list.len() > 0 {
        let front = arranged(list.drop_last());
        let e = list.last();
        law_arranged_lists_are_in_order(list.drop_last());
        let n = front.len() as int;
        lemma_place(front, e, n);
        let p = place_of(front, e, n);
        let all = arranged(list);
        assert forall|i: int, j: int| 0 <= i < j < all.len() implies !above(
            #[trigger] all[j],
            #[trigger] all[i],
        ) by {
            if j < p {
                assert(all[i] == front[i] && all[j] == front[j]);
            } else if i > p {
                assert(all[i] == front[i - 1] && all[j] == front[j - 1]);
            } else if i < p && j > p {
                assert(all[i] == front[i] && all[j] == front[j - 1]);
            } else if j == p {
                assert(all[i] == front[i]);
                if i < p - 1 {
                    assert(!above(front[p - 1], front[i]));
                    lemma_above_is_transitive(front[i], front[p - 1], e);
                }
            } else {
                assert(all[j] == front[j - 1]);
                lemma_above_is_one_way(e, front[j - 1]);
            }
        }
    }
}

/// Whether the order does not tell two entries apart: both are directories or neither is, and
/// their names are the same but for upper and lower case.
pub open spec fn alike(a: EntryView, b: EntryView) -> bool {
    !above(a, b) && !above(b, a)
}

/// Entries that the order does not tell apart are shown in the order in which the server tells
/// them.
pub proof fn law_alike_entries_stay_in_order(list: Seq<EntryView>, e: EntryView)
    ensures
        arranged(list).filter(|x: EntryView| alike(e, x)) == list.filter(
            |x: EntryView| alike(e, x),
        ),
    decreases list.len(),
{
    let pick = |x: EntryView| alike(e, x);
    if list.len() > 0 {
        let init = list.drop_last();
        let last = list.last();
        let front = arranged(init);
        law_alike_entries_stay_in_order(init, e);
        let n = front.len() as int;
        lemma_place(front, last, n);
        let p = place_of(front, last, n);
        let (head, tail) = (front.take(p), front.skip(p));
        assert(arranged(list) =~= head + seq![last] + tail);
        assert(front =~= head + tail);
        assert(list =~= init + seq![last]);
        Seq::filter_distributes_over_add(head + seq![last], tail, pick);
        Seq::filter_distributes_over_add(head, seq![last], pick);
        Seq::filter_distributes_over_add(head, tail, pick);
        Seq::filter_distributes_over_add(init, seq![last], pick);
        if pick(last) {
            assert forall|k: int| 0 <= k < tail.len() implies !pick(#[trigger] tail[k]) by {
                assert(tail[k] == front[p + k]);
                assert(above(last, tail[k]));
                lemma_above_is_one_way(last, tail[k]);
                if alike(e, tail[k]) {
                    lemma_above_is_transitive(tail[k], e, last);
                    assert(!above(last, tail[k]));
                }
            }
            lemma_none_picked(tail, pick);
            assert(head.filter(pick) + seq![last].filter(pick) + tail.filter(pick)
                =~= head.filter(pick) + tail.filter(pick) + seq![last].filter(pick));
        } else {
            lemma_none_picked(seq![last], pick);
            assert(head.filter(pick) + seq![last].filter(pick) + tail.filter(pick)
                =~= head.filter(pick) + tail.filter(pick) + seq![last].filter(pick));
        }
    } else {
        assert(arranged(list) =~= list);
    }
}

proof fn lemma_none_picked(list: Seq<EntryView>, pick: spec_fn(EntryView) -> bool)
    requires
        forall|k: int| 0 <= k < list.len() ==> !pick(#[trigger] list[k]),
    ensures
        list.filter(pick) == Seq::<EntryView>::empty(),
    decreases list.len(),
{
    reveal(Seq::filter);
    if list.len() > 0 {
        let front = list.drop_last();
        assert forall|k: int| 0 <= k < front.len() implies !pick(#[trigger] front[k]) by {
            assert(front[k] == list[k]);
        }
        assert(!pick(list[list.len() - 1]));
        lemma_none_picked(front, pick);
    } else {
        assert(list.filter(pick) =~= Seq::<EntryView>::empty());
    }
}

/// Nothing is lost and nothing is added by putting a list in order.
pub proof fn law_arranged_lists_hold_the_same(list: Seq<EntryView>)
    ensures
        arranged(list).to_multiset() == list.to_multiset(),
        arranged(list).len() == list.len(),
    decreases list.len(),
{
    if list.len() > 0 {
        let front = arranged(list.drop_last());
        let e = list.last();
        law_arranged_lists_hold_the_same(list.drop_last());
        lemma_place(front, e, front.len() as int);
        let p = place_of(front, e, front.len() as int);
        vstd::seq_lib::to_multiset_insert(front, p, e);
        vstd::seq_lib::to_multiset_insert(list.drop_last(), list.len() - 1, e);
        assert(list.drop_last().insert(list.len() - 1, e) =~= list);
    }
}

/// Directories come before files. Among either, names are told apart without regard to case: the
/// first letter in which they differ decides, and where one ends first it comes first.
pub proof fn law_directories_come_first_then_names(a: EntryView, b: EntryView, i: int)
    ensures
        a.is_dir && !b.is_dir ==> above(a, b) && !above(b, a),
        a.is_dir == b.is_dir ==> ({
            let (x, y) = (text::lowercase(a.name), text::lowercase(b.name));
            &&& 0 <= i < x.len() && i < y.len() && x.take(i) == y.take(i) && (x[i] as int) < (
            y[i] as int) ==> above(a, b)
            &&& x.len() < y.len() && x == y.take(x.len() as int) ==> above(a, b)
            &&& x == y ==> !above(a, b) && !above(b, a)
        }),
{
    if a.is_dir == b.is_dir {
        let (x, y) = (text::lowercase(a.name), text::lowercase(b.name));
        if 0 <= i < x.len() && i < y.len() && x.take(i) == y.take(i) && (x[i] as int) < (
        y[i] as int) {
            lemma_common_start(x, y, 0, i);
        }
        if x.len() < y.len() && x == y.take(x.len() as int) {
            assert(x.take(x.len() as int) =~= x);
            lemma_common_start(x, y, 0, x.len() as int);
        }
        if x == y {
            assert(x.take(x.len() as int) =~= y.take(x.len() as int));
            lemma_common_start(x, y, 0, x.len() as int);
        }
    }
}

proof fn lemma_common_start(x: Seq<char>, y: Seq<char>, i: int, n: int)
    requires
        0 <= i <= n <= x.len(),
        n <= y.len(),
        x.take(n) == y.take(n),
    ensures
        before_from(x, y, i) == before_from(x, y, n),
        before_from(y, x, i) == before_from(y, x, n),
    decreases n - i,
{
    if i < n {
        assert(x[i] == x.take(n)[i]);
        assert(y[i] == y.take(n)[i]);
        lemma_common_start(x, y, i + 1, n);
    }
}

/// Each entry is shown as the server tells of it; a size that is not told counts as none. An owner
/// is shown by name, where there is one, else by number.
pub proof fn law_entries_are_shown_as_told(raw: RawEntry, modified: Option<Seq<char>>)
    ensures
        ({
            let e = entry_of(raw, modified);
            &&& e.name == raw.name@
            &&& e.is_dir == raw.is_dir
            &&& raw.size matches Some(n) ==> e.size == n
            &&& raw.size is None ==> e.size == 0
            &&& e.modified == modified
            &&& e.permissions == raw.permissions
            &&& raw.user matches Some(name) ==> e.user == Some(name@)
            &&& raw.user is None ==> (raw.uid matches Some(n) ==> e.user == Some(
                text::decimal(n as nat),
            ))
            &&& raw.user is None && raw.uid is None ==> e.user is None
            &&& raw.group matches Some(name) ==> e.group == Some(name@)
            &&& raw.group is None ==> (raw.gid matches Some(n) ==> e.group == Some(
                text::decimal(n as nat),
            ))
            &&& raw.group is None && raw.gid is None ==> e.group is None
        }),
{
}

/// A directory is shown with all its entries, each with the time that was read of it.
pub proof fn law_a_directory_is_shown_whole(
    raw: Seq<RawEntry>,
    times: Seq<Option<Seq<char>>>,
    i: int,
)
    requires
        raw.len() == times.len(),
        0 <= i < raw.len(),
    ensures
        directory(raw, times).len() == raw.len(),
        directory(raw, times).contains(entry_of(raw[i], times[i])),
        in_order(directory(raw, times)),
{
    let list = Seq::new(raw.len(), |i: int| entry_of(raw[i], times[i]));
    law_arranged_lists_hold_the_same(list);
    law_arranged_lists_are_in_order(list);
    list.to_multiset_ensures();
    directory(raw, times).to_multiset_ensures();
    assert(list[i] == entry_of(raw[i], times[i]));
    assert(list.contains(list[i]));
    assert(list.to_multiset().count(list[i]) > 0);
    assert(directory(raw, times).to_multiset().count(list[i]) > 0);
}

/// What fails is told by what was tried.
pub proof fn law_failures_are_told_by_what_was_tried(op: Operation)
    ensures
        kind_of(op) == CoreErrorKind::ReadDir <==> op == Operation::ListDir,
        kind_of(op) == CoreErrorKind::CreateDir <==> op == Operation::CreateDir,
        kind_of(op) == CoreErrorKind::DeleteFile <==> op == Operation::RemoveFile,
        kind_of(op) == CoreErrorKind::DeleteDir <==> op == Operation::RemoveDir,
        kind_of(op) == CoreErrorKind::Rename <==> op == Operation::Rename,
        kind_of(op) == CoreErrorKind::RemoteMetadata <==> op == Operation::Stat,
        kind_of(op) == CoreErrorKind::ParsePath <==> op == Operation::ResolvePath,
{
}

} // verus!
