//! The fonts to choose from.

use crate::i18n::Wording;
use crate::i18n;
use crate::sftp::listing;
use crate::text;
use vstd::prelude::*;

verus! {

/// A font face of the system.
#[derive(Debug)]
pub struct Face {
    /// The name of its family, where it has one.
    pub family: Option<String>,
    /// Whether all its characters have the same width.
    pub monospaced: bool,
}

/// The families of the system's fonts.
#[derive(Debug)]
pub struct FontLists {
    all: Vec<String>,
    mono: Vec<String>,
}

/// What a [`FontLists`] holds.
pub struct ListsView {
    /// All families.
    pub all: Seq<Seq<char>>,
    /// Those whose characters have the same width.
    pub mono: Seq<Seq<char>>,
}

impl View for FontLists {
    type V = ListsView;

    closed spec fn view(&self) -> ListsView {
        ListsView { all: text::strings(self.all@), mono: text::strings(self.mono@) }
    }
}

/// The name of a face's family, without white space around it; none where nothing is left.
pub open spec fn family_of(f: Face) -> Option<Seq<char>> {
    match f.family {
        Some(name) => if text::trimmed(name@).len() == 0 {
            None
        } else {
            Some(text::trimmed(name@))
        },
        None => None,
    }
}

/// Whether a family is that of one of the faces, or of one whose characters have the same width.
pub open spec fn is_family(faces: Seq<Face>, name: Seq<char>, mono: bool) -> bool {
    exists|i: int|
        0 <= i < faces.len() && family_of(#[trigger] faces[i]) == Some(name) && (mono
            ==> faces[i].monospaced)
}

/// Whether names are in the order of the dictionary, and none is there twice.
pub open spec fn ascending(list: Seq<Seq<char>>) -> bool {
    forall|i: int, j: int|
        0 <= i < j < list.len() ==> listing::before(#[trigger] list[i], #[trigger] list[j])
}

/// Whether a list is that of the families: all of them, each once, in order.
pub open spec fn lists(list: Seq<Seq<char>>, faces: Seq<Face>, mono: bool) -> bool {
    &&& ascending(list)
    &&& forall|name: Seq<char>| #[trigger] list.contains(name) <==> is_family(faces, name, mono)
}

proof fn lemma_before_connects(a: Seq<char>, b: Seq<char>, i: int)
    requires
        0 <= i <= a.len(),
        i <= b.len(),
        a.take(i) == b.take(i),
        !listing::before_from(a, b, i),
        !listing::before_from(b, a, i),
    ensures
        a == b,
    decreases a.len() - i,
{
    if i < a.len() && i < b.len() {
        assert(a[i] == b[i]) by {
            if a[i] != b[i] {
                assert(a[i] as int != b[i] as int);
            }
        }
        assert(a.take(i + 1) =~= a.take(i).push(a[i]));
        assert(b.take(i + 1) =~= b.take(i).push(b[i]));
        lemma_before_connects(a, b, i + 1);
    } else {
        assert(a.take(i) =~= a);
        assert(b.take(i) =~= b);
    }
}

proof fn lemma_before_chains(a: Seq<char>, b: Seq<char>, c: Seq<char>, i: int)
    requires
        i >= 0,
        listing::before_from(a, b, i),
        listing::before_from(b, c, i),
    ensures
        listing::before_from(a, c, i),
    decreases c.len() - i,
{
    if i < a.len() && i < b.len() && i < c.len() && a[i] == b[i] && b[i] == c[i] {
        lemma_before_chains(a, b, c, i + 1);
    }
}

proof fn lemma_not_before_itself(a: Seq<char>, i: int)
    requires
        i >= 0,
    ensures
        !listing::before_from(a, a, i),
    decreases a.len() - i,
{
    if i < a.len() {
        lemma_not_before_itself(a, i + 1);
    }
}

/// A name is put in its place, unless it is there.
fn insert(list: &mut Vec<String>, name: &str)
    requires
        ascending(text::strings(old(list)@)),
    ensures
        ascending(text::strings(final(list)@)),
        forall|n: Seq<char>| #[trigger]
            text::strings(final(list)@).contains(n) <==> text::strings(old(list)@).contains(n) || n
                == name@,
{
    let ghost before = text::strings(list@);
    let mut i: usize = 0;
    while i < list.len() && listing::comes_before(list[i].as_str(), name)
        invariant
            i <= list@.len(),
            list@ == old(list)@,
            before == text::strings(list@),
            forall|k: int| 0 <= k < i ==> listing::before(#[trigger] before[k], name@),
        decreases list@.len() - i,
    {
        i += 1;
    }
    if i < list.len() && text::same(list[i].as_str(), name) {
        proof {
            assert(before[i as int] == name@);
        }
        return;
    }
    list.insert(i, name.to_owned());
    proof {
        let after = text::strings(list@);
        assert(after =~= before.insert(i as int, name@));
        if i < before.len() {
            assert(before[i as int] == old(list)@[i as int]@);
            if !listing::before(name@, before[i as int]) {
                assert(name@.take(0) =~= before[i as int].take(0));
                lemma_before_connects(name@, before[i as int], 0);
            }
        }
        assert forall|a: int, b: int| 0 <= a < b < after.len() implies listing::before(
            #[trigger] after[a],
            #[trigger] after[b],
        ) by {
            let x = if a < i {
                a
            } else {
                a - 1
            };
            let y = if b < i {
                b
            } else {
                b - 1
            };
            if a != i {
                assert(after[a] == before[x]);
            }
            if b != i {
                assert(after[b] == before[y]);
            }
            if a == i && b > i + 1 {
                assert(listing::before(before[i as int], before[y]));
                lemma_before_chains(name@, before[i as int], before[y], 0);
            }
        }
        assert forall|n: Seq<char>| #[trigger] after.contains(n) <==> before.contains(n) || n
            == name@ by {
            if after.contains(n) {
                let k = choose|k: int| 0 <= k < after.len() && after[k] == n;
                if k < i {
                    assert(before[k] == n);
                } else if k > i {
                    assert(before[k - 1] == n);
                }
            }
            if before.contains(n) {
                let k = choose|k: int| 0 <= k < before.len() && before[k] == n;
                if k < i {
                    assert(after[k] == n);
                } else {
                    assert(after[k + 1] == n);
                }
            }
            assert(after[i as int] == name@);
        }
    }
}

/// The families of the system's fonts, from their faces.
pub fn font_lists(faces: &Vec<Face>) -> (r: FontLists)
    ensures
        lists(r@.all, faces@, false),
        lists(r@.mono, faces@, true),
{
    let mut all: Vec<String> = Vec::new();
    let mut mono: Vec<String> = Vec::new();
    let mut i: usize = 0;
    let ghost seen = faces@;
    while i < faces.len()
        invariant
            i <= faces@.len(),
            seen == faces@,
            lists(text::strings(all@), seen.take(i as int), false),
            lists(text::strings(mono@), seen.take(i as int), true),
        decreases faces@.len() - i,
    {
        let ghost before = seen.take(i as int);
        let ghost after = seen.take(i + 1);
        let ghost here = seen[i as int];
        let ghost (had, had_mono) = (text::strings(all@), text::strings(mono@));
        assert(after =~= before.push(here));
        if let Some(family) = &faces[i].family {
            let name = text::trim(family.as_str());
            if name.unicode_len() > 0 {
                insert(&mut all, name);
                if faces[i].monospaced {
                    insert(&mut mono, name);
                }
            }
        }
        proof {
            assert forall|n: Seq<char>, m: bool| #[trigger] is_family(after, n, m) <==> is_family(
                before,
                n,
                m,
            ) || (family_of(here) == Some(n) && (m ==> here.monospaced)) by {
                if is_family(after, n, m) {
                    let k = choose|k: int|
                        0 <= k < after.len() && family_of(#[trigger] after[k]) == Some(n) && (m
                            ==> after[k].monospaced);
                    if k < before.len() {
                        assert(before[k] == after[k]);
                    }
                }
                if is_family(before, n, m) {
                    let k = choose|k: int|
                        0 <= k < before.len() && family_of(#[trigger] before[k]) == Some(n) && (m
                            ==> before[k].monospaced);
                    assert(after[k] == before[k]);
                }
                assert(after[before.len() as int] == here);
            }
            let (now, now_mono) = (text::strings(all@), text::strings(mono@));
            assert forall|n: Seq<char>| #[trigger] now.contains(n) <==> is_family(
                after,
                n,
                false,
            ) by {
                assert(had.contains(n) <==> is_family(before, n, false));
                assert(is_family(after, n, false) <==> is_family(before, n, false) || (family_of(
                    here,
                ) == Some(n)));
            }
            assert forall|n: Seq<char>| #[trigger] now_mono.contains(n) <==> is_family(
                after,
                n,
                true,
            ) by {
                assert(had_mono.contains(n) <==> is_family(before, n, true));
                assert(is_family(after, n, true) <==> is_family(before, n, true) || (family_of(
                    here,
                ) == Some(n) && here.monospaced));
            }
        }
        i += 1;
    }
    assert(seen.take(i as int) =~= seen);
    FontLists { all, mono }
}

/// All families, in order.
pub fn installed_families(lists: &FontLists) -> (r: &Vec<String>)
    ensures
        text::strings(r@) == lists@.all,
{
    &lists.all
}

/// The families whose characters have the same width, in order; a terminal can have no others.
pub fn installed_monospace_families(lists: &FontLists) -> (r: &Vec<String>)
    ensures
        text::strings(r@) == lists@.mono,
{
    &lists.mono
}

/// What stands for the default font among the choices.
pub fn default_font_label() -> (r: Wording)
    ensures
        r@ == i18n::entry("settings.ui_font_default"@),
{
    Wording::entry("settings.ui_font_default")
}

/// The choices: what stands for the default font, the families, and the font there is, where it
/// is none of these and not blank.
pub open spec fn options(
    label: Seq<char>,
    families: Seq<Seq<char>>,
    current: Seq<char>,
) -> Seq<Seq<char>> {
    let known = seq![label] + families;
    if text::trimmed(current).len() > 0 && !known.contains(current) {
        known.push(current)
    } else {
        known
    }
}

/// The choices of fonts among families. `label` is what stands for the default font, in the
/// user's language.
fn font_options(label: &str, families: &Vec<String>, current: &str) -> (r: Vec<String>)
    ensures
        text::strings(r@) == options(label@, text::strings(families@), current@),
{
    let mut out: Vec<String> = Vec::new();
    out.push(label.to_owned());
    let mut rest = text::copied(families);
    let ghost (a, b) = (out@, rest@);
    out.append(&mut rest);
    let ghost known = seq![label@] + text::strings(families@);
    proof {
        assert(out@ =~= a + b);
        assert(text::strings(out@) =~= known) by {
            assert forall|k: int| 0 <= k < out@.len() implies out@[k]@ == known[k] by {
                if k > 0 {
                    assert(out@[k] == b[k - 1]);
                    assert(b[k - 1]@ == text::strings(b)[k - 1]);
                }
            }
        }
    }
    if text::is_blank(current) {
        return out;
    }
    let mut i: usize = 0;
    while i < out.len()
        invariant
            i <= out@.len(),
            text::strings(out@) == known,
            known == seq![label@] + text::strings(families@),
            text::trimmed(current@).len() > 0,
            forall|k: int| 0 <= k < i ==> #[trigger] known[k] != current@,
        decreases out@.len() - i,
    {
        assert(known[i as int] == out@[i as int]@);
        if text::same(out[i].as_str(), current) {
            assert(known.contains(current@));
            return out;
        }
        i += 1;
    }
    assert(!known.contains(current@));
    let ghost before = out@;
    out.push(current.to_owned());
    assert(text::strings(out@) =~= known.push(current@)) by {
        assert forall|k: int| 0 <= k < out@.len() implies out@[k]@ == known.push(
            current@,
        )[k] by {
            if k < before.len() {
                assert(out@[k] == before[k]);
                assert(known[k] == before[k]@);
            }
        }
    }
    out
}

/// The choices of a font for the program.
pub fn ui_font_options(label: &str, lists: &FontLists, current: &str) -> (r: Vec<String>)
    ensures
        text::strings(r@) == options(label@, lists@.all, current@),
{
    font_options(label, &lists.all, current)
}

/// The choices of a font for the terminals.
pub fn terminal_font_options(label: &str, lists: &FontLists, current: &str) -> (r: Vec<String>)
    ensures
        text::strings(r@) == options(label@, lists@.mono, current@),
{
    font_options(label, &lists.mono, current)
}

/// The font that a name stands for.
#[derive(Debug, Clone, Copy, PartialEq, Eq, Structural)]
pub enum Resolved {
    /// The default one.
    Default,
    /// The system's monospaced one.
    Monospace,
    /// The one of that name.
    Named,
}

/// The font of the program that a name stands for: the default one where it is blank.
pub fn resolve_font(name: &str) -> (r: Resolved)
    ensures
        r == (if text::trimmed(name@).len() == 0 {
            Resolved::Default
        } else {
            Resolved::Named
        }),
{
    if text::is_blank(name) {
        Resolved::Default
    } else {
        Resolved::Named
    }
}

/// The font of the terminals that a name stands for: the monospaced one where it is blank.
pub fn resolve_terminal_font(name: &str) -> (r: Resolved)
    ensures
        r == (if text::trimmed(name@).len() == 0 {
            Resolved::Monospace
        } else {
            Resolved::Named
        }),
{
    if text::is_blank(name) {
        Resolved::Monospace
    } else {
        Resolved::Named
    }
}

/// The families are listed in one way only.
pub proof fn law_families_are_listed_in_one_way(
    a: Seq<Seq<char>>,
    b: Seq<Seq<char>>,
    faces: Seq<Face>,
    mono: bool,
)
    requires
        lists(a, faces, mono),
        lists(b, faces, mono),
    ensures
        a == b,
    decreases a.len(),
{
    assert forall|n: Seq<char>| a.contains(n) == b.contains(n) by {}
    lemma_same_contents(a, b);
}

proof fn lemma_same_contents(a: Seq<Seq<char>>, b: Seq<Seq<char>>)
    requires
        ascending(a),
        ascending(b),
        forall|n: Seq<char>| a.contains(n) == b.contains(n),
    ensures
        a == b,
    decreases a.len(),
{
    if a.len() == 0 {
        if b.len() > 0 {
            assert(b.contains(b[0]));
            assert(a.contains(b[0]));
        }
        assert(a =~= b);
    } else {
        assert(a.contains(a.last())) by {
            assert(a[a.len() - 1] == a.last());
        }
        assert(b.contains(a.last()));
        assert(b.len() > 0);
        assert(b.contains(b.last())) by {
            assert(b[b.len() - 1] == b.last());
        }
        assert(a.contains(b.last()));
        let i = choose|i: int| 0 <= i < b.len() && b[i] == a.last();
        let j = choose|j: int| 0 <= j < a.len() && a[j] == b.last();
        if a.last() != b.last() {
            assert(listing::before(b[i], b[b.len() - 1]));
            assert(listing::before(a[j], a[a.len() - 1]));
            lemma_before_chains(a.last(), b.last(), a.last(), 0);
            lemma_not_before_itself(a.last(), 0);
        }
        let (x, y) = (a.drop_last(), b.drop_last());
        assert(ascending(x)) by {
            assert forall|p: int, q: int| 0 <= p < q < x.len() implies listing::before(
                #[trigger] x[p],
                #[trigger] x[q],
            ) by {
                assert(x[p] == a[p] && x[q] == a[q]);
            }
        }
        assert(ascending(y)) by {
            assert forall|p: int, q: int| 0 <= p < q < y.len() implies listing::before(
                #[trigger] y[p],
                #[trigger] y[q],
            ) by {
                assert(y[p] == b[p] && y[q] == b[q]);
            }
        }
        assert forall|n: Seq<char>| x.contains(n) == y.contains(n) by {
            if x.contains(n) {
                let p = choose|p: int| 0 <= p < x.len() && x[p] == n;
                assert(a[p] == n);
                assert(a.contains(n));
                assert(listing::before(a[p], a[a.len() - 1]));
                lemma_not_before_itself(n, 0);
                assert(b.contains(n));
                let q = choose|q: int| 0 <= q < b.len() && b[q] == n;
                assert(q < b.len() - 1);
                assert(y[q] == n);
            }
            if y.contains(n) {
                let p = choose|p: int| 0 <= p < y.len() && y[p] == n;
                assert(b[p] == n);
                assert(b.contains(n));
                assert(listing::before(b[p], b[b.len() - 1]));
                lemma_not_before_itself(n, 0);
                assert(a.contains(n));
                let q = choose|q: int| 0 <= q < a.len() && a[q] == n;
                assert(q < a.len() - 1);
                assert(x[q] == n);
            }
        }
        lemma_same_contents(x, y);
        assert(a =~= x.push(a.last()));
        assert(b =~= y.push(b.last()));
    }
}

/// The choice begins with the default and offers each family; a font that is set stays in the
/// choice, though it is not installed, and nothing is offered that is none of these.
pub proof fn law_a_font_that_is_set_can_be_chosen(
    label: Seq<char>,
    families: Seq<Seq<char>>,
    current: Seq<char>,
    name: Seq<char>,
)
    ensures
        ({
            let all = options(label, families, current);
            &&& all[0] == label
            &&& all.take(families.len() as int + 1) == seq![label] + families
            &&& all.len() <= families.len() + 2
            &&& text::trimmed(current).len() > 0 ==> all.contains(current)
            &&& all.contains(name) ==> name == label || families.contains(name) || (name == current
                && text::trimmed(current).len() > 0)
        }),
{
    let known = seq![label] + families;
    let all = options(label, families, current);
    assert(all.take(families.len() as int + 1) =~= known);
    if text::trimmed(current).len() > 0 {
        if known.contains(current) {
            let i = choose|i: int| 0 <= i < known.len() && known[i] == current;
            assert(all[i] == current);
        } else {
            assert(all[known.len() as int] == current);
        }
    }
    if all.contains(name) {
        let i = choose|i: int| 0 <= i < all.len() && all[i] == name;
        if 0 < i < known.len() {
            assert(families[i - 1] == name);
        }
    }
}

/// A family is offered under the name of a face of it, without the space around it; a face without
/// a name offers none, and only one of even width is offered to the terminals.
pub proof fn law_families_are_those_of_the_faces(
    list: Seq<Seq<char>>,
    faces: Seq<Face>,
    mono: bool,
    i: int,
    name: Seq<char>,
)
    requires
        lists(list, faces, mono),
        0 <= i < faces.len(),
        faces[i].family matches Some(f) && text::trimmed(f@) == name,
    ensures
        name.len() > 0 && (mono ==> faces[i].monospaced) ==> list.contains(name),
        list.contains(name) ==> name.len() > 0,
{
    if name.len() > 0 && (mono ==> faces[i].monospaced) {
        assert(family_of(faces[i]) == Some(name));
        assert(is_family(faces, name, mono));
    }
}

} // verus!
