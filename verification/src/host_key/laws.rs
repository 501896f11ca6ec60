//! What holds of the file of the hosts as a whole.

use crate::host_key::{self, StatusView};
use crate::text;
use vstd::prelude::*;

verus! {

proof fn lemma_line_end_shifts(a: Seq<char>, b: Seq<char>, j: int)
    requires
        0 <= j <= b.len(),
    ensures
        host_key::line_end(a + b, a.len() + j) == a.len() + host_key::line_end(b, j),
    decreases b.len() - j,
{
    if j < b.len() && b[j] != '\n' {
        lemma_line_end_shifts(a, b, j + 1);
    }
}

proof fn lemma_lines_shift(a: Seq<char>, b: Seq<char>, j: int)
    requires
        0 <= j <= b.len(),
    ensures
        host_key::lines_from(a + b, a.len() + j) == host_key::lines_from(b, j),
    decreases b.len() - j,
{
    if j < b.len() {
        lemma_line_end_shifts(a, b, j);
        host_key::lemma_line_end(b, j);
        let end = host_key::line_end(b, j);
        assert((a + b).subrange(a.len() + j, a.len() + end) =~= b.subrange(j, end));
        if end < b.len() {
            lemma_lines_shift(a, b, end + 1);
        }
    }
}

proof fn lemma_line_end_stays(a: Seq<char>, b: Seq<char>, i: int)
    requires
        0 <= i <= a.len(),
        host_key::line_end(a, i) < a.len(),
    ensures
        host_key::line_end(a + b, i) == host_key::line_end(a, i),
    decreases a.len() - i,
{
    host_key::lemma_line_end(a, i);
    if i < a.len() && a[i] != '\n' {
        lemma_line_end_stays(a, b, i + 1);
    }
}

/// Whether the last line of a text is ended.
spec fn whole(s: Seq<char>) -> bool {
    s.len() == 0 || s.last() == '\n'
}

proof fn lemma_lines_of_two(a: Seq<char>, b: Seq<char>, i: int)
    requires
        0 <= i <= a.len(),
        whole(a),
    ensures
        host_key::lines_from(a + b, i) == host_key::lines_from(a, i) + host_key::lines_of(b),
    decreases a.len() - i,
{
    if i == a.len() {
        lemma_lines_shift(a, b, 0);
        assert(host_key::lines_from(a, i) =~= Seq::empty());
        assert(host_key::lines_from(a, i) + host_key::lines_of(b) =~= host_key::lines_of(b));
    } else {
        host_key::lemma_line_end(a, i);
        let end = host_key::line_end(a, i);
        if end == a.len() {
            assert(a[a.len() - 1] == '\n');
        }
        lemma_line_end_stays(a, b, i);
        lemma_lines_of_two(a, b, end + 1);
        assert((a + b).subrange(i, end) =~= a.subrange(i, end));
        let first = seq![host_key::chomped(a.subrange(i, end))];
        assert(first + (host_key::lines_from(a, end + 1) + host_key::lines_of(b)) =~= (first
            + host_key::lines_from(a, end + 1)) + host_key::lines_of(b));
    }
}

proof fn lemma_text_end_of_front(s: Seq<char>, i: int, j: int)
    requires
        0 <= i <= j <= s.len(),
    ensures
        text::text_end(s.take(j), i) == text::text_end(s, i),
    decreases i,
{
    if 0 < i && text::white(s[i - 1]) {
        lemma_text_end_of_front(s, i - 1, j);
    }
}

/// A carriage return at the end of a line makes no difference to what the line records.
proof fn lemma_chomping_keeps_the_record(line: Seq<char>)
    ensures
        host_key::record(host_key::chomped(line)) == host_key::record(line),
{
    if line.len() > 0 && line.last() == '\r' {
        let n = line.len() as int;
        let front = line.drop_last();
        assert(front =~= line.take(n - 1));
        lemma_text_end_of_front(line, n - 1, n - 1);
        text::lemma_trim_bounds(line);
        text::lemma_trim_bounds(front);
        let end = text::text_end(line, n);
        assert(end == text::text_end(front, n - 1));
        assert(front.take(end) =~= line.take(end));
        assert(text::trimmed(front) =~= text::trimmed(line));
    }
}

/// Ending the last line makes no difference to what the lines record.
proof fn lemma_ending_keeps_the_records(s: Seq<char>, i: int)
    requires
        0 <= i < s.len(),
        s.last() != '\n',
    ensures
        host_key::records(host_key::lines_from(s.push('\n'), i)) == host_key::records(
            host_key::lines_from(s, i),
        ),
    decreases s.len() - i,
{
    let p = s.push('\n');
    host_key::lemma_line_end(s, i);
    host_key::lemma_line_end(p, i);
    let end = host_key::line_end(s, i);
    let pend = host_key::line_end(p, i);
    if end < pend {
        assert(p[end] == (if end < s.len() {
            s[end]
        } else {
            '\n'
        }));
    } else if pend < end {
        assert(p[pend] == s[pend]);
    }
    assert(p.subrange(i, end) =~= s.subrange(i, end));
    let line = s.subrange(i, end);
    lemma_chomping_keeps_the_record(line);
    if end < s.len() {
        lemma_ending_keeps_the_records(s, end + 1);
        let (x, y) = (host_key::lines_from(p, end + 1), host_key::lines_from(s, end + 1));
        let first = seq![host_key::chomped(line)];
        assert(host_key::records(first + x) =~= host_key::records(first) + host_key::records(x));
        assert(host_key::records(first + y) =~= host_key::records(first) + host_key::records(y));
    } else {
        assert(host_key::lines_from(p, end + 1) =~= Seq::empty());
        assert(host_key::lines_from(p, i) =~= seq![host_key::chomped(line)]);
        assert(host_key::lines_from(s, i) =~= seq![line]);
        assert(host_key::records(host_key::lines_from(p, i)) =~= host_key::records(
            host_key::lines_from(s, i),
        ));
    }
}

/// Whether no line holds the end of one.
spec fn unbroken(lines: Seq<Seq<char>>) -> bool {
    forall|i: int, k: int|
        0 <= i < lines.len() && 0 <= k < lines[i].len() ==> (#[trigger] lines[i][k]) != '\n'
}

proof fn lemma_lines_are_unbroken(s: Seq<char>, i: int)
    requires
        0 <= i <= s.len(),
    ensures
        unbroken(host_key::lines_from(s, i)),
    decreases s.len() - i,
{
    if i < s.len() {
        host_key::lemma_line_end(s, i);
        let end = host_key::line_end(s, i);
        if end < s.len() {
            lemma_lines_are_unbroken(s, end + 1);
            let rest = host_key::lines_from(s, end + 1);
            let all = host_key::lines_from(s, i);
            assert forall|x: int, k: int|
                0 <= x < all.len() && 0 <= k < all[x].len() implies (#[trigger] all[x][k])
                != '\n' by {
                if x > 0 {
                    assert(all[x] == rest[x - 1]);
                    assert(rest[x - 1][k] != '\n');
                }
            }
        }
    }
}

proof fn lemma_kept_lines_are_unbroken(lines: Seq<Seq<char>>, entry: Seq<char>)
    requires
        unbroken(lines),
    ensures
        unbroken(host_key::kept(lines, entry)),
    decreases lines.len(),
{
    if lines.len() > 0 {
        let front = lines.drop_last();
        assert forall|x: int, k: int|
            0 <= x < front.len() && 0 <= k < front[x].len() implies (#[trigger] front[x][k])
            != '\n' by {
            assert(lines[x][k] != '\n');
        }
        lemma_kept_lines_are_unbroken(front, entry);
        let kept_front = host_key::kept(front, entry);
        let all = host_key::kept(lines, entry);
        assert forall|x: int, k: int|
            0 <= x < all.len() && 0 <= k < all[x].len() implies (#[trigger] all[x][k])
            != '\n' by {
            if x < kept_front.len() {
                assert(all[x] == kept_front[x]);
                assert(kept_front[x][k] != '\n');
            } else {
                assert(lines[lines.len() - 1][k] != '\n');
            }
        }
    }
}

proof fn lemma_one_line(line: Seq<char>)
    requires
        forall|k: int| 0 <= k < line.len() ==> (#[trigger] line[k]) != '\n',
    ensures
        host_key::lines_of(line.push('\n')) == seq![host_key::chomped(line)],
{
    let p = line.push('\n');
    host_key::lemma_line_end(p, 0);
    let end = host_key::line_end(p, 0);
    if end < line.len() {
        assert(line[end] == '\n');
    }
    if end == p.len() {
        assert(p[line.len() as int] == '\n');
    }
    assert(p.subrange(0, end) =~= line);
    assert(host_key::lines_from(p, end + 1) =~= Seq::empty());
    assert(host_key::lines_of(p) =~= seq![host_key::chomped(line)]);
}

proof fn lemma_joined_lines(lines: Seq<Seq<char>>)
    requires
        unbroken(lines),
    ensures
        whole(host_key::joined(lines)),
        host_key::records(host_key::lines_of(host_key::joined(lines))) == host_key::records(lines),
    decreases lines.len(),
{
    if lines.len() == 0 {
        assert(host_key::lines_of(host_key::joined(lines)) =~= Seq::empty());
        assert(host_key::records(host_key::lines_of(host_key::joined(lines)))
            =~= host_key::records(lines));
    } else {
        let front = lines.drop_last();
        let last = lines.last();
        assert forall|x: int, k: int|
            0 <= x < front.len() && 0 <= k < front[x].len() implies (#[trigger] front[x][k])
            != '\n' by {
            assert(lines[x][k] != '\n');
        }
        assert forall|k: int| 0 <= k < last.len() implies (#[trigger] last[k]) != '\n' by {
            assert(lines[lines.len() - 1][k] != '\n');
        }
        lemma_joined_lines(front);
        lemma_one_line(last);
        lemma_lines_of_two(host_key::joined(front), last.push('\n'), 0);
        lemma_chomping_keeps_the_record(last);
        assert(host_key::joined(lines).last() == '\n');
        let before = host_key::lines_of(host_key::joined(front));
        let one = seq![host_key::chomped(last)];
        assert(host_key::records(before + one) =~= host_key::records(before) + host_key::records(
            one,
        ));
        assert(host_key::records(lines) =~= host_key::records(front).push(host_key::record(last)));
        assert(host_key::records(one) =~= seq![host_key::record(last)]);
        assert(host_key::records(before) + host_key::records(one) =~= host_key::records(lines));
    }
}

/// What is stored first counts.
proof fn lemma_first_counts(
    a: Seq<Option<(Seq<char>, Seq<char>)>>,
    b: Seq<Option<(Seq<char>, Seq<char>)>>,
    entry: Seq<char>,
)
    ensures
        host_key::stored_for(a + b, entry) == (match host_key::stored_for(a, entry) {
            Some(fp) => Some(fp),
            None => host_key::stored_for(b, entry),
        }),
    decreases a.len(),
{
    if a.len() == 0 {
        assert(a + b =~= b);
    } else {
        assert((a + b).skip(1) =~= a.skip(1) + b);
        lemma_first_counts(a.skip(1), b, entry);
    }
}

proof fn lemma_one_record(r: Option<(Seq<char>, Seq<char>)>, entry: Seq<char>)
    ensures
        host_key::stored_for(seq![r], entry) == (match r {
            Some((e, fp)) => if e == entry {
                Some(fp)
            } else {
                None
            },
            None => None,
        }),
{
    assert(seq![r].skip(1) =~= Seq::empty());
    reveal_with_fuel(host_key::stored_for, 2);
}

/// Taking the lines of one host out leaves those of the others.
proof fn lemma_kept_records(lines: Seq<Seq<char>>, entry: Seq<char>, other: Seq<char>)
    ensures
        other != entry ==> host_key::stored_for(
            host_key::records(host_key::kept(lines, entry)),
            other,
        ) == host_key::stored_for(host_key::records(lines), other),
        host_key::stored_for(host_key::records(host_key::kept(lines, entry)), entry) is None,
    decreases lines.len(),
{
    if lines.len() == 0 {
    } else {
        let front = lines.drop_last();
        let last = lines.last();
        lemma_kept_records(front, entry, other);
        let one = seq![host_key::record(last)];
        assert(host_key::records(lines) =~= host_key::records(front) + one);
        lemma_one_record(host_key::record(last), entry);
        lemma_one_record(host_key::record(last), other);
        lemma_first_counts(host_key::records(front), one, other);
        let kept_front = host_key::records(host_key::kept(front, entry));
        if host_key::stays(last, entry) {
            assert(host_key::records(host_key::kept(lines, entry)) =~= kept_front + one);
            lemma_first_counts(kept_front, one, other);
            lemma_first_counts(kept_front, one, entry);
        }
    }
}

proof fn lemma_white_at_blank(s: Seq<char>, n: int, i: int)
    requires
        0 <= i <= n < s.len(),
        text::white(s[n]),
        forall|k: int| 0 <= k < n ==> !text::white(#[trigger] s[k]),
    ensures
        host_key::white_at(s, i) == n,
    decreases n - i,
{
    if i < n {
        lemma_white_at_blank(s, n, i + 1);
    }
}

/// Whether a host can stand in the file: its line is then neither a comment nor broken by white
/// space.
pub open spec fn nameable(host: Seq<char>) -> bool {
    &&& forall|i: int| 0 <= i < host.len() ==> !text::white(#[trigger] host[i])
    &&& host.len() > 0 ==> host[0] != '#'
}

/// Whether this is how something can stand at the start of a line.
pub open spec fn spelled(entry: Seq<char>) -> bool {
    host_key::solid(entry) && entry[0] != '#'
}

/// A host that can stand in the file stands there at the start of a line.
proof fn lemma_entry_is_spelled(host: Seq<char>, port: u16)
    requires
        nameable(host),
    ensures
        spelled(host_key::entry_of(host, port)),
{
    let entry = host_key::entry_of(host, port);
    let number = text::decimal(port as nat);
    text::law_decimal_reads_back(port as nat, port as nat);
    reveal_strlit(":");
    assert forall|i: int| 0 <= i < entry.len() implies !text::white(#[trigger] entry[i]) by {
        if i < host.len() {
            assert(entry[i] == host[i]);
        } else if i == host.len() {
            assert(entry[i] == ':');
        } else {
            assert(entry[i] == number[i - host.len() - 1]);
            assert(text::is_digit(number[i - host.len() - 1]));
        }
    }
    if host.len() == 0 {
        assert(entry[0] == ':');
    } else {
        assert(entry[0] == host[0]);
    }
}

/// The line of a host records the host and the fingerprint.
proof fn lemma_line_records(entry: Seq<char>, fp: Seq<char>)
    requires
        spelled(entry),
        host_key::solid(fp),
    ensures
        host_key::record(host_key::line_of(entry, fp)) == Some((entry, fp)),
        host_key::chomped(host_key::line_of(entry, fp)) == host_key::line_of(entry, fp),
        forall|k: int|
            0 <= k < host_key::line_of(entry, fp).len() ==> (#[trigger] host_key::line_of(
                entry,
                fp,
            )[k]) != '\n',
{
    let line = host_key::line_of(entry, fp);
    reveal_strlit(" ");
    let n = entry.len() as int;
    assert(line[n] == ' ');
    assert forall|k: int| 0 <= k < n implies !text::white(#[trigger] line[k]) by {
        assert(line[k] == entry[k]);
    }
    assert forall|k: int| n < k < line.len() implies !text::white(#[trigger] line[k]) by {
        assert(line[k] == fp[k - n - 1]);
    }
    assert(text::text_end(line, line.len() as int) == line.len());
    assert(line.take(line.len() as int) =~= line);
    assert(text::text_start(line, 0) == 0);
    assert(text::trimmed(line) =~= line);
    lemma_white_at_blank(line, n, 0);
    assert(line.take(n) =~= entry);
    assert(line.skip(n + 1) =~= fp);
    assert(line.last() != '\r') by {
        assert(!text::white(line[line.len() - 1]));
    }
    assert forall|k: int| 0 <= k < line.len() implies (#[trigger] line[k]) != '\n' by {
        if k != n {
            assert(!text::white(line[k]));
        }
    }
}

/// What the records are with one more line behind them.
proof fn lemma_one_more(front: Seq<char>, entry: Seq<char>, fp: Seq<char>)
    requires
        whole(front),
        spelled(entry),
        host_key::solid(fp),
    ensures
        host_key::records(
            host_key::lines_of(front + host_key::line_of(entry, fp).push('\n')),
        ) == host_key::records(host_key::lines_of(front)).push(Some((entry, fp))),
{
    let line = host_key::line_of(entry, fp);
    lemma_line_records(entry, fp);
    lemma_one_line(line);
    lemma_lines_of_two(front, line.push('\n'), 0);
    let before = host_key::lines_of(front);
    assert(host_key::records(before + seq![line]) =~= host_key::records(before).push(
        Some((entry, fp)),
    ));
}

/// What the file holds once a host was written behind the others.
proof fn lemma_trusted(content: Seq<char>, entry: Seq<char>, fp: Seq<char>, other: Seq<char>)
    requires
        spelled(entry),
        host_key::solid(fp),
    ensures
        host_key::known_print(host_key::trusted(content, entry, fp), other) == (
        match host_key::known_print(content, other) {
            Some(stored) => Some(stored),
            None => if other == entry {
                Some(fp)
            } else {
                None
            },
        }),
{
    let front = host_key::ended(content);
    lemma_one_more(front, entry, fp);
    if content.len() > 0 && content.last() != '\n' {
        lemma_ending_keeps_the_records(content, 0);
    }
    let before = host_key::records(host_key::lines_of(content));
    let one = seq![Some((entry, fp))];
    assert(before.push(Some((entry, fp))) =~= before + one);
    lemma_one_record(Some((entry, fp)), other);
    lemma_first_counts(before, one, other);
}

/// What the file holds once a host was written in place of its lines.
proof fn lemma_replaced(content: Seq<char>, entry: Seq<char>, fp: Seq<char>, other: Seq<char>)
    requires
        spelled(entry),
        host_key::solid(fp),
    ensures
        host_key::known_print(host_key::replaced(content, entry, fp), other) == (if other
            == entry {
            Some(fp)
        } else {
            host_key::known_print(content, other)
        }),
{
    let lines = host_key::lines_of(content);
    let rest = host_key::kept(lines, entry);
    lemma_lines_are_unbroken(content, 0);
    lemma_kept_lines_are_unbroken(lines, entry);
    lemma_joined_lines(rest);
    lemma_one_more(host_key::joined(rest), entry, fp);
    lemma_kept_records(lines, entry, other);
    let before = host_key::records(rest);
    let one = seq![Some((entry, fp))];
    assert(before.push(Some((entry, fp))) =~= before + one);
    lemma_one_record(Some((entry, fp)), other);
    lemma_first_counts(before, one, other);
}

/// A host that was not known is known once it is trusted.
pub proof fn law_a_trusted_host_is_known(
    content: Seq<char>,
    host: Seq<char>,
    port: u16,
    fp: Seq<char>,
)
    requires
        nameable(host),
        host_key::solid(fp),
        host_key::status(content, host_key::entry_of(host, port), fp) is Unknown,
    ensures
        host_key::status(
            host_key::trusted(content, host_key::entry_of(host, port), fp),
            host_key::entry_of(host, port),
            fp,
        ) == StatusView::Known,
{
    let entry = host_key::entry_of(host, port);
    lemma_entry_is_spelled(host, port);
    lemma_trusted(content, entry, fp, entry);
}

/// Whatever was known of a host, it is known with its new key once that took the old one's place.
pub proof fn law_a_replaced_key_is_known(
    content: Seq<char>,
    host: Seq<char>,
    port: u16,
    fp: Seq<char>,
)
    requires
        nameable(host),
        host_key::solid(fp),
    ensures
        host_key::status(
            host_key::replaced(content, host_key::entry_of(host, port), fp),
            host_key::entry_of(host, port),
            fp,
        ) == StatusView::Known,
{
    let entry = host_key::entry_of(host, port);
    lemma_entry_is_spelled(host, port);
    lemma_replaced(content, entry, fp, entry);
}

/// A new key stands alone: once it took the old one's place, the last line is that of the host
/// with this key, no line before it is of the host, and all lines that are not of the host are
/// still there, in their order.
pub proof fn law_a_replaced_key_stands_alone(
    content: Seq<char>,
    host: Seq<char>,
    port: u16,
    fp: Seq<char>,
)
    requires
        nameable(host),
        host_key::solid(fp),
    ensures
        ({
            let entry = host_key::entry_of(host, port);
            let rest = host_key::records(host_key::kept(host_key::lines_of(content), entry));
            &&& host_key::records(host_key::lines_of(host_key::replaced(content, entry, fp)))
                == rest.push(Some((entry, fp)))
            &&& forall|i: int|
                0 <= i < rest.len() ==> (#[trigger] rest[i] matches Some((e, _)) ==> e != entry)
            &&& host_key::kept(host_key::lines_of(content), entry) == host_key::lines_of(
                content,
            ).filter(|line: Seq<char>| host_key::stays(line, entry))
        }),
{
    let entry = host_key::entry_of(host, port);
    let lines = host_key::lines_of(content);
    lemma_entry_is_spelled(host, port);
    lemma_lines_are_unbroken(content, 0);
    lemma_kept_lines_are_unbroken(lines, entry);
    lemma_joined_lines(host_key::kept(lines, entry));
    lemma_one_more(host_key::joined(host_key::kept(lines, entry)), entry, fp);
    lemma_kept_is_picked(lines, entry);
}

/// What is kept are the lines that stay, and those are not of the host.
proof fn lemma_kept_is_picked(lines: Seq<Seq<char>>, entry: Seq<char>)
    ensures
        host_key::kept(lines, entry) == lines.filter(
            |line: Seq<char>| host_key::stays(line, entry),
        ),
        forall|i: int|
            0 <= i < host_key::kept(lines, entry).len() ==> (#[trigger] host_key::records(
                host_key::kept(lines, entry),
            )[i] matches Some((e, _)) ==> e != entry),
    decreases lines.len(),
{
    reveal(Seq::filter);
    if lines.len() > 0 {
        let front = lines.drop_last();
        lemma_kept_is_picked(front, entry);
        let (some, all) = (host_key::kept(front, entry), host_key::kept(lines, entry));
        assert forall|i: int| 0 <= i < all.len() implies (#[trigger] host_key::records(
            all,
        )[i] matches Some((e, _)) ==> e != entry) by {
            if i < some.len() {
                assert(host_key::records(some)[i] == host_key::records(all)[i]);
            }
        }
    } else {
        assert(host_key::kept(lines, entry) =~= lines.filter(
            |line: Seq<char>| host_key::stays(line, entry),
        ));
    }
}

/// To trust a host, or a new key of it, changes nothing for any other host.
pub proof fn law_other_hosts_are_not_touched(
    content: Seq<char>,
    host: Seq<char>,
    port: u16,
    fp: Seq<char>,
    other: Seq<char>,
    other_port: u16,
    other_fp: Seq<char>,
)
    requires
        nameable(host),
        host_key::solid(fp),
        other != host || other_port != port,
    ensures
        host_key::status(
            host_key::trusted(content, host_key::entry_of(host, port), fp),
            host_key::entry_of(other, other_port),
            other_fp,
        ) == host_key::status(content, host_key::entry_of(other, other_port), other_fp),
        host_key::status(
            host_key::replaced(content, host_key::entry_of(host, port), fp),
            host_key::entry_of(other, other_port),
            other_fp,
        ) == host_key::status(content, host_key::entry_of(other, other_port), other_fp),
{
    law_entries_tell_hosts_apart(host, port, other, other_port);
    let entry = host_key::entry_of(host, port);
    lemma_entry_is_spelled(host, port);
    lemma_trusted(content, entry, fp, host_key::entry_of(other, other_port));
    lemma_replaced(content, entry, fp, host_key::entry_of(other, other_port));
}

/// Two hosts, or two ports of one host, do not stand in the file in the same way.
pub proof fn law_entries_tell_hosts_apart(
    host: Seq<char>,
    port: u16,
    other: Seq<char>,
    other_port: u16,
)
    requires
        other != host || other_port != port,
    ensures
        host_key::entry_of(host, port) != host_key::entry_of(other, other_port),
{
    let (a, b) = (host_key::entry_of(host, port), host_key::entry_of(other, other_port));
    let (x, y) = (text::decimal(port as nat), text::decimal(other_port as nat));
    reveal_strlit(":");
    text::law_decimal_reads_back(port as nat, u16::MAX as nat);
    text::law_decimal_reads_back(other_port as nat, u16::MAX as nat);
    assert(a.len() == host.len() + 1 + x.len());
    assert(b.len() == other.len() + 1 + y.len());
    if a == b {
        assert(a[host.len() as int] == ':');
        assert(b[other.len() as int] == ':');
        if host.len() < other.len() {
            assert(a[other.len() as int] == x[other.len() - host.len() - 1]);
            assert(text::is_digit(x[other.len() - host.len() - 1]));
        } else if other.len() < host.len() {
            assert(b[host.len() as int] == y[host.len() - other.len() - 1]);
            assert(text::is_digit(y[host.len() - other.len() - 1]));
        } else {
            assert(a.take(host.len() as int) =~= host);
            assert(b.take(other.len() as int) =~= other);
            assert(a.skip(host.len() as int + 1) =~= x);
            assert(b.skip(other.len() as int + 1) =~= y);
        }
    }
}

/// What a file says of one fingerprint tells what it says of another: a host that is known by one
/// key is not known by any other, and then the one that it is known by is told; a host that is
/// unknown is so whatever its key.
pub proof fn law_a_host_is_known_by_one_key(
    content: Seq<char>,
    entry: Seq<char>,
    fp: Seq<char>,
    other: Seq<char>,
)
    requires
        other != fp,
    ensures
        host_key::status(content, entry, fp) is Known ==> host_key::status(content, entry, other)
            == (StatusView::Mismatch { stored: fp }),
        host_key::status(content, entry, fp) is Unknown <==> host_key::status(content, entry, other)
            is Unknown,
        host_key::status(content, entry, fp) matches StatusView::Mismatch { stored } ==> stored != fp
            && host_key::status(content, entry, stored) is Known,
{
}

/// A host that is trusted with one key is warned of when it comes with another.
pub proof fn law_another_key_is_noticed(
    content: Seq<char>,
    host: Seq<char>,
    port: u16,
    fp: Seq<char>,
    other: Seq<char>,
)
    requires
        nameable(host),
        host_key::solid(fp),
        host_key::status(content, host_key::entry_of(host, port), fp) is Unknown,
        other != fp,
    ensures
        host_key::status(
            host_key::trusted(content, host_key::entry_of(host, port), fp),
            host_key::entry_of(host, port),
            other,
        ) == (StatusView::Mismatch { stored: fp }),
{
    law_a_trusted_host_is_known(content, host, port, fp);
    law_a_host_is_known_by_one_key(
        host_key::trusted(content, host_key::entry_of(host, port), fp),
        host_key::entry_of(host, port),
        fp,
        other,
    );
}

/// To trust a host leaves what the file holds as it is and puts one line behind it: the host, a
/// colon, the port, a space and the fingerprint.
pub proof fn law_a_trusted_host_is_one_line_more(
    content: Seq<char>,
    host: Seq<char>,
    port: u16,
    fp: Seq<char>,
)
    ensures
        ({
            let line = host.push(':') + text::decimal(port as nat) + seq![' '] + fp + seq!['\n'];
            let after = host_key::trusted(content, host_key::entry_of(host, port), fp);
            after == if content.len() == 0 || content.last() == '\n' {
                content + line
            } else {
                content.push('\n') + line
            }
        }),
{
    reveal_strlit(":");
    reveal_strlit(" ");
    let line = host.push(':') + text::decimal(port as nat) + seq![' '] + fp + seq!['\n'];
    assert(host_key::line_of(host_key::entry_of(host, port), fp).push('\n') =~= line);
}

/// In an empty file, and in one that holds comments alone, no host is known.
pub proof fn law_nobody_is_known_at_first(entry: Seq<char>, fp: Seq<char>, comment: Seq<char>)
    requires
        forall|i: int| 0 <= i < comment.len() ==> #[trigger] comment[i] != '\n',
    ensures
        host_key::status(Seq::empty(), entry, fp) is Unknown,
        host_key::record(seq!['#'] + comment) is None,
        host_key::record(Seq::empty()) is None,
{
    reveal_with_fuel(host_key::lines_from, 1);
    assert(host_key::lines_of(Seq::<char>::empty()) =~= Seq::empty());
    assert(host_key::records(Seq::<Seq<char>>::empty()) =~= Seq::empty());
    text::law_trimming_takes_white_space_alone(seq!['#'] + comment);
    text::law_trimming_takes_white_space_alone(Seq::empty());
    let line = seq!['#'] + comment;
    let t = text::trimmed(line);
    assert(line[0] == '#');
    assert(!text::white('#'));
    if t.len() > 0 {
        let i = choose|i: int| #[trigger] text::core_at(line, t, i);
        assert(i == 0) by {
            if i > 0 {
                assert(text::white(line[0]));
            }
        }
        assert(t[0] == line[0]);
    }
}

proof fn lemma_no_blank(s: Seq<char>, i: int)
    requires
        0 <= i <= s.len(),
        forall|k: int| 0 <= k < s.len() ==> !text::white(#[trigger] s[k]),
    ensures
        host_key::white_at(s, i) == s.len(),
    decreases s.len() - i,
{
    if i < s.len() {
        lemma_no_blank(s, i + 1);
    }
}

/// Only the lines of the host itself go when its key is replaced: those that begin with it,
/// followed by white space. A line of another host stays, and so does one of a single word or an
/// empty one.
pub proof fn law_only_lines_of_the_host_go(line: Seq<char>, entry: Seq<char>, n: int)
    ensures
        ({
            let t = text::trimmed(line);
            &&& 0 <= n < t.len() && text::white(t[n]) && (forall|k: int|
                0 <= k < n ==> !text::white(#[trigger] t[k])) ==> (host_key::stays(line, entry)
                <==> t.take(n) != entry)
            &&& (forall|k: int| 0 <= k < t.len() ==> !text::white(#[trigger] t[k]))
                ==> host_key::stays(line, entry)
        }),
{
    let t = text::trimmed(line);
    if 0 <= n < t.len() && text::white(t[n]) && (forall|k: int|
        0 <= k < n ==> !text::white(#[trigger] t[k])) {
        lemma_white_at_blank(t, n, 0);
    }
    if forall|k: int| 0 <= k < t.len() ==> !text::white(#[trigger] t[k]) {
        lemma_no_blank(t, 0);
    }
}

/// The file is read line by line: each ends at the next break, or with the file, and a carriage
/// return before the break is not part of it.
pub proof fn law_the_file_is_read_line_by_line(line: Seq<char>, rest: Seq<char>)
    requires
        forall|k: int| 0 <= k < line.len() ==> #[trigger] line[k] != '\n',
    ensures
        ({
            let lines = host_key::lines_of(line.push('\n') + rest);
            &&& lines.len() > 0
            &&& lines.skip(1) == host_key::lines_of(rest)
            &&& line.len() > 0 && line.last() == '\r' ==> lines[0] == line.drop_last()
            &&& line.len() == 0 || line.last() != '\r' ==> lines[0] == line
            &&& line.len() > 0 ==> host_key::lines_of(line) == seq![line]
        }),
{
    let all = line.push('\n') + rest;
    host_key::lemma_line_end(all, 0);
    let end = host_key::line_end(all, 0);
    if end < line.len() {
        assert(all[end] == line[end]);
    }
    if end > line.len() {
        assert(all[line.len() as int] == '\n');
    }
    assert(all.subrange(0, end) =~= line);
    lemma_lines_shift(line.push('\n'), rest, 0);
    let tail = host_key::lines_from(all, end + 1);
    assert((seq![host_key::chomped(line)] + tail).skip(1) =~= tail);
    host_key::lemma_line_end(line, 0);
    let stop = host_key::line_end(line, 0);
    if stop < line.len() {
        assert(line[stop] == '\n');
    }
    assert(line.subrange(0, line.len() as int) =~= line);
}

} // verus!
