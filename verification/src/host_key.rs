//! The hosts that the user trusts.
//!
//! Each has a line in a text file: the host, the port and the fingerprint of its key. Whether a
//! host is trusted is for the user to say; here it is only looked up and written down.

use crate::config::paths::{self, Location, Roots};
use crate::error::{CoreError, CoreErrorKind};
use crate::text;
use vstd::prelude::*;
#[allow(unused_imports)]
use vstd::string::*;

pub mod laws;

verus! {

/// What is known of a host's key.
#[derive(Debug)]
pub enum HostKeyStatus {
    /// The host is known, with this key.
    Known,
    /// The host is not known.
    Unknown,
    /// The host is known with another key.
    Mismatch {
        /// The fingerprint of that key.
        stored: String,
    },
}

/// What a [`HostKeyStatus`] holds.
pub enum StatusView {
    /// The host is known, with this key.
    Known,
    /// The host is not known.
    Unknown,
    /// The host is known with another key.
    Mismatch {
        /// The fingerprint of that key.
        stored: Seq<char>,
    },
}

impl View for HostKeyStatus {
    type V = StatusView;

    open spec fn view(&self) -> StatusView {
        match *self {
            HostKeyStatus::Known => StatusView::Known,
            HostKeyStatus::Unknown => StatusView::Unknown,
            HostKeyStatus::Mismatch { stored } => StatusView::Mismatch { stored: stored@ },
        }
    }
}

/// Whether a text has characters, and no white space among them.
pub open spec fn solid(s: Seq<char>) -> bool {
    s.len() > 0 && forall|i: int| 0 <= i < s.len() ==> !text::white(#[trigger] s[i])
}

/// The fingerprint of a key in SSH's encoding, or nothing where the bytes are no key.
pub uninterp spec fn sha256_fingerprint(key: Seq<u8>) -> Option<Seq<char>>;

/// `ssh_key::PublicKey::fingerprint` with SHA-256, of the key that `PublicKey::from_bytes` reads,
/// as it is displayed: the name of the hash, a colon, and base64 without padding, in which there
/// is no white space.
#[verifier::external_body]
pub fn fingerprint(key: &[u8]) -> (r: Option<String>)
    ensures
        text::opt(r) == sha256_fingerprint(key@),
        r matches Some(fp) ==> solid(fp@),
{
    let key = russh::keys::PublicKey::from_bytes(key).ok()?;
    Some(key.fingerprint(russh::keys::HashAlg::Sha256).to_string())
}

/// The name of the algorithm of a key in SSH's encoding, or nothing where the bytes are no key.
pub uninterp spec fn algorithm_name(key: Seq<u8>) -> Option<Seq<char>>;

/// `ssh_key::PublicKey::algorithm`, by its name, of the key that `PublicKey::from_bytes` reads.
#[verifier::external_body]
pub fn key_type(key: &[u8]) -> (r: Option<String>)
    ensures
        text::opt(r) == algorithm_name(key@),
{
    let key = russh::keys::PublicKey::from_bytes(key).ok()?;
    Some(key.algorithm().as_str().to_string())
}

/// Where, from `i` on, the first line ends.
pub open spec fn line_end(s: Seq<char>, i: int) -> int
    decreases s.len() - i,
{
    if 0 <= i < s.len() && s[i] != '\n' {
        line_end(s, i + 1)
    } else {
        i
    }
}

/// A line that was ended, without the carriage return before its end.
pub open spec fn chomped(line: Seq<char>) -> Seq<char> {
    if line.len() > 0 && line.last() == '\r' {
        line.drop_last()
    } else {
        line
    }
}

/// The lines of a text from `i` on. The last one need not be ended.
pub open spec fn lines_from(s: Seq<char>, i: int) -> Seq<Seq<char>>
    decreases s.len() - i,
{
    if 0 <= i < s.len() {
        let end = line_end(s, i);
        if i <= end < s.len() {
            seq![chomped(s.subrange(i, end))] + lines_from(s, end + 1)
        } else {
            seq![s.subrange(i, s.len() as int)]
        }
    } else {
        Seq::empty()
    }
}

/// The lines of a text.
pub open spec fn lines_of(s: Seq<char>) -> Seq<Seq<char>> {
    lines_from(s, 0)
}

/// Where, from `i` on, the first white space stands.
pub open spec fn white_at(s: Seq<char>, i: int) -> int
    decreases s.len() - i,
{
    if 0 <= i < s.len() && !text::white(s[i]) {
        white_at(s, i + 1)
    } else {
        i
    }
}

/// What stands before the first white space and what stands behind it.
pub open spec fn halves(s: Seq<char>) -> Option<(Seq<char>, Seq<char>)> {
    let i = white_at(s, 0);
    if 0 <= i < s.len() {
        Some((s.take(i), s.skip(i + 1)))
    } else {
        None
    }
}

/// The host and the fingerprint of a line. An empty line has none, nor has a comment.
pub open spec fn record(line: Seq<char>) -> Option<(Seq<char>, Seq<char>)> {
    let t = text::trimmed(line);
    if t.len() == 0 || t[0] == '#' {
        None
    } else {
        halves(t)
    }
}

/// The records of lines.
pub open spec fn records(lines: Seq<Seq<char>>) -> Seq<Option<(Seq<char>, Seq<char>)>> {
    Seq::new(lines.len(), |i: int| record(lines[i]))
}

/// The fingerprint of a host: that of the first record of it.
pub open spec fn stored_for(
    list: Seq<Option<(Seq<char>, Seq<char>)>>,
    entry: Seq<char>,
) -> Option<Seq<char>>
    decreases list.len(),
{
    if list.len() == 0 {
        None
    } else {
        match list[0] {
            Some((e, fp)) => if e == entry {
                Some(fp)
            } else {
                stored_for(list.skip(1), entry)
            },
            None => stored_for(list.skip(1), entry),
        }
    }
}

/// The fingerprint of a host in a file.
pub open spec fn known_print(content: Seq<char>, entry: Seq<char>) -> Option<Seq<char>> {
    stored_for(records(lines_of(content)), entry)
}

/// How a host stands in the file.
pub open spec fn entry_of(host: Seq<char>, port: u16) -> Seq<char> {
    host + ":"@ + text::decimal(port as nat)
}

/// What a file says of a host with this fingerprint.
pub open spec fn status(content: Seq<char>, entry: Seq<char>, fp: Seq<char>) -> StatusView {
    match known_print(content, entry) {
        None => StatusView::Unknown,
        Some(stored) => if stored == fp {
            StatusView::Known
        } else {
            StatusView::Mismatch { stored }
        },
    }
}

/// The line of a host.
pub open spec fn line_of(entry: Seq<char>, fp: Seq<char>) -> Seq<char> {
    entry + " "@ + fp
}

/// A text whose last line is ended.
pub open spec fn ended(content: Seq<char>) -> Seq<char> {
    if content.len() > 0 && content.last() != '\n' {
        content.push('\n')
    } else {
        content
    }
}

/// A file with the line of a host behind the others.
pub open spec fn trusted(content: Seq<char>, entry: Seq<char>, fp: Seq<char>) -> Seq<char> {
    ended(content) + line_of(entry, fp).push('\n')
}

/// Whether a line stays when a host's lines are taken out.
pub open spec fn stays(line: Seq<char>, entry: Seq<char>) -> bool {
    match halves(text::trimmed(line)) {
        Some((e, _)) => e != entry,
        None => true,
    }
}

/// The lines that stay when a host's are taken out.
pub open spec fn kept(lines: Seq<Seq<char>>, entry: Seq<char>) -> Seq<Seq<char>>
    decreases lines.len(),
{
    if lines.len() == 0 {
        Seq::empty()
    } else {
        let front = kept(lines.drop_last(), entry);
        if stays(lines.last(), entry) {
            front.push(lines.last())
        } else {
            front
        }
    }
}

/// Lines as a text.
pub open spec fn joined(lines: Seq<Seq<char>>) -> Seq<char>
    decreases lines.len(),
{
    if lines.len() == 0 {
        Seq::empty()
    } else {
        joined(lines.drop_last()) + lines.last().push('\n')
    }
}

/// A file with the line of a host in place of those that it had.
pub open spec fn replaced(content: Seq<char>, entry: Seq<char>, fp: Seq<char>) -> Seq<char> {
    joined(kept(lines_of(content), entry)) + line_of(entry, fp).push('\n')
}

/// Where a line ends: at the first end of a line from there on, or at the end of the text.
pub proof fn lemma_line_end(s: Seq<char>, i: int)
    requires
        0 <= i <= s.len(),
    ensures
        i <= line_end(s, i) <= s.len(),
        line_end(s, i) < s.len() ==> s[line_end(s, i)] == '\n',
        forall|k: int| i <= k < line_end(s, i) ==> s[k] != '\n',
    decreases s.len() - i,
{
    if i < s.len() && s[i] != '\n' {
        lemma_line_end(s, i + 1);
    }
}

/// The lines of a text.
fn lines(content: &str) -> (r: Vec<String>)
    ensures
        text::strings(r@) == lines_of(content@),
{
    let chars = text::chars_of(content);
    let total: usize = chars.len();
    let ghost s = content@;
    let mut out: Vec<String> = Vec::new();
    let mut start: usize = 0;
    assert(text::strings(out@) + lines_from(s, 0) =~= lines_of(s));
    while start < total
        invariant
            s == content@,
            chars@ == s,
            total == s.len(),
            start <= total,
            text::strings(out@) + lines_from(s, start as int) == lines_of(s),
        decreases total - start,
    {
        let mut end: usize = start;
        while end < total && chars[end] != '\n'
            invariant
                chars@ == s,
                total == s.len(),
                start <= end <= total,
                line_end(s, start as int) == line_end(s, end as int),
            decreases total - end,
        {
            end += 1;
        }
        proof {
            lemma_line_end(s, start as int);
        }
        let ghost before = out@;
        if end < total {
            let mut cut: usize = end;
            if end > start && chars[end - 1] == '\r' {
                cut = end - 1;
            }
            let line = content.substring_char(start, cut);
            assert(line@ =~= chomped(s.subrange(start as int, end as int)));
            out.push(line.to_owned());
            assert(text::strings(out@) =~= text::strings(before).push(line@));
            proof {
                let rest = lines_from(s, end + 1);
                assert(lines_from(s, start as int) == seq![line@] + rest);
                assert(text::strings(out@) + rest =~= text::strings(before) + lines_from(
                    s,
                    start as int,
                ));
            }
            start = end + 1;
        } else {
            let line = content.substring_char(start, end);
            out.push(line.to_owned());
            assert(text::strings(out@) =~= text::strings(before).push(line@));
            proof {
                assert(lines_from(s, start as int) =~= seq![line@]);
                assert(text::strings(out@) + lines_from(s, total as int) =~= text::strings(before)
                    + lines_from(s, start as int));
            }
            start = total;
        }
    }
    assert(text::strings(out@) =~= lines_of(s));
    out
}

/// What stands before the first white space and what stands behind it.
fn split(s: &str) -> (r: Option<(String, String)>)
    ensures
        match r {
            Some((a, b)) => halves(s@) == Some((a@, b@)),
            None => halves(s@) is None,
        },
{
    let chars = text::chars_of(s);
    let total: usize = chars.len();
    let mut i: usize = 0;
    while i < total && !chars[i].is_whitespace()
        invariant
            chars@ == s@,
            total == s@.len(),
            i <= total,
            white_at(s@, 0) == white_at(s@, i as int),
        decreases total - i,
    {
        i += 1;
    }
    if i < total {
        let a = s.substring_char(0, i).to_owned();
        let b = s.substring_char(i + 1, total).to_owned();
        assert(a@ =~= s@.take(i as int));
        assert(b@ =~= s@.skip(i + 1));
        Some((a, b))
    } else {
        None
    }
}

/// How a host stands in the file.
fn entry(host: &str, port: u16) -> (r: String)
    ensures
        r@ == entry_of(host@, port),
{
    let number = text::to_decimal(port as u128);
    text::concat3(host, ":", number.as_str())
}

/// Where the file of the hosts is: in the directory of the caches.
pub fn path(roots: &Roots) -> (r: Result<Location, CoreError>)
    ensures
        match r {
            Ok(file) => paths::cache_dir_of(roots@) is Some && file@ == paths::down(
                paths::cache_dir_of(roots@)->0,
                "known_hosts"@,
            ),
            Err(e) => paths::cache_dir_of(roots@) is None && e == (CoreError::Ssh {
                kind: CoreErrorKind::CacheDirUnknown,
                source: None,
            }),
        },
{
    match paths::cache_dir(roots) {
        Some(dir) => Ok(dir.down("known_hosts")),
        None => Err(CoreError::ssh_msg(CoreErrorKind::CacheDirUnknown)),
    }
}

/// What a file says of a host whose key has this fingerprint. A file that is missing or cannot
/// be read is as good as an empty one.
pub fn check_host_key(content: &str, host: &str, port: u16, fp: &str) -> (r: HostKeyStatus)
    ensures
        r@ == status(content@, entry_of(host@, port), fp@),
{
    let entry = entry(host, port);
    let lines = lines(content);
    let ghost all = records(lines_of(content@));
    let mut i: usize = 0;
    assert(all.skip(0) =~= all);
    while i < lines.len()
        invariant
            entry@ == entry_of(host@, port),
            text::strings(lines@) == lines_of(content@),
            all == records(lines_of(content@)),
            i <= lines@.len(),
            known_print(content@, entry@) == stored_for(all.skip(i as int), entry@),
        decreases lines@.len() - i,
    {
        let line = text::trim(lines[i].as_str());
        proof {
            assert(lines@[i as int]@ == text::strings(lines@)[i as int]);
            assert(all.skip(i as int)[0] == record(lines@[i as int]@));
            assert(all.skip(i as int).skip(1) =~= all.skip(i + 1));
        }
        if line.unicode_len() > 0 && line.get_char(0) != '#' {
            if let Some((stored_entry, stored_fp)) = split(line) {
                if text::same(stored_entry.as_str(), entry.as_str()) {
                    return if text::same(stored_fp.as_str(), fp) {
                        HostKeyStatus::Known
                    } else {
                        HostKeyStatus::Mismatch { stored: stored_fp }
                    };
                }
            }
        }
        i += 1;
    }
    HostKeyStatus::Unknown
}

/// The file with a host that was not known: its line comes behind the others.
pub fn trust_host_key(content: &str, host: &str, port: u16, fp: &str) -> (r: String)
    ensures
        r@ == trusted(content@, entry_of(host@, port), fp@),
{
    let mut next = content.to_owned();
    let total: usize = content.unicode_len();
    if total > 0 && content.get_char(total - 1) != '\n' {
        next.push('\n');
    }
    let entry = entry(host, port);
    let line = text::concat3(entry.as_str(), " ", fp);
    next.push_str(line.as_str());
    next.push('\n');
    assert(next@ =~= trusted(content@, entry_of(host@, port), fp@));
    next
}

/// The file with a host whose key was another: the lines that it had are taken out, for the
/// first line of a host is the one that counts.
pub fn replace_host_key(content: &str, host: &str, port: u16, fp: &str) -> (r: String)
    ensures
        r@ == replaced(content@, entry_of(host@, port), fp@),
{
    let entry = entry(host, port);
    let lines = lines(content);
    let ghost all = lines_of(content@);
    let mut next = String::new();
    let mut i: usize = 0;
    assert(kept(all.take(0), entry@) =~= Seq::empty());
    assert(next@ =~= joined(kept(all.take(0), entry@)));
    while i < lines.len()
        invariant
            text::strings(lines@) == all,
            i <= lines@.len(),
            next@ == joined(kept(all.take(i as int), entry@)),
        decreases lines@.len() - i,
    {
        let line = lines[i].as_str();
        let stays = match split(text::trim(line)) {
            Some((stored_entry, _)) => !text::same(stored_entry.as_str(), entry.as_str()),
            None => true,
        };
        proof {
            assert(line@ == text::strings(lines@)[i as int]);
            assert(all.take(i + 1).drop_last() =~= all.take(i as int));
            assert(all.take(i + 1).last() == line@);
        }
        let ghost before = next@;
        if stays {
            next.push_str(line);
            next.push('\n');
            proof {
                let front = kept(all.take(i as int), entry@);
                assert(front.push(line@).drop_last() =~= front);
                assert(next@ =~= before + line@.push('\n'));
            }
        }
        i += 1;
    }
    assert(all.take(i as int) =~= all);
    let ghost before = next@;
    next.push_str(entry.as_str());
    next.push_str(" ");
    next.push_str(fp);
    next.push('\n');
    assert(next@ =~= before + line_of(entry@, fp@).push('\n'));
    next
}

} // verus!
