//! What holds of a start as a whole, on a disk that does what it is asked.

use crate::config::app_config::{self, AppView, LegacyAppConfig};
use crate::config::error::ConfigErrorView;
use crate::config::load::{self, LoadingView, Reply};
use crate::config::paths::{self, LocationView};
use crate::text;
use vstd::prelude::*;

verus! {

/// The directory of the preferences, as far as a start touches it.
pub struct DiskView {
    /// What the file holds, where there is one.
    pub file: Option<Seq<char>>,
    /// What the files beside it hold, by their names.
    pub beside: Map<Seq<char>, Seq<char>>,
}

/// How far a start has come.
pub struct Run {
    /// What is to be done next.
    pub now: LoadingView,
    /// The disk by then.
    pub disk: DiskView,
}

/// How preferences are written as a text and read from one.
pub struct Codec {
    /// The text of preferences.
    pub write: spec_fn(AppView) -> Seq<char>,
    /// The preferences of a text.
    pub read: spec_fn(Seq<char>) -> AppView,
    /// The preferences of a text of an earlier version.
    pub read_old: spec_fn(Seq<char>) -> LegacyAppConfig,
}

/// What becomes of the disk once what is to be done was done.
pub open spec fn worked(d: DiskView, l: LoadingView, codec: Codec) -> DiskView {
    match l {
        LoadingView::Backup { name, .. } => match d.file {
            Some(content) => DiskView { beside: d.beside.insert(name, content), ..d },
            None => d,
        },
        LoadingView::Save { config } => DiskView { file: Some((codec.write)(config)), ..d },
        _ => d,
    }
}

/// Whether this came of what was to be done, where nothing failed.
pub open spec fn fair(d: DiskView, l: LoadingView, reply: Reply, codec: Codec) -> bool {
    match l {
        LoadingView::CreateDir { .. } => reply is Completed,
        LoadingView::LookForFile { .. } => reply == Reply::Found(d.file is Some),
        LoadingView::AskAppearance { .. } => reply is Appearance,
        LoadingView::Read { .. } => reply matches Reply::Content(content) && d.file == Some(
            content@,
        ),
        LoadingView::Parse { content, old_format: true, .. } => reply == Reply::Legacy(
            (codec.read_old)(content),
        ),
        LoadingView::Parse { content, old_format: false, .. } => reply matches Reply::Sectioned(
            config,
        ) && config@ == (codec.read)(content),
        LoadingView::LookForBackup { .. } => reply matches Reply::Taken(taken) && (taken is Some
            == d.beside.contains_key(load::backup_name(Some("config.toml"@), None))),
        LoadingView::Backup { .. } => reply is Completed,
        LoadingView::Save { .. } => reply is Completed,
        LoadingView::Done { .. } => false,
        LoadingView::Failed { .. } => false,
    }
}

/// How far a start has come with these replies; none where one of them did not come of what was
/// to be done.
pub open spec fn ran(l: LoadingView, d: DiskView, replies: Seq<Reply>, codec: Codec) -> Option<Run>
    decreases replies.len(),
{
    if replies.len() == 0 {
        Some(Run { now: l, disk: d })
    } else if fair(d, l, replies[0], codec) {
        ran(load::following(l, replies[0]), worked(d, l, codec), replies.skip(1), codec)
    } else {
        None
    }
}

/// One step of a start.
proof fn lemma_step(l: LoadingView, d: DiskView, replies: Seq<Reply>, codec: Codec)
    requires
        replies.len() > 0,
        ran(l, d, replies, codec) is Some,
    ensures
        fair(d, l, replies[0], codec),
        ran(l, d, replies, codec) == ran(
            load::following(l, replies[0]),
            worked(d, l, codec),
            replies.skip(1),
            codec,
        ),
        forall|k: int| 0 <= k < replies.len() - 1 ==> #[trigger] replies.skip(1)[k] == replies[k + 1],
{
}

/// A start has ended once it did all that was to be done: nothing comes of a further step.
proof fn lemma_ended(l: LoadingView, d: DiskView, replies: Seq<Reply>, codec: Codec)
    requires
        l is Done || l is Failed,
        ran(l, d, replies, codec) is Some,
    ensures
        ran(l, d, replies, codec) == Some(Run { now: l, disk: d }),
{
}

/// The file of the preferences in a directory.
pub open spec fn file_in(dir: LocationView) -> LocationView {
    paths::down(dir, "config.toml"@)
}

/// A file of an earlier version is taken over: the program starts with what it held, each
/// preference in its section; the file as it was stands beside it, under a name that took no
/// other backup's place; and the file is written anew.
pub proof fn law_an_old_file_is_taken_over(
    roots: paths::RootsView,
    content: Seq<char>,
    d: DiskView,
    replies: Seq<Reply>,
    codec: Codec,
)
    requires
        paths::config_dir_of(roots) is Some,
        d.file == Some(content),
        load::format_of(content) == Ok::<bool, ConfigErrorView>(true),
        ran(load::begun(roots), d, replies, codec) is Some,
        ran(load::begun(roots), d, replies, codec)->0.now is Done,
    ensures
        ({
            let Run { now: end, disk: after } = ran(load::begun(roots), d, replies, codec)->0;
            let config = load::settled(
                app_config::taken_over((codec.read_old)(content)),
                file_in(paths::config_dir_of(roots)->0),
            );
            let plain = load::backup_name(Some("config.toml"@), None);
            &&& end == (LoadingView::Done { config })
            &&& after.file == Some((codec.write)(config))
            &&& exists|name: Seq<char>| #[trigger]
                after.beside.contains_key(name) && after.beside == d.beside.insert(name, content)
                    && (name == plain <==> !d.beside.contains_key(plain))
            &&& d.beside.contains_key(plain) ==> after.beside[plain] == d.beside[plain]
        }),
{
    let plain = load::backup_name(Some("config.toml"@), None);
    let l0 = load::begun(roots);
    let r = replies;
    assert(r.len() > 0);
    lemma_step(l0, d, r, codec);
    let l1 = load::following(l0, r[0]);
    let r1 = r.skip(1);
    assert(r1.len() > 0);
    lemma_step(l1, d, r1, codec);
    let l2 = load::following(l1, r1[0]);
    let r2 = r1.skip(1);
    assert(l2 is Read);
    assert(r2.len() > 0);
    lemma_step(l2, d, r2, codec);
    let l3 = load::following(l2, r2[0]);
    let r3 = r2.skip(1);
    assert(l3 is Parse);
    assert(r3.len() > 0);
    lemma_step(l3, d, r3, codec);
    let l4 = load::following(l3, r3[0]);
    let r4 = r3.skip(1);
    assert(l4 is LookForBackup);
    assert(r4.len() > 0);
    lemma_step(l4, d, r4, codec);
    let l5 = load::following(l4, r4[0]);
    let r5 = r4.skip(1);
    assert(l5 is Backup);
    assert(r5.len() > 0);
    lemma_step(l5, d, r5, codec);
    let taken = r4[0]->Taken_0;
    let name = load::backup_name(Some("config.toml"@), taken);
    if let Some(seconds) = taken {
        reveal_strlit(".");
        assert(name.len() == plain.len() + 1 + text::decimal(seconds as nat).len());
    }
    let d6 = worked(d, l5, codec);
    let l6 = load::following(l5, r5[0]);
    let r6 = r5.skip(1);
    assert(l6 is Save);
    assert(r6.len() > 0);
    lemma_step(l6, d6, r6, codec);
    let d7 = worked(d6, l6, codec);
    let l7 = load::following(l6, r6[0]);
    lemma_ended(l7, d7, r6.skip(1), codec);
    assert(d7.beside == d.beside.insert(name, content));
    assert(d7.beside.contains_key(name));
}

/// A file of this version is read and nothing else: the program starts with what it holds, and
/// nothing is written.
pub proof fn law_a_file_of_this_version_is_only_read(
    roots: paths::RootsView,
    content: Seq<char>,
    d: DiskView,
    replies: Seq<Reply>,
    codec: Codec,
)
    requires
        paths::config_dir_of(roots) is Some,
        d.file == Some(content),
        load::format_of(content) == Ok::<bool, ConfigErrorView>(false),
        ran(load::begun(roots), d, replies, codec) is Some,
        ran(load::begun(roots), d, replies, codec)->0.now is Done,
    ensures
        ran(load::begun(roots), d, replies, codec) == Some(
            (Run {
                now: LoadingView::Done {
                    config: load::settled(
                        (codec.read)(content),
                        file_in(paths::config_dir_of(roots)->0),
                    ),
                },
                disk: d,
            }),
        ),
{
    let l0 = load::begun(roots);
    let r = replies;
    assert(r.len() > 0);
    lemma_step(l0, d, r, codec);
    let l1 = load::following(l0, r[0]);
    let r1 = r.skip(1);
    assert(r1.len() > 0);
    lemma_step(l1, d, r1, codec);
    let l2 = load::following(l1, r1[0]);
    let r2 = r1.skip(1);
    assert(l2 is Read);
    assert(r2.len() > 0);
    lemma_step(l2, d, r2, codec);
    let l3 = load::following(l2, r2[0]);
    let r3 = r2.skip(1);
    assert(l3 is Parse);
    assert(r3.len() > 0);
    lemma_step(l3, d, r3, codec);
    let l4 = load::following(l3, r3[0]);
    lemma_ended(l4, d, r3.skip(1), codec);
}

/// Taking a file over is done once: where the text that is written is one of this version and
/// reads back as what was written, the next start has the same preferences and writes nothing.
pub proof fn law_the_next_start_finds_the_same(
    roots: paths::RootsView,
    content: Seq<char>,
    d: DiskView,
    first: Seq<Reply>,
    second: Seq<Reply>,
    codec: Codec,
)
    requires
        paths::config_dir_of(roots) is Some,
        d.file == Some(content),
        load::format_of(content) == Ok::<bool, ConfigErrorView>(true),
        ran(load::begun(roots), d, first, codec) is Some,
        ran(load::begun(roots), d, first, codec)->0.now is Done,
        ({
            let Run { now: end, disk: after } = ran(load::begun(roots), d, first, codec)->0;
            let config = end->Done_config;
            let written = (codec.write)(config);
            &&& load::format_of(written) == Ok::<bool, ConfigErrorView>(false)
            &&& (codec.read)(written) == AppView { path: None, ..config }
            &&& ran(load::begun(roots), after, second, codec) is Some
            &&& ran(load::begun(roots), after, second, codec)->0.now is Done
        }),
    ensures
        ran(
            load::begun(roots),
            ran(load::begun(roots), d, first, codec)->0.disk,
            second,
            codec,
        ) == ran(load::begun(roots), d, first, codec),
{
    law_an_old_file_is_taken_over(roots, content, d, first, codec);
    let Run { now: end, disk: after } = ran(load::begun(roots), d, first, codec)->0;
    let written = (codec.write)(end->Done_config);
    law_a_file_of_this_version_is_only_read(roots, written, after, second, codec);
}

} // verus!
