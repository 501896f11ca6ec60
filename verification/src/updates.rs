//! Looking for a newer version.

use vstd::prelude::*;

verus! {

/// How long it takes until a newer version is looked for again by itself, in seconds.
pub const THROTTLE_SECS: i64 = 86400;

/// A version that was released.
#[derive(Debug)]
pub struct ReleaseInfo {
    /// Its number.
    pub version: String,
    /// Its page.
    pub html_url: String,
}

/// What is shown of a newer version.
#[derive(Debug)]
pub struct State {
    /// The number of the version and its page, where there is one.
    pub banner: Option<(String, String)>,
}

impl View for State {
    type V = Option<(Seq<char>, Seq<char>)>;

    open spec fn view(&self) -> Option<(Seq<char>, Seq<char>)> {
        match self.banner {
            Some((version, url)) => Some((version@, url@)),
            None => None,
        }
    }
}

/// What is asked, and what came of what was to be done.
pub enum Message {
    /// The program starts.
    CheckOnStartup,
    /// A newer version is to be looked for.
    CheckNow,
    /// There is one, or none, or it could not be found out.
    CheckResult(Result<Option<ReleaseInfo>, String>),
    /// The page of a version is to be shown.
    OpenReleasePage(String),
    /// What is shown is put away.
    DismissBanner,
}

/// What is to be done.
#[derive(Debug)]
pub enum Event {
    /// This is when a newer version was last looked for.
    SetLastCheck(Option<i64>),
    /// A newer version is to be looked for.
    Check,
    /// A page is to be opened.
    OpenPage(String),
}

/// What an [`Event`] holds.
pub enum EventView {
    /// This is when a newer version was last looked for.
    SetLastCheck(Option<i64>),
    /// A newer version is to be looked for.
    Check,
    /// A page is to be opened.
    OpenPage(Seq<char>),
}

impl View for Event {
    type V = EventView;

    open spec fn view(&self) -> EventView {
        match *self {
            Event::SetLastCheck(t) => EventView::SetLastCheck(t),
            Event::Check => EventView::Check,
            Event::OpenPage(url) => EventView::OpenPage(url@),
        }
    }
}

/// What a list of events holds.
pub open spec fn events_of(list: Seq<Event>) -> Seq<EventView> {
    Seq::new(list.len(), |i: int| list[i]@)
}

/// What is known of the rest.
#[derive(Debug, Clone, Copy, PartialEq, Eq, Structural)]
pub struct Ctx {
    /// Whether a newer version is looked for when the program starts.
    pub auto_check: bool,
    /// When it was last looked for, in seconds since 1970.
    pub last_check_unix: Option<i64>,
    /// The time, in seconds since 1970.
    pub now_unix: i64,
}

/// Whether the time since a newer version was last looked for can be told.
pub open spec fn measurable(last: Option<i64>, now: i64) -> bool {
    last matches Some(ts) ==> i64::MIN <= now - ts <= i64::MAX
}

/// Whether the time since a look can be told.
pub fn can_measure(last: Option<i64>, now: i64) -> (r: bool)
    ensures
        r == measurable(last, now),
{
    match last {
        None => true,
        Some(ts) => {
            let since: i128 = now as i128 - ts as i128;
            i64::MIN as i128 <= since && since <= i64::MAX as i128
        },
    }
}

/// Whether it is time to look for a newer version again.
pub open spec fn due(last: Option<i64>, now: i64) -> bool {
    match last {
        None => true,
        Some(ts) => now - ts >= THROTTLE_SECS,
    }
}

/// Whether it is time to look for a newer version again: it never was, or a day ago.
pub fn should_check(last: Option<i64>, now: i64) -> (r: bool)
    requires
        measurable(last, now),
    ensures
        r == due(last, now),
{
    match last {
        None => true,
        Some(ts) => now - ts >= THROTTLE_SECS,
    }
}

/// What is shown, and what is to be done.
pub open spec fn step(banner: Option<(Seq<char>, Seq<char>)>, msg: Message, ctx: Ctx) -> (
    Option<(Seq<char>, Seq<char>)>,
    Seq<EventView>,
) {
    match msg {
        Message::CheckOnStartup => if ctx.auto_check && due(ctx.last_check_unix, ctx.now_unix) {
            (
                banner,
                seq![EventView::SetLastCheck(Some(ctx.now_unix)), EventView::Check],
            )
        } else {
            (banner, Seq::empty())
        },
        Message::CheckNow => (banner, seq![EventView::Check]),
        Message::CheckResult(Ok(Some(info))) => (
            Some((info.version@, info.html_url@)),
            seq![EventView::SetLastCheck(Some(ctx.now_unix))],
        ),
        Message::CheckResult(Ok(None)) => (None, Seq::empty()),
        Message::CheckResult(Err(_)) => (banner, Seq::empty()),
        Message::OpenReleasePage(url) => (banner, seq![EventView::OpenPage(url@)]),
        Message::DismissBanner => (None, Seq::empty()),
    }
}

impl Default for State {
    fn default() -> (r: State)
        ensures
            r@ is None,
    {
        State::new()
    }
}

impl State {
    /// Nothing is shown.
    pub fn new() -> (r: State)
        ensures
            r@ is None,
    {
        State { banner: None }
    }

    /// What is shown changes, and what is to be done is told.
    pub fn update(&mut self, msg: Message, ctx: &Ctx) -> (r: Vec<Event>)
        requires
            msg is CheckOnStartup ==> measurable(ctx.last_check_unix, ctx.now_unix),
        ensures
            (final(self)@, events_of(r@)) == step(old(self)@, msg, *ctx),
    {
        let mut events: Vec<Event> = Vec::new();
        match msg {
            Message::CheckOnStartup => {
                if ctx.auto_check && should_check(ctx.last_check_unix, ctx.now_unix) {
                    events.push(Event::SetLastCheck(Some(ctx.now_unix)));
                    events.push(Event::Check);
                }
            },
            Message::CheckNow => {
                events.push(Event::Check);
            },
            Message::CheckResult(Ok(Some(info))) => {
                self.banner = Some((info.version, info.html_url));
                events.push(Event::SetLastCheck(Some(ctx.now_unix)));
            },
            Message::CheckResult(Ok(None)) => {
                self.banner = None;
            },
            Message::CheckResult(Err(_)) => {},
            Message::OpenReleasePage(url) => {
                events.push(Event::OpenPage(url));
            },
            Message::DismissBanner => {
                self.banner = None;
            },
        }
        assert(events_of(events@) =~= step(old(self)@, msg, *ctx).1);
        events
    }
}

/// Starting the program again within a day looks for nothing: what the first start writes down
/// keeps the second one from it.
pub proof fn law_once_a_day(banner: Option<(Seq<char>, Seq<char>)>, first: i64, second: i64)
    requires
        first <= second,
        second - first < THROTTLE_SECS,
    ensures
        step(
            banner,
            Message::CheckOnStartup,
            Ctx { auto_check: true, last_check_unix: Some(first), now_unix: second },
        ).1 == Seq::<EventView>::empty(),
{
}

/// Where nothing could be found out, neither what is shown nor the time of the last look changes,
/// so that the next start looks again.
pub proof fn law_a_failed_look_counts_for_nothing(
    banner: Option<(Seq<char>, Seq<char>)>,
    words: String,
    ctx: Ctx,
)
    ensures
        step(banner, Message::CheckResult(Err(words)), ctx) == (banner, Seq::<EventView>::empty()),
{
}

/// A newer version is looked for at the start exactly where that is wished and a day has gone by
/// since the last time, or there was none; that time is then written down. On demand it is looked
/// for always.
pub proof fn law_a_newer_version_is_looked_for(banner: Option<(Seq<char>, Seq<char>)>, ctx: Ctx)
    ensures
        ({
            let (shown, events) = step(banner, Message::CheckOnStartup, ctx);
            let wanted = ctx.auto_check && (ctx.last_check_unix is None || ctx.now_unix
                - ctx.last_check_unix->0 >= 86_400);
            &&& shown == banner
            &&& events.contains(EventView::Check) <==> wanted
            &&& events.contains(EventView::SetLastCheck(Some(ctx.now_unix))) <==> wanted
        }),
        step(banner, Message::CheckNow, ctx) == (banner, seq![EventView::Check]),
{
    let events = step(banner, Message::CheckOnStartup, ctx).1;
    if events.len() > 0 {
        assert(events[0] == EventView::SetLastCheck(Some(ctx.now_unix)));
        assert(events[1] == EventView::Check);
    }
}

/// A newer version that was found is shown, with where it is to be had, until it is put away or none
/// is found any more; to ask for a page opens that page.
pub proof fn law_a_newer_version_is_shown(
    banner: Option<(Seq<char>, Seq<char>)>,
    info: ReleaseInfo,
    url: String,
    ctx: Ctx,
)
    ensures
        ({
            let (shown, events) = step(banner, Message::CheckResult(Ok(Some(info))), ctx);
            &&& shown == Some((info.version@, info.html_url@))
            &&& events == seq![EventView::SetLastCheck(Some(ctx.now_unix))]
        }),
        step(banner, Message::CheckResult(Ok(None)), ctx) == (
            None::<(Seq<char>, Seq<char>)>,
            Seq::<EventView>::empty(),
        ),
        step(banner, Message::DismissBanner, ctx) == (
            None::<(Seq<char>, Seq<char>)>,
            Seq::<EventView>::empty(),
        ),
        step(banner, Message::OpenReleasePage(url), ctx) == (banner, seq![EventView::OpenPage(url@)]),
{
}

} // verus!
