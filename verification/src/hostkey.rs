//! The questions about hosts' keys that wait for the user.
//!
//! A question comes up while a connection is being opened, which waits for the answer. One is
//! shown at a time, the oldest first.

use crate::connection;
use crate::connection::{HostKeyPrompt, HostKeyReply};
use vstd::prelude::*;

verus! {

/// A question that waits.
#[derive(Debug)]
pub struct HostKeyPromptState {
    /// The tab whose connection waits.
    pub tab_id: u64,
    /// What the user is asked.
    pub prompt: HostKeyPrompt,
    /// How to answer.
    pub reply: HostKeyReply,
}

/// What a [`HostKeyPromptState`] holds.
pub struct Question {
    /// The tab whose connection waits.
    pub tab_id: u64,
    /// What the user is asked.
    pub prompt: connection::PromptView,
    /// How to answer.
    pub reply: connection::ReplyView,
}

impl View for HostKeyPromptState {
    type V = Question;

    open spec fn view(&self) -> Question {
        Question { tab_id: self.tab_id, prompt: self.prompt@, reply: self.reply@ }
    }
}

/// What is asked of the queue.
pub enum Message {
    /// A question of a tab's connection comes up.
    Prompt(u64, HostKeyPrompt, HostKeyReply),
    /// The user answers the question shown.
    Decision(bool),
    /// The user puts the question shown away.
    Dismiss,
}

/// What is to be done.
#[derive(Debug, Clone, Copy, PartialEq, Eq, Structural)]
pub enum Event {
    /// The one who waits under this handle is to be told the answer.
    Answer(u64, bool),
}

/// The questions that wait.
pub struct State {
    prompts: Vec<HostKeyPromptState>,
}

impl View for State {
    type V = Seq<Question>;

    closed spec fn view(&self) -> Seq<Question> {
        Seq::new(self.prompts@.len(), |i: int| self.prompts@[i]@)
    }
}

/// What is told when a question is answered.
pub open spec fn told(q: Question, trust: bool) -> Seq<Event> {
    if q.reply.open {
        seq![Event::Answer(q.reply.handle, trust)]
    } else {
        Seq::empty()
    }
}

/// The questions of other tabs.
pub open spec fn others(list: Seq<Question>, tab_id: u64) -> Seq<Question>
    decreases list.len(),
{
    if list.len() == 0 {
        list
    } else if list.last().tab_id == tab_id {
        others(list.drop_last(), tab_id)
    } else {
        others(list.drop_last(), tab_id).push(list.last())
    }
}

/// What is told when a tab's questions are put away: each is answered with no.
pub open spec fn refusals(list: Seq<Question>, tab_id: u64) -> Seq<Event>
    decreases list.len(),
{
    if list.len() == 0 {
        Seq::empty()
    } else if list.last().tab_id == tab_id {
        refusals(list.drop_last(), tab_id) + told(list.last(), false)
    } else {
        refusals(list.drop_last(), tab_id)
    }
}

/// What becomes of the queue, and what is to be done.
pub open spec fn step(list: Seq<Question>, msg: Message) -> (Seq<Question>, Seq<Event>) {
    match msg {
        Message::Prompt(tab_id, prompt, reply) => (
            list.push(Question { tab_id, prompt: prompt@, reply: reply@ }),
            Seq::empty(),
        ),
        Message::Decision(trust) => (list.skip(1), told(list[0], trust)),
        Message::Dismiss => (list.skip(1), told(list[0], false)),
    }
}

impl Default for State {
    fn default() -> (r: State)
        ensures
            r@ == Seq::<Question>::empty(),
    {
        State::new()
    }
}

impl State {
    /// No questions.
    pub fn new() -> (r: State)
        ensures
            r@ == Seq::<Question>::empty(),
    {
        let r = State { prompts: Vec::new() };
        assert(r@ =~= Seq::<Question>::empty());
        r
    }

    /// The question shown.
    pub fn head(&self) -> (r: Option<&HostKeyPromptState>)
        ensures
            match r {
                Some(q) => self@.len() > 0 && q@ == self@[0],
                None => self@.len() == 0,
            },
    {
        if self.prompts.len() == 0 {
            None
        } else {
            assert(self@[0] == self.prompts@[0]@);
            Some(&self.prompts[0])
        }
    }

    /// Whether no question waits.
    pub fn is_empty(&self) -> (r: bool)
        ensures
            r == (self@.len() == 0),
    {
        self.prompts.len() == 0
    }

    /// A tab is closed: its questions are answered with no and put away.
    pub fn remove_for_tab(&mut self, tab_id: u64) -> (r: Vec<Event>)
        ensures
            final(self)@ == others(old(self)@, tab_id),
            r@ == refusals(old(self)@, tab_id),
    {
        let ghost all = self@;
        let mut events: Vec<Event> = Vec::new();
        let mut i: usize = 0;
        let ghost mut seen: int = 0;
        assert(all.take(0) =~= Seq::<Question>::empty());
        assert(self@ =~= others(all.take(0), tab_id) + all.skip(0));
        while i < self.prompts.len()
            invariant
                0 <= seen <= all.len(),
                i == others(all.take(seen), tab_id).len(),
                self@ == others(all.take(seen), tab_id) + all.skip(seen),
                events@ == refusals(all.take(seen), tab_id),
                i <= self.prompts@.len(),
            decreases all.len() - seen,
        {
            proof {
                assert(self@.len() == self.prompts@.len());
                assert(seen < all.len());
                assert(self.prompts@[i as int]@ == self@[i as int]);
                assert(self@[i as int] == all.skip(seen)[0]);
                assert(all.take(seen + 1).drop_last() =~= all.take(seen));
                assert(all.take(seen + 1).last() == all[seen]);
            }
            let ghost before = self@;
            if self.prompts[i].tab_id == tab_id {
                let mut gone = self.prompts.remove(i);
                let handle: u64 = gone.reply.handle();
                if let Some(trust) = gone.reply.reply(false) {
                    events.push(Event::Answer(handle, trust));
                }
                proof {
                    assert(self@ =~= before.remove(i as int));
                    assert(self@ =~= others(all.take(seen + 1), tab_id) + all.skip(seen + 1));
                    assert(events@ =~= refusals(all.take(seen + 1), tab_id));
                }
            } else {
                i += 1;
                proof {
                    assert(self@ =~= others(all.take(seen + 1), tab_id) + all.skip(seen + 1));
                }
            }
            proof {
                seen = seen + 1;
            }
        }
        proof {
            assert(self@.len() == self.prompts@.len());
            assert(all.skip(seen).len() == 0);
            assert(all.take(seen) =~= all);
            assert(self@ =~= others(all, tab_id));
        }
        events
    }

    /// The queue changes, and what is to be done is told. There is a question to be answered or
    /// put away.
    pub fn update(&mut self, msg: Message) -> (r: Vec<Event>)
        requires
            !(msg is Prompt) ==> old(self)@.len() > 0,
        ensures
            (final(self)@, r@) == step(old(self)@, msg),
    {
        match msg {
            Message::Prompt(tab_id, prompt, reply) => {
                let ghost before = self@;
                self.prompts.push(HostKeyPromptState { tab_id, prompt, reply });
                assert(self@ =~= before.push(Question { tab_id, prompt: prompt@, reply: reply@ }));
                Vec::new()
            },
            Message::Decision(trust) => self.answer(trust),
            Message::Dismiss => self.answer(false),
        }
    }

    /// The question shown is answered and put away.
    fn answer(&mut self, trust: bool) -> (r: Vec<Event>)
        requires
            old(self)@.len() > 0,
        ensures
            final(self)@ == old(self)@.skip(1),
            r@ == told(old(self)@[0], trust),
    {
        let ghost before = self@;
        assert(before.len() == self.prompts@.len());
        assert(before[0] == self.prompts@[0]@);
        let mut gone = self.prompts.remove(0);
        let handle: u64 = gone.reply.handle();
        let mut events: Vec<Event> = Vec::new();
        if let Some(told) = gone.reply.reply(trust) {
            events.push(Event::Answer(handle, told));
        }
        assert(self@ =~= before.skip(1));
        assert(events@ =~= told(before[0], trust));
        events
    }
}

/// Closing a tab leaves the questions of all other tabs, in their order, and none of its own.
pub proof fn law_closing_a_tab_spares_the_others(list: Seq<Question>, tab_id: u64)
    ensures
        forall|i: int|
            0 <= i < others(list, tab_id).len() ==> (#[trigger] others(list, tab_id)[i]).tab_id
                != tab_id,
        others(list, tab_id) == list.filter(|q: Question| q.tab_id != tab_id),
    decreases list.len(),
{
    reveal(Seq::filter);
    if list.len() > 0 {
        law_closing_a_tab_spares_the_others(list.drop_last(), tab_id);
    }
}

/// How many of the questions of a tab can still be answered.
pub open spec fn pending(list: Seq<Question>, tab_id: u64) -> nat
    decreases list.len(),
{
    if list.len() == 0 {
        0
    } else {
        pending(list.drop_last(), tab_id) + if list.last().tab_id == tab_id
            && list.last().reply.open {
            1nat
        } else {
            0nat
        }
    }
}

/// No connection of a closed tab is left waiting: each of its questions is answered, with no.
pub proof fn law_no_connection_is_left_waiting(list: Seq<Question>, tab_id: u64)
    ensures
        refusals(list, tab_id).len() == pending(list, tab_id),
        forall|i: int|
            0 <= i < refusals(list, tab_id).len() ==> (#[trigger] refusals(list, tab_id)[i])->1
                == false,
        forall|k: int|
            0 <= k < list.len() && (#[trigger] list[k]).tab_id == tab_id && list[k].reply.open
                ==> refusals(list, tab_id).contains(Event::Answer(list[k].reply.handle, false)),
    decreases list.len(),
{
    if list.len() > 0 {
        let front = list.drop_last();
        law_no_connection_is_left_waiting(front, tab_id);
        let all = refusals(list, tab_id);
        let some = refusals(front, tab_id);
        assert forall|k: int|
            0 <= k < list.len() && (#[trigger] list[k]).tab_id == tab_id
                && list[k].reply.open implies all.contains(
            Event::Answer(list[k].reply.handle, false),
        ) by {
            let e = Event::Answer(list[k].reply.handle, false);
            if k < front.len() {
                assert(front[k] == list[k]);
                assert(some.contains(e));
                let j = choose|j: int| 0 <= j < some.len() && some[j] == e;
                assert(all[j] == e);
            } else {
                assert(all[some.len() as int] == e);
            }
        }
    }
}

/// Questions are answered in the order in which they came up: an answer is that to the first, goes
/// to the one who waits for it, and leaves the others in their order; to put a question away is to
/// say no. A new question comes last and answers nothing.
pub proof fn law_answers_go_to_the_first_question(
    list: Seq<Question>,
    trust: bool,
    tab_id: u64,
    prompt: HostKeyPrompt,
    reply: HostKeyReply,
)
    ensures
        list.len() > 0 ==> ({
            let (after, events) = step(list, Message::Decision(trust));
            &&& after.len() == list.len() - 1
            &&& forall|i: int| 0 <= i < after.len() ==> #[trigger] after[i] == list[i + 1]
            &&& list[0].reply.open ==> events == seq![Event::Answer(list[0].reply.handle, trust)]
            &&& !list[0].reply.open ==> events.len() == 0
        }),
        list.len() > 0 ==> step(list, Message::Dismiss) == step(list, Message::Decision(false)),
        ({
            let (after, events) = step(list, Message::Prompt(tab_id, prompt, reply));
            &&& events.len() == 0
            &&& after.len() == list.len() + 1
            &&& forall|i: int| 0 <= i < list.len() ==> #[trigger] after[i] == list[i]
            &&& after.last() == (Question { tab_id, prompt: prompt@, reply: reply@ })
        }),
{
}

} // verus!
