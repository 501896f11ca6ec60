//! What is shown to the user, as an entry of the message catalogue rather than in words.

use crate::text;
use vstd::prelude::*;

verus! {

/// A piece of text: words as they stand, or an entry of the catalogue with the value of its
/// placeholder.
#[derive(Debug)]
pub enum Wording {
    /// Words as they stand.
    Verbatim(String),
    /// An entry of the catalogue.
    Entry {
        /// The entry's name.
        key: &'static str,
        /// The value of the entry's placeholder, for an entry that has one.
        detail: Option<String>,
    },
    /// An entry of the catalogue with two placeholders.
    Pair {
        /// The entry's name.
        key: &'static str,
        /// The value of the first placeholder.
        first: String,
        /// The value of the second placeholder.
        second: String,
    },
}

/// What a [`Wording`] holds.
pub enum WordingView {
    /// Words as they stand.
    Verbatim(Seq<char>),
    /// An entry of the catalogue.
    Entry {
        /// The entry's name.
        key: Seq<char>,
        /// The value of the entry's placeholder.
        detail: Option<Seq<char>>,
    },
    /// An entry of the catalogue with two placeholders.
    Pair {
        /// The entry's name.
        key: Seq<char>,
        /// The value of the first placeholder.
        first: Seq<char>,
        /// The value of the second placeholder.
        second: Seq<char>,
    },
}

impl View for Wording {
    type V = WordingView;

    open spec fn view(&self) -> WordingView {
        match *self {
            Wording::Verbatim(words) => WordingView::Verbatim(words@),
            Wording::Entry { key, detail } => WordingView::Entry {
                key: key@,
                detail: text::opt(detail),
            },
            Wording::Pair { key, first, second } => WordingView::Pair {
                key: key@,
                first: first@,
                second: second@,
            },
        }
    }
}

/// The entry of this name, without a placeholder.
pub open spec fn entry(key: Seq<char>) -> WordingView {
    WordingView::Entry { key, detail: None }
}

/// The entry of this name, with the value of its placeholder.
pub open spec fn entry_with(key: Seq<char>, detail: Seq<char>) -> WordingView {
    WordingView::Entry { key, detail: Some(detail) }
}

/// The words of a [`Wording`] where no catalogue is at hand: the words themselves, or the entry's
/// name, followed by the placeholders' values in brackets.
pub open spec fn spelled(w: WordingView) -> Seq<char> {
    match w {
        WordingView::Verbatim(words) => words,
        WordingView::Entry { key, detail: None } => key,
        WordingView::Entry { key, detail: Some(d) } => key + " ("@ + d + ")"@,
        WordingView::Pair { key, first, second } => key + " ("@ + first + ", "@ + second + ")"@,
    }
}

impl Wording {
    /// The entry of this name, without a placeholder.
    pub fn entry(key: &'static str) -> (r: Wording)
        ensures
            r@ == entry(key@),
    {
        Wording::Entry { key, detail: None }
    }

    /// The entry of this name, with the value of its placeholder.
    pub fn entry_with(key: &'static str, detail: String) -> (r: Wording)
        ensures
            r@ == entry_with(key@, detail@),
    {
        Wording::Entry { key, detail: Some(detail) }
    }

    /// A copy.
    pub fn copied(&self) -> (r: Wording)
        ensures
            r@ == self@,
    {
        match self {
            Wording::Verbatim(words) => Wording::Verbatim(words.clone()),
            Wording::Entry { key, detail } => Wording::Entry {
                key: *key,
                detail: match detail {
                    Some(d) => Some(d.clone()),
                    None => None,
                },
            },
            Wording::Pair { key, first, second } => Wording::Pair {
                key: *key,
                first: first.clone(),
                second: second.clone(),
            },
        }
    }

    /// The words, without a catalogue.
    pub fn spell(&self) -> (r: String)
        ensures
            r@ == spelled(self@),
    {
        match self {
            Wording::Verbatim(words) => words.clone(),
            Wording::Entry { key, detail } => match detail {
                None => (*key).to_owned(),
                Some(d) => {
                    let open = text::concat3(*key, " (", d);
                    text::concat(&open, ")")
                },
            },
            Wording::Pair { key, first, second } => {
                let open = text::concat3(*key, " (", first);
                let more = text::concat3(&open, ", ", second);
                text::concat(&more, ")")
            },
        }
    }
}

/// A message: a wording, after the wording of the occasion where there is one.
#[derive(Debug)]
pub struct Text {
    /// On what occasion, shown before a colon.
    pub prefix: Option<Wording>,
    /// What happened.
    pub body: Wording,
}

/// What a [`Text`] holds.
pub struct TextView {
    /// On what occasion.
    pub prefix: Option<WordingView>,
    /// What happened.
    pub body: WordingView,
}

impl View for Text {
    type V = TextView;

    open spec fn view(&self) -> TextView {
        TextView {
            prefix: match self.prefix {
                Some(p) => Some(p@),
                None => None,
            },
            body: self.body@,
        }
    }
}

/// A message without an occasion.
pub open spec fn plain(body: WordingView) -> TextView {
    TextView { prefix: None, body }
}

/// A message with its occasion.
pub open spec fn prefixed(prefix: WordingView, body: WordingView) -> TextView {
    TextView { prefix: Some(prefix), body }
}

/// What an optional message holds.
pub open spec fn opt_text(t: Option<Text>) -> Option<TextView> {
    match t {
        Some(t) => Some(t@),
        None => None,
    }
}

impl Text {
    /// An entry of the catalogue.
    pub fn entry(key: &'static str) -> (r: Text)
        ensures
            r@ == plain(entry(key@)),
    {
        Text { prefix: None, body: Wording::entry(key) }
    }

    /// An entry of the catalogue with the value of its placeholder.
    pub fn entry_with(key: &'static str, detail: String) -> (r: Text)
        ensures
            r@ == plain(entry_with(key@, detail@)),
    {
        Text { prefix: None, body: Wording::entry_with(key, detail) }
    }

    /// An entry of the catalogue with the values of its two placeholders.
    pub fn pair(key: &'static str, first: String, second: String) -> (r: Text)
        ensures
            r@ == plain(WordingView::Pair { key: key@, first: first@, second: second@ }),
    {
        Text { prefix: None, body: Wording::Pair { key, first, second } }
    }

    /// Words as they stand.
    pub fn verbatim(words: String) -> (r: Text)
        ensures
            r@ == plain(WordingView::Verbatim(words@)),
    {
        Text { prefix: None, body: Wording::Verbatim(words) }
    }

    /// A copy.
    pub fn copied(&self) -> (r: Text)
        ensures
            r@ == self@,
    {
        Text {
            prefix: match &self.prefix {
                Some(p) => Some(p.copied()),
                None => None,
            },
            body: self.body.copied(),
        }
    }

    /// The words, without a catalogue: the occasion, a colon and what happened.
    pub fn spell(&self) -> (r: String)
        ensures
            r@ == match self@.prefix {
                Some(p) => spelled(p) + ": "@ + spelled(self@.body),
                None => spelled(self@.body),
            },
    {
        let body = self.body.spell();
        match &self.prefix {
            Some(p) => {
                let head = p.spell();
                text::concat3(&head, ": ", &body)
            },
            None => body,
        }
    }
}

/// The colour and title of a notification.
#[derive(Debug, Clone, Copy, PartialEq, Eq, Structural)]
pub enum ToastKind {
    /// Something was done.
    Success,
    /// Something failed.
    Error,
    /// Something needs attention.
    Warning,
}

/// What is said where no catalogue is at hand begins with the words or the entry's name, and holds
/// each value in its turn.
pub proof fn law_values_are_said_after_the_name(
    key: Seq<char>,
    first: Seq<char>,
    second: Seq<char>,
)
    ensures
        spelled(WordingView::Verbatim(key)) == key,
        spelled(WordingView::Entry { key, detail: None }) == key,
        spelled(WordingView::Entry { key, detail: Some(first) }) == key + seq![' ', '('] + first
            + seq![')'],
        spelled(WordingView::Pair { key, first, second }) == key + seq![' ', '('] + first + seq![
            ',',
            ' ',
        ] + second + seq![')'],
{
    reveal_strlit(" (");
    reveal_strlit(")");
    reveal_strlit(", ");
    assert(" ("@ =~= seq![' ', '(']);
    assert(")"@ =~= seq![')']);
    assert(", "@ =~= seq![',', ' ']);
}

} // verus!
