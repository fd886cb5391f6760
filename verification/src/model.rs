//! The selection model: typed text, visible results, cursor, chosen names
//! and outcome, with one total transition per input event.

use vstd::prelude::*;
use crate::rank::{effective_scores, has_name, is_ranking, rank, RankedMatch};
use crate::text::{pop_char, push_char, texts};

verus! {

/// The number of result rows of a session that asks for no other.
pub const DEFAULT_WINDOW: usize = 4;

/// How far the session has come.
#[derive(Clone, Copy, Debug, PartialEq, Eq, Structural)]
pub enum Outcome {
    Continue,
    Accept,
    Cancel,
}

/// What a key press asks of the selection model.
#[derive(Clone, Copy, Debug, PartialEq, Eq, Structural)]
pub enum Event {
    MoveUp,
    MoveDown,
    Commit,
    FastAccept,
    Erase,
    TypeChar(char),
    AnyOtherKey,
}

/// The state of a session as a mathematical value.
pub struct Selection {
    /// The names that can be chosen, in catalog order.
    pub catalog: Seq<Seq<char>>,
    /// The number of result rows shown at once.
    pub window: int,
    /// What has been typed since the last commit.
    pub query: Seq<char>,
    /// The highlighted row of `visible`.
    pub cursor: int,
    /// The ranking of the catalog for `query`, without the chosen names.
    pub visible: Seq<RankedMatch>,
    /// The chosen names, in the order in which they were committed.
    pub chosen: Seq<Seq<char>>,
    pub outcome: Outcome,
}

impl Selection {
    /// The state at the start of a session.
    pub open spec fn initial(catalog: Seq<Seq<char>>, window: int) -> Selection {
        Selection {
            catalog,
            window,
            query: Seq::empty(),
            cursor: 0,
            visible: Seq::empty(),
            chosen: Seq::empty(),
            outcome: Outcome::Continue,
        }
    }

    /// The visible results are the ranking for the typed text.
    pub open spec fn results_current(self) -> bool {
        is_ranking(effective_scores(self.catalog, self.query, self.chosen), self.window, self.visible)
    }

    /// The invariant of a session: the visible results are the ranking for
    /// the typed text, the cursor points into them (or is zero), and the
    /// chosen names are distinct catalog names.
    pub open spec fn wf(self) -> bool {
        &&& self.results_current()
        &&& (self.cursor == 0 || 0 < self.cursor < self.visible.len())
        &&& forall|i: int, j: int|
            0 <= i < j < self.chosen.len() ==> #[trigger] self.chosen[i] != #[trigger] self.chosen[j]
        &&& forall|j: int|
            0 <= j < self.chosen.len() ==> has_name(self.catalog, #[trigger] self.chosen[j])
    }

    /// The row under the cursor holds a result.
    pub open spec fn has_entry(self) -> bool {
        0 <= self.cursor < self.visible.len()
    }

    /// The name of the catalog entry under the cursor.
    pub open spec fn entry_name(self) -> Seq<char>
        recommends
            self.has_entry(),
    {
        self.catalog[self.visible[self.cursor].index as int]
    }

    /// Nothing is typed, nothing is shown and the cursor is on the first
    /// row.
    pub open spec fn search_cleared(self) -> bool {
        &&& self.query.len() == 0
        &&& self.visible.len() == 0
        &&& self.cursor == 0
    }

    /// The search as it stands in `self` is that of `pre`.
    pub open spec fn same_search(self, pre: Selection) -> bool {
        &&& self.query == pre.query
        &&& self.visible == pre.visible
    }

    /// The transition relation: `post` is the state that `event` leads to
    /// from `self`.
    pub open spec fn steps_to(self, event: Event, post: Selection) -> bool {
        &&& post.catalog == self.catalog
        &&& post.window == self.window
        &&& match event {
            Event::MoveUp => {
                &&& post.same_search(self)
                &&& post.chosen == self.chosen
                &&& post.outcome == self.outcome
                &&& post.cursor == if self.cursor > 0 {
                    self.cursor - 1
                } else {
                    self.cursor
                }
            },
            Event::MoveDown => {
                &&& post.same_search(self)
                &&& post.chosen == self.chosen
                &&& post.outcome == self.outcome
                &&& post.cursor == if self.cursor + 1 < self.visible.len() {
                    self.cursor + 1
                } else {
                    self.cursor
                }
            },
            Event::Commit => if self.query.len() == 0 {
                &&& post.same_search(self)
                &&& post.cursor == self.cursor
                &&& post.chosen == self.chosen
                &&& post.outcome == if self.chosen.len() == 0 {
                    Outcome::Cancel
                } else {
                    Outcome::Accept
                }
            } else if self.has_entry() {
                &&& post.search_cleared()
                &&& post.chosen == self.chosen.push(self.entry_name())
                &&& post.outcome == self.outcome
            } else {
                &&& post.same_search(self)
                &&& post.cursor == self.cursor
                &&& post.chosen == self.chosen
                &&& post.outcome == self.outcome
            },
            Event::FastAccept => {
                &&& post.same_search(self)
                &&& post.cursor == self.cursor
                &&& post.chosen == self.chosen
                &&& post.outcome == if self.query.len() == 0 {
                    Outcome::Accept
                } else {
                    self.outcome
                }
            },
            Event::Erase => if self.query.len() == 0 {
                &&& post.same_search(self)
                &&& post.cursor == self.cursor
                &&& post.chosen == self.chosen
                &&& post.outcome == self.outcome
            } else {
                &&& post.query == self.query.drop_last()
                &&& post.results_current()
                &&& post.cursor == 0
                &&& post.chosen == self.chosen
                &&& post.outcome == self.outcome
            },
            Event::TypeChar(c) => {
                &&& post.query == self.query.push(c)
                &&& post.results_current()
                &&& post.cursor == 0
                &&& post.chosen == self.chosen
                &&& post.outcome == self.outcome
            },
            Event::AnyOtherKey => {
                &&& post.search_cleared()
                &&& post.chosen == self.chosen
                &&& post.outcome == Outcome::Cancel
            },
        }
    }
}

/// One picking session over a fixed catalog.
pub struct Picker {
    catalog: Vec<String>,
    window: usize,
    query: String,
    cursor: usize,
    visible: Vec<RankedMatch>,
    chosen: Vec<String>,
    outcome: Outcome,
}

impl View for Picker {
    type V = Selection;

    closed spec fn view(&self) -> Selection {
        Selection {
            catalog: texts(self.catalog@),
            window: self.window as int,
            query: self.query@,
            cursor: self.cursor as int,
            visible: self.visible@,
            chosen: texts(self.chosen@),
            outcome: self.outcome,
        }
    }
}

impl Picker {
    /// A session at its start: nothing typed, nothing shown, nothing chosen.
    pub fn new(catalog: Vec<String>, window: usize) -> (r: Picker)
        ensures
            r@ == Selection::initial(texts(catalog@), window as int),
            r@.wf(),
    {
        let r = Picker {
            catalog,
            window,
            query: String::new(),
            cursor: 0,
            visible: Vec::new(),
            chosen: Vec::new(),
            outcome: Outcome::Continue,
        };
        assert(r@.chosen =~= Seq::<Seq<char>>::empty());
        r
    }

    /// The names that can be chosen.
    pub fn catalog(&self) -> (r: &Vec<String>)
        ensures
            texts(r@) == self@.catalog,
    {
        &self.catalog
    }

    /// The number of result rows.
    pub fn window(&self) -> (r: usize)
        ensures
            r == self@.window,
    {
        self.window
    }

    /// The typed text.
    pub fn query(&self) -> (r: &str)
        ensures
            r@ == self@.query,
    {
        self.query.as_str()
    }

    /// The highlighted row.
    pub fn cursor(&self) -> (r: usize)
        ensures
            r == self@.cursor,
    {
        self.cursor
    }

    /// The visible results, best first.
    pub fn visible(&self) -> (r: &Vec<RankedMatch>)
        ensures
            r@ == self@.visible,
    {
        &self.visible
    }

    /// The chosen names, in the order in which they were committed.
    pub fn chosen(&self) -> (r: &Vec<String>)
        ensures
            texts(r@) == self@.chosen,
    {
        &self.chosen
    }

    /// How far the session has come.
    pub fn outcome(&self) -> (r: Outcome)
        ensures
            r == self@.outcome,
    {
        self.outcome
    }

    /// Applies one event. Every event has an effect in every state, if only
    /// that of leaving the state as it is.
    pub fn step(&mut self, event: Event)
        requires
            old(self)@.wf(),
        ensures
            final(self)@.wf(),
            old(self)@.steps_to(event, final(self)@),
    {
        match event {
            Event::MoveUp => {
                if self.cursor > 0 {
                    self.cursor -= 1;
                }
            },
            Event::MoveDown => {
                if self.cursor + 1 < self.visible.len() {
                    self.cursor += 1;
                }
            },
            Event::Commit => {
                if self.query.as_str().is_empty() {
                    if self.chosen.is_empty() {
                        self.outcome = Outcome::Cancel;
                    } else {
                        self.outcome = Outcome::Accept;
                    }
                } else if self.cursor < self.visible.len() {
                    let at: usize = self.visible[self.cursor].index;
                    assert(at < self.catalog@.len()) by {
                        assert(self@.visible[self.cursor as int].index < self@.catalog.len());
                    }
                    let name = self.catalog[at].clone();
                    let ghost pre = self@;
                    assert(name@ == pre.entry_name());
                    self.chosen.push(name);
                    self.query = String::new();
                    self.visible = Vec::new();
                    self.cursor = 0;
                    proof {
                        assert(self@.chosen =~= pre.chosen.push(pre.entry_name()));
                        lemma_step_keeps_wf(pre, event, self@);
                    }
                }
            },
            Event::FastAccept => {
                if self.query.as_str().is_empty() {
                    self.outcome = Outcome::Accept;
                }
            },
            Event::Erase => {
                if !self.query.as_str().is_empty() {
                    pop_char(&mut self.query);
                    self.visible =
                    rank(&self.catalog, self.query.as_str(), &self.chosen, self.window);
                    self.cursor = 0;
                }
            },
            Event::TypeChar(c) => {
                push_char(&mut self.query, c);
                self.visible = rank(&self.catalog, self.query.as_str(), &self.chosen, self.window);
                self.cursor = 0;
            },
            Event::AnyOtherKey => {
                self.query = String::new();
                self.visible = Vec::new();
                self.cursor = 0;
                self.outcome = Outcome::Cancel;
            },
        }
    }

    /// Whether the session has reached `Accept` or `Cancel`.
    pub fn is_finished(&self) -> (r: bool)
        ensures
            r == (self@.outcome != Outcome::Continue),
    {
        match self.outcome {
            Outcome::Continue => false,
            _ => true,
        }
    }

    /// The names to hand on when the session is over: the chosen names if
    /// the session was accepted with at least one of them, nothing otherwise.
    pub fn selection(&self) -> (r: Option<&Vec<String>>)
        ensures
            r is Some <==> self@.outcome == Outcome::Accept && self@.chosen.len() > 0,
            r matches Some(names) ==> texts(names@) == self@.chosen,
    {
        match self.outcome {
            Outcome::Accept => if self.chosen.len() > 0 {
                Some(&self.chosen)
            } else {
                None
            },
            _ => None,
        }
    }
}

/// No visible result carries a chosen name, and the visible results fit the
/// window.
pub proof fn lemma_visible_excludes_chosen(s: Selection)
    requires
        s.wf(),
    ensures
        s.visible.len() <= s.window,
        forall|k: int|
            0 <= k < s.visible.len() ==> 0 <= (#[trigger] s.visible[k]).index < s.catalog.len()
                && !has_name(s.chosen, s.catalog[s.visible[k].index as int]),
{
    let scores = effective_scores(s.catalog, s.query, s.chosen);
    assert forall|k: int| 0 <= k < s.visible.len() implies 0 <= (#[trigger] s.visible[k]).index
        < s.catalog.len() && !has_name(s.chosen, s.catalog[s.visible[k].index as int]) by {
        assert(scores[s.visible[k].index as int] > 0);
    }
}

/// While nothing is typed, nothing is visible.
pub proof fn lemma_blank_query_shows_nothing(s: Selection)
    requires
        s.wf(),
        s.query.len() == 0,
    ensures
        s.visible.len() == 0,
        s.cursor == 0,
{
    let scores = effective_scores(s.catalog, s.query, s.chosen);
    crate::rank::lemma_ranking_of_nothing(scores, s.window, s.visible);
}

/// Every transition keeps the invariant: after it the visible results are
/// still the ranking for the typed text without the chosen names, and the
/// cursor is a valid row or zero.
pub proof fn lemma_step_keeps_wf(pre: Selection, event: Event, post: Selection)
    requires
        pre.wf(),
        pre.steps_to(event, post),
    ensures
        post.wf(),
        post.cursor == 0 || 0 < post.cursor < post.visible.len(),
{
    match event {
        Event::Commit => {
            if pre.query.len() > 0 && pre.has_entry() {
                let scores = effective_scores(pre.catalog, pre.query, pre.chosen);
                let at = pre.visible[pre.cursor].index as int;
                assert(scores[at] > 0);
                assert(!has_name(pre.chosen, pre.entry_name()));
                assert(has_name(pre.catalog, pre.entry_name())) by {
                    assert(pre.catalog[at] == pre.entry_name());
                }
                assert forall|j: int| 0 <= j < post.chosen.len() implies has_name(
                    post.catalog,
                    #[trigger] post.chosen[j],
                ) by {
                    if j < pre.chosen.len() {
                        assert(post.chosen[j] == pre.chosen[j]);
                    }
                }
                assert forall|i: int, j: int| 0 <= i < j < post.chosen.len() implies (
                #[trigger] post.chosen[i]) != (#[trigger] post.chosen[j]) by {
                    assert(post.chosen[i] == pre.chosen[i]);
                    if j < pre.chosen.len() {
                        assert(post.chosen[j] == pre.chosen[j]);
                    }
                }
            }
        },
        _ => {},
    }
}

/// A transition leads to one state only: two states that the same event
/// reaches from the same state are equal.
pub proof fn lemma_step_is_deterministic(pre: Selection, event: Event, a: Selection, b: Selection)
    requires
        pre.wf(),
        pre.steps_to(event, a),
        pre.steps_to(event, b),
    ensures
        a == b,
{
    match event {
        Event::Erase | Event::TypeChar(_) => {
            if a.query == b.query && a.chosen == b.chosen {
                crate::rank::lemma_ranking_unique(
                    effective_scores(a.catalog, a.query, a.chosen),
                    a.window,
                    a.visible,
                    b.visible,
                );
            }
        },
        _ => {},
    }
    assert(a.query =~= b.query);
    assert(a.visible =~= b.visible);
}

/// Confirming with nothing typed and nothing chosen cancels the session and
/// leaves the chosen names as they were.
pub proof fn lemma_commit_on_blank_cancels(pre: Selection, post: Selection)
    requires
        pre.query.len() == 0,
        pre.chosen.len() == 0,
        pre.steps_to(Event::Commit, post),
    ensures
        post.outcome == Outcome::Cancel,
        post.chosen == pre.chosen,
        post.chosen.len() == 0,
{
}

/// Typing a character and erasing it again leads back: the text, the visible
/// results, the chosen names and the outcome are those from before, and the
/// cursor is on the first row.
pub proof fn lemma_type_then_erase(pre: Selection, c: char, mid: Selection, post: Selection)
    requires
        pre.wf(),
        pre.steps_to(Event::TypeChar(c), mid),
        mid.steps_to(Event::Erase, post),
    ensures
        post == (Selection { cursor: 0, ..pre }),
{
    assert(mid.query.drop_last() =~= pre.query);
    assert(post.query =~= pre.query);
    crate::rank::lemma_ranking_unique(
        effective_scores(pre.catalog, pre.query, pre.chosen),
        pre.window,
        pre.visible,
        post.visible,
    );
}

} // verus!
