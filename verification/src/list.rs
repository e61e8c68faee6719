//! The picker over all Finders.
use vstd::prelude::*;

use crate::delegate::StringMatch;
use crate::registry::FinderListEntry;

verus! {

/// The most matches that are listed.
pub const MAX_LIST_MATCHES: usize = 100;

/// The text in the empty input.
pub const LIST_PLACEHOLDER: &'static str = "Open a finder…";

/// What a change of the Query asks for.
#[derive(Debug, PartialEq)]
pub enum ListPlan {
    /// List these.
    List(Vec<StringMatch>),
    /// Match the labels against the Query, case-sensitively where the Query has
    /// capitals, shorter labels first among equals, and list the best `limit`.
    Match { query: String, limit: usize },
}

/// What a [`ListPlan`] is.
pub enum ListPlanView {
    List(Seq<crate::delegate::StringMatchView>),
    Match { query: Seq<char>, limit: nat },
}

impl DeepView for ListPlan {
    type V = ListPlanView;

    open spec fn deep_view(&self) -> ListPlanView {
        match self {
            ListPlan::List(matches) => ListPlanView::List(matches.deep_view()),
            ListPlan::Match { query, limit } => ListPlanView::Match {
                query: query@,
                limit: *limit as nat,
            },
        }
    }
}

/// The state of the picker over all Finders.
pub struct FinderListView {
    pub entries: Seq<crate::registry::FinderListEntryView>,
    pub matches: Seq<crate::delegate::StringMatchView>,
    pub selected_index: nat,
}

impl FinderListView {
    /// The labels of all rows.
    pub open spec fn labels(self) -> Seq<Seq<char>> {
        self.entries.map_values(|e: crate::registry::FinderListEntryView| e.label())
    }

    /// The matches of an empty Query: every row, in order.
    pub open spec fn unfiltered(self) -> Seq<crate::delegate::StringMatchView> {
        Seq::new(
            self.entries.len(),
            |i: int| crate::delegate::unmarked(i as nat, self.entries[i].label()),
        )
    }

    /// What a change of the Query asks for.
    pub open spec fn plan(self, query: Seq<char>) -> ListPlanView {
        if query.len() == 0 {
            ListPlanView::List(self.unfiltered())
        } else {
            ListPlanView::Match { query, limit: MAX_LIST_MATCHES as nat }
        }
    }

    /// The row that is listed at a place.
    pub open spec fn row(self, i: nat) -> Option<crate::registry::FinderListEntryView> {
        if i < self.matches.len() && self.matches[i as int].candidate_id < self.entries.len() {
            Some(self.entries[self.matches[i as int].candidate_id as int])
        } else {
            None
        }
    }

    /// The text in place of an empty list.
    pub open spec fn no_matches(self) -> Seq<char> {
        if self.entries.len() == 0 {
            "No finders configured"@
        } else {
            "No matches"@
        }
    }
}

/// The picker over all Finders.
#[derive(Debug)]
pub struct FinderListDelegate {
    entries: Vec<FinderListEntry>,
    matches: Vec<StringMatch>,
    selected_index: usize,
}

impl View for FinderListDelegate {
    type V = FinderListView;

    closed spec fn view(&self) -> FinderListView {
        FinderListView {
            entries: self.entries.deep_view(),
            matches: self.matches.deep_view(),
            selected_index: self.selected_index as nat,
        }
    }
}

impl FinderListDelegate {
    /// The picker as it opens.
    pub fn new(entries: Vec<FinderListEntry>) -> (list: FinderListDelegate)
        ensures
            list@ == (FinderListView {
                entries: entries.deep_view(),
                matches: Seq::empty(),
                selected_index: 0,
            }),
    {
        let list = FinderListDelegate { entries, matches: Vec::new(), selected_index: 0 };
        assert(list.matches.deep_view() =~= Seq::<crate::delegate::StringMatchView>::empty());
        list
    }

    /// The labels that a Query is matched against, in order.
    pub fn candidates(&self) -> (labels: Vec<String>)
        ensures
            labels.deep_view() == self@.labels(),
    {
        let mut labels: Vec<String> = Vec::new();
        let mut i: usize = 0;
        while i < self.entries.len()
            invariant
                i <= self.entries@.len(),
                labels@.len() == i,
                forall|j: int|
                    0 <= j < i ==> (#[trigger] labels@[j])@ == self.entries@[j].deep_view().label(),
            decreases self.entries@.len() - i,
        {
            labels.push(self.entries[i].label());
            i += 1;
        }
        assert(labels.deep_view() =~= self@.labels());
        labels
    }

    /// How many rows are listed.
    pub fn match_count(&self) -> (n: usize)
        ensures
            n == self@.matches.len(),
    {
        self.matches.len()
    }

    /// Which of the listed rows is selected.
    pub fn selected_index(&self) -> (i: usize)
        ensures
            i == self@.selected_index,
    {
        self.selected_index
    }

    /// Selects one of the listed rows.
    pub fn set_selected_index(&mut self, i: usize)
        ensures
            final(self)@ == (FinderListView { selected_index: i as nat, ..old(self)@ }),
    {
        self.selected_index = i;
    }

    /// The text in place of an empty list.
    pub fn no_matches_text(&self) -> (text: String)
        ensures
            text@ == self@.no_matches(),
    {
        if self.entries.len() == 0 {
            "No finders configured".to_owned()
        } else {
            "No matches".to_owned()
        }
    }

    /// Takes in a change of the Query and says what is to be listed.
    pub fn update_matches(&self, query: &str) -> (plan: ListPlan)
        ensures
            plan.deep_view() == self@.plan(query@),
    {
        if !query.is_empty() {
            return ListPlan::Match { query: query.to_owned(), limit: MAX_LIST_MATCHES };
        }
        let mut matches: Vec<StringMatch> = Vec::new();
        let mut i: usize = 0;
        while i < self.entries.len()
            invariant
                i <= self.entries@.len(),
                matches@.len() == i,
                forall|j: int|
                    0 <= j < i ==> (#[trigger] matches@[j]).deep_view()
                        == crate::delegate::unmarked(
                        j as nat,
                        self.entries@[j].deep_view().label(),
                    ),
            decreases self.entries@.len() - i,
        {
            let found = StringMatch {
                candidate_id: i,
                positions: Vec::new(),
                string: self.entries[i].label(),
            };
            assert(found.deep_view() == crate::delegate::unmarked(
                i as nat,
                self.entries@[i as int].deep_view().label(),
            ));
            matches.push(found);
            i += 1;
        }
        assert(matches.deep_view() =~= self@.unfiltered());
        ListPlan::List(matches)
    }

    /// Lists new matches, with the first selected.
    pub fn install_matches(&mut self, matches: Vec<StringMatch>)
        ensures
            final(self)@ == (FinderListView {
                matches: matches.deep_view(),
                selected_index: 0,
                ..old(self)@
            }),
    {
        self.matches = matches;
        self.selected_index = 0;
    }

    /// What is listed at a place, with what is to be marked in it.
    pub fn match_at(&self, i: usize) -> (found: Option<&StringMatch>)
        ensures
            found.deep_view() == (if i < self@.matches.len() {
                Some(self@.matches[i as int])
            } else {
                None
            }),
    {
        if i < self.matches.len() {
            Some(&self.matches[i])
        } else {
            None
        }
    }

    /// The row that is listed at a place.
    pub fn entry_at(&self, i: usize) -> (entry: Option<&FinderListEntry>)
        ensures
            entry.deep_view() == self@.row(i as nat),
    {
        if i < self.matches.len() {
            let id = self.matches[i].candidate_id;
            if id < self.entries.len() {
                return Some(&self.entries[id]);
            }
        }
        None
    }

    /// The row that is selected.
    pub fn selected_entry(&self) -> (entry: Option<&FinderListEntry>)
        ensures
            entry.deep_view() == self@.row(self@.selected_index),
    {
        self.entry_at(self.selected_index)
    }

    /// The name of the Finder to open, where a row is selected.
    pub fn confirm(&self) -> (name: Option<String>)
        ensures
            name.deep_view() == (match self@.row(self@.selected_index) {
                Some(entry) => Some(entry.name()),
                None => None,
            }),
    {
        match self.selected_entry() {
            Some(entry) => Some(entry.name().to_owned()),
            None => None,
        }
    }
}

/// Without a Query every row is listed, each at its own place.
pub proof fn law_unfiltered_list_is_complete(list: FinderListView, i: nat)
    requires
        i < list.entries.len(),
    ensures
        (FinderListView { matches: list.unfiltered(), ..list }).row(i) == Some(
            list.entries[i as int],
        ),
        list.unfiltered().len() == list.entries.len(),
{
}

/// Confirming a row of the list opens the Finder of that row, or says why it
/// failed to load.
pub proof fn law_confirm_opens_the_row(
    registry: crate::registry::RegistryView,
    list: FinderListView,
    i: nat,
    cwd: Seq<char>,
)
    requires
        registry.wf(),
        list.entries == registry.entries(),
        list.row(i) is Some,
    ensures
        match list.row(i)->0 {
            crate::registry::FinderListEntryView::Finder(config) => crate::open::opened(
                registry.lookup(list.row(i)->0.name()),
                list.row(i)->0.name(),
                Some(cwd),
            ) == (crate::open::OpenFinderView::Show { config, cwd }),
            crate::registry::FinderListEntryView::Broken { name, error } => crate::open::opened(
                registry.lookup(name),
                name,
                Some(cwd),
            ) == crate::open::OpenFinderView::ShowError(
                "Finder `"@ + name + "` failed to load: "@ + error,
            ),
        },
{
    crate::registry::law_rows_resolve(registry, list.matches[i as int].candidate_id as int);
}

/// A Query is matched against the labels of all rows, each in its place, up to
/// the limit; without one every row is listed by its label, unmarked.
pub proof fn law_queries_match_the_labels(list: FinderListView, query: Seq<char>)
    ensures
        list.labels().len() == list.entries.len(),
        forall|i: int|
            0 <= i < list.entries.len() ==> #[trigger] list.labels()[i] == list.entries[i].label(),
        query.len() > 0 ==> list.plan(query) == (ListPlanView::Match { query, limit: 100 }),
        query.len() == 0 ==> (list.plan(query) matches ListPlanView::List(matches) && matches.len()
            == list.entries.len() && forall|i: int|
            0 <= i < matches.len() ==> (#[trigger] matches[i]).string == list.entries[i].label()
                && matches[i].candidate_id == i && matches[i].positions.len() == 0),
{
}

/// What is listed at a place is the row that its match was made from, whatever
/// the order of the matches.
pub proof fn law_matches_lead_back_to_their_rows(list: FinderListView, i: nat)
    ensures
        i >= list.matches.len() ==> list.row(i) is None,
        i < list.matches.len() && list.matches[i as int].candidate_id < list.entries.len()
            ==> list.row(i) == Some(list.entries[list.matches[i as int].candidate_id as int]),
        list.entries.len() == 0 ==> list.row(i) is None && list.no_matches()
            == "No finders configured"@,
        list.entries.len() > 0 ==> list.no_matches() == "No matches"@,
{
}

} // verus!
