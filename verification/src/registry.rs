//! The Finders that are configured right now.
use std::sync::Arc;

use vstd::prelude::*;

use crate::config::FinderConfig;
use crate::document::{parse_document, TomlDocument};
use crate::names::NameMap;
use crate::parse::{read_document, ParsedConfig};

verus! {

/// The name of the configuration file.
pub const CONFIG_FILE_NAME: &'static str = "finders.toml";

/// `Arc::clone`. The contract claims that the new pointer points to the same
/// Finder.
#[verifier::external_body]
fn share(config: &Arc<FinderConfig>) -> (shared: Arc<FinderConfig>)
    ensures
        shared == *config,
{
    Arc::clone(config)
}

/// What a Finder name resolves to.
///
/// A Finder that failed to parse stays addressable so that opening it can
/// report the parse failure rather than claiming it does not exist.
#[derive(Debug)]
pub enum FinderLookup {
    Found(Arc<FinderConfig>),
    Broken { error: String },
    Missing,
}

/// What a [`FinderLookup`] says.
pub enum FinderLookupView {
    Found(crate::config::FinderConfigView),
    Broken { error: Seq<char> },
    Missing,
}

impl DeepView for FinderLookup {
    type V = FinderLookupView;

    open spec fn deep_view(&self) -> FinderLookupView {
        match self {
            FinderLookup::Found(config) => FinderLookupView::Found(config.deep_view()),
            FinderLookup::Broken { error } => FinderLookupView::Broken { error: error@ },
            FinderLookup::Missing => FinderLookupView::Missing,
        }
    }
}

/// One row of the Finder list.
#[derive(Debug)]
pub enum FinderListEntry {
    Finder(Arc<FinderConfig>),
    Broken { name: String, error: String },
}

/// What a [`FinderListEntry`] is.
pub enum FinderListEntryView {
    Finder(crate::config::FinderConfigView),
    Broken { name: Seq<char>, error: Seq<char> },
}

impl DeepView for FinderListEntry {
    type V = FinderListEntryView;

    open spec fn deep_view(&self) -> FinderListEntryView {
        match self {
            FinderListEntry::Finder(config) => FinderListEntryView::Finder(config.deep_view()),
            FinderListEntry::Broken { name, error } => FinderListEntryView::Broken {
                name: name@,
                error: error@,
            },
        }
    }
}

impl FinderListEntryView {
    /// The name that opens it.
    pub open spec fn name(self) -> Seq<char> {
        match self {
            FinderListEntryView::Finder(config) => config.name,
            FinderListEntryView::Broken { name, .. } => name,
        }
    }

    /// What is shown of it.
    pub open spec fn label(self) -> Seq<char> {
        match self {
            FinderListEntryView::Finder(config) => config.label,
            FinderListEntryView::Broken { name, .. } => name,
        }
    }
}

impl FinderListEntry {
    /// The name that opens it.
    pub fn name(&self) -> (name: &str)
        ensures
            name@ == self.deep_view().name(),
    {
        match self {
            FinderListEntry::Finder(config) => config.name.as_str(),
            FinderListEntry::Broken { name, .. } => name.as_str(),
        }
    }

    /// What is shown of it.
    pub fn label(&self) -> (label: String)
        ensures
            label@ == self.deep_view().label(),
    {
        match self {
            FinderListEntry::Finder(config) => config.label.clone(),
            FinderListEntry::Broken { name, .. } => name.clone(),
        }
    }
}

/// The Finders, why the others could not be loaded, each by ascending name,
/// and why the file as a whole could not be read.
pub struct RegistryView {
    pub finders: Seq<(Seq<char>, crate::config::FinderConfigView)>,
    pub errors: Seq<(Seq<char>, Seq<char>)>,
    pub file_error: Option<Seq<char>>,
}

impl RegistryView {
    /// The names ascend, no name is both a Finder and an error, and every
    /// Finder stands under its own name.
    pub open spec fn wf(self) -> bool {
        &&& crate::names::ascending(self.finders)
        &&& crate::names::ascending(self.errors)
        &&& forall|name: Seq<char>|
            !(crate::names::has_name(self.finders, name) && #[trigger] crate::names::has_name(
                self.errors,
                name,
            ))
        &&& forall|i: int|
            0 <= i < self.finders.len() ==> (#[trigger] self.finders[i]).1.name
                == self.finders[i].0
    }

    /// What the name resolves to.
    pub open spec fn lookup(self, name: Seq<char>) -> FinderLookupView {
        if crate::names::map_of(self.finders).dom().contains(name) {
            FinderLookupView::Found(crate::names::map_of(self.finders)[name])
        } else if crate::names::map_of(self.errors).dom().contains(name) {
            FinderLookupView::Broken { error: crate::names::map_of(self.errors)[name] }
        } else {
            FinderLookupView::Missing
        }
    }

    /// Every Finder and every failed Finder, in this order, by name.
    pub open spec fn entries(self) -> Seq<FinderListEntryView> {
        Seq::new(
            self.finders.len(),
            |i: int| FinderListEntryView::Finder(self.finders[i].1),
        ) + Seq::new(
            self.errors.len(),
            |i: int|
                FinderListEntryView::Broken { name: self.errors[i].0, error: self.errors[i].1 },
        )
    }

    /// Whether this is what the registry holds once the file was read as
    /// `config`: what the file defines, and nothing else. Where the file could
    /// not be read nothing in it is trusted.
    pub open spec fn holds(
        self,
        config: Result<crate::parse::ParsedConfigView, Seq<char>>,
    ) -> bool {
        match config {
            Ok(config) => {
                &&& crate::names::map_of(self.finders) == config.finders
                &&& crate::names::map_of(self.errors) == config.errors
                &&& self.file_error is None
            },
            Err(error) => {
                &&& self.finders.len() == 0
                &&& self.errors.len() == 0
                &&& self.file_error == Some(error)
            },
        }
    }
}

/// The Finders that are configured right now.
#[derive(Debug)]
pub struct FinderRegistry {
    finders: NameMap<Arc<FinderConfig>>,
    errors: NameMap<String>,
    file_error: Option<String>,
}

impl View for FinderRegistry {
    type V = RegistryView;

    closed spec fn view(&self) -> RegistryView {
        RegistryView {
            finders: self.finders.pairs(),
            errors: self.errors.pairs(),
            file_error: self.file_error.deep_view(),
        }
    }
}

impl FinderRegistry {
    /// A registry before any file was read.
    pub fn new() -> (registry: FinderRegistry)
        ensures
            registry@.wf(),
            registry@.finders.len() == 0,
            registry@.errors.len() == 0,
            registry@.file_error is None,
    {
        FinderRegistry { finders: NameMap::new(), errors: NameMap::new(), file_error: None }
    }

    /// Takes in a document that was parsed, and the contents that it was parsed
    /// from, in place of everything before.
    pub fn apply_document(&mut self, contents: &str, document: Result<TomlDocument, String>)
        ensures
            final(self)@.wf(),
            final(self)@.holds(
                crate::parse::document_config(contents@, crate::model::result_view(document)),
            ),
    {
        let ghost source = crate::model::result_view(document);
        match read_document(contents, document) {
            Ok(ParsedConfig { finders, errors }) => {
                proof {
                    lemma_parsed_is_wf(contents@, source, finders.pairs(), errors.pairs());
                }
                self.finders = finders;
                self.errors = errors;
                self.file_error = None;
            },
            Err(error) => {
                self.finders = NameMap::new();
                self.errors = NameMap::new();
                self.file_error = Some(error);
            },
        }
    }

    /// Takes in the contents of the file, in place of everything before.
    pub fn apply(&mut self, contents: &str)
        ensures
            final(self)@.wf(),
            final(self)@.holds(
                crate::parse::document_config(
                    contents@,
                    crate::document::toml_document(contents@),
                ),
            ),
    {
        self.apply_document(contents, parse_document(contents))
    }

    /// What the name resolves to.
    pub fn lookup(&self, name: &str) -> (found: FinderLookup)
        requires
            self@.wf(),
        ensures
            found.deep_view() == self@.lookup(name@),
    {
        if let Some(config) = self.finders.get(name) {
            return FinderLookup::Found(share(config));
        }
        if let Some(error) = self.errors.get(name) {
            return FinderLookup::Broken { error: error.clone() };
        }
        FinderLookup::Missing
    }

    /// Every Finder and every failed Finder, for the Finder list.
    pub fn entries(&self) -> (entries: Vec<FinderListEntry>)
        ensures
            entries.deep_view() == self@.entries(),
    {
        let mut entries: Vec<FinderListEntry> = Vec::new();
        let n = self.finders.len();
        let mut i: usize = 0;
        while i < n
            invariant
                i <= n,
                n == self@.finders.len(),
                entries@.len() == i,
                forall|j: int|
                    0 <= j < i ==> (#[trigger] entries@[j]).deep_view() == self@.entries()[j],
            decreases n - i,
        {
            let (_, config) = self.finders.at(i);
            entries.push(FinderListEntry::Finder(share(config)));
            assert(entries@[i as int].deep_view() == self@.entries()[i as int]);
            i += 1;
        }
        let m = self.errors.len();
        let mut k: usize = 0;
        while k < m
            invariant
                k <= m,
                n == self@.finders.len(),
                m == self@.errors.len(),
                entries@.len() == n + k,
                forall|j: int|
                    0 <= j < n + k ==> (#[trigger] entries@[j]).deep_view() == self@.entries()[j],
            decreases m - k,
        {
            let (name, error) = self.errors.at(k);
            entries.push(
                FinderListEntry::Broken { name: name.to_owned(), error: error.clone() },
            );
            assert(entries@[n + k].deep_view() == self@.entries()[n + k]);
            k += 1;
        }
        assert(entries.deep_view() =~= self@.entries());
        entries
    }

    /// Set when the configuration file as a whole could not be read.
    pub fn file_error(&self) -> (error: Option<&str>)
        ensures
            error.deep_view() == self@.file_error,
    {
        match &self.file_error {
            Some(error) => Some(error.as_str()),
            None => None,
        }
    }
}

proof fn lemma_parsed_is_wf(
    contents: Seq<char>,
    document: Result<crate::document::TomlDocumentView, Seq<char>>,
    finders: Seq<(Seq<char>, crate::config::FinderConfigView)>,
    errors: Seq<(Seq<char>, Seq<char>)>,
)
    requires
        crate::names::ascending(finders),
        crate::names::ascending(errors),
        crate::parse::document_config(contents, document) == Ok::<
            crate::parse::ParsedConfigView,
            Seq<char>,
        >(
            crate::parse::ParsedConfigView {
                finders: crate::names::map_of(finders),
                errors: crate::names::map_of(errors),
            },
        ),
    ensures
        (RegistryView { finders, errors, file_error: None }).wf(),
{
    let pairs = match crate::parse::finder_key(document->Ok_0.keys) {
        Some(_) => crate::parse::finder_pairs(document->Ok_0.tables->Ok_0),
        None => Seq::empty(),
    };
    let loaded = crate::parse::loaded_finders(pairs);
    assert(loaded.finders == crate::names::map_of(finders));
    assert(loaded.errors == crate::names::map_of(errors));
    assert forall|name: Seq<char>|
        !(crate::names::has_name(finders, name) && #[trigger] crate::names::has_name(
            errors,
            name,
        )) by {
        crate::parse::law_each_name_once(pairs, name);
        assert(crate::names::has_name(finders, name) == loaded.finders.dom().contains(name));
        assert(crate::names::has_name(errors, name) == loaded.errors.dom().contains(name));
    }
    assert forall|i: int| 0 <= i < finders.len() implies (#[trigger] finders[i]).1.name
        == finders[i].0 by {
        crate::names::lemma_ascending_value(finders, i);
        crate::parse::law_loaded_finders_are_usable(pairs, finders[i].0);
    }
}

// ---------------------------------------------------------------------------
// Laws
// ---------------------------------------------------------------------------
/// Reading the file again replaces everything: what the registry holds after
/// does not depend on what it held before, so a Finder that left the file is
/// gone.
pub proof fn law_reading_replaces_everything(
    first: RegistryView,
    second: RegistryView,
    config: Result<crate::parse::ParsedConfigView, Seq<char>>,
    name: Seq<char>,
)
    requires
        first.holds(config),
        second.holds(config),
    ensures
        first.lookup(name) == second.lookup(name),
        first.file_error == second.file_error,
        config matches Ok(config) ==> (first.lookup(name) is Found
            <==> config.finders.dom().contains(name)),
{
    if config is Err {
        assert(first.finders =~= second.finders);
        assert(first.errors =~= second.errors);
    }
}

/// A file that could not be read clears the registry: no name resolves, and
/// the error is kept.
pub proof fn law_unreadable_file_clears(
    registry: RegistryView,
    error: Seq<char>,
    name: Seq<char>,
)
    requires
        registry.holds(Err(error)),
    ensures
        registry.lookup(name) is Missing,
        registry.entries().len() == 0,
        registry.file_error == Some(error),
{
}

/// Every row of the list is opened by its own name: a Finder is found, and a
/// failed one says why it failed.
pub proof fn law_rows_resolve(registry: RegistryView, i: int)
    requires
        registry.wf(),
        0 <= i < registry.entries().len(),
    ensures
        match registry.entries()[i] {
            FinderListEntryView::Finder(config) => registry.lookup(registry.entries()[i].name())
                == FinderLookupView::Found(config),
            FinderListEntryView::Broken { name, error } => registry.lookup(name) == (
            FinderLookupView::Broken { error }),
        },
{
    let n = registry.finders.len();
    if i < n {
        assert(registry.entries()[i] == FinderListEntryView::Finder(registry.finders[i].1));
        crate::names::lemma_ascending_value(registry.finders, i);
    } else {
        let k = i - n;
        assert(registry.entries()[i] == (FinderListEntryView::Broken {
            name: registry.errors[k].0,
            error: registry.errors[k].1,
        }));
        crate::names::lemma_ascending_value(registry.errors, k);
        assert(crate::names::has_name(registry.errors, registry.errors[k].0));
    }
}

/// Every name that resolves has a row in the list.
pub proof fn law_names_have_rows(registry: RegistryView, name: Seq<char>)
    requires
        registry.wf(),
        !(registry.lookup(name) is Missing),
    ensures
        exists|i: int|
            0 <= i < registry.entries().len() && (#[trigger] registry.entries()[i]).name() == name,
{
    let n = registry.finders.len();
    if crate::names::has_name(registry.finders, name) {
        let i = choose|i: int|
            0 <= i < registry.finders.len() && (#[trigger] registry.finders[i]).0 == name;
        assert(registry.entries()[i] == FinderListEntryView::Finder(registry.finders[i].1));
    } else {
        let k = choose|k: int|
            0 <= k < registry.errors.len() && (#[trigger] registry.errors[k]).0 == name;
        assert(registry.entries()[n + k] == (FinderListEntryView::Broken {
            name: registry.errors[k].0,
            error: registry.errors[k].1,
        }));
    }
}

/// A name resolves to what the file that was read last makes of it: its Finder,
/// the reason why it could not be loaded, or nothing.
pub proof fn law_names_resolve_to_what_the_file_says(
    registry: RegistryView,
    config: crate::parse::ParsedConfigView,
    name: Seq<char>,
)
    requires
        registry.holds(Ok(config)),
    ensures
        config.finders.dom().contains(name) ==> registry.lookup(name) == FinderLookupView::Found(
            config.finders[name],
        ),
        !config.finders.dom().contains(name) && config.errors.dom().contains(name)
            ==> registry.lookup(name) == (FinderLookupView::Broken { error: config.errors[name] }),
        !config.finders.dom().contains(name) && !config.errors.dom().contains(name)
            ==> registry.lookup(name) is Missing,
        registry.file_error is None,
{
}

/// The list holds every Finder by ascending name, and behind them every failed
/// one by ascending name with the reason why it failed.
pub proof fn law_list_holds_all_by_name(registry: RegistryView)
    ensures
        registry.entries().len() == registry.finders.len() + registry.errors.len(),
        forall|i: int|
            0 <= i < registry.finders.len() ==> registry.entries()[i]
                == FinderListEntryView::Finder((#[trigger] registry.finders[i]).1),
        forall|i: int|
            0 <= i < registry.errors.len() ==> registry.entries()[registry.finders.len() + i] == (
            FinderListEntryView::Broken {
                name: (#[trigger] registry.errors[i]).0,
                error: registry.errors[i].1,
            }),
{
}

/// A row is opened by the name of its Finder and shown by its label; a failed
/// Finder has only its name for both.
pub proof fn law_rows_are_named(
    config: crate::config::FinderConfigView,
    name: Seq<char>,
    error: Seq<char>,
)
    ensures
        FinderListEntryView::Finder(config).name() == config.name,
        FinderListEntryView::Finder(config).label() == config.label,
        (FinderListEntryView::Broken { name, error }).name() == name,
        (FinderListEntryView::Broken { name, error }).label() == name,
{
}

/// The Finders of a registry stand under their own names, by ascending name, and
/// so do the reasons why others could not be loaded; no name has both.
pub proof fn law_registry_is_sorted_by_name(registry: RegistryView, i: int, j: int)
    requires
        registry.wf(),
    ensures
        0 <= i < j < registry.finders.len() ==> crate::names::before(
            registry.finders[i].1.name,
            registry.finders[j].1.name,
        ),
        0 <= i < j < registry.errors.len() ==> crate::names::before(
            registry.errors[i].0,
            registry.errors[j].0,
        ),
        0 <= i < registry.finders.len() && 0 <= j < registry.errors.len() ==> registry.finders[i].0
            != registry.errors[j].0,
        0 <= i < registry.finders.len() ==> registry.finders[i].1.name == registry.finders[i].0,
{
    if 0 <= i < registry.finders.len() && 0 <= j < registry.errors.len() {
        assert(crate::names::has_name(registry.finders, registry.finders[i].0));
        assert(registry.errors[j].0 == registry.finders[i].0 ==> crate::names::has_name(
            registry.errors,
            registry.finders[i].0,
        ));
    }
}

} // verus!
