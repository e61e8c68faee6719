//! Opening a Finder by name, and the list of all Finders.
use std::sync::Arc;

use vstd::prelude::*;

use crate::config::FinderConfig;
use crate::registry::{FinderListEntry, FinderLookup, FinderRegistry, CONFIG_FILE_NAME};

verus! {

/// Opens a configured Finder by name. Names are arguments of one action rather
/// than actions of their own, since they are known only once the file is read.
#[derive(Debug, Clone, PartialEq)]
pub struct Open {
    pub name: String,
}

/// What opening a Finder comes to.
#[derive(Debug)]
pub enum OpenFinder {
    /// Nothing was set up.
    Nothing,
    ShowError(String),
    /// Show the picker of the Finder, with its commands at `cwd`.
    Show { config: Arc<FinderConfig>, cwd: String },
}

/// What an [`OpenFinder`] is.
pub enum OpenFinderView {
    Nothing,
    ShowError(Seq<char>),
    Show { config: crate::config::FinderConfigView, cwd: Seq<char> },
}

impl DeepView for OpenFinder {
    type V = OpenFinderView;

    open spec fn deep_view(&self) -> OpenFinderView {
        match self {
            OpenFinder::Nothing => OpenFinderView::Nothing,
            OpenFinder::ShowError(message) => OpenFinderView::ShowError(message@),
            OpenFinder::Show { config, cwd } => OpenFinderView::Show {
                config: config.deep_view(),
                cwd: cwd@,
            },
        }
    }
}

/// What a lookup comes to: a picker where the Finder is there and a project is
/// open for it to run in, else the sentence that says what is missing.
pub open spec fn opened(
    lookup: crate::registry::FinderLookupView,
    name: Seq<char>,
    cwd: Option<Seq<char>>,
) -> OpenFinderView {
    match lookup {
        crate::registry::FinderLookupView::Found(config) => match cwd {
            Some(cwd) => OpenFinderView::Show { config, cwd },
            None => OpenFinderView::ShowError(
                "Finder `"@ + name + "` needs an open project to run in"@,
            ),
        },
        crate::registry::FinderLookupView::Broken { error } => OpenFinderView::ShowError(
            "Finder `"@ + name + "` failed to load: "@ + error,
        ),
        crate::registry::FinderLookupView::Missing => OpenFinderView::ShowError(
            "No finder named `"@ + name + "`"@,
        ),
    }
}

/// Opens a Finder by name. `cwd` is the root of the open project, where there
/// is one.
pub fn open_finder(registry: Option<&FinderRegistry>, name: &str, cwd: Option<&str>) -> (out:
    OpenFinder)
    requires
        registry matches Some(registry) ==> registry@.wf(),
    ensures
        out.deep_view() == (match registry {
            Some(registry) => opened(registry@.lookup(name@), name@, cwd.deep_view()),
            None => OpenFinderView::Nothing,
        }),
{
    let registry = match registry {
        Some(registry) => registry,
        None => return OpenFinder::Nothing,
    };
    match registry.lookup(name) {
        FinderLookup::Found(config) => match cwd {
            Some(cwd) => OpenFinder::Show { config, cwd: cwd.to_owned() },
            None => {
                let mut message = "Finder `".to_owned();
                message.append(name);
                message.append("` needs an open project to run in");
                OpenFinder::ShowError(message)
            },
        },
        FinderLookup::Broken { error } => {
            let mut message = "Finder `".to_owned();
            message.append(name);
            message.append("` failed to load: ");
            message.append(error.as_str());
            OpenFinder::ShowError(message)
        },
        FinderLookup::Missing => {
            let mut message = "No finder named `".to_owned();
            message.append(name);
            message.append("`");
            OpenFinder::ShowError(message)
        },
    }
}

/// What opening the list of Finders comes to.
#[derive(Debug)]
pub enum OpenFinderList {
    /// Nothing was set up.
    Nothing,
    ShowError(String),
    Show(Vec<FinderListEntry>),
}

/// What an [`OpenFinderList`] is.
pub enum OpenFinderListView {
    Nothing,
    ShowError(Seq<char>),
    Show(Seq<crate::registry::FinderListEntryView>),
}

impl DeepView for OpenFinderList {
    type V = OpenFinderListView;

    open spec fn deep_view(&self) -> OpenFinderListView {
        match self {
            OpenFinderList::Nothing => OpenFinderListView::Nothing,
            OpenFinderList::ShowError(message) => OpenFinderListView::ShowError(message@),
            OpenFinderList::Show(entries) => OpenFinderListView::Show(entries.deep_view()),
        }
    }
}

/// What a registry comes to: the list of its rows, unless the file could not
/// be read.
pub open spec fn list_opened(registry: crate::registry::RegistryView) -> OpenFinderListView {
    match registry.file_error {
        Some(error) => OpenFinderListView::ShowError(
            CONFIG_FILE_NAME@ + " could not be read: "@ + error,
        ),
        None => OpenFinderListView::Show(registry.entries()),
    }
}

/// Opens the list of every configured Finder.
pub fn open_finder_list(registry: Option<&FinderRegistry>) -> (out: OpenFinderList)
    ensures
        out.deep_view() == (match registry {
            Some(registry) => list_opened(registry@),
            None => OpenFinderListView::Nothing,
        }),
{
    let registry = match registry {
        Some(registry) => registry,
        None => return OpenFinderList::Nothing,
    };
    match registry.file_error() {
        Some(error) => {
            let mut message = CONFIG_FILE_NAME.to_owned();
            message.append(" could not be read: ");
            message.append(error);
            OpenFinderList::ShowError(message)
        },
        None => OpenFinderList::Show(registry.entries()),
    }
}

/// A Finder is shown only where its name resolves to one and a project is
/// open; in every other case a sentence says why not.
pub proof fn law_shown_or_explained(
    lookup: crate::registry::FinderLookupView,
    name: Seq<char>,
    cwd: Option<Seq<char>>,
)
    ensures
        opened(lookup, name, cwd) is Show <==> lookup is Found && cwd is Some,
        !(opened(lookup, name, cwd) is Show) ==> opened(lookup, name, cwd) is ShowError,
        opened(lookup, name, cwd) matches OpenFinderView::Show { config, cwd: shown } ==> lookup
            == crate::registry::FinderLookupView::Found(config) && cwd == Some(shown),
{
}

/// What keeps a Finder from opening is said with its name: that there is none,
/// why it failed to load, or that no project is open.
pub proof fn law_refusals_name_the_finder(
    config: crate::config::FinderConfigView,
    name: Seq<char>,
    error: Seq<char>,
    cwd: Option<Seq<char>>,
)
    ensures
        opened(crate::registry::FinderLookupView::Missing, name, cwd) == OpenFinderView::ShowError(
            "No finder named `"@ + name + "`"@,
        ),
        opened(crate::registry::FinderLookupView::Broken { error }, name, cwd)
            == OpenFinderView::ShowError("Finder `"@ + name + "` failed to load: "@ + error),
        opened(crate::registry::FinderLookupView::Found(config), name, None)
            == OpenFinderView::ShowError("Finder `"@ + name + "` needs an open project to run in"@),
{
}

/// The list opens with every row, whatever failed in them; only a file that
/// could not be read keeps it from opening, and then its error is told.
pub proof fn law_list_opens_with_every_row(registry: crate::registry::RegistryView)
    ensures
        registry.file_error is None ==> list_opened(registry) == OpenFinderListView::Show(
            registry.entries(),
        ),
        registry.file_error matches Some(error) ==> list_opened(registry)
            == OpenFinderListView::ShowError("finders.toml"@ + " could not be read: "@ + error),
{
}

} // verus!
