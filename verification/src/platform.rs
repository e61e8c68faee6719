//! How the machine writes paths.
use vstd::prelude::*;

verus! {

/// The machine that the program runs on, by how it writes paths. There is no
/// value but the one that [`Platform::current`] gives.
#[derive(Debug, Clone, Copy)]
pub struct Platform {
    separator: char,
}

impl View for Platform {
    type V = char;

    closed spec fn view(&self) -> char {
        self.separator
    }
}

/// Where a path lies where `/` separates its parts: an absolute one where it
/// says, a relative one under the working directory.
pub open spec fn slash_path(entry: Seq<char>, cwd: Seq<char>) -> Seq<char> {
    if entry.len() > 0 && entry[0] == '/' {
        entry
    } else if cwd.len() > 0 && cwd.last() != '/' {
        cwd + seq!['/'] + entry
    } else {
        cwd + entry
    }
}

/// What `std::path::Path::join` makes of a working directory and a path where
/// the given character separates the parts of a path.
pub uninterp spec fn joined_path(
    separator: char,
    entry: Seq<char>,
    cwd: Seq<char>,
) -> Seq<char>;

/// Where an Entry that is a path lies, seen from the working directory.
pub open spec fn entry_path(separator: char, entry: Seq<char>, cwd: Seq<char>) -> Seq<char> {
    if separator == '/' {
        slash_path(entry, cwd)
    } else {
        joined_path(separator, entry, cwd)
    }
}

/// `std::path::MAIN_SEPARATOR`. The contract claims nothing of which character
/// it is.
#[verifier::external_body]
fn main_separator() -> (separator: char) {
    std::path::MAIN_SEPARATOR
}

impl Platform {
    /// The machine that the program runs on.
    pub fn current() -> (platform: Platform) {
        Platform { separator: main_separator() }
    }

    /// `std::path::Path::join`. Where `/` separates the parts of a path, the
    /// contract claims that an absolute path replaces the directory, and that
    /// another is put behind it with one separator between. Elsewhere it claims
    /// that the result is a function of both and of the separator.
    #[verifier::external_body]
    fn join(&self, cwd: &str, entry: &str) -> (path: String)
        ensures
            self@ == '/' ==> path@ == slash_path(entry@, cwd@),
            self@ != '/' ==> path@ == joined_path(self@, entry@, cwd@),
    {
        std::path::Path::new(cwd).join(entry).to_string_lossy().into_owned()
    }

    /// Resolves an Entry that is a path against the working directory.
    pub fn resolve(&self, entry: &str, cwd: &str) -> (path: String)
        ensures
            path@ == entry_path(self@, entry@, cwd@),
    {
        self.join(cwd, entry)
    }
}

// ---------------------------------------------------------------------------
// Laws
// ---------------------------------------------------------------------------
/// Where `/` separates the parts of a path, one that is absolute is the same
/// from every working directory, and one that was resolved against an absolute
/// directory stays as it is.
pub proof fn law_resolving_twice(entry: Seq<char>, cwd: Seq<char>, other: Seq<char>)
    ensures
        entry.len() > 0 && entry[0] == '/' ==> entry_path('/', entry, cwd) == entry,
        cwd.len() > 0 && cwd[0] == '/' ==> entry_path('/', entry_path('/', entry, cwd), other)
            == entry_path('/', entry, cwd),
{
}

/// Where `/` separates the parts of a path, one that is relative is put behind
/// its directory with one separator between, whether or not the directory ends
/// with one; without a directory it stays as it is.
pub proof fn law_relative_paths_lie_in_the_directory(entry: Seq<char>, cwd: Seq<char>)
    requires
        entry.len() == 0 || entry[0] != '/',
    ensures
        entry_path('/', entry, Seq::empty()) == entry,
        entry_path('/', entry, cwd.push('/')) == cwd + seq!['/'] + entry,
        cwd.len() > 0 && cwd.last() != '/' ==> entry_path('/', entry, cwd) == entry_path(
            '/',
            entry,
            cwd.push('/'),
        ),
{
    assert(cwd.push('/') + entry =~= cwd + seq!['/'] + entry);
    assert(Seq::<char>::empty() + entry =~= entry);
    assert(cwd.push('/').last() == '/');
}

} // verus!
