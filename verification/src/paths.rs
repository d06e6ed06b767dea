//! Resolution of the storage directory.
//!
//! Snippets live under a single storage directory. Its path is chosen in
//! this order: an explicit path handed to the initialization command, else
//! the default location under the user's home directory,
//! `<home>/.local/share/snippetstore`. The functions here compute paths
//! only; creating the directory is the caller's task.

use vstd::prelude::*;
use vstd::string::StringExecFns;
use crate::errors::SnippetStoreError;

verus! {

/// The path fragment appended to the home directory to form the default
/// storage directory.
pub open spec fn default_suffix() -> Seq<char> {
    "/.local/share/snippetstore"@
}

/// The default storage directory for a given home directory.
pub open spec fn default_dir_spec(home: Seq<char>) -> Seq<char> {
    home + default_suffix()
}

/// The path of a snippet file inside a storage directory.
pub open spec fn joined_path_spec(dir: Seq<char>, name: Seq<char>) -> Seq<char> {
    dir + "/"@ + name
}

/// Computes the default storage directory, `<home>/.local/share/snippetstore`.
pub fn default_dir(home: &str) -> (r: String)
    ensures
        r@ == default_dir_spec(home@),
{
    let r = String::from_str(home).concat("/.local/share/snippetstore");
    proof {
        assert(r@ == default_dir_spec(home@));
    }
    r
}

/// Resolves the storage directory from the home directory alone, as every
/// operation except initialization does: the home directory must be known,
/// and the storage directory is the default location under it.
pub fn resolve_dir(home: Option<&str>) -> (r: Result<String, SnippetStoreError>)
    ensures
        home matches Some(h) ==> (r matches Ok(d) && d@ == default_dir_spec(h@)),
        home is None ==> (r matches Err(e) && e is ConfigurationError),
{
    match home {
        Some(h) => Ok(default_dir(h)),
        None => Err(SnippetStoreError::ConfigurationError),
    }
}

/// Chooses the directory that initialization will create: the explicit path
/// when one was given, else the default location under the home directory.
/// The home directory is needed only when no explicit path was given.
pub fn choose_init_dir(explicit: Option<String>, home: Option<&str>) -> (r: Result<
    String,
    SnippetStoreError,
>)
    ensures
        explicit matches Some(p) ==> (r matches Ok(d) && d == p),
        explicit is None ==> (home matches Some(h) ==> (r matches Ok(d) && d@ == default_dir_spec(
            h@,
        ))),
        explicit is None && home is None ==> (r matches Err(e) && e is ConfigurationError),
{
    match explicit {
        Some(p) => Ok(p),
        None => resolve_dir(home),
    }
}

/// The path of the snippet file `name` inside the storage directory `dir`,
/// `<dir>/<name>`.
pub fn snippet_path(dir: &str, name: &str) -> (r: String)
    ensures
        r@ == joined_path_spec(dir@, name@),
{
    let r = String::from_str(dir).concat("/").concat(name);
    proof {
        assert(r@ == joined_path_spec(dir@, name@));
    }
    r
}

} // verus!
