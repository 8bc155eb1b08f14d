//! The place of a rule document in the input tree.

use crate::model::opt_text;
use vstd::prelude::*;

verus! {

/// The place of a rule document: the name of the directory it lies in, which
/// is its category, and its own file name.
#[derive(Debug, Clone, PartialEq, Eq)]
pub struct SourceLocation {
    pub category: String,
    pub filename: String,
}

/// The last component of a path given as text, as `Path::file_name` of the
/// standard library finds it, or nothing where the path does not end in one.
/// The standard library splits a path by the path syntax of the platform that
/// the program is built for and works on the text of the path alone: it asks
/// neither the file system nor the environment, so that on one platform the
/// same path always has the same last component.
pub uninterp spec fn file_name_of(path: Seq<char>) -> Option<Seq<char>>;

/// A path given as text without its last component, as `Path::parent` of the
/// standard library finds it, or nothing where the path has no such part. It
/// is found from the text of the path alone, as the last component is.
pub uninterp spec fn parent_of(path: Seq<char>) -> Option<Seq<char>>;

/// `Path::file_name` of the standard library, on a path given as text: the
/// last component of the path, if the path ends in one. Which characters part
/// the components is the platform's matter, so the result is only named.
#[verifier::external_body]
fn path_file_name(path: &str) -> (name: Option<String>)
    ensures
        opt_text(name) == file_name_of(path@),
{
    std::path::Path::new(path).file_name().and_then(|n| n.to_str()).map(|s| s.to_owned())
}

/// `Path::parent` of the standard library, on a path given as text: the path
/// without its last component, if it has one. The result is only named, for
/// the same reason.
#[verifier::external_body]
fn path_parent(path: &str) -> (parent: Option<String>)
    ensures
        opt_text(parent) == parent_of(path@),
{
    std::path::Path::new(path).parent().and_then(|p| p.to_str()).map(|s| s.to_owned())
}

/// The name of the directory that the document at `path` lies in: the last
/// component of the path without its last component.
pub open spec fn directory_name_of(path: Seq<char>) -> Option<Seq<char>> {
    match parent_of(path) {
        Some(parent) => file_name_of(parent),
        None => None,
    }
}

/// The category that a directory name gives: the name itself, and `other`
/// where there is none.
pub open spec fn category_of(directory: Option<Seq<char>>) -> Seq<char> {
    match directory {
        Some(name) => name,
        None => "other"@,
    }
}

/// The file name that is stored for a document: its own, and `unknown.yaml`
/// where it has none.
pub open spec fn filename_of(file: Option<Seq<char>>) -> Seq<char> {
    match file {
        Some(name) => name,
        None => "unknown.yaml"@,
    }
}

impl SourceLocation {
    /// The place that the name of the parent directory and the file name
    /// give, each with its default where it is missing.
    pub fn from_names(directory: Option<String>, file: Option<String>) -> (r: SourceLocation)
        ensures
            r.category@ == category_of(opt_text(directory)),
            r.filename@ == filename_of(opt_text(file)),
    {
        let category = match directory {
            Some(name) => name,
            None => "other".to_owned(),
        };
        let filename = match file {
            Some(name) => name,
            None => "unknown.yaml".to_owned(),
        };
        SourceLocation { category, filename }
    }

    /// The place of the document at `path`: the last component of the path is
    /// the file name, and the name of the directory that holds it, which is the
    /// last component of the rest, is the category; each has its default
    /// where the path has no such component. The components are those that
    /// the platform's path rules find. The place depends on the path alone,
    /// so that the same path always gives the same place.
    pub fn of_path(path: &str) -> (r: SourceLocation)
        ensures
            r.category@ == category_of(directory_name_of(path@)),
            r.filename@ == filename_of(file_name_of(path@)),
    {
        let directory = match path_parent(path) {
            Some(parent) => path_file_name(parent.as_str()),
            None => None,
        };
        let file = path_file_name(path);
        SourceLocation::from_names(directory, file)
    }
}

} // verus!
