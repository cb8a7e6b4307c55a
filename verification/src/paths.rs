use vstd::prelude::*;

verus! {

/// What `Path::file_name` returns for a path, as characters.
pub uninterp spec fn path_file_name(p: Seq<char>) -> Option<Seq<char>>;

/// What `Path::parent` returns for a path, as characters.
pub uninterp spec fn path_parent(p: Seq<char>) -> Option<Seq<char>>;

/// What `Path::join` returns, as characters.
pub uninterp spec fn path_join(base: Seq<char>, rest: Seq<char>) -> Seq<char>;

/// What `Path::starts_with` answers (component-wise prefix).
pub uninterp spec fn path_starts_with(p: Seq<char>, base: Seq<char>) -> bool;

/// The parts of a path as `Path::components` yields them, in order, each
/// as its kind (see `part_view`) and, for a normal part, its name.
pub uninterp spec fn path_components(p: Seq<char>) -> Seq<(u8, Seq<char>)>;

/// `Path::file_name` on a path given as UTF-8 text; the result is the
/// final component as text, `None` for a path ending in `..` or for the root.
/// The contract only names the result; its shape is std's.
#[verifier::external_body]
pub(crate) fn file_name(p: &str) -> (r: Option<String>)
    ensures
        match r {
            Some(n) => path_file_name(p@) == Some(n@),
            None => path_file_name(p@) is None,
        },
{
    std::path::Path::new(p).file_name().map(|n| n.to_string_lossy().into_owned())
}

/// `Path::parent` on a path given as UTF-8 text.
#[verifier::external_body]
pub(crate) fn parent(p: &str) -> (r: Option<String>)
    ensures
        match r {
            Some(n) => path_parent(p@) == Some(n@),
            None => path_parent(p@) is None,
        },
{
    std::path::Path::new(p).parent().map(|n| n.to_string_lossy().into_owned())
}

/// `Path::join` on paths given as UTF-8 text.
#[verifier::external_body]
pub(crate) fn join(base: &str, rest: &str) -> (r: String)
    ensures
        r@ == path_join(base@, rest@),
{
    std::path::Path::new(base).join(rest).to_string_lossy().into_owned()
}

/// Two paths are the same path: `Path` equality, which compares the
/// components.
pub open spec fn paths_equal(a: Seq<char>, b: Seq<char>) -> bool {
    path_components(a) == path_components(b)
}

/// `Path == Path` on paths given as UTF-8 text: std compares the paths'
/// components, so the answer is whether `Path::components` gives the same
/// parts for both (for UTF-8 paths on Unix, which have no prefix, the
/// parts as `part_view` lays them out determine the components).
#[verifier::external_body]
pub(crate) fn same_path(a: &str, b: &str) -> (r: bool)
    ensures
        r == paths_equal(a@, b@),
{
    std::path::Path::new(a) == std::path::Path::new(b)
}

/// `Path::starts_with` on paths given as UTF-8 text.
#[verifier::external_body]
pub(crate) fn starts_with_path(p: &str, base: &str) -> (r: bool)
    ensures
        r == path_starts_with(p@, base@),
{
    std::path::Path::new(p).starts_with(base)
}

/// One part of a path (`std::path::Component`), a normal part's name as
/// text.
pub enum PathPart {
    Prefix,
    RootDir,
    CurDir,
    ParentDir,
    Normal(String),
}

/// A part as a plain value: its kind, numbered in the order in which
/// `Component` orders its variants (prefix, root, `.`, `..`, normal part),
/// and the name of a normal part (empty for the others; a Unix path has no
/// prefix).
pub open spec fn part_view(c: PathPart) -> (u8, Seq<char>) {
    match c {
        PathPart::Prefix => (0u8, Seq::empty()),
        PathPart::RootDir => (1u8, Seq::empty()),
        PathPart::CurDir => (2u8, Seq::empty()),
        PathPart::ParentDir => (3u8, Seq::empty()),
        PathPart::Normal(n) => (4u8, n@),
    }
}

/// The kind and name of a part, as `part_view` gives them.
pub fn part_key(c: &PathPart) -> (r: (u8, String))
    ensures
        (r.0, r.1@) == part_view(*c),
{
    match c {
        PathPart::Prefix => (0u8, String::new()),
        PathPart::RootDir => (1u8, String::new()),
        PathPart::CurDir => (2u8, String::new()),
        PathPart::ParentDir => (3u8, String::new()),
        PathPart::Normal(n) => (4u8, n.clone()),
    }
}

/// `Path::components` on a path given as UTF-8 text, each component turned
/// into a `PathPart`.
#[verifier::external_body]
pub(crate) fn components(p: &str) -> (r: Vec<PathPart>)
    ensures
        r@.map_values(|c: PathPart| part_view(c)) == path_components(p@),
{
    std::path::Path::new(p)
        .components()
        .map(|c| match c {
            std::path::Component::Prefix(_) => PathPart::Prefix,
            std::path::Component::RootDir => PathPart::RootDir,
            std::path::Component::CurDir => PathPart::CurDir,
            std::path::Component::ParentDir => PathPart::ParentDir,
            std::path::Component::Normal(n) => PathPart::Normal(n.to_string_lossy().into_owned()),
        })
        .collect()
}

/// A Unix path is absolute when it starts at the root (`Path::is_absolute`).
pub open spec fn is_absolute(p: Seq<char>) -> bool {
    p.len() > 0 && p[0] == '/'
}

pub fn path_is_absolute(p: &str) -> (r: bool)
    ensures
        r == is_absolute(p@),
{
    let v = crate::text::chars_of(p);
    v.len() > 0 && v[0] == '/'
}

} // verus!
