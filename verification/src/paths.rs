//! Paths given as text: their extension, file name and components, as
//! `std::path::Path` reads them.
use vstd::prelude::*;

verus! {

/// The index of the last `.` among the first `end` characters of `name`,
/// or -1 when there is none.
pub open spec fn last_dot_before(name: Seq<char>, end: int) -> int
    decreases end,
{
    if end <= 0 {
        -1
    } else if name[end - 1] == '.' {
        end - 1
    } else {
        last_dot_before(name, end - 1)
    }
}

/// The extension of a file name: the part after its last `.`, when that
/// `.` is not the name's first character.
pub open spec fn name_extension(name: Seq<char>) -> Option<Seq<char>> {
    let i = last_dot_before(name, name.len() as int);
    if i > 0 {
        Some(name.subrange(i + 1, name.len() as int))
    } else {
        None
    }
}

/// What `Path::extension` gives for a path given as text, as its
/// documentation says: nothing when there is no file name, else the
/// extension of the file name.
pub open spec fn path_extension(path: Seq<char>) -> Option<Seq<char>> {
    match path_file_name(path) {
        Some(name) => name_extension(name),
        None => None,
    }
}

/// Calls `std::path::Path::extension` on the path: none when there is no
/// file name, no `.` in it, or only a leading one; else the part of the
/// file name after its last `.`. The extension of a path given as text is
/// itself text, so the conversion back loses nothing.
#[verifier::external_body]
pub(crate) fn extension_of(path: &str) -> (r: Option<String>)
    ensures
        match r {
            Some(e) => path_extension(path@) == Some(e@),
            None => path_extension(path@) is None,
        },
{
    std::path::Path::new(path).extension().map(|e| e.to_string_lossy().into_owned())
}

/// The extension of `path`, or the empty text when it has none.
pub open spec fn extension_or_empty(path: Seq<char>) -> Seq<char> {
    match path_extension(path) {
        Some(e) => e,
        None => Seq::empty(),
    }
}

/// Returns the extension of `path`, or the empty text when it has none.
pub fn extension_or_empty_of(path: &str) -> (r: String)
    ensures
        r@ == extension_or_empty(path@),
{
    match extension_of(path) {
        Some(e) => e,
        None => String::new(),
    }
}

/// Names the result of `Path::file_name` on a path given as text: its last
/// component, unless that is `..`.
pub uninterp spec fn path_file_name(path: Seq<char>) -> Option<Seq<char>>;

/// Calls `std::path::Path::file_name` on the path; the name of a path given
/// as text is itself text.
#[verifier::external_body]
pub(crate) fn file_name_of(path: &str) -> (r: Option<String>)
    ensures
        match r {
            Some(n) => path_file_name(path@) == Some(n@),
            None => path_file_name(path@) is None,
        },
{
    std::path::Path::new(path).file_name().map(|n| n.to_string_lossy().into_owned())
}

/// The file name of `path`, or the empty text when it has none.
pub open spec fn file_name_or_empty(path: Seq<char>) -> Seq<char> {
    match path_file_name(path) {
        Some(n) => n,
        None => Seq::empty(),
    }
}

/// Returns the file name of `path`, or the empty text when it has none.
pub fn file_name_or_empty_of(path: &str) -> (r: String)
    ensures
        r@ == file_name_or_empty(path@),
{
    match file_name_of(path) {
        Some(n) => n,
        None => String::new(),
    }
}

/// Names the result of `Path::components` on a path given as text: for each
/// component, whether it is a normal component (a name, not the root, a
/// prefix, `.` or `..`) and its text.
pub uninterp spec fn path_components(path: Seq<char>) -> Seq<(bool, Seq<char>)>;

/// The components as kinds and texts.
pub open spec fn components_view(v: Seq<(bool, String)>) -> Seq<(bool, Seq<char>)> {
    v.map_values(|c: (bool, String)| (c.0, c.1@))
}

/// Calls `std::path::Path::components` on the path and gives, for each
/// component, whether it is `Component::Normal` and its text
/// (`Component::as_os_str`). The components of a path given as text are
/// themselves text.
#[verifier::external_body]
pub(crate) fn components_of(path: &str) -> (r: Vec<(bool, String)>)
    ensures
        components_view(r@) == path_components(path@),
{
    std::path::Path::new(path).components().map(|c| match c {
        std::path::Component::Normal(n) => (true, n.to_string_lossy().into_owned()),
        other => (false, other.as_os_str().to_string_lossy().into_owned()),
    }).collect()
}

/// Two paths name the same place when their components agree: the same
/// kinds with the same texts. `Path`'s `==` compares paths by their
/// components in this way (a trailing `/` or an inner `.` makes no
/// component), so on paths without a Windows prefix the two agree.
pub open spec fn same_path(a: Seq<char>, b: Seq<char>) -> bool {
    path_components(a) == path_components(b)
}

/// Compares two lists of components.
pub fn same_components(a: &Vec<(bool, String)>, b: &Vec<(bool, String)>) -> (r: bool)
    ensures
        r == (components_view(a@) == components_view(b@)),
{
    if a.len() != b.len() {
        assert(components_view(a@).len() != components_view(b@).len());
        return false;
    }
    let mut i: usize = 0;
    while i < a.len()
        invariant
            a@.len() == b@.len(),
            i <= a@.len(),
            forall|k: int| 0 <= k < i ==> components_view(a@)[k] == components_view(b@)[k],
        decreases a.len() - i,
    {
        if a[i].0 != b[i].0 || !crate::text::str_eq(a[i].1.as_str(), b[i].1.as_str()) {
            assert(components_view(a@)[i as int] != components_view(b@)[i as int]);
            return false;
        }
        i += 1;
    }
    assert(components_view(a@) =~= components_view(b@));
    true
}

} // verus!
