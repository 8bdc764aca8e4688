//! Paths as the runtime's scripts see them: UTF-8, `/`-separated, relative.
use vstd::prelude::*;
use vstd::utf8::{decode_utf8, valid_utf8};
use crate::text::{chars_of, str_eq, string_of_range, views};
use typed_path::{
    NativePath, Utf8NativeEncoding, Utf8NativePath, Utf8UnixComponent, Utf8UnixEncoding,
    Utf8UnixPath, Utf8UnixPathBuf,
};

verus! {

/// A part of a path.
#[derive(Debug, PartialEq, Eq)]
pub enum PathComponent {
    /// The leading `/`.
    RootDir,
    /// A `.` that the path keeps (only at its start).
    CurDir,
    /// `..`.
    ParentDir,
    /// A name.
    Normal(String),
}

/// What a `PathComponent` stands for.
pub enum ComponentView {
    RootDir,
    CurDir,
    ParentDir,
    Normal(Seq<char>),
}

impl View for PathComponent {
    type V = ComponentView;

    open spec fn view(&self) -> ComponentView {
        match self {
            PathComponent::RootDir => ComponentView::RootDir,
            PathComponent::CurDir => ComponentView::CurDir,
            PathComponent::ParentDir => ComponentView::ParentDir,
            PathComponent::Normal(s) => ComponentView::Normal(s@),
        }
    }
}

/// Why a path was refused.
#[derive(Debug, PartialEq, Eq)]
pub enum PathError {
    /// Absolute paths are not allowed.
    AbsolutePath,
    /// The path ends in `..` or is a root: it has no final name.
    NoFileName,
    /// The path has no parent directory.
    NoParent,
    /// A path from the system is not valid UTF-8; the message of the conversion error.
    InvalidUtf8(String),
}

/// `Utf8UnixPath::components`, each component by its view.
pub uninterp spec fn unix_components(p: Seq<char>) -> Seq<ComponentView>;

/// `Utf8UnixPath::iter`: the components as text (the root as `/`).
pub uninterp spec fn unix_iter(p: Seq<char>) -> Seq<Seq<char>>;

/// `Utf8UnixPath::file_name`: the final component if it is a name.
pub uninterp spec fn unix_file_name(p: Seq<char>) -> Option<Seq<char>>;

/// `Utf8UnixPath::parent`: the path without its final component, unless that is the root
/// or there is none.
pub uninterp spec fn unix_parent(p: Seq<char>) -> Option<Seq<char>>;

/// `Utf8UnixPath::extension`.
pub uninterp spec fn unix_extension(p: Seq<char>) -> Option<Seq<char>>;

/// `Utf8UnixPath::file_stem`.
pub uninterp spec fn unix_file_stem(p: Seq<char>) -> Option<Seq<char>>;

/// `Utf8UnixPathBuf::push`.
pub uninterp spec fn unix_push(p: Seq<char>, q: Seq<char>) -> Seq<char>;

/// `Utf8UnixPath::with_encoding::<Utf8NativeEncoding>`: the path in the platform's own form.
pub uninterp spec fn native_of_unix(p: Seq<char>) -> Seq<char>;

/// `Utf8NativePath::is_absolute`.
pub uninterp spec fn native_is_absolute(p: Seq<char>) -> bool;

/// `Utf8NativePath::with_encoding::<Utf8UnixEncoding>`: a platform path in `/`-separated form.
pub uninterp spec fn unix_of_native(p: Seq<char>) -> Seq<char>;

/// `Utf8PathBuf::set_file_name`, as its documentation describes it: with no file name it
/// pushes the name, otherwise it truncates to the parent (if any) and pushes the name.
pub open spec fn unix_set_file_name(p: Seq<char>, name: Seq<char>) -> Seq<char> {
    match unix_file_name(p) {
        None => unix_push(p, name),
        Some(_) => match unix_parent(p) {
            Some(q) => unix_push(q, name),
            None => unix_push(p, name),
        },
    }
}

#[verifier::external_body]
fn components_of(p: &str) -> (r: Vec<PathComponent>)
    ensures
        r@.map_values(|c: PathComponent| c@) == unix_components(p@),
{
    Utf8UnixPath::new(p).components().map(|c| match c {
        Utf8UnixComponent::RootDir => PathComponent::RootDir,
        Utf8UnixComponent::CurDir => PathComponent::CurDir,
        Utf8UnixComponent::ParentDir => PathComponent::ParentDir,
        Utf8UnixComponent::Normal(v) => PathComponent::Normal(v.to_string()),
    }).collect()
}

#[verifier::external_body]
fn iter_of(p: &str) -> (r: Vec<String>)
    ensures
        views(r@) == unix_iter(p@),
{
    Utf8UnixPath::new(p).iter().map(|s| s.to_string()).collect()
}

#[verifier::external_body]
fn file_name_of(p: &str) -> (r: Option<String>)
    ensures
        r matches Some(s) ==> unix_file_name(p@) == Some(s@),
        r is None ==> unix_file_name(p@) is None,
{
    Utf8UnixPath::new(p).file_name().map(|s| s.to_string())
}

#[verifier::external_body]
fn parent_of(p: &str) -> (r: Option<String>)
    ensures
        r matches Some(s) ==> unix_parent(p@) == Some(s@),
        r is None ==> unix_parent(p@) is None,
{
    Utf8UnixPath::new(p).parent().map(|s| s.as_str().to_string())
}

#[verifier::external_body]
fn extension_of(p: &str) -> (r: Option<String>)
    ensures
        r matches Some(s) ==> unix_extension(p@) == Some(s@),
        r is None ==> unix_extension(p@) is None,
{
    Utf8UnixPath::new(p).extension().map(|s| s.to_string())
}

#[verifier::external_body]
fn file_stem_of(p: &str) -> (r: Option<String>)
    ensures
        r matches Some(s) ==> unix_file_stem(p@) == Some(s@),
        r is None ==> unix_file_stem(p@) is None,
{
    Utf8UnixPath::new(p).file_stem().map(|s| s.to_string())
}

/// `Utf8UnixPathBuf::push`.
#[verifier::external_body]
fn push_path(p: &mut String, q: &str)
    ensures
        final(p)@ == unix_push(old(p)@, q@),
{
    let mut buf = Utf8UnixPathBuf::from(p.as_str());
    buf.push(q);
    *p = buf.into_string();
}

/// `Utf8UnixPathBuf::pop`: truncates to the parent and answers `true`, or answers `false`
/// and leaves the path as it is when there is no parent.
#[verifier::external_body]
fn pop_path(p: &mut String) -> (ok: bool)
    ensures
        ok == unix_parent(old(p)@) is Some,
        ok ==> Some(final(p)@) == unix_parent(old(p)@),
        !ok ==> final(p)@ == old(p)@,
{
    let mut buf = Utf8UnixPathBuf::from(p.as_str());
    let ok = buf.pop();
    *p = buf.into_string();
    ok
}

/// `Utf8UnixPathBuf::set_file_name`.
#[verifier::external_body]
fn set_file_name_of(p: &str, name: &str) -> (r: String)
    ensures
        r@ == unix_set_file_name(p@, name@),
{
    let mut buf = Utf8UnixPathBuf::from(p);
    buf.set_file_name(name);
    buf.into_string()
}

#[verifier::external_body]
fn native_of(p: &str) -> (r: String)
    ensures
        r@ == native_of_unix(p@),
{
    Utf8UnixPath::new(p).with_encoding::<Utf8NativeEncoding>().into_string()
}

#[verifier::external_body]
fn native_absolute(p: &str) -> (r: bool)
    ensures
        r == native_is_absolute(p@),
{
    Utf8NativePath::new(p).is_absolute()
}

/// `Utf8NativePath::from_bytes_path` of `NativePath::new(bytes)`: accepts exactly the valid
/// UTF-8, whose text it keeps.
#[verifier::external_body]
fn native_from_bytes(bytes: &[u8]) -> (r: Result<String, String>)
    ensures
        r is Ok <==> valid_utf8(bytes@),
        r matches Ok(s) ==> s@ == decode_utf8(bytes@),
{
    match Utf8NativePath::from_bytes_path(NativePath::new(bytes)) {
        Ok(p) => Ok(p.as_str().to_string()),
        Err(e) => Err(e.to_string()),
    }
}

#[verifier::external_body]
fn unix_of(p: &str) -> (r: String)
    ensures
        r@ == unix_of_native(p@),
{
    Utf8NativePath::new(p).with_encoding::<Utf8UnixEncoding>().into_string()
}

/// The system path for a script's path, which must be relative.
pub fn lstr_to_system_path(path: &str) -> (r: Result<String, PathError>)
    ensures
        r is Err <==> native_is_absolute(native_of_unix(path@)),
        r matches Err(e) ==> e == PathError::AbsolutePath,
        r matches Ok(s) ==> s@ == native_of_unix(path@),
{
    let native = native_of(path);
    if native_absolute(native.as_str()) {
        Err(PathError::AbsolutePath)
    } else {
        Ok(native)
    }
}

/// A system path, given by its bytes, in the `/`-separated form scripts see; it must be
/// valid UTF-8.
pub fn system_path_to_path(bytes: &[u8]) -> (r: Result<String, PathError>)
    ensures
        r is Ok <==> valid_utf8(bytes@),
        r matches Ok(s) ==> s@ == unix_of_native(decode_utf8(bytes@)),
        r matches Err(e) ==> e is InvalidUtf8,
{
    match native_from_bytes(bytes) {
        Ok(p) => Ok(unix_of(p.as_str())),
        Err(m) => Err(PathError::InvalidUtf8(m)),
    }
}

/// The final name of a path.
pub fn basename(path: &str) -> (r: Result<String, PathError>)
    ensures
        r is Ok <==> unix_file_name(path@) is Some,
        r matches Ok(s) ==> unix_file_name(path@) == Some(s@),
        r matches Err(e) ==> e == PathError::NoFileName,
{
    match file_name_of(path) {
        Some(n) => Ok(n),
        None => Err(PathError::NoFileName),
    }
}

/// The directory that holds a path.
pub fn dirname(path: &str) -> (r: Result<String, PathError>)
    ensures
        r is Ok <==> unix_parent(path@) is Some,
        r matches Ok(s) ==> unix_parent(path@) == Some(s@),
        r matches Err(e) ==> e == PathError::NoParent,
{
    match parent_of(path) {
        Some(n) => Ok(n),
        None => Err(PathError::NoParent),
    }
}

/// The extension of a path's final name, if it has one.
pub fn get_extension(path: &str) -> (r: Option<String>)
    ensures
        r matches Some(s) ==> unix_extension(path@) == Some(s@),
        r is None ==> unix_extension(path@) is None,
{
    extension_of(path)
}

/// The path with the last extension of its final name removed.
pub fn strip_extension(path: &str) -> (r: Result<String, PathError>)
    ensures
        r is Ok <==> unix_file_stem(path@) is Some,
        r matches Ok(s) ==> s@ == unix_set_file_name(path@, unix_file_stem(path@).unwrap()),
        r matches Err(e) ==> e == PathError::NoFileName,
{
    match file_stem_of(path) {
        Some(stem) => Ok(set_file_name_of(path, stem.as_str())),
        None => Err(PathError::NoFileName),
    }
}

/// The pieces of `s` between the occurrences of `c` (`str::split(c)`).
pub open spec fn split_at_char(s: Seq<char>, c: char) -> Seq<Seq<char>>
    decreases s.len(),
{
    if s.len() == 0 {
        seq![Seq::<char>::empty()]
    } else {
        let p = split_at_char(s.drop_last(), c);
        if s.last() == c {
            p.push(Seq::<char>::empty())
        } else {
            p.update(p.len() - 1, p.last().push(s.last()))
        }
    }
}

proof fn lemma_split_at_char_len(s: Seq<char>, c: char)
    ensures
        split_at_char(s, c).len() >= 1,
    decreases s.len(),
{
    if s.len() > 0 {
        lemma_split_at_char_len(s.drop_last(), c);
    }
}

/// `name.split('.')`, each piece as a `String`.
fn split_dots(name: &str) -> (r: Vec<String>)
    ensures
        views(r@) == split_at_char(name@, '.'),
        r.len() >= 1,
{
    let chars = chars_of(name);
    let mut out: Vec<String> = Vec::new();
    let mut start: usize = 0;
    let mut i: usize = 0;
    assert(chars@.take(0) == Seq::<char>::empty());
    assert(chars@.subrange(0, 0) == Seq::<char>::empty());
    while i < chars.len()
        invariant
            start <= i <= chars.len(),
            chars@ == name@,
            split_at_char(chars@.take(i as int), '.') == views(out@).push(
                chars@.subrange(start as int, i as int),
            ),
        decreases chars.len() - i,
    {
        assert(chars@.take(i + 1).drop_last() == chars@.take(i as int));
        if chars[i] == '.' {
            let piece = string_of_range(&chars, start, i);
            let ghost before = out@;
            out.push(piece);
            assert(views(out@) == views(before).push(chars@.subrange(start as int, i as int)));
            assert(chars@.subrange(i + 1, i + 1) == Seq::<char>::empty());
            start = i + 1;
        } else {
            assert(chars@.subrange(start as int, i + 1) == chars@.subrange(
                start as int,
                i as int,
            ).push(chars@[i as int]));
        }
        i = i + 1;
    }
    let last = string_of_range(&chars, start, i);
    let ghost before = out@;
    out.push(last);
    assert(views(out@) == views(before).push(last@));
    assert(chars@.take(i as int) == chars@);
    out
}

/// The extensions of the path's final name: the parts after each `.`.
pub open spec fn extensions_of(name: Seq<char>) -> Seq<Seq<char>> {
    split_at_char(name, '.').drop_first()
}

/// The extensions of a path's final name, in order (for `a.tar.gz`: `tar`, `gz`).
pub fn get_extensions(path: &str) -> (r: Result<Vec<String>, PathError>)
    ensures
        r is Ok <==> unix_file_name(path@) is Some,
        r matches Ok(v) ==> views(v@) == extensions_of(unix_file_name(path@).unwrap()),
        r matches Err(e) ==> e == PathError::NoFileName,
{
    let name = basename(path)?;
    let pieces = split_dots(name.as_str());
    let mut out: Vec<String> = Vec::new();
    let mut i: usize = 1;
    while i < pieces.len()
        invariant
            1 <= i <= pieces.len(),
            views(out@) == views(pieces@).subrange(1, i as int),
        decreases pieces.len() - i,
    {
        let ghost before = out@;
        out.push(pieces[i].clone());
        assert(views(out@) == views(before).push(pieces@[i as int]@));
        assert(views(pieces@).subrange(1, i + 1) == views(pieces@).subrange(1, i as int).push(
            views(pieces@)[i as int],
        ));
        i = i + 1;
    }
    assert(views(pieces@).subrange(1, pieces.len() as int) == views(pieces@).drop_first());
    Ok(out)
}

/// Whether `extension` is one of the extensions of the path's final name.
pub fn has_extension(path: &str, extension: &str) -> (r: Result<bool, PathError>)
    ensures
        r is Ok <==> unix_file_name(path@) is Some,
        r matches Ok(b) ==> b == extensions_of(unix_file_name(path@).unwrap()).contains(
            extension@,
        ),
        r matches Err(e) ==> e == PathError::NoFileName,
{
    let exts = get_extensions(path)?;
    let mut i: usize = 0;
    while i < exts.len()
        invariant
            i <= exts.len(),
            unix_file_name(path@) is Some,
            views(exts@) == extensions_of(unix_file_name(path@).unwrap()),
            forall|k: int| 0 <= k < i ==> exts@[k]@ != extension@,
        decreases exts.len() - i,
    {
        if str_eq(exts[i].as_str(), extension) {
            assert(views(exts@)[i as int] == extension@);
            return Ok(true);
        }
        i = i + 1;
    }
    proof {
        if views(exts@).contains(extension@) {
            let k = choose|k: int| 0 <= k < views(exts@).len() && views(exts@)[k] == extension@;
            assert(exts@[k]@ == extension@);
        }
    }
    Ok(false)
}

/// The path with every extension of its final name removed: the name is cut at its
/// first `.`.
pub fn strip_all_extensions(path: &str) -> (r: Result<String, PathError>)
    ensures
        r is Ok <==> unix_file_name(path@) is Some,
        r matches Ok(s) ==> s@ == unix_set_file_name(
            path@,
            split_at_char(unix_file_name(path@).unwrap(), '.')[0],
        ),
        r matches Err(e) ==> e == PathError::NoFileName,
{
    let name = basename(path)?;
    let pieces = split_dots(name.as_str());
    assert(views(pieces@)[0] == pieces@[0]@);
    Ok(set_file_name_of(path, pieces[0].as_str()))
}

/// `path_b` read component by component onto `path_a`: the root and `.` are skipped, `..`
/// goes up (or is kept when there is nothing to go up from) and names are pushed.
pub open spec fn join_components(a: Seq<char>, comps: Seq<ComponentView>) -> Seq<char>
    decreases comps.len(),
{
    if comps.len() == 0 {
        a
    } else {
        let p = join_components(a, comps.drop_last());
        match comps.last() {
            ComponentView::RootDir => p,
            ComponentView::CurDir => p,
            ComponentView::ParentDir => match unix_parent(p) {
                Some(q) => q,
                None => unix_push(p, seq!['.', '.']),
            },
            ComponentView::Normal(v) => unix_push(p, v),
        }
    }
}

/// `path_b` joined onto `path_a`, as if `path_b` were relative, with `..` resolved where
/// `path_a` allows it.
pub fn join_path(path_a: &str, path_b: &str) -> (r: String)
    ensures
        r@ == join_components(path_a@, unix_components(path_b@)),
{
    let mut a = path_a.to_owned();
    let comps = components_of(path_b);
    let ghost cv = comps@.map_values(|c: PathComponent| c@);
    let mut i: usize = 0;
    while i < comps.len()
        invariant
            i <= comps.len(),
            cv == comps@.map_values(|c: PathComponent| c@),
            a@ == join_components(path_a@, cv.take(i as int)),
        decreases comps.len() - i,
    {
        assert(cv.take(i + 1).drop_last() == cv.take(i as int));
        assert(cv.take(i + 1).last() == comps@[i as int]@);
        match &comps[i] {
            PathComponent::RootDir => {},
            PathComponent::CurDir => {},
            PathComponent::ParentDir => {
                proof {
                    reveal_strlit("..");
                    assert(".."@ == seq!['.', '.']);
                }
                if !pop_path(&mut a) {
                    push_path(&mut a, "..");
                }
            },
            PathComponent::Normal(v) => {
                push_path(&mut a, v.as_str());
            },
        }
        i = i + 1;
    }
    assert(cv.take(comps.len() as int) == cv);
    a
}

/// The components of a path as text, the root as `/`.
pub fn split_path(path: &str) -> (r: Vec<String>)
    ensures
        views(r@) == unix_iter(path@),
{
    iter_of(path)
}

} // verus!
