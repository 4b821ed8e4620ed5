//! Lexical path normalisation: `.` components are dropped and each `..`
//! cancels the plain name before it, without touching the file system.

use std::path::{Component, Path, PathBuf};
use vstd::prelude::*;

verus! {

/// `std::path::PathBuf`, carried through opaquely.
#[verifier::external_type_specification]
#[verifier::external_body]
pub struct ExPathBuf(PathBuf);

/// One component of a path, as the platform's path parser splits it.
#[derive(Debug, Clone, PartialEq, Eq)]
pub enum PathPart {
    /// A drive or UNC prefix (Windows only), in its written form.
    Prefix(String),
    /// The root separator.
    RootDir,
    /// A `.` that the parser kept (only at the very start of a path).
    CurDir,
    /// A `..`.
    ParentDir,
    /// A plain file or directory name.
    Normal(String),
}

/// What a `PathPart` stands for: the same kinds, names as character
/// sequences.
pub ghost enum PartView {
    Prefix(Seq<char>),
    RootDir,
    CurDir,
    ParentDir,
    Normal(Seq<char>),
}

impl View for PathPart {
    type V = PartView;

    open spec fn view(&self) -> PartView {
        match self {
            PathPart::Prefix(s) => PartView::Prefix(s@),
            PathPart::RootDir => PartView::RootDir,
            PathPart::CurDir => PartView::CurDir,
            PathPart::ParentDir => PartView::ParentDir,
            PathPart::Normal(s) => PartView::Normal(s@),
        }
    }
}

/// The views of a list of components.
pub open spec fn part_views(s: Seq<PathPart>) -> Seq<PartView> {
    s.map_values(|p: PathPart| p@)
}

/// One step of the normalisation: `part` arrives after the parts in `acc`.
pub open spec fn normalize_step(acc: Seq<PartView>, part: PartView) -> Seq<PartView> {
    match part {
        PartView::CurDir => acc,
        PartView::ParentDir => if acc.len() > 0 && acc.last() is Normal {
            acc.drop_last()
        } else {
            acc.push(PartView::ParentDir)
        },
        _ => acc.push(part),
    }
}

/// The normalised form of a component list: `.` removed, and each `..`
/// removes the plain name just before it; a `..` with no plain name before
/// it (at the start, after the root or prefix, or after another `..`) stays.
pub open spec fn normalize_parts(parts: Seq<PartView>) -> Seq<PartView>
    decreases parts.len(),
{
    if parts.len() == 0 {
        Seq::empty()
    } else {
        normalize_step(normalize_parts(parts.drop_last()), parts.last())
    }
}

/// A component list with no `.` and no `..` right after a plain name.
pub open spec fn is_normal_form(s: Seq<PartView>) -> bool {
    &&& forall|i: int| 0 <= i < s.len() ==> !(#[trigger] s[i] is CurDir)
    &&& forall|i: int|
        0 <= i < s.len() - 1 && (#[trigger] s[i + 1]) is ParentDir ==> !(s[i] is Normal)
}

/// The components of `path` as the standard library's `Path::components`
/// yields them, for the platform this crate is built for.
///
/// How a path splits (which characters separate, which prefixes exist) is
/// fixed by the target platform; the name states only that the result is a
/// function of the path text, not which function.
pub uninterp spec fn parsed_components(path: Seq<char>) -> Seq<PartView>;

/// The text that a path buffer holds (read as characters; every buffer
/// built here comes from UTF-8 text).
pub uninterp spec fn path_buf_chars(buf: PathBuf) -> Seq<char>;

/// The text of a path buffer holding `base` after `PathBuf::push` of the
/// component `part`, for the platform this crate is built for.
///
/// How the parts are joined (the separator, what a root or prefix replaces)
/// is fixed by the target platform; the name states only that the result is
/// a function of the old text and the component, not which function.
pub uninterp spec fn path_pushed(base: Seq<char>, part: PartView) -> Seq<char>;

/// `Path::components` of `path`, each component converted to a `PathPart`.
#[verifier::external_body]
fn path_components(path: &str) -> (r: Vec<PathPart>)
    ensures
        part_views(r@) == parsed_components(path@),
{
    let mut parts = Vec::new();
    for c in Path::new(path).components() {
        parts.push(match c {
            Component::Prefix(p) => PathPart::Prefix(p.as_os_str().to_string_lossy().into_owned()),
            Component::RootDir => PathPart::RootDir,
            Component::CurDir => PathPart::CurDir,
            Component::ParentDir => PathPart::ParentDir,
            Component::Normal(s) => PathPart::Normal(s.to_string_lossy().into_owned()),
        });
    }
    parts
}

/// `PathBuf::new`: an empty path buffer.
#[verifier::external_body]
fn empty_path_buf() -> (r: PathBuf)
    ensures
        path_buf_chars(r) == Seq::<char>::empty(),
{
    PathBuf::new()
}

/// `PathBuf::push` of one component; the new text is stated through the
/// name `path_pushed`.
#[verifier::external_body]
fn path_buf_push(buf: &mut PathBuf, part: &PathPart)
    ensures
        path_buf_chars(*final(buf)) == path_pushed(path_buf_chars(*old(buf)), part@),
{
    match part {
        PathPart::Prefix(s) => buf.push(s),
        PathPart::RootDir => buf.push(Component::RootDir),
        PathPart::CurDir => buf.push(Component::CurDir),
        PathPart::ParentDir => buf.push(Component::ParentDir),
        PathPart::Normal(s) => buf.push(s),
    }
}

/// The text of the path that pushing `parts`, in order, onto an empty
/// buffer gives.
pub open spec fn joined(parts: Seq<PartView>) -> Seq<char>
    decreases parts.len(),
{
    if parts.len() == 0 {
        Seq::empty()
    } else {
        path_pushed(joined(parts.drop_last()), parts.last())
    }
}

/// Normalises a component list: drops `.`, and lets each `..` cancel the
/// plain name before it; a `..` that has no plain name to cancel is kept.
pub fn normalize_components(parts: Vec<PathPart>) -> (r: Vec<PathPart>)
    ensures
        part_views(r@) == normalize_parts(part_views(parts@)),
{
    let ghost input = parts@;
    let ghost vi = part_views(input);
    let mut src = parts;
    let mut rest: Vec<PathPart> = Vec::new();
    while src.len() > 0
        invariant
            src@.len() + rest@.len() == input.len(),
            src@ =~= input.take(src@.len() as int),
            rest@ =~= input.subrange(src@.len() as int, input.len() as int).reverse(),
        decreases src@.len(),
    {
        let part = src.pop().unwrap();
        rest.push(part);
    }
    let mut acc: Vec<PathPart> = Vec::new();
    let n = rest.len();
    while rest.len() > 0
        invariant
            n == input.len(),
            rest@.len() <= n,
            rest@ =~= input.subrange(n - rest@.len(), n as int).reverse(),
            vi == part_views(input),
            part_views(acc@) == normalize_parts(vi.take(n - rest@.len())),
        decreases rest@.len(),
    {
        let ghost done = n - rest@.len();
        let part = rest.pop().unwrap();
        assert(part == input[done]);
        assert(vi.take(done + 1).drop_last() =~= vi.take(done));
        assert(vi.take(done + 1).last() == part@);
        let ghost before = part_views(acc@);
        match part {
            PathPart::CurDir => {},
            PathPart::ParentDir => {
                let len = acc.len();
                if len > 0 && acc[len - 1].is_normal() {
                    let _ = acc.pop();
                    assert(part_views(acc@) =~= before.drop_last());
                } else {
                    acc.push(PathPart::ParentDir);
                    assert(part_views(acc@) =~= before.push(PartView::ParentDir));
                }
            },
            other => {
                acc.push(other);
                assert(part_views(acc@) =~= before.push(part@));
            },
        }
        assert(rest@ =~= input.subrange(n - rest@.len(), n as int).reverse());
    }
    assert(vi.take(n as int) =~= vi);
    acc
}

impl PathPart {
    /// Whether this is a plain name.
    pub fn is_normal(&self) -> (r: bool)
        ensures
            r == (self@ is Normal),
    {
        match self {
            PathPart::Normal(_) => true,
            _ => false,
        }
    }
}

/// The components of `path` (as the platform's parser splits it),
/// normalised; the result has no `.` and no `..` after a plain name.
pub fn normalized_components(path: &str) -> (r: Vec<PathPart>)
    ensures
        part_views(r@) == normalize_parts(parsed_components(path@)),
        is_normal_form(part_views(r@)),
{
    let parts = path_components(path);
    let r = normalize_components(parts);
    proof {
        law_normalize_gives_normal_form(parsed_components(path@));
    }
    r
}

/// Joins components into a path buffer, pushing them in order onto an
/// empty one.
pub fn path_from_components(parts: &Vec<PathPart>) -> (r: PathBuf)
    ensures
        path_buf_chars(r) == joined(part_views(parts@)),
{
    let mut buf = empty_path_buf();
    let n = parts.len();
    for i in 0..n
        invariant
            n == parts@.len(),
            path_buf_chars(buf) == joined(part_views(parts@).take(i as int)),
    {
        proof {
            let v = part_views(parts@);
            assert(v.take(i + 1).drop_last() =~= v.take(i as int));
            assert(v.take(i + 1).last() == parts@[i as int]@);
        }
        path_buf_push(&mut buf, &parts[i]);
    }
    assert(part_views(parts@).take(n as int) =~= part_views(parts@));
    buf
}

/// Normalises `path` lexically: removes `.` components and resolves each
/// `..` against the plain name before it, without consulting the file
/// system; the result is the path joined from `normalized_components(path)`.
pub fn normalize_path(path: &str) -> (r: PathBuf)
    ensures
        path_buf_chars(r) == joined(normalize_parts(parsed_components(path@))),
{
    let parts = normalized_components(path);
    path_from_components(&parts)
}

/// The normalisation never leaves a `.` nor a `..` right after a plain name.
pub proof fn law_normalize_gives_normal_form(parts: Seq<PartView>)
    ensures
        is_normal_form(normalize_parts(parts)),
    decreases parts.len(),
{
    if parts.len() > 0 {
        law_normalize_gives_normal_form(parts.drop_last());
        let acc = normalize_parts(parts.drop_last());
        let r = normalize_parts(parts);
        assert forall|i: int| 0 <= i < r.len() implies !(#[trigger] r[i] is CurDir) by {
            if i < acc.len() {
                assert(r[i] == acc[i]);
            }
        }
        assert forall|i: int|
            0 <= i < r.len() - 1 && (#[trigger] r[i + 1]) is ParentDir implies !(r[i] is Normal) by {
            if i + 1 < acc.len() {
                assert(r[i] == acc[i]);
                assert(r[i + 1] == acc[i + 1]);
            }
        }
    }
}

/// A list already in normal form is left as it is.
pub proof fn law_normal_form_is_fixed(s: Seq<PartView>)
    requires
        is_normal_form(s),
    ensures
        normalize_parts(s) == s,
    decreases s.len(),
{
    if s.len() > 0 {
        let init = s.drop_last();
        assert(is_normal_form(init)) by {
            assert forall|i: int| 0 <= i < init.len() implies !(#[trigger] init[i] is CurDir) by {
                assert(init[i] == s[i]);
            }
            assert forall|i: int|
                0 <= i < init.len() - 1 && (#[trigger] init[i + 1]) is ParentDir implies !(
                init[i] is Normal) by {
                assert(init[i] == s[i]);
                assert(init[i + 1] == s[i + 1]);
            }
        }
        law_normal_form_is_fixed(init);
        assert(!(s[s.len() - 1] is CurDir));
        if s.last() is ParentDir && init.len() > 0 {
            assert(s[init.len() - 1 + 1] is ParentDir);
        }
        assert(init.push(s.last()) =~= s);
    }
}

/// Normalising twice is the same as normalising once.
pub proof fn law_normalize_idempotent(parts: Seq<PartView>)
    ensures
        normalize_parts(normalize_parts(parts)) == normalize_parts(parts),
{
    law_normalize_gives_normal_form(parts);
    law_normal_form_is_fixed(normalize_parts(parts));
}

/// A `..` right after a plain name removes exactly that one name: whatever
/// came before is normalised as if neither had been there.
pub proof fn law_parent_cancels_one_name(p: Seq<PartView>, x: Seq<char>)
    ensures
        normalize_parts(p.push(PartView::Normal(x)).push(PartView::ParentDir)) == normalize_parts(p),
{
    let q = p.push(PartView::Normal(x));
    assert(q.push(PartView::ParentDir).drop_last() =~= q);
    assert(q.drop_last() =~= p);
    let a = normalize_parts(p).push(PartView::Normal(x));
    assert(normalize_parts(q) == a);
    assert(q.push(PartView::ParentDir).last() == PartView::ParentDir);
    assert(a.len() > 0 && a.last() is Normal);
    assert(normalize_step(a, PartView::ParentDir) == a.drop_last());
    assert(a.drop_last() =~= normalize_parts(p));
}

/// A plain name is kept, at the end, after whatever came before it.
pub proof fn law_name_is_kept(p: Seq<PartView>, x: Seq<char>)
    ensures
        normalize_parts(p.push(PartView::Normal(x))) == normalize_parts(p).push(PartView::Normal(x)),
{
    assert(p.push(PartView::Normal(x)).drop_last() =~= p);
}

/// A `.` changes nothing.
pub proof fn law_current_dir_is_dropped(p: Seq<PartView>)
    ensures
        normalize_parts(p.push(PartView::CurDir)) == normalize_parts(p),
{
    assert(p.push(PartView::CurDir).drop_last() =~= p);
}

/// A `..` with no plain name before it (at the start, or after the root, a
/// prefix or another `..`) is kept.
pub proof fn law_leading_parent_is_kept(p: Seq<PartView>)
    requires
        normalize_parts(p).len() == 0 || !(normalize_parts(p).last() is Normal),
    ensures
        normalize_parts(p.push(PartView::ParentDir)) == normalize_parts(p).push(PartView::ParentDir),
{
    assert(p.push(PartView::ParentDir).drop_last() =~= p);
}

} // verus!
