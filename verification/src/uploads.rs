//! Which local files may be uploaded.

use crate::text::split;
use vstd::prelude::*;

verus! {

/// The kinds of component of a path.
#[derive(Debug, Clone, Copy, PartialEq, Eq, Structural)]
pub enum PathPart {
    Prefix,
    RootDir,
    CurDir,
    ParentDir,
    Normal,
}

/// A path that means the same on every platform: it does not begin at a root, and `/` is the
/// only character in it that any platform treats specially.
pub open spec fn plain_path(s: Seq<char>) -> bool {
    &&& !(s.len() > 0 && s[0] == '/')
    &&& !s.contains('\\')
    &&& !s.contains(':')
}

/// A path that begins at a root, or with a prefix such as that of a share.
pub open spec fn rooted(s: Seq<char>) -> bool {
    s.len() > 0 && (s[0] == '/' || s[0] == '\\')
}

/// The components of a path made of these segments: empty segments drop out, and so does `.`
/// unless it comes first.
pub open spec fn plain_parts(segments: Seq<Seq<char>>) -> Seq<PathPart>
    decreases segments.len(),
{
    if segments.len() == 0 {
        Seq::empty()
    } else {
        let before = plain_parts(segments.drop_last());
        let last = segments.last();
        if last.len() == 0 || (last == "."@ && segments.len() > 1) {
            before
        } else if last == "."@ {
            before.push(PathPart::CurDir)
        } else if last == ".."@ {
            before.push(PathPart::ParentDir)
        } else {
            before.push(PathPart::Normal)
        }
    }
}

/// Whether the platform takes the path as absolute, by `std::path::Path::is_absolute`. Trusted:
/// a path without a root, a drive or a share is not absolute. Which other paths are differs
/// from platform to platform and is left open.
#[verifier::external_body]
fn path_is_absolute(raw: &str) -> (r: bool)
    ensures
        plain_path(raw@) ==> !r,
{
    std::path::Path::new(raw).is_absolute()
}

/// The components of a path, by `std::path::Path::components`, each as its kind. Trusted: a
/// plain path is split at `/`, with the documented normalisation; in any path that does not begin
/// with a separator, `/` separates, so that a segment `..` is a step to a parent directory. How
/// such a path is split besides, and how any other is, differs from platform to platform and is
/// left open.
#[verifier::external_body]
fn path_parts(raw: &str) -> (r: Vec<PathPart>)
    ensures
        plain_path(raw@) ==> r@ == plain_parts(split(raw@, '/')),
        !rooted(raw@) && split(raw@, '/').contains(".."@) ==> r@.contains(PathPart::ParentDir),
{
    std::path::Path::new(raw).components().map(|c| match c {
        std::path::Component::Prefix(_) => PathPart::Prefix,
        std::path::Component::RootDir => PathPart::RootDir,
        std::path::Component::CurDir => PathPart::CurDir,
        std::path::Component::ParentDir => PathPart::ParentDir,
        std::path::Component::Normal(_) => PathPart::Normal,
    }).collect()
}

/// The platform takes the path as absolute or not, and splits it into components that hold a step
/// to a parent directory or not.
pub closed spec fn judged(path: Seq<char>, absolute: bool, climbs: bool) -> bool {
    exists|raw: &str, parts: Vec<PathPart>|
        raw@ == path && #[trigger] call_ensures(path_is_absolute, (raw,), absolute)
            && #[trigger] call_ensures(path_parts, (raw,), parts) && climbs == parts@.contains(
            PathPart::ParentDir,
        )
}

/// A file to upload, with what the platform makes of its path.
pub struct Upload {
    pub path: String,
    pub absolute: bool,
    pub climbs: bool,
}

/// The mathematical content of an [`Upload`].
#[verifier::ext_equal]
pub struct UploadView {
    pub path: Seq<char>,
    /// The path does not depend on the current directory.
    pub absolute: bool,
    /// The path holds a step to a parent directory.
    pub climbs: bool,
}

impl View for Upload {
    type V = UploadView;

    open spec fn view(&self) -> UploadView {
        UploadView { path: self.path@, absolute: self.absolute, climbs: self.climbs }
    }
}

impl UploadView {
    /// Only relative paths that do not climb may be uploaded.
    pub open spec fn allowed(self) -> bool {
        !self.absolute && !self.climbs
    }

    /// This is what the platform makes of the path, with what is known of it on every platform.
    pub open spec fn sound(self) -> bool {
        &&& judged(self.path, self.absolute, self.climbs)
        &&& plain_path(self.path) ==> {
            &&& !self.absolute
            &&& self.climbs == split(self.path, '/').contains(".."@)
        }
        &&& !rooted(self.path) && split(self.path, '/').contains(".."@) ==> self.climbs
    }
}

proof fn lemma_plain_parts_climb(segments: Seq<Seq<char>>)
    ensures
        plain_parts(segments).contains(PathPart::ParentDir) <==> segments.contains(".."@),
    decreases segments.len(),
{
    reveal_strlit(".");
    reveal_strlit("..");
    if segments.len() > 0 {
        let front = segments.drop_last();
        lemma_plain_parts_climb(front);
        let before = plain_parts(front);
        let whole = plain_parts(segments);
        assert(segments =~= front.push(segments.last()));
        if front.contains(".."@) {
            let k = choose|k: int| 0 <= k < front.len() && front[k] == ".."@;
            assert(segments[k] == ".."@);
            let j = choose|j: int| 0 <= j < before.len() && before[j] == PathPart::ParentDir;
            assert(whole[j] == PathPart::ParentDir);
        }
        if segments.last() == ".."@ {
            assert("."@.len() == 1 && ".."@.len() == 2);
            assert(whole == before.push(PathPart::ParentDir));
            assert(whole[whole.len() - 1] == PathPart::ParentDir);
            assert(segments[segments.len() - 1] == ".."@);
        } else {
            if segments.contains(".."@) {
                let k = choose|k: int| 0 <= k < segments.len() && segments[k] == ".."@;
                assert(front[k] == ".."@);
            }
            if whole.contains(PathPart::ParentDir) {
                let j = choose|j: int| 0 <= j < whole.len() && whole[j] == PathPart::ParentDir;
                assert(before[j] == PathPart::ParentDir);
            }
        }
    }
}

/// Whether a path with these components holds a step to a parent directory.
pub fn steps_up(parts: &Vec<PathPart>) -> (r: bool)
    ensures
        r == parts@.contains(PathPart::ParentDir),
{
    let mut i: usize = 0;
    while i < parts.len()
        invariant
            i <= parts@.len(),
            forall|k: int| 0 <= k < i ==> parts@[k] != PathPart::ParentDir,
        decreases parts@.len() - i,
    {
        if parts[i] == PathPart::ParentDir {
            assert(parts@[i as int] == PathPart::ParentDir);
            return true;
        }
        i += 1;
    }
    false
}

/// A file to upload whose path the platform takes as absolute or not, and splits into `parts`.
pub fn weigh_upload(raw: &str, absolute: bool, parts: &Vec<PathPart>) -> (r: Upload)
    ensures
        r@ == (UploadView {
            path: raw@,
            absolute,
            climbs: parts@.contains(PathPart::ParentDir),
        }),
{
    Upload { path: raw.to_string(), absolute, climbs: steps_up(parts) }
}

/// Asks the platform about the path of a file to upload.
pub fn examine_upload(raw: &str) -> (r: Upload)
    ensures
        r@.path == raw@,
        r@.sound(),
{
    let absolute: bool = path_is_absolute(raw);
    let parts: Vec<PathPart> = path_parts(raw);
    proof {
        lemma_plain_parts_climb(split(raw@, '/'));
    }
    weigh_upload(raw, absolute, &parts)
}

} // verus!
