//! Mounting a session's verified package image through the mount helper:
//! which image is used, what the helper is asked, and what is undone when
//! the session ends.
use vstd::prelude::*;

use crate::text::{strs_view, trim, trim_str};

verus! {

/// The image a session mounts: image file, hash device, root hash.
pub struct ImageFiles {
    pub img: String,
    pub hash_dev: String,
    pub root_hash: String,
}

/// Picks the image of the first store root whose three files all exist and
/// whose root-hash file could be read: `contents[i]` holds what was read for
/// root `i` (`None` when a file is missing or unreadable). The root hash is
/// the file's text with surrounding whitespace removed.
pub fn find_image(candidates: &[(String, String, String)], contents: &[Option<String>]) -> (r:
    Option<ImageFiles>)
    requires
        candidates@.len() == contents@.len(),
    ensures
        match r {
            Some(f) => exists|i: int|
                {
                    &&& 0 <= i < contents@.len()
                    &&& forall|j: int| 0 <= j < i ==> contents@[j] is None
                    &&& #[trigger] contents@[i] matches Some(t)
                    &&& f.root_hash@ == trim(t@)
                    &&& f.img@ == candidates@[i].0@
                    &&& f.hash_dev@ == candidates@[i].1@
                },
            None => forall|j: int| 0 <= j < contents@.len() ==> contents@[j] is None,
        },
{
    let mut i: usize = 0;
    while i < contents.len()
        invariant
            i <= contents@.len(),
            candidates@.len() == contents@.len(),
            forall|j: int| 0 <= j < i ==> contents@[j] is None,
        decreases contents@.len() - i,
    {
        match &contents[i] {
            Some(t) => {
                let root_hash = trim_str(t.as_str());
                let f = ImageFiles {
                    img: candidates[i].0.clone(),
                    hash_dev: candidates[i].1.clone(),
                    root_hash,
                };
                assert(contents@[i as int] matches Some(t2) && f.root_hash@ == trim(t2@));
                return Some(f);
            },
            None => {},
        }
        i = i + 1;
    }
    None
}

/// The helper's arguments to mount `image` at `mountpoint`.
pub fn mount_args(image: &ImageFiles, mountpoint: &str) -> (r: Vec<String>)
    ensures
        strs_view(r@) == seq![
            "mount"@,
            image.img@,
            image.hash_dev@,
            image.root_hash@,
            mountpoint@,
        ],
{
    let mut v: Vec<String> = Vec::new();
    v.push("mount".to_owned());
    v.push(image.img.clone());
    v.push(image.hash_dev.clone());
    v.push(image.root_hash.clone());
    v.push(mountpoint.to_owned());
    assert(strs_view(v@) =~= seq![
        "mount"@,
        image.img@,
        image.hash_dev@,
        image.root_hash@,
        mountpoint@,
    ]);
    v
}

/// What `Path::parent` gives for a path: the path without its last
/// component, or `None` for the empty path and the root.
pub uninterp spec fn path_parent(path: Seq<char>) -> Option<Seq<char>>;

/// `std::path::Path::parent` on a path string. Its result is named, as a
/// function of the path, by `path_parent`; nothing more is claimed.
#[verifier::external_body]
fn parent_dir(path: &str) -> (r: Option<String>)
    ensures
        match r {
            Some(q) => path_parent(path@) == Some(q@),
            None => path_parent(path@) is None,
        },
{
    match std::path::Path::new(path).parent() {
        Some(q) => Some(q.to_string_lossy().into_owned()),
        None => None,
    }
}

/// A session's mounted image: its mountpoint, if the helper mounted one.
pub struct MountOrchestrator {
    mountpoint: Option<String>,
}

impl View for MountOrchestrator {
    type V = Option<Seq<char>>;

    closed spec fn view(&self) -> Option<Seq<char>> {
        match self.mountpoint {
            Some(m) => Some(m@),
            None => None,
        }
    }
}

impl MountOrchestrator {
    /// Nothing mounted: no helper, no image, or the mount directory could
    /// not be made.
    pub fn unmounted() -> (r: MountOrchestrator)
        ensures
            r@ is None,
    {
        MountOrchestrator { mountpoint: None }
    }

    /// The outcome of running the helper on `mountpoint`, created under the
    /// session's directory `base`: when it succeeded the image is mounted
    /// and `base` is handed back as the package store the runtime reads;
    /// otherwise nothing is mounted (and the caller removes `base`).
    pub fn after_helper(mountpoint: String, base: String, succeeded: bool) -> (r: (
        MountOrchestrator,
        Option<String>,
    ))
        ensures
            succeeded ==> r.0@ == Some(mountpoint@) && (r.1 matches Some(b) && b@ == base@),
            !succeeded ==> r.0@ is None && r.1 is None,
    {
        if succeeded {
            (MountOrchestrator { mountpoint: Some(mountpoint) }, Some(base))
        } else {
            (MountOrchestrator { mountpoint: None }, None)
        }
    }

    /// What ending the session undoes: the helper's arguments to unmount,
    /// and the mountpoint's parent directory to remove afterwards (if it has
    /// one); nothing when no image was mounted or no helper is installed.
    pub fn umount_plan(&self, helper_found: bool) -> (r: Option<(Vec<String>, Option<String>)>)
        ensures
            match self@ {
                Some(m) => if helper_found {
                    r matches Some((args, dir)) && strs_view(args@) == seq!["umount"@, m]
                        && match dir {
                        Some(d) => path_parent(m) == Some(d@),
                        None => path_parent(m) is None,
                    }
                } else {
                    r is None
                },
                None => r is None,
            },
    {
        match &self.mountpoint {
            Some(m) => {
                if helper_found {
                    let mut args: Vec<String> = Vec::new();
                    args.push("umount".to_owned());
                    args.push(m.clone());
                    assert(strs_view(args@) =~= seq!["umount"@, m@]);
                    Some((args, parent_dir(m.as_str())))
                } else {
                    None
                }
            },
            None => None,
        }
    }
}

} // verus!
