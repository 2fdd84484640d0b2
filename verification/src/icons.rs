//! The names of the icons shown for folders and for the trash: the
//! well-known folders of the user have icons of their own.

use vstd::prelude::*;
use crate::paths::{same_path, path_eq};
use crate::text::copy_str;

verus! {

/// The user's well-known folders, where the platform names them.
#[derive(Clone, Debug)]
pub struct SpecialDirs {
    pub document: Option<String>,
    pub download: Option<String>,
    pub audio: Option<String>,
    pub picture: Option<String>,
    pub public: Option<String>,
    pub template: Option<String>,
    pub video: Option<String>,
    pub desktop: Option<String>,
    pub home: Option<String>,
}

/// Whether a well-known folder is named and is the same path as `p`.
pub open spec fn names_path(dir: Option<String>, p: Seq<char>) -> bool {
    dir is Some && path_eq(dir->0@, p)
}

/// Whether a well-known folder is named and is the same path as `p`.
fn is_dir_of(dir: &Option<String>, p: &str) -> (r: bool)
    ensures
        r == names_path(*dir, p@),
{
    match dir {
        Some(d) => same_path(d, p),
        None => false,
    }
}

impl SpecialDirs {
    /// The icon of the well-known folder at `p`, if it is one. The folders
    /// are entered in the order of the fields, a later one replacing an
    /// earlier one at the same path, so the last field that names `p` wins.
    pub open spec fn spec_icon(self, p: Seq<char>) -> Option<Seq<char>> {
        if names_path(self.home, p) {
            Some("user-home"@)
        } else if names_path(self.desktop, p) {
            Some("user-desktop"@)
        } else if names_path(self.video, p) {
            Some("folder-videos"@)
        } else if names_path(self.template, p) {
            Some("folder-templates"@)
        } else if names_path(self.public, p) {
            Some("folder-publicshare"@)
        } else if names_path(self.picture, p) {
            Some("folder-pictures"@)
        } else if names_path(self.audio, p) {
            Some("folder-music"@)
        } else if names_path(self.download, p) {
            Some("folder-download"@)
        } else if names_path(self.document, p) {
            Some("folder-documents"@)
        } else {
            None
        }
    }

    /// The icon of the well-known folder at `p`, if it is one.
    pub fn icon(&self, p: &str) -> (r: Option<&'static str>)
        ensures
            match r {
                Some(n) => self.spec_icon(p@) == Some(n@),
                None => self.spec_icon(p@) is None,
            },
    {
        if is_dir_of(&self.home, p) {
            Some("user-home")
        } else if is_dir_of(&self.desktop, p) {
            Some("user-desktop")
        } else if is_dir_of(&self.video, p) {
            Some("folder-videos")
        } else if is_dir_of(&self.template, p) {
            Some("folder-templates")
        } else if is_dir_of(&self.public, p) {
            Some("folder-publicshare")
        } else if is_dir_of(&self.picture, p) {
            Some("folder-pictures")
        } else if is_dir_of(&self.audio, p) {
            Some("folder-music")
        } else if is_dir_of(&self.download, p) {
            Some("folder-download")
        } else if is_dir_of(&self.document, p) {
            Some("folder-documents")
        } else {
            None
        }
    }
}

/// The icon name of the folder at `p`: that of the well-known folder it is,
/// else `folder`; with `-symbolic` appended for the symbolic variant.
pub open spec fn spec_folder_icon_name(dirs: SpecialDirs, p: Seq<char>, symbolic: bool) -> Seq<char> {
    let base = match dirs.spec_icon(p) {
        Some(n) => n,
        None => "folder"@,
    };
    if symbolic {
        base + "-symbolic"@
    } else {
        base
    }
}

/// The icon name of the folder at `p`.
pub fn folder_icon_name(dirs: &SpecialDirs, p: &str, symbolic: bool) -> (r: String)
    ensures
        r@ == spec_folder_icon_name(*dirs, p@, symbolic),
{
    let base = match dirs.icon(p) {
        Some(n) => n,
        None => "folder",
    };
    let mut s = copy_str(base);
    if symbolic {
        s.append("-symbolic");
    }
    s
}

/// The icon name of the trash: full unless it is empty, symbolic or not.
pub fn trash_icon_name(is_empty: bool, symbolic: bool) -> (r: &'static str)
    ensures
        r@ == if is_empty {
            if symbolic { "user-trash-symbolic"@ } else { "user-trash"@ }
        } else {
            if symbolic { "user-trash-full-symbolic"@ } else { "user-trash-full"@ }
        },
{
    if is_empty {
        if symbolic { "user-trash-symbolic" } else { "user-trash" }
    } else {
        if symbolic { "user-trash-full-symbolic" } else { "user-trash-full" }
    }
}

} // verus!
