//! File operations: what they are, how they are described to the user, and
//! the pure decisions taken while they run.

use vstd::prelude::*;
use vstd::string::*;
use crate::paths::{file_name, parent, same_path, file_stem, extension, join, opt_view,
    path_file_name, path_parent, path_eq, path_file_stem, path_extension, path_join};
use crate::controller::{Controller, spec_state_from_code, spec_check_step};
use crate::text::{has_suffix, decimal, digit_char, str_equal, ends_with, substring, copy_str,
    push_char, u64_to_decimal};


verus! {

/// The answer to "the destination already exists".
#[derive(Clone, Copy, Debug, PartialEq, Eq, Hash, Structural)]
pub enum ReplaceResult {
    /// Replace the destination; `true` applies the answer to all later conflicts.
    Replace(bool),
    /// Keep both, copying under a fresh name.
    KeepBoth,
    /// Skip this item; `true` applies the answer to all later conflicts.
    Skip(bool),
    /// Stop the whole operation.
    Cancel,
}

/// The state of a running operation, as its controller reports it.
#[derive(Clone, Copy, Debug, PartialEq, Eq, Structural)]
pub enum ControllerState {
    Cancelled,
    Failed,
    Paused,
    Running,
}

/// The kind of archive that a compress operation writes.
#[derive(Clone, Copy, Debug, PartialEq, Eq, Hash, Structural)]
pub enum ArchiveType {
    Tgz,
    Zip,
}

/// An item in the trash, as the operations refer to it.
#[derive(Clone, Debug, PartialEq, Eq, Hash)]
pub struct TrashEntry {
    pub id: String,
    pub name: String,
    pub original_parent: String,
    pub time_deleted: i64,
}

/// A file operation that the user asked for.
#[derive(Clone, Debug, PartialEq, Eq, Hash)]
pub enum Operation {
    /// Compress files
    Compress { paths: Vec<String>, to: String, archive_type: ArchiveType, password: Option<String> },
    /// Copy items
    Copy { paths: Vec<String>, to: String },
    /// Move items to the trash
    Delete { paths: Vec<String> },
    /// Delete items from the trash
    DeleteTrash { items: Vec<TrashEntry> },
    /// Empty the trash
    EmptyTrash,
    /// Uncompress files
    Extract { paths: Vec<String>, to: String, password: Option<String> },
    /// Move items
    Move { paths: Vec<String>, to: String, cross_device_copy: bool },
    NewFile { path: String },
    NewFolder { path: String },
    /// Permanently delete items, skipping the trash
    PermanentlyDelete { paths: Vec<String> },
    RemoveFromRecents { paths: Vec<String> },
    Rename { from: String, to: String },
    /// Restore items from the trash
    Restore { items: Vec<TrashEntry> },
    /// Set executable and launch
    SetExecutableAndLaunch { path: String },
    /// Set permissions
    SetPermissions { path: String, mode: u32 },
}

/// Paths to select once an operation has finished.
#[derive(Clone, Debug)]
pub struct OperationSelection {
    /// Paths to ignore if they are already selected
    pub ignored: Vec<String>,
    /// Paths to select
    pub selected: Vec<String>,
}

/// Why an operation failed.
#[derive(Clone, Debug)]
pub enum OperationErrorType {
    Generic(String),
    PasswordRequired,
}

/// The error of a failed operation.
#[derive(Clone, Debug)]
pub struct OperationError {
    pub kind: OperationErrorType,
}

impl OperationError {
    /// An error that carries a message.
    pub fn from_msg(m: String) -> (r: Self)
        ensures
            r.kind matches OperationErrorType::Generic(s) && s@ == m@,
    {
        OperationError { kind: OperationErrorType::Generic(m) }
    }

    /// The text shown for this error.
    pub fn message(&self) -> (r: String)
        ensures
            self.kind matches OperationErrorType::Generic(s) ==> r@ == s@,
            self.kind is PasswordRequired ==> r@ == "Password required"@,
    {
        match &self.kind {
            OperationErrorType::Generic(s) => s.clone(),
            OperationErrorType::PasswordRequired => String::from_str("Password required"),
        }
    }
}

/// A folder or file name as shown in an operation's description.
#[derive(Clone, Debug, PartialEq, Eq)]
pub enum FolderName {
    /// The name of a path's last component.
    Named(String),
    /// The path has no name ("unknown folder").
    Unknown,
    /// The trash.
    Trash,
}

/// The mathematical value of a [`FolderName`].
pub enum FolderNameView {
    Named(Seq<char>),
    Unknown,
    Trash,
}

impl View for FolderName {
    type V = FolderNameView;

    open spec fn view(&self) -> FolderNameView {
        match self {
            FolderName::Named(s) => FolderNameView::Named(s@),
            FolderName::Unknown => FolderNameView::Unknown,
            FolderName::Trash => FolderNameView::Trash,
        }
    }
}

/// One argument of an operation's description.
#[derive(Clone, Debug, PartialEq, Eq)]
pub enum TextArg {
    Items(usize),
    From(FolderName),
    To(FolderName),
    Name(FolderName),
    Parent(FolderName),
    /// Progress in percent, worded after the controller's state.
    Progress(ControllerState, i32),
    /// A permission mode, shown in octal.
    Mode(u32),
}

/// The mathematical value of a [`TextArg`].
pub enum TextArgView {
    Items(nat),
    From(FolderNameView),
    To(FolderNameView),
    Name(FolderNameView),
    Parent(FolderNameView),
    Progress(ControllerState, int),
    Mode(nat),
}

impl View for TextArg {
    type V = TextArgView;

    open spec fn view(&self) -> TextArgView {
        match self {
            TextArg::Items(n) => TextArgView::Items(*n as nat),
            TextArg::From(f) => TextArgView::From(f@),
            TextArg::To(f) => TextArgView::To(f@),
            TextArg::Name(f) => TextArgView::Name(f@),
            TextArg::Parent(f) => TextArgView::Parent(f@),
            TextArg::Progress(s, p) => TextArgView::Progress(*s, *p as int),
            TextArg::Mode(m) => TextArgView::Mode(*m as nat),
        }
    }
}

/// Which message describes an operation.
#[derive(Clone, Copy, Debug, PartialEq, Eq, Structural)]
pub enum TextKey {
    Compressing,
    Copying,
    Moving,
    Deleting,
    EmptyingTrash,
    Extracting,
    Creating,
    PermanentlyDeleting,
    Renaming,
    RemovingFromRecents,
    Restoring,
    SettingExecutableAndLaunching,
    SettingPermissions,
    Compressed,
    Copied,
    Moved,
    Deleted,
    EmptiedTrash,
    Extracted,
    Created,
    PermanentlyDeleted,
    RemovedFromRecents,
    Renamed,
    Restored,
    SetExecutableAndLaunched,
    SetPermissions,
}

/// A description of an operation: a message and its arguments, to be worded
/// in the user's language.
#[derive(Clone, Debug)]
pub struct OperationText {
    pub key: TextKey,
    pub args: Vec<TextArg>,
}

/// The mathematical value of an [`OperationText`].
pub struct OperationTextView {
    pub key: TextKey,
    pub args: Seq<TextArgView>,
}

impl View for OperationText {
    type V = OperationTextView;

    open spec fn view(&self) -> OperationTextView {
        OperationTextView { key: self.key, args: self.args@.map_values(|a: TextArg| a@) }
    }
}

/// The texts of a list of strings.
pub open spec fn strs_view(v: Seq<String>) -> Seq<Seq<char>> {
    v.map_values(|s: String| s@)
}

/// How a path is named in a description: its last component, or unknown.
pub open spec fn spec_file_name(p: Seq<char>) -> FolderNameView {
    match path_file_name(p) {
        Some(n) => FolderNameView::Named(n),
        None => FolderNameView::Unknown,
    }
}

/// How the folder that holds a path is named in a description.
pub open spec fn spec_parent_name(p: Seq<char>) -> FolderNameView {
    match path_parent(p) {
        Some(q) => spec_file_name(q),
        None => FolderNameView::Unknown,
    }
}

/// How the folder that holds all of `paths` is named: unknown where there are
/// none, where the first has no parent, or where they do not share it.
pub open spec fn spec_paths_parent_name(paths: Seq<Seq<char>>) -> FolderNameView {
    if paths.len() == 0 {
        FolderNameView::Unknown
    } else {
        match path_parent(paths[0]) {
            None => FolderNameView::Unknown,
            Some(par) => if forall|i: int|
                #![trigger paths[i]]
                0 <= i < paths.len() ==> (path_parent(paths[i]) matches Some(q) && path_eq(q, par)) {
                spec_file_name(par)
            } else {
                FolderNameView::Unknown
            },
        }
    }
}

/// The name of a path's last component, if it has one.
pub fn file_name_of(path: &str) -> (r: FolderName)
    ensures
        r@ == spec_file_name(path@),
{
    match file_name(path) {
        Some(n) => FolderName::Named(n),
        None => FolderName::Unknown,
    }
}

/// The name of the folder that holds `path`.
pub fn parent_name(path: &str) -> (r: FolderName)
    ensures
        r@ == spec_parent_name(path@),
{
    match parent(path) {
        Some(p) => file_name_of(&p),
        None => FolderName::Unknown,
    }
}

/// The name of the folder that holds every one of `paths`.
pub fn paths_parent_name(paths: &Vec<String>) -> (r: FolderName)
    ensures
        r@ == spec_paths_parent_name(strs_view(paths@)),
{
    let ghost pv = strs_view(paths@);
    if paths.len() == 0 {
        return FolderName::Unknown;
    }
    let par = match parent(paths[0].as_str()) {
        Some(p) => p,
        None => return FolderName::Unknown,
    };
    let mut i: usize = 0;
    while i < paths.len()
        invariant
            pv == strs_view(paths@),
            pv.len() == paths@.len(),
            path_parent(pv[0]) == Some(par@),
            i <= paths.len(),
            forall|j: int|
                #![trigger pv[j]]
                0 <= j < i ==> (path_parent(pv[j]) matches Some(q) && path_eq(q, par@)),
        decreases paths.len() - i,
    {
        assert(pv[i as int] == paths@[i as int]@);
        match parent(paths[i].as_str()) {
            Some(q) => {
                if !same_path(q.as_str(), par.as_str()) {
                    return FolderName::Unknown;
                }
            },
            None => {
                return FolderName::Unknown;
            },
        }
        i = i + 1;
    }
    file_name_of(&par)
}


/// The views of a list of description arguments.
pub open spec fn args_view(args: Seq<TextArg>) -> Seq<TextArgView> {
    args.map_values(|a: TextArg| a@)
}

fn text1(key: TextKey, a: TextArg) -> (r: OperationText)
    ensures
        r@.key == key,
        r@.args == seq![a@],
{
    let r = OperationText { key, args: vec![a] };
    assert(r@.args =~= seq![a@]);
    r
}

fn text2(key: TextKey, a: TextArg, b: TextArg) -> (r: OperationText)
    ensures
        r@.key == key,
        r@.args == seq![a@, b@],
{
    let r = OperationText { key, args: vec![a, b] };
    assert(r@.args =~= seq![a@, b@]);
    r
}

fn text3(key: TextKey, a: TextArg, b: TextArg, c: TextArg) -> (r: OperationText)
    ensures
        r@.key == key,
        r@.args == seq![a@, b@, c@],
{
    let r = OperationText { key, args: vec![a, b, c] };
    assert(r@.args =~= seq![a@, b@, c@]);
    r
}

fn text4(key: TextKey, a: TextArg, b: TextArg, c: TextArg, d: TextArg) -> (r: OperationText)
    ensures
        r@.key == key,
        r@.args == seq![a@, b@, c@, d@],
{
    let r = OperationText { key, args: vec![a, b, c, d] };
    assert(r@.args =~= seq![a@, b@, c@, d@]);
    r
}

/// A description with a message and its arguments.
pub open spec fn tv(key: TextKey, args: Seq<TextArgView>) -> OperationTextView {
    OperationTextView { key, args }
}

/// The description of a running operation, `percent` done, in state `state`.
pub open spec fn spec_pending_text(op: Operation, percent: i32, state: ControllerState) -> OperationTextView {
    let pr = TextArgView::Progress(state, percent as int);
    match op {
        Operation::Compress { paths, to, .. } => tv(TextKey::Compressing, seq![
            TextArgView::Items(paths.len() as nat),
            TextArgView::From(spec_paths_parent_name(strs_view(paths@))),
            TextArgView::To(spec_file_name(to@)),
            pr,
        ]),
        Operation::Copy { paths, to } => tv(TextKey::Copying, seq![
            TextArgView::Items(paths.len() as nat),
            TextArgView::From(spec_paths_parent_name(strs_view(paths@))),
            TextArgView::To(spec_file_name(to@)),
            pr,
        ]),
        Operation::Delete { paths } => tv(TextKey::Moving, seq![
            TextArgView::Items(paths.len() as nat),
            TextArgView::From(spec_paths_parent_name(strs_view(paths@))),
            TextArgView::To(FolderNameView::Trash),
            pr,
        ]),
        Operation::DeleteTrash { items } => tv(TextKey::Deleting, seq![
            TextArgView::Items(items.len() as nat),
            pr,
        ]),
        Operation::EmptyTrash => tv(TextKey::EmptyingTrash, seq![pr]),
        Operation::Extract { paths, to, .. } => tv(TextKey::Extracting, seq![
            TextArgView::Items(paths.len() as nat),
            TextArgView::From(spec_paths_parent_name(strs_view(paths@))),
            TextArgView::To(spec_file_name(to@)),
            pr,
        ]),
        Operation::Move { paths, to, .. } => tv(TextKey::Moving, seq![
            TextArgView::Items(paths.len() as nat),
            TextArgView::From(spec_paths_parent_name(strs_view(paths@))),
            TextArgView::To(spec_file_name(to@)),
            pr,
        ]),
        Operation::NewFile { path } => tv(TextKey::Creating, seq![
            TextArgView::Name(spec_file_name(path@)),
            TextArgView::Parent(spec_parent_name(path@)),
        ]),
        Operation::NewFolder { path } => tv(TextKey::Creating, seq![
            TextArgView::Name(spec_file_name(path@)),
            TextArgView::Parent(spec_parent_name(path@)),
        ]),
        Operation::PermanentlyDelete { paths } => tv(TextKey::PermanentlyDeleting, seq![
            TextArgView::Items(paths.len() as nat),
        ]),
        Operation::Rename { from, to } => tv(TextKey::Renaming, seq![
            TextArgView::From(spec_file_name(from@)),
            TextArgView::To(spec_file_name(to@)),
        ]),
        Operation::RemoveFromRecents { paths } => tv(TextKey::RemovingFromRecents, seq![
            TextArgView::Items(paths.len() as nat),
        ]),
        Operation::Restore { items } => tv(TextKey::Restoring, seq![
            TextArgView::Items(items.len() as nat),
            pr,
        ]),
        Operation::SetExecutableAndLaunch { path } => tv(TextKey::SettingExecutableAndLaunching, seq![
            TextArgView::Name(spec_file_name(path@)),
        ]),
        Operation::SetPermissions { path, mode } => tv(TextKey::SettingPermissions, seq![
            TextArgView::Name(spec_file_name(path@)),
            TextArgView::Mode(mode as nat),
        ]),
    }
}

/// The description of a finished operation.
pub open spec fn spec_completed_text(op: Operation) -> OperationTextView {
    match op {
        Operation::Compress { paths, to, .. } => tv(TextKey::Compressed, seq![
            TextArgView::Items(paths.len() as nat),
            TextArgView::From(spec_paths_parent_name(strs_view(paths@))),
            TextArgView::To(spec_file_name(to@)),
        ]),
        Operation::Copy { paths, to } => tv(TextKey::Copied, seq![
            TextArgView::Items(paths.len() as nat),
            TextArgView::From(spec_paths_parent_name(strs_view(paths@))),
            TextArgView::To(spec_file_name(to@)),
        ]),
        Operation::Delete { paths } => tv(TextKey::Moved, seq![
            TextArgView::Items(paths.len() as nat),
            TextArgView::From(spec_paths_parent_name(strs_view(paths@))),
            TextArgView::To(FolderNameView::Trash),
        ]),
        Operation::DeleteTrash { items } => tv(TextKey::Deleted, seq![
            TextArgView::Items(items.len() as nat),
        ]),
        Operation::EmptyTrash => tv(TextKey::EmptiedTrash, seq![]),
        Operation::Extract { paths, to, .. } => tv(TextKey::Extracted, seq![
            TextArgView::Items(paths.len() as nat),
            TextArgView::From(spec_paths_parent_name(strs_view(paths@))),
            TextArgView::To(spec_file_name(to@)),
        ]),
        Operation::Move { paths, to, .. } => tv(TextKey::Moved, seq![
            TextArgView::Items(paths.len() as nat),
            TextArgView::From(spec_paths_parent_name(strs_view(paths@))),
            TextArgView::To(spec_file_name(to@)),
        ]),
        Operation::NewFile { path } => tv(TextKey::Created, seq![
            TextArgView::Name(spec_file_name(path@)),
            TextArgView::Parent(spec_parent_name(path@)),
        ]),
        Operation::NewFolder { path } => tv(TextKey::Created, seq![
            TextArgView::Name(spec_file_name(path@)),
            TextArgView::Parent(spec_parent_name(path@)),
        ]),
        Operation::PermanentlyDelete { paths } => tv(TextKey::PermanentlyDeleted, seq![
            TextArgView::Items(paths.len() as nat),
        ]),
        Operation::RemoveFromRecents { paths } => tv(TextKey::RemovedFromRecents, seq![
            TextArgView::Items(paths.len() as nat),
        ]),
        Operation::Rename { from, to } => tv(TextKey::Renamed, seq![
            TextArgView::From(spec_file_name(from@)),
            TextArgView::To(spec_file_name(to@)),
        ]),
        Operation::Restore { items } => tv(TextKey::Restored, seq![
            TextArgView::Items(items.len() as nat),
        ]),
        Operation::SetExecutableAndLaunch { path } => tv(TextKey::SetExecutableAndLaunched, seq![
            TextArgView::Name(spec_file_name(path@)),
        ]),
        Operation::SetPermissions { path, mode } => tv(TextKey::SetPermissions, seq![
            TextArgView::Name(spec_file_name(path@)),
            TextArgView::Mode(mode as nat),
        ]),
    }
}

/// Whether an operation runs long enough to show a progress notification.
pub open spec fn spec_shows_progress(op: Operation) -> bool {
    match op {
        Operation::Compress { .. } | Operation::Copy { .. } | Operation::Delete { .. }
        | Operation::DeleteTrash { .. } | Operation::EmptyTrash | Operation::Extract { .. }
        | Operation::Move { .. } | Operation::PermanentlyDelete { .. }
        | Operation::Restore { .. } => true,
        _ => false,
    }
}

/// Whether a finished operation is announced with a toast.
pub open spec fn spec_has_toast(op: Operation) -> bool {
    op is Compress || op is Delete || op is Extract
}

impl Operation {
    /// Describes the operation while it runs, `percent` done.
    pub fn pending_text(&self, percent: i32, state: ControllerState) -> (r: OperationText)
        ensures
            r@ == spec_pending_text(*self, percent, state),
    {
        let pr = TextArg::Progress(state, percent);
        match self {
            Operation::Compress { paths, to, .. } => text4(
                TextKey::Compressing,
                TextArg::Items(paths.len()),
                TextArg::From(paths_parent_name(paths)),
                TextArg::To(file_name_of(to)),
                pr,
            ),
            Operation::Copy { paths, to } => text4(
                TextKey::Copying,
                TextArg::Items(paths.len()),
                TextArg::From(paths_parent_name(paths)),
                TextArg::To(file_name_of(to)),
                pr,
            ),
            Operation::Delete { paths } => text4(
                TextKey::Moving,
                TextArg::Items(paths.len()),
                TextArg::From(paths_parent_name(paths)),
                TextArg::To(FolderName::Trash),
                pr,
            ),
            Operation::DeleteTrash { items } => text2(TextKey::Deleting, TextArg::Items(items.len()), pr),
            Operation::EmptyTrash => text1(TextKey::EmptyingTrash, pr),
            Operation::Extract { paths, to, .. } => text4(
                TextKey::Extracting,
                TextArg::Items(paths.len()),
                TextArg::From(paths_parent_name(paths)),
                TextArg::To(file_name_of(to)),
                pr,
            ),
            Operation::Move { paths, to, .. } => text4(
                TextKey::Moving,
                TextArg::Items(paths.len()),
                TextArg::From(paths_parent_name(paths)),
                TextArg::To(file_name_of(to)),
                pr,
            ),
            Operation::NewFile { path } => text2(
                TextKey::Creating,
                TextArg::Name(file_name_of(path)),
                TextArg::Parent(parent_name(path)),
            ),
            Operation::NewFolder { path } => text2(
                TextKey::Creating,
                TextArg::Name(file_name_of(path)),
                TextArg::Parent(parent_name(path)),
            ),
            Operation::PermanentlyDelete { paths } => text1(TextKey::PermanentlyDeleting, TextArg::Items(paths.len())),
            Operation::Rename { from, to } => text2(
                TextKey::Renaming,
                TextArg::From(file_name_of(from)),
                TextArg::To(file_name_of(to)),
            ),
            Operation::RemoveFromRecents { paths } => text1(TextKey::RemovingFromRecents, TextArg::Items(paths.len())),
            Operation::Restore { items } => text2(TextKey::Restoring, TextArg::Items(items.len()), pr),
            Operation::SetExecutableAndLaunch { path } => text1(
                TextKey::SettingExecutableAndLaunching,
                TextArg::Name(file_name_of(path)),
            ),
            Operation::SetPermissions { path, mode } => text2(
                TextKey::SettingPermissions,
                TextArg::Name(file_name_of(path)),
                TextArg::Mode(*mode),
            ),
        }
    }

    /// Describes the operation once it has finished.
    pub fn completed_text(&self) -> (r: OperationText)
        ensures
            r@ == spec_completed_text(*self),
    {
        match self {
            Operation::Compress { paths, to, .. } => text3(
                TextKey::Compressed,
                TextArg::Items(paths.len()),
                TextArg::From(paths_parent_name(paths)),
                TextArg::To(file_name_of(to)),
            ),
            Operation::Copy { paths, to } => text3(
                TextKey::Copied,
                TextArg::Items(paths.len()),
                TextArg::From(paths_parent_name(paths)),
                TextArg::To(file_name_of(to)),
            ),
            Operation::Delete { paths } => text3(
                TextKey::Moved,
                TextArg::Items(paths.len()),
                TextArg::From(paths_parent_name(paths)),
                TextArg::To(FolderName::Trash),
            ),
            Operation::DeleteTrash { items } => text1(TextKey::Deleted, TextArg::Items(items.len())),
            Operation::EmptyTrash => {
                let r = OperationText { key: TextKey::EmptiedTrash, args: Vec::new() };
                assert(r@.args =~= seq![]);
                r
            },
            Operation::Extract { paths, to, .. } => text3(
                TextKey::Extracted,
                TextArg::Items(paths.len()),
                TextArg::From(paths_parent_name(paths)),
                TextArg::To(file_name_of(to)),
            ),
            Operation::Move { paths, to, .. } => text3(
                TextKey::Moved,
                TextArg::Items(paths.len()),
                TextArg::From(paths_parent_name(paths)),
                TextArg::To(file_name_of(to)),
            ),
            Operation::NewFile { path } => text2(
                TextKey::Created,
                TextArg::Name(file_name_of(path)),
                TextArg::Parent(parent_name(path)),
            ),
            Operation::NewFolder { path } => text2(
                TextKey::Created,
                TextArg::Name(file_name_of(path)),
                TextArg::Parent(parent_name(path)),
            ),
            Operation::PermanentlyDelete { paths } => text1(TextKey::PermanentlyDeleted, TextArg::Items(paths.len())),
            Operation::RemoveFromRecents { paths } => text1(TextKey::RemovedFromRecents, TextArg::Items(paths.len())),
            Operation::Rename { from, to } => text2(
                TextKey::Renamed,
                TextArg::From(file_name_of(from)),
                TextArg::To(file_name_of(to)),
            ),
            Operation::Restore { items } => text1(TextKey::Restored, TextArg::Items(items.len())),
            Operation::SetExecutableAndLaunch { path } => text1(
                TextKey::SetExecutableAndLaunched,
                TextArg::Name(file_name_of(path)),
            ),
            Operation::SetPermissions { path, mode } => text2(
                TextKey::SetPermissions,
                TextArg::Name(file_name_of(path)),
                TextArg::Mode(*mode),
            ),
        }
    }

    /// Long running operations show a progress notification.
    pub fn show_progress_notification(&self) -> (r: bool)
        ensures
            r == spec_shows_progress(*self),
    {
        match self {
            Operation::Compress { .. } | Operation::Copy { .. } | Operation::Delete { .. }
            | Operation::DeleteTrash { .. } | Operation::EmptyTrash | Operation::Extract { .. }
            | Operation::Move { .. } | Operation::PermanentlyDelete { .. }
            | Operation::Restore { .. } => true,
            Operation::NewFile { .. } | Operation::NewFolder { .. }
            | Operation::RemoveFromRecents { .. } | Operation::Rename { .. }
            | Operation::SetExecutableAndLaunch { .. } | Operation::SetPermissions { .. } => false,
        }
    }

    /// The toast announcing the finished operation, for those that have one.
    pub fn toast(&self) -> (r: Option<OperationText>)
        ensures
            r is Some <==> spec_has_toast(*self),
            r matches Some(t) ==> t@ == spec_completed_text(*self),
    {
        match self {
            Operation::Compress { .. } => Some(self.completed_text()),
            Operation::Delete { .. } => Some(self.completed_text()),
            Operation::Extract { .. } => Some(self.completed_text()),
            _ => None,
        }
    }
}


/// The archive extensions whose archives extract into a folder of the same
/// name without them, in the order they are tried.
pub open spec fn archive_extensions() -> Seq<Seq<char>> {
    seq![".tar.gz"@, ".tgz"@, ".tar"@, ".zip"@]
}

/// The compound extensions that a copy keeps whole, in the order they are tried.
pub open spec fn compound_extensions() -> Seq<Seq<char>> {
    seq![
        ".tar.gz"@, ".tar.bz2"@, ".tar.xz"@, ".tar.zst"@, ".tar.lz"@, ".tar.lzma"@,
        ".tar.sz"@, ".tar.lzo"@, ".tar.br"@, ".tar.Z"@, ".tar.pz"@,
    ]
}

/// The first index from `i` on of a suffix of `name` among `exts`.
pub open spec fn first_suffix_from(name: Seq<char>, exts: Seq<Seq<char>>, i: int) -> Option<int>
    decreases exts.len() - i,
{
    if i < 0 || i >= exts.len() {
        None
    } else if has_suffix(name, exts[i]) {
        Some(i)
    } else {
        first_suffix_from(name, exts, i + 1)
    }
}

fn archive_extension(i: usize) -> (r: &'static str)
    requires
        i < 4,
    ensures
        r@ == archive_extensions()[i as int],
{
    if i == 0 { ".tar.gz" } else if i == 1 { ".tgz" } else if i == 2 { ".tar" } else { ".zip" }
}

fn compound_extension(i: usize) -> (r: &'static str)
    requires
        i < 11,
    ensures
        r@ == compound_extensions()[i as int],
        r@.len() >= 1,
{
    proof {
        reveal_strlit(".tar.gz");
        reveal_strlit(".tar.bz2");
        reveal_strlit(".tar.xz");
        reveal_strlit(".tar.zst");
        reveal_strlit(".tar.lz");
        reveal_strlit(".tar.lzma");
        reveal_strlit(".tar.sz");
        reveal_strlit(".tar.lzo");
        reveal_strlit(".tar.br");
        reveal_strlit(".tar.Z");
        reveal_strlit(".tar.pz");
    }
    if i == 0 { ".tar.gz" }
    else if i == 1 { ".tar.bz2" }
    else if i == 2 { ".tar.xz" }
    else if i == 3 { ".tar.zst" }
    else if i == 4 { ".tar.lz" }
    else if i == 5 { ".tar.lzma" }
    else if i == 6 { ".tar.sz" }
    else if i == 7 { ".tar.lzo" }
    else if i == 8 { ".tar.br" }
    else if i == 9 { ".tar.Z" }
    else { ".tar.pz" }
}

/// The name of the folder that an archive named `file_name` extracts into.
pub open spec fn spec_directory_name(file_name: Seq<char>) -> Seq<char> {
    match first_suffix_from(file_name, archive_extensions(), 0) {
        Some(i) => file_name.subrange(0, file_name.len() - archive_extensions()[i].len()),
        None => file_name,
    }
}

/// The archive's name without its archive extension.
pub fn get_directory_name(file_name: &str) -> (r: String)
    ensures
        r@ == spec_directory_name(file_name@),
{
    let mut i: usize = 0;
    while i < 4
        invariant
            i <= 4,
            first_suffix_from(file_name@, archive_extensions(), 0) == first_suffix_from(
                file_name@,
                archive_extensions(),
                i as int,
            ),
        decreases 4 - i,
    {
        let ext = archive_extension(i);
        if ends_with(file_name, ext) {
            let n = file_name.unicode_len();
            let m = ext.unicode_len();
            return substring(file_name, 0, n - m);
        }
        i = i + 1;
    }
    copy_str(file_name)
}

/// The last three characters of a text that ends with `a` are those of `a`.
proof fn lemma_suffix_tail(s: Seq<char>, a: Seq<char>)
    ensures
        has_suffix(s, a) && a.len() >= 3 ==> {
            &&& s[s.len() - 1] == a[a.len() - 1]
            &&& s[s.len() - 2] == a[a.len() - 2]
            &&& s[s.len() - 3] == a[a.len() - 3]
        },
{
    if has_suffix(s, a) && a.len() >= 3 {
        let t = s.subrange(s.len() - a.len(), s.len() as int);
        assert(t[a.len() - 1] == s[s.len() - 1]);
        assert(t[a.len() - 2] == s[s.len() - 2]);
        assert(t[a.len() - 3] == s[s.len() - 3]);
    }
}

/// An archive whose name ends in an archive extension (`.tar.gz`, `.tgz`,
/// `.tar`, `.zip`) extracts into a folder named like it without that
/// extension: the folder's name followed by the extension is the archive's
/// name. Any other name is kept whole.
pub proof fn lemma_directory_name_drops_extension(name: Seq<char>)
    ensures
        has_suffix(name, ".tar.gz"@) ==> spec_directory_name(name) + ".tar.gz"@ == name,
        has_suffix(name, ".tgz"@) ==> spec_directory_name(name) + ".tgz"@ == name,
        has_suffix(name, ".tar"@) ==> spec_directory_name(name) + ".tar"@ == name,
        has_suffix(name, ".zip"@) ==> spec_directory_name(name) + ".zip"@ == name,
        !has_suffix(name, ".tar.gz"@) && !has_suffix(name, ".tgz"@) && !has_suffix(name, ".tar"@) && !has_suffix(
            name,
            ".zip"@,
        ) ==> spec_directory_name(name) == name,
{
    reveal_strlit(".tar.gz");
    reveal_strlit(".tgz");
    reveal_strlit(".tar");
    reveal_strlit(".zip");
    lemma_suffix_tail(name, ".tar.gz"@);
    lemma_suffix_tail(name, ".tgz"@);
    lemma_suffix_tail(name, ".tar"@);
    lemma_suffix_tail(name, ".zip"@);
    reveal_with_fuel(first_suffix_from, 5);
    let n = name.len() as int;
    if has_suffix(name, ".tar.gz"@) {
        assert(name.subrange(0, n - 7) + ".tar.gz"@ =~= name);
    }
    if has_suffix(name, ".tgz"@) {
        assert(name.subrange(0, n - 4) + ".tgz"@ =~= name);
    }
    if has_suffix(name, ".tar"@) {
        assert(name.subrange(0, n - 4) + ".tar"@ =~= name);
    }
    if has_suffix(name, ".zip"@) {
        assert(name.subrange(0, n - 4) + ".zip"@ =~= name);
    }
}

/// The name under which the `n`-th copy of `file_name` is made in the same
/// folder: the name itself first, then `stem (noun n)` with the extension
/// kept after it.
pub open spec fn copy_candidate(
    file_name: Seq<char>,
    stem: Seq<char>,
    ext: Option<Seq<char>>,
    noun: Seq<char>,
    n: nat,
) -> Seq<char> {
    if n == 0 {
        file_name
    } else {
        let base = stem + seq![' ', '('] + noun + seq![' '] + decimal(n) + seq![')'];
        match ext {
            Some(e) => base + seq!['.'] + e,
            None => base,
        }
    }
}

/// How a file name is split into a stem and the extension that copies keep:
/// folders keep their whole name; a compound archive extension is kept whole;
/// otherwise the path's stem and extension are used.
pub open spec fn spec_copy_split(
    file_name: Seq<char>,
    is_dir: bool,
    stem: Option<Seq<char>>,
    ext: Option<Seq<char>>,
) -> (Seq<char>, Option<Seq<char>>) {
    if is_dir {
        (file_name, None)
    } else {
        match first_suffix_from(file_name, compound_extensions(), 0) {
            Some(i) => (
                file_name.subrange(0, file_name.len() - compound_extensions()[i].len()),
                Some(compound_extensions()[i].subrange(1, compound_extensions()[i].len() as int)),
            ),
            None => match stem {
                Some(s) => (s, ext),
                None => (file_name, None),
            },
        }
    }
}

/// The decimal text of a number determines the number.
pub proof fn lemma_decimal_injective(a: nat, b: nat)
    requires
        decimal(a) == decimal(b),
    ensures
        a == b,
    decreases a + b,
{
    lemma_decimal_nonempty(a);
    lemma_decimal_nonempty(b);
    if a < 10 && b < 10 {
        assert(decimal(a) == seq![digit_char(a)]);
        assert(decimal(b) == seq![digit_char(b)]);
        assert(decimal(a)[0] == digit_char(a));
        assert(decimal(b)[0] == digit_char(b));
        lemma_digit_char_injective(a, b);
    } else if a < 10 {
        lemma_decimal_nonempty(b / 10);
        assert(decimal(b).len() >= 2);
    } else if b < 10 {
        lemma_decimal_nonempty(a / 10);
        assert(decimal(a).len() >= 2);
    } else {
        let da = decimal(a / 10);
        let db = decimal(b / 10);
        assert(decimal(a).last() == digit_char(a % 10));
        assert(decimal(b).last() == digit_char(b % 10));
        assert(decimal(a).drop_last() =~= da);
        assert(decimal(b).drop_last() =~= db);
        lemma_digit_char_injective(a % 10, b % 10);
        lemma_decimal_injective(a / 10, b / 10);
    }
}

proof fn lemma_digit_char_injective(a: nat, b: nat)
    requires
        a < 10,
        b < 10,
        digit_char(a) == digit_char(b),
    ensures
        a == b,
{
}

/// Decimal text is never empty.
pub proof fn lemma_decimal_nonempty(a: nat)
    ensures
        decimal(a).len() >= 1,
    decreases a,
{
    if a >= 10 {
        lemma_decimal_nonempty(a / 10);
    }
}

proof fn lemma_copy_candidate_injective(
    file_name: Seq<char>,
    stem: Seq<char>,
    ext: Option<Seq<char>>,
    noun: Seq<char>,
    a: nat,
    b: nat,
)
    requires
        a >= 1,
        b >= 1,
        copy_candidate(file_name, stem, ext, noun, a) == copy_candidate(file_name, stem, ext, noun, b),
    ensures
        a == b,
{
    let p = stem + seq![' ', '('] + noun + seq![' '];
    let tail = match ext {
        Some(e) => seq![')'] + seq!['.'] + e,
        None => seq![')'],
    };
    let ca = copy_candidate(file_name, stem, ext, noun, a);
    let cb = copy_candidate(file_name, stem, ext, noun, b);
    assert(ca =~= p + decimal(a) + tail);
    assert(cb =~= p + decimal(b) + tail);
    assert(decimal(a).len() == decimal(b).len());
    assert(ca.subrange(p.len() as int, (p.len() + decimal(a).len()) as int) =~= decimal(a));
    assert(cb.subrange(p.len() as int, (p.len() + decimal(b).len()) as int) =~= decimal(b));
    lemma_decimal_injective(a, b);
}

/// Among the first `len + 1` numbered copy names, one is not in a list of
/// `len` names.
proof fn lemma_free_copy_candidate(
    file_name: Seq<char>,
    stem: Seq<char>,
    ext: Option<Seq<char>>,
    noun: Seq<char>,
    existing: Seq<Seq<char>>,
)
    ensures
        exists|k: nat|
            1 <= k <= existing.len() + 1 && !existing.contains(
                #[trigger] copy_candidate(file_name, stem, ext, noun, k),
            ),
{
    if forall|k: nat|
        1 <= k <= existing.len() + 1 ==> existing.contains(
            #[trigger] copy_candidate(file_name, stem, ext, noun, k),
        ) {
        let l = existing.len() as int;
        let x = vstd::set_lib::set_int_range(1, l + 2);
        let f = |i: int| copy_candidate(file_name, stem, ext, noun, i as nat);
        vstd::set_lib::lemma_int_range(1, l + 2);
        assert(vstd::relations::injective_on(f, x)) by {
            assert forall|i: int, j: int|
                x.contains(i) && x.contains(j) && #[trigger] f(i) == #[trigger] f(j) implies i == j by {
                lemma_copy_candidate_injective(file_name, stem, ext, noun, i as nat, j as nat);
            }
        }
        let y = x.map(f);
        vstd::set_lib::lemma_map_size(x, y, f);
        assert(y.subset_of(existing.to_set())) by {
            assert forall|c: Seq<char>| #[trigger] y.contains(c) implies existing.to_set().contains(c) by {
                let i = choose|i: int| x.contains(i) && f(i) == c;
                let k = i as nat;
                assert(1 <= k <= existing.len() + 1);
                assert(existing.contains(copy_candidate(file_name, stem, ext, noun, k)));
            }
        }
        existing.lemma_cardinality_of_set();
        vstd::set_lib::lemma_len_subset(y, existing.to_set());
        assert(false);
    }
}

/// Whether `names` holds `name`.
pub fn contains_name(names: &Vec<String>, name: &str) -> (r: bool)
    ensures
        r == strs_view(names@).contains(name@),
{
    let ghost v = strs_view(names@);
    let mut i: usize = 0;
    while i < names.len()
        invariant
            v == strs_view(names@),
            v.len() == names@.len(),
            i <= names.len(),
            forall|j: int| 0 <= j < i ==> v[j] != name@,
        decreases names.len() - i,
    {
        if str_equal(names[i].as_str(), name) {
            assert(v[i as int] == name@);
            return true;
        }
        i = i + 1;
    }
    false
}

fn build_copy_candidate(
    file_name: &str,
    stem: &str,
    ext: &Option<String>,
    noun: &str,
    n: usize,
) -> (r: String)
    ensures
        r@ == copy_candidate(file_name@, stem@, opt_view(*ext), noun@, n as nat),
{
    if n == 0 {
        return copy_str(file_name);
    }
    let mut s = copy_str(stem);
    push_char(&mut s, ' ');
    push_char(&mut s, '(');
    s.append(noun);
    push_char(&mut s, ' ');
    let d = u64_to_decimal(n as u64);
    s.append(d.as_str());
    push_char(&mut s, ')');
    let ghost base = s@;
    assert(base =~= stem@ + seq![' ', '('] + noun@ + seq![' '] + decimal(n as nat) + seq![')']);
    match ext {
        Some(e) => {
            push_char(&mut s, '.');
            s.append(e.as_str());
            assert(s@ =~= base + seq!['.'] + e@);
        },
        None => {},
    }
    s
}

/// Splits off the first compound archive extension that ends `fname`, with
/// its leading dot dropped.
fn compound_split(fname: &str) -> (r: Option<(String, String)>)
    ensures
        match first_suffix_from(fname@, compound_extensions(), 0) {
            Some(i) => r matches Some((st, ex)) && st@ == fname@.subrange(
                0,
                fname@.len() - compound_extensions()[i].len(),
            ) && ex@ == compound_extensions()[i].subrange(1, compound_extensions()[i].len() as int),
            None => r is None,
        },
{
    let mut i: usize = 0;
    while i < 11
        invariant
            i <= 11,
            first_suffix_from(fname@, compound_extensions(), 0) == first_suffix_from(
                fname@,
                compound_extensions(),
                i as int,
            ),
        decreases 11 - i,
    {
        let ce = compound_extension(i);
        if ends_with(fname, ce) {
            let n = fname.unicode_len();
            let m = ce.unicode_len();
            return Some((substring(fname, 0, n - m), substring(ce, 1, m)));
        }
        i = i + 1;
    }
    None
}

/// Whether `r` is the path under which a copy of `from` is made in the
/// folder `to` whose entries are named `existing`: `to` joined with the
/// first candidate name (see [`copy_candidate`]) that is not taken; `to`
/// itself when `from` has no file name.
pub open spec fn unique_copy_path(
    from: Seq<char>,
    from_is_dir: bool,
    to: Seq<char>,
    existing: Seq<Seq<char>>,
    noun: Seq<char>,
    r: Seq<char>,
) -> bool {
    match path_file_name(from) {
        None => r == to,
        Some(fname) => {
            let (stem, ext) = spec_copy_split(fname, from_is_dir, path_file_stem(from), path_extension(from));
            exists|n: nat|
                {
                    &&& r == path_join(to, #[trigger] copy_candidate(fname, stem, ext, noun, n))
                    &&& !existing.contains(copy_candidate(fname, stem, ext, noun, n))
                    &&& forall|k: nat| k < n ==> existing.contains(#[trigger] copy_candidate(fname, stem, ext, noun, k))
                }
        },
    }
}

/// A numbered copy of a file (not a folder) whose name ends in a compound
/// archive extension (`.tar.gz`, `.tar.bz2`, `.tar.xz`, `.tar.zst`,
/// `.tar.lz`, `.tar.lzma`, `.tar.sz`, `.tar.lzo`, `.tar.br`, `.tar.Z`,
/// `.tar.pz`) keeps that extension whole: the copy is made under the file's
/// own name, or under the name without the extension, then
/// ` (noun n)` for some `n` from 1 on, then the whole extension.
pub proof fn lemma_copy_keeps_compound_extension(
    from: Seq<char>,
    to: Seq<char>,
    existing: Seq<Seq<char>>,
    noun: Seq<char>,
    r: Seq<char>,
    e: Seq<char>,
)
    requires
        seq![
            ".tar.gz"@, ".tar.bz2"@, ".tar.xz"@, ".tar.zst"@, ".tar.lz"@, ".tar.lzma"@,
            ".tar.sz"@, ".tar.lzo"@, ".tar.br"@, ".tar.Z"@, ".tar.pz"@,
        ].contains(e),
        path_file_name(from) matches Some(f) && has_suffix(f, e),
        unique_copy_path(from, false, to, existing, noun, r),
    ensures
        ({
            let f = path_file_name(from)->0;
            ||| r == path_join(to, f)
            ||| exists|n: nat|
                n >= 1 && r == path_join(
                    to,
                    f.subrange(0, f.len() - e.len()) + seq![' ', '('] + noun + seq![' '] + decimal(n) + seq![')'] + e,
                )
        }),
{
    reveal_strlit(".tar.gz");
    reveal_strlit(".tar.bz2");
    reveal_strlit(".tar.xz");
    reveal_strlit(".tar.zst");
    reveal_strlit(".tar.lz");
    reveal_strlit(".tar.lzma");
    reveal_strlit(".tar.sz");
    reveal_strlit(".tar.lzo");
    reveal_strlit(".tar.br");
    reveal_strlit(".tar.Z");
    reveal_strlit(".tar.pz");
    let f = path_file_name(from)->0;
    let c = compound_extensions();
    let k = choose|k: int| 0 <= k < c.len() && c[k] == e;
    lemma_suffix_tail(f, c[0]);
    lemma_suffix_tail(f, c[1]);
    lemma_suffix_tail(f, c[2]);
    lemma_suffix_tail(f, c[3]);
    lemma_suffix_tail(f, c[4]);
    lemma_suffix_tail(f, c[5]);
    lemma_suffix_tail(f, c[6]);
    lemma_suffix_tail(f, c[7]);
    lemma_suffix_tail(f, c[8]);
    lemma_suffix_tail(f, c[9]);
    lemma_suffix_tail(f, c[10]);
    reveal_with_fuel(first_suffix_from, 12);
    assert(first_suffix_from(f, c, 0) == Some(k)) by {
        if k == 0 {
        } else if k == 1 {
        } else if k == 2 {
        } else if k == 3 {
        } else if k == 4 {
        } else if k == 5 {
        } else if k == 6 {
        } else if k == 7 {
        } else if k == 8 {
        } else if k == 9 {
        } else {
        }
    }
    assert(e[0] == '.');
    let stem = f.subrange(0, f.len() - e.len());
    let x = e.subrange(1, e.len() as int);
    assert(spec_copy_split(f, false, path_file_stem(from), path_extension(from)) == (stem, Some(x)));
    assert(seq!['.'] + x =~= e);
    let n = choose|n: nat|
        {
            &&& r == path_join(to, #[trigger] copy_candidate(f, stem, Some(x), noun, n))
            &&& !existing.contains(copy_candidate(f, stem, Some(x), noun, n))
            &&& forall|j: nat| j < n ==> existing.contains(#[trigger] copy_candidate(f, stem, Some(x), noun, j))
        };
    if n >= 1 {
        let base = stem + seq![' ', '('] + noun + seq![' '] + decimal(n) + seq![')'];
        assert(copy_candidate(f, stem, Some(x), noun, n) == base + seq!['.'] + x);
        assert(base + seq!['.'] + x =~= base + e);
    }
}

/// The name a copy takes is free in the target folder, and where the item's
/// own name is free the copy takes it.
pub proof fn lemma_copy_name_free(
    from: Seq<char>,
    from_is_dir: bool,
    to: Seq<char>,
    existing: Seq<Seq<char>>,
    noun: Seq<char>,
    r: Seq<char>,
)
    requires
        unique_copy_path(from, from_is_dir, to, existing, noun, r),
        path_file_name(from) is Some,
    ensures
        exists|nm: Seq<char>| r == path_join(to, nm) && !existing.contains(nm),
        !existing.contains(path_file_name(from)->0) ==> r == path_join(to, path_file_name(from)->0),
{
    let f = path_file_name(from)->0;
    let (stem, ext) = spec_copy_split(f, from_is_dir, path_file_stem(from), path_extension(from));
    let n = choose|n: nat|
        {
            &&& r == path_join(to, #[trigger] copy_candidate(f, stem, ext, noun, n))
            &&& !existing.contains(copy_candidate(f, stem, ext, noun, n))
            &&& forall|k: nat| k < n ==> existing.contains(#[trigger] copy_candidate(f, stem, ext, noun, k))
        };
    let nm = copy_candidate(f, stem, ext, noun, n);
    assert(r == path_join(to, nm) && !existing.contains(nm));
    if !existing.contains(f) && n > 0 {
        assert(existing.contains(copy_candidate(f, stem, ext, noun, 0)));
    }
}

/// A numbered copy of a folder keeps the folder's whole name before the
/// copy number: the copy is made under the folder's own name or under
/// `name (noun n)` for some `n` from 1 on.
pub proof fn lemma_folder_copy_name(
    from: Seq<char>,
    to: Seq<char>,
    existing: Seq<Seq<char>>,
    noun: Seq<char>,
    r: Seq<char>,
)
    requires
        unique_copy_path(from, true, to, existing, noun, r),
        path_file_name(from) is Some,
    ensures
        ({
            let f = path_file_name(from)->0;
            ||| r == path_join(to, f)
            ||| exists|n: nat|
                n >= 1 && r == path_join(to, f + seq![' ', '('] + noun + seq![' '] + decimal(n) + seq![')'])
        }),
{
    let f = path_file_name(from)->0;
    let n = choose|n: nat|
        {
            &&& r == path_join(to, #[trigger] copy_candidate(f, f, None, noun, n))
            &&& !existing.contains(copy_candidate(f, f, None, noun, n))
            &&& forall|k: nat| k < n ==> existing.contains(#[trigger] copy_candidate(f, f, None, noun, k))
        };
    if n >= 1 {
        assert(r == path_join(to, f + seq![' ', '('] + noun + seq![' '] + decimal(n) + seq![')']));
    }
}

/// A numbered copy of a file whose name ends in none of the compound
/// archive extensions puts the copy number between the path's stem and its
/// extension: `stem (noun n).ext`, or `stem (noun n)` without an extension.
pub proof fn lemma_file_copy_name(
    from: Seq<char>,
    to: Seq<char>,
    existing: Seq<Seq<char>>,
    noun: Seq<char>,
    r: Seq<char>,
)
    requires
        unique_copy_path(from, false, to, existing, noun, r),
        path_file_name(from) matches Some(f) && {
            &&& !has_suffix(f, ".tar.gz"@)
            &&& !has_suffix(f, ".tar.bz2"@)
            &&& !has_suffix(f, ".tar.xz"@)
            &&& !has_suffix(f, ".tar.zst"@)
            &&& !has_suffix(f, ".tar.lz"@)
            &&& !has_suffix(f, ".tar.lzma"@)
            &&& !has_suffix(f, ".tar.sz"@)
            &&& !has_suffix(f, ".tar.lzo"@)
            &&& !has_suffix(f, ".tar.br"@)
            &&& !has_suffix(f, ".tar.Z"@)
            &&& !has_suffix(f, ".tar.pz"@)
        },
        path_file_stem(from) is Some,
    ensures
        ({
            let f = path_file_name(from)->0;
            let s = path_file_stem(from)->0;
            ||| r == path_join(to, f)
            ||| exists|n: nat|
                n >= 1 && r == path_join(
                    to,
                    s + seq![' ', '('] + noun + seq![' '] + decimal(n) + seq![')'] + match path_extension(from) {
                        Some(e) => seq!['.'] + e,
                        None => Seq::<char>::empty(),
                    },
                )
        }),
{
    reveal_strlit(".tar.gz");
    reveal_strlit(".tar.bz2");
    reveal_strlit(".tar.xz");
    reveal_strlit(".tar.zst");
    reveal_strlit(".tar.lz");
    reveal_strlit(".tar.lzma");
    reveal_strlit(".tar.sz");
    reveal_strlit(".tar.lzo");
    reveal_strlit(".tar.br");
    reveal_strlit(".tar.Z");
    reveal_strlit(".tar.pz");
    let f = path_file_name(from)->0;
    let s = path_file_stem(from)->0;
    let x = path_extension(from);
    reveal_with_fuel(first_suffix_from, 12);
    assert(first_suffix_from(f, compound_extensions(), 0) is None);
    assert(spec_copy_split(f, false, path_file_stem(from), x) == (s, x));
    let n = choose|n: nat|
        {
            &&& r == path_join(to, #[trigger] copy_candidate(f, s, x, noun, n))
            &&& !existing.contains(copy_candidate(f, s, x, noun, n))
            &&& forall|k: nat| k < n ==> existing.contains(#[trigger] copy_candidate(f, s, x, noun, k))
        };
    if n >= 1 {
        let base = s + seq![' ', '('] + noun + seq![' '] + decimal(n) + seq![')'];
        let tail = match x {
            Some(e) => seq!['.'] + e,
            None => Seq::<char>::empty(),
        };
        assert(copy_candidate(f, s, x, noun, n) =~= base + tail);
    }
}

/// The path under which a copy of `from` is made in the folder `to`, where
/// `existing` names the entries already in `to`: the first free name among
/// the file's own name and its numbered copy names (`noun` words the copy,
/// as "Copy" does in "report (Copy 2).txt"). A path without a file name
/// leaves `to` itself.
pub fn copy_unique_path(
    from: &str,
    from_is_dir: bool,
    to: &str,
    existing: &Vec<String>,
    noun: &str,
) -> (r: String)
    requires
        existing@.len() < usize::MAX,
    ensures
        unique_copy_path(from@, from_is_dir, to@, strs_view(existing@), noun@, r@),
{
    let fname = match file_name(from) {
        Some(n) => n,
        None => return copy_str(to),
    };
    let (stem, ext): (String, Option<String>) = if from_is_dir {
        (copy_str(fname.as_str()), None)
    } else {
        match compound_split(fname.as_str()) {
            Some((st, ex)) => (st, Some(ex)),
            None => match file_stem(from) {
                Some(s) => (s, extension(from)),
                None => (copy_str(fname.as_str()), None),
            },
        }
    };
    let ghost split = spec_copy_split(fname@, from_is_dir, path_file_stem(from@), path_extension(from@));
    assert(stem@ == split.0 && opt_view(ext) == split.1);
    let ghost names = strs_view(existing@);
    let mut n: usize = 0;
    loop
        invariant
            n <= existing@.len() + 1,
            existing@.len() < usize::MAX,
            path_file_name(from@) == Some(fname@),
            stem@ == split.0,
            opt_view(ext) == split.1,
            split == spec_copy_split(fname@, from_is_dir, path_file_stem(from@), path_extension(from@)),
            names == strs_view(existing@),
            names.len() == existing@.len(),
            forall|k: nat| k < n ==> names.contains(
                #[trigger] copy_candidate(fname@, stem@, opt_view(ext), noun@, k),
            ),
        decreases existing@.len() + 1 - n,
    {
        let candidate = build_copy_candidate(fname.as_str(), stem.as_str(), &ext, noun, n);
        if !contains_name(existing, candidate.as_str()) {
            let r = join(to, candidate.as_str());
            assert(r@ == path_join(to@, copy_candidate(fname@, stem@, opt_view(ext), noun@, n as nat)));
            assert(!names.contains(copy_candidate(fname@, stem@, opt_view(ext), noun@, n as nat)));
            proof {
                let ghost m: nat = n as nat;
                assert({
                    &&& r@ == path_join(to@, copy_candidate(fname@, stem@, opt_view(ext), noun@, m))
                    &&& !strs_view(existing@).contains(copy_candidate(fname@, stem@, opt_view(ext), noun@, m))
                    &&& forall|k: nat| k < m ==> strs_view(existing@).contains(
                        #[trigger] copy_candidate(fname@, stem@, opt_view(ext), noun@, k),
                    )
                });
            }
            return r;
        }
        assert(names.contains(copy_candidate(fname@, stem@, opt_view(ext), noun@, n as nat)));
        if n > existing.len() {
            proof {
                lemma_free_copy_candidate(fname@, stem@, opt_view(ext), noun@, names);
                let k = choose|k: nat|
                    1 <= k <= names.len() + 1 && !names.contains(
                        #[trigger] copy_candidate(fname@, stem@, opt_view(ext), noun@, k),
                    );
                if k < n {
                }
            }
        }
        n = n + 1;
    }
}

/// Whether copying `from` into `to` duplicates it in its own folder.
pub open spec fn copies_in_place(from: Seq<char>, to: Seq<char>, copying: bool) -> bool {
    copying && (path_parent(from) matches Some(p) && path_eq(p, to))
}

/// Where the item at `from` goes when it is copied (`copying`) or moved into
/// the folder `to`: copied into its own folder, the first free copy name
/// there (see [`copy_unique_path`]; `existing` names that folder's entries,
/// `from_is_dir` tells whether the item is a folder); else `to` joined with
/// the item's name; none for a path without a name.
pub fn copy_destination(
    from: &str,
    to: &str,
    copying: bool,
    from_is_dir: bool,
    existing: &Vec<String>,
    noun: &str,
) -> (r: Option<String>)
    requires
        existing@.len() < usize::MAX,
    ensures
        copies_in_place(from@, to@, copying) ==> (r matches Some(t) && unique_copy_path(
            from@,
            from_is_dir,
            to@,
            strs_view(existing@),
            noun@,
            t@,
        )),
        !copies_in_place(from@, to@, copying) ==> match path_file_name(from@) {
            Some(n) => r matches Some(t) && t@ == path_join(to@, n),
            None => r is None,
        },
{
    if copying {
        match parent(from) {
            Some(p) => {
                if same_path(p.as_str(), to) {
                    return Some(copy_unique_path(from, from_is_dir, to, existing, noun));
                }
            },
            None => {},
        }
    }
    match file_name(from) {
        Some(n) => Some(join(to, n.as_str())),
        None => None,
    }
}

/// What the copy engine is told to do with an item.
#[derive(Clone, Copy, Debug, PartialEq, Eq, Structural)]
pub enum TransitAnswer {
    Overwrite,
    OverwriteAll,
    Skip,
    SkipAll,
    Abort,
    ContinueOrAbort,
}

/// The copy engine's answer for the user's answer to a conflict: replace
/// and skip (once or for all) carry over; keeping both cannot be done by
/// the engine and, like cancelling, aborts.
pub open spec fn spec_transit_answer(r: ReplaceResult) -> TransitAnswer {
    match r {
        ReplaceResult::Replace(all) => if all {
            TransitAnswer::OverwriteAll
        } else {
            TransitAnswer::Overwrite
        },
        ReplaceResult::KeepBoth => TransitAnswer::Abort,
        ReplaceResult::Skip(all) => if all {
            TransitAnswer::SkipAll
        } else {
            TransitAnswer::Skip
        },
        ReplaceResult::Cancel => TransitAnswer::Abort,
    }
}

/// The copy engine's answer for the user's answer to a conflict.
pub fn transit_answer(r: ReplaceResult) -> (a: TransitAnswer)
    ensures
        a == spec_transit_answer(r),
{
    match r {
        ReplaceResult::Replace(all) => if all {
            TransitAnswer::OverwriteAll
        } else {
            TransitAnswer::Overwrite
        },
        ReplaceResult::KeepBoth => TransitAnswer::Abort,
        ReplaceResult::Skip(all) => if all {
            TransitAnswer::SkipAll
        } else {
            TransitAnswer::Skip
        },
        ReplaceResult::Cancel => TransitAnswer::Abort,
    }
}

/// The state that the copy engine reports for an item.
#[derive(Clone, Copy, Debug, PartialEq, Eq, Structural)]
pub enum TransitState {
    Normal,
    Exists,
    NoAccess,
}

/// What to do on a progress report of the copy engine.
#[derive(Clone, Debug, PartialEq, Eq)]
pub enum ProgressStep {
    /// Answer the engine at once.
    Answer(TransitAnswer),
    /// Ask the user whether to replace the destination (`to`) by the
    /// source (`from`), then answer with [`transit_answer`].
    AskReplace { from: String, to: String },
}

/// What to do on a progress report: go on for normal items and items that
/// cannot be accessed; for an existing destination, abort when a path is
/// missing or the item would be copied onto itself, else ask the user.
pub fn progress_step(state: TransitState, file_from: Option<&str>, file_to: Option<&str>) -> (r: ProgressStep)
    ensures
        state == TransitState::Normal ==> r == ProgressStep::Answer(TransitAnswer::ContinueOrAbort),
        state == TransitState::NoAccess ==> r == ProgressStep::Answer(TransitAnswer::ContinueOrAbort),
        state == TransitState::Exists ==> match (file_from, file_to) {
            (Some(f), Some(t)) => if path_eq(f@, t@) {
                r == ProgressStep::Answer(TransitAnswer::Abort)
            } else {
                r matches ProgressStep::AskReplace { from, to } && from@ == f@ && to@ == t@
            },
            _ => r == ProgressStep::Answer(TransitAnswer::Abort),
        },
{
    match state {
        TransitState::Normal => ProgressStep::Answer(TransitAnswer::ContinueOrAbort),
        TransitState::NoAccess => ProgressStep::Answer(TransitAnswer::ContinueOrAbort),
        TransitState::Exists => match (file_from, file_to) {
            (Some(f), Some(t)) => if same_path(f, t) {
                ProgressStep::Answer(TransitAnswer::Abort)
            } else {
                ProgressStep::AskReplace { from: copy_str(f), to: copy_str(t) }
            },
            _ => ProgressStep::Answer(TransitAnswer::Abort),
        },
    }
}

impl OperationError {
    /// The error of an operation stopped by its controller in `state`: a
    /// failure stays a failure (`failed_msg`) and the controller is marked
    /// failed; anything else is a cancellation (`cancelled_msg`) and the
    /// controller is cancelled.
    pub fn from_state(
        state: ControllerState,
        controller: &mut Controller,
        failed_msg: String,
        cancelled_msg: String,
    ) -> (r: OperationError)
        ensures
            final(controller).primary == old(controller).primary,
            state == ControllerState::Failed ==> spec_state_from_code(final(controller).code)
                == ControllerState::Failed && (r.kind matches OperationErrorType::Generic(m) && m@ == failed_msg@),
            state != ControllerState::Failed ==> spec_state_from_code(final(controller).code)
                == ControllerState::Cancelled && (r.kind matches OperationErrorType::Generic(m) && m@
                == cancelled_msg@),
    {
        if state == ControllerState::Failed {
            controller.set_state(ControllerState::Failed);
            OperationError::from_msg(failed_msg)
        } else {
            controller.cancel();
            OperationError::from_msg(cancelled_msg)
        }
    }

    /// The error of an operation that failed with the error text `err`; the
    /// controller is marked failed.
    pub fn from_err(err: String, controller: &mut Controller) -> (r: OperationError)
        ensures
            final(controller).primary == old(controller).primary,
            spec_state_from_code(final(controller).code) == ControllerState::Failed,
            r.kind matches OperationErrorType::Generic(m) && m@ == err@,
    {
        controller.set_state(ControllerState::Failed);
        OperationError::from_msg(err)
    }

    /// The error of the given kind; the controller is marked failed.
    pub fn from_kind(kind: OperationErrorType, controller: &mut Controller) -> (r: OperationError)
        ensures
            final(controller).primary == old(controller).primary,
            spec_state_from_code(final(controller).code) == ControllerState::Failed,
            r.kind == kind,
    {
        controller.set_state(ControllerState::Failed);
        OperationError { kind }
    }
}

/// The check made before each step of an operation: go on while the
/// operation runs (`Some(Ok(()))`); wait for the next change while it is
/// paused (`None`); stop when it was cancelled or failed, with the error that
/// [`OperationError::from_state`] gives for that state (`failed_msg` for a
/// failure, `cancelled_msg` for a cancellation), the controller left in it.
pub fn check_before_step(
    controller: &mut Controller,
    failed_msg: String,
    cancelled_msg: String,
) -> (r: Option<Result<(), OperationError>>)
    ensures
        final(controller).primary == old(controller).primary,
        spec_state_from_code(final(controller).code) == spec_state_from_code(old(controller).code),
        match spec_check_step(spec_state_from_code(old(controller).code)) {
            None => r is None,
            Some(Ok(())) => r matches Some(Ok(())),
            Some(Err(s)) => r matches Some(Err(e)) && (e.kind matches OperationErrorType::Generic(m) && m@ == if s
                == ControllerState::Failed {
                failed_msg@
            } else {
                cancelled_msg@
            }),
        },
{
    match controller.check_step() {
        None => None,
        Some(Ok(())) => Some(Ok(())),
        Some(Err(s)) => Some(Err(OperationError::from_state(s, controller, failed_msg, cancelled_msg))),
    }
}

/// Where an archive named `file_name` is extracted in the folder `to`: a
/// folder named after the archive without its archive extension; when that
/// folder exists already (`exists`), the first free copy name beside it
/// (see [`copy_unique_path`], with `existing` the names in `to`).
pub fn extract_destination(file_name: &str, to: &str, exists: bool, existing: &Vec<String>, noun: &str) -> (r: String)
    requires
        existing@.len() < usize::MAX,
    ensures
        !exists ==> r@ == path_join(to@, spec_directory_name(file_name@)),
        exists ==> match path_parent(path_join(to@, spec_directory_name(file_name@))) {
            Some(p) => unique_copy_path(
                path_join(to@, spec_directory_name(file_name@)),
                true,
                p,
                strs_view(existing@),
                noun@,
                r@,
            ),
            None => r@ == path_join(to@, spec_directory_name(file_name@)),
        },
{
    let dir_name = get_directory_name(file_name);
    let new_dir = join(to, dir_name.as_str());
    if exists {
        match parent(new_dir.as_str()) {
            Some(p) => copy_unique_path(new_dir.as_str(), true, p.as_str(), existing, noun),
            None => new_dir,
        }
    } else {
        new_dir
    }
}

} // verus!
