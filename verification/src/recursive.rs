//! Planning a recursive copy or move: the steps taken for each walked entry,
//! the clean-up steps of a move, and the answers to conflicts.

use vstd::prelude::*;
use crate::paths::{join, same_path, strip_prefix, parent, path_eq, path_join, path_strip_prefix, path_parent};
use crate::operation::{OperationSelection, ReplaceResult, strs_view, copy_unique_path, unique_copy_path};
use crate::text::copy_str;

verus! {

/// What one step of a recursive copy or move does.
#[derive(Clone, Debug, PartialEq, Eq)]
pub enum OpKind {
    Copy,
    Move,
    Mkdir,
    Remove,
    Rmdir,
    Symlink { target: String },
}

/// One step of a recursive copy or move. Steps that share `origin` are
/// skipped together: a move's clean-up step is skipped with the step it
/// cleans up after.
#[derive(Clone, Debug)]
pub struct Op {
    pub kind: OpKind,
    pub from: String,
    pub to: String,
    pub origin: usize,
}

/// How far a recursive operation has come.
#[derive(Clone, Copy, Debug)]
pub struct Progress {
    pub current_ops: usize,
    pub total_ops: usize,
    pub current_bytes: u64,
    pub total_bytes: Option<u64>,
}

/// The kind of a walked directory entry.
#[derive(Clone, Debug)]
pub enum EntryType {
    Dir,
    File,
    /// A symbolic link, with the target it points to.
    Symlink(String),
    /// Any other kind of entry.
    Other,
}

/// A directory entry found while walking the source of a copy or move.
#[derive(Clone, Debug)]
pub struct WalkEntry {
    pub path: String,
    pub file_type: EntryType,
}

/// Why a recursive operation could not be planned.
#[derive(Clone, Debug)]
pub enum PlanError {
    /// The entry at this path is neither a file, a folder nor a link.
    UnknownFileType(String),
    /// The entry at `path` does not lie under `parent`.
    NotUnderParent { parent: String, path: String },
}

/// The clean-up step that follows a step of a move, if it has one.
pub open spec fn spec_cleanup_kind(k: OpKind) -> Option<OpKind> {
    match k {
        OpKind::Copy | OpKind::Move | OpKind::Symlink { .. } => Some(OpKind::Remove),
        OpKind::Mkdir => Some(OpKind::Rmdir),
        OpKind::Remove | OpKind::Rmdir => None,
    }
}

impl Op {
    /// The step that removes a moved item's source once it is in place.
    pub fn move_cleanup_op(&self) -> (r: Option<Op>)
        ensures
            match spec_cleanup_kind(self.kind) {
                Some(k) => r matches Some(c) && c.kind == k && c.from@ == self.from@ && c.to@
                    == self.to@ && c.origin == self.origin,
                None => r is None,
            },
    {
        let kind = match self.kind {
            OpKind::Copy | OpKind::Move | OpKind::Symlink { .. } => OpKind::Remove,
            OpKind::Mkdir => OpKind::Rmdir,
            OpKind::Remove | OpKind::Rmdir => return None,
        };
        Some(Op { kind, from: self.from.clone(), to: self.to.clone(), origin: self.origin })
    }
}

/// The step kind for a walked entry.
pub open spec fn spec_entry_kind(t: EntryType, moving: bool) -> Option<OpKind> {
    match t {
        EntryType::Dir => Some(OpKind::Mkdir),
        EntryType::File => Some(if moving { OpKind::Move } else { OpKind::Copy }),
        EntryType::Symlink(target) => Some(OpKind::Symlink { target }),
        EntryType::Other => None,
    }
}

/// Where a walked entry goes: the destination itself for the walked root,
/// else the destination joined with the entry's path below the root.
pub open spec fn spec_entry_to(path: Seq<char>, from_parent: Seq<char>, to_parent: Seq<char>) -> Option<Seq<char>> {
    if path_eq(path, from_parent) {
        Some(to_parent)
    } else {
        match path_strip_prefix(path, from_parent) {
            Some(rel) => Some(path_join(to_parent, rel)),
            None => None,
        }
    }
}

/// Whether a walked entry can be planned.
pub open spec fn entry_ok(e: WalkEntry, from_parent: Seq<char>, to_parent: Seq<char>, moving: bool) -> bool {
    spec_entry_kind(e.file_type, moving) is Some && spec_entry_to(e.path@, from_parent, to_parent) is Some
}

/// Whether `op` is the step planned for entry `e`, numbered `origin`.
pub open spec fn is_entry_op(
    op: Op,
    e: WalkEntry,
    from_parent: Seq<char>,
    to_parent: Seq<char>,
    moving: bool,
    origin: int,
) -> bool {
    &&& spec_entry_kind(e.file_type, moving) == Some(op.kind)
    &&& spec_entry_to(e.path@, from_parent, to_parent) == Some(op.to@)
    &&& op.from@ == e.path@
    &&& op.origin == origin
}

fn entry_kind(t: &EntryType, moving: bool) -> (r: Option<OpKind>)
    ensures
        r == spec_entry_kind(*t, moving),
{
    match t {
        EntryType::Dir => Some(OpKind::Mkdir),
        EntryType::File => Some(if moving { OpKind::Move } else { OpKind::Copy }),
        EntryType::Symlink(target) => {
            let target = target.clone();
            Some(OpKind::Symlink { target })
        },
        EntryType::Other => None,
    }
}

fn entry_to(path: &str, from_parent: &str, to_parent: &str) -> (r: Option<String>)
    ensures
        match spec_entry_to(path@, from_parent@, to_parent@) {
            Some(t) => r matches Some(s) && s@ == t,
            None => r is None,
        },
{
    if same_path(path, from_parent) {
        Some(copy_str(to_parent))
    } else {
        match strip_prefix(path, from_parent) {
            Some(rel) => Some(join(to_parent, rel.as_str())),
            None => None,
        }
    }
}

/// Whether `e` reports the entry `w` that could not be planned: an unknown
/// kind of entry by its path, else an entry outside `from_parent` by that
/// parent and its path.
pub open spec fn plan_error_for(e: PlanError, w: WalkEntry, from_parent: Seq<char>, moving: bool) -> bool {
    if spec_entry_kind(w.file_type, moving) is None {
        e matches PlanError::UnknownFileType(p) && p@ == w.path@
    } else {
        e matches PlanError::NotUnderParent { parent, path } && parent@ == from_parent && path@ == w.path@
    }
}

/// Plans the steps for the entries walked below `from_parent`, copied or
/// moved to `to_parent`, numbering them from `first_origin`. A move also gets
/// one clean-up step per entry. Planning stops at the first entry that is
/// neither file, folder nor link, or that lies outside `from_parent`.
pub fn plan_entries(
    from_parent: &str,
    to_parent: &str,
    entries: &Vec<WalkEntry>,
    moving: bool,
    first_origin: usize,
) -> (r: Result<(Vec<Op>, Vec<Op>), PlanError>)
    requires
        first_origin + entries@.len() <= usize::MAX,
    ensures
        match r {
            Ok((ops, cleanups)) => {
                &&& ops@.len() == entries@.len()
                &&& forall|i: int|
                    0 <= i < entries@.len() ==> is_entry_op(
                        #[trigger] ops@[i],
                        entries@[i],
                        from_parent@,
                        to_parent@,
                        moving,
                        first_origin + i,
                    )
                &&& cleanups@.len() == if moving { entries@.len() } else { 0 }
                &&& moving ==> forall|i: int|
                    0 <= i < entries@.len() ==> {
                        &&& spec_cleanup_kind(ops@[i].kind) == Some(#[trigger] cleanups@[i].kind)
                        &&& cleanups@[i].from@ == ops@[i].from@
                        &&& cleanups@[i].to@ == ops@[i].to@
                        &&& cleanups@[i].origin == ops@[i].origin
                    }
            },
            Err(e) => exists|i: int|
                0 <= i < entries@.len() && !entry_ok(#[trigger] entries@[i], from_parent@, to_parent@, moving)
                    && (forall|j: int| 0 <= j < i ==> entry_ok(entries@[j], from_parent@, to_parent@, moving))
                    && plan_error_for(e, entries@[i], from_parent@, moving),
        },
{
    let mut ops: Vec<Op> = Vec::new();
    let mut cleanups: Vec<Op> = Vec::new();
    let mut i: usize = 0;
    while i < entries.len()
        invariant
            i <= entries@.len(),
            first_origin + entries@.len() <= usize::MAX,
            ops@.len() == i,
            forall|j: int|
                0 <= j < i ==> is_entry_op(
                    #[trigger] ops@[j],
                    entries@[j],
                    from_parent@,
                    to_parent@,
                    moving,
                    first_origin + j,
                ),
            forall|j: int| 0 <= j < i ==> entry_ok(entries@[j], from_parent@, to_parent@, moving),
            cleanups@.len() == if moving { i as int } else { 0 },
            moving ==> forall|j: int|
                0 <= j < i ==> {
                    &&& spec_cleanup_kind(ops@[j].kind) == Some(#[trigger] cleanups@[j].kind)
                    &&& cleanups@[j].from@ == ops@[j].from@
                    &&& cleanups@[j].to@ == ops@[j].to@
                    &&& cleanups@[j].origin == ops@[j].origin
                },
        decreases entries@.len() - i,
    {
        let e = &entries[i];
        let kind = match entry_kind(&e.file_type, moving) {
            Some(k) => k,
            None => {
                assert(!entry_ok(entries@[i as int], from_parent@, to_parent@, moving));
                let err = PlanError::UnknownFileType(e.path.clone());
                assert(plan_error_for(err, entries@[i as int], from_parent@, moving));
                return Err(err);
            },
        };
        let to = match entry_to(e.path.as_str(), from_parent, to_parent) {
            Some(t) => t,
            None => {
                assert(!entry_ok(entries@[i as int], from_parent@, to_parent@, moving));
                let err = PlanError::NotUnderParent { parent: copy_str(from_parent), path: e.path.clone() };
                assert(plan_error_for(err, entries@[i as int], from_parent@, moving));
                return Err(err);
            },
        };
        let op = Op { kind, from: e.path.clone(), to, origin: first_origin + i };
        if moving {
            match op.move_cleanup_op() {
                Some(c) => cleanups.push(c),
                None => {},
            }
        }
        ops.push(op);
        i = i + 1;
    }
    Ok((ops, cleanups))
}

/// All steps in the order they run: the planned steps, then the clean-up
/// steps in reverse, so that folders are removed after their contents.
pub fn finish_plan(ops: Vec<Op>, cleanups: Vec<Op>) -> (r: Vec<Op>)
    ensures
        r@ == ops@ + cleanups@.reverse(),
{
    let mut r = ops;
    let mut rest = cleanups;
    let ghost base = r@;
    let ghost all = rest@;
    while rest.len() > 0
        invariant
            rest@.len() <= all.len(),
            rest@ == all.subrange(0, rest@.len() as int),
            r@ == base + all.subrange(rest@.len() as int, all.len() as int).reverse(),
        decreases rest@.len(),
    {
        let ghost k = rest@.len();
        let c = rest.pop().unwrap();
        assert(c == all[k - 1]);
        r.push(c);
        assert(all.subrange(k - 1, all.len() as int).reverse() =~= all.subrange(
            k as int,
            all.len() as int,
        ).reverse().push(all[k - 1]));
        assert(rest@ =~= all.subrange(0, rest@.len() as int));
    }
    assert(all.subrange(0, all.len() as int) =~= all);
    r
}

/// Whether a pair of source and destination is walked at all: a source that
/// is its own destination is skipped.
pub fn should_walk(from_parent: &str, to_parent: &str) -> (r: bool)
    ensures
        r == !path_eq(from_parent@, to_parent@),
{
    !same_path(from_parent, to_parent)
}

/// The answer that holds for a conflict: a remembered "for all" answer, else
/// the answer just given, which is remembered where it asks to be.
pub fn resolve_replace(remembered: &mut Option<ReplaceResult>, asked: ReplaceResult) -> (r: ReplaceResult)
    ensures
        r == match *old(remembered) {
            Some(m) => m,
            None => asked,
        },
        *final(remembered) == match r {
            ReplaceResult::Replace(true) | ReplaceResult::Skip(true) => Some(r),
            _ => *old(remembered),
        },
{
    let result = match *remembered {
        Some(m) => m,
        None => asked,
    };
    match result {
        ReplaceResult::Replace(apply_to_all) => {
            if apply_to_all {
                *remembered = Some(result);
            }
        },
        ReplaceResult::Skip(apply_to_all) => {
            if apply_to_all {
                *remembered = Some(result);
            }
        },
        _ => {},
    }
    result
}

/// What a step whose destination exists does next.
#[derive(Clone, Debug, PartialEq, Eq)]
pub enum ReplaceStep {
    /// Remove the destination, then go on with the step to it.
    Overwrite(String),
    /// Go on with the step to this free path beside the destination.
    Redirect(String),
    /// Skip the step (it is marked skipped).
    Skip,
    /// Stop the whole operation.
    Stop,
    /// The destination has no folder to keep both in: the step fails.
    NoParent,
}

/// What a step `op` whose destination exists does, given the remembered
/// answer and the one just given (`asked`, used when none is remembered; see
/// [`resolve_replace`]): replacing removes the destination first; keeping
/// both copies to the first free name beside it (`existing` names the
/// entries of that folder, `noun` words the copy, `from_is_dir` tells
/// whether the source is a folder); skipping skips the step; cancelling
/// stops the operation.
pub fn replace_step(
    remembered: &mut Option<ReplaceResult>,
    asked: ReplaceResult,
    op: &Op,
    from_is_dir: bool,
    existing: &Vec<String>,
    noun: &str,
) -> (r: ReplaceStep)
    requires
        existing@.len() < usize::MAX,
    ensures
        ({
            let res = match *old(remembered) {
                Some(m) => m,
                None => asked,
            };
            &&& *final(remembered) == match res {
                ReplaceResult::Replace(true) | ReplaceResult::Skip(true) => Some(res),
                _ => *old(remembered),
            }
            &&& match res {
                ReplaceResult::Replace(_) => r matches ReplaceStep::Overwrite(t) && t@ == op.to@,
                ReplaceResult::KeepBoth => match path_parent(op.to@) {
                    Some(p) => r matches ReplaceStep::Redirect(t) && unique_copy_path(
                        op.from@,
                        from_is_dir,
                        p,
                        strs_view(existing@),
                        noun@,
                        t@,
                    ),
                    None => r is NoParent,
                },
                ReplaceResult::Skip(_) => r is Skip,
                ReplaceResult::Cancel => r is Stop,
            }
        }),
{
    let res = resolve_replace(remembered, asked);
    match res {
        ReplaceResult::Replace(_) => ReplaceStep::Overwrite(copy_str(op.to.as_str())),
        ReplaceResult::KeepBoth => match parent(op.to.as_str()) {
            Some(p) => ReplaceStep::Redirect(copy_unique_path(op.from.as_str(), from_is_dir, p.as_str(), existing, noun)),
            None => ReplaceStep::NoParent,
        },
        ReplaceResult::Skip(_) => ReplaceStep::Skip,
        ReplaceResult::Cancel => ReplaceStep::Stop,
    }
}

/// Whether one of `paths` is the same path as `p`.
pub fn contains_path(paths: &Vec<String>, p: &str) -> (r: bool)
    ensures
        r == exists|i: int| 0 <= i < paths@.len() && path_eq(#[trigger] paths@[i]@, p@),
{
    let mut i: usize = 0;
    while i < paths.len()
        invariant
            i <= paths@.len(),
            forall|j: int| 0 <= j < i ==> !path_eq(#[trigger] paths@[j]@, p@),
        decreases paths@.len() - i,
    {
        if same_path(paths[i].as_str(), p) {
            return true;
        }
        i = i + 1;
    }
    false
}

/// Records a step that completed: the destination of a top-level item is
/// selected once the operation ends.
pub fn record_completed(sel: &mut OperationSelection, op: &Op)
    ensures
        final(sel).ignored@ == old(sel).ignored@,
        if exists|i: int| 0 <= i < old(sel).ignored@.len() && path_eq(#[trigger] old(sel).ignored@[i]@, op.from@) {
            strs_view(final(sel).selected@) == strs_view(old(sel).selected@).push(op.to@)
        } else {
            final(sel).selected@ == old(sel).selected@
        },
{
    if contains_path(&sel.ignored, op.from.as_str()) {
        sel.selected.push(op.to.clone());
        assert(strs_view(sel.selected@) =~= strs_view(old(sel).selected@).push(op.to@));
    }
}

} // verus!
