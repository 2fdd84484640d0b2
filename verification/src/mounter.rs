//! Mounted volumes and network drives, and how full they are.

use vstd::prelude::*;

verus! {

/// Free and total space of a volume, in bytes.
#[derive(Clone, Copy, Debug, PartialEq, Eq, Structural)]
pub struct DiskUsage {
    pub free: u64,
    pub total: u64,
}

/// How full a volume is.
#[derive(Clone, Copy, Debug, PartialEq, Eq, Structural)]
pub enum DiskUsageLevel {
    Normal,
    Warning,
    Critical,
}

/// How full a volume is: critical from 90% used, warning from 80%; an empty
/// total or more free than total space counts as normal.
pub open spec fn spec_level(free: u64, total: u64) -> DiskUsageLevel {
    if total == 0 || free > total {
        DiskUsageLevel::Normal
    } else if (total - free) * 100 >= total * 90 {
        DiskUsageLevel::Critical
    } else if (total - free) * 100 >= total * 80 {
        DiskUsageLevel::Warning
    } else {
        DiskUsageLevel::Normal
    }
}

/// The order of the levels, from normal to critical.
pub open spec fn level_rank(l: DiskUsageLevel) -> int {
    match l {
        DiskUsageLevel::Normal => 0,
        DiskUsageLevel::Warning => 1,
        DiskUsageLevel::Critical => 2,
    }
}

impl DiskUsage {
    /// How full the volume is.
    pub fn level(self) -> (r: DiskUsageLevel)
        ensures
            r == spec_level(self.free, self.total),
    {
        if self.total == 0 || self.free > self.total {
            return DiskUsageLevel::Normal;
        }
        let used = (self.total - self.free) as u128;
        let total = self.total as u128;
        assert(used * 100 <= 0xffff_ffff_ffff_ffff * 100) by (nonlinear_arith)
            requires
                used <= 0xffff_ffff_ffff_ffffu128,
        ;
        assert(total * 90 <= 0xffff_ffff_ffff_ffff * 90) by (nonlinear_arith)
            requires
                total <= 0xffff_ffff_ffff_ffffu128,
        ;
        if used * 100 >= total * 90 {
            DiskUsageLevel::Critical
        } else if used * 100 >= total * 80 {
            DiskUsageLevel::Warning
        } else {
            DiskUsageLevel::Normal
        }
    }
}

/// On a volume of a given size, using more space never makes it look less full.
pub proof fn lemma_level_monotone(free_a: u64, free_b: u64, total: u64)
    requires
        free_b <= free_a <= total,
    ensures
        level_rank(spec_level(free_a, total)) <= level_rank(spec_level(free_b, total)),
{
    assert((total - free_a) * 100 <= (total - free_b) * 100) by (nonlinear_arith)
        requires
            free_b <= free_a <= total,
    ;
}

/// What a mount helper asks to connect to a network drive.
#[derive(Clone)]
pub struct MounterAuth {
    pub message: String,
    pub username_opt: Option<String>,
    pub domain_opt: Option<String>,
    pub password_opt: Option<String>,
    pub remember_opt: Option<bool>,
    pub anonymous_opt: Option<bool>,
}

/// The name of a mount helper.
#[derive(Clone, Copy, Debug, Eq, Hash, Ord, PartialEq, PartialOrd)]
pub struct MounterKey(pub &'static str);

/// A volume or network share, as its mount helper reports it.
#[derive(Clone, Debug)]
pub struct MountedItem {
    pub uri: String,
    pub name: String,
    pub is_mounted: bool,
    pub is_remote: bool,
    pub path: Option<String>,
    pub disk_usage: Option<DiskUsage>,
    pub can_unmount: bool,
    pub icon_path: Option<String>,
    pub icon_symbolic_path: Option<String>,
}

/// A mountable item, or none where no mount helper is available.
#[derive(Clone, Debug)]
pub enum MounterItem {
    Gvfs(MountedItem),
    Unavailable,
}

impl MounterItem {
    /// The item's display name.
    pub fn name(&self) -> (r: String)
        requires
            self is Gvfs,
        ensures
            r@ == self->Gvfs_0.name@,
    {
        match self {
            MounterItem::Gvfs(item) => item.name.clone(),
            MounterItem::Unavailable => String::new(),
        }
    }

    /// The item's URI.
    pub fn uri(&self) -> (r: String)
        requires
            self is Gvfs,
        ensures
            r@ == self->Gvfs_0.uri@,
    {
        match self {
            MounterItem::Gvfs(item) => item.uri.clone(),
            MounterItem::Unavailable => String::new(),
        }
    }

    /// Whether the item is mounted.
    pub fn is_mounted(&self) -> (r: bool)
        requires
            self is Gvfs,
        ensures
            r == self->Gvfs_0.is_mounted,
    {
        match self {
            MounterItem::Gvfs(item) => item.is_mounted,
            MounterItem::Unavailable => false,
        }
    }

    /// The icon file of the item, in its symbolic form if asked.
    pub fn icon(&self, symbolic: bool) -> (r: Option<String>)
        requires
            self is Gvfs,
        ensures
            r == if symbolic { self->Gvfs_0.icon_symbolic_path } else { self->Gvfs_0.icon_path },
    {
        match self {
            MounterItem::Gvfs(item) => if symbolic {
                item.icon_symbolic_path.clone()
            } else {
                item.icon_path.clone()
            },
            MounterItem::Unavailable => None,
        }
    }

    /// Where the item is mounted, if it is.
    pub fn path(&self) -> (r: Option<String>)
        requires
            self is Gvfs,
        ensures
            r == self->Gvfs_0.path,
    {
        match self {
            MounterItem::Gvfs(item) => item.path.clone(),
            MounterItem::Unavailable => None,
        }
    }

    /// Whether the item is on another machine.
    pub fn is_remote(&self) -> (r: bool)
        requires
            self is Gvfs,
        ensures
            r == self->Gvfs_0.is_remote,
    {
        match self {
            MounterItem::Gvfs(item) => item.is_remote,
            MounterItem::Unavailable => false,
        }
    }

    /// How full the item's volume is, where known.
    pub fn disk_usage(&self) -> (r: Option<DiskUsage>)
        requires
            self is Gvfs,
        ensures
            r == self->Gvfs_0.disk_usage,
    {
        match self {
            MounterItem::Gvfs(item) => item.disk_usage,
            MounterItem::Unavailable => None,
        }
    }

    /// Whether the item can be unmounted.
    pub fn can_unmount(&self) -> (r: bool)
        requires
            self is Gvfs,
        ensures
            r == self->Gvfs_0.can_unmount,
    {
        match self {
            MounterItem::Gvfs(item) => item.can_unmount,
            MounterItem::Unavailable => false,
        }
    }
}

} // verus!
