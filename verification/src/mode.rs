use vstd::prelude::*;

verus! {

/// Bit offset of the owner's permission triple in a Unix mode.
pub const MODE_SHIFT_USER: u32 = 6;
/// Bit offset of the group's permission triple in a Unix mode.
pub const MODE_SHIFT_GROUP: u32 = 3;
/// Bit offset of the others' permission triple in a Unix mode.
pub const MODE_SHIFT_OTHER: u32 = 0;

/// The three permission bits of `mode` that start at bit `shift`.
pub open spec fn mode_part(mode: u32, shift: u32) -> u32 {
    (mode >> shift) & 7u32
}

/// `mode` with the three bits at `shift` replaced by `bits`.
pub open spec fn with_mode_part(mode: u32, shift: u32, bits: u32) -> u32 {
    (mode & !(7u32 << shift)) | (bits << shift)
}

/// Reads the permission triple at `shift`.
pub fn get_mode_part(mode: u32, shift: u32) -> (r: u32)
    requires
        shift < 32,
    ensures
        r == mode_part(mode, shift),
        r <= 7,
{
    let r = (mode >> shift) & 0o7;
    assert(((mode >> shift) & 7u32) <= 7u32) by (bit_vector);
    r
}

/// Replaces the permission triple at `shift` with `bits`.
pub fn set_mode_part(mode: u32, shift: u32, bits: u32) -> (r: u32)
    requires
        shift < 32,
        bits <= 7,
    ensures
        r == with_mode_part(mode, shift, bits),
{
    (mode & !(0o7 << shift)) | (bits << shift)
}

/// Writing a permission triple and reading it back gives the triple written,
/// and leaves every other permission triple as it was.
pub proof fn lemma_set_then_get_mode_part(mode: u32, shift: u32, bits: u32, other: u32)
    requires
        shift <= 29,
        other <= 29,
        bits <= 7,
        other + 3 <= shift || shift + 3 <= other,
    ensures
        mode_part(with_mode_part(mode, shift, bits), shift) == bits,
        mode_part(with_mode_part(mode, shift, bits), other) == mode_part(mode, other),
{
    assert(((((mode & !(7u32 << shift)) | (bits << shift)) >> shift) & 7u32) == bits) by (bit_vector)
        requires
            shift <= 29,
            bits <= 7,
    ;
    assert(((((mode & !(7u32 << shift)) | (bits << shift)) >> other) & 7u32) == ((mode >> other)
        & 7u32)) by (bit_vector)
        requires
            shift <= 29,
            other <= 29,
            bits <= 7,
            other + 3 <= shift || shift + 3 <= other,
    ;
}

/// Writing back the triple that a mode already holds leaves the mode unchanged.
pub proof fn lemma_set_own_mode_part(mode: u32, shift: u32)
    requires
        shift <= 29,
    ensures
        with_mode_part(mode, shift, mode_part(mode, shift)) == mode,
{
    assert(((mode & !(7u32 << shift)) | (((mode >> shift) & 7u32) << shift)) == mode) by (bit_vector)
        requires
            shift <= 29,
    ;
}

/// The message key that names a permission part (read 4, write 2, execute 1).
pub open spec fn spec_mode_name_key(part: u32) -> Seq<char> {
    if part == 0 {
        "none"@
    } else if part == 1 {
        "execute-only"@
    } else if part == 2 {
        "write-only"@
    } else if part == 3 {
        "write-execute"@
    } else if part == 4 {
        "read-only"@
    } else if part == 5 {
        "read-execute"@
    } else if part == 6 {
        "read-write"@
    } else {
        "read-write-execute"@
    }
}

/// The message key that names a permission part.
pub fn mode_name_key(part: u32) -> (r: &'static str)
    requires
        part <= 7,
    ensures
        r@ == spec_mode_name_key(part),
{
    if part == 0 {
        "none"
    } else if part == 1 {
        "execute-only"
    } else if part == 2 {
        "write-only"
    } else if part == 3 {
        "write-execute"
    } else if part == 4 {
        "read-only"
    } else if part == 5 {
        "read-execute"
    } else if part == 6 {
        "read-write"
    } else {
        "read-write-execute"
    }
}

} // verus!
