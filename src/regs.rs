//! The register file of a tracee stopped at a syscall boundary.

use vstd::prelude::*;

verus! {

/// Declares `libc::user_regs_struct`, the x86-64 register file that ptrace
/// reads and writes; its fields are plain public `u64` words, which Verus
/// reads as they are.
#[verifier::external_type_specification]
pub struct ExUserRegs(libc::user_regs_struct);

/// The number of the `connect` system call on x86-64 Linux.
pub open spec fn connect_number() -> u64 {
    42
}

/// Relies on `syscalls::Sysno::connect` and `Sysno::id`: on x86-64 the
/// `connect` call has number 42.
#[verifier::external_body]
fn sys_connect() -> (r: u64)
    ensures
        r == connect_number(),
{
    syscalls::Sysno::connect.id() as u64
}

/// Where the tracee stopped at the entry of `connect`, the address of the
/// socket address it passed (the call's second argument, in `rsi`).
/// `None` for any other call.
pub fn connect_target(regs: &libc::user_regs_struct) -> (r: Option<u64>)
    ensures
        r == (if regs.orig_rax == connect_number() {
            Some(regs.rsi)
        } else {
            None::<u64>
        }),
{
    if regs.orig_rax == sys_connect() {
        Some(regs.rsi)
    } else {
        None
    }
}

/// The value written to the return register of a denied call: `-1` as a
/// two's complement word, which the traced program reads as a failure.
pub const DENIED_RETURN: u64 = 0xffff_ffff_ffff_ffff;

/// The call number that stands for no call: at a syscall-entry stop the
/// kernel then skips the call and hands back the return register as it is.
pub const SKIPPED_CALL: u64 = 0xffff_ffff_ffff_ffff;

/// Denies the call at whose entry the tracee stopped: the call number is
/// set to `SKIPPED_CALL`, so that the call is never made, and the return
/// register to `DENIED_RETURN`, so that it reports failure. Every other
/// register is kept.
pub fn block_connection(regs: &mut libc::user_regs_struct)
    ensures
        final(regs).rax == DENIED_RETURN,
        final(regs).orig_rax == SKIPPED_CALL,
        *final(regs) == (libc::user_regs_struct {
            rax: DENIED_RETURN,
            orig_rax: SKIPPED_CALL,
            ..*old(regs)
        }),
{
    regs.rax = DENIED_RETURN;
    regs.orig_rax = SKIPPED_CALL;
}

} // verus!
