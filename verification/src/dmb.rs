use vstd::prelude::*;

verus! {

/// Calls `std::sync::atomic::compiler_fence` with sequentially consistent
/// ordering. The call returns nothing and changes no value the program can
/// name, so nothing is claimed of it.
#[verifier::external_body]
fn fence() {
    std::sync::atomic::compiler_fence(std::sync::atomic::Ordering::SeqCst);
}

/// The part of the memory barrier that every machine has: the compiler
/// moves no load or store across this call.
///
/// On ARMv7 and AArch64 the barrier is the instruction `dmb sy` between two
/// of these, and the instruction is for the holder of the device to issue.
pub fn dmb() {
    fence();
}

} // verus!
