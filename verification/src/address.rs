use vstd::prelude::*;

verus! {

/// The low 32 bits of a machine word.
pub open spec fn low_half(word: usize) -> u32 {
    (word as int % 0x1_0000_0000) as u32
}

/// What a machine word has above its low 32 bits; zero on a 32-bit machine.
pub open spec fn high_half(word: usize) -> u32 {
    (word as int / 0x1_0000_0000) as u32
}

/// The machine word that two halves denote. A 32-bit machine sees the low
/// half alone.
pub open spec fn join(low: u32, high: u32) -> usize {
    if usize::BITS == 64 {
        (high as int * 0x1_0000_0000 + low as int) as usize
    } else {
        low as usize
    }
}

/// A machine word is its two halves put together again.
pub proof fn lemma_join_halves(word: usize)
    ensures
        join(low_half(word), high_half(word)) == word,
{
}

/// Splits a machine word into its low and its high half.
pub fn split(word: usize) -> (halves: (u32, u32))
    ensures
        halves.0 == low_half(word),
        halves.1 == high_half(word),
        join(halves.0, halves.1) == word,
{
    let wide: u64 = word as u64;
    ((wide % 0x1_0000_0000) as u32, (wide / 0x1_0000_0000) as u32)
}

/// Puts two halves together.
pub fn joined(low: u32, high: u32) -> (word: usize)
    ensures
        word == join(low, high),
{
    if usize::BITS == 64 {
        let wide: u64 = (high as u64) * 0x1_0000_0000 + (low as u64);
        wide as usize
    } else {
        low as usize
    }
}

} // verus!
