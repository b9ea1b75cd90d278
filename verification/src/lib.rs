//! Startup memory initialization for bare-metal programs.
//!
//! Before any application logic runs, a bare-metal program must bring two
//! linker-defined memory regions into a defined state: the `.data` section is
//! copied from its load location into its execution location, and the `.bss`
//! section is zero-filled. This crate provides those two operations, verified
//! over an explicit model of the affected memory.
//!
//! Memory is modeled as a single addressable array of machine words (a
//! `Vec<T>` for a word type `T`), and a region is a pair of indices into it:
//! a start and an exclusive end. [`init_data`] copies a source region into a
//! disjoint destination region, element by element in increasing address
//! order; [`zero_bss`] fills a region with the word type's zero value. Both
//! state exactly what the whole memory looks like afterwards.
//!
//! The element type is restricted to the fixed set of machine word widths by
//! the sealed [`Word`] trait: every bit pattern of such a type is a valid
//! value, the type is `Copy`, and it has a well-defined all-zero value.

use vstd::prelude::*;

mod sealed;
mod width;

pub use width::bytes_of_words;
pub use width::lemma_copy_width_independent;
pub use width::lemma_zero_width_independent;
pub use width::word_bytes;

verus! {

/// Trait for machine word types.
///
/// This trait is implemented by unsigned integers representing common machine
/// word sizes. Types implementing this trait can be used by the [`init_data`]
/// and [`zero_bss`] functions. For that to be sound, all bit patterns need to
/// be valid for the type, the type must implement `Copy`, and the type must
/// not be zero-sized: all of which hold of the fixed-width unsigned integers.
///
/// A word type carries an all-zero value, the value [`zero_bss`] fills with.
pub trait Word: sealed::Sealed + Copy {
    /// The all-zero bit pattern of this word type.
    spec fn spec_zero() -> Self;

    /// Returns the all-zero value of this word type.
    fn zero() -> (r: Self)
        ensures
            r == Self::spec_zero(),
    ;
}

impl Word for u8 {
    open spec fn spec_zero() -> Self {
        0u8
    }

    fn zero() -> (r: Self) {
        0u8
    }
}

impl Word for u16 {
    open spec fn spec_zero() -> Self {
        0u16
    }

    fn zero() -> (r: Self) {
        0u16
    }
}

impl Word for u32 {
    open spec fn spec_zero() -> Self {
        0u32
    }

    fn zero() -> (r: Self) {
        0u32
    }
}

impl Word for u64 {
    open spec fn spec_zero() -> Self {
        0u64
    }

    fn zero() -> (r: Self) {
        0u64
    }
}

impl Word for u128 {
    open spec fn spec_zero() -> Self {
        0u128
    }

    fn zero() -> (r: Self) {
        0u128
    }
}

/// The memory after copying the region of length `edata - sdata` starting at
/// `sidata` in `m` onto the region `[sdata, edata)`: every element of the
/// destination region holds the source element at the corresponding offset,
/// and every element outside the destination region is unchanged.
pub open spec fn copy_result<T>(m: Seq<T>, sdata: int, edata: int, sidata: int) -> Seq<T> {
    Seq::new(m.len(), |i: int| if sdata <= i && i < edata { m[sidata + (i - sdata)] } else { m[i] })
}

/// The regions `[sdata, edata)` and `[sidata, sidata + (edata - sdata))` have
/// no element in common.
pub open spec fn disjoint(sdata: int, edata: int, sidata: int) -> bool {
    edata <= sidata || sidata + (edata - sdata) <= sdata
}

/// Initializes the `.data` section by copying it from the location indicated
/// by `sidata`.
///
/// Copies `edata - sdata` elements, element by element in increasing address
/// order, from the region starting at index `sidata` (the section's Load
/// Memory Address) onto the region `[sdata, edata)` (its execution address).
/// Elements outside the destination region — the source region among them —
/// are left untouched.
///
/// # Arguments
///
/// - `mem`: The memory holding both the `.data` section and its load image.
/// - `sdata`: Index of the start of the `.data` section.
/// - `edata`: Index of the open/non-inclusive end of the `.data` section (the
///   element at this index will not be modified).
/// - `sidata`: Index of the `.data` section's Load Memory Address. Data will
///   be copied from here.
/// - Use `T` to indicate the alignment of the `.data` section and its load
///   image.
///
/// The source and destination regions must not overlap; a region immediately
/// adjacent to the other is fine.
pub fn init_data<T: Word>(mem: &mut Vec<T>, sdata: usize, edata: usize, sidata: usize)
    requires
        sdata <= edata,
        edata <= old(mem).len(),
        sidata + (edata - sdata) <= old(mem).len(),
        disjoint(sdata as int, edata as int, sidata as int),
    ensures
        final(mem)@ == copy_result(old(mem)@, sdata as int, edata as int, sidata as int),
{
    let n: usize = edata - sdata;
    let mut i: usize = 0;
    while i < n
        invariant
            i <= n,
            n == edata - sdata,
            sdata + n <= mem.len(),
            sidata + n <= mem.len(),
            disjoint(sdata as int, edata as int, sidata as int),
            mem@.len() == old(mem)@.len(),
            forall|j: int|
                sdata <= j < sdata + i ==> #[trigger] mem@[j] == old(mem)@[sidata + (j - sdata)],
            forall|j: int| 0 <= j < mem@.len() && !(sdata <= j < sdata + i) ==> mem@[j] == old(
                mem,
            )@[j],
        decreases n - i,
    {
        let v: T = mem[sidata + i];
        mem[sdata + i] = v;
        i = i + 1;
    }
    proof {
        assert(mem@ =~= copy_result(old(mem)@, sdata as int, edata as int, sidata as int));
    }
}

/// The memory after zero-filling the region `[sbss, ebss)` of `m`: every
/// element of the region holds the word type's zero value, and every element
/// outside it is unchanged.
pub open spec fn zero_result<T: Word>(m: Seq<T>, sbss: int, ebss: int) -> Seq<T> {
    Seq::new(m.len(), |i: int| if sbss <= i && i < ebss { T::spec_zero() } else { m[i] })
}

/// Zeroes the `.bss` section.
///
/// Fills the region `[sbss, ebss)` of `mem` with the zero value of the word
/// type `T`, element by element in increasing address order. Elements outside
/// the region are left untouched.
///
/// # Arguments
///
/// - `mem`: The memory holding the `.bss` section.
/// - `sbss`: Index of the start of the `.bss` section.
/// - `ebss`: Index of the open/non-inclusive end of the `.bss` section (the
///   element at this index will not be modified).
/// - Use `T` to indicate the alignment of the `.bss` section.
pub fn zero_bss<T: Word>(mem: &mut Vec<T>, sbss: usize, ebss: usize)
    requires
        sbss <= ebss,
        ebss <= old(mem).len(),
    ensures
        final(mem)@ == zero_result(old(mem)@, sbss as int, ebss as int),
{
    let z: T = T::zero();
    let mut i: usize = sbss;
    while i < ebss
        invariant
            sbss <= i <= ebss,
            ebss <= mem@.len(),
            mem@.len() == old(mem)@.len(),
            z == T::spec_zero(),
            forall|j: int| sbss <= j < i ==> mem@[j] == T::spec_zero(),
            forall|j: int| 0 <= j < mem@.len() && !(sbss <= j < i) ==> mem@[j] == old(mem)@[j],
        decreases ebss - i,
    {
        mem[i] = z;
        i = i + 1;
    }
    proof {
        assert(mem@ =~= zero_result(old(mem)@, sbss as int, ebss as int));
    }
}

/// Copy correctness: after the copy, every element of the destination region
/// equals the source element at the corresponding offset, and — the regions
/// being disjoint — every element outside the destination region, the whole
/// source region among them, is unchanged.
pub proof fn lemma_copy_correct<T>(m: Seq<T>, sdata: int, edata: int, sidata: int)
    requires
        0 <= sdata <= edata <= m.len(),
        0 <= sidata,
        sidata + (edata - sdata) <= m.len(),
        disjoint(sdata, edata, sidata),
    ensures
        copy_result(m, sdata, edata, sidata).len() == m.len(),
        forall|i: int|
            sdata <= i < edata ==> #[trigger] copy_result(m, sdata, edata, sidata)[i] == m[sidata
                + (i - sdata)],
        forall|i: int|
            sidata <= i < sidata + (edata - sdata) ==> #[trigger] copy_result(
                m,
                sdata,
                edata,
                sidata,
            )[i] == m[i],
        forall|i: int|
            0 <= i < m.len() && !(sdata <= i < edata) ==> #[trigger] copy_result(
                m,
                sdata,
                edata,
                sidata,
            )[i] == m[i],
{
}

/// Copy no-op on an empty region: with destination start equal to destination
/// end, the copy leaves the memory — source region included — unchanged.
pub proof fn lemma_copy_empty<T>(m: Seq<T>, sdata: int, sidata: int)
    ensures
        copy_result(m, sdata, sdata, sidata) == m,
{
    assert(copy_result(m, sdata, sdata, sidata) =~= m);
}

/// Zero correctness: after the fill, every element of the region holds the
/// word type's zero value, whatever it held before, and every element outside
/// the region is unchanged.
pub proof fn lemma_zero_correct<T: Word>(m: Seq<T>, sbss: int, ebss: int)
    requires
        0 <= sbss <= ebss <= m.len(),
    ensures
        zero_result(m, sbss, ebss).len() == m.len(),
        forall|i: int|
            sbss <= i < ebss ==> #[trigger] zero_result(m, sbss, ebss)[i] == T::spec_zero(),
        forall|i: int|
            0 <= i < m.len() && !(sbss <= i < ebss) ==> #[trigger] zero_result(m, sbss, ebss)[i]
                == m[i],
{
}

/// Zero idempotence: filling the same region with zero twice in sequence
/// yields the same memory as filling it once.
pub proof fn lemma_zero_idempotent<T: Word>(m: Seq<T>, sbss: int, ebss: int)
    ensures
        zero_result(zero_result(m, sbss, ebss), sbss, ebss) == zero_result(m, sbss, ebss),
{
    assert(zero_result(zero_result(m, sbss, ebss), sbss, ebss) =~= zero_result(m, sbss, ebss));
}

/// Non-overlap boundary: a destination region immediately adjacent to the
/// source region — its end touching the source's start, or its start touching
/// the source's end — does not overlap it, so the copy is correct up to the
/// boundary element and the source region is unchanged.
pub proof fn lemma_copy_adjacent<T>(m: Seq<T>, sdata: int, edata: int, sidata: int)
    requires
        0 <= sdata <= edata <= m.len(),
        0 <= sidata,
        sidata + (edata - sdata) <= m.len(),
        edata == sidata || sidata + (edata - sdata) == sdata,
    ensures
        disjoint(sdata, edata, sidata),
        forall|i: int|
            sdata <= i < edata ==> #[trigger] copy_result(m, sdata, edata, sidata)[i] == m[sidata
                + (i - sdata)],
        forall|i: int|
            sidata <= i < sidata + (edata - sdata) ==> #[trigger] copy_result(
                m,
                sdata,
                edata,
                sidata,
            )[i] == m[i],
{
}

} // verus!
