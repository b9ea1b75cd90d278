//! Independence of element width.
//!
//! The word type of [`crate::init_data`] and [`crate::zero_bss`] only
//! expresses the alignment and transfer granularity of a region: a copy is a
//! raw bitwise transfer and a fill writes the all-zero bit pattern, so running
//! either operation over a region of 32-bit words leaves the same bytes in
//! memory as running it over the same region viewed as four times as many
//! 8-bit words. This module states that reinterpretation and proves the two
//! identities.

use vstd::arithmetic::div_mod::lemma_fundamental_div_mod;
use vstd::arithmetic::div_mod::lemma_fundamental_div_mod_converse;
use vstd::arithmetic::div_mod::lemma_mod_bound;
use vstd::prelude::*;

use crate::copy_result;
use crate::zero_result;

verus! {

/// The bytes of one 32-bit word, lowest-addressed byte first (the word's
/// little-endian representation).
pub open spec fn word_bytes(w: u32) -> Seq<u8> {
    seq![
        (w & 0xff) as u8,
        ((w >> 8) & 0xff) as u8,
        ((w >> 16) & 0xff) as u8,
        ((w >> 24) & 0xff) as u8,
    ]
}

/// A memory of 32-bit words reinterpreted as a memory of bytes: each word
/// contributes its four bytes, in address order.
pub open spec fn bytes_of_words(m: Seq<u32>) -> Seq<u8> {
    Seq::new(4 * m.len(), |j: int| word_bytes(m[j / 4])[j % 4])
}

/// Facts about the word index `j / 4` and byte offset `j % 4` of a byte
/// address `j`.
proof fn lemma_byte_address(j: int)
    requires
        0 <= j,
    ensures
        j == 4 * (j / 4) + (j % 4),
        0 <= j % 4 < 4,
        0 <= j / 4,
{
    lemma_fundamental_div_mod(j, 4);
    lemma_mod_bound(j, 4);
}

/// Each byte of the zero word is the zero byte.
proof fn lemma_word_bytes_zero()
    ensures
        word_bytes(0u32) == seq![0u8, 0u8, 0u8, 0u8],
{
    assert(0u32 & 0xffu32 == 0u32) by (bit_vector);
    assert((0u32 >> 8u32) & 0xffu32 == 0u32) by (bit_vector);
    assert((0u32 >> 16u32) & 0xffu32 == 0u32) by (bit_vector);
    assert((0u32 >> 24u32) & 0xffu32 == 0u32) by (bit_vector);
    assert(word_bytes(0u32) =~= seq![0u8, 0u8, 0u8, 0u8]);
}

/// Independence of element width, zero operation: zero-filling a region of
/// 32-bit words leaves the same bytes as zero-filling the region of 8-bit
/// words it reinterprets to.
pub proof fn lemma_zero_width_independent(m: Seq<u32>, sbss: int, ebss: int)
    requires
        0 <= sbss <= ebss <= m.len(),
    ensures
        bytes_of_words(zero_result(m, sbss, ebss)) == zero_result(
            bytes_of_words(m),
            4 * sbss,
            4 * ebss,
        ),
{
    let lhs = bytes_of_words(zero_result(m, sbss, ebss));
    let rhs = zero_result(bytes_of_words(m), 4 * sbss, 4 * ebss);
    lemma_word_bytes_zero();
    assert forall|j: int| 0 <= j < lhs.len() implies lhs[j] == rhs[j] by {
        lemma_byte_address(j);
        let q = j / 4;
        let r = j % 4;
        assert(0 <= q < m.len());
        if sbss <= q && q < ebss {
            assert(4 * sbss <= j && j < 4 * ebss);
            assert(lhs[j] == word_bytes(0u32)[r]);
        } else {
            assert(!(4 * sbss <= j && j < 4 * ebss));
            assert(lhs[j] == word_bytes(m[q])[r]);
        }
    }
    assert(lhs =~= rhs);
}

/// Independence of element width, copy operation: copying a region of 32-bit
/// words leaves the same bytes as copying the region of 8-bit words it
/// reinterprets to.
pub proof fn lemma_copy_width_independent(m: Seq<u32>, sdata: int, edata: int, sidata: int)
    requires
        0 <= sdata <= edata <= m.len(),
        0 <= sidata,
        sidata + (edata - sdata) <= m.len(),
    ensures
        bytes_of_words(copy_result(m, sdata, edata, sidata)) == copy_result(
            bytes_of_words(m),
            4 * sdata,
            4 * edata,
            4 * sidata,
        ),
{
    let lhs = bytes_of_words(copy_result(m, sdata, edata, sidata));
    let rhs = copy_result(bytes_of_words(m), 4 * sdata, 4 * edata, 4 * sidata);
    assert forall|j: int| 0 <= j < lhs.len() implies lhs[j] == rhs[j] by {
        lemma_byte_address(j);
        let q = j / 4;
        let r = j % 4;
        assert(0 <= q < m.len());
        if sdata <= q && q < edata {
            assert(4 * sdata <= j && j < 4 * edata);
            let jj = 4 * sidata + (j - 4 * sdata);
            assert(jj == (sidata + (q - sdata)) * 4 + r);
            lemma_fundamental_div_mod_converse(jj, 4, sidata + (q - sdata), r);
            assert(lhs[j] == word_bytes(m[sidata + (q - sdata)])[r]);
            assert(rhs[j] == bytes_of_words(m)[jj]);
            assert(bytes_of_words(m)[jj] == word_bytes(m[jj / 4])[jj % 4]);
        } else {
            assert(!(4 * sdata <= j && j < 4 * edata));
            assert(lhs[j] == word_bytes(m[q])[r]);
        }
    }
    assert(lhs =~= rhs);
}

} // verus!
