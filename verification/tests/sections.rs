use r0::init_data;
use r0::zero_bss;

#[test]
fn test_init_data() {
    let data = [0u32, 1, 2, 3, 4, 5, 6, 7];
    let mem = [0u32; 8];
    let mut ram: Vec<u32> = Vec::new();
    ram.extend_from_slice(&data);
    ram.extend_from_slice(&mem);
    init_data::<u32>(&mut ram, 0, 8, 8);

    assert_eq!(ram[0..8], ram[8..16]);
}

#[test]
fn test_zero_bss() {
    let mut mem: Vec<u32> = vec![0xFFFF_FFFFu32; 8];
    zero_bss::<u32>(&mut mem, 0, 8);

    assert_eq!(mem, [0u32; 8]);
}

// Copying eight 32-bit words from a load image into a zeroed destination
// elsewhere in memory reproduces the image there and leaves it unmodified.
#[test]
fn copy_eight_words() {
    let mut ram: Vec<u32> = vec![0u32; 8];
    ram.extend_from_slice(&[0u32, 1, 2, 3, 4, 5, 6, 7]);
    init_data::<u32>(&mut ram, 0, 8, 8);

    assert_eq!(ram[0..8], [0u32, 1, 2, 3, 4, 5, 6, 7]);
    assert_eq!(ram[8..16], [0u32, 1, 2, 3, 4, 5, 6, 7]);
}

// A copy over an empty destination region touches nothing.
#[test]
fn copy_empty_region() {
    let mut ram: Vec<u32> = vec![7u32, 8, 9, 10];
    init_data::<u32>(&mut ram, 1, 1, 3);

    assert_eq!(ram, [7u32, 8, 9, 10]);
}

// Zero-filling a region in the middle of memory clears exactly that region,
// whatever each element held before.
#[test]
fn zero_middle_region() {
    let mut ram: Vec<u32> = vec![0xFFFF_FFFFu32, 1, 2, 0xDEAD_BEEF, 4, 5];
    zero_bss::<u32>(&mut ram, 1, 4);

    assert_eq!(ram, [0xFFFF_FFFFu32, 0, 0, 0, 4, 5]);
}

// Running the fill twice over the same region gives the same memory as once.
#[test]
fn zero_twice_same_as_once() {
    let mut once: Vec<u32> = vec![0xFFFF_FFFFu32; 8];
    zero_bss::<u32>(&mut once, 2, 6);
    let mut twice: Vec<u32> = vec![0xFFFF_FFFFu32; 8];
    zero_bss::<u32>(&mut twice, 2, 6);
    zero_bss::<u32>(&mut twice, 2, 6);

    assert_eq!(once, twice);
}

// A destination region ending exactly where the source region starts copies
// correctly, with no corruption at the boundary element.
#[test]
fn copy_adjacent_regions() {
    let mut ram: Vec<u32> = vec![0u32, 0, 0, 0, 10, 20, 30, 40];
    init_data::<u32>(&mut ram, 0, 4, 4);

    assert_eq!(ram, [10u32, 20, 30, 40, 10, 20, 30, 40]);
}

// A source region ending exactly where the destination region starts copies
// correctly too.
#[test]
fn copy_adjacent_regions_source_first() {
    let mut ram: Vec<u32> = vec![10u32, 20, 30, 40, 0, 0, 0, 0];
    init_data::<u32>(&mut ram, 4, 8, 0);

    assert_eq!(ram, [10u32, 20, 30, 40, 10, 20, 30, 40]);
}

fn words_to_bytes(words: &[u32]) -> Vec<u8> {
    let mut bytes: Vec<u8> = Vec::new();
    for w in words {
        bytes.extend_from_slice(&w.to_le_bytes());
    }
    bytes
}

// Zero-filling a byte range as 32-bit words or as 8-bit words leaves the same
// bytes in memory.
#[test]
fn zero_width_independent() {
    let words: Vec<u32> = vec![
        0x0302_0100,
        0x0706_0504,
        0x0B0A_0908,
        0x0F0E_0D0C,
        0x1312_1110,
        0x1716_1514,
        0x1B1A_1918,
        0x1F1E_1D1C,
    ];
    let mut as_words = words.clone();
    let mut as_bytes = words_to_bytes(&words);
    zero_bss::<u32>(&mut as_words, 2, 6);
    zero_bss::<u8>(&mut as_bytes, 8, 24);

    assert_eq!(words_to_bytes(&as_words), as_bytes);
}

// Copying a byte range as 32-bit words or as 8-bit words leaves the same
// bytes in memory.
#[test]
fn copy_width_independent() {
    let words: Vec<u32> = vec![
        0,
        0,
        0,
        0,
        0x0302_0100,
        0x0706_0504,
        0x0B0A_0908,
        0x0F0E_0D0C,
    ];
    let mut as_words = words.clone();
    let mut as_bytes = words_to_bytes(&words);
    init_data::<u32>(&mut as_words, 0, 4, 4);
    init_data::<u8>(&mut as_bytes, 0, 16, 16);

    assert_eq!(words_to_bytes(&as_words), as_bytes);
}

// The operations work over every word width of the allowed set.
#[test]
fn copy_and_zero_all_widths() {
    let mut bytes: Vec<u8> = vec![0xFFu8, 0xFF, 1, 2];
    init_data::<u8>(&mut bytes, 0, 2, 2);
    zero_bss::<u8>(&mut bytes, 3, 4);
    assert_eq!(bytes, [1u8, 2, 1, 0]);

    let mut halves: Vec<u16> = vec![0xFFFFu16, 0xFFFF, 300, 400];
    init_data::<u16>(&mut halves, 0, 2, 2);
    zero_bss::<u16>(&mut halves, 3, 4);
    assert_eq!(halves, [300u16, 400, 300, 0]);

    let mut quads: Vec<u64> = vec![u64::MAX, u64::MAX, 5_000_000_000, 6];
    init_data::<u64>(&mut quads, 0, 2, 2);
    zero_bss::<u64>(&mut quads, 3, 4);
    assert_eq!(quads, [5_000_000_000u64, 6, 5_000_000_000, 0]);

    let mut octs: Vec<u128> = vec![u128::MAX, u128::MAX, 1 << 100, 7];
    init_data::<u128>(&mut octs, 0, 2, 2);
    zero_bss::<u128>(&mut octs, 3, 4);
    assert_eq!(octs, [1u128 << 100, 7, 1 << 100, 0]);
}
