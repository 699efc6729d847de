use oscore::bitmap::Bitmap;
use oscore::bitmap::BLOCK_BITS;
use oscore::bitmap::WORDS_PER_BLOCK;

#[test]
fn maximum_counts_one_bit_per_block() {
    assert_eq!(Bitmap::new(0, 1).maximum(), BLOCK_BITS);
    assert_eq!(Bitmap::new(0, 2).maximum(), 8192);
    assert_eq!(Bitmap::new(5, 3).maximum(), 12288);
}

#[test]
fn allocate_takes_the_lowest_clear_bit_first() {
    let bm = Bitmap::new(0, 1);
    let mut words = vec![0u64; WORDS_PER_BLOCK];
    assert_eq!(bm.allocate(&mut words), Some(0));
    assert_eq!(words[0], 1);
    assert_eq!(bm.allocate(&mut words), Some(1));
    assert_eq!(bm.allocate(&mut words), Some(2));
    assert_eq!(words[0], 0b111);
    for w in &words[1..] {
        assert_eq!(*w, 0);
    }
}

#[test]
fn allocate_skips_full_words() {
    let bm = Bitmap::new(0, 1);
    let mut words = vec![0u64; WORDS_PER_BLOCK];
    words[0] = u64::MAX;
    assert_eq!(bm.allocate(&mut words), Some(64));
    assert_eq!(words[0], u64::MAX);
    assert_eq!(words[1], 1);
}

#[test]
fn allocate_skips_full_blocks() {
    let bm = Bitmap::new(0, 2);
    let mut words = vec![0u64; 2 * WORDS_PER_BLOCK];
    for w in words.iter_mut().take(WORDS_PER_BLOCK) {
        *w = u64::MAX;
    }
    assert_eq!(bm.allocate(&mut words), Some(BLOCK_BITS));
    assert_eq!(words[WORDS_PER_BLOCK], 1);
}

#[test]
fn allocate_honours_the_start_block() {
    let bm = Bitmap::new(1, 1);
    let mut words = vec![0u64; 2 * WORDS_PER_BLOCK];
    assert_eq!(bm.allocate(&mut words), Some(0));
    assert_eq!(words[WORDS_PER_BLOCK], 1, "the bit lands in the bitmap's own run");
    for w in &words[..WORDS_PER_BLOCK] {
        assert_eq!(*w, 0, "words before the run stay untouched");
    }
}

#[test]
fn allocate_answers_nothing_when_full() {
    let bm = Bitmap::new(0, 1);
    let mut words = vec![u64::MAX; WORDS_PER_BLOCK];
    assert_eq!(bm.allocate(&mut words), None);
    assert!(words.iter().all(|&w| w == u64::MAX));
}

#[test]
fn partial_last_word_still_allocates() {
    let bm = Bitmap::new(0, 1);
    let mut words = vec![u64::MAX; WORDS_PER_BLOCK];
    words[WORDS_PER_BLOCK - 1] = u64::MAX >> 1;
    assert_eq!(bm.allocate(&mut words), Some(BLOCK_BITS - 1));
    assert_eq!(bm.allocate(&mut words), None);
}

#[test]
fn dealloc_clears_exactly_the_given_bit() {
    let bm = Bitmap::new(0, 1);
    let mut words = vec![0u64; WORDS_PER_BLOCK];
    assert_eq!(bm.allocate(&mut words), Some(0));
    assert_eq!(bm.allocate(&mut words), Some(1));
    assert_eq!(bm.allocate(&mut words), Some(2));
    bm.dealloc(&mut words, 1);
    assert_eq!(words[0], 0b101);
    // the freed bit is the lowest clear one again
    assert_eq!(bm.allocate(&mut words), Some(1));
    assert_eq!(words[0], 0b111);
}

#[test]
fn dealloc_reaches_the_right_word_and_block() {
    let bm = Bitmap::new(2, 2);
    let mut words = vec![0u64; 4 * WORDS_PER_BLOCK];
    // bit 4100 = second block of the run, word 0, bit 4
    words[2 * WORDS_PER_BLOCK + WORDS_PER_BLOCK] = 1 << 4;
    bm.dealloc(&mut words, 4100);
    assert!(words.iter().all(|&w| w == 0));
}
