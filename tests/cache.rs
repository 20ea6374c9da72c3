use xdelta3::block::block_range;
use xdelta3::cache::{BlockView, CacheError, SourceWindowCache};

fn feed(cache: &mut SourceWindowCache, source: &[u8]) {
    let bs = cache.block_size();
    let mut pos = 0usize;
    while !cache.eof_known() {
        let end = if pos + bs < source.len() { pos + bs } else { source.len() };
        cache.fetch_next(&source[pos..end]);
        pos = end;
    }
}

fn ok(r: Result<BlockView, CacheError>) -> BlockView {
    match r {
        Ok(v) => v,
        Err(e) => panic!("unexpected {:?}", e),
    }
}

#[test]
fn range_of_block_in_first_round() {
    assert_eq!(block_range(4, 3, 0, 10), (0, 4));
    assert_eq!(block_range(4, 3, 2, 10), (8, 10));
}

#[test]
fn range_of_wrapped_block_is_clipped() {
    // block 4 sits in slot 1; only 2 of its bytes were read
    assert_eq!(block_range(4, 3, 4, 18), (4, 6));
    assert_eq!(block_range(4, 3, 3, 18), (0, 4));
}

#[test]
fn fresh_cache_asks_for_fetch() {
    let cache = SourceWindowCache::new(4, 2);
    assert!(cache.needs_fetch(0));
    assert_eq!(cache.get_block(0).err(), Some(CacheError::NotFetched { requested: 0, next: 0 }));
}

#[test]
fn blocks_before_eof_are_provisional() {
    let mut cache = SourceWindowCache::new(4, 3);
    cache.fetch_next(&[1, 2, 3, 4]);
    cache.fetch_next(&[5, 6, 7, 8]);
    assert!(!cache.eof_known());
    let v = ok(cache.get_block(1));
    assert_eq!(v.block_number, 1);
    assert_eq!(v.data, vec![5, 6, 7, 8]);
    assert!(!v.eof_known);
    assert_eq!(v.max_block_number, 1);
    assert_eq!(v.last_block_length, 4);
    assert!(cache.needs_fetch(2));
    assert_eq!(cache.get_block(2).err(), Some(CacheError::NotFetched { requested: 2, next: 2 }));
}

#[test]
fn short_read_marks_end_and_last_block() {
    let mut cache = SourceWindowCache::new(4, 2);
    feed(&mut cache, &[1, 2, 3, 4, 5, 6, 7, 8, 9, 10]);
    assert!(cache.eof_known());
    assert_eq!(cache.next_block_number(), 3);
    assert_eq!(cache.total_bytes_read(), 10);
    let v = ok(cache.get_block(2));
    assert_eq!(v.data, vec![9, 10]);
    assert!(v.eof_known);
    assert_eq!(v.max_block_number, 2);
    assert_eq!(v.last_block_length, 2);
    let v = ok(cache.get_block(1));
    assert_eq!(v.data, vec![5, 6, 7, 8]);
    assert_eq!(v.max_block_number, 2);
    assert_eq!(v.last_block_length, 2);
}

#[test]
fn request_past_end_gets_last_block() {
    let mut cache = SourceWindowCache::new(4, 2);
    feed(&mut cache, &[1, 2, 3, 4, 5, 6]);
    assert!(!cache.needs_fetch(9));
    let v = ok(cache.get_block(9));
    assert_eq!(v.block_number, 1);
    assert_eq!(v.data, vec![5, 6]);
}

#[test]
fn evicted_block_is_invariant_violation() {
    let mut cache = SourceWindowCache::new(4, 2);
    feed(&mut cache, &[1, 2, 3, 4, 5, 6, 7, 8, 9, 10]);
    assert_eq!(cache.oldest_block_number(), 1);
    assert_eq!(
        cache.get_block(0).err(),
        Some(CacheError::InvariantViolation { requested: 0, oldest: 1 })
    );
}

#[test]
fn source_of_whole_blocks_ends_on_empty_read() {
    let mut cache = SourceWindowCache::new(4, 3);
    feed(&mut cache, &[1, 2, 3, 4, 5, 6, 7, 8]);
    assert!(cache.eof_known());
    assert_eq!(cache.next_block_number(), 2);
    let v = ok(cache.get_block(5));
    assert_eq!(v.block_number, 1);
    assert_eq!(v.max_block_number, 1);
    assert_eq!(v.last_block_length, 4);
    assert_eq!(v.data, vec![5, 6, 7, 8]);
}

#[test]
fn empty_source_has_one_empty_block() {
    let mut cache = SourceWindowCache::new(4, 3);
    feed(&mut cache, &[]);
    assert!(cache.eof_known());
    let v = ok(cache.get_block(0));
    assert_eq!(v.block_number, 0);
    assert!(v.data.is_empty());
    assert_eq!(v.max_block_number, 0);
    assert_eq!(v.last_block_length, 0);
}

#[test]
fn eof_accounting_matches_source_length() {
    for len in 1usize..40 {
        let source: Vec<u8> = (0..len).map(|i| i as u8).collect();
        let mut cache = SourceWindowCache::new(5, 3);
        feed(&mut cache, &source);
        let v = ok(cache.get_block(u64::MAX));
        let max = (len + 4) / 5 - 1;
        assert_eq!(v.max_block_number as usize, max);
        assert_eq!(v.last_block_length, len - max * 5);
        assert_eq!(v.data, source[max * 5..].to_vec());
    }
}

#[test]
fn window_stays_bounded_over_long_source() {
    let source: Vec<u8> = (0..1000u32).map(|i| (i * 7 % 251) as u8).collect();
    let mut cache = SourceWindowCache::new(3, 4);
    let mut pos = 0usize;
    while !cache.eof_known() {
        let end = if pos + 3 < source.len() { pos + 3 } else { source.len() };
        cache.fetch_next(&source[pos..end]);
        pos = end;
        assert!(cache.held_blocks() <= 4);
        assert!(cache.buffered_len() <= 12);
        let n = cache.next_block_number() - 1;
        let v = ok(cache.get_block(n));
        let start = n as usize * 3;
        assert_eq!(v.data, source[start..end].to_vec());
    }
    assert_eq!(cache.held_blocks(), 4);
    for n in cache.oldest_block_number()..cache.next_block_number() {
        let v = ok(cache.get_block(n));
        let start = n as usize * 3;
        let end = if start + 3 < source.len() { start + 3 } else { source.len() };
        assert_eq!(v.data, source[start..end].to_vec());
    }
    assert!(matches!(cache.get_block(0), Err(CacheError::InvariantViolation { .. })));
}
