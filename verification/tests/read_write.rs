use storage::FifoFileCache;
use storage::MockRequest;
use storage::Value;
use storage::WriteResponse;
use storage::WriteStep;

/// A stand-in for the backing file: its bytes and the write handle's position.
struct Backing {
    bytes: Vec<u8>,
    position: usize,
}

impl Backing {
    fn new() -> Self {
        Backing { bytes: Vec::new(), position: 0 }
    }

    fn perform(&mut self, step: &WriteStep) {
        if let Some(to) = step.seek {
            self.position = to as usize;
        }
        let end = self.position + step.data.len();
        if self.bytes.len() < end {
            self.bytes.resize(end, 0);
        }
        self.bytes[self.position..end].copy_from_slice(&step.data);
        self.position = end;
    }

    fn read_exact(&self, at: u64, len: u64) -> Vec<u8> {
        self.bytes[at as usize..(at + len) as usize].to_vec()
    }
}

fn put(cache: &mut FifoFileCache, file: &mut Backing, value: u64) -> WriteResponse {
    assert!(value.serialize().len() <= cache.page_size());
    let step = cache.write(value);
    file.perform(&step);
    step.response
}

fn get(cache: &FifoFileCache, file: &Backing, request: &WriteResponse) -> Option<u64> {
    assert!(cache.admits(request));
    let at = cache.locate(request);
    let buffer = file.read_exact(at, request.length);
    cache.read(request, &buffer)
}

#[test]
fn test_read_write() {
    let page_size = 8;
    let capacity = 8 * 2;
    let mut cache = FifoFileCache::new(page_size, capacity);
    let mut file = Backing::new();

    let value: u64 = 123;
    let response = put(&mut cache, &mut file, value);
    assert!(response.page_id == 0);
    assert!(response.page_offset == 0);
    assert!(response.version == 0);

    let read_request = WriteResponse {
        page_id: response.page_id,
        page_offset: response.page_offset,
        version: response.version,
        length: response.length,
    };
    let read_value: u64 = get(&cache, &file, &read_request).unwrap();
    assert_eq!(read_value, 123);

    put(&mut cache, &mut file, 456);
    // The cache only has 2 pages, so the third write should move to the next page
    let reponse = put(&mut cache, &mut file, 789);

    assert!(reponse.page_id == 0);
    assert!(reponse.page_offset == 0);
    assert!(reponse.version == 1);

    // Try read the old value, should return None
    let read_value: Option<u64> = get(&cache, &file, &read_request);
    assert!(read_value.is_none());
}

#[test]
fn basic_round_trip_receipt_is_exact() {
    let mut cache = FifoFileCache::new(8, 16);
    let mut file = Backing::new();
    let receipt = put(&mut cache, &mut file, 123);
    assert_eq!(receipt, WriteResponse { page_id: 0, page_offset: 0, version: 0, length: 8 });
    assert_eq!(get(&cache, &file, &receipt), Some(123));
}

#[test]
fn page_wrap_invalidates() {
    let mut cache = FifoFileCache::new(8, 16);
    let mut file = Backing::new();
    let w1 = put(&mut cache, &mut file, 123);
    assert_eq!(w1, WriteResponse { page_id: 0, page_offset: 0, version: 0, length: 8 });
    let w2 = put(&mut cache, &mut file, 456);
    assert_eq!(w2.page_id, 1);
    assert_eq!(w2.page_offset, 0);
    assert_eq!(w2.length, 8);
    // Entering page 1 bumped its version.
    assert_eq!(w2.version, 1);
    assert_eq!(get(&cache, &file, &w1), Some(123));
    assert_eq!(get(&cache, &file, &w2), Some(456));
    let w3 = put(&mut cache, &mut file, 789);
    assert_eq!(w3, WriteResponse { page_id: 0, page_offset: 0, version: 1, length: 8 });
    assert_eq!(get(&cache, &file, &w1), None);
    assert_eq!(get(&cache, &file, &w2), Some(456));
    assert_eq!(get(&cache, &file, &w3), Some(789));
}

#[test]
fn partial_page_packing() {
    let mut cache = FifoFileCache::new(16, 32);
    let mut file = Backing::new();
    let a = cache.write_bytes(vec![1, 2, 3, 4, 5, 6]);
    file.perform(&a);
    let b = cache.write_bytes(vec![7, 8, 9, 10, 11, 12]);
    file.perform(&b);
    let c = cache.write_bytes(vec![13, 14, 15, 16, 17, 18]);
    file.perform(&c);
    assert_eq!((a.response.page_id, a.response.page_offset), (0, 0));
    assert_eq!((b.response.page_id, b.response.page_offset), (0, 6));
    assert_eq!((c.response.page_id, c.response.page_offset), (1, 0));
    assert_eq!(a.seek, None);
    assert_eq!(b.seek, None);
    assert_eq!(c.seek, Some(16));
    assert_eq!(a.response.version, 0);
    assert_eq!(b.response.version, 0);
    assert_eq!(c.response.version, 1);
    assert_eq!(file.read_exact(cache.locate(&b.response), 6), vec![7, 8, 9, 10, 11, 12]);
    assert_eq!(file.read_exact(cache.locate(&c.response), 6), vec![13, 14, 15, 16, 17, 18]);
    assert_eq!(file.bytes.len(), 22);
    assert_eq!(&file.bytes[12..16], &[0, 0, 0, 0]);
}

#[test]
fn old_receipt_after_wrap() {
    let mut cache = FifoFileCache::new(8, 24);
    let mut file = Backing::new();
    let first = put(&mut cache, &mut file, 1);
    assert_eq!((first.page_id, first.version), (0, 0));
    let second = put(&mut cache, &mut file, 2);
    let third = put(&mut cache, &mut file, 3);
    assert_eq!(get(&cache, &file, &first), Some(1));
    assert_eq!(cache.version(0), 0);
    let fourth = put(&mut cache, &mut file, 4);
    assert_eq!((fourth.page_id, fourth.version), (0, 1));
    assert_eq!(cache.version(0), 1);
    assert_eq!(get(&cache, &file, &first), None);
    assert_eq!(get(&cache, &file, &second), Some(2));
    assert_eq!(get(&cache, &file, &third), Some(3));
    assert_eq!(get(&cache, &file, &fourth), Some(4));
}

#[test]
fn fresh_cache_has_zero_versions() {
    let cache = FifoFileCache::new(4096, 4096 * 4);
    assert_eq!(cache.page_size(), 4096);
    assert_eq!(cache.page_count(), 4);
    for page in 0..4 {
        assert_eq!(cache.version(page), 0);
    }
}

#[test]
fn cursor_visits_pages_cyclically_whatever_the_sizes() {
    let mut cache = FifoFileCache::new(10, 30);
    let sizes: [usize; 9] = [10, 1, 9, 1, 10, 3, 3, 3, 3];
    let expected: [(u64, u64, u64); 9] = [
        (0, 0, 0),
        (1, 0, 1),
        (1, 1, 1),
        (2, 0, 1),
        (0, 0, 1),
        (1, 0, 2),
        (1, 3, 2),
        (1, 6, 2),
        (2, 0, 2),
    ];
    for (size, want) in sizes.iter().zip(expected.iter()) {
        let step = cache.write_bytes(vec![7; *size]);
        let got = (step.response.page_id, step.response.page_offset, step.response.version);
        assert_eq!(got, *want);
        assert_eq!(step.response.length, *size as u64);
        assert!(step.response.page_offset + step.response.length <= 10);
    }
}

#[test]
fn versions_only_grow() {
    let mut cache = FifoFileCache::new(8, 24);
    let mut seen = [0u64; 3];
    for round in 0..20u64 {
        cache.write(round);
        for page in 0..3u64 {
            let now = cache.version(page);
            assert!(now >= seen[page as usize]);
            seen[page as usize] = now;
        }
    }
    assert_eq!(seen, [6, 7, 6]);
}

#[test]
fn exactly_filled_page_is_kept_until_the_next_write() {
    let mut cache = FifoFileCache::new(8, 16);
    let mut file = Backing::new();
    let first = put(&mut cache, &mut file, 11);
    assert_eq!(cache.version(1), 0);
    assert!(cache.is_current(&first));
    let second = put(&mut cache, &mut file, 22);
    assert_eq!(cache.version(1), 1);
    assert_eq!(cache.version(0), 0);
    assert!(cache.is_current(&first));
    assert!(cache.is_current(&second));
}

#[test]
fn try_write_refuses_what_does_not_fit() {
    let mut cache = FifoFileCache::new(4, 8);
    assert!(cache.try_write(5u64).is_none());
    assert_eq!(cache.version(0), 0);
    assert_eq!(cache.version(1), 0);
    let step = cache.write_bytes(vec![1, 2, 3]);
    assert_eq!(step.response, WriteResponse { page_id: 0, page_offset: 0, version: 0, length: 3 });

    let mut wide = FifoFileCache::new(8, 16);
    let step = wide.try_write(5u64).unwrap();
    assert_eq!(step.response, WriteResponse { page_id: 0, page_offset: 0, version: 0, length: 8 });
    assert_eq!(step.data, vec![5, 0, 0, 0, 0, 0, 0, 0]);
    assert_eq!(step.seek, None);
}

#[test]
fn admits_checks_the_geometry() {
    let cache = FifoFileCache::new(8, 16);
    let good = WriteResponse { page_id: 1, page_offset: 3, version: 0, length: 5 };
    assert!(cache.admits(&good));
    assert_eq!(cache.locate(&good), 11);
    assert!(!cache.admits(&WriteResponse { page_id: 2, page_offset: 0, version: 0, length: 1 }));
    assert!(!cache.admits(&WriteResponse { page_id: 0, page_offset: 4, version: 0, length: 5 }));
    assert!(!cache.admits(&WriteResponse { page_id: 0, page_offset: 0, version: 0, length: 9 }));
    assert!(!cache.admits(&WriteResponse {
        page_id: 0,
        page_offset: u64::MAX,
        version: 0,
        length: 8,
    }));
    assert!(cache.admits(&WriteResponse { page_id: 0, page_offset: 8, version: 0, length: 0 }));
}

#[test]
fn undecodable_bytes_are_a_miss() {
    let mut cache = FifoFileCache::new(8, 16);
    let step = cache.write_bytes(vec![1, 2, 3]);
    let value: Option<u64> = cache.read(&step.response, &step.data);
    assert_eq!(value, None);
}

#[test]
fn stale_receipt_is_a_miss_whatever_the_bytes() {
    let cache = FifoFileCache::new(8, 16);
    let fabricated = WriteResponse { page_id: 1, page_offset: 0, version: 7, length: 8 };
    let value: Option<u64> = cache.read(&fabricated, &[1, 0, 0, 0, 0, 0, 0, 0]);
    assert_eq!(value, None);
    let matching = WriteResponse { page_id: 1, page_offset: 0, version: 0, length: 8 };
    let value: Option<u64> = cache.read(&matching, &[1, 0, 0, 0, 0, 0, 0, 0]);
    assert_eq!(value, Some(1));
}
