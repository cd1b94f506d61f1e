use gmail_inbox::inbox::{first_page_request, next_page_request, PAGE_SIZE};
use gmail_inbox::paging::generate_sequence;

#[test]
fn page_size_is_twenty() {
    assert_eq!(PAGE_SIZE, 20);
}

#[test]
fn small_mailbox_first_page() {
    // total = 5, pageSize = 20: the first page covers 1..=5, offset 1.
    let (range, offset) = generate_sequence(5 + 1, PAGE_SIZE as u32);
    assert_eq!(range, "1,2,3,4,5");
    assert_eq!(offset, 1);
}

#[test]
fn paging_through_45_messages() {
    // total = 45: first page 26..=45 (via last = 46), offset 26;
    // next page 6..=25, offset 6; next page 1..=5, offset 1.
    let (range, offset) = first_page_request(45);
    let nums: Vec<u32> = range.split(',').map(|s| s.parse().unwrap()).collect();
    assert_eq!(nums, (26..=45).collect::<Vec<u32>>());
    assert_eq!(offset, 26);

    let (range, offset) = next_page_request(offset);
    let nums: Vec<u32> = range.split(',').map(|s| s.parse().unwrap()).collect();
    assert_eq!(nums, (6..=25).collect::<Vec<u32>>());
    assert_eq!(offset, 6);

    let (range, offset) = next_page_request(offset);
    let nums: Vec<u32> = range.split(',').map(|s| s.parse().unwrap()).collect();
    assert_eq!(nums, (1..=5).collect::<Vec<u32>>());
    assert_eq!(offset, 1);
}

#[test]
fn first_page_serialization_is_ascending_run() {
    // Splitting the range on commas and parsing the pieces recovers exactly
    // the ascending sequence start..=total with start = max(1, total+1-20).
    for total in [1u32, 2, 19, 20, 21, 40, 1000, 1_000_000] {
        let (range, offset) = generate_sequence(total + 1, 20);
        let start = if total + 1 > 20 { total + 1 - 20 } else { 1 };
        assert_eq!(offset, start);
        let nums: Vec<u32> = range.split(',').map(|s| s.parse().unwrap()).collect();
        assert_eq!(nums, (start..=total).collect::<Vec<u32>>());
    }
}

#[test]
fn empty_mailbox_yields_empty_range() {
    // total = 0: last = 1 and the page [1, 1) is empty.
    let (range, offset) = generate_sequence(0 + 1, 20);
    assert_eq!(range, "");
    assert_eq!(offset, 1);
    let (range, offset) = generate_sequence(0, 20);
    assert_eq!(range, "");
    assert_eq!(offset, 1);
}

#[test]
fn offset_never_below_one() {
    for last in [0u32, 1, 2, 19, 20, 21, 100] {
        let (_, offset) = generate_sequence(last, 20);
        assert!(offset >= 1);
    }
}

#[test]
fn identical_inputs_identical_outputs() {
    for last in [0u32, 6, 26, 46, 12345] {
        let a = generate_sequence(last, 20);
        let b = generate_sequence(last, 20);
        assert_eq!(a, b);
    }
}

#[test]
fn fed_back_offset_gives_earlier_disjoint_page() {
    // Feeding the returned offset back as the next upper bound yields a
    // strictly earlier, non-overlapping page.
    let (range1, offset1) = generate_sequence(46, 20);
    let nums1: Vec<u32> = range1.split(',').map(|s| s.parse().unwrap()).collect();
    let (range2, _) = generate_sequence(offset1, 20);
    let nums2: Vec<u32> = range2.split(',').map(|s| s.parse().unwrap()).collect();
    assert!(!nums2.is_empty());
    let max2 = *nums2.iter().max().unwrap();
    let min1 = *nums1.iter().min().unwrap();
    assert!(max2 < min1);
    for n in &nums2 {
        assert!(!nums1.contains(n));
    }
}

#[test]
fn bound_at_page_size_clamps_to_one() {
    // last <= qty clamps the start to sequence number 1, never 0.
    let (range, offset) = generate_sequence(20, 20);
    let nums: Vec<u32> = range.split(',').map(|s| s.parse().unwrap()).collect();
    assert_eq!(nums, (1..=19).collect::<Vec<u32>>());
    assert_eq!(offset, 1);

    let (range, offset) = generate_sequence(21, 20);
    let nums: Vec<u32> = range.split(',').map(|s| s.parse().unwrap()).collect();
    assert_eq!(nums, (1..=20).collect::<Vec<u32>>());
    assert_eq!(offset, 1);
}

#[test]
fn multi_digit_serialization() {
    let (range, offset) = generate_sequence(1_000_001, 2);
    assert_eq!(range, "999999,1000000");
    assert_eq!(offset, 999_999);
}
