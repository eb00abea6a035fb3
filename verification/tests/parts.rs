use carrybox::parts::{part_count_for, part_size_for, DIRECT_LIMIT, MIB, MIN_PART};
use carrybox::upload::sent_whole;

#[test]
fn small_files_use_the_smallest_part() {
    assert_eq!(part_size_for(0), 16 * 1024 * 1024);
    assert_eq!(part_size_for(100 * MIB), MIN_PART);
}

#[test]
fn large_files_use_larger_parts() {
    // 200 GiB need more than 16 MiB per part to stay below 9500 parts.
    let size = 200 * 1024 * MIB;
    assert_eq!(part_size_for(size), 22 * MIB);
    assert_eq!(part_count_for(size), 9310);
}

#[test]
fn part_sizes_follow_the_formula() {
    for size in [1u64, MIN_PART, 67108865, 9500 * MIN_PART - 1, 9500 * MIN_PART, u64::MAX / 2, u64::MAX] {
        let needed = size / 9500 + 1;
        let ps = MIN_PART.max(needed);
        let expected = ps.div_ceil(MIB) * MIB;
        assert_eq!(part_size_for(size), expected);
        assert_eq!(part_count_for(size) as u64, size.div_ceil(expected));
        assert!(part_count_for(size) <= 9500);
    }
}

#[test]
fn a_part_more_where_something_is_left() {
    assert_eq!(part_count_for(0), 0);
    assert_eq!(part_count_for(MIN_PART), 1);
    assert_eq!(part_count_for(MIN_PART + 1), 2);
    assert_eq!(part_count_for(5 * MIN_PART), 5);
}

#[test]
fn small_files_go_in_one_piece() {
    assert!(sent_whole(0));
    assert!(sent_whole(DIRECT_LIMIT));
    assert!(!sent_whole(DIRECT_LIMIT + 1));
    assert_eq!(DIRECT_LIMIT, 64 * 1024 * 1024);
}
