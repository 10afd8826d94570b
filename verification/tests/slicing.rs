use memrange::{range, Range, Slices};

const MAX: u64 = u64::MAX;

fn drain(mut slices: Slices) -> Vec<Range> {
    let mut out = Vec::new();
    while let Some(r) = slices.next() {
        out.push(r);
    }
    out
}

#[test]
fn each_slice_cuts_a_range_that_divides_evenly() {
    assert_eq!(drain(range(0, 5).each_slice(2)), vec![range(0, 1), range(2, 3), range(4, 5)]);
}

#[test]
fn each_slice_drops_the_remainder() {
    assert_eq!(drain(range(0, 6).each_slice(2)), vec![range(0, 1), range(2, 3), range(4, 5)]);
}

#[test]
fn each_slice_starts_at_min() {
    assert_eq!(drain(range(10, 19).each_slice(5)), vec![range(10, 14), range(15, 19)]);
    assert_eq!(drain(range(10, 20).each_slice(4)), vec![range(10, 13), range(14, 17)]);
}

#[test]
fn each_slice_of_size_one_gives_every_value() {
    assert_eq!(drain(range(7, 9).each_slice(1)), vec![range(7, 7), range(8, 8), range(9, 9)]);
    assert_eq!(drain(range(MAX, MAX).each_slice(1)), vec![range(MAX, MAX)]);
}

#[test]
fn each_slice_of_the_whole_length_gives_the_range() {
    assert_eq!(drain(range(3, 8).each_slice(6)), vec![range(3, 8)]);
    assert_eq!(drain(range(1, MAX).each_slice(MAX)), vec![range(1, MAX)]);
    assert_eq!(drain(range(0, MAX - 1).each_slice(MAX)), vec![range(0, MAX - 1)]);
}

#[test]
fn each_slice_larger_than_the_range_gives_nothing() {
    assert_eq!(drain(range(3, 8).each_slice(7)), vec![]);
    assert_eq!(drain(range(5, 5).each_slice(2)), vec![]);
    assert_eq!(drain(range(0, 0).each_slice(MAX)), vec![]);
}

#[test]
fn each_slice_at_the_upper_end_of_the_domain() {
    assert_eq!(drain(range(MAX - 5, MAX).each_slice(2)), vec![
        range(MAX - 5, MAX - 4),
        range(MAX - 3, MAX - 2),
        range(MAX - 1, MAX),
    ]);
    assert_eq!(drain(range(MAX - 5, MAX).each_slice(4)), vec![range(MAX - 5, MAX - 2)]);
}

#[test]
fn each_slice_of_the_whole_domain() {
    let half = 1u64 << 63;
    assert_eq!(drain(range(0, MAX).each_slice(half)), vec![range(0, half - 1), range(half, MAX)]);
    assert_eq!(drain(range(0, MAX).each_slice(MAX)), vec![range(0, MAX - 1)]);
}

#[test]
fn each_slice_count_is_len_divided_by_size() {
    for (r, size) in [(range(0, 99), 7u64), (range(5, 5), 1), (range(100, 1000), 10), (range(0, 16), 17)] {
        let slices = drain(r.each_slice(size));
        assert_eq!(slices.len() as u64, r.len() / size);
        let mut expected_min = r.min;
        for s in slices {
            assert_eq!(s.min, expected_min);
            assert_eq!(s.len(), size);
            assert!(s.max <= r.max);
            expected_min = s.max + 1;
        }
        assert!(r.max + 1 - expected_min < size);
        assert_eq!(r.max + 1 - expected_min, r.len() % size);
    }
}

#[test]
fn next_hands_out_one_slice_at_a_time() {
    let mut slices = range(0, 5).each_slice(3);
    assert_eq!(slices.next(), Some(range(0, 2)));
    assert_eq!(slices.next(), Some(range(3, 5)));
    assert_eq!(slices.next(), None);
}

#[test]
fn next_stays_none_once_the_slices_are_used_up() {
    let mut slices = range(0, 6).each_slice(3);
    assert_eq!(slices.next(), Some(range(0, 2)));
    assert_eq!(slices.next(), Some(range(3, 5)));
    assert_eq!(slices.next(), None);
    assert_eq!(slices.next(), None);
    assert_eq!(slices.next(), None);
}

#[test]
fn each_call_of_each_slice_starts_afresh() {
    let r = range(0, 3);
    let mut first = r.each_slice(2);
    assert_eq!(first.next(), Some(range(0, 1)));
    let mut second = r.each_slice(2);
    assert_eq!(second.next(), Some(range(0, 1)));
    assert_eq!(first.next(), Some(range(2, 3)));
    assert_eq!(second.next(), Some(range(2, 3)));
    assert_eq!(first.next(), None);
    assert_eq!(second.next(), None);
}
