use obsctl::parts::{plan_parts, PartDescriptor, PlanError, MAX_IN_FLIGHT, MAX_PARTS, PART_SIZE};

const MIB: u64 = 1024 * 1024;

fn triples(parts: &[PartDescriptor]) -> Vec<(u32, u64, u64)> {
    parts.iter().map(|p| (p.part_number, p.offset, p.length)).collect()
}

#[test]
fn limits_have_their_fixed_values() {
    assert_eq!(PART_SIZE, 50 * MIB);
    assert_eq!(MAX_PARTS, 10_000);
    assert_eq!(MAX_IN_FLIGHT, 32);
}

#[test]
fn empty_file_has_no_parts() {
    assert_eq!(plan_parts(0, PART_SIZE, MAX_PARTS).unwrap().len(), 0);
    assert_eq!(plan_parts(0, 1, 0).unwrap().len(), 0);
    assert_eq!(plan_parts(0, 0, MAX_PARTS).unwrap().len(), 0);
}

#[test]
fn size_divisible_by_part_size_gives_equal_parts() {
    let parts = plan_parts(150 * MIB, 50 * MIB, MAX_PARTS).unwrap();
    assert_eq!(
        triples(&parts),
        vec![(1, 0, 50 * MIB), (2, 50 * MIB, 50 * MIB), (3, 100 * MIB, 50 * MIB)]
    );
}

#[test]
fn remainder_goes_into_one_shorter_last_part() {
    let parts = plan_parts(120 * MIB, 50 * MIB, MAX_PARTS).unwrap();
    assert_eq!(
        triples(&parts),
        vec![(1, 0, 50 * MIB), (2, 50 * MIB, 50 * MIB), (3, 100 * MIB, 20 * MIB)]
    );
    assert!(parts.iter().all(|p| p.etag.is_empty()));
}

#[test]
fn file_smaller_than_one_part_is_one_part() {
    let parts = plan_parts(1, PART_SIZE, MAX_PARTS).unwrap();
    assert_eq!(triples(&parts), vec![(1, 0, 1)]);
    let parts = plan_parts(PART_SIZE, PART_SIZE, MAX_PARTS).unwrap();
    assert_eq!(triples(&parts), vec![(1, 0, PART_SIZE)]);
    let parts = plan_parts(PART_SIZE + 1, PART_SIZE, MAX_PARTS).unwrap();
    assert_eq!(triples(&parts), vec![(1, 0, PART_SIZE), (2, PART_SIZE, 1)]);
}

#[test]
fn lengths_add_up_and_numbers_have_no_gap() {
    for (total, size) in [(0u64, 7u64), (1, 7), (6, 7), (7, 7), (8, 7), (700, 7), (701, 7), (99, 1)]
    {
        let parts = plan_parts(total, size, MAX_PARTS).unwrap();
        assert_eq!(parts.iter().map(|p| p.length).sum::<u64>(), total);
        assert_eq!(parts.len() as u64, total.div_ceil(size));
        let mut offset = 0;
        for (i, p) in parts.iter().enumerate() {
            assert_eq!(p.part_number as usize, i + 1);
            assert_eq!(p.offset, offset);
            assert!(p.length > 0 && p.length <= size);
            if i + 1 < parts.len() {
                assert_eq!(p.length, size);
            }
            offset += p.length;
        }
        let shorter = parts.iter().filter(|p| p.length < size).count();
        assert_eq!(shorter, if total % size == 0 { 0 } else { 1 });
    }
}

#[test]
fn ten_thousand_parts_are_allowed() {
    let parts = plan_parts(10_000 * PART_SIZE, PART_SIZE, MAX_PARTS).unwrap();
    assert_eq!(parts.len(), 10_000);
    assert_eq!(parts[9_999].part_number, 10_000);
    assert_eq!(parts[9_999].offset, 9_999 * PART_SIZE);
    assert_eq!(parts[9_999].length, PART_SIZE);
}

#[test]
fn ten_thousand_and_one_parts_are_too_many() {
    assert_eq!(
        plan_parts(10_001 * PART_SIZE, PART_SIZE, MAX_PARTS).err(),
        Some(PlanError::TooManyParts)
    );
    assert_eq!(
        plan_parts(10_000 * PART_SIZE + 1, PART_SIZE, MAX_PARTS).err(),
        Some(PlanError::TooManyParts)
    );
    assert_eq!(plan_parts(3, 1, 2).err(), Some(PlanError::TooManyParts));
    assert_eq!(plan_parts(1, 1, 0).err(), Some(PlanError::TooManyParts));
    assert_eq!(plan_parts(u64::MAX, 1, u32::MAX).err(), Some(PlanError::TooManyParts));
}

#[test]
fn zero_part_size_cannot_cover_a_file() {
    assert_eq!(plan_parts(1, 0, MAX_PARTS).err(), Some(PlanError::ZeroPartSize));
}

#[test]
fn largest_file_in_largest_parts() {
    let parts = plan_parts(u64::MAX, u64::MAX, 1).unwrap();
    assert_eq!(triples(&parts), vec![(1, 0, u64::MAX)]);
    let parts = plan_parts(u64::MAX, u64::MAX - 1, 2).unwrap();
    assert_eq!(triples(&parts), vec![(1, 0, u64::MAX - 1), (2, u64::MAX - 1, 1)]);
}
