use tactical_mapper::replay::{next_replay_offset, replay_order, Trail, TRAIL_CAPACITY};
use tactical_mapper::voxel::group_by_voxel;

#[test]
fn voxel_groups_follow_first_occurrence() {
    let keys = vec![(0, 0, 0), (1, 0, 0), (0, 0, 0), (-1, 2, 3), (1, 0, 0), (1, 0, 1)];
    let groups = group_by_voxel(&keys);
    assert_eq!(groups, vec![vec![0, 2], vec![1, 4], vec![3], vec![5]]);
}

#[test]
fn voxel_grouping_of_nothing_is_empty() {
    assert!(group_by_voxel(&Vec::new()).is_empty());
}

#[test]
fn voxel_keys_sharing_a_coordinate_stay_apart() {
    let keys = vec![(5, 1, 1), (5, 1, 2), (5, 2, 1), (5, 1, 1), (i64::MIN, 0, 0), (i64::MAX, 0, 0)];
    let groups = group_by_voxel(&keys);
    assert_eq!(groups, vec![vec![0, 3], vec![1], vec![2], vec![4], vec![5]]);
}

#[test]
fn voxel_groups_partition_the_points() {
    let keys: Vec<(i64, i64, i64)> = (0..200).map(|i| (i % 7, i % 3, 0)).collect();
    let groups = group_by_voxel(&keys);
    assert_eq!(groups.len(), 21);
    let mut seen = vec![0; keys.len()];
    for group in &groups {
        for &i in group {
            seen[i] += 1;
            assert_eq!(keys[i], keys[group[0]]);
        }
    }
    assert!(seen.iter().all(|&count| count == 1));
}

#[test]
fn replay_rotates_by_offset() {
    assert_eq!(replay_order(5, 2), vec![2, 3, 4, 0, 1]);
    assert_eq!(replay_order(3, 0), vec![0, 1, 2]);
    assert!(replay_order(0, 0).is_empty());
}

#[test]
fn replay_visits_each_point_once() {
    for len in 1..9 {
        for offset in 0..len {
            let mut order = replay_order(len, offset);
            order.sort();
            assert_eq!(order, (0..len).collect::<Vec<_>>());
        }
    }
}

#[test]
fn replay_offset_wraps_around() {
    assert_eq!(next_replay_offset(0, 3), 1);
    assert_eq!(next_replay_offset(2, 3), 0);
    let mut offset = 4;
    for _ in 0..7 {
        offset = next_replay_offset(offset, 7);
    }
    assert_eq!(offset, 4);
}

#[test]
fn trail_keeps_the_latest_positions() {
    let mut trail = Trail::new();
    for i in 0..(TRAIL_CAPACITY + 10) {
        trail.push(i);
    }
    assert_eq!(trail.len(), TRAIL_CAPACITY);
    assert_eq!(*trail.get(0), 10);
    assert_eq!(*trail.get(TRAIL_CAPACITY - 1), TRAIL_CAPACITY + 9);
    trail.clear();
    assert_eq!(trail.len(), 0);
}

#[test]
fn trail_below_capacity_keeps_everything() {
    let mut trail = Trail::new();
    trail.push((1.0_f32, 2.0_f32));
    trail.push((3.0, 4.0));
    assert_eq!(trail.len(), 2);
    assert_eq!(*trail.get(0), (1.0, 2.0));
    assert_eq!(*trail.get(1), (3.0, 4.0));
}

#[test]
fn there_are_as_many_groups_as_distinct_keys() {
    let keys: Vec<(i64, i64, i64)> = (0..300).map(|i| ((i * 7) % 11, (i * 3) % 5, i % 2)).collect();
    let distinct: std::collections::HashSet<_> = keys.iter().collect();
    assert_eq!(group_by_voxel(&keys).len(), distinct.len());
}
