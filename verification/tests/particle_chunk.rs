use particle_system::particle_chunk::{chunk_goals, chunk_offsets, plan_chunks, ChunkLayout, PARTICLE_VERTEX_SIZE};

#[test]
fn small_goal_is_one_row() {
    let l = ChunkLayout::new(100, 65535, 128 << 20);
    assert_eq!(l.workgroups(), (100, 1, 1));
    assert_eq!(l.get_particle_count(), 100);
}

#[test]
fn goal_above_limit_is_capped_to_one_row() {
    let l = ChunkLayout::new(100000, 65535, 128 << 20);
    assert_eq!(l.workgroups(), (65535, 1, 1));
    assert_eq!(l.get_particle_count(), 65535);
}

#[test]
fn large_goal_fills_three_axes() {
    let l = ChunkLayout::new(1_000_000, 100, u32::MAX);
    assert_eq!(l.workgroups(), (100, 100, 100));
    assert_eq!(l.get_particle_count(), 1_000_000);
    let l = ChunkLayout::new(1_000_001, 100, u32::MAX);
    assert_eq!(l.workgroups(), (100, 100, 100));
    assert_eq!(l.get_particle_count(), 1_000_000);
}

#[test]
fn two_axes_round_down() {
    // 250 / 100 = 2 rows; 250 / 200 = 1 layer.
    let l = ChunkLayout::new(250, 100, u32::MAX);
    assert_eq!(l.workgroups(), (100, 2, 1));
    assert_eq!(l.get_particle_count(), 200);
}

#[test]
fn too_large_for_binding_is_retried_smaller() {
    let l = ChunkLayout::new(100000, 65535, 160000);
    assert_eq!(l.workgroups(), (10000, 1, 1));
    assert_eq!(l.get_particle_count(), 10000);
    assert!(l.get_particle_count() * PARTICLE_VERTEX_SIZE <= 160000);
}

#[test]
fn retry_uses_whole_vertices_only() {
    // 1000 bytes hold 62 vertices of 16 bytes.
    let l = ChunkLayout::new(500, 65535, 1000);
    assert_eq!(l.workgroups(), (62, 1, 1));
    assert_eq!(l.get_particle_count(), 62);
}

#[test]
fn buffer_sizes_scale_with_particles() {
    let l = ChunkLayout::new(100000, 65535, 160000);
    assert_eq!(l.buffer_size(16), 160000);
    assert_eq!(l.buffer_size(8), 80000);
    assert_eq!(l.buffer_size(0), 0);
}

#[test]
fn try_new_refuses_what_new_cannot_size() {
    assert!(ChunkLayout::try_new(0, 65535, 1 << 20).is_none());
    assert!(ChunkLayout::try_new(5, 0, 1 << 20).is_none());
    // Does not fit, and not even one vertex fits in the binding.
    assert!(ChunkLayout::try_new(5, 10, 15).is_none());
    // The byte count of the first proposal does not fit in 32 bits.
    assert!(ChunkLayout::try_new(u32::MAX, u32::MAX, u32::MAX).is_none());
}

#[test]
fn try_new_agrees_with_new() {
    let l = ChunkLayout::try_new(5, 10, 80).unwrap();
    assert_eq!(l.workgroups(), (5, 1, 1));
    let l = ChunkLayout::try_new(268435456, 65535, u32::MAX).unwrap();
    assert_eq!(l.workgroups(), (65535, 4096, 1));
    assert_eq!(l.get_particle_count(), 268431360);
    let l = ChunkLayout::try_new(100000, 65535, 160000).unwrap();
    assert_eq!(l.workgroups(), (10000, 1, 1));
}

#[test]
fn goals_fill_chunks_then_the_rest() {
    assert_eq!(chunk_goals(10, 4), vec![4, 4, 2]);
    assert_eq!(chunk_goals(8, 4), vec![4, 4]);
    assert_eq!(chunk_goals(3, 65535), vec![3]);
    assert_eq!(chunk_goals(4_000_000, 65535).len(), 62);
    assert_eq!(chunk_goals(4_000_000, 65535).iter().map(|&g| g as u64).sum::<u64>(), 4_000_000);
    assert_eq!(*chunk_goals(4_000_000, 65535).last().unwrap(), 4_000_000 - 61 * 65535);
}

#[test]
fn no_particles_no_chunks() {
    assert!(chunk_goals(0, 0).is_empty());
    assert!(chunk_goals(0, 65535).is_empty());
}

#[test]
fn offsets_are_sums_before_each_chunk() {
    assert_eq!(chunk_offsets(&vec![4, 4, 2]), vec![0, 4, 8]);
    assert_eq!(chunk_offsets(&vec![7]), vec![0]);
    assert_eq!(chunk_offsets(&vec![]), Vec::<u32>::new());
    assert_eq!(chunk_offsets(&vec![0, 3, 0, 5]), vec![0, 0, 3, 3]);
}

#[test]
fn offsets_of_goals_cover_all_particles() {
    let goals = chunk_goals(10, 4);
    let offsets = chunk_offsets(&goals);
    assert_eq!(offsets.last().unwrap() + goals.last().unwrap(), 10);
}

fn counts(layouts: &[ChunkLayout]) -> Vec<u32> {
    layouts.iter().map(|l| l.get_particle_count()).collect()
}

#[test]
fn plan_sizes_every_goal() {
    let plan = plan_chunks(10, 4, 1 << 20).unwrap();
    assert_eq!(counts(&plan), vec![4, 4, 2]);
    assert_eq!(plan[2].workgroups(), (2, 1, 1));
    let plan = plan_chunks(4_000_000, 65535, 128 << 20).unwrap();
    assert_eq!(plan.len(), 62);
    assert_eq!(counts(&plan).iter().map(|&c| c as u64).sum::<u64>(), 4_000_000);
}

#[test]
fn plan_shrinks_chunks_that_overflow_the_binding() {
    // A full chunk of 4 needs 64 bytes; only 3 vertices fit in 48.
    let plan = plan_chunks(10, 4, 48).unwrap();
    assert_eq!(counts(&plan), vec![3, 3, 2]);
}

#[test]
fn plan_of_no_particles_is_empty() {
    assert!(plan_chunks(0, 0, 0).unwrap().is_empty());
}

#[test]
fn plan_refuses_unsizable_chunks() {
    assert!(plan_chunks(10, 0, 1 << 20).is_none());
    assert!(plan_chunks(10, 4, 15).is_none());
    assert!(plan_chunks(u32::MAX, u32::MAX, u32::MAX).is_none());
}
