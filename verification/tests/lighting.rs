use pumpkin::lighting::region::{build_region, Rng, HEIGHT, SEED};
use pumpkin::lighting::volume::{LightVolume, VoxelProps};

fn empty_props(n: usize) -> Vec<VoxelProps> {
    vec![VoxelProps::default(); n]
}

#[test]
fn single_source_matches_reference() {
    let (sx, sy, sz) = (16u32, 16u32, 16u32);
    let mut props = empty_props((sx * sy * sz) as usize);
    let center = ((8 * sz as usize) + 8) * sx as usize + 8;
    props[center].luminance = 15;

    let mut cpu = LightVolume::new(sx, sy, sz, &props);
    cpu.propagate_cpu();
    let mut reference = LightVolume::new(sx, sy, sz, &props);
    reference.propagate_reference();

    assert_eq!(cpu.light, reference.light);
    assert_eq!(cpu.light[center], 15);
}

#[test]
fn mixed_luminance_under_lights_vs_reference() {
    // A dim source that reaches a voxel first locks in a level below the fixed point.
    let (sx, sy, sz) = (24u32, 8u32, 8u32);
    let mut props = empty_props((sx * sy * sz) as usize);
    let idx = |x: usize, y: usize, z: usize| ((y * sz as usize) + z) * sx as usize + x;
    props[idx(4, 4, 4)].luminance = 8;
    props[idx(12, 4, 4)].luminance = 15;
    props[idx(19, 4, 4)].luminance = 12;

    let mut cpu = LightVolume::new(sx, sy, sz, &props);
    cpu.propagate_cpu();
    let mut reference = LightVolume::new(sx, sy, sz, &props);
    reference.propagate_reference();

    assert_ne!(cpu.light, reference.light);
    assert!(
        cpu.light.iter().zip(&reference.light).all(|(c, r)| c <= r),
        "BFS should only ever under-light relative to the fixed point"
    );
}

#[test]
fn opaque_wall_blocks_light() {
    let (sx, sy, sz) = (8u32, 4u32, 4u32);
    let mut props = empty_props((sx * sy * sz) as usize);
    let idx = |x: usize, y: usize, z: usize| ((y * sz as usize) + z) * sx as usize + x;
    props[idx(0, 1, 1)].luminance = 15;
    for y in 0..sy as usize {
        for z in 0..sz as usize {
            props[idx(3, y, z)].opacity = 15;
        }
    }
    let mut cpu = LightVolume::new(sx, sy, sz, &props);
    cpu.propagate_cpu();
    assert_eq!(cpu.light[idx(4, 1, 1)], 0);
    assert!(cpu.light[idx(2, 1, 1)] > 0);
}

#[test]
fn light_falls_off_by_one_in_the_open() {
    let mut props = empty_props(16);
    props[0].luminance = 15;
    let mut volume = LightVolume::new(16, 1, 1, &props);
    volume.propagate_cpu();
    let expected: Vec<u8> = (0..16u8).map(|x| 15 - x).collect();
    assert_eq!(volume.light, expected);
}

#[test]
fn light_falls_off_by_opacity() {
    let mut props = empty_props(4);
    props[0].luminance = 10;
    props[1].opacity = 3;
    props[2].opacity = 1;
    let mut volume = LightVolume::new(4, 1, 1, &props);
    volume.propagate_reference();
    assert_eq!(volume.light, vec![10, 7, 6, 5]);
}

#[test]
fn an_opaque_source_keeps_its_own_light() {
    let mut props = empty_props(3);
    props[1].luminance = 4;
    props[1].opacity = 15;
    props[0].luminance = 15;
    let mut volume = LightVolume::new(3, 1, 1, &props);
    volume.propagate_reference();
    assert_eq!(volume.light, vec![15, 4, 3]);
}

#[test]
fn relaxed_light_is_steady() {
    let mut props = empty_props(64);
    props[5].luminance = 14;
    props[40].luminance = 7;
    props[20].opacity = 6;
    let mut volume = LightVolume::new(4, 4, 4, &props);
    volume.propagate_reference();
    let steady = volume.light.clone();
    volume.propagate_reference();
    assert_eq!(volume.light, steady);
}

#[test]
fn flooding_only_brightens() {
    let mut props = empty_props(8);
    props[7].luminance = 3;
    let mut volume = LightVolume::new(8, 1, 1, &props);
    volume.light[0] = 9;
    volume.propagate_cpu();
    assert!(volume.light[0] >= 9);
    assert_eq!(volume.light[7], 3);
}

#[test]
fn resetting_darkens_everything() {
    let mut props = empty_props(8);
    props[0].luminance = 15;
    let mut volume = LightVolume::new(2, 2, 2, &props);
    volume.propagate_cpu();
    assert!(volume.light.iter().any(|level| *level > 0));
    volume.reset_light();
    assert_eq!(volume.light, vec![0; 8]);
    assert_eq!(volume.voxel_count(), 8);
}

#[test]
fn properties_are_packed_into_words() {
    let props = vec![
        VoxelProps { opacity: 15, luminance: 0 },
        VoxelProps { opacity: 3, luminance: 14 },
    ];
    let volume = LightVolume::new(2, 1, 1, &props);
    assert_eq!(volume.props, vec![0x0f, 0xe3]);
}

#[test]
fn an_empty_volume_has_no_voxels() {
    let mut volume = LightVolume::new(0, 5, 5, &[]);
    volume.propagate_cpu();
    volume.propagate_reference();
    assert_eq!(volume.voxel_count(), 0);
}

#[test]
fn the_sequence_is_an_xorshift() {
    let mut rng = Rng { state: 1 };
    assert_eq!(rng.next(), 0x4082_2041);
    let mut a = Rng { state: SEED };
    let mut b = Rng { state: SEED };
    for n in 1..50 {
        assert_eq!(u64::from(a.range(n)), b.next() % u64::from(n));
    }
}

fn rolling_surface(side: u32) -> Vec<u32> {
    let mut heights = Vec::new();
    for z in 0..side {
        for x in 0..side {
            let fx = f64::from(x) * 0.08;
            let fz = f64::from(z) * 0.08;
            let h = 132.0 + 6.0 * fx.sin() + 6.0 * fz.cos() + 3.0 * (fx + fz).sin();
            heights.push(h as u32);
        }
    }
    heights
}

#[test]
fn regions_have_stone_caves_and_torches() {
    let heights = rolling_surface(16);
    let (volume, torches) = build_region(1, &heights);
    assert_eq!(torches, 4);
    assert_eq!((volume.size_x, volume.size_y, volume.size_z), (16, HEIGHT, 16));
    let emitters = volume.props.iter().filter(|word| **word >> 4 == 14).count();
    assert!(emitters >= 1 && emitters <= torches);
    let stone = volume.props.iter().filter(|word| **word & 15 == 15).count();
    let filled: u32 = heights.iter().map(|h| h + 1).sum();
    assert!(stone > 0 && stone < filled as usize);
    // Bedrock is stone, the sky is air.
    assert_eq!(volume.props[0] & 15, 15);
    assert_eq!(volume.props[volume.voxel_count() - 1], 0);
}

#[test]
fn first_cave_is_where_the_sequence_says() {
    let heights = vec![200; 256];
    let (volume, _) = build_region(1, &heights);
    let mut rng = Rng { state: SEED };
    let (x, z) = (rng.range(16), rng.range(16));
    let y = 70 + rng.range(50);
    let index = ((y * 16 + z) * 16 + x) as usize;
    assert_eq!(volume.props[index], 14 << 4);
    assert_eq!(build_region(0, &[]).1, 0);
}

#[test]
fn even_torches_flood_to_the_fixed_point() {
    let (mut volume, _) = build_region(1, &rolling_surface(16));
    volume.propagate_cpu();
    let flooded = volume.light.clone();
    volume.reset_light();
    volume.propagate_reference();
    assert_eq!(flooded, volume.light);
}

#[test]
fn index_and_coordinates_are_inverse() {
    let volume = LightVolume::new(3, 4, 5, &empty_props(60));
    for i in 0..60 {
        let (x, y, z) = volume.coords(i);
        assert!(x < 3 && y < 4 && z < 5);
        assert_eq!(volume.index(x, y, z), i);
    }
    assert_eq!(volume.index(2, 1, 3), (1 * 5 + 3) * 3 + 2);
    assert_eq!(volume.coords(26), (2, 1, 3));
}

#[test]
fn neighbors_are_one_step_away_and_lead_back() {
    let volume = LightVolume::new(3, 4, 5, &empty_props(60));
    let offsets = [(0, -1, 0), (0, 1, 0), (0, 0, -1), (0, 0, 1), (-1, 0, 0), (1, 0, 0)];
    for i in 0..60 {
        let (x, y, z) = volume.coords(i);
        for (dir, (dx, dy, dz)) in offsets.into_iter().enumerate() {
            let (nx, ny, nz) = (i64::from(x) + dx, i64::from(y) + dy, i64::from(z) + dz);
            let inside = (0..3).contains(&nx) && (0..4).contains(&ny) && (0..5).contains(&nz);
            match volume.neighbor(i, dir) {
                Some(n) => {
                    assert!(inside && n != i);
                    assert_eq!(volume.coords(n), (nx as u32, ny as u32, nz as u32));
                    assert_eq!(volume.neighbor(n, dir ^ 1), Some(i));
                }
                None => assert!(!inside),
            }
        }
    }
}

#[test]
fn voxels_tell_their_properties() {
    let props = [VoxelProps { opacity: 3, luminance: 14 }];
    let volume = LightVolume::new(1, 1, 1, &props);
    assert_eq!((volume.opacity_at(0), volume.luminance_at(0)), (3, 14));
}
