use pumpkin::config::{default_autosave_ticks, LevelConfig, LevelConfigRecord};
use pumpkin::ieee::Double;
use pumpkin::terminal::OriginalTerminal;
use pumpkin::world::border::{
    BlockEdges, BorderEdges, BorderPacket, Worldborder, BUFFER_BITS, DAMAGE_PER_BLOCK_BITS,
};

fn double(value: f64) -> Double {
    Double { bits: value.to_bits() }
}

fn number(value: Double) -> f64 {
    f64::from_bits(value.bits)
}

fn lerp(old: Double, new: Double, elapsed: i64, total: i64) -> Double {
    let (old, new) = (number(old), number(new));
    double(old + (new - old) * (elapsed as f64 / total as f64))
}

fn border() -> Worldborder {
    Worldborder::new(double(0.0), double(0.0), double(60.0), 0, 5, 15)
}

#[test]
fn new_borders_stand_still() {
    let border = border();
    assert_eq!(number(border.current_diameter), 60.0);
    assert_eq!((border.lerp_ticks_total, border.lerp_ticks_remaining), (0, 0));
    assert_eq!(border.portal_teleport_boundary, 29_999_984);
    assert_eq!(border.damage_per_block.bits, 0.2f32.to_bits());
    assert_eq!(border.buffer.bits, 5.0f32.to_bits());
    assert_eq!((DAMAGE_PER_BLOCK_BITS, BUFFER_BITS), (0.2f32.to_bits(), 5.0f32.to_bits()));
    assert_eq!(
        border.init_client(),
        BorderPacket::Initialize {
            center_x: double(0.0),
            center_z: double(0.0),
            old_diameter: double(60.0),
            new_diameter: double(60.0),
            speed: 0,
            portal_teleport_boundary: 29_999_984,
            warning_blocks: 5,
            warning_time: 15,
        }
    );
}

#[test]
fn borders_jump_without_time() {
    let mut border = border();
    assert_eq!(
        border.set_diameter(double(10.0), None),
        BorderPacket::SetSize { diameter: double(10.0) }
    );
    assert_eq!(number(border.current_diameter), 10.0);
    assert_eq!(
        border.set_diameter(double(20.0), Some(-3)),
        BorderPacket::SetLerpSize { from: double(10.0), to: double(20.0), ticks: 0 }
    );
    assert_eq!(number(border.current_diameter), 20.0);
    assert_eq!(number(border.old_diameter), 10.0);
}

#[test]
fn borders_move_over_time() {
    let mut border = border();
    assert_eq!(
        border.set_diameter(double(100.0), Some(4)),
        BorderPacket::SetLerpSize { from: double(60.0), to: double(100.0), ticks: 4 }
    );
    let mut sizes = vec![number(border.current_diameter)];
    for _ in 0..5 {
        border.tick(lerp);
        sizes.push(number(border.current_diameter));
    }
    assert_eq!(sizes, vec![60.0, 70.0, 80.0, 90.0, 100.0, 100.0]);
}

#[test]
fn movements_start_where_the_last_was_to_end() {
    let mut border = border();
    border.set_diameter(double(100.0), Some(10));
    border.tick(lerp);
    border.set_diameter(double(50.0), Some(2));
    assert_eq!(number(border.current_diameter), 100.0);
}

#[test]
fn diameters_are_added() {
    let mut border = border();
    let packet = border.add_diameter(double(5.5), None, |a, b| double(number(a) + number(b)));
    assert_eq!(packet, BorderPacket::SetSize { diameter: double(65.5) });
    assert_eq!(number(border.new_diameter), 65.5);
}

#[test]
fn center_and_warnings_are_set_and_told() {
    let mut border = border();
    assert_eq!(
        border.set_center(double(8.0), double(-8.0)),
        BorderPacket::SetCenter { x: double(8.0), z: double(-8.0) }
    );
    assert_eq!(border.set_warning_delay(30), BorderPacket::SetWarningDelay { delay: 30 });
    assert_eq!(
        border.set_warning_distance(9),
        BorderPacket::SetWarningDistance { distance: 9 }
    );
    assert_eq!((border.warning_time, border.warning_blocks), (30, 9));
    assert_eq!((number(border.center_x), number(border.center_z)), (8.0, -8.0));
}

fn edges(x: Double, z: Double, diameter: Double) -> BorderEdges {
    let (x, z, half) = (number(x), number(z), number(diameter) / 2.0);
    BorderEdges {
        min_x: double(x - half),
        max_x: double(x + half),
        min_z: double(z - half),
        max_z: double(z + half),
    }
}

fn block_edges(x: Double, z: Double, diameter: Double) -> BlockEdges {
    let found = edges(x, z, diameter);
    BlockEdges {
        min_x: number(found.min_x).floor() as i32,
        max_x: number(found.max_x).floor() as i32,
        min_z: number(found.min_z).floor() as i32,
        max_z: number(found.max_z).floor() as i32,
    }
}

#[test]
fn lower_edges_are_inside_and_upper_ones_outside() {
    let border = border();
    let inside = |x: f64, z: f64| border.contains(double(x), double(z), edges);
    assert!(inside(-30.0, -30.0));
    assert!(inside(29.999, 29.999));
    assert!(!inside(30.0, 0.0));
    assert!(!inside(0.0, 30.0));
    assert!(!inside(-30.001, 0.0));
    assert!(!inside(f64::NAN, 0.0));
}

fn corner(x: i64, z: i64) -> (Double, Double) {
    (double(x as f64), double(z as f64))
}

#[test]
fn blocks_are_inside_with_both_corners() {
    let border = border();
    assert!(border.contains_block(28, 28, corner, edges));
    assert!(!border.contains_block(29, 28, corner, edges));
    assert!(!border.contains_block(28, 29, corner, edges));
    assert!(border.contains_block(-30, -30, corner, edges));
    assert!(!border.contains_block(-31, -30, corner, edges));
    assert!(!border.contains_block(i32::MAX, 0, corner, edges));
}

#[test]
fn distance_to_the_nearest_edge_is_negative_outside() {
    let border = border();
    let minus = |a: Double, b: Double| double(number(a) - number(b));
    let distance = |x: f64, z: f64| number(border.distance_to_border(double(x), double(z), minus, edges));
    assert_eq!(distance(0.0, 0.0), 30.0);
    assert_eq!(distance(-28.0, 5.0), 2.0);
    assert_eq!(distance(29.0, 5.0), 1.0);
    assert_eq!(distance(0.0, -26.0), 4.0);
    assert_eq!(distance(10.0, 27.5), 2.5);
    assert_eq!(distance(34.0, 0.0), -4.0);
}

#[test]
fn the_sign_of_the_distance_tells_the_side() {
    let border = border();
    let minus = |a: Double, b: Double| double(number(a) - number(b));
    for x in [-1.0e300, -30.5, -30.0, -29.999, 0.0, 29.5, 30.0, 30.001, f64::MAX] {
        for z in [-31.0, -30.0, -1.0e-320, 12.5, 29.999, 30.0, 1.0e9] {
            let distance =
                number(border.distance_to_border(double(x), double(z), minus, edges));
            let inside = border.contains(double(x), double(z), edges);
            if distance > 0.0 {
                assert!(inside);
            }
            if distance < 0.0 {
                assert!(!inside);
            }
        }
    }
    assert!(border.contains(double(-30.0), double(0.0), edges));
    assert!(!border.contains(double(30.0), double(0.0), edges));
}

#[test]
fn containment_goes_by_the_current_size() {
    let mut border = border();
    border.set_diameter(double(100.0), Some(4));
    assert!(!border.contains(double(40.0), double(0.0), edges));
    for _ in 0..4 {
        border.tick(lerp);
    }
    assert!(border.contains(double(40.0), double(0.0), edges));
}

#[test]
fn blocks_are_clamped() {
    let border = border();
    assert_eq!(border.clamp_block(0, 0, block_edges), (0, 0));
    assert_eq!(border.clamp_block(100, 100, block_edges), (29, 29));
    assert_eq!(border.clamp_block(-100, -100, block_edges), (-31, -30));
    let (x, z) = border.clamp_block(-100, 77, block_edges);
    assert_eq!(border.clamp_block(x, z, block_edges), (x, z));
}

#[test]
fn only_the_first_attempt_saves_the_terminal() {
    let mut terminal = OriginalTerminal::new();
    assert_eq!(terminal.to_restore(), None);
    assert!(terminal.save_original_state(|| true, || Some(7)));
    assert!(!terminal.save_original_state(|| panic!("asked"), || panic!("read")));
    assert_eq!(terminal.to_restore(), Some(&7));
}

#[test]
fn nothing_is_saved_without_a_terminal() {
    let mut terminal = OriginalTerminal::<u8>::new();
    assert!(!terminal.save_original_state(|| false, || panic!("read")));
    assert!(!terminal.save_original_state(|| true, || Some(1)));
    assert_eq!(terminal.to_restore(), None);
    let mut unreadable = OriginalTerminal::<u8>::new();
    assert!(!unreadable.save_original_state(|| true, || None));
    assert_eq!(unreadable.to_restore(), None);
}

#[test]
fn missing_settings_get_their_defaults() {
    let record = LevelConfigRecord {
        chunk: 4u8,
        lighting: None,
        gpu_experimental_lighting: None,
        gpu_experimental_terrain_noise: Some(true),
        autosave_ticks: None,
    };
    let config = LevelConfig::from_record(record, 'd');
    assert_eq!((config.chunk, config.lighting), (4, 'd'));
    assert!(!config.gpu_experimental_lighting && config.gpu_experimental_terrain_noise);
    assert_eq!(config.autosave_ticks, 6000);
    assert_eq!(default_autosave_ticks(), 6000);
    let plain = LevelConfig::<u8, u8>::default();
    assert_eq!(plain.autosave_ticks, 0);
}
