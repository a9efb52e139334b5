use lifeview::grid::{cell_index_at, kernel_offsets, GenerationType, Grid, KernelCache};
use lifeview::ivec::IVec2;
use lifeview::rule::{KernelDef, KernelKind, Rule, RuleMode, StateType};
use lifeview::shapes::Shape;

fn kernel(c0: usize, c1: usize) -> KernelDef<f32> {
    KernelDef {
        mu: 0.15,
        sigma: 0.015,
        base_radius: 13,
        relative_radius: 1.0,
        height: 1.0,
        peaks: vec![1.0],
        c0,
        c1,
        use_target: false,
        polynomial: false,
        alpha: 4.0,
        kernel_kind: KernelKind::Bump4,
    }
}

fn rule(num_channels: usize) -> Rule<f32> {
    Rule {
        state_type: StateType::CONTINUOUS,
        delta: 0.1,
        kernels: vec![kernel(0, 0)],
        num_channels,
        mode: RuleMode::Sum,
    }
}

fn build(k: &KernelDef<f32>) -> KernelCache<f32> {
    let weights: Vec<(IVec2, f32)> = kernel_offsets(k.base_radius.max(1)).into_iter().map(|o| (o, 1.0)).collect();
    let sum = weights.len() as f32;
    KernelCache { weights, sum }
}

fn zero_value(_pos: IVec2, _channel: usize) -> f32 {
    0.0
}

fn new_grid(width: usize, height: usize, cell_size: f32, rule: Rule<f32>) -> Grid<f32> {
    Grid::new(width, height, cell_size, rule, 0.0, build, zero_value)
}

fn grid(width: usize, height: usize, cell_size: f32) -> Grid<f32> {
    Grid::new(width, height, cell_size, rule(1), 0.0, build, |_pos: IVec2, _c: usize| 0.5)
}

#[test]
fn grid_idx_to_vector() {
    let grid = grid(100, 50, 5.0);

    assert_eq!(grid.idx_to_vector(0), IVec2::new(0, 0));
    assert_eq!(grid.idx_to_vector(100), IVec2::new(0, 1));
    assert_eq!(grid.idx_to_vector(101), IVec2::new(1, 1));
    assert_eq!(grid.idx_to_vector(1010), IVec2::new(10, 10));
}

#[test]
fn grid_vector_to_idx() {
    let grid = grid(100, 50, 5.0);

    assert_eq!(grid.vector_to_idx(IVec2::new(0, 0)), 0);
    assert_eq!(grid.vector_to_idx(IVec2::new(0, 1)), 100);
    assert_eq!(grid.vector_to_idx(IVec2::new(1, 1)), 101);
    assert_eq!(grid.vector_to_idx(IVec2::new(10, 10)), 1010);
}

#[test]
fn grid_wrap_pos() {
    let grid = grid(100, 50, 5.0);

    assert_eq!(grid.wrap_pos(IVec2::new(0, 0)), IVec2::new(0, 0));
    assert_eq!(grid.wrap_pos(IVec2::new(-1, 0)), IVec2::new(99, 0));
    assert_eq!(grid.wrap_pos(IVec2::new(-1, -1)), IVec2::new(99, 49));
    assert_eq!(grid.wrap_pos(IVec2::new(0, -1)), IVec2::new(0, 49));
}

#[test]
fn new_grid_is_paused_filled_and_cached() {
    let g = Grid::new(4, 3, 2.0f32, rule(2), 0.0, build, |pos: IVec2, c: usize| (pos.x * 10 + pos.y) as f32 + c as f32 * 100.0);
    assert!(g.paused);
    assert_eq!(g.generation_type, GenerationType::RANDOM);
    assert_eq!(g.cell_data.len(), 24);
    assert_eq!(g.next_cell_data, vec![0.0; 24]);
    // cell 5 of a 4-wide grid is (1, 1); every channel is filled
    assert_eq!(g.cell_data[5 * 2], 11.0);
    assert_eq!(g.cell_data[5 * 2 + 1], 111.0);
    assert_eq!(g.kernel_caches.len(), 1);
    assert_eq!(g.prev_kernel_sig.len(), 1);
    assert_eq!(g.kernel_caches[0].weights.len(), 528);
    assert_eq!(g.prev_kernel_sig[0].base_radius, 13);
}

#[test]
fn idx_to_vector_negative_index_truncates() {
    let g = grid(100, 50, 5.0);
    assert_eq!(g.idx_to_vector(-1), IVec2::new(-1, 0));
    assert_eq!(g.idx_to_vector(-101), IVec2::new(-1, -1));
}

#[test]
fn vector_to_idx_reduces_column() {
    let g = grid(100, 50, 5.0);
    assert_eq!(g.vector_to_idx(IVec2::new(105, 2)), 205);
    assert_eq!(g.vector_to_idx(IVec2::new(-3, 2)), 197);
}

#[test]
fn index_round_trip_on_grid() {
    let g = grid(7, 5, 1.0);
    for idx in 0..35 {
        let p = g.idx_to_vector(idx);
        assert_eq!(g.vector_to_idx(p), idx);
    }
    for idx in [-12, -7, -1, 40, 1000] {
        assert_eq!(g.vector_to_idx(g.idx_to_vector(idx)), idx);
    }
}

#[test]
fn wrap_pos_is_idempotent_and_periodic() {
    let g = grid(7, 5, 1.0);
    for x in -20..20 {
        for y in -12..12 {
            let p = IVec2::new(x, y);
            let w = g.wrap_pos(p);
            assert!(w.x >= 0 && w.x < 7 && w.y >= 0 && w.y < 5);
            assert_eq!(g.wrap_pos(w), w);
            assert_eq!(g.wrap_pos(IVec2::new(x + 7, y)), w);
            assert_eq!(g.wrap_pos(IVec2::new(x, y + 5)), w);
        }
    }
    assert_eq!(g.wrap_pos(IVec2::new(-15, 12)), IVec2::new(6, 2));
}

#[test]
fn pause_toggles() {
    let mut g = grid(3, 3, 1.0);
    assert!(g.paused);
    g.pause();
    assert!(!g.paused);
    g.pause();
    assert!(g.paused);
}

#[test]
fn clear_zeroes_and_pauses() {
    let mut g = new_grid(3, 2, 1.0, rule(2));
    g.cell_data = vec![0.5; 13];
    g.paused = false;
    g.clear(0.0);
    assert!(g.paused);
    assert_eq!(g.cell_data.len(), 13);
    assert!(g.cell_data[..12].iter().all(|v| *v == 0.0));
    assert_eq!(g.cell_data[12], 0.5);
}

#[test]
fn cell_index_matches_wrap_and_index() {
    let (w, h, nc) = (6usize, 4usize, 3usize);
    let g = grid(w, h, 1.0);
    for px in 0..6 {
        for py in 0..4 {
            for ox in -6..6 {
                for oy in -4..4 {
                    let pos = IVec2::new(px, py);
                    let off = IVec2::new(ox, oy);
                    let wrapped = g.wrap_pos(IVec2::new(px + ox, py + oy));
                    let expected = g.vector_to_idx(wrapped) as usize * nc + 2;
                    assert_eq!(cell_index_at(pos, off, w, h, nc, 2), expected);
                }
            }
        }
    }
    assert_eq!(cell_index_at(IVec2::new(0, 0), IVec2::new(-1, -1), 6, 4, 3, 1), (5 + 3 * 6) * 3 + 1);
}

#[test]
fn kernel_offsets_radius_one() {
    let v = kernel_offsets(1);
    assert_eq!(
        v,
        vec![IVec2::new(-1, 0), IVec2::new(0, -1), IVec2::new(0, 1), IVec2::new(1, 0)]
    );
}

#[test]
fn kernel_offsets_match_disc() {
    for r in 1..8 {
        let v = kernel_offsets(r);
        let mut expected = Vec::new();
        for x in -r..=r {
            for y in -r..=r {
                let d = IVec2 { x, y };
                let dist = ((x * x + y * y) as f32).sqrt();
                if dist > r as f32 || dist == 0.0 {
                    continue;
                }
                expected.push(d);
            }
        }
        assert_eq!(v, expected);
    }
    assert_eq!(kernel_offsets(13).len(), 528);
}

fn shape(name: &str, states: Vec<f32>, pos: Vec<IVec2>, channels: Vec<usize>, nc: usize) -> Shape<f32> {
    Shape::new(name.to_string(), rule(nc), states, pos, channels)
}

#[test]
fn spawn_shape_places_cells_around_centre() {
    let mut g = new_grid(5, 4, 1.0, rule(1));
    g.cell_data[0] = 0.9;
    let s = shape("Orbium a", vec![0.5, 0.25], vec![IVec2::new(0, 0), IVec2::new(-3, 2)], vec![], 1);
    g.spawn_shape("Orbium a".to_string(), vec![s], 0.0, build);
    let mut expected = vec![0.0f32; 20];
    expected[2 * 5 + 2] = 0.5;
    expected[0 * 5 + 4] = 0.25;
    assert_eq!(g.cell_data, expected);
}

#[test]
fn spawn_shape_picks_last_match_or_first() {
    let mut g = new_grid(4, 4, 1.0, rule(1));
    let a = shape("A", vec![0.1], vec![IVec2::new(0, 0)], vec![], 1);
    let b = shape("B", vec![0.2], vec![IVec2::new(0, 0)], vec![], 1);
    let b2 = shape("B", vec![0.3], vec![IVec2::new(0, 0)], vec![], 1);
    g.spawn_shape("B".to_string(), vec![a.clone(), b.clone(), b2.clone()], 0.0, build);
    assert_eq!(g.cell_data[2 * 4 + 2], 0.3);
    g.spawn_shape("missing".to_string(), vec![a, b, b2], 0.0, build);
    assert_eq!(g.cell_data[2 * 4 + 2], 0.1);
}

#[test]
fn spawn_shape_resizes_to_shape_channels() {
    let mut g = new_grid(3, 3, 1.0, rule(1));
    let s = shape(
        "Tri",
        vec![0.4, 0.6, 0.8],
        vec![IVec2::new(0, 0), IVec2::new(1, 0), IVec2::new(0, 1)],
        vec![],
        3,
    );
    g.spawn_shape("Tri".to_string(), vec![s], 0.0, build);
    assert_eq!(g.rule.num_channels, 3);
    assert_eq!(g.cell_data.len(), 27);
    assert_eq!(g.next_cell_data.len(), 27);
    // cells take channels in turn when the shape lists none
    assert_eq!(g.cell_data[(1 * 3 + 1) * 3 + 0], 0.4);
    assert_eq!(g.cell_data[(1 * 3 + 2) * 3 + 1], 0.6);
    assert_eq!(g.cell_data[(2 * 3 + 1) * 3 + 2], 0.8);
    assert_eq!(g.cell_data.iter().filter(|v| **v != 0.0).count(), 3);
}

#[test]
fn spawn_shape_skips_missing_channels() {
    let mut g = new_grid(3, 3, 1.0, rule(1));
    let s = shape("X", vec![0.4, 0.6], vec![IVec2::new(0, 0), IVec2::new(1, 1)], vec![0, 5], 2);
    g.spawn_shape("X".to_string(), vec![s], 0.0, build);
    assert_eq!(g.cell_data.len(), 18);
    assert_eq!(g.cell_data[(1 * 3 + 1) * 2], 0.4);
    assert_eq!(g.cell_data.iter().filter(|v| **v != 0.0).count(), 1);
}

#[test]
fn rebuild_all_kernels_records_signatures() {
    let mut g = new_grid(8, 8, 1.0, rule(1));
    g.rule.kernels.push(kernel(0, 0).with_kernel_kind(KernelKind::Quad4));
    g.rule.kernels[1].base_radius = 2;
    g.rebuild_all_kernels(build);
    assert_eq!(g.kernel_caches.len(), 2);
    assert_eq!(g.prev_kernel_sig.len(), 2);
    assert_eq!(g.kernel_caches[0].weights.len(), 528);
    assert_eq!(g.kernel_caches[1].weights.len(), 12);
    assert_eq!(g.kernel_caches[1].sum, 12.0);
    assert_eq!(g.prev_kernel_sig[1].base_radius, 2);
    assert_eq!(g.prev_kernel_sig[1].kernel_kind, KernelKind::Quad4);
    assert_eq!(g.prev_kernel_sig[0].peaks, vec![1.0]);
}

#[test]
fn init_fills_by_generation_type() {
    let value = |pos: IVec2, c: usize| 1.0 + pos.x as f32 + 10.0 * c as f32;
    let mut g = new_grid(3, 2, 1.0, rule(2));
    g.cell_data.push(7.0);
    g.paused = false;
    g.generation_type = GenerationType::BLOB;
    g.init(0.0, value);
    assert!(g.paused);
    assert_eq!(g.cell_data, vec![1.0, 0.0, 2.0, 0.0, 3.0, 0.0, 1.0, 0.0, 2.0, 0.0, 3.0, 0.0, 7.0]);
    g.generation_type = GenerationType::RANDOM;
    g.init(0.0, value);
    assert_eq!(g.cell_data, vec![1.0, 11.0, 2.0, 12.0, 3.0, 13.0, 1.0, 11.0, 2.0, 12.0, 3.0, 13.0, 7.0]);
    g.generation_type = GenerationType::EMPTY;
    g.init(0.0, value);
    assert_eq!(g.cell_data, vec![0.0, 0.0, 0.0, 0.0, 0.0, 0.0, 0.0, 0.0, 0.0, 0.0, 0.0, 0.0, 7.0]);
}

#[test]
fn spawn_shape_rebuilds_caches_for_new_rule() {
    let mut g = new_grid(4, 4, 1.0, rule(1));
    let mut r = rule(1);
    r.kernels.push(kernel(0, 0));
    r.kernels[1].base_radius = 2;
    let s = Shape::new("Two".to_string(), r, vec![0.5f32], vec![IVec2::new(0, 0)], vec![]);
    g.spawn_shape("Two".to_string(), vec![s], 0.0, build);
    assert_eq!(g.rule.kernels.len(), 2);
    assert_eq!(g.kernel_caches.len(), 2);
    assert_eq!(g.prev_kernel_sig.len(), 2);
    assert_eq!(g.kernel_caches[1].weights.len(), 12);
    assert_eq!(g.prev_kernel_sig[1].base_radius, 2);
}

#[test]
fn fit_and_swap_buffers() {
    let mut g = new_grid(2, 2, 1.0, rule(1));
    g.rule.num_channels = 2;
    g.cell_data = vec![1.0, 2.0];
    g.next_cell_data = vec![3.0; 10];
    g.fit_buffers(0.0);
    assert_eq!(g.cell_data, vec![1.0, 2.0, 0.0, 0.0, 0.0, 0.0, 0.0, 0.0]);
    assert_eq!(g.next_cell_data, vec![3.0; 8]);
    g.swap_buffers();
    assert_eq!(g.cell_data, vec![3.0; 8]);
    assert_eq!(g.next_cell_data, vec![1.0, 2.0, 0.0, 0.0, 0.0, 0.0, 0.0, 0.0]);
}

#[test]
fn wrap_and_index_checks() {
    let g = grid(100, 50, 5.0);
    assert!(g.can_wrap(IVec2::new(-1, -1)));
    assert!(g.can_wrap(IVec2::new(i32::MAX, i32::MIN)));
    assert!(g.can_index(IVec2::new(99, 49)));
    assert!(!g.can_index(IVec2::new(0, i32::MAX)));
    let mut wide = grid(1, 1, 1.0);
    wide.width = i32::MAX as usize;
    assert!(!wide.can_wrap(IVec2::new(i32::MAX - 1, 0)));
    assert!(wide.can_wrap(IVec2::new(-5, 0)));
    wide.width = 0;
    assert!(!wide.can_wrap(IVec2::new(0, 0)));
    assert!(!wide.can_index(IVec2::new(0, 0)));
}

#[test]
fn truncated_width_is_used_for_indices() {
    let mut g = grid(1, 1, 1.0);
    g.width = (1usize << 32) + 100;
    assert_eq!(g.idx_to_vector(1010), IVec2::new(10, 10));
    assert_eq!(g.vector_to_idx(IVec2::new(10, 10)), 1010);
}

#[test]
fn generation_fills_every_channel_and_keeps_old_state_spare() {
    let mut r = rule(2);
    r.kernels = vec![kernel(0, 1), kernel(1, 0), kernel(0, 1)];
    let mut g = new_grid(3, 2, 1.0, r);
    for (i, v) in g.cell_data.iter_mut().enumerate() {
        *v = i as f32;
    }
    let before = g.cell_data.clone();
    g.generation(0.0, |cells: &Vec<f32>, _r: &Rule<f32>, _k: &Vec<KernelCache<f32>>, i: usize, p: IVec2, c: usize, fv: &Vec<usize>| {
        assert_eq!(p, IVec2::new(i as i32 % 3, i as i32 / 3));
        cells[i * 2 + c] * 10.0 + fv.len() as f32 + if fv.is_empty() { 0.0 } else { fv[0] as f32 / 10.0 }
    });
    assert_eq!(g.next_cell_data, before);
    assert_eq!(g.cell_data.len(), 12);
    for i in 0..6 {
        assert_eq!(g.cell_data[i * 2], before[i * 2] * 10.0 + 1.0 + 0.1);
        assert_eq!(g.cell_data[i * 2 + 1], before[i * 2 + 1] * 10.0 + 2.0);
    }
}

#[test]
fn generation_fits_short_buffers_first() {
    let mut g = new_grid(2, 2, 1.0, rule(1));
    g.cell_data.truncate(2);
    g.next_cell_data.clear();
    g.generation(0.0, |cells: &Vec<f32>, _r: &Rule<f32>, _k: &Vec<KernelCache<f32>>, i: usize, _p: IVec2, _c: usize, _fv: &Vec<usize>| {
        cells[i] + 1.0
    });
    assert_eq!(g.next_cell_data, vec![0.0, 0.0, 0.0, 0.0]);
    assert_eq!(g.cell_data, vec![1.0, 1.0, 1.0, 1.0]);
}

#[test]
fn zero_width_grid_has_no_cells() {
    let g = grid(0, 50, 5.0);
    assert_eq!(g.width, 0);
    assert!(g.cell_data.is_empty());
    assert!(g.next_cell_data.is_empty());
    assert_eq!(g.kernel_caches.len(), 1);
    assert!(g.paused);
}
