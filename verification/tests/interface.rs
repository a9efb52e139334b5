use lifeview::grid::{kernel_offsets, Grid, KernelCache};
use lifeview::ivec::IVec2;
use lifeview::interface::{add_default_kernel, apply_kernel_edits, change_channel_count, toggle_count, toggle_counts};
use lifeview::rule::{KernelDef, KernelKind, Rule, RuleMode, StateType};

fn kernel(c0: usize, c1: usize, mu: f32) -> KernelDef<f32> {
    KernelDef {
        mu,
        sigma: 0.015,
        base_radius: 13,
        relative_radius: 1.0,
        height: 1.0,
        peaks: vec![1.0, 0.5],
        c0,
        c1,
        use_target: true,
        polynomial: true,
        alpha: 4.0,
        kernel_kind: KernelKind::Quad4,
    }
}

fn grid(nc: usize, kernels: Vec<KernelDef<f32>>) -> Grid<f32> {
    let rule = Rule { state_type: StateType::CONTINUOUS, delta: 0.1, kernels, num_channels: nc, mode: RuleMode::Sum };
    Grid::new(2, 2, 1.0, rule, 0.0, build, |_p: IVec2, _c: usize| 0.0)
}

fn build(k: &KernelDef<f32>) -> KernelCache<f32> {
    let weights: Vec<(IVec2, f32)> = kernel_offsets(k.base_radius.max(1)).into_iter().map(|o| (o, k.mu)).collect();
    let sum = k.mu * weights.len() as f32;
    KernelCache { weights, sum }
}

#[test]
fn channel_count_grows_and_keeps_values() {
    let mut g = grid(1, vec![kernel(0, 0, 0.1)]);
    g.cell_data = vec![0.1, 0.2, 0.3, 0.4];
    change_channel_count(&mut g, 3, 0.0, build);
    assert_eq!(g.rule.num_channels, 3);
    assert_eq!(g.cell_data, vec![0.1, 0.0, 0.0, 0.2, 0.0, 0.0, 0.3, 0.0, 0.0, 0.4, 0.0, 0.0]);
    assert_eq!(g.next_cell_data, vec![0.0; 12]);
}

#[test]
fn channel_count_shrinks_and_clamps_kernels() {
    let mut g = grid(3, vec![kernel(2, 1, 0.1), kernel(0, 2, 0.2)]);
    g.cell_data = (0..12).map(|i| i as f32).collect();
    change_channel_count(&mut g, 2, 0.0, build);
    assert_eq!(g.cell_data, vec![0.0, 1.0, 3.0, 4.0, 6.0, 7.0, 9.0, 10.0]);
    assert_eq!((g.rule.kernels[0].c0, g.rule.kernels[0].c1), (1, 1));
    assert_eq!((g.rule.kernels[1].c0, g.rule.kernels[1].c1), (0, 1));
    assert_eq!(g.rule.kernels[1].mu, 0.2);
}

#[test]
fn channel_count_same_is_noop() {
    let mut g = grid(2, vec![kernel(1, 1, 0.1)]);
    g.cell_data = vec![0.5; 8];
    change_channel_count(&mut g, 2, 0.0, build);
    assert_eq!(g.cell_data, vec![0.5; 8]);
    assert_eq!(g.rule.kernels[0].c0, 1);
}

#[test]
fn channel_count_round_trip_resets_dropped_channels() {
    let mut g = grid(3, vec![]);
    g.cell_data = (1..=12).map(|i| i as f32).collect();
    change_channel_count(&mut g, 1, 0.0, build);
    change_channel_count(&mut g, 3, 0.0, build);
    assert_eq!(g.cell_data, vec![1.0, 0.0, 0.0, 4.0, 0.0, 0.0, 7.0, 0.0, 0.0, 10.0, 0.0, 0.0]);
}

#[test]
fn default_kernel_copies_first() {
    let mut g = grid(2, vec![kernel(1, 1, 0.3)]);
    let fallback = kernel(0, 0, 0.15);
    add_default_kernel(&mut g, fallback, build);
    assert_eq!(g.rule.kernels.len(), 2);
    let k = &g.rule.kernels[1];
    assert_eq!((k.c0, k.c1, k.use_target), (0, 0, false));
    assert_eq!(k.mu, 0.3);
    assert!(k.polynomial);
    assert_eq!(k.peaks, vec![1.0, 0.5]);
    assert_eq!(k.kernel_kind, KernelKind::Quad4);
}

#[test]
fn default_kernel_uses_fallback_when_empty() {
    let mut g = grid(1, vec![]);
    add_default_kernel(&mut g, kernel(0, 0, 0.15), build);
    assert_eq!(g.rule.kernels.len(), 1);
    assert_eq!(g.rule.kernels[0].mu, 0.15);
    assert!(g.rule.kernels[0].use_target);
}

#[test]
fn toggle_adds_and_sorts() {
    let mut counts = vec![3u8];
    toggle_count(&mut counts, 2);
    assert_eq!(counts, vec![2, 3]);
    toggle_count(&mut counts, 8);
    assert_eq!(counts, vec![2, 3, 8]);
    toggle_count(&mut counts, 0);
    assert_eq!(counts, vec![0, 2, 3, 8]);
}

#[test]
fn toggle_removes_every_occurrence() {
    let mut counts = vec![3u8, 2, 3, 5];
    toggle_count(&mut counts, 3);
    assert_eq!(counts, vec![2, 5]);
}

#[test]
fn toggle_twice_restores_sorted_list() {
    for n in 0..9u8 {
        let start = vec![2u8, 3, 6];
        let mut counts = start.clone();
        toggle_count(&mut counts, n);
        assert_eq!(counts.contains(&n), !start.contains(&n));
        toggle_count(&mut counts, n);
        assert_eq!(counts, start);
    }
}

#[test]
fn edits_keep_caches_current() {
    let mut g = grid(1, vec![kernel(0, 0, 0.3)]);
    assert_eq!(g.kernel_caches.len(), 1);
    add_default_kernel(&mut g, kernel(0, 0, 0.15), build);
    assert_eq!(g.kernel_caches.len(), 2);
    assert_eq!(g.prev_kernel_sig.len(), 2);
    g.rule.kernels[0].base_radius = 2;
    change_channel_count(&mut g, 2, 0.0, build);
    assert_eq!(g.kernel_caches.len(), 2);
    assert_eq!(g.kernel_caches[0].weights.len(), 12);
    assert_eq!(g.prev_kernel_sig[0].base_radius, 2);
    assert_eq!(g.kernel_caches[1].sum, 0.3 * 528.0);
}

#[test]
fn toggle_counts_applies_a_frame() {
    let mut counts = vec![2u8, 3, 12];
    toggle_counts(&mut counts, &vec![0, 3, 8]);
    assert_eq!(counts, vec![0, 2, 8, 12]);
    toggle_counts(&mut counts, &vec![8, 0, 3]);
    assert_eq!(counts, vec![2, 3, 12]);
    toggle_counts(&mut counts, &vec![]);
    assert_eq!(counts, vec![2, 3, 12]);
}

#[test]
fn toggle_counts_repeated_clicks_toggle_back() {
    let mut counts = vec![1u8, 5, 5];
    toggle_counts(&mut counts, &vec![4, 4, 5, 7, 4]);
    assert_eq!(counts, vec![1, 4, 7]);
}

#[test]
fn kernel_edits_remove_only_while_more_than_one() {
    let mut g = grid(1, vec![kernel(0, 0, 0.1), kernel(0, 0, 0.2), kernel(0, 0, 0.3)]);
    apply_kernel_edits(&mut g, Some(1), false, build);
    assert_eq!(g.rule.kernels.iter().map(|k| k.mu).collect::<Vec<f32>>(), vec![0.1, 0.3]);
    assert_eq!(g.kernel_caches.len(), 2);
    assert_eq!(g.kernel_caches[1].sum, build(&g.rule.kernels[1]).sum);
    assert_eq!(g.prev_kernel_sig.len(), 2);

    let mut single = grid(1, vec![kernel(0, 0, 0.1)]);
    single.rule.kernels[0].mu = 0.4;
    apply_kernel_edits(&mut single, Some(0), false, build);
    assert_eq!(single.rule.kernels.len(), 1);
    assert_eq!(single.kernel_caches[0].sum, build(&kernel(0, 0, 0.1)).sum);

    apply_kernel_edits(&mut single, Some(0), true, build);
    assert_eq!(single.rule.kernels.len(), 1);
    assert_eq!(single.kernel_caches[0].sum, build(&single.rule.kernels[0]).sum);
}
