use lifeview::rule::{KernelDef, KernelKind, Rule, RuleMode, StateType};
use lifeview::text::{chars_of, is_white_space_char, str_eq};

fn kernel(c1: usize) -> KernelDef<f32> {
    KernelDef {
        mu: 0.15,
        sigma: 0.015,
        base_radius: 13,
        relative_radius: 1.0,
        height: 1.0,
        peaks: vec![1.0],
        c0: 0,
        c1,
        use_target: false,
        polynomial: false,
        alpha: 4.0,
        kernel_kind: KernelKind::Bump4,
    }
}

#[test]
fn defaults() {
    assert_eq!(KernelKind::default(), KernelKind::Bump4);
    assert_eq!(RuleMode::default(), RuleMode::Sum);
    assert_ne!(StateType::CONTINUOUS, StateType::DISCRETE);
}

#[test]
fn kernel_builders() {
    let k = kernel(0).with_kernel_kind(KernelKind::Quad4).with_alpha(2.5).with_target(true);
    assert_eq!(k.kernel_kind, KernelKind::Quad4);
    assert_eq!(k.alpha, 2.5);
    assert!(k.use_target);
    assert_eq!(k.mu, 0.15);
    assert_eq!(k.base_radius, 13);
}

#[test]
fn kernels_into_channel_lists_targets() {
    let rule = Rule {
        state_type: StateType::CONTINUOUS,
        delta: 0.1,
        kernels: vec![kernel(1), kernel(0), kernel(1), kernel(2)],
        num_channels: 3,
        mode: RuleMode::Multiply,
    };
    assert_eq!(rule.kernels_into_channel(1), vec![0, 2]);
    assert_eq!(rule.kernels_into_channel(0), vec![1]);
    assert_eq!(rule.kernels_into_channel(2), vec![3]);
    assert!(rule.kernels_into_channel(5).is_empty());
}

#[test]
fn white_space_matches_std() {
    for cp in 0u32..0x3100 {
        if let Some(c) = char::from_u32(cp) {
            assert_eq!(is_white_space_char(c), c.is_whitespace(), "{cp:#x}");
        }
    }
    assert_eq!(is_white_space_char('\u{feff}'), '\u{feff}'.is_whitespace());
}

#[test]
fn text_helpers() {
    assert_eq!(chars_of("aé字"), vec!['a', 'é', '字']);
    assert!(str_eq("Orbium", "Orbium"));
    assert!(!str_eq("Orbium", "Orbiu"));
    assert!(!str_eq("a", "b"));
}
