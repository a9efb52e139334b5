use lifeview::ivec::IVec2;
use lifeview::rule::{KernelDef, KernelKind, Rule, RuleMode, StateType};
use lifeview::shapes::{extract_genus, get_genus_display, ring_offsets, Shape, Shapes};

fn rule() -> Rule<f32> {
    Rule {
        state_type: StateType::CONTINUOUS,
        delta: 0.1,
        kernels: vec![KernelDef {
            mu: 0.15,
            sigma: 0.015,
            base_radius: 13,
            relative_radius: 1.0,
            height: 1.0,
            peaks: vec![1.0],
            c0: 0,
            c1: 0,
            use_target: false,
            polynomial: false,
            alpha: 4.0,
            kernel_kind: KernelKind::Bump4,
        }],
        num_channels: 1,
        mode: RuleMode::Sum,
    }
}

fn named(name: &str, category: &str) -> Shape<f32> {
    let mut s = Shape::new(name.to_string(), rule(), vec![], vec![], vec![]);
    s.category = category.to_string();
    s
}

#[test]
fn genus_is_first_word() {
    assert_eq!(extract_genus("Orbium bicaudatus"), "Orbium");
    assert_eq!(extract_genus("  Gyrorbium   serratus  "), "Gyrorbium");
    assert_eq!(extract_genus("Scutium"), "Scutium");
    assert_eq!(extract_genus("Flos\tmagnus"), "Flos");
    assert_eq!(extract_genus("Medusa\u{3000}x"), "Medusa");
}

#[test]
fn genus_of_blank_name_is_the_name() {
    assert_eq!(extract_genus(""), "");
    assert_eq!(extract_genus("   "), "   ");
    assert_eq!(extract_genus("\n\t"), "\n\t");
}

#[test]
fn genus_extraction_is_idempotent() {
    for name in ["Orbium bicaudatus", "  a b", "x", "   ", "Lacuna\u{a0}ring"] {
        let g = extract_genus(name);
        assert_eq!(extract_genus(&g), g);
    }
}

#[test]
fn genus_display_names() {
    assert_eq!(get_genus_display("Orbium"), "Orbium (球形目)");
    assert_eq!(get_genus_display("Anemone"), "Anemone (海葵目)");
    assert_eq!(get_genus_display("Hydrogeminium"), "Hydrogeminium (水双生目)");
    assert_eq!(get_genus_display("Unknown"), "Unknown");
    assert_eq!(get_genus_display("orbium"), "orbium");
    assert_eq!(get_genus_display(""), "");
}

#[test]
fn new_shape_derives_genus() {
    let s = Shape::new(
        "Orbium unicaudatus".to_string(),
        rule(),
        vec![0.5f32],
        vec![IVec2::new(1, 2)],
        vec![0],
    );
    assert_eq!(s.category, "");
    assert_eq!(s.name, "Orbium unicaudatus");
    assert_eq!(s.genus, "Orbium");
    assert_eq!(s.genus_display, "Orbium (球形目)");
    assert_eq!(s.cells_state, vec![0.5]);
    assert_eq!(s.cells_pos, vec![IVec2::new(1, 2)]);
    assert_eq!(s.cells_channel, vec![0]);
}

#[test]
fn merge_channel_appends_cells() {
    let a = Shape::new("A".to_string(), rule(), vec![0.1f32], vec![IVec2::new(0, 0)], vec![0]);
    let b = Shape::new("B".to_string(), rule(), vec![0.2f32, 0.3], vec![IVec2::new(1, 0), IVec2::new(2, 0)], vec![1, 1]);
    let m = a.merge_channel(b);
    assert_eq!(m.name, "A");
    assert_eq!(m.cells_state, vec![0.1, 0.2, 0.3]);
    assert_eq!(m.cells_pos, vec![IVec2::new(0, 0), IVec2::new(1, 0), IVec2::new(2, 0)]);
    assert_eq!(m.cells_channel, vec![0, 1, 1]);
}

#[test]
fn shapes_add_and_genus_display() {
    let mut shapes = Shapes::default();
    assert!(shapes.0.is_empty());
    let mut odd = named("Foo one", "c");
    odd.genus_display = "Foo (custom)".to_string();
    shapes.add(odd);
    shapes.add(named("Orbium x", "c"));
    shapes.add(named("Foo two", "c"));
    assert_eq!(shapes.0.len(), 3);
    assert_eq!(shapes.genus_display("Foo"), "Foo (custom)");
    assert_eq!(shapes.genus_display("Orbium"), "Orbium (球形目)");
    assert_eq!(shapes.genus_display("Nothing"), "Nothing");
}

#[test]
fn by_genus_groups_in_key_order() {
    let mut shapes = Shapes::default();
    for n in ["Scutium a", "Orbium b", "Scutium c", "Asteria d", "Orbium e"] {
        shapes.add(named(n, "x"));
    }
    let groups = shapes.by_genus();
    assert_eq!(
        groups,
        vec![
            ("Asteria".to_string(), vec![3]),
            ("Orbium".to_string(), vec![1, 4]),
            ("Scutium".to_string(), vec![0, 2]),
        ]
    );
    assert!(Shapes::<f32>::default().by_genus().is_empty());
}

#[test]
fn by_genus_orders_like_strings() {
    let mut shapes = Shapes::default();
    for n in ["b", "B", "a", "ab", "aB", "Ä", "Z"] {
        shapes.add(named(n, ""));
    }
    let keys: Vec<String> = shapes.by_genus().into_iter().map(|(k, _)| k).collect();
    let mut sorted = keys.clone();
    sorted.sort();
    assert_eq!(keys, sorted);
    assert_eq!(keys.len(), 7);
}

#[test]
fn by_category_and_genus_nests_groups() {
    let mut shapes = Shapes::default();
    shapes.add(named("Orbium a", "lenia"));
    shapes.add(named("Gyrorbium b", "extra"));
    shapes.add(named("Orbium c", "extra"));
    shapes.add(named("Asteria d", "lenia"));
    shapes.add(named("Orbium e", "lenia"));
    let cats = shapes.by_category_and_genus();
    assert_eq!(
        cats,
        vec![
            (
                "extra".to_string(),
                vec![("Gyrorbium".to_string(), vec![1]), ("Orbium".to_string(), vec![2])]
            ),
            (
                "lenia".to_string(),
                vec![("Asteria".to_string(), vec![3]), ("Orbium".to_string(), vec![0, 4])]
            ),
        ]
    );
}

#[test]
fn from_channel_grid_reads_top_row_first() {
    let grid = vec![vec![0.0f32, 0.5, 0.0], vec![0.25, 0.0, 0.75]];
    let live: Vec<Vec<bool>> = grid.iter().map(|r| r.iter().map(|v| *v > 0.0).collect()).collect();
    let s = Shape::from_channel_grid("Orbium g".to_string(), rule(), 2, &grid, &live);
    assert_eq!(s.genus, "Orbium");
    // origin is (3 / 2, 2 / 2) = (1, 1); the top row has y = rows - 1 = 1
    assert_eq!(s.cells_state, vec![0.5, 0.25, 0.75]);
    assert_eq!(s.cells_pos, vec![IVec2::new(0, 0), IVec2::new(-1, -1), IVec2::new(1, -1)]);
    assert_eq!(s.cells_channel, vec![2, 2, 2]);
}

#[test]
fn from_channels_merges_channels_in_order() {
    let channels = vec![vec![vec![1.0f32]], vec![vec![0.0f32, 0.3], vec![0.6, 0.0]]];
    let live: Vec<Vec<Vec<bool>>> = channels
        .iter()
        .map(|g| g.iter().map(|r| r.iter().map(|v| *v > 0.0).collect()).collect())
        .collect();
    let s = Shape::from_channels("Hydrogeminium z".to_string(), rule(), &channels, &live);
    assert_eq!(s.name, "Hydrogeminium z");
    assert_eq!(s.genus_display, "Hydrogeminium (水双生目)");
    assert_eq!(s.cells_state, vec![1.0, 0.3, 0.6]);
    assert_eq!(s.cells_pos, vec![IVec2::new(0, 0), IVec2::new(0, 0), IVec2::new(-1, -1)]);
    assert_eq!(s.cells_channel, vec![0, 1, 1]);
    assert_eq!(s.optimal_rule.num_channels, 1);
}

#[test]
fn ring_offsets_match_distance_test() {
    for (ri, ro) in [(0, 3), (2, 4), (3, 3), (-1, 2), (5, 2), (0, 0)] {
        let mut expected = Vec::new();
        for x in -ro..=ro {
            for y in -ro..=ro {
                let dist = ((x * x + y * y) as f32).sqrt();
                if dist >= ri as f32 && dist <= ro as f32 {
                    expected.push(IVec2::new(x, y));
                }
            }
        }
        assert_eq!(ring_offsets(ri, ro), expected, "{ri} {ro}");
    }
    assert!(ring_offsets(1, -1).is_empty());
    assert_eq!(ring_offsets(0, 0), vec![IVec2::new(0, 0)]);
}
