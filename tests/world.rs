use endless_utopia::{Biome, Tile, World};

/// Whether `(x, y)` lies on the crest band of the wave field.
fn crest(x: i32, y: i32) -> bool {
    let wave = ((x as f64 * 0.5).sin() + (y as f64 * 0.3).cos()) * 3.0;
    wave.abs() < 1.0
}

/// Crest flags of every cell of a region, row by row.
fn crest_mask(x_start: i32, y_start: i32, width: usize, height: usize) -> Vec<Vec<bool>> {
    let mut mask = Vec::with_capacity(height);
    for y in 0..height {
        let row_y = y_start.wrapping_add(y as i32);
        let mut row = Vec::with_capacity(width);
        for x in 0..width {
            row.push(crest(x_start.wrapping_add(x as i32), row_y));
        }
        mask.push(row);
    }
    mask
}

fn tile(world: &mut World, x: i32, y: i32) -> Tile {
    world.get_tile(x, y, crest(x, y))
}

#[test]
fn test_deterministic_generation() {
    let mut world1 = World::new();
    let mut world2 = World::new();

    let tile1 = tile(&mut world1, 42, 17);
    let tile2 = tile(&mut world2, 42, 17);

    assert_eq!(tile1.character, tile2.character);
    assert_eq!(tile1.biome, tile2.biome);
}

#[test]
fn test_coord_hash_uniqueness() {
    let world = World::new();
    let hash1 = world.coord_hash(0, 0);
    let hash2 = world.coord_hash(1, 0);
    let hash3 = world.coord_hash(0, 1);

    assert_ne!(hash1, hash2);
    assert_ne!(hash1, hash3);
    assert_ne!(hash2, hash3);
}

#[test]
fn test_cat_rarity() {
    let world = World::new();
    let mut cat_count = 0;
    let sample_size = 10000;

    for y in 0..100 {
        for x in 0..100 {
            if world.is_cat_location(x, y) {
                cat_count += 1;
            }
        }
    }

    assert!(cat_count < sample_size / 100);
}

#[test]
fn test_region_generation() {
    let mut world = World::new();
    let region = world.get_region(0, 0, 10, 10, &crest_mask(0, 0, 10, 10));

    assert_eq!(region.len(), 10);
    assert_eq!(region[0].len(), 10);
}

#[test]
fn test_cat_trace_persistence() {
    let mut world = World::new();

    let cats = world.find_cat_nearby(0, 0, 1000);
    if let Some(&(x, y)) = cats.first() {
        let tile1 = tile(&mut world, x, y);
        assert_eq!(tile1.biome, Biome::CatPresent);

        let tile2 = tile(&mut world, x, y);
        assert_eq!(tile2.biome, Biome::CatTrace);
    }
}

#[test]
fn coord_hash_exact_values() {
    let world = World::new();
    assert_eq!(world.coord_hash(0, 0), 0x1ecfb08314fbefa8);
    assert_eq!(world.coord_hash(1, 0), 0x872a02e7876984ac);
    assert_eq!(world.coord_hash(0, 1), 0x8b31d7b11cb6f0ea);
}

#[test]
fn cat_lives_at_fixed_coordinate() {
    assert_eq!(World::ascicat_position(), (-102009382, 959029586));
    assert_eq!(World::ascicat_position(), World::ascicat_position());
    let world = World::new();
    assert!(world.is_cat_location(-102009382, 959029586));
    assert!(!world.is_cat_location(-102009382, 959029587));
    assert!(!world.is_cat_location(0, 0));
}

#[test]
fn fresh_engines_agree_everywhere() {
    let mut a = World::new();
    let mut b = World::default();
    for y in -20..20 {
        for x in -20..20 {
            assert_eq!(tile(&mut a, x, y), tile(&mut b, x, y));
        }
    }
    let (cx, cy) = World::ascicat_position();
    assert_eq!(tile(&mut a, cx, cy), tile(&mut b, cx, cy));
}

#[test]
fn cat_shows_once_then_trace() {
    let mut world = World::new();
    let (x, y) = World::ascicat_position();
    let first = tile(&mut world, x, y);
    assert_eq!(first, Tile { character: 'O', biome: Biome::CatPresent });

    // other queries in between change nothing
    let _ = world.render_region(-3, -3, 7, 7, &crest_mask(-3, -3, 7, 7));
    let _ = tile(&mut world, x + 1, y);

    let second = tile(&mut world, x, y);
    assert_eq!(second, Tile { character: '•', biome: Biome::CatTrace });
    let third = tile(&mut world, x, y);
    assert_eq!(third.biome, Biome::CatTrace);

    // a fresh engine shows the cat again
    let mut other = World::new();
    assert_eq!(tile(&mut other, x, y).biome, Biome::CatPresent);
}

#[test]
fn cat_found_through_region() {
    let mut world = World::new();
    let (x, y) = World::ascicat_position();
    let region = world.get_region(x - 1, y - 1, 3, 3, &crest_mask(x - 1, y - 1, 3, 3));
    assert_eq!(region[1][1].biome, Biome::CatPresent);
    let again = world.get_region(x - 1, y - 1, 3, 3, &crest_mask(x - 1, y - 1, 3, 3));
    assert_eq!(again[1][1].biome, Biome::CatTrace);
    assert_eq!(again[0], region[0]);
    assert_eq!(again[2], region[2]);
}

#[test]
fn region_shapes() {
    let mut world = World::new();
    assert!(world.get_region(0, 0, 0, 0, &crest_mask(0, 0, 0, 0)).is_empty());
    assert!(world.get_region(0, 0, 5, 0, &crest_mask(0, 0, 5, 0)).is_empty());
    let thin = world.get_region(0, 0, 0, 4, &crest_mask(0, 0, 0, 4));
    assert_eq!(thin.len(), 4);
    assert!(thin.iter().all(|row| row.is_empty()));
    let r = world.get_region(-7, 12, 13, 6, &crest_mask(-7, 12, 13, 6));
    assert_eq!(r.len(), 6);
    assert!(r.iter().all(|row| row.len() == 13));
    assert_eq!(r[2][3], tile(&mut world, -4, 14));
    assert_eq!(world.render_region(3, 3, 0, 0, &crest_mask(3, 3, 0, 0)), "");
    assert_eq!(world.render_region(3, 3, 0, 2, &crest_mask(3, 3, 0, 2)), "\n\n");
}

#[test]
fn render_region_exact_text() {
    let mut world = World::new();
    assert_eq!(
        world.render_region(0, 0, 10, 3, &crest_mask(0, 0, 10, 3)),
        "    ·    ▒\n          \n·   ▓ ·   \n"
    );
    assert_eq!(world.render_region(-5, -5, 6, 2, &crest_mask(-5, -5, 6, 2)), "˙ ▒+˙ \n~     \n");
}

#[test]
fn region_near_origin_tiles() {
    let mut world = World::new();
    let r = world.get_region(-1, -1, 3, 2, &crest_mask(-1, -1, 3, 2));
    assert_eq!(r[0][0], Tile { character: ' ', biome: Biome::Calm });
    assert_eq!(r[0][1], Tile { character: '*', biome: Biome::Pattern });
    assert_eq!(r[1][0], Tile { character: ' ', biome: Biome::Pattern });
    assert_eq!(r[1][1], Tile { character: ' ', biome: Biome::Calm });
}

#[test]
fn negative_coordinates_pinned() {
    let mut world = World::new();
    assert_eq!(tile(&mut world, -7, 3), Tile { character: ' ', biome: Biome::Calm });
    assert_eq!(tile(&mut world, -100, -100), Tile { character: ' ', biome: Biome::Calm });
    assert_eq!(tile(&mut world, 42, 17), Tile { character: ' ', biome: Biome::Pattern });
}

#[test]
fn negative_coordinates_each_pattern_family() {
    let mut world = World::new();
    let cases = [
        ((-16, -30), '·'),
        ((-11, -30), ' '),
        ((-10, -30), '~'),
        ((-15, -30), ' '),
        ((-27, -30), '/'),
        ((-6, -26), ' '),
        ((-17, -14), '•'),
        ((-26, -30), ' '),
        ((-28, -30), '+'),
        ((-7, -28), ' '),
        ((-8, -7), 'o'),
        ((-25, -30), ' '),
        ((-11, -27), '*'),
        ((-16, -29), '˙'),
        ((-23, -28), '.'),
        ((-13, -29), ' '),
    ];
    for ((x, y), c) in cases {
        assert_eq!(tile(&mut world, x, y), Tile { character: c, biome: Biome::Pattern }, "at ({}, {})", x, y);
    }
}

#[test]
fn glitch_palettes() {
    let mut world = World::new();
    let cases = [((-28, -28), '▓'), ((-16, -27), '%'), ((-12, -30), '▒'), ((-28, -29), '▀')];
    for ((x, y), c) in cases {
        assert_eq!(tile(&mut world, x, y), Tile { character: c, biome: Biome::Glitch }, "at ({}, {})", x, y);
    }
}

#[test]
fn rings_wrap_at_large_coordinates() {
    let mut world = World::new();
    // the squared distance wraps below zero, which counts as ring zero
    assert_eq!(tile(&mut world, 40721, 40721), Tile { character: 'o', biome: Biome::Pattern });
    assert_eq!(tile(&mut world, 10, 0), Tile { character: 'o', biome: Biome::Pattern });
    assert_eq!(tile(&mut world, 52, 0), Tile { character: ' ', biome: Biome::Pattern });
}

#[test]
fn extreme_coordinates_do_not_panic() {
    let mut world = World::new();
    assert_eq!(tile(&mut world, i32::MIN, i32::MAX), Tile { character: ' ', biome: Biome::Calm });
    let r = world.get_region(i32::MAX - 1, i32::MAX - 1, 4, 4, &crest_mask(i32::MAX - 1, i32::MAX - 1, 4, 4));
    assert_eq!(r.len(), 4);
    assert_eq!(r[3][3], tile(&mut world, i32::MIN + 1, i32::MIN + 1));
    assert!(world.find_cat_nearby(i32::MAX, i32::MIN, 3).is_empty());
}

#[test]
fn biome_distribution() {
    let mut world = World::new();
    let (mut calm, mut pattern, mut glitch) = (0u32, 0u32, 0u32);
    for y in 1000..1200 {
        for x in 1000..1200 {
            match tile(&mut world, x, y).biome {
                Biome::Calm => calm += 1,
                Biome::Pattern => pattern += 1,
                Biome::Glitch => glitch += 1,
                _ => panic!("cat away from its coordinate"),
            }
        }
    }
    let total = (calm + pattern + glitch) as f64;
    let (c, p, g) = (calm as f64 / total, pattern as f64 / total, glitch as f64 / total);
    assert!(c > 0.55 && c < 0.65, "calm {}", c);
    assert!(p > 0.20 && p < 0.30, "pattern {}", p);
    assert!(g > 0.10 && g < 0.20, "glitch {}", g);
}

#[test]
fn find_cat_nearby_window() {
    let world = World::new();
    let (x, y) = World::ascicat_position();
    assert_eq!(world.find_cat_nearby(x, y, 0), vec![(x, y)]);
    assert_eq!(world.find_cat_nearby(x - 6, y + 4, 6), vec![(x, y)]);
    assert!(world.find_cat_nearby(x - 7, y, 6).is_empty());
    assert!(world.find_cat_nearby(x, y, -1).is_empty());
    assert!(world.find_cat_nearby(0, 0, 50).is_empty());
}
