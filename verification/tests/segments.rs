use std::rc::Rc;
use walk_the_dog::engine::{Cell, GameError, Picture, Point, Rect, SheetRect, SpriteSheet};
use walk_the_dog::game::obstacles::AnyObstacle;
use walk_the_dog::game::segments::{
    create_floating_platform, pick_segment, pick_segment_from, platform_and_stone, rightmost,
    segment, segment_kind, stone_and_platform, stone_on_low_platform, Chance, Script,
    SegmentKind, ThreadChance, HIGH_PLATFORM, LOW_PLATFORM, STONE_ON_GROUND,
    STONE_ON_LOW_PLATFORM,
};

fn cell(x: i16) -> Cell {
    Cell {
        frame: SheetRect { x, y: 0, w: 128, h: 128 },
        sprite_source_size: SheetRect { x: 0, y: 0, w: 128, h: 128 },
    }
}

fn tiles() -> Rc<SpriteSheet> {
    let mut sheet = SpriteSheet::new(Picture { id: 9, width: 512, height: 128 });
    assert_eq!(sheet.insert(String::from("13.png"), cell(0)), Ok(()));
    assert_eq!(sheet.insert(String::from("14.png"), cell(128)), Ok(()));
    assert_eq!(sheet.insert(String::from("15.png"), cell(256)), Ok(()));
    Rc::new(sheet)
}

fn tiles_without(name: &str) -> Rc<SpriteSheet> {
    let mut sheet = SpriteSheet::new(Picture { id: 9, width: 512, height: 128 });
    for (at, known) in ["13.png", "14.png", "15.png"].iter().enumerate() {
        if *known != name {
            assert_eq!(sheet.insert(String::from(*known), cell(128 * at as i16)), Ok(()));
        }
    }
    Rc::new(sheet)
}

const STONE: Picture = Picture { id: 5, width: 64, height: 54 };

const WIDE_STONE: Picture = Picture { id: 5, width: 500, height: 54 };

fn platform_boxes(x: i16, y: i16) -> Vec<Rect> {
    vec![
        Rect::new_from_x_y(x, y, 60, 54),
        Rect::new_from_x_y(x + 60, y, 264, 93),
        Rect::new_from_x_y(x + 324, y, 60, 54),
    ]
}

fn is_platform_at(obstacle: &AnyObstacle, x: i16, y: i16) -> bool {
    match obstacle {
        AnyObstacle::Platform(platform) => {
            platform.position == Point { x, y }
                && *platform.bounding_boxes() == platform_boxes(x, y)
                && platform.sprites == vec![cell(0), cell(128), cell(256)]
        },
        AnyObstacle::Barrier(_) => false,
    }
}

fn is_stone_at(obstacle: &AnyObstacle, stone: Picture, x: i16, y: i16) -> bool {
    match obstacle {
        AnyObstacle::Barrier(barrier) => {
            barrier.image.element == stone
                && barrier.image.bounding_box == Rect::new_from_x_y(x, y, stone.width, stone.height)
        },
        AnyObstacle::Platform(_) => false,
    }
}

#[test]
fn the_heights_of_the_catalogue() {
    assert_eq!(LOW_PLATFORM, 420);
    assert_eq!(HIGH_PLATFORM, 375);
    assert_eq!(STONE_ON_GROUND, 546);
    assert_eq!(STONE_ON_LOW_PLATFORM, 366);
}

#[test]
fn a_floating_platform_has_a_cap_a_body_and_a_cap() {
    match create_floating_platform(tiles(), Point { x: 400, y: 420 }) {
        Ok(platform) => {
            assert!(is_platform_at(&AnyObstacle::Platform(platform), 400, 420));
        },
        Err(error) => panic!("no platform: {}", error.message()),
    }
}

#[test]
fn a_floating_platform_needs_its_three_cells() {
    for name in ["13.png", "14.png", "15.png"] {
        let made = create_floating_platform(tiles_without(name), Point { x: 400, y: 420 });
        assert!(matches!(made, Err(GameError::MissingFrame)));
    }
}

#[test]
fn stone_then_low_platform() {
    match stone_and_platform(STONE, tiles(), 1000) {
        Ok((obstacles, extent)) => {
            assert_eq!(obstacles.len(), 2);
            assert!(is_stone_at(&obstacles[0], STONE, 1150, 546));
            assert!(is_platform_at(&obstacles[1], 1400, 420));
            assert_eq!(extent, 1784);
        },
        Err(error) => panic!("no segment: {}", error.message()),
    }
}

#[test]
fn high_platform_then_stone() {
    match platform_and_stone(STONE, tiles(), 1000) {
        Ok((obstacles, extent)) => {
            assert_eq!(obstacles.len(), 2);
            assert!(is_platform_at(&obstacles[0], 1150, 375));
            assert!(is_stone_at(&obstacles[1], STONE, 1400, 546));
            assert_eq!(extent, 1534);
        },
        Err(error) => panic!("no segment: {}", error.message()),
    }
}

#[test]
fn stone_on_top_of_a_low_platform() {
    match stone_on_low_platform(STONE, tiles(), 1000) {
        Ok((obstacles, extent)) => {
            assert_eq!(obstacles.len(), 2);
            assert!(is_platform_at(&obstacles[0], 1150, 420));
            assert!(is_stone_at(&obstacles[1], STONE, 1310, 366));
            assert_eq!(extent, 1534);
        },
        Err(error) => panic!("no segment: {}", error.message()),
    }
}

#[test]
fn a_wide_stone_can_end_the_layout() {
    match stone_and_platform(WIDE_STONE, tiles(), 0) {
        Ok((_, extent)) => assert_eq!(extent, 784),
        Err(error) => panic!("no segment: {}", error.message()),
    }
    match platform_and_stone(WIDE_STONE, tiles(), 0) {
        Ok((_, extent)) => assert_eq!(extent, 900),
        Err(error) => panic!("no segment: {}", error.message()),
    }
    match stone_on_low_platform(WIDE_STONE, tiles(), -100) {
        Ok((_, extent)) => assert_eq!(extent, 710),
        Err(error) => panic!("no segment: {}", error.message()),
    }
}

#[test]
fn every_layout_needs_the_platform_cells() {
    let sheet = tiles_without("14.png");
    assert!(matches!(stone_and_platform(STONE, sheet.clone(), 0), Err(GameError::MissingFrame)));
    assert!(matches!(platform_and_stone(STONE, sheet.clone(), 0), Err(GameError::MissingFrame)));
    assert!(matches!(stone_on_low_platform(STONE, sheet.clone(), 0), Err(GameError::MissingFrame)));
    assert!(matches!(
        segment(SegmentKind::StoneAndPlatform, STONE, sheet, 0),
        Err(GameError::MissingFrame)
    ));
}

#[test]
fn a_segment_is_the_layout_of_its_kind() {
    match segment(SegmentKind::StoneAndPlatform, STONE, tiles(), 20) {
        Ok((obstacles, extent)) => {
            assert!(is_stone_at(&obstacles[0], STONE, 170, 546));
            assert!(is_platform_at(&obstacles[1], 420, 420));
            assert_eq!(extent, 804);
        },
        Err(error) => panic!("no segment: {}", error.message()),
    }
    match segment(SegmentKind::PlatformAndStone, STONE, tiles(), 20) {
        Ok((obstacles, extent)) => {
            assert!(is_platform_at(&obstacles[0], 170, 375));
            assert!(is_stone_at(&obstacles[1], STONE, 420, 546));
            assert_eq!(extent, 554);
        },
        Err(error) => panic!("no segment: {}", error.message()),
    }
    match segment(SegmentKind::StoneOnLowPlatform, STONE, tiles(), 20) {
        Ok((obstacles, extent)) => {
            assert!(is_platform_at(&obstacles[0], 170, 420));
            assert!(is_stone_at(&obstacles[1], STONE, 330, 366));
            assert_eq!(extent, 554);
        },
        Err(error) => panic!("no segment: {}", error.message()),
    }
}

#[test]
fn the_stone_never_overlaps_the_platform() {
    for kind in [
        SegmentKind::StoneAndPlatform,
        SegmentKind::PlatformAndStone,
        SegmentKind::StoneOnLowPlatform,
    ] {
        let obstacles = match segment(kind, STONE, tiles(), 300) {
            Ok((obstacles, _)) => obstacles,
            Err(error) => panic!("no segment: {}", error.message()),
        };
        let mut boxes: Vec<Rect> = Vec::new();
        let mut stones: Vec<Rect> = Vec::new();
        for obstacle in &obstacles {
            match obstacle {
                AnyObstacle::Platform(platform) => boxes.extend(platform.bounding_boxes().iter().copied()),
                AnyObstacle::Barrier(barrier) => stones.push(barrier.image.bounding_box),
            }
        }
        assert_eq!(boxes.len(), 3);
        assert_eq!(stones.len(), 1);
        for platform_box in &boxes {
            assert!(!stones[0].intersects(platform_box));
        }
    }
}

#[test]
fn rightmost_is_the_greatest_right_edge() {
    assert_eq!(rightmost(&Vec::new()), 0);
    let (mut obstacles, _) = match stone_and_platform(STONE, tiles(), -2000) {
        Ok(made) => made,
        Err(error) => panic!("no segment: {}", error.message()),
    };
    assert_eq!(rightmost(&obstacles), -1216);
    let (more, _) = match platform_and_stone(STONE, tiles(), 0) {
        Ok(made) => made,
        Err(error) => panic!("no segment: {}", error.message()),
    };
    obstacles.extend(more);
    assert_eq!(rightmost(&obstacles), 534);
    obstacles.swap(0, 2);
    assert_eq!(rightmost(&obstacles), 534);
}

#[test]
fn numbers_go_round_the_catalogue() {
    assert_eq!(segment_kind(0), SegmentKind::StoneAndPlatform);
    assert_eq!(segment_kind(1), SegmentKind::PlatformAndStone);
    assert_eq!(segment_kind(2), SegmentKind::StoneOnLowPlatform);
    assert_eq!(segment_kind(3), SegmentKind::StoneAndPlatform);
    assert_eq!(segment_kind(4), SegmentKind::PlatformAndStone);
    assert_eq!(segment_kind(5), SegmentKind::StoneOnLowPlatform);
    assert_eq!(segment_kind(u32::MAX), SegmentKind::StoneAndPlatform);
}

#[test]
fn every_layout_is_picked_about_a_third_of_the_time() {
    let draws = 6000;
    let mut counts = [0u32; 3];
    for _ in 0..draws {
        match pick_segment() {
            SegmentKind::StoneAndPlatform => counts[0] += 1,
            SegmentKind::PlatformAndStone => counts[1] += 1,
            SegmentKind::StoneOnLowPlatform => counts[2] += 1,
        }
    }
    assert_eq!(counts[0] + counts[1] + counts[2], draws);
    for count in counts {
        let share = f64::from(count) / f64::from(draws);
        assert!((share - 1.0 / 3.0).abs() < 0.05, "a share of {}", share);
    }
}

#[test]
fn chance_from_the_thread_stays_below_the_bound() {
    let mut chance = ThreadChance {};
    let mut seen = [false; 5];
    for _ in 0..2000 {
        let drawn = chance.below(5);
        assert!(drawn < 5);
        seen[drawn as usize] = true;
        assert_eq!(chance.below(1), 0);
    }
    assert_eq!(seen, [true; 5]);
}

#[test]
fn chance_from_the_thread_picks_every_layout_as_often() {
    let draws = 6000;
    let mut chance = ThreadChance {};
    let mut counts = [0u32; 3];
    for _ in 0..draws {
        match pick_segment_from(&mut chance) {
            SegmentKind::StoneAndPlatform => counts[0] += 1,
            SegmentKind::PlatformAndStone => counts[1] += 1,
            SegmentKind::StoneOnLowPlatform => counts[2] += 1,
        }
    }
    for count in counts {
        let share = f64::from(count) / f64::from(draws);
        assert!((share - 1.0 / 3.0).abs() < 0.05, "a share of {}", share);
    }
}

#[test]
fn a_script_repeats_its_numbers() {
    let mut script = Script::new(vec![2, 0, 7, 1]);
    let drawn: Vec<u32> = (0..10).map(|_| script.below(3)).collect();
    assert_eq!(drawn, vec![2, 0, 1, 1, 2, 0, 1, 1, 2, 0]);
    assert_eq!(script.next, 2);
    assert_eq!(script.numbers, vec![2, 0, 7, 1]);
    let mut script = Script::new(vec![2, 0, 7, 1]);
    let drawn: Vec<u32> = (0..5).map(|_| script.below(10)).collect();
    assert_eq!(drawn, vec![2, 0, 7, 1, 2]);
}

#[test]
fn a_script_without_numbers_gives_zero() {
    let mut script = Script::new(Vec::new());
    assert_eq!(script.below(3), 0);
    assert_eq!(script.below(1), 0);
    assert_eq!(script.next, 0);
}

#[test]
fn a_script_that_has_lost_its_place_starts_over() {
    let mut script = Script { numbers: vec![4, 5], next: 9 };
    assert_eq!(script.below(100), 4);
    assert_eq!(script.next, 1);
    assert_eq!(script.below(100), 5);
    assert_eq!(script.next, 0);
}

#[test]
fn a_script_picks_the_layouts_it_names() {
    let mut script = Script::new(vec![1, 1, 2, 0, 5]);
    let picked: Vec<SegmentKind> = (0..6).map(|_| pick_segment_from(&mut script)).collect();
    assert_eq!(
        picked,
        vec![
            SegmentKind::PlatformAndStone,
            SegmentKind::PlatformAndStone,
            SegmentKind::StoneOnLowPlatform,
            SegmentKind::StoneAndPlatform,
            SegmentKind::StoneOnLowPlatform,
            SegmentKind::PlatformAndStone,
        ]
    );
}
