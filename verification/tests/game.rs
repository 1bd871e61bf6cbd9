use std::rc::Rc;
use walk_the_dog::engine::{
    Cell, DrawCommand, GameError, Image, KeyState, Picture, Point, Rect, SheetRect, SpriteSheet,
};
use walk_the_dog::game::rhb::{RedHatBoy, RedHatBoyState};
use walk_the_dog::game::segments::{Script, SegmentKind};
use walk_the_dog::game::{
    apply_keys, check_intersections, scroll_obstacles, scroll_tiles, AnyObstacle, Assets, Barrier,
    Obstacle, Walk, WalkTheDog, HEIGHT, OBSTACLE_BUFFER, PICTURE_LIMIT, TIMELINE_MINIMUM, WIDTH,
};

fn cell(x: i16, w: i16, h: i16) -> Cell {
    Cell { frame: SheetRect { x, y: 0, w, h }, sprite_source_size: SheetRect { x: 0, y: 0, w, h } }
}

fn tiles() -> SpriteSheet {
    let mut sheet = SpriteSheet::new(Picture { id: 9, width: 512, height: 128 });
    assert_eq!(sheet.insert(String::from("13.png"), cell(0, 128, 128)), Ok(()));
    assert_eq!(sheet.insert(String::from("14.png"), cell(128, 128, 93)), Ok(()));
    assert_eq!(sheet.insert(String::from("15.png"), cell(256, 128, 128)), Ok(()));
    sheet
}

/// A sheet for the character with no picture at all: such a character has no
/// bounding box and collides with nothing.
fn no_pictures() -> SpriteSheet {
    SpriteSheet::new(Picture { id: 3, width: 1024, height: 1024 })
}

/// A sheet in which every picture of every animation is 100 wide and 150
/// high and untrimmed.
fn all_pictures() -> SpriteSheet {
    let mut sheet = no_pictures();
    for name in ["Idle", "Run", "Slide", "Jump", "Dead"] {
        for number in 1..=12 {
            assert_eq!(sheet.insert(format!("{} ({}).png", name, number), cell(7, 100, 150)), Ok(()));
        }
    }
    sheet
}

const BACKGROUND: Picture = Picture { id: 1, width: 2400, height: 600 };

const STONE: Picture = Picture { id: 5, width: 64, height: 54 };

fn assets(rhb: SpriteSheet) -> Assets {
    Assets { rhb, background: BACKGROUND, stone: STONE, tiles: tiles() }
}

fn started(rhb: SpriteSheet) -> Walk {
    match WalkTheDog::new().initialize(Some(assets(rhb))) {
        Ok(WalkTheDog::Loaded(walk)) => walk,
        Ok(WalkTheDog::Loading) => panic!("still loading"),
        Err(error) => panic!("not started: {}", error.message()),
    }
}

fn keys(codes: &[&str]) -> KeyState {
    let mut state = KeyState::new();
    for code in codes {
        state.set_pressed(code);
    }
    state
}

fn right_edges(walk: &Walk) -> Vec<i16> {
    walk.obstacles.iter().map(|obstacle| obstacle.right()).collect()
}

fn tile_xs(walk: &Walk) -> (i16, i16) {
    (walk.backgrounds[0].bounding_box().x(), walk.backgrounds[1].bounding_box().x())
}

fn boy_summary(boy: &RedHatBoy) -> (RedHatBoyState, u8, i16, i16, i16) {
    (boy.state(), boy.frame, boy.position().x, boy.pos_y(), boy.velocity_y())
}

#[test]
fn a_new_game_is_loading() {
    assert!(matches!(WalkTheDog::new(), WalkTheDog::Loading));
}

#[test]
fn the_game_starts_with_the_first_layout() {
    let walk = started(no_pictures());
    assert_eq!(boy_summary(&walk.boy), (RedHatBoyState::Idle, 0, -20, 479, 0));
    assert_eq!(*walk.backgrounds[0].bounding_box(), Rect::new_from_x_y(0, 0, 2400, 600));
    assert_eq!(*walk.backgrounds[1].bounding_box(), Rect::new_from_x_y(2400, 0, 2400, 600));
    assert_eq!(walk.backgrounds[0].element, BACKGROUND);
    assert_eq!(walk.backgrounds[1].element, BACKGROUND);
    assert_eq!(walk.stone, STONE);
    assert_eq!(walk.obstacles.len(), 2);
    match &walk.obstacles[0] {
        AnyObstacle::Barrier(barrier) => {
            assert_eq!(barrier.image.bounding_box, Rect::new_from_x_y(150, 546, 64, 54))
        },
        AnyObstacle::Platform(_) => panic!("the first obstacle is a platform"),
    }
    match &walk.obstacles[1] {
        AnyObstacle::Platform(platform) => {
            assert_eq!(platform.position, Point { x: 400, y: 420 });
            assert_eq!(
                *platform.bounding_boxes(),
                vec![
                    Rect::new_from_x_y(400, 420, 60, 54),
                    Rect::new_from_x_y(460, 420, 264, 93),
                    Rect::new_from_x_y(724, 420, 60, 54),
                ]
            );
        },
        AnyObstacle::Barrier(_) => panic!("the second obstacle is a barrier"),
    }
    assert_eq!(walk.timeline, 784);
    assert!(walk.in_bounds());
}

#[test]
fn a_running_game_cannot_be_started_again() {
    let game = WalkTheDog::Loaded(started(no_pictures()));
    assert!(matches!(
        game.initialize(Some(assets(no_pictures()))),
        Err(GameError::AlreadyInitialized)
    ));
    assert!(matches!(game.initialize(None), Err(GameError::AlreadyInitialized)));
}

#[test]
fn a_game_without_assets_does_not_start() {
    assert!(matches!(WalkTheDog::new().initialize(None), Err(GameError::AssetLoadFailure)));
}

#[test]
fn a_game_with_unusable_pictures_does_not_start() {
    for width in [0, -1, PICTURE_LIMIT + 1] {
        let mut broken = assets(no_pictures());
        broken.background.width = width;
        assert!(matches!(
            WalkTheDog::new().initialize(Some(broken)),
            Err(GameError::AssetLoadFailure)
        ));
    }
    for width in [-1, PICTURE_LIMIT + 1] {
        let mut broken = assets(no_pictures());
        broken.stone.width = width;
        assert!(matches!(
            WalkTheDog::new().initialize(Some(broken)),
            Err(GameError::AssetLoadFailure)
        ));
    }
    let mut narrow = assets(no_pictures());
    narrow.background.width = 1;
    narrow.stone.width = 0;
    assert!(matches!(WalkTheDog::new().initialize(Some(narrow)), Ok(WalkTheDog::Loaded(_))));
    let mut wide = assets(no_pictures());
    wide.background.width = PICTURE_LIMIT;
    wide.stone.width = PICTURE_LIMIT;
    match WalkTheDog::new().initialize(Some(wide)) {
        Ok(WalkTheDog::Loaded(walk)) => assert_eq!(walk.timeline, 150 + PICTURE_LIMIT),
        _ => panic!("not started"),
    }
}

#[test]
fn a_game_without_platform_cells_does_not_start() {
    let mut lacking = assets(no_pictures());
    lacking.tiles = SpriteSheet::new(Picture { id: 9, width: 512, height: 128 });
    assert!(matches!(WalkTheDog::new().initialize(Some(lacking)), Err(GameError::MissingFrame)));
}

#[test]
fn a_loading_game_does_not_tick() {
    let mut game = WalkTheDog::new();
    game.update(&keys(&["ArrowRight"]));
    game.update_with(&keys(&["ArrowRight"]), SegmentKind::PlatformAndStone);
    assert!(matches!(game, WalkTheDog::Loading));
    assert_eq!(
        game.draw(),
        Ok(vec![DrawCommand::Clear(Rect::new_from_x_y(0, 0, WIDTH, HEIGHT))])
    );
    assert_eq!((WIDTH, HEIGHT), (600, 600));
}

#[test]
fn the_keys_act_in_their_order() {
    let mut boy = RedHatBoy::new(no_pictures(), Point { x: 0, y: 0 });
    apply_keys(&mut boy, &keys(&[]));
    assert_eq!(boy.state(), RedHatBoyState::Idle);
    apply_keys(&mut boy, &keys(&["Space", "ArrowDown"]));
    assert_eq!(boy.state(), RedHatBoyState::Idle);
    apply_keys(&mut boy, &keys(&["ArrowRight"]));
    assert_eq!(boy.state(), RedHatBoyState::Running);
    apply_keys(&mut boy, &keys(&["ArrowDown", "Space"]));
    assert_eq!(boy.state(), RedHatBoyState::Sliding);
    let mut boy = RedHatBoy::new(no_pictures(), Point { x: 0, y: 0 });
    apply_keys(&mut boy, &keys(&["ArrowRight", "Space"]));
    assert_eq!(boy_summary(&boy), (RedHatBoyState::Jumping, 0, 0, 0, -25));
    let mut boy = RedHatBoy::new(no_pictures(), Point { x: 0, y: 0 });
    apply_keys(&mut boy, &keys(&["ArrowRight", "ArrowDown", "Space"]));
    assert_eq!(boy.state(), RedHatBoyState::Sliding);
}

#[test]
fn the_world_stands_still_while_the_boy_is_idle() {
    let mut walk = started(no_pictures());
    assert_eq!(walk.velocity(), 0);
    for _ in 0..10 {
        walk.update_with(&keys(&[]), SegmentKind::PlatformAndStone);
    }
    assert_eq!(boy_summary(&walk.boy), (RedHatBoyState::Idle, 10, -20, 479, 0));
    assert_eq!(tile_xs(&walk), (0, 2400));
    assert_eq!(&right_edges(&walk)[..2], &[214, 784]);
}

#[test]
fn the_world_scrolls_at_the_running_speed() {
    let mut walk = started(no_pictures());
    walk.timeline = 2000;
    walk.update_with(&keys(&["ArrowRight"]), SegmentKind::PlatformAndStone);
    assert_eq!(walk.velocity(), -5);
    assert_eq!(boy_summary(&walk.boy), (RedHatBoyState::Running, 1, -20, 479, 0));
    assert_eq!(right_edges(&walk), vec![209, 779]);
    assert_eq!(tile_xs(&walk), (-1, 2399));
    assert_eq!(walk.timeline, 1995);
    walk.update_with(&keys(&[]), SegmentKind::PlatformAndStone);
    assert_eq!(right_edges(&walk), vec![204, 774]);
    assert_eq!(tile_xs(&walk), (-2, 2398));
    assert_eq!(walk.timeline, 1990);
}

#[test]
fn a_short_timeline_makes_the_next_layout() {
    let mut walk = started(no_pictures());
    assert!(walk.timeline < TIMELINE_MINIMUM);
    walk.update_with(&keys(&["ArrowRight"]), SegmentKind::PlatformAndStone);
    assert_eq!(walk.obstacles.len(), 4);
    assert_eq!(right_edges(&walk), vec![209, 779, 784 + OBSTACLE_BUFFER + 534, 784 + 20 + 464]);
    match &walk.obstacles[2] {
        AnyObstacle::Platform(platform) => assert_eq!(platform.position, Point { x: 954, y: 375 }),
        AnyObstacle::Barrier(_) => panic!("the third obstacle is a barrier"),
    }
    match &walk.obstacles[3] {
        AnyObstacle::Barrier(barrier) => {
            assert_eq!(barrier.image.bounding_box, Rect::new_from_x_y(1204, 546, 64, 54))
        },
        AnyObstacle::Platform(_) => panic!("the fourth obstacle is a platform"),
    }
    assert_eq!(walk.timeline, 1338);
    walk.update_with(&keys(&[]), SegmentKind::StoneAndPlatform);
    assert_eq!(walk.obstacles.len(), 4);
    assert_eq!(walk.timeline, 1333);
}

#[test]
fn the_timeline_only_steps_back_by_the_scroll() {
    let mut walk = started(no_pictures());
    let mut generated = 0;
    for tick in 0..3000u32 {
        let before = walk.timeline;
        let count = walk.obstacles.len();
        let edges = right_edges(&walk);
        let kind = match tick % 3 {
            0 => SegmentKind::StoneAndPlatform,
            1 => SegmentKind::PlatformAndStone,
            _ => SegmentKind::StoneOnLowPlatform,
        };
        walk.update_with(&keys(&["ArrowRight"]), kind);
        if before < TIMELINE_MINIMUM {
            generated += 1;
            let kept = edges.iter().filter(|edge| **edge - 5 > 0).count();
            assert_eq!(walk.obstacles.len(), kept + 2);
            let made = &right_edges(&walk)[kept..];
            assert_eq!(walk.timeline, made[0].max(made[1]));
            assert!(walk.timeline > before);
            let expected = match kind {
                SegmentKind::StoneAndPlatform => before + 20 + 784,
                _ => before + 20 + 534,
            };
            assert_eq!(walk.timeline, expected);
        } else {
            assert_eq!(walk.timeline, before - 5);
            assert!(walk.obstacles.len() <= count);
        }
    }
    assert!(generated > 10);
}

#[test]
fn what_has_left_the_canvas_is_gone_at_once() {
    let mut walk = started(no_pictures());
    walk.timeline = 2000;
    for _ in 0..42 {
        walk.update_with(&keys(&["ArrowRight"]), SegmentKind::StoneAndPlatform);
    }
    assert_eq!(right_edges(&walk), vec![4, 574]);
    walk.update_with(&keys(&["ArrowRight"]), SegmentKind::StoneAndPlatform);
    assert_eq!(right_edges(&walk), vec![569]);
    let mut walk = started(no_pictures());
    walk.obstacles.insert(
        0,
        AnyObstacle::Barrier(Barrier::new(Image::new(STONE, Point { x: -59, y: 546 }))),
    );
    assert_eq!(right_edges(&walk), vec![5, 214, 784]);
    walk.update_with(&keys(&["ArrowRight"]), SegmentKind::StoneOnLowPlatform);
    assert_eq!(&right_edges(&walk)[..2], &[209, 779]);
    for _ in 0..2000 {
        walk.update_with(&keys(&["ArrowRight"]), SegmentKind::StoneOnLowPlatform);
        assert!(right_edges(&walk).iter().all(|edge| *edge > 0));
        assert!(!walk.obstacles.is_empty());
    }
}

#[test]
fn scrolling_keeps_the_order_of_what_stays() {
    let mut obstacles = vec![
        AnyObstacle::Barrier(Barrier::new(Image::new(STONE, Point { x: 100, y: 546 }))),
        AnyObstacle::Barrier(Barrier::new(Image::new(STONE, Point { x: -60, y: 546 }))),
        AnyObstacle::Barrier(Barrier::new(Image::new(STONE, Point { x: 40, y: 546 }))),
        AnyObstacle::Barrier(Barrier::new(Image::new(STONE, Point { x: -59, y: 546 }))),
        AnyObstacle::Barrier(Barrier::new(Image::new(STONE, Point { x: -58, y: 546 }))),
    ];
    scroll_obstacles(&mut obstacles, -5);
    let edges: Vec<i16> = obstacles.iter().map(|obstacle| obstacle.right()).collect();
    assert_eq!(edges, vec![159, 99, 1]);
    scroll_obstacles(&mut obstacles, 0);
    let edges: Vec<i16> = obstacles.iter().map(|obstacle| obstacle.right()).collect();
    assert_eq!(edges, vec![159, 99, 1]);
    scroll_obstacles(&mut obstacles, -1);
    let edges: Vec<i16> = obstacles.iter().map(|obstacle| obstacle.right()).collect();
    assert_eq!(edges, vec![158, 98]);
}

#[test]
fn the_backgrounds_wrap_round_without_a_gap() {
    let mut walk = started(no_pictures());
    let mut wraps = Vec::new();
    for tick in 1..=5000 {
        let before = tile_xs(&walk);
        walk.update_with(&keys(&["ArrowRight"]), SegmentKind::StoneAndPlatform);
        let (first, second) = tile_xs(&walk);
        assert_eq!((first - second).abs(), 2400);
        let left = first.min(second);
        assert!(left <= 0 && left + 2400 >= 0);
        if first != before.0 - 1 || second != before.1 - 1 {
            wraps.push((tick, first, second));
        }
    }
    assert_eq!(wraps, vec![(2401, 2399, -1), (4801, -1, 2399)]);
    assert_eq!(walk.boy.state(), RedHatBoyState::Running);
}

#[test]
fn a_tile_goes_to_the_right_edge_of_the_other_one() {
    let narrow = Picture { id: 1, width: 10, height: 600 };
    let mut tiles = [
        Image::new(narrow, Point { x: -10, y: 0 }),
        Image::new(narrow, Point { x: 0, y: 0 }),
    ];
    scroll_tiles(&mut tiles, -1);
    assert_eq!((tiles[0].bounding_box().x(), tiles[1].bounding_box().x()), (9, -1));
    scroll_tiles(&mut tiles, -10);
    assert_eq!((tiles[0].bounding_box().x(), tiles[1].bounding_box().x()), (-1, 9));
    scroll_tiles(&mut tiles, 0);
    assert_eq!((tiles[0].bounding_box().x(), tiles[1].bounding_box().x()), (-1, 9));
    scroll_tiles(&mut tiles, -9);
    assert_eq!((tiles[0].bounding_box().x(), tiles[1].bounding_box().x()), (-10, 0));
    scroll_tiles(&mut tiles, -1);
    assert_eq!((tiles[0].bounding_box().x(), tiles[1].bounding_box().x()), (9, -1));
}

#[test]
fn the_boy_is_knocked_out_by_the_first_stone() {
    let mut walk = started(all_pictures());
    walk.timeline = 2000;
    assert_eq!(walk.boy.bounding_box(), Some(Rect::new_from_x_y(-2, 493, 72, 136)));
    let mut ticks = 0;
    while walk.boy.state() != RedHatBoyState::KnockedOut {
        walk.update_with(&keys(&["ArrowRight"]), SegmentKind::StoneAndPlatform);
        ticks += 1;
        assert!(ticks < 100);
    }
    assert_eq!(ticks, 17);
    assert_eq!(right_edges(&walk), vec![129, 699]);
    assert_eq!(walk.velocity(), 0);
    walk.update_with(&keys(&["ArrowRight", "Space"]), SegmentKind::StoneAndPlatform);
    assert_eq!(boy_summary(&walk.boy), (RedHatBoyState::KnockedOut, 1, -20, 479, 0));
    assert_eq!(right_edges(&walk), vec![129, 699]);
    assert_eq!(walk.timeline, 2000 - 17 * 5);
}

#[test]
fn a_jump_rises_for_twenty_five_ticks_and_then_falls() {
    let mut walk = started(all_pictures());
    walk.timeline = 2000;
    walk.update_with(&keys(&["ArrowRight"]), SegmentKind::StoneAndPlatform);
    walk.update_with(&keys(&["Space"]), SegmentKind::StoneAndPlatform);
    assert_eq!(boy_summary(&walk.boy), (RedHatBoyState::Jumping, 1, -20, 455, -24));
    for _ in 3..=25 {
        walk.update_with(&keys(&["Space"]), SegmentKind::StoneAndPlatform);
    }
    assert_eq!(boy_summary(&walk.boy), (RedHatBoyState::Jumping, 24, -20, 179, -1));
    walk.update_with(&keys(&[]), SegmentKind::StoneAndPlatform);
    assert_eq!(boy_summary(&walk.boy), (RedHatBoyState::Falling, 0, -20, 179, 0));
    for _ in 27..=46 {
        walk.update_with(&keys(&[]), SegmentKind::StoneAndPlatform);
    }
    assert_eq!(boy_summary(&walk.boy), (RedHatBoyState::Falling, 20, -20, 389, 20));
    assert_eq!(right_edges(&walk), vec![554]);
    let mut ticks = 46;
    while walk.in_bounds() {
        walk.update_with(&keys(&[]), SegmentKind::StoneAndPlatform);
        ticks += 1;
    }
    assert_eq!(ticks, 827);
    assert_eq!(walk.boy.pos_y(), 16009);
    assert_eq!(walk.boy.state(), RedHatBoyState::Falling);
}

#[test]
fn a_fall_onto_a_platform_is_a_landing() {
    let mut walk = started(all_pictures());
    walk.timeline = 2000;
    let sheet = walk.obstacle_sheet.clone();
    let under = match walk_the_dog::game::segments::create_floating_platform(
        sheet,
        Point { x: -30, y: 420 },
    ) {
        Ok(platform) => platform,
        Err(error) => panic!("no platform: {}", error.message()),
    };
    walk.obstacles = vec![AnyObstacle::Platform(under)];
    walk.boy = RedHatBoy {
        state: RedHatBoyState::Falling,
        frame: 0,
        position: Point { x: -20, y: 265 },
        velocity_y: 4,
        sprite_sheet: all_pictures(),
    };
    walk.update_with(&keys(&[]), SegmentKind::StoneAndPlatform);
    assert_eq!(boy_summary(&walk.boy), (RedHatBoyState::Falling, 1, -20, 270, 5));
    walk.update_with(&keys(&[]), SegmentKind::StoneAndPlatform);
    assert_eq!(boy_summary(&walk.boy), (RedHatBoyState::Running, 0, -20, 420, 0));
    assert_eq!(right_edges(&walk), vec![344]);
}

#[test]
fn collisions_are_settled_in_the_order_of_the_list() {
    let obstacles = vec![
        AnyObstacle::Barrier(Barrier::new(Image::new(STONE, Point { x: 500, y: 0 }))),
        AnyObstacle::Barrier(Barrier::new(Image::new(STONE, Point { x: 0, y: 500 }))),
    ];
    let mut boy = RedHatBoy {
        state: RedHatBoyState::Falling,
        frame: 3,
        position: Point { x: -20, y: 479 },
        velocity_y: 5,
        sprite_sheet: all_pictures(),
    };
    check_intersections(&obstacles, &mut boy);
    assert_eq!(boy_summary(&boy), (RedHatBoyState::KnockedOut, 0, -20, 479, 0));
    let mut free = RedHatBoy {
        state: RedHatBoyState::Falling,
        frame: 3,
        position: Point { x: -20, y: 100 },
        velocity_y: 5,
        sprite_sheet: all_pictures(),
    };
    check_intersections(&obstacles, &mut free);
    assert_eq!(boy_summary(&free), (RedHatBoyState::Falling, 3, -20, 100, 5));
    check_intersections(&Vec::new(), &mut free);
    assert_eq!(boy_summary(&free), (RedHatBoyState::Falling, 3, -20, 100, 5));
}

#[test]
fn a_random_tick_makes_a_layout_of_the_catalogue() {
    let mut seen = [false; 3];
    for _ in 0..200 {
        let mut game = WalkTheDog::Loaded(started(no_pictures()));
        game.update(&keys(&["ArrowRight"]));
        let walk = match game {
            WalkTheDog::Loaded(walk) => walk,
            WalkTheDog::Loading => panic!("the game stopped"),
        };
        assert_eq!(walk.obstacles.len(), 4);
        assert_eq!(&right_edges(&walk)[..2], &[209, 779]);
        let made = (
            matches!(walk.obstacles[2], AnyObstacle::Platform(_)),
            right_edges(&walk)[2],
            right_edges(&walk)[3],
            walk.timeline,
        );
        if made == (false, 1018, 1588, 1588) {
            seen[0] = true;
        } else if made == (true, 1338, 1268, 1338) {
            seen[1] = true;
        } else if made == (true, 1338, 1178, 1338) {
            seen[2] = true;
        } else {
            panic!("no layout of the catalogue: {:?}", made);
        }
    }
    assert_eq!(seen, [true, true, true]);
}

#[test]
fn the_world_is_drawn_back_to_front() {
    let game = WalkTheDog::Loaded(started(all_pictures()));
    let commands = match game.draw() {
        Ok(commands) => commands,
        Err(error) => panic!("not drawn: {}", error.message()),
    };
    let whole = |picture: Picture, x: i16, y: i16| DrawCommand::Image {
        picture: picture.id,
        source: Rect::new_from_x_y(0, 0, picture.width, picture.height),
        destination: Rect::new_from_x_y(x, y, picture.width, picture.height),
    };
    let tile = |x: i16, w: i16, h: i16, at: i16| DrawCommand::Image {
        picture: 9,
        source: Rect::new_from_x_y(x, 0, w, h),
        destination: Rect::new_from_x_y(at, 420, w, h),
    };
    assert_eq!(
        commands,
        vec![
            DrawCommand::Clear(Rect::new_from_x_y(0, 0, 600, 600)),
            whole(BACKGROUND, 0, 0),
            whole(BACKGROUND, 2400, 0),
            DrawCommand::Image {
                picture: 3,
                source: Rect::new_from_x_y(7, 0, 100, 150),
                destination: Rect::new_from_x_y(-20, 479, 100, 150),
            },
            DrawCommand::Outline(Rect::new_from_x_y(-2, 493, 72, 136)),
            whole(STONE, 150, 546),
            DrawCommand::Outline(Rect::new_from_x_y(150, 546, 64, 54)),
            tile(0, 128, 128, 400),
            tile(128, 128, 93, 528),
            tile(256, 128, 128, 656),
            DrawCommand::Outline(Rect::new_from_x_y(400, 420, 60, 54)),
            DrawCommand::Outline(Rect::new_from_x_y(460, 420, 264, 93)),
            DrawCommand::Outline(Rect::new_from_x_y(724, 420, 60, 54)),
        ]
    );
}

#[test]
fn a_boy_without_its_picture_stops_the_drawing() {
    let walk = started(no_pictures());
    assert_eq!(walk.draw(), Err(GameError::MissingFrame));
    let game = WalkTheDog::Loaded(walk);
    assert_eq!(game.draw(), Err(GameError::MissingFrame));
}

#[test]
fn a_boy_far_below_the_world_is_out_of_bounds() {
    let mut walk = started(no_pictures());
    assert!(walk.in_bounds());
    walk.boy.position = Point { x: -20, y: 16000 };
    assert!(walk.in_bounds());
    walk.boy.position = Point { x: -20, y: 16001 };
    assert!(!walk.in_bounds());
    walk.boy.position = Point { x: -16001, y: 0 };
    assert!(!walk.in_bounds());
}

#[test]
fn every_platform_shares_the_sheet_of_the_world() {
    let mut walk = started(no_pictures());
    for _ in 0..400 {
        walk.update_with(&keys(&["ArrowRight"]), SegmentKind::StoneOnLowPlatform);
    }
    let mut platforms = 0;
    for obstacle in &walk.obstacles {
        if let AnyObstacle::Platform(platform) = obstacle {
            platforms += 1;
            assert!(Rc::ptr_eq(&platform.sheet, &walk.obstacle_sheet));
            assert_eq!(platform.sheet.image.id, 9);
            assert_eq!(platform.sprites, vec![cell(0, 128, 128), cell(128, 128, 93), cell(256, 128, 128)]);
        }
    }
    assert!(platforms >= 2);
}

#[test]
fn a_game_can_tick_while_the_boy_is_within_the_world() {
    assert!(WalkTheDog::new().can_update());
    let mut walk = started(no_pictures());
    walk.boy.position = Point { x: -20, y: -16000 };
    assert!(WalkTheDog::Loaded(walk).can_update());
    let mut walk = started(no_pictures());
    walk.boy.position = Point { x: -20, y: -16001 };
    assert!(!WalkTheDog::Loaded(walk).can_update());
}

#[test]
fn the_game_ticks_as_its_world_does() {
    let mut game = WalkTheDog::Loaded(started(no_pictures()));
    game.update_with(&keys(&["ArrowRight"]), SegmentKind::StoneOnLowPlatform);
    let mut walk = started(no_pictures());
    walk.update_with(&keys(&["ArrowRight"]), SegmentKind::StoneOnLowPlatform);
    match game {
        WalkTheDog::Loaded(ticked) => {
            assert_eq!(right_edges(&ticked), right_edges(&walk));
            assert_eq!(right_edges(&ticked), vec![209, 779, 1338, 1178]);
            assert_eq!(ticked.timeline, 1338);
            assert_eq!(tile_xs(&ticked), (-1, 2399));
            assert_eq!(boy_summary(&ticked.boy), (RedHatBoyState::Running, 1, -20, 479, 0));
        },
        WalkTheDog::Loading => panic!("the game stopped"),
    }
}

#[test]
fn the_same_script_gives_the_same_game() {
    let play = |numbers: Vec<u32>| {
        let mut game = WalkTheDog::Loaded(started(no_pictures()));
        let mut script = Script::new(numbers);
        let mut timelines = Vec::new();
        for _ in 0..1500 {
            game.update_from(&keys(&["ArrowRight"]), &mut script);
            match &game {
                WalkTheDog::Loaded(walk) => timelines.push((walk.timeline, right_edges(walk))),
                WalkTheDog::Loading => panic!("the game stopped"),
            }
        }
        timelines
    };
    let first = play(vec![0, 2, 1, 1]);
    assert_eq!(first, play(vec![0, 2, 1, 1]));
    assert_eq!(first, play(vec![3, 5, 4, 7]));
    assert_ne!(first, play(vec![1, 2, 1, 1]));
    assert_eq!(first[0].0, 784 + 20 + 784);
    assert_eq!(first[0].1, vec![209, 779, 1018, 1588]);
}

#[test]
fn a_scripted_world_makes_the_layouts_of_the_script() {
    let mut walk = started(no_pictures());
    let mut script = Script::new(vec![2, 1]);
    walk.update_from(&keys(&["ArrowRight"]), &mut script);
    assert_eq!(right_edges(&walk), vec![209, 779, 1338, 1178]);
    assert_eq!(walk.timeline, 1338);
    assert_eq!(script.next, 1);
    for tick in 1..=67 {
        walk.update_from(&keys(&["ArrowRight"]), &mut script);
        assert_eq!(walk.timeline, 1338 - 5 * tick);
        assert_eq!(script.next, 1);
    }
    assert_eq!(walk.timeline, 1003);
    walk.update_from(&keys(&["ArrowRight"]), &mut script);
    assert_eq!(walk.timeline, 998);
    assert_eq!(script.next, 1);
    walk.update_from(&keys(&["ArrowRight"]), &mut script);
    assert_eq!(script.next, 0);
    assert_eq!(walk.timeline, 998 + 20 + 534);
    assert_eq!(right_edges(&walk), vec![434, 993, 833, 1552, 1482]);
}
