//! The catalogue of obstacle layouts.
//!
//! A layout is a fixed arrangement of a barrier and a floating platform,
//! placed at a horizontal offset. Each comes with the x coordinate up to
//! which it fills the world. Which layout comes next is left to chance.

use crate::engine::{GameError, Image, Picture, Point, Rect, SpriteSheet};
use crate::game::obstacles::{
    views, AnyObstacle, Barrier, Obstacle, ObstacleView, Platform, PlatformView,
};
use rand::Rng;
use std::rc::Rc;
use vstd::prelude::*;

verus! {

/// The heights at which platforms float.
pub const LOW_PLATFORM: i16 = 420;

pub const HIGH_PLATFORM: i16 = 375;

/// How far right of a layout's offset its first and its second obstacle
/// stand.
pub const INITIAL_OBSTACLE_OFFSET: i16 = 150;

pub const FIRST_PLATFORM: i16 = 400;

/// The height of the stone's picture, and the heights at which the top of a
/// stone lies on the ground and on a low platform.
pub const STONE_HEIGHT: i16 = 54;

pub const STONE_ON_GROUND: i16 = 546;

pub const STONE_ON_LOW_PLATFORM: i16 = LOW_PLATFORM - STONE_HEIGHT;

/// How far right of the platform's anchor the stone stands that lies on it.
pub const STONE_ON_PLATFORM_OFFSET: i16 = 160;

/// The floating platform is this wide; its caps are `FLOATING_PLATFORM_CAP`
/// wide and `FLOATING_PLATFORM_CAP_HEIGHT` high, the part between them is
/// `FLOATING_PLATFORM_BODY_HEIGHT` high.
pub const FLOATING_PLATFORM_WIDTH: i16 = 384;

pub const FLOATING_PLATFORM_CAP: i16 = 60;

pub const FLOATING_PLATFORM_CAP_HEIGHT: i16 = 54;

pub const FLOATING_PLATFORM_BODY_HEIGHT: i16 = 93;

/// The number of layouts in the catalogue.
pub const SEGMENT_KINDS: u32 = 3;

/// The layouts of the catalogue.
#[derive(Clone, Copy, Debug, PartialEq, Eq, Structural)]
pub enum SegmentKind {
    /// A stone on the ground, then a low platform.
    StoneAndPlatform,
    /// A high platform, then a stone on the ground.
    PlatformAndStone,
    /// A low platform with a stone on top of it.
    StoneOnLowPlatform,
}

/// A barrier made of the picture `stone` stands at `x` without leaving the
/// representable coordinates.
pub open spec fn barrier_fits(stone: Picture, x: int) -> bool {
    &&& i16::MIN <= x <= i16::MAX
    &&& i16::MIN <= x + stone.width <= i16::MAX
}

/// A floating platform is anchored at `x` without leaving the representable
/// coordinates.
pub open spec fn platform_fits(x: int) -> bool {
    i16::MIN <= x && x + FLOATING_PLATFORM_WIDTH <= i16::MAX
}

/// The sheet has the three cells that a floating platform is drawn with.
pub open spec fn has_platform_cells(sheet: SpriteSheet) -> bool {
    sheet.has("13.png"@) && sheet.has("14.png"@) && sheet.has("15.png"@)
}

/// The barrier that shows `stone` at `position`.
pub open spec fn stone_at(stone: Picture, position: Point) -> ObstacleView {
    ObstacleView::Barrier(
        Barrier {
            image: Image {
                element: stone,
                bounding_box: Rect { position, width: stone.width, height: stone.height },
            },
        },
    )
}

/// The floating platform anchored at `position`: a cap, a body and a cap,
/// left to right, drawn with the cells `13.png`, `14.png` and `15.png`.
pub open spec fn floating_platform(sheet: Rc<SpriteSheet>, position: Point) -> PlatformView {
    PlatformView {
        sheet,
        position,
        bounding_boxes: seq![
            Rect { position, width: FLOATING_PLATFORM_CAP, height: FLOATING_PLATFORM_CAP_HEIGHT },
            Rect {
                position: Point {
                    x: (position.x + FLOATING_PLATFORM_CAP) as i16,
                    y: position.y,
                },
                width: (FLOATING_PLATFORM_WIDTH - 2 * FLOATING_PLATFORM_CAP) as i16,
                height: FLOATING_PLATFORM_BODY_HEIGHT,
            },
            Rect {
                position: Point {
                    x: (position.x + FLOATING_PLATFORM_WIDTH - FLOATING_PLATFORM_CAP) as i16,
                    y: position.y,
                },
                width: FLOATING_PLATFORM_CAP,
                height: FLOATING_PLATFORM_CAP_HEIGHT,
            },
        ],
        sprites: seq![sheet.sheet@["13.png"@], sheet.sheet@["14.png"@], sheet.sheet@["15.png"@]],
    }
}

/// The obstacles of the layout `kind` at the offset `offset_x`, in the order
/// in which they join the world.
pub open spec fn layout(
    kind: SegmentKind,
    stone: Picture,
    sheet: Rc<SpriteSheet>,
    offset_x: int,
) -> Seq<ObstacleView> {
    match kind {
        SegmentKind::StoneAndPlatform => seq![
            stone_at(
                stone,
                Point { x: (offset_x + INITIAL_OBSTACLE_OFFSET) as i16, y: STONE_ON_GROUND },
            ),
            ObstacleView::Platform(
                floating_platform(
                    sheet,
                    Point { x: (offset_x + FIRST_PLATFORM) as i16, y: LOW_PLATFORM },
                ),
            ),
        ],
        SegmentKind::PlatformAndStone => seq![
            ObstacleView::Platform(
                floating_platform(
                    sheet,
                    Point { x: (offset_x + INITIAL_OBSTACLE_OFFSET) as i16, y: HIGH_PLATFORM },
                ),
            ),
            stone_at(stone, Point { x: (offset_x + FIRST_PLATFORM) as i16, y: STONE_ON_GROUND }),
        ],
        SegmentKind::StoneOnLowPlatform => seq![
            ObstacleView::Platform(
                floating_platform(
                    sheet,
                    Point { x: (offset_x + INITIAL_OBSTACLE_OFFSET) as i16, y: LOW_PLATFORM },
                ),
            ),
            stone_at(
                stone,
                Point {
                    x: (offset_x + INITIAL_OBSTACLE_OFFSET + STONE_ON_PLATFORM_OFFSET) as i16,
                    y: STONE_ON_LOW_PLATFORM,
                },
            ),
        ],
    }
}

/// The layout `kind` at the offset `offset_x` keeps within the representable
/// coordinates.
pub open spec fn layout_fits(kind: SegmentKind, stone: Picture, offset_x: int) -> bool {
    match kind {
        SegmentKind::StoneAndPlatform => barrier_fits(stone, offset_x + INITIAL_OBSTACLE_OFFSET)
            && platform_fits(offset_x + FIRST_PLATFORM),
        SegmentKind::PlatformAndStone => platform_fits(offset_x + INITIAL_OBSTACLE_OFFSET)
            && barrier_fits(stone, offset_x + FIRST_PLATFORM),
        SegmentKind::StoneOnLowPlatform => platform_fits(offset_x + INITIAL_OBSTACLE_OFFSET)
            && barrier_fits(stone, offset_x + INITIAL_OBSTACLE_OFFSET + STONE_ON_PLATFORM_OFFSET),
    }
}

/// The greatest right edge among the obstacles; zero for an empty list.
pub open spec fn rightmost_edge(obstacles: Seq<ObstacleView>) -> int
    decreases obstacles.len(),
{
    if obstacles.len() == 0 {
        0
    } else if obstacles.len() == 1 {
        obstacles[0].right_edge()
    } else {
        let rest = rightmost_edge(obstacles.drop_last());
        if obstacles.last().right_edge() > rest {
            obstacles.last().right_edge()
        } else {
            rest
        }
    }
}

/// The greatest right edge of a list that is not empty is the right edge of
/// one of its obstacles, and no obstacle of the list reaches further.
pub proof fn lemma_rightmost_edge(obstacles: Seq<ObstacleView>)
    requires
        obstacles.len() > 0,
    ensures
        exists|i: int|
            0 <= i < obstacles.len() && (#[trigger] obstacles[i]).right_edge() == rightmost_edge(
                obstacles,
            ),
        forall|i: int|
            0 <= i < obstacles.len() ==> (#[trigger] obstacles[i]).right_edge() <= rightmost_edge(
                obstacles,
            ),
    decreases obstacles.len(),
{
    if obstacles.len() > 1 {
        let rest = obstacles.drop_last();
        lemma_rightmost_edge(rest);
        let at = choose|i: int|
            0 <= i < rest.len() && (#[trigger] rest[i]).right_edge() == rightmost_edge(rest);
        assert(rest[at] == obstacles[at]);
        assert forall|i: int| 0 <= i < obstacles.len() implies (
        #[trigger] obstacles[i]).right_edge() <= rightmost_edge(obstacles) by {
            if i < rest.len() {
                assert(rest[i] == obstacles[i]);
            }
        }
        if obstacles.last().right_edge() > rightmost_edge(rest) {
            assert(obstacles[obstacles.len() - 1].right_edge() == rightmost_edge(obstacles));
        } else {
            assert(obstacles[at].right_edge() == rightmost_edge(obstacles));
        }
    } else {
        assert(obstacles[0].right_edge() == rightmost_edge(obstacles));
    }
}

/// Where each layout ends: at the right edge of its platform or of its
/// stone, whichever lies further right.
pub proof fn lemma_layout_extent(
    kind: SegmentKind,
    stone: Picture,
    sheet: Rc<SpriteSheet>,
    offset_x: int,
)
    requires
        layout_fits(kind, stone, offset_x),
    ensures
        rightmost_edge(layout(kind, stone, sheet, offset_x)) == ({
            let (platform_x, stone_x) = match kind {
                SegmentKind::StoneAndPlatform => (FIRST_PLATFORM as int, INITIAL_OBSTACLE_OFFSET as int),
                SegmentKind::PlatformAndStone => (INITIAL_OBSTACLE_OFFSET as int, FIRST_PLATFORM as int),
                SegmentKind::StoneOnLowPlatform => (
                    INITIAL_OBSTACLE_OFFSET as int,
                    INITIAL_OBSTACLE_OFFSET + STONE_ON_PLATFORM_OFFSET,
                ),
            };
            let platform_end = offset_x + platform_x + FLOATING_PLATFORM_WIDTH;
            let stone_end = offset_x + stone_x + stone.width;
            if platform_end >= stone_end {
                platform_end
            } else {
                stone_end
            }
        }),
{
    let all = layout(kind, stone, sheet, offset_x);
    assert(all.len() == 2);
    assert(all.drop_last() =~= seq![all[0]]);
    assert(rightmost_edge(all.drop_last()) == all[0].right_edge());
}

/// The boxes of a floating platform stand left to right, edge to edge, and
/// the last one ends `FLOATING_PLATFORM_WIDTH` right of the anchor.
pub proof fn lemma_floating_platform_ordered(sheet: Rc<SpriteSheet>, position: Point)
    requires
        platform_fits(position.x as int),
    ensures
        floating_platform(sheet, position).ordered(),
        floating_platform(sheet, position).right_edge() == position.x + FLOATING_PLATFORM_WIDTH,
        floating_platform(sheet, position).bounding_boxes[0].position.x == position.x,
        floating_platform(sheet, position).bounding_boxes[1].position.x == floating_platform(
            sheet,
            position,
        ).bounding_boxes[0].right_edge(),
        floating_platform(sheet, position).bounding_boxes[2].position.x == floating_platform(
            sheet,
            position,
        ).bounding_boxes[1].right_edge(),
{
}

/// In no layout does the stone overlap a box of the platform, as long as the
/// stone is no higher than `STONE_HEIGHT`.
pub proof fn lemma_layout_apart(
    kind: SegmentKind,
    stone: Picture,
    sheet: Rc<SpriteSheet>,
    offset_x: int,
    platform: PlatformView,
    barrier: Barrier,
    i: int,
)
    requires
        layout_fits(kind, stone, offset_x),
        stone.height <= STONE_HEIGHT,
        layout(kind, stone, sheet, offset_x).contains(ObstacleView::Platform(platform)),
        layout(kind, stone, sheet, offset_x).contains(ObstacleView::Barrier(barrier)),
        0 <= i < platform.bounding_boxes.len(),
    ensures
        !barrier.image.bounding_box.overlaps(platform.bounding_boxes[i]),
{
    let all = layout(kind, stone, sheet, offset_x);
    assert(all.len() == 2);
    assert(all[0] == ObstacleView::Platform(platform) || all[1] == ObstacleView::Platform(platform));
    assert(all[0] == ObstacleView::Barrier(barrier) || all[1] == ObstacleView::Barrier(barrier));
}

/// The greatest right edge among the obstacles; zero for an empty list.
pub fn rightmost(obstacle_list: &Vec<AnyObstacle>) -> (edge: i16)
    requires
        forall|i: int| 0 <= i < obstacle_list@.len() ==> (#[trigger] obstacle_list@[i]).wf(),
    ensures
        edge == rightmost_edge(views(obstacle_list@)),
{
    let mut edge: i16 = 0;
    let mut i: usize = 0;
    while i < obstacle_list.len()
        invariant
            i <= obstacle_list@.len(),
            forall|j: int| 0 <= j < obstacle_list@.len() ==> (#[trigger] obstacle_list@[j]).wf(),
            edge == rightmost_edge(views(obstacle_list@).take(i as int)),
        decreases obstacle_list@.len() - i,
    {
        let right = obstacle_list[i].right();
        proof {
            let all = views(obstacle_list@);
            assert(all.take(i + 1).drop_last() =~= all.take(i as int));
            assert(all.take(i + 1).last() == obstacle_list@[i as int]@);
        }
        if i == 0 || right > edge {
            edge = right;
        }
        i = i + 1;
    }
    proof {
        assert(views(obstacle_list@).take(i as int) =~= views(obstacle_list@));
    }
    edge
}

/// A floating platform anchored at `position`; `MissingFrame` when the sheet
/// lacks one of its three cells.
pub fn create_floating_platform(sprite_sheet: Rc<SpriteSheet>, position: Point) -> (made: Result<
    Platform,
    GameError,
>)
    requires
        platform_fits(position.x as int),
    ensures
        made is Err <==> !has_platform_cells(*sprite_sheet),
        made matches Err(error) ==> error == GameError::MissingFrame,
        made matches Ok(platform) ==> platform.wf() && platform@ == floating_platform(
            sprite_sheet,
            position,
        ),
{
    let sprites: [&str; 3] = ["13.png", "14.png", "15.png"];
    let bounding_boxes: [Rect; 3] = [
        Rect::new_from_x_y(0, 0, FLOATING_PLATFORM_CAP, FLOATING_PLATFORM_CAP_HEIGHT),
        Rect::new_from_x_y(
            FLOATING_PLATFORM_CAP,
            0,
            FLOATING_PLATFORM_WIDTH - (FLOATING_PLATFORM_CAP * 2),
            FLOATING_PLATFORM_BODY_HEIGHT,
        ),
        Rect::new_from_x_y(
            FLOATING_PLATFORM_WIDTH - FLOATING_PLATFORM_CAP,
            0,
            FLOATING_PLATFORM_CAP,
            FLOATING_PLATFORM_CAP_HEIGHT,
        ),
    ];
    let names = sprites.as_slice();
    let boxes = bounding_boxes.as_slice();
    let made = Platform::new(sprite_sheet, position, names, boxes);
    proof {
        assert(names@[0]@ == "13.png"@ && names@[1]@ == "14.png"@ && names@[2]@ == "15.png"@);
        if made is Ok {
            let platform = made->Ok_0;
            assert(platform@.bounding_boxes =~= floating_platform(
                sprite_sheet,
                position,
            ).bounding_boxes);
            assert(platform@.sprites =~= floating_platform(sprite_sheet, position).sprites);
        }
    }
    made
}

/// The layout `kind` at the offset `offset_x`, as obstacles ready to join the
/// world, and the x coordinate up to which the layout reaches.
/// `MissingFrame` when the sheet lacks a cell of the floating platform.
pub fn segment(kind: SegmentKind, stone: Picture, sprite_sheet: Rc<SpriteSheet>, offset_x: i16) -> (made:
    Result<(Vec<AnyObstacle>, i16), GameError>)
    requires
        layout_fits(kind, stone, offset_x as int),
    ensures
        made is Err <==> !has_platform_cells(*sprite_sheet),
        made matches Err(error) ==> error == GameError::MissingFrame,
        made matches Ok(segment) ==> {
            &&& views(segment.0@) == layout(kind, stone, sprite_sheet, offset_x as int)
            &&& segment.1 == rightmost_edge(layout(kind, stone, sprite_sheet, offset_x as int))
            &&& forall|i: int| 0 <= i < segment.0@.len() ==> (#[trigger] segment.0@[i]).wf()
        },
{
    match kind {
        SegmentKind::StoneAndPlatform => stone_and_platform(stone, sprite_sheet, offset_x),
        SegmentKind::PlatformAndStone => platform_and_stone(stone, sprite_sheet, offset_x),
        SegmentKind::StoneOnLowPlatform => stone_on_low_platform(stone, sprite_sheet, offset_x),
    }
}

/// A stone on the ground, then a low platform.
pub fn stone_and_platform(stone: Picture, sprite_sheet: Rc<SpriteSheet>, offset_x: i16) -> (made:
    Result<(Vec<AnyObstacle>, i16), GameError>)
    requires
        layout_fits(SegmentKind::StoneAndPlatform, stone, offset_x as int),
    ensures
        made is Err <==> !has_platform_cells(*sprite_sheet),
        made matches Err(error) ==> error == GameError::MissingFrame,
        made matches Ok(segment) ==> {
            &&& views(segment.0@) == layout(
                SegmentKind::StoneAndPlatform,
                stone,
                sprite_sheet,
                offset_x as int,
            )
            &&& segment.1 == rightmost_edge(
                layout(SegmentKind::StoneAndPlatform, stone, sprite_sheet, offset_x as int),
            )
            &&& forall|i: int| 0 <= i < segment.0@.len() ==> (#[trigger] segment.0@[i]).wf()
        },
{
    let barrier = Barrier::new(
        Image::new(stone, Point { x: offset_x + INITIAL_OBSTACLE_OFFSET, y: STONE_ON_GROUND }),
    );
    let platform = match create_floating_platform(
        sprite_sheet,
        Point { x: offset_x + FIRST_PLATFORM, y: LOW_PLATFORM },
    ) {
        Ok(platform) => platform,
        Err(error) => {
            return Err(error);
        },
    };
    let mut obstacles: Vec<AnyObstacle> = Vec::new();
    obstacles.push(AnyObstacle::Barrier(barrier));
    obstacles.push(AnyObstacle::Platform(platform));
    proof {
        assert(views(obstacles@) =~= layout(
            SegmentKind::StoneAndPlatform,
            stone,
            sprite_sheet,
            offset_x as int,
        ));
    }
    let extent = rightmost(&obstacles);
    Ok((obstacles, extent))
}

/// A high platform, then a stone on the ground.
pub fn platform_and_stone(stone: Picture, sprite_sheet: Rc<SpriteSheet>, offset_x: i16) -> (made:
    Result<(Vec<AnyObstacle>, i16), GameError>)
    requires
        layout_fits(SegmentKind::PlatformAndStone, stone, offset_x as int),
    ensures
        made is Err <==> !has_platform_cells(*sprite_sheet),
        made matches Err(error) ==> error == GameError::MissingFrame,
        made matches Ok(segment) ==> {
            &&& views(segment.0@) == layout(
                SegmentKind::PlatformAndStone,
                stone,
                sprite_sheet,
                offset_x as int,
            )
            &&& segment.1 == rightmost_edge(
                layout(SegmentKind::PlatformAndStone, stone, sprite_sheet, offset_x as int),
            )
            &&& forall|i: int| 0 <= i < segment.0@.len() ==> (#[trigger] segment.0@[i]).wf()
        },
{
    let platform = match create_floating_platform(
        sprite_sheet,
        Point { x: offset_x + INITIAL_OBSTACLE_OFFSET, y: HIGH_PLATFORM },
    ) {
        Ok(platform) => platform,
        Err(error) => {
            return Err(error);
        },
    };
    let barrier = Barrier::new(
        Image::new(stone, Point { x: offset_x + FIRST_PLATFORM, y: STONE_ON_GROUND }),
    );
    let mut obstacles: Vec<AnyObstacle> = Vec::new();
    obstacles.push(AnyObstacle::Platform(platform));
    obstacles.push(AnyObstacle::Barrier(barrier));
    proof {
        assert(views(obstacles@) =~= layout(
            SegmentKind::PlatformAndStone,
            stone,
            sprite_sheet,
            offset_x as int,
        ));
    }
    let extent = rightmost(&obstacles);
    Ok((obstacles, extent))
}

/// A low platform with a stone on top of it.
pub fn stone_on_low_platform(stone: Picture, sprite_sheet: Rc<SpriteSheet>, offset_x: i16) -> (made:
    Result<(Vec<AnyObstacle>, i16), GameError>)
    requires
        layout_fits(SegmentKind::StoneOnLowPlatform, stone, offset_x as int),
    ensures
        made is Err <==> !has_platform_cells(*sprite_sheet),
        made matches Err(error) ==> error == GameError::MissingFrame,
        made matches Ok(segment) ==> {
            &&& views(segment.0@) == layout(
                SegmentKind::StoneOnLowPlatform,
                stone,
                sprite_sheet,
                offset_x as int,
            )
            &&& segment.1 == rightmost_edge(
                layout(SegmentKind::StoneOnLowPlatform, stone, sprite_sheet, offset_x as int),
            )
            &&& forall|i: int| 0 <= i < segment.0@.len() ==> (#[trigger] segment.0@[i]).wf()
        },
{
    let platform = match create_floating_platform(
        sprite_sheet,
        Point { x: offset_x + INITIAL_OBSTACLE_OFFSET, y: LOW_PLATFORM },
    ) {
        Ok(platform) => platform,
        Err(error) => {
            return Err(error);
        },
    };
    let barrier = Barrier::new(
        Image::new(
            stone,
            Point {
                x: offset_x + INITIAL_OBSTACLE_OFFSET + STONE_ON_PLATFORM_OFFSET,
                y: STONE_ON_LOW_PLATFORM,
            },
        ),
    );
    let mut obstacles: Vec<AnyObstacle> = Vec::new();
    obstacles.push(AnyObstacle::Platform(platform));
    obstacles.push(AnyObstacle::Barrier(barrier));
    proof {
        assert(views(obstacles@) =~= layout(
            SegmentKind::StoneOnLowPlatform,
            stone,
            sprite_sheet,
            offset_x as int,
        ));
    }
    let extent = rightmost(&obstacles);
    Ok((obstacles, extent))
}

/// The layout that the number `index` stands for: the numbers go round the
/// catalogue in its order.
pub open spec fn kind_of(index: int) -> SegmentKind {
    if index % 3 == 0 {
        SegmentKind::StoneAndPlatform
    } else if index % 3 == 1 {
        SegmentKind::PlatformAndStone
    } else {
        SegmentKind::StoneOnLowPlatform
    }
}

/// The layout that the number `index` stands for.
pub fn segment_kind(index: u32) -> (kind: SegmentKind)
    ensures
        kind == kind_of(index as int),
{
    let turn: u32 = index % SEGMENT_KINDS;
    if turn == 0 {
        SegmentKind::StoneAndPlatform
    } else if turn == 1 {
        SegmentKind::PlatformAndStone
    } else {
        SegmentKind::StoneOnLowPlatform
    }
}

/// Where chance comes from when the next layout is picked.
pub trait Chance {
    /// Some number below `bound`.
    fn below(&mut self, bound: u32) -> (drawn: u32)
        requires
            bound > 0,
        ensures
            drawn < bound,
    ;
}

/// A number drawn by `rand::Rng::gen_range` from the thread's generator
/// (`rand::thread_rng`), over the range from zero up to, not including,
/// `bound`.
///
/// Nothing is proved here. The contract claims of `gen_range` only what
/// holds of every draw: the number lies in the range that was asked for.
/// `gen_range` panics on an empty range, which `bound > 0` rules out; it
/// draws again until a draw can be used without bias, which ends with
/// certainty but after no fixed number of draws. The first use in a thread
/// seeds the generator from the operating system and panics if that source
/// fails.
#[verifier::external_body]
fn random_below(bound: u32) -> (drawn: u32)
    requires
        bound > 0,
    ensures
        drawn < bound,
{
    rand::thread_rng().gen_range(0..bound)
}

/// Chance from the random number generator of the thread, every number
/// below the bound as likely as any other.
#[derive(Clone, Copy, Debug, Default)]
pub struct ThreadChance {}

impl Chance for ThreadChance {
    fn below(&mut self, bound: u32) -> (drawn: u32) {
        random_below(bound)
    }
}

/// No chance at all: the numbers of a list, one after the other and then
/// from the start again, each reduced modulo the bound.
pub struct Script {
    pub numbers: Vec<u32>,
    /// The place in the list of the number that comes next.
    pub next: usize,
}

impl Script {
    /// The place from which the next number is taken: `next`, or the start
    /// of the list if `next` lies beyond its end.
    pub open spec fn place(&self) -> int {
        if self.next < self.numbers@.len() {
            self.next as int
        } else {
            0
        }
    }

    /// A script that begins with the first number of the list.
    pub fn new(numbers: Vec<u32>) -> (script: Script)
        ensures
            script.numbers == numbers,
            script.next == 0,
    {
        Script { numbers, next: 0 }
    }
}

impl Chance for Script {
    /// The number at the script's place, modulo `bound`; the script moves on
    /// by one place. An empty script gives zero.
    fn below(&mut self, bound: u32) -> (drawn: u32)
        ensures
            final(self).numbers == old(self).numbers,
            old(self).numbers@.len() == 0 ==> drawn == 0 && final(self).next == 0,
            old(self).numbers@.len() > 0 ==> drawn == old(self).numbers@[old(self).place()] % bound
                && final(self).next == (if old(self).place() + 1 < old(self).numbers@.len() {
                old(self).place() + 1
            } else {
                0
            }),
    {
        let count = self.numbers.len();
        if count == 0 {
            self.next = 0;
            return 0;
        }
        let place = if self.next < count {
            self.next
        } else {
            0
        };
        let drawn = self.numbers[place] % bound;
        self.next = if place + 1 < count {
            place + 1
        } else {
            0
        };
        drawn
    }
}

/// Picks the next layout by a number from `chance`.
pub fn pick_segment_from<C: Chance>(chance: &mut C) -> (kind: SegmentKind)
    ensures
        exists|index: int| 0 <= index < SEGMENT_KINDS && kind == kind_of(index),
{
    let drawn = chance.below(SEGMENT_KINDS);
    segment_kind(drawn)
}

/// Picks the next layout at random, each of the catalogue with the same
/// chance.
pub fn pick_segment() -> (kind: SegmentKind)
    ensures
        exists|index: int| 0 <= index < SEGMENT_KINDS && kind == kind_of(index),
{
    let mut chance = ThreadChance {  };
    pick_segment_from(&mut chance)
}

} // verus!
