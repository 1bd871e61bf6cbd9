//! The game itself: the character, the obstacles, the catalogue of obstacle
//! layouts, and the world that moves them.
//!
//! One call of `update` is one tick. The tick is written down as a handful of
//! spec functions on the world before it (`stepped_boy`, `kept_obstacles`,
//! `next_timeline`, ...); `update_with` is proved to leave the world that they
//! describe.

pub mod obstacles;
pub mod rhb;
pub mod segments;

pub use self::obstacles::{AnyObstacle, Barrier, Obstacle, Platform};
use self::obstacles::{
    first_hit, lemma_first_hit_in_range, lemma_resolved_keeps_wf, span, views, ObstacleView,
};
use self::rhb::{lemma_within_fits, RedHatBoy, RedHatBoyState, JUMP_SPEED, RUNNING_SPEED};
use self::segments::{
    has_platform_cells, layout, layout_fits, lemma_layout_extent, pick_segment_from,
    rightmost_edge, segment, Chance, SegmentKind, ThreadChance,
};
use crate::engine::{
    Cell, DrawCommand, GameError, Image, KeyState, Picture, Point, Rect, SpriteSheet, CELL_LIMIT,
};
use std::rc::Rc;
use vstd::prelude::*;

verus! {

/// The canvas is this high and this wide.
pub const HEIGHT: i16 = 600;

pub const WIDTH: i16 = 600;

/// Where the character stands when the game begins.
pub const STARTING_X: i16 = -20;

pub const STARTING_Y: i16 = 479;

/// A new layout is made as soon as the timeline is below this.
pub const TIMELINE_MINIMUM: i16 = 1000;

/// A new layout begins this far right of the timeline.
pub const OBSTACLE_BUFFER: i16 = 20;

/// The backgrounds scroll at the obstacles' speed divided by this.
pub const PARALLAX: i16 = 3;

/// The background and the stone are at most this wide.
pub const PICTURE_LIMIT: i16 = 8192;

/// Nothing in the world lies further than this from the origin.
pub const WORLD_LIMIT: i16 = 16000;

/// The character after the keys that are held down have had their say:
/// `ArrowRight` starts the run, then `ArrowDown` the slide, then `Space` the
/// jump.
pub open spec fn after_keys(boy: RedHatBoy, keys: KeyState) -> RedHatBoy {
    let ran = if keys.holds("ArrowRight"@) {
        boy.after_run_right()
    } else {
        boy
    };
    let slid = if keys.holds("ArrowDown"@) {
        ran.after_slide()
    } else {
        ran
    };
    if keys.holds("Space"@) {
        slid.after_jump()
    } else {
        slid
    }
}

/// The picture `tile` with its left edge at `x`.
pub open spec fn tile_at(tile: Image, x: int) -> Image {
    Image {
        element: tile.element,
        bounding_box: Rect {
            position: Point { x: x as i16, y: tile.bounding_box.position.y },
            ..tile.bounding_box
        },
    }
}

/// The two background tiles after one tick in which they scroll by `x`:
/// both move, and a tile whose right edge is then left of the canvas goes to
/// the right edge of the other one.
pub open spec fn scrolled_tiles(first: Image, second: Image, x: int) -> (Image, Image) {
    let first = first.moved(x);
    let second = second.moved(x);
    let first = if first.bounding_box.right_edge() < 0 {
        tile_at(first, second.bounding_box.right_edge())
    } else {
        first
    };
    let second = if second.bounding_box.right_edge() < 0 {
        tile_at(second, first.bounding_box.right_edge())
    } else {
        second
    };
    (first, second)
}

/// Two background tiles lie as they should: they are equally wide, at least
/// one pixel and at most `PICTURE_LIMIT`; one begins where the other ends;
/// and the left one begins at or left of x = 0 and ends at or right of it.
/// Together they cover a stretch twice as wide as one tile that holds x = 0.
pub open spec fn tiles_cover(first: Image, second: Image) -> bool {
    let a = first.bounding_box;
    let b = second.bounding_box;
    let left = if a.position.x <= b.position.x {
        a.position.x
    } else {
        b.position.x
    };
    &&& a.width == b.width
    &&& 1 <= a.width <= PICTURE_LIMIT
    &&& b.position.x == a.position.x + a.width || a.position.x == b.position.x + a.width
    &&& left <= 0 <= left + a.width
}

/// Scrolling the two tiles by `x` keeps every coordinate that is computed on
/// the way representable.
pub open spec fn tiles_fit(first: Image, second: Image, x: int) -> bool {
    let a = first.bounding_box;
    let b = second.bounding_box;
    &&& i16::MIN <= a.position.x + x <= i16::MAX
    &&& i16::MIN <= b.position.x + x <= i16::MAX
    &&& i16::MIN <= a.right_edge() + x <= i16::MAX
    &&& i16::MIN <= b.right_edge() + x <= i16::MAX
    &&& a.right_edge() + x < 0 && b.right_edge() + x < 0 ==> i16::MIN <= b.right_edge() + x
        + a.width <= i16::MAX
}

/// Background tiles that lie as they should can scroll left by up to their
/// width and still lie as they should afterwards; and before the tile that
/// has left the canvas is put back, at most one of them has.
pub proof fn lemma_tiles_keep_covering(first: Image, second: Image, by: int)
    requires
        tiles_cover(first, second),
        0 <= by <= first.bounding_box.width,
    ensures
        tiles_fit(first, second, -by),
        !(first.moved(-by).bounding_box.right_edge() < 0 && second.moved(
            -by,
        ).bounding_box.right_edge() < 0),
        tiles_cover(scrolled_tiles(first, second, -by).0, scrolled_tiles(first, second, -by).1),
{
}

/// Scrolls the two background tiles by `x`.
pub fn scroll_tiles(backgrounds: &mut [Image; 2], x: i16)
    requires
        tiles_fit(old(backgrounds)[0], old(backgrounds)[1], x as int),
    ensures
        final(backgrounds)[0] == scrolled_tiles(old(backgrounds)[0], old(backgrounds)[1], x as int).0,
        final(backgrounds)[1] == scrolled_tiles(old(backgrounds)[0], old(backgrounds)[1], x as int).1,
{
    let mut first_background = backgrounds[0];
    let mut second_background = backgrounds[1];
    first_background.move_horizontally(x);
    second_background.move_horizontally(x);
    if first_background.right() < 0 {
        first_background.set_x(second_background.right());
    }
    if second_background.right() < 0 {
        second_background.set_x(first_background.right());
    }
    backgrounds[0] = first_background;
    backgrounds[1] = second_background;
}

/// Obstacles stay in the world while their right edge is right of x = 0.
pub open spec fn on_stage() -> spec_fn(ObstacleView) -> bool {
    |obstacle: ObstacleView| obstacle.right_edge() > 0
}

/// Every obstacle of the list, moved by `x`.
pub open spec fn moved_all(obstacles: Seq<ObstacleView>, x: int) -> Seq<ObstacleView> {
    Seq::new(obstacles.len(), |i: int| obstacles[i].moved(x))
}

/// The character after every obstacle of the list, first to last, has settled
/// its collision with it.
pub open spec fn resolved_all(obstacles: Seq<ObstacleView>, boy: RedHatBoy) -> RedHatBoy
    decreases obstacles.len(),
{
    if obstacles.len() == 0 {
        boy
    } else {
        obstacles.last().resolved(resolved_all(obstacles.drop_last(), boy))
    }
}

/// What holds of every obstacle in the world between two ticks.
///
/// Its right edge is right of x = 0 and within the world. No box begins
/// further than `PICTURE_LIMIT` left of that edge or ends right of it, and
/// none is turned inside out. A platform is anchored within the same
/// stretch, its boxes lie at heights within the world, and it is drawn with
/// at most three cells, each within the limit for cells.
pub open spec fn settled(obstacle: ObstacleView) -> bool {
    &&& 0 < obstacle.right_edge() <= WORLD_LIMIT
    &&& forall|i: int|
        0 <= i < obstacle.boxes().len() ==> {
            &&& obstacle.right_edge() - PICTURE_LIMIT <= (
            #[trigger] obstacle.boxes()[i]).position.x
            &&& obstacle.boxes()[i].position.x <= obstacle.boxes()[i].right_edge()
            &&& obstacle.boxes()[i].right_edge() <= obstacle.right_edge()
            &&& -WORLD_LIMIT <= obstacle.boxes()[i].position.y <= WORLD_LIMIT
        }
    &&& obstacle matches ObstacleView::Platform(platform) ==> {
        &&& platform.right_edge() - PICTURE_LIMIT <= platform.position.x <= platform.right_edge()
        &&& platform.sprites.len() <= 3
        &&& forall|k: int|
            0 <= k < platform.sprites.len() ==> (#[trigger] platform.sprites[k]).within_limit()
    }
}

/// The widths of cells within the limit add up to something between zero
/// and the limit times their number.
pub proof fn lemma_span_bounds(cells: Seq<Cell>)
    requires
        forall|k: int| 0 <= k < cells.len() ==> (#[trigger] cells[k]).within_limit(),
    ensures
        0 <= span(cells) <= cells.len() * CELL_LIMIT,
    decreases cells.len(),
{
    if cells.len() > 0 {
        let rest = cells.drop_last();
        assert forall|k: int| 0 <= k < rest.len() implies (#[trigger] rest[k]).within_limit() by {
            assert(rest[k] == cells[k]);
        }
        lemma_span_bounds(rest);
        assert(cells.last() == cells[cells.len() - 1]);
    }
}

/// A settled obstacle can be drawn.
pub proof fn lemma_settled_draws(obstacle: ObstacleView)
    requires
        settled(obstacle),
    ensures
        obstacle.drawable(),
{
    match obstacle {
        ObstacleView::Platform(platform) => {
            assert forall|k: int| 0 <= k < platform.sprites.len() implies i16::MIN
                <= platform.position.x + #[trigger] span(platform.sprites.take(k)) <= i16::MAX by {
                let part = platform.sprites.take(k);
                assert forall|j: int| 0 <= j < part.len() implies (
                #[trigger] part[j]).within_limit() by {
                    assert(part[j] == platform.sprites[j]);
                }
                lemma_span_bounds(part);
                assert(part.len() * CELL_LIMIT <= 3 * CELL_LIMIT) by (nonlinear_arith)
                    requires
                        part.len() <= 3,
                ;
            }
        },
        ObstacleView::Barrier(_) => {},
    }
}

/// A settled obstacle can scroll left by up to the running speed, and is
/// settled again afterwards if its right edge is still right of x = 0.
pub proof fn lemma_settled_scrolls(obstacle: ObstacleView, x: int)
    requires
        settled(obstacle),
        -RUNNING_SPEED <= x <= 0,
    ensures
        obstacle.movable(x),
        obstacle.moved(x).right_edge() == obstacle.right_edge() + x,
        obstacle.moved(x).right_edge() > 0 ==> settled(obstacle.moved(x)),
{
    match obstacle {
        ObstacleView::Platform(platform) => {
            assert(platform.bounding_boxes.len() > 0);
            assert forall|i: int| 0 <= i < platform.bounding_boxes.len() implies {
                &&& i16::MIN <= (#[trigger] platform.bounding_boxes[i]).position.x + x <= i16::MAX
                &&& i16::MIN <= platform.bounding_boxes[i].right_edge() + x <= i16::MAX
            } by {
                assert(obstacle.boxes()[i] == platform.bounding_boxes[i]);
            }
            let after = platform.moved(x);
            assert(after.bounding_boxes.last() == platform.bounding_boxes.last().shifted(x));
            assert(obstacle.boxes()[platform.bounding_boxes.len() - 1]
                == platform.bounding_boxes.last());
            if after.right_edge() > 0 {
                assert forall|i: int| 0 <= i < after.bounding_boxes.len() implies {
                    &&& after.right_edge() - PICTURE_LIMIT <= (
                    #[trigger] after.bounding_boxes[i]).position.x
                    &&& after.bounding_boxes[i].position.x <= after.bounding_boxes[i].right_edge()
                    &&& after.bounding_boxes[i].right_edge() <= after.right_edge()
                    &&& -WORLD_LIMIT <= after.bounding_boxes[i].position.y <= WORLD_LIMIT
                } by {
                    assert(obstacle.boxes()[i] == platform.bounding_boxes[i]);
                    assert(after.bounding_boxes[i] == platform.bounding_boxes[i].shifted(x));
                }
                assert(obstacle.moved(x).boxes() == after.bounding_boxes);
            }
        },
        ObstacleView::Barrier(barrier) => {
            assert(obstacle.boxes()[0] == barrier.image.bounding_box);
            if obstacle.moved(x).right_edge() > 0 {
                assert(obstacle.moved(x).boxes()[0] == barrier.image.bounding_box.shifted(x));
            }
        },
    }
}

/// With a well-formed sheet that has the platform's cells and a stone no
/// wider than `PICTURE_LIMIT`, every layout that begins between zero and
/// `TIMELINE_MINIMUM + OBSTACLE_BUFFER` fits, consists of settled obstacles,
/// and reaches to a point right of x = 0 within the world.
pub proof fn lemma_layout_settled(
    kind: SegmentKind,
    stone: Picture,
    sheet: Rc<SpriteSheet>,
    offset_x: int,
)
    requires
        sheet.wf(),
        has_platform_cells(*sheet),
        0 <= stone.width <= PICTURE_LIMIT,
        0 <= offset_x <= TIMELINE_MINIMUM + OBSTACLE_BUFFER,
    ensures
        layout_fits(kind, stone, offset_x),
        forall|i: int|
            0 <= i < layout(kind, stone, sheet, offset_x).len() ==> settled(
                #[trigger] layout(kind, stone, sheet, offset_x)[i],
            ),
        0 < rightmost_edge(layout(kind, stone, sheet, offset_x)) <= WORLD_LIMIT,
{
    let all = layout(kind, stone, sheet, offset_x);
    assert(all.len() == 2);
    assert(all.drop_last() =~= seq![all[0]]);
    assert(rightmost_edge(all.drop_last()) == all[0].right_edge());
    assert(sheet.sheet@.contains_key("13.png"@));
    assert(sheet.sheet@.contains_key("14.png"@));
    assert(sheet.sheet@.contains_key("15.png"@));
    assert(settled(all[0]));
    assert(settled(all[1]));
}

/// Moves every obstacle by `x` and drops those that have then left the
/// canvas on the left; the others keep their order.
pub fn scroll_obstacles(obstacles: &mut Vec<AnyObstacle>, x: i16)
    requires
        forall|i: int|
            0 <= i < old(obstacles)@.len() ==> (#[trigger] old(obstacles)@[i]).wf() && old(
                obstacles,
            )@[i]@.movable(x as int),
    ensures
        views(final(obstacles)@) == moved_all(views(old(obstacles)@), x as int).filter(on_stage()),
        forall|i: int| 0 <= i < final(obstacles)@.len() ==> (#[trigger] final(obstacles)@[i]).wf(),
{
    let mut incoming: Vec<AnyObstacle> = Vec::new();
    std::mem::swap(obstacles, &mut incoming);
    let ghost all = moved_all(views(incoming@), x as int);
    proof {
        reveal(Seq::filter);
        assert(views(obstacles@) =~= all.take(0).filter(on_stage()));
    }
    for obstacle in it: incoming
        invariant
            it.seq() == old(obstacles)@,
            forall|i: int|
                0 <= i < old(obstacles)@.len() ==> (#[trigger] old(obstacles)@[i]).wf() && old(
                    obstacles,
                )@[i]@.movable(x as int),
            all == moved_all(views(old(obstacles)@), x as int),
            views(obstacles@) == all.take(it.index() as int).filter(on_stage()),
            forall|i: int| 0 <= i < obstacles@.len() ==> (#[trigger] obstacles@[i]).wf(),
    {
        let ghost at = it.index() as int;
        assert(obstacle == old(obstacles)@[at]);
        let mut obstacle = obstacle;
        obstacle.move_horizontally(x);
        proof {
            assert(all.take(at + 1) =~= all.take(at).push(obstacle@));
            all.take(at).lemma_filter_push(obstacle@, on_stage());
        }
        if obstacle.right() > 0 {
            obstacles.push(obstacle);
            assert(views(obstacles@) =~= all.take(at + 1).filter(on_stage()));
        }
    }
    proof {
        assert(all.take(all.len() as int) =~= all);
    }
}

/// Settled obstacles can scroll left by up to the running speed, and those
/// that are still in the world afterwards are settled again.
pub proof fn lemma_scroll_keeps_settled(obstacles: Seq<ObstacleView>, x: int)
    requires
        forall|i: int| 0 <= i < obstacles.len() ==> settled(#[trigger] obstacles[i]),
        -RUNNING_SPEED <= x <= 0,
    ensures
        forall|i: int| 0 <= i < obstacles.len() ==> (#[trigger] obstacles[i]).movable(x),
        forall|k: int|
            0 <= k < moved_all(obstacles, x).filter(on_stage()).len() ==> settled(
                #[trigger] moved_all(obstacles, x).filter(on_stage())[k],
            ),
{
    let moved = moved_all(obstacles, x);
    let kept = moved.filter(on_stage());
    assert forall|i: int| 0 <= i < obstacles.len() implies (#[trigger] obstacles[i]).movable(
        x,
    ) by {
        lemma_settled_scrolls(obstacles[i], x);
    }
    assert forall|k: int| 0 <= k < kept.len() implies settled(#[trigger] kept[k]) by {
        moved.lemma_filter_pred(on_stage(), k);
        assert(kept.contains(kept[k]));
        moved.lemma_filter_contains_rev(on_stage(), kept[k]);
        let i = choose|i: int| 0 <= i < moved.len() && moved[i] == kept[k];
        lemma_settled_scrolls(obstacles[i], x);
    }
}

/// Lets every obstacle of the list, first to last, settle its collision with
/// the character.
pub fn check_intersections(obstacles: &Vec<AnyObstacle>, boy: &mut RedHatBoy)
    requires
        old(boy).wf(),
        forall|k: int|
            0 <= k < obstacles@.len() ==> (#[trigger] resolved_all(
                views(obstacles@).take(k),
                *old(boy),
            )).box_fits(),
    ensures
        final(boy).wf(),
        *final(boy) == resolved_all(views(obstacles@), *old(boy)),
{
    let mut i: usize = 0;
    while i < obstacles.len()
        invariant
            i <= obstacles@.len(),
            boy.wf(),
            forall|k: int|
                0 <= k < obstacles@.len() ==> (#[trigger] resolved_all(
                    views(obstacles@).take(k),
                    *old(boy),
                )).box_fits(),
            *boy == resolved_all(views(obstacles@).take(i as int), *old(boy)),
        decreases obstacles@.len() - i,
    {
        proof {
            let all = views(obstacles@);
            assert(all.take(i + 1).drop_last() =~= all.take(i as int));
            assert(all.take(i + 1).last() == obstacles@[i as int]@);
        }
        obstacles[i].check_intersection(boy);
        i = i + 1;
    }
    proof {
        assert(views(obstacles@).take(i as int) =~= views(obstacles@));
    }
}

/// Settled obstacles leave a well-formed character that stands within the
/// world well formed and within the world, with a bounding box that has
/// representable corners.
pub proof fn lemma_collisions_stay_within(obstacles: Seq<ObstacleView>, boy: RedHatBoy)
    requires
        boy.wf(),
        boy.within(WORLD_LIMIT - JUMP_SPEED),
        forall|i: int| 0 <= i < obstacles.len() ==> settled(#[trigger] obstacles[i]),
    ensures
        resolved_all(obstacles, boy).wf(),
        resolved_all(obstacles, boy).within(WORLD_LIMIT - JUMP_SPEED),
        resolved_all(obstacles, boy).box_fits(),
    decreases obstacles.len(),
{
    if obstacles.len() > 0 {
        let rest = obstacles.drop_last();
        assert forall|i: int| 0 <= i < rest.len() implies settled(#[trigger] rest[i]) by {
            assert(rest[i] == obstacles[i]);
        }
        lemma_collisions_stay_within(rest, boy);
        assert(obstacles.last() == obstacles[obstacles.len() - 1]);
        lemma_resolved_keeps_wf(obstacles.last(), resolved_all(rest, boy));
        lemma_resolved_stays_within(obstacles.last(), resolved_all(rest, boy));
    }
    lemma_within_fits(resolved_all(obstacles, boy), WORLD_LIMIT - JUMP_SPEED);
}

/// A settled obstacle leaves a character that stands within the world
/// within the world: it either leaves the position alone or puts the
/// character on one of its boxes.
pub proof fn lemma_resolved_stays_within(obstacle: ObstacleView, boy: RedHatBoy)
    requires
        settled(obstacle),
        boy.within(WORLD_LIMIT - JUMP_SPEED),
    ensures
        obstacle.resolved(boy).within(WORLD_LIMIT - JUMP_SPEED),
{
    match obstacle {
        ObstacleView::Platform(platform) => {
            if let Some(hitbox) = boy.hitbox() {
                if let Some(k) = first_hit(platform.bounding_boxes, hitbox, 0) {
                    lemma_first_hit_in_range(platform.bounding_boxes, hitbox, 0);
                    assert(obstacle.boxes()[k] == platform.bounding_boxes[k]);
                }
            }
        },
        ObstacleView::Barrier(_) => {},
    }
}

/// Pruning is exact: of the obstacles as they are after the move, those with
/// a right edge right of x = 0 stay, every one of them, and no other does.
pub proof fn lemma_pruning_is_exact(obstacles: Seq<ObstacleView>, x: int)
    ensures
        forall|k: int|
            0 <= k < moved_all(obstacles, x).filter(on_stage()).len() ==> {
                &&& (#[trigger] moved_all(obstacles, x).filter(on_stage())[k]).right_edge() > 0
                &&& moved_all(obstacles, x).contains(moved_all(obstacles, x).filter(on_stage())[k])
            },
        forall|i: int|
            0 <= i < obstacles.len() ==> (moved_all(obstacles, x).filter(on_stage()).contains(
                #[trigger] obstacles[i].moved(x),
            ) <==> obstacles[i].moved(x).right_edge() > 0),
{
    let moved = moved_all(obstacles, x);
    let kept = moved.filter(on_stage());
    assert forall|k: int| 0 <= k < kept.len() implies {
        &&& (#[trigger] kept[k]).right_edge() > 0
        &&& moved.contains(kept[k])
    } by {
        moved.lemma_filter_pred(on_stage(), k);
        assert(kept.contains(kept[k]));
        moved.lemma_filter_contains_rev(on_stage(), kept[k]);
    }
    assert forall|i: int| 0 <= i < obstacles.len() implies (kept.contains(
        #[trigger] obstacles[i].moved(x),
    ) <==> obstacles[i].moved(x).right_edge() > 0) by {
        assert(moved[i] == obstacles[i].moved(x));
        if obstacles[i].moved(x).right_edge() > 0 {
            moved.lemma_filter_contains(on_stage(), i);
        }
        if kept.contains(obstacles[i].moved(x)) {
            let k = choose|k: int| 0 <= k < kept.len() && kept[k] == obstacles[i].moved(x);
            moved.lemma_filter_pred(on_stage(), k);
        }
    }
}

/// The commands that draw the obstacles of the list, first to last, each
/// followed by the outlines of its boxes.
pub open spec fn obstacle_pictures(obstacles: Seq<ObstacleView>) -> Seq<DrawCommand>
    decreases obstacles.len(),
{
    if obstacles.len() == 0 {
        Seq::empty()
    } else {
        obstacle_pictures(obstacles.drop_last()) + obstacles.last().picture()
            + obstacles.last().outlines()
    }
}

/// Another handle to the same sheet, made by `Rc::clone`.
///
/// Nothing is proved here. The contract claims of `Rc::clone` that the new
/// handle points to what the old one points to: the sheet is not copied,
/// only the handles to it are counted.
#[verifier::external_body]
fn share(sheet: &Rc<SpriteSheet>) -> (shared: Rc<SpriteSheet>)
    ensures
        shared == *sheet,
{
    Rc::clone(sheet)
}

/// Lets the keys that are held down act on the character.
pub fn apply_keys(boy: &mut RedHatBoy, keystate: &KeyState)
    requires
        old(boy).wf(),
    ensures
        final(boy).wf(),
        *final(boy) == after_keys(*old(boy), *keystate),
{
    if keystate.is_pressed("ArrowRight") {
        boy.run_right();
    }
    if keystate.is_pressed("ArrowDown") {
        boy.slide();
    }
    if keystate.is_pressed("Space") {
        boy.jump();
    }
}

/// The world while the game runs.
pub struct Walk {
    pub boy: RedHatBoy,
    pub backgrounds: [Image; 2],
    /// The obstacles on and right of the canvas, in the order in which they
    /// were made.
    pub obstacles: Vec<AnyObstacle>,
    pub obstacle_sheet: Rc<SpriteSheet>,
    pub stone: Picture,
    /// The x coordinate up to which obstacles have been made.
    pub timeline: i16,
}

impl Walk {
    /// What holds of the world between two ticks.
    pub open spec fn wf(&self) -> bool {
        &&& self.boy.wf()
        &&& self.obstacle_sheet.wf()
        &&& has_platform_cells(*self.obstacle_sheet)
        &&& 0 <= self.stone.width <= PICTURE_LIMIT
        &&& tiles_cover(self.backgrounds[0], self.backgrounds[1])
        &&& 0 <= self.timeline <= WORLD_LIMIT
        &&& forall|i: int|
            0 <= i < self.obstacles@.len() ==> (#[trigger] self.obstacles@[i]).wf() && settled(
                self.obstacles@[i]@,
            )
    }

    /// The character after the keys and one tick of its own, before any
    /// collision.
    pub open spec fn stepped_boy(&self, keys: KeyState) -> RedHatBoy {
        after_keys(self.boy, keys).advanced()
    }

    /// How far the obstacles move in this tick: left by the speed of the
    /// character as it is after its own tick.
    pub open spec fn scroll(&self, keys: KeyState) -> int {
        -self.stepped_boy(keys).speed()
    }

    /// How far the backgrounds move in this tick: a third as far as the
    /// obstacles, rounded towards zero.
    pub open spec fn background_scroll(&self, keys: KeyState) -> int {
        -(self.stepped_boy(keys).speed() / (PARALLAX as int))
    }

    /// The obstacles that are still in the world after they have moved.
    pub open spec fn kept_obstacles(&self, keys: KeyState) -> Seq<ObstacleView> {
        moved_all(views(self.obstacles@), self.scroll(keys)).filter(on_stage())
    }

    /// Whether this tick makes a new layout.
    pub open spec fn generates(&self) -> bool {
        self.timeline < TIMELINE_MINIMUM
    }

    /// The layout that this tick makes if it makes one.
    pub open spec fn next_layout(&self, next: SegmentKind) -> Seq<ObstacleView> {
        layout(next, self.stone, self.obstacle_sheet, self.timeline + OBSTACLE_BUFFER)
    }

    /// The obstacles after the tick.
    pub open spec fn next_obstacles(&self, keys: KeyState, next: SegmentKind) -> Seq<ObstacleView> {
        if self.generates() {
            self.kept_obstacles(keys) + self.next_layout(next)
        } else {
            self.kept_obstacles(keys)
        }
    }

    /// The character after the tick: after the keys, its own tick, and the
    /// collisions with the obstacles that are still in the world.
    pub open spec fn next_boy(&self, keys: KeyState) -> RedHatBoy {
        resolved_all(self.kept_obstacles(keys), self.stepped_boy(keys))
    }

    /// The timeline after the tick: where the new layout ends if one is made,
    /// and else where it was, moved with the obstacles.
    pub open spec fn next_timeline(&self, keys: KeyState, next: SegmentKind) -> int {
        if self.generates() {
            rightmost_edge(self.next_layout(next))
        } else {
            self.timeline + self.scroll(keys)
        }
    }

    /// The background tiles after the tick.
    pub open spec fn next_backgrounds(&self, keys: KeyState) -> (Image, Image) {
        scrolled_tiles(self.backgrounds[0], self.backgrounds[1], self.background_scroll(keys))
    }

    /// The commands that draw the world, given the cell that shows the
    /// character: the backgrounds, the character and its bounding box, then
    /// the obstacles with theirs.
    pub open spec fn scene(&self, cell: Cell) -> Seq<DrawCommand> {
        seq![
            self.backgrounds[0].picture(),
            self.backgrounds[1].picture(),
            DrawCommand::Image {
                picture: self.boy.sprite_sheet.image.id,
                source: cell.source(),
                destination: self.boy.placed(cell),
            },
            DrawCommand::Outline(self.boy.inset(cell)),
        ] + obstacle_pictures(views(self.obstacles@))
    }

    /// The speed at which the world moves: the character's, leftwards.
    pub fn velocity(&self) -> (velocity: i16)
        ensures
            velocity == -self.boy.speed(),
    {
        -self.boy.walking_speed()
    }

    /// Makes the layout `next` right of the timeline and moves the timeline
    /// to its end.
    fn generate_next_segment(&mut self, next: SegmentKind)
        requires
            old(self).obstacle_sheet.wf(),
            has_platform_cells(*old(self).obstacle_sheet),
            0 <= old(self).stone.width <= PICTURE_LIMIT,
            0 <= old(self).timeline < TIMELINE_MINIMUM,
            forall|i: int|
                0 <= i < old(self).obstacles@.len() ==> (#[trigger] old(self).obstacles@[i]).wf()
                    && settled(old(self).obstacles@[i]@),
        ensures
            final(self).boy == old(self).boy,
            final(self).backgrounds == old(self).backgrounds,
            final(self).obstacle_sheet == old(self).obstacle_sheet,
            final(self).stone == old(self).stone,
            views(final(self).obstacles@) == views(old(self).obstacles@) + old(self).next_layout(
                next,
            ),
            final(self).timeline == rightmost_edge(old(self).next_layout(next)),
            0 <= final(self).timeline <= WORLD_LIMIT,
            forall|i: int|
                0 <= i < final(self).obstacles@.len() ==> (
                #[trigger] final(self).obstacles@[i]).wf() && settled(final(self).obstacles@[i]@),
    {
        proof {
            lemma_layout_settled(
                next,
                self.stone,
                self.obstacle_sheet,
                self.timeline + OBSTACLE_BUFFER,
            );
        }
        let made = segment(
            next,
            self.stone,
            share(&self.obstacle_sheet),
            self.timeline + OBSTACLE_BUFFER,
        );
        match made {
            Ok((mut next_obstacles, extent)) => {
                let ghost added = next_obstacles@;
                self.timeline = extent;
                self.obstacles.append(&mut next_obstacles);
                proof {
                    assert(views(self.obstacles@) =~= views(old(self).obstacles@) + views(added));
                    assert forall|i: int| 0 <= i < self.obstacles@.len() implies (
                    #[trigger] self.obstacles@[i]).wf() && settled(self.obstacles@[i]@) by {
                        if i >= old(self).obstacles@.len() {
                            let k = i - old(self).obstacles@.len();
                            assert(self.obstacles@[i] == added[k]);
                            assert(views(added)[k] == added[k]@);
                        }
                    }
                }
            },
            Err(_) => {},
        }
    }

    /// One tick with the layout `next` in hand, should the tick make one.
    ///
    /// The keys act on the character and the character advances. The
    /// backgrounds and the obstacles scroll left, the backgrounds wrap round,
    /// and every obstacle whose right edge is then at or left of x = 0 leaves
    /// the world. The obstacles that stay settle their collisions with the
    /// character. A timeline below `TIMELINE_MINIMUM` then has the layout
    /// `next` made `OBSTACLE_BUFFER` right of it and moves to the layout's
    /// end; any other timeline moves left with the obstacles.
    pub fn update_with(&mut self, keystate: &KeyState, next: SegmentKind)
        requires
            old(self).wf(),
            old(self).boy.within(WORLD_LIMIT as int),
        ensures
            final(self).wf(),
            final(self).boy == old(self).next_boy(*keystate),
            final(self).backgrounds[0] == old(self).next_backgrounds(*keystate).0,
            final(self).backgrounds[1] == old(self).next_backgrounds(*keystate).1,
            views(final(self).obstacles@) == old(self).next_obstacles(*keystate, next),
            final(self).timeline == old(self).next_timeline(*keystate, next),
            final(self).obstacle_sheet == old(self).obstacle_sheet,
            final(self).stone == old(self).stone,
            forall|i: int|
                0 <= i < final(self).obstacles@.len() ==> (
                #[trigger] final(self).obstacles@[i])@.right_edge() > 0,
            final(self).boy.box_fits(),
    {
        apply_keys(&mut self.boy, keystate);
        proof {
            lemma_within_fits(self.boy, WORLD_LIMIT as int);
        }
        self.boy.update();
        let velocity = self.velocity();
        proof {
            lemma_tiles_keep_covering(
                self.backgrounds[0],
                self.backgrounds[1],
                self.boy.speed() / (PARALLAX as int),
            );
            lemma_scroll_keeps_settled(views(self.obstacles@), velocity as int);
            assert forall|i: int| 0 <= i < self.obstacles@.len() implies (
            #[trigger] self.obstacles@[i])@.movable(velocity as int) by {
                assert(views(self.obstacles@)[i] == self.obstacles@[i]@);
            }
        }
        scroll_tiles(&mut self.backgrounds, -(self.boy.walking_speed() / PARALLAX));
        scroll_obstacles(&mut self.obstacles, velocity);
        proof {
            let kept = views(self.obstacles@);
            assert forall|i: int| 0 <= i < self.obstacles@.len() implies settled(
                (#[trigger] self.obstacles@[i])@,
            ) by {
                assert(kept[i] == self.obstacles@[i]@);
            }
            assert forall|k: int| 0 <= k < self.obstacles@.len() implies (#[trigger] resolved_all(
                kept.take(k),
                self.boy,
            )).box_fits() by {
                let part = kept.take(k);
                assert forall|i: int| 0 <= i < part.len() implies settled(#[trigger] part[i]) by {
                    assert(part[i] == kept[i]);
                }
                lemma_collisions_stay_within(part, self.boy);
            }
            lemma_collisions_stay_within(kept, self.boy);
        }
        check_intersections(&self.obstacles, &mut self.boy);
        if self.timeline < TIMELINE_MINIMUM {
            self.generate_next_segment(next);
        } else {
            self.timeline = self.timeline + velocity;
        }
    }

    /// One tick, with the next layout picked by a number from `chance`. A
    /// tick that makes no layout takes no number.
    pub fn update_from<C: Chance>(&mut self, keystate: &KeyState, chance: &mut C)
        requires
            old(self).wf(),
            old(self).boy.within(WORLD_LIMIT as int),
        ensures
            final(self).wf(),
            final(self).boy == old(self).next_boy(*keystate),
            final(self).backgrounds[0] == old(self).next_backgrounds(*keystate).0,
            final(self).backgrounds[1] == old(self).next_backgrounds(*keystate).1,
            exists|next: SegmentKind|
                views(final(self).obstacles@) == #[trigger] old(self).next_obstacles(
                    *keystate,
                    next,
                ) && final(self).timeline == old(self).next_timeline(*keystate, next),
            final(self).obstacle_sheet == old(self).obstacle_sheet,
            final(self).stone == old(self).stone,
            final(self).boy.box_fits(),
    {
        if self.timeline < TIMELINE_MINIMUM {
            let next = pick_segment_from(chance);
            self.update_with(keystate, next);
        } else {
            // No layout is made in this tick, whichever is named.
            self.update_with(keystate, SegmentKind::StoneAndPlatform);
        }
    }

    /// One tick, with the next layout picked at random.
    pub fn update(&mut self, keystate: &KeyState)
        requires
            old(self).wf(),
            old(self).boy.within(WORLD_LIMIT as int),
        ensures
            final(self).wf(),
            final(self).boy == old(self).next_boy(*keystate),
            final(self).backgrounds[0] == old(self).next_backgrounds(*keystate).0,
            final(self).backgrounds[1] == old(self).next_backgrounds(*keystate).1,
            exists|next: SegmentKind|
                views(final(self).obstacles@) == #[trigger] old(self).next_obstacles(
                    *keystate,
                    next,
                ) && final(self).timeline == old(self).next_timeline(*keystate, next),
            final(self).obstacle_sheet == old(self).obstacle_sheet,
            final(self).stone == old(self).stone,
            final(self).boy.box_fits(),
    {
        let mut chance = ThreadChance {  };
        self.update_from(keystate, &mut chance);
    }

    /// Whether the character stands within the world.
    pub fn in_bounds(&self) -> (within: bool)
        ensures
            within == self.boy.within(WORLD_LIMIT as int),
    {
        let position = self.boy.position();
        -WORLD_LIMIT <= position.x && position.x <= WORLD_LIMIT && -WORLD_LIMIT <= position.y
            && position.y <= WORLD_LIMIT
    }

    /// The commands that draw the world; `MissingFrame` when the character's
    /// sheet lacks the picture that shows it now.
    pub fn draw(&self) -> (commands: Result<Vec<DrawCommand>, GameError>)
        requires
            self.wf(),
            self.boy.box_fits(),
        ensures
            match self.boy.sprite() {
                Some(cell) => commands matches Ok(list) && list@ == self.scene(cell),
                None => commands == Err::<Vec<DrawCommand>, GameError>(GameError::MissingFrame),
            },
    {
        let mut commands: Vec<DrawCommand> = Vec::new();
        commands.push(self.backgrounds[0].draw());
        commands.push(self.backgrounds[1].draw());
        match self.boy.draw() {
            Ok(command) => {
                commands.push(command);
            },
            Err(error) => {
                return Err(error);
            },
        }
        match self.boy.draw_bounding_box() {
            Some(command) => {
                commands.push(command);
            },
            None => {},
        }
        let ghost head = commands@;
        let mut i: usize = 0;
        while i < self.obstacles.len()
            invariant
                i <= self.obstacles@.len(),
                forall|j: int|
                    0 <= j < self.obstacles@.len() ==> settled(#[trigger] self.obstacles@[j]@),
                commands@ == head + obstacle_pictures(views(self.obstacles@).take(i as int)),
            decreases self.obstacles@.len() - i,
        {
            proof {
                lemma_settled_draws(self.obstacles@[i as int]@);
                let all = views(self.obstacles@);
                assert(all.take(i + 1).drop_last() =~= all.take(i as int));
                assert(all.take(i + 1).last() == self.obstacles@[i as int]@);
            }
            let mut picture = self.obstacles[i].draw();
            let mut outlines = self.obstacles[i].draw_bounding_box();
            commands.append(&mut picture);
            commands.append(&mut outlines);
            proof {
                assert(commands@ =~= head + obstacle_pictures(
                    views(self.obstacles@).take(i + 1),
                ));
            }
            i = i + 1;
        }
        proof {
            assert(views(self.obstacles@).take(i as int) =~= views(self.obstacles@));
        }
        Ok(commands)
    }
}

/// After a tick no obstacle of the world has its right edge at or left of
/// x = 0: what has scrolled off the canvas is gone at once.
pub proof fn lemma_nothing_off_stage_stays(walk: Walk, keys: KeyState, next: SegmentKind)
    requires
        walk.wf(),
    ensures
        forall|k: int|
            0 <= k < walk.next_obstacles(keys, next).len() ==> (#[trigger] walk.next_obstacles(
                keys,
                next,
            )[k]).right_edge() > 0,
{
    lemma_pruning_is_exact(views(walk.obstacles@), walk.scroll(keys));
    if walk.generates() {
        lemma_layout_settled(
            next,
            walk.stone,
            walk.obstacle_sheet,
            walk.timeline + OBSTACLE_BUFFER,
        );
    }
}

/// The timeline falls back only with the world: a tick that makes a layout
/// puts it at the layout's end, which lies right of where it was; any other
/// tick moves it left by exactly as far as the obstacles scroll, which is no
/// further than the running speed.
pub proof fn lemma_timeline_moves_with_the_world(walk: Walk, keys: KeyState, next: SegmentKind)
    requires
        walk.wf(),
    ensures
        walk.generates() ==> walk.next_timeline(keys, next) == rightmost_edge(
            walk.next_layout(next),
        ) && walk.next_timeline(keys, next) > walk.timeline,
        !walk.generates() ==> walk.next_timeline(keys, next) == walk.timeline + walk.scroll(keys)
            && -RUNNING_SPEED <= walk.scroll(keys) <= 0,
        0 <= walk.next_timeline(keys, next) <= WORLD_LIMIT,
{
    if walk.generates() {
        lemma_layout_settled(
            next,
            walk.stone,
            walk.obstacle_sheet,
            walk.timeline + OBSTACLE_BUFFER,
        );
        lemma_layout_extent(next, walk.stone, walk.obstacle_sheet, walk.timeline + OBSTACLE_BUFFER);
    }
}

/// Background tiles that lie as they should leave no gap and do not overlap,
/// and the stretch that they cover together, twice as wide as one of them,
/// holds x = 0.
pub proof fn lemma_tiles_hold_origin(first: Image, second: Image)
    requires
        tiles_cover(first, second),
    ensures
        first.bounding_box.right_edge() == second.bounding_box.position.x
            || second.bounding_box.right_edge() == first.bounding_box.position.x,
        first.bounding_box.position.x <= 0 || second.bounding_box.position.x <= 0,
        first.bounding_box.right_edge() >= 0 || second.bounding_box.right_edge() >= 0,
        first.bounding_box.position.x <= second.bounding_box.position.x
            ==> first.bounding_box.position.x <= 0 <= second.bounding_box.right_edge()
            && second.bounding_box.right_edge() - first.bounding_box.position.x == 2
            * first.bounding_box.width,
        second.bounding_box.position.x <= first.bounding_box.position.x
            ==> second.bounding_box.position.x <= 0 <= first.bounding_box.right_edge()
            && first.bounding_box.right_edge() - second.bounding_box.position.x == 2
            * first.bounding_box.width,
{
}

/// What the game is made from, once it has been loaded: the character's
/// sprite sheet, the background picture, the stone, and the sprite sheet that
/// the platforms are drawn from.
pub struct Assets {
    pub rhb: SpriteSheet,
    pub background: Picture,
    pub stone: Picture,
    pub tiles: SpriteSheet,
}

impl Assets {
    /// The pictures have sizes that a world can be laid out with: the
    /// background is between one pixel and `PICTURE_LIMIT` wide, the stone
    /// not wider than `PICTURE_LIMIT` and not of negative width.
    pub open spec fn usable(&self) -> bool {
        &&& 1 <= self.background.width <= PICTURE_LIMIT
        &&& 0 <= self.stone.width <= PICTURE_LIMIT
    }
}

/// The game: not yet loaded, or running.
pub enum WalkTheDog {
    Loading,
    Loaded(Walk),
}

impl WalkTheDog {
    /// Whatever the game holds is well formed.
    pub open spec fn wf(&self) -> bool {
        self matches WalkTheDog::Loaded(walk) ==> walk.wf()
    }

    /// A running game has its character within the world.
    pub open spec fn in_bounds(&self) -> bool {
        self matches WalkTheDog::Loaded(walk) ==> walk.boy.within(WORLD_LIMIT as int)
    }

    /// A game that has not been loaded.
    pub fn new() -> (game: WalkTheDog)
        ensures
            game is Loading,
    {
        WalkTheDog::Loading
    }

    /// The running game that `assets` make: the character idle at the
    /// starting point, one background tile at the left edge of the canvas and
    /// one right of it, and the first layout of the catalogue at offset zero,
    /// with the timeline at its end.
    ///
    /// A game that is already running reports `AlreadyInitialized`. Without
    /// assets, or with pictures of sizes that no world can be laid out with,
    /// the result is `AssetLoadFailure`; with a platform sheet that lacks a
    /// cell of the floating platform it is `MissingFrame`.
    pub fn initialize(&self, assets: Option<Assets>) -> (started: Result<WalkTheDog, GameError>)
        requires
            assets matches Some(loaded) ==> loaded.rhb.wf() && loaded.tiles.wf(),
        ensures
            self is Loaded ==> started == Err::<WalkTheDog, GameError>(
                GameError::AlreadyInitialized,
            ),
            self is Loading ==> match assets {
                None => started == Err::<WalkTheDog, GameError>(GameError::AssetLoadFailure),
                Some(loaded) => if !loaded.usable() {
                    started == Err::<WalkTheDog, GameError>(GameError::AssetLoadFailure)
                } else if !has_platform_cells(loaded.tiles) {
                    started == Err::<WalkTheDog, GameError>(GameError::MissingFrame)
                } else {
                    started matches Ok(WalkTheDog::Loaded(walk)) && {
                        &&& walk.wf()
                        &&& walk.boy.within(WORLD_LIMIT as int)
                        &&& walk.boy.box_fits()
                        &&& walk.boy == (RedHatBoy {
                            state: RedHatBoyState::Idle,
                            frame: 0,
                            position: Point { x: STARTING_X, y: STARTING_Y },
                            velocity_y: 0,
                            sprite_sheet: loaded.rhb,
                        })
                        &&& walk.backgrounds[0] == (Image {
                            element: loaded.background,
                            bounding_box: Rect {
                                position: Point { x: 0, y: 0 },
                                width: loaded.background.width,
                                height: loaded.background.height,
                            },
                        })
                        &&& walk.backgrounds[1] == (Image {
                            element: loaded.background,
                            bounding_box: Rect {
                                position: Point { x: loaded.background.width, y: 0 },
                                width: loaded.background.width,
                                height: loaded.background.height,
                            },
                        })
                        &&& *walk.obstacle_sheet == loaded.tiles
                        &&& walk.stone == loaded.stone
                        &&& views(walk.obstacles@) == layout(
                            SegmentKind::StoneAndPlatform,
                            loaded.stone,
                            walk.obstacle_sheet,
                            0,
                        )
                        &&& walk.timeline == rightmost_edge(
                            layout(SegmentKind::StoneAndPlatform, loaded.stone, walk.obstacle_sheet, 0),
                        )
                    }
                },
            },
    {
        match self {
            WalkTheDog::Loaded(_) => Err(GameError::AlreadyInitialized),
            WalkTheDog::Loading => {
                let loaded = match assets {
                    Some(loaded) => loaded,
                    None => {
                        return Err(GameError::AssetLoadFailure);
                    },
                };
                let background = loaded.background;
                let stone = loaded.stone;
                if background.width < 1 || background.width > PICTURE_LIMIT || stone.width < 0
                    || stone.width > PICTURE_LIMIT {
                    return Err(GameError::AssetLoadFailure);
                }
                let rhb = RedHatBoy::new(loaded.rhb, Point { x: STARTING_X, y: STARTING_Y });
                let sprite_sheet = Rc::new(loaded.tiles);
                let (starting_obstacles, timeline) = match segment(
                    SegmentKind::StoneAndPlatform,
                    stone,
                    share(&sprite_sheet),
                    0,
                ) {
                    Ok(made) => made,
                    Err(error) => {
                        return Err(error);
                    },
                };
                proof {
                    lemma_within_fits(rhb, WORLD_LIMIT as int);
                    lemma_layout_settled(SegmentKind::StoneAndPlatform, stone, sprite_sheet, 0);
                    assert forall|i: int| 0 <= i < starting_obstacles@.len() implies settled(
                        (#[trigger] starting_obstacles@[i])@,
                    ) by {
                        assert(views(starting_obstacles@)[i] == starting_obstacles@[i]@);
                    }
                }
                Ok(
                    WalkTheDog::Loaded(
                        Walk {
                            boy: rhb,
                            backgrounds: [
                                Image::new(background, Point { x: 0, y: 0 }),
                                Image::new(background, Point { x: background.width, y: 0 }),
                            ],
                            obstacles: starting_obstacles,
                            obstacle_sheet: sprite_sheet,
                            stone,
                            timeline,
                        },
                    ),
                )
            },
        }
    }

    /// Whether the game can take another tick: a running game can while its
    /// character stands within the world.
    pub fn can_update(&self) -> (ready: bool)
        ensures
            ready == self.in_bounds(),
    {
        match self {
            WalkTheDog::Loaded(walk) => walk.in_bounds(),
            WalkTheDog::Loading => true,
        }
    }

    /// One tick of a running game, with the layout `next` in hand; a game
    /// that has not been loaded stays as it is.
    pub fn update_with(&mut self, keystate: &KeyState, next: SegmentKind)
        requires
            old(self).wf(),
            old(self).in_bounds(),
        ensures
            final(self).wf(),
            *old(self) is Loading ==> *final(self) is Loading,
            *old(self) matches WalkTheDog::Loaded(before) ==> (*final(self) matches WalkTheDog::Loaded(
                after,
            ) && {
                &&& after.boy == before.next_boy(*keystate)
                &&& after.backgrounds[0] == before.next_backgrounds(*keystate).0
                &&& after.backgrounds[1] == before.next_backgrounds(*keystate).1
                &&& views(after.obstacles@) == before.next_obstacles(*keystate, next)
                &&& after.timeline == before.next_timeline(*keystate, next)
                &&& after.obstacle_sheet == before.obstacle_sheet
                &&& after.stone == before.stone
                &&& after.boy.box_fits()
            }),
    {
        match self {
            WalkTheDog::Loaded(walk) => {
                walk.update_with(keystate, next);
            },
            WalkTheDog::Loading => {},
        }
    }

    /// One tick of a running game, with the next layout picked by a number
    /// from `chance`; a game that has not been loaded stays as it is.
    pub fn update_from<C: Chance>(&mut self, keystate: &KeyState, chance: &mut C)
        requires
            old(self).wf(),
            old(self).in_bounds(),
        ensures
            final(self).wf(),
            *old(self) is Loading ==> *final(self) is Loading,
            *old(self) matches WalkTheDog::Loaded(before) ==> (*final(self) matches WalkTheDog::Loaded(
                after,
            ) && {
                &&& after.boy == before.next_boy(*keystate)
                &&& after.backgrounds[0] == before.next_backgrounds(*keystate).0
                &&& after.backgrounds[1] == before.next_backgrounds(*keystate).1
                &&& exists|next: SegmentKind|
                    views(after.obstacles@) == #[trigger] before.next_obstacles(*keystate, next)
                        && after.timeline == before.next_timeline(*keystate, next)
                &&& after.obstacle_sheet == before.obstacle_sheet
                &&& after.stone == before.stone
                &&& after.boy.box_fits()
            }),
    {
        match self {
            WalkTheDog::Loaded(walk) => {
                walk.update_from(keystate, chance);
            },
            WalkTheDog::Loading => {},
        }
    }

    /// One tick of a running game, with the next layout picked at random; a
    /// game that has not been loaded stays as it is.
    pub fn update(&mut self, keystate: &KeyState)
        requires
            old(self).wf(),
            old(self).in_bounds(),
        ensures
            final(self).wf(),
            *old(self) is Loading ==> *final(self) is Loading,
            *old(self) matches WalkTheDog::Loaded(before) ==> (*final(self) matches WalkTheDog::Loaded(
                after,
            ) && {
                &&& after.boy == before.next_boy(*keystate)
                &&& after.backgrounds[0] == before.next_backgrounds(*keystate).0
                &&& after.backgrounds[1] == before.next_backgrounds(*keystate).1
                &&& exists|next: SegmentKind|
                    views(after.obstacles@) == #[trigger] before.next_obstacles(*keystate, next)
                        && after.timeline == before.next_timeline(*keystate, next)
                &&& after.obstacle_sheet == before.obstacle_sheet
                &&& after.stone == before.stone
                &&& after.boy.box_fits()
            }),
    {
        let mut chance = ThreadChance {  };
        self.update_from(keystate, &mut chance);
    }

    /// The commands that draw the game: the canvas is wiped, and a running
    /// game then draws its world. `MissingFrame` when the character's sheet
    /// lacks the picture that shows it now.
    pub fn draw(&self) -> (commands: Result<Vec<DrawCommand>, GameError>)
        requires
            self.wf(),
            self matches WalkTheDog::Loaded(walk) ==> walk.boy.box_fits(),
        ensures
            self is Loading ==> (commands matches Ok(list) && list@ == seq![
                DrawCommand::Clear(
                    Rect { position: Point { x: 0, y: 0 }, width: WIDTH, height: HEIGHT },
                ),
            ]),
            self matches WalkTheDog::Loaded(walk) ==> match walk.boy.sprite() {
                Some(cell) => commands matches Ok(list) && list@ == seq![
                    DrawCommand::Clear(
                        Rect { position: Point { x: 0, y: 0 }, width: WIDTH, height: HEIGHT },
                    ),
                ] + walk.scene(cell),
                None => commands == Err::<Vec<DrawCommand>, GameError>(GameError::MissingFrame),
            },
    {
        let mut commands: Vec<DrawCommand> = Vec::new();
        commands.push(DrawCommand::Clear(Rect::new_from_x_y(0, 0, WIDTH, HEIGHT)));
        match self {
            WalkTheDog::Loaded(walk) => {
                let mut scene = match walk.draw() {
                    Ok(scene) => scene,
                    Err(error) => {
                        return Err(error);
                    },
                };
                commands.append(&mut scene);
            },
            WalkTheDog::Loading => {},
        }
        Ok(commands)
    }
}

} // verus!
