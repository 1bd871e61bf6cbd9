//! Obstacles: platforms to land on and barriers to avoid.
//!
//! Both kinds can be moved sideways, drawn, asked for their right edge, and
//! asked to settle a collision with the character. What each of these does is
//! written down over the obstacle's view; the executable methods are proved
//! against it.

use crate::engine::{Cell, DrawCommand, GameError, Image, Point, Rect, SpriteSheet};
use crate::game::rhb::{RedHatBoy, RedHatBoyState};
use std::rc::Rc;
use vstd::prelude::*;

verus! {

/// The index of the first rectangle at or after `from` that overlaps
/// `target`, if there is one.
pub open spec fn first_hit(boxes: Seq<Rect>, target: Rect, from: int) -> Option<int>
    decreases boxes.len() - from,
{
    if from < 0 || from >= boxes.len() {
        None
    } else if target.overlaps(boxes[from]) {
        Some(from)
    } else {
        first_hit(boxes, target, from + 1)
    }
}

/// The widths of the cells, added up.
pub open spec fn span(cells: Seq<Cell>) -> int
    decreases cells.len(),
{
    if cells.len() == 0 {
        0
    } else {
        span(cells.drop_last()) + cells.last().frame.w
    }
}

/// A platform as a value: the sheet its pictures come from, its anchor, its
/// bounding boxes in canvas coordinates, left to right, and the cells it is
/// drawn with, left to right.
pub struct PlatformView {
    pub sheet: Rc<SpriteSheet>,
    pub position: Point,
    pub bounding_boxes: Seq<Rect>,
    pub sprites: Seq<Cell>,
}

impl PlatformView {
    /// The right edge of the last bounding box; zero without any box.
    pub open spec fn right_edge(self) -> int {
        if self.bounding_boxes.len() == 0 {
            0
        } else {
            self.bounding_boxes.last().right_edge()
        }
    }

    /// The anchor, the left edge of every box and the platform's right edge
    /// stay representable when the platform moves by `x`.
    pub open spec fn movable(self, x: int) -> bool {
        &&& i16::MIN <= self.position.x + x <= i16::MAX
        &&& forall|i: int|
            0 <= i < self.bounding_boxes.len() ==> i16::MIN <= (
            #[trigger] self.bounding_boxes[i]).position.x + x <= i16::MAX
        &&& i16::MIN <= self.right_edge() + x <= i16::MAX
    }

    /// The platform `x` pixels further right: the anchor and every box move,
    /// nothing else changes.
    pub open spec fn moved(self, x: int) -> PlatformView {
        PlatformView {
            sheet: self.sheet,
            position: Point { x: (self.position.x + x) as i16, y: self.position.y },
            bounding_boxes: Seq::new(
                self.bounding_boxes.len(),
                |i: int| self.bounding_boxes[i].shifted(x),
            ),
            sprites: self.sprites,
        }
    }

    /// The character after the platform has settled a collision with it.
    ///
    /// Without a bounding box, or with one that overlaps no box of the
    /// platform, nothing happens. Otherwise the first overlapping box decides:
    /// a character that is moving down and is above the anchor lands on that
    /// box; any other contact knocks it out, a rising character below the
    /// anchor after its rise was stopped.
    pub open spec fn resolved(self, boy: RedHatBoy) -> RedHatBoy {
        match boy.hitbox() {
            None => boy,
            Some(hitbox) => match first_hit(self.bounding_boxes, hitbox, 0) {
                None => boy,
                Some(i) => if boy.velocity_y > 0 && boy.position.y < self.position.y {
                    boy.after_land_on(self.bounding_boxes[i].position.y)
                } else if boy.velocity_y < 0 && boy.position.y > self.position.y {
                    boy.after_hit_ceiling().after_knock_out()
                } else {
                    boy.after_knock_out()
                },
            },
        }
    }

    /// Where the cell number `k` is drawn: at the anchor's height, as far
    /// right of the anchor as the cells before it are wide.
    pub open spec fn destination(self, k: int) -> Rect {
        Rect {
            position: Point {
                x: (self.position.x + span(self.sprites.take(k))) as i16,
                y: self.position.y,
            },
            width: self.sprites[k].frame.w,
            height: self.sprites[k].frame.h,
        }
    }

    /// Every cell is drawn at a representable x coordinate.
    pub open spec fn drawable(self) -> bool {
        forall|k: int|
            0 <= k < self.sprites.len() ==> i16::MIN <= self.position.x + #[trigger] span(
                self.sprites.take(k),
            ) <= i16::MAX
    }

    /// The commands that draw the platform, one per cell.
    pub open spec fn picture(self) -> Seq<DrawCommand> {
        Seq::new(
            self.sprites.len(),
            |k: int|
                DrawCommand::Image {
                    picture: self.sheet.image.id,
                    source: self.sprites[k].source(),
                    destination: self.destination(k),
                },
        )
    }

    /// The commands that outline the bounding boxes.
    pub open spec fn outlines(self) -> Seq<DrawCommand> {
        Seq::new(self.bounding_boxes.len(), |i: int| DrawCommand::Outline(self.bounding_boxes[i]))
    }

    /// The boxes stand left to right: none reaches further right than the
    /// last one.
    pub open spec fn ordered(self) -> bool {
        forall|i: int|
            0 <= i < self.bounding_boxes.len() ==> (#[trigger] self.bounding_boxes[i]).right_edge()
                <= self.right_edge()
    }
}

/// A surface made of several boxes, drawn with cells of a sprite sheet.
pub struct Platform {
    pub sheet: Rc<SpriteSheet>,
    pub position: Point,
    pub bounding_boxes: Vec<Rect>,
    pub sprites: Vec<Cell>,
}

impl View for Platform {
    type V = PlatformView;

    open spec fn view(&self) -> PlatformView {
        PlatformView {
            sheet: self.sheet,
            position: self.position,
            bounding_boxes: self.bounding_boxes@,
            sprites: self.sprites@,
        }
    }
}

/// The box `rect`, given relative to `origin`, in canvas coordinates.
pub open spec fn placed_at(rect: Rect, origin: Point) -> Rect {
    Rect {
        position: Point {
            x: (rect.position.x + origin.x) as i16,
            y: (rect.position.y + origin.y) as i16,
        },
        width: rect.width,
        height: rect.height,
    }
}

/// The top left corner of `placed_at(rect, origin)` is representable.
pub open spec fn place_fits(rect: Rect, origin: Point) -> bool {
    &&& i16::MIN <= rect.position.x + origin.x <= i16::MAX
    &&& i16::MIN <= rect.position.y + origin.y <= i16::MAX
}

impl Platform {
    /// A platform anchored at `position`, drawn with the cells that `sheet`
    /// holds under `sprite_names`, with the boxes `bounding_boxes`, which are
    /// given relative to the anchor. `MissingFrame` when the sheet lacks one
    /// of the names.
    pub fn new(
        sheet: Rc<SpriteSheet>,
        position: Point,
        sprite_names: &[&str],
        bounding_boxes: &[Rect],
    ) -> (made: Result<Platform, GameError>)
        requires
            sprite_names@.len() == bounding_boxes@.len(),
            forall|i: int|
                0 <= i < bounding_boxes@.len() ==> place_fits(#[trigger] bounding_boxes@[i], position),
            bounding_boxes@.len() > 0 ==> i16::MIN <= bounding_boxes@.last().right_edge()
                + position.x <= i16::MAX,
        ensures
            made is Err <==> exists|i: int|
                0 <= i < sprite_names@.len() && !sheet.has(#[trigger] sprite_names@[i]@),
            made matches Err(error) ==> error == GameError::MissingFrame,
            made matches Ok(platform) ==> {
                &&& platform.wf()
                &&& platform@ == (PlatformView {
                    sheet,
                    position,
                    bounding_boxes: Seq::new(
                        bounding_boxes@.len(),
                        |i: int| placed_at(bounding_boxes@[i], position),
                    ),
                    sprites: Seq::new(
                        sprite_names@.len(),
                        |i: int| sheet.sheet@[sprite_names@[i]@],
                    ),
                })
            },
    {
        let mut sprites: Vec<Cell> = Vec::new();
        let mut i: usize = 0;
        while i < sprite_names.len()
            invariant
                i <= sprite_names@.len(),
                sprites@.len() == i,
                forall|j: int| 0 <= j < i ==> sheet.has(#[trigger] sprite_names@[j]@),
                forall|j: int|
                    0 <= j < i ==> #[trigger] sprites@[j] == sheet.sheet@[sprite_names@[j]@],
            decreases sprite_names@.len() - i,
        {
            match sheet.cell(sprite_names[i]) {
                Some(cell) => {
                    sprites.push(*cell);
                },
                None => {
                    return Err(GameError::MissingFrame);
                },
            }
            i = i + 1;
        }
        let mut boxes: Vec<Rect> = Vec::new();
        let mut k: usize = 0;
        while k < bounding_boxes.len()
            invariant
                k <= bounding_boxes@.len(),
                boxes@.len() == k,
                forall|j: int|
                    0 <= j < bounding_boxes@.len() ==> place_fits(
                        #[trigger] bounding_boxes@[j],
                        position,
                    ),
                forall|j: int|
                    0 <= j < k ==> #[trigger] boxes@[j] == placed_at(bounding_boxes@[j], position),
            decreases bounding_boxes@.len() - k,
        {
            let bounding_box = &bounding_boxes[k];
            boxes.push(
                Rect::new_from_x_y(
                    bounding_box.x() + position.x,
                    bounding_box.y() + position.y,
                    bounding_box.width,
                    bounding_box.height,
                ),
            );
            k = k + 1;
        }
        let platform = Platform { sheet, position, sprites, bounding_boxes: boxes };
        proof {
            assert(platform@.bounding_boxes =~= Seq::new(
                bounding_boxes@.len(),
                |i: int| placed_at(bounding_boxes@[i], position),
            ));
            assert(platform@.sprites =~= Seq::new(
                sprite_names@.len(),
                |i: int| sheet.sheet@[sprite_names@[i]@],
            ));
        }
        Ok(platform)
    }

    pub fn bounding_boxes(&self) -> (boxes: &Vec<Rect>)
        ensures
            boxes@ == self@.bounding_boxes,
    {
        &self.bounding_boxes
    }
}

impl Obstacle for Platform {
    open spec fn model(&self) -> ObstacleView {
        ObstacleView::Platform(self@)
    }

    /// As many boxes as cells, and the right edge of the platform is a
    /// representable coordinate.
    open spec fn wf(&self) -> bool {
        &&& self.bounding_boxes@.len() == self.sprites@.len()
        &&& i16::MIN <= self@.right_edge() <= i16::MAX
    }

    fn check_intersection(&self, boy: &mut RedHatBoy) {
        let hitbox = match boy.bounding_box() {
            Some(rect) => rect,
            None => {
                return ;
            },
        };
        let mut i: usize = 0;
        while i < self.bounding_boxes.len()
            invariant
                i <= self.bounding_boxes@.len(),
                first_hit(self.bounding_boxes@, hitbox, 0) == first_hit(
                    self.bounding_boxes@,
                    hitbox,
                    i as int,
                ),
                *boy == *old(boy),
                boy.wf(),
                boy.hitbox() == Some(hitbox),
            decreases self.bounding_boxes@.len() - i,
        {
            if hitbox.intersects(&self.bounding_boxes[i]) {
                assert(first_hit(self.bounding_boxes@, hitbox, i as int) == Some(i as int));
                let box_to_land_on = self.bounding_boxes[i];
                if boy.velocity_y() > 0 && boy.pos_y() < self.position.y {
                    boy.land_on(box_to_land_on.y());
                } else {
                    if boy.velocity_y() < 0 && boy.pos_y() > self.position.y {
                        boy.hit_ceiling();
                    }
                    boy.knock_out();
                }
                return ;
            }
            i = i + 1;
        }
    }

    /// One command for every cell, from the left.
    fn draw(&self) -> (commands: Vec<DrawCommand>) {
        let mut commands: Vec<DrawCommand> = Vec::new();
        let mut x: i32 = 0;
        let mut k: usize = 0;
        while k < self.sprites.len()
            invariant
                k <= self.sprites@.len(),
                self@.drawable(),
                x == span(self.sprites@.take(k as int)),
                k < self.sprites@.len() ==> -65536 <= x <= 65536,
                commands@.len() == k,
                forall|j: int| 0 <= j < k ==> #[trigger] commands@[j] == self@.picture()[j],
            decreases self.sprites@.len() - k,
        {
            let sprite = &self.sprites[k];
            assert(i16::MIN <= self@.position.x + span(self@.sprites.take(k as int)) <= i16::MAX);
            let left: i32 = self.position.x as i32 + x;
            let source = Rect::new_from_x_y(
                sprite.frame.x,
                sprite.frame.y,
                sprite.frame.w,
                sprite.frame.h,
            );
            let destination = Rect::new_from_x_y(
                left as i16,
                self.position.y,
                sprite.frame.w,
                sprite.frame.h,
            );
            commands.push(self.sheet.draw(&source, &destination));
            proof {
                assert(self.sprites@.take(k + 1).drop_last() =~= self.sprites@.take(k as int));
                assert(span(self@.sprites.take(k + 1)) == x + sprite.frame.w);
                assert(k + 1 < self.sprites@.len() ==> i16::MIN <= self@.position.x + span(
                    self@.sprites.take(k + 1),
                ) <= i16::MAX);
            }
            x = x + sprite.frame.w as i32;
            k = k + 1;
        }
        proof {
            assert(commands@ =~= self@.picture());
        }
        commands
    }

    fn move_horizontally(&mut self, x: i16) {
        proof {
            lemma_move_shifts_boxes(old(self).model(), x as int);
        }
        self.position.x = self.position.x + x;
        let mut i: usize = 0;
        while i < self.bounding_boxes.len()
            invariant
                i <= self.bounding_boxes@.len(),
                self.bounding_boxes@.len() == old(self).bounding_boxes@.len(),
                self.sheet == old(self).sheet,
                self.sprites == old(self).sprites,
                self.position == (Point {
                    x: (old(self).position.x + x) as i16,
                    y: old(self).position.y,
                }),
                old(self)@.movable(x as int),
                forall|j: int|
                    0 <= j < i ==> #[trigger] self.bounding_boxes@[j] == old(
                        self,
                    ).bounding_boxes@[j].shifted(x as int),
                forall|j: int|
                    i <= j < self.bounding_boxes@.len() ==> #[trigger] self.bounding_boxes@[j]
                        == old(self).bounding_boxes@[j],
            decreases self.bounding_boxes@.len() - i,
        {
            assert(old(self)@.bounding_boxes[i as int] == self.bounding_boxes@[i as int]);
            let moved = self.bounding_boxes[i].position.x + x;
            self.bounding_boxes[i].set_x(moved);
            i = i + 1;
        }
        proof {
            assert(self@.bounding_boxes =~= old(self)@.moved(x as int).bounding_boxes);
        }
    }

    fn draw_bounding_box(&self) -> (commands: Vec<DrawCommand>) {
        let mut commands: Vec<DrawCommand> = Vec::new();
        let mut i: usize = 0;
        while i < self.bounding_boxes.len()
            invariant
                i <= self.bounding_boxes@.len(),
                commands@.len() == i,
                forall|j: int|
                    0 <= j < i ==> #[trigger] commands@[j] == DrawCommand::Outline(
                        self.bounding_boxes@[j],
                    ),
            decreases self.bounding_boxes@.len() - i,
        {
            commands.push(DrawCommand::Outline(self.bounding_boxes[i]));
            i = i + 1;
        }
        proof {
            assert(commands@ =~= self@.outlines());
        }
        commands
    }

    /// The right edge of the last box, zero without any.
    fn right(&self) -> (edge: i16) {
        let count = self.bounding_boxes.len();
        if count == 0 {
            0
        } else {
            self.bounding_boxes[count - 1].right()
        }
    }
}

/// A picture that knocks the character out on contact.
#[derive(Clone, Copy, Debug, PartialEq, Eq, Structural)]
pub struct Barrier {
    pub image: Image,
}

impl Barrier {
    pub open spec fn right_edge(self) -> int {
        self.image.bounding_box.right_edge()
    }

    /// Both vertical edges stay representable when the barrier moves by `x`.
    pub open spec fn movable(self, x: int) -> bool {
        &&& i16::MIN <= self.image.bounding_box.position.x + x <= i16::MAX
        &&& i16::MIN <= self.image.bounding_box.right_edge() + x <= i16::MAX
    }

    pub open spec fn moved(self, x: int) -> Barrier {
        Barrier { image: self.image.moved(x) }
    }

    /// The character after the barrier has settled a collision with it:
    /// knocked out if its bounding box overlaps the picture, unchanged if not.
    pub open spec fn resolved(self, boy: RedHatBoy) -> RedHatBoy {
        match boy.hitbox() {
            Some(hitbox) => if hitbox.overlaps(self.image.bounding_box) {
                boy.after_knock_out()
            } else {
                boy
            },
            None => boy,
        }
    }

    pub fn new(image: Image) -> (barrier: Barrier)
        ensures
            barrier.image == image,
    {
        Barrier { image }
    }
}

impl Obstacle for Barrier {
    open spec fn model(&self) -> ObstacleView {
        ObstacleView::Barrier(*self)
    }

    /// The right edge of the picture is a representable coordinate.
    open spec fn wf(&self) -> bool {
        i16::MIN <= self.image.bounding_box.right_edge() <= i16::MAX
    }

    fn check_intersection(&self, boy: &mut RedHatBoy) {
        match boy.bounding_box() {
            Some(hitbox) => {
                if hitbox.intersects(self.image.bounding_box()) {
                    boy.knock_out();
                }
            },
            None => {},
        }
    }

    fn draw(&self) -> (commands: Vec<DrawCommand>) {
        let mut commands: Vec<DrawCommand> = Vec::new();
        commands.push(self.image.draw());
        proof {
            assert(commands@ =~= self.model().picture());
        }
        commands
    }

    fn move_horizontally(&mut self, x: i16) {
        proof {
            lemma_move_shifts_boxes(old(self).model(), x as int);
        }
        self.image.move_horizontally(x);
    }

    fn draw_bounding_box(&self) -> (commands: Vec<DrawCommand>) {
        let mut commands: Vec<DrawCommand> = Vec::new();
        commands.push(self.image.draw_bounding_box());
        proof {
            assert(commands@ =~= self.model().outlines());
        }
        commands
    }

    fn right(&self) -> (edge: i16) {
        self.image.right()
    }
}

/// Either kind of obstacle as a value.
pub enum ObstacleView {
    Platform(PlatformView),
    Barrier(Barrier),
}

impl ObstacleView {
    /// The rectangles that count for collisions.
    pub open spec fn boxes(self) -> Seq<Rect> {
        match self {
            ObstacleView::Platform(platform) => platform.bounding_boxes,
            ObstacleView::Barrier(barrier) => seq![barrier.image.bounding_box],
        }
    }

    /// The x coordinate that the obstacle reports as its right edge.
    pub open spec fn right_edge(self) -> int {
        match self {
            ObstacleView::Platform(platform) => platform.right_edge(),
            ObstacleView::Barrier(barrier) => barrier.right_edge(),
        }
    }

    /// The obstacle stays representable when it moves by `x`.
    pub open spec fn movable(self, x: int) -> bool {
        match self {
            ObstacleView::Platform(platform) => platform.movable(x),
            ObstacleView::Barrier(barrier) => barrier.movable(x),
        }
    }

    /// The obstacle `x` pixels further right.
    pub open spec fn moved(self, x: int) -> ObstacleView {
        match self {
            ObstacleView::Platform(platform) => ObstacleView::Platform(platform.moved(x)),
            ObstacleView::Barrier(barrier) => ObstacleView::Barrier(barrier.moved(x)),
        }
    }

    /// The character after the obstacle has settled a collision with it.
    pub open spec fn resolved(self, boy: RedHatBoy) -> RedHatBoy {
        match self {
            ObstacleView::Platform(platform) => platform.resolved(boy),
            ObstacleView::Barrier(barrier) => barrier.resolved(boy),
        }
    }

    /// Every picture of the obstacle is drawn at a representable place.
    pub open spec fn drawable(self) -> bool {
        match self {
            ObstacleView::Platform(platform) => platform.drawable(),
            ObstacleView::Barrier(_) => true,
        }
    }

    /// The commands that draw the obstacle.
    pub open spec fn picture(self) -> Seq<DrawCommand> {
        match self {
            ObstacleView::Platform(platform) => platform.picture(),
            ObstacleView::Barrier(barrier) => seq![barrier.image.picture()],
        }
    }

    /// The commands that outline the obstacle's boxes.
    pub open spec fn outlines(self) -> Seq<DrawCommand> {
        Seq::new(self.boxes().len(), |i: int| DrawCommand::Outline(self.boxes()[i]))
    }
}

/// What every obstacle can do.
///
/// An obstacle stands for a value, its `model`; what each method does is said
/// over that value.
pub trait Obstacle {
    /// The obstacle as a value.
    spec fn model(&self) -> ObstacleView;

    /// What the obstacle's own methods need of it and keep.
    spec fn wf(&self) -> bool;

    /// Settles a collision with the character.
    fn check_intersection(&self, boy: &mut RedHatBoy)
        requires
            old(boy).wf(),
            old(boy).box_fits(),
        ensures
            final(boy).wf(),
            *final(boy) == self.model().resolved(*old(boy)),
    ;

    /// The commands that draw the obstacle.
    fn draw(&self) -> (commands: Vec<DrawCommand>)
        requires
            self.model().drawable(),
        ensures
            commands@ == self.model().picture(),
    ;

    /// Moves the obstacle `x` pixels to the right: every box of it moves by
    /// exactly `x`, and with it the right edge of every obstacle that has a
    /// box.
    fn move_horizontally(&mut self, x: i16)
        requires
            old(self).wf(),
            old(self).model().movable(x as int),
        ensures
            final(self).wf(),
            final(self).model() == old(self).model().moved(x as int),
            final(self).model().boxes().len() == old(self).model().boxes().len(),
            forall|i: int|
                0 <= i < old(self).model().boxes().len() ==> {
                    &&& (#[trigger] final(self).model().boxes()[i]).position.x == old(
                        self,
                    ).model().boxes()[i].position.x + x
                    &&& final(self).model().boxes()[i].position.y == old(
                        self,
                    ).model().boxes()[i].position.y
                    &&& final(self).model().boxes()[i].width == old(self).model().boxes()[i].width
                    &&& final(self).model().boxes()[i].height == old(
                        self,
                    ).model().boxes()[i].height
                },
            old(self).model().boxes().len() > 0 ==> final(self).model().right_edge() == old(
                self,
            ).model().right_edge() + x,
    ;

    /// The commands that outline the obstacle's boxes.
    fn draw_bounding_box(&self) -> (commands: Vec<DrawCommand>)
        ensures
            commands@ == self.model().outlines(),
    ;

    /// The obstacle's right edge.
    fn right(&self) -> (edge: i16)
        requires
            self.wf(),
        ensures
            edge == self.model().right_edge(),
    ;
}

/// Something in the character's way: a platform or a barrier.
pub enum AnyObstacle {
    Platform(Platform),
    Barrier(Barrier),
}

impl View for AnyObstacle {
    type V = ObstacleView;

    open spec fn view(&self) -> ObstacleView {
        match self {
            AnyObstacle::Platform(platform) => ObstacleView::Platform(platform@),
            AnyObstacle::Barrier(barrier) => ObstacleView::Barrier(*barrier),
        }
    }
}

impl Obstacle for AnyObstacle {
    open spec fn model(&self) -> ObstacleView {
        self@
    }

    open spec fn wf(&self) -> bool {
        match self {
            AnyObstacle::Platform(platform) => platform.wf(),
            AnyObstacle::Barrier(barrier) => barrier.wf(),
        }
    }

    fn check_intersection(&self, boy: &mut RedHatBoy) {
        match self {
            AnyObstacle::Platform(platform) => platform.check_intersection(boy),
            AnyObstacle::Barrier(barrier) => barrier.check_intersection(boy),
        }
    }

    fn draw(&self) -> (commands: Vec<DrawCommand>) {
        match self {
            AnyObstacle::Platform(platform) => platform.draw(),
            AnyObstacle::Barrier(barrier) => barrier.draw(),
        }
    }

    fn move_horizontally(&mut self, x: i16) {
        match self {
            AnyObstacle::Platform(platform) => platform.move_horizontally(x),
            AnyObstacle::Barrier(barrier) => barrier.move_horizontally(x),
        }
    }

    fn draw_bounding_box(&self) -> (commands: Vec<DrawCommand>) {
        match self {
            AnyObstacle::Platform(platform) => platform.draw_bounding_box(),
            AnyObstacle::Barrier(barrier) => barrier.draw_bounding_box(),
        }
    }

    fn right(&self) -> (edge: i16) {
        match self {
            AnyObstacle::Platform(platform) => platform.right(),
            AnyObstacle::Barrier(barrier) => barrier.right(),
        }
    }
}

/// The obstacles of a list as values, in the list's order.
pub open spec fn views(obstacles: Seq<AnyObstacle>) -> Seq<ObstacleView> {
    Seq::new(obstacles.len(), |i: int| obstacles[i]@)
}

/// Moving an obstacle by `x` moves every one of its boxes by exactly `x` and
/// leaves their number, heights and sizes alone; if the obstacle has a box at
/// all, its right edge moves by exactly `x` too. (A platform without boxes
/// reports zero as its right edge wherever it stands.)
pub proof fn lemma_move_shifts_boxes(obstacle: ObstacleView, x: int)
    requires
        obstacle.movable(x),
    ensures
        obstacle.moved(x).boxes().len() == obstacle.boxes().len(),
        forall|i: int|
            0 <= i < obstacle.boxes().len() ==> {
                &&& (#[trigger] obstacle.moved(x).boxes()[i]).position.x
                    == obstacle.boxes()[i].position.x + x
                &&& obstacle.moved(x).boxes()[i].position.y == obstacle.boxes()[i].position.y
                &&& obstacle.moved(x).boxes()[i].width == obstacle.boxes()[i].width
                &&& obstacle.moved(x).boxes()[i].height == obstacle.boxes()[i].height
            },
        obstacle.boxes().len() > 0 ==> obstacle.moved(x).right_edge() == obstacle.right_edge() + x,
{
    match obstacle {
        ObstacleView::Platform(platform) => {
            assert forall|i: int| 0 <= i < platform.bounding_boxes.len() implies (
            #[trigger] platform.moved(x).bounding_boxes[i]).position.x
                == platform.bounding_boxes[i].position.x + x by {
                assert(i16::MIN <= platform.bounding_boxes[i].position.x + x <= i16::MAX);
            }
        },
        ObstacleView::Barrier(barrier) => {},
    }
}

/// An obstacle leaves a well-formed character well formed.
pub proof fn lemma_resolved_keeps_wf(obstacle: ObstacleView, boy: RedHatBoy)
    requires
        boy.wf(),
    ensures
        obstacle.resolved(boy).wf(),
{
}

/// The right edge that an obstacle reports is the greatest right edge of its
/// boxes, for a barrier always and for a platform if its boxes stand left to
/// right and there is at least one.
pub proof fn lemma_right_edge_is_greatest(obstacle: ObstacleView)
    requires
        obstacle matches ObstacleView::Platform(platform) ==> platform.ordered()
            && platform.bounding_boxes.len() > 0,
    ensures
        forall|i: int|
            0 <= i < obstacle.boxes().len() ==> (#[trigger] obstacle.boxes()[i]).right_edge()
                <= obstacle.right_edge(),
        exists|i: int|
            0 <= i < obstacle.boxes().len() && (#[trigger] obstacle.boxes()[i]).right_edge()
                == obstacle.right_edge(),
{
    let last = obstacle.boxes().len() - 1;
    assert(obstacle.boxes()[last].right_edge() == obstacle.right_edge());
}

/// What `first_hit` finds is the index of a box.
pub proof fn lemma_first_hit_in_range(boxes: Seq<Rect>, target: Rect, from: int)
    requires
        0 <= from,
    ensures
        first_hit(boxes, target, from) matches Some(k) ==> from <= k < boxes.len()
            && target.overlaps(boxes[k]),
    decreases boxes.len() - from,
{
    if from < boxes.len() && !target.overlaps(boxes[from]) {
        lemma_first_hit_in_range(boxes, target, from + 1);
    }
}

/// If `target` overlaps any of the boxes from `from` on, `first_hit` finds
/// the first such box.
pub proof fn lemma_first_hit(boxes: Seq<Rect>, target: Rect, from: int, witness: int)
    requires
        0 <= from <= witness < boxes.len(),
        target.overlaps(boxes[witness]),
    ensures
        first_hit(boxes, target, from) matches Some(k) && from <= k <= witness && target.overlaps(
            boxes[k],
        ) && forall|j: int| from <= j < k ==> !target.overlaps(#[trigger] boxes[j]),
    decreases witness - from,
{
    if !target.overlaps(boxes[from]) {
        lemma_first_hit(boxes, target, from + 1, witness);
    }
}

/// A character that moves down, is above the platform's anchor and overlaps
/// one of the platform's boxes lands: it ends up running, at rest, at the
/// height of the first box that it overlaps.
pub proof fn lemma_descent_onto_platform_lands(platform: PlatformView, boy: RedHatBoy, i: int)
    requires
        boy.wf(),
        boy.velocity_y > 0,
        boy.position.y < platform.position.y,
        0 <= i < platform.bounding_boxes.len(),
        boy.hitbox() matches Some(hitbox) && hitbox.overlaps(platform.bounding_boxes[i]),
    ensures
        first_hit(platform.bounding_boxes, boy.hitbox().unwrap(), 0) matches Some(k) && k <= i
            && platform.resolved(boy).position.y == platform.bounding_boxes[k].position.y,
        platform.resolved(boy).velocity_y == 0,
        platform.resolved(boy).state == RedHatBoyState::Running,
{
    lemma_first_hit(platform.bounding_boxes, boy.hitbox().unwrap(), 0, i);
}

/// A character whose bounding box overlaps a barrier is knocked out, whatever
/// its velocity.
pub proof fn lemma_barrier_contact_knocks_out(barrier: Barrier, boy: RedHatBoy)
    requires
        boy.hitbox() matches Some(hitbox) && hitbox.overlaps(barrier.image.bounding_box),
    ensures
        barrier.resolved(boy).state == RedHatBoyState::KnockedOut,
{
}

/// Any contact with a platform but a descent from above its anchor knocks the
/// character out: landing is the only contact that is not fatal.
pub proof fn lemma_platform_contact_lands_or_knocks_out(platform: PlatformView, boy: RedHatBoy, i: int)
    requires
        0 <= i < platform.bounding_boxes.len(),
        boy.hitbox() matches Some(hitbox) && hitbox.overlaps(platform.bounding_boxes[i]),
        !(boy.velocity_y > 0 && boy.position.y < platform.position.y),
    ensures
        platform.resolved(boy).state == RedHatBoyState::KnockedOut,
{
    lemma_first_hit(platform.bounding_boxes, boy.hitbox().unwrap(), 0, i);
}

} // verus!
