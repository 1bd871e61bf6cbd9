//! The character: a small state machine with vertical physics.
//!
//! The character never moves sideways by itself; the world scrolls past it.
//! Every operation is a function from one character to the next, written
//! down as a spec function (`after_jump`, `advanced`, ...) that the
//! executable method is proved to compute.

use crate::engine::{Cell, DrawCommand, GameError, Point, Rect, SpriteSheet, CELL_LIMIT};
use vstd::prelude::*;
use vstd::string::StringExecFns;

verus! {

/// Ticks in one cycle of each animation.
pub const IDLE_FRAMES: u8 = 30;

pub const RUNNING_FRAMES: u8 = 24;

pub const SLIDING_FRAMES: u8 = 15;

pub const JUMPING_FRAMES: u8 = 36;

pub const FALLING_FRAMES: u8 = 36;

pub const KNOCKED_OUT_FRAMES: u8 = 30;

/// Ticks for which one picture of an animation is shown.
pub const TICKS_PER_SPRITE: u8 = 3;

/// Pixels per tick that the world scrolls while the character runs.
pub const RUNNING_SPEED: i16 = 5;

/// Vertical velocity at take-off; negative is upwards.
pub const JUMP_SPEED: i16 = -25;

/// Added to the vertical velocity on every airborne tick.
pub const GRAVITY: i16 = 1;

/// The vertical velocity never exceeds this.
pub const TERMINAL_VELOCITY: i16 = 20;

/// How far the bounding box is inset from the drawn sprite.
pub const X_OFFSET: i16 = 18;

pub const Y_OFFSET: i16 = 14;

pub const WIDTH_OFFSET: i16 = 28;

/// What the character is doing.
#[derive(Clone, Copy, Debug, PartialEq, Eq, Structural)]
pub enum RedHatBoyState {
    Idle,
    Running,
    Sliding,
    Jumping,
    Falling,
    KnockedOut,
}

impl RedHatBoyState {
    /// Ticks in one cycle of the state's animation.
    pub open spec fn frames(self) -> int {
        match self {
            RedHatBoyState::Idle => IDLE_FRAMES as int,
            RedHatBoyState::Running => RUNNING_FRAMES as int,
            RedHatBoyState::Sliding => SLIDING_FRAMES as int,
            RedHatBoyState::Jumping => JUMPING_FRAMES as int,
            RedHatBoyState::Falling => FALLING_FRAMES as int,
            RedHatBoyState::KnockedOut => KNOCKED_OUT_FRAMES as int,
        }
    }

    /// In the air: gravity acts in these states and in no other.
    pub open spec fn airborne(self) -> bool {
        self == RedHatBoyState::Jumping || self == RedHatBoyState::Falling
    }

    /// The name under which the sprite sheet files the state's pictures.
    pub open spec fn sprite_name(self) -> Seq<char> {
        match self {
            RedHatBoyState::Idle => "Idle"@,
            RedHatBoyState::Running => "Run"@,
            RedHatBoyState::Sliding => "Slide"@,
            RedHatBoyState::Jumping => "Jump"@,
            RedHatBoyState::Falling => "Jump"@,
            RedHatBoyState::KnockedOut => "Dead"@,
        }
    }

    pub fn frame_count(&self) -> (count: u8)
        ensures
            count == self.frames(),
    {
        match self {
            RedHatBoyState::Idle => IDLE_FRAMES,
            RedHatBoyState::Running => RUNNING_FRAMES,
            RedHatBoyState::Sliding => SLIDING_FRAMES,
            RedHatBoyState::Jumping => JUMPING_FRAMES,
            RedHatBoyState::Falling => FALLING_FRAMES,
            RedHatBoyState::KnockedOut => KNOCKED_OUT_FRAMES,
        }
    }

    pub fn is_airborne(&self) -> (airborne: bool)
        ensures
            airborne == self.airborne(),
    {
        match self {
            RedHatBoyState::Jumping => true,
            RedHatBoyState::Falling => true,
            _ => false,
        }
    }

    pub fn frame_name(&self) -> (name: &'static str)
        ensures
            name@ == self.sprite_name(),
    {
        match self {
            RedHatBoyState::Idle => "Idle",
            RedHatBoyState::Running => "Run",
            RedHatBoyState::Sliding => "Slide",
            RedHatBoyState::Jumping => "Jump",
            RedHatBoyState::Falling => "Jump",
            RedHatBoyState::KnockedOut => "Dead",
        }
    }
}

/// One decimal digit as text.
pub open spec fn digit(d: int) -> Seq<char> {
    if d == 0 {
        "0"@
    } else if d == 1 {
        "1"@
    } else if d == 2 {
        "2"@
    } else if d == 3 {
        "3"@
    } else if d == 4 {
        "4"@
    } else if d == 5 {
        "5"@
    } else if d == 6 {
        "6"@
    } else if d == 7 {
        "7"@
    } else if d == 8 {
        "8"@
    } else {
        "9"@
    }
}

/// A number below one hundred in decimal, without leading zero.
pub open spec fn decimal(n: int) -> Seq<char> {
    if n < 10 {
        digit(n)
    } else {
        digit(n / 10) + digit(n % 10)
    }
}

/// The name of the picture that shows `frame` of the animation `animation`:
/// the animation's name, then the picture's number, counted from one, in
/// brackets, then `.png`.
pub open spec fn sprite_file(animation: Seq<char>, frame: int) -> Seq<char> {
    animation + " ("@ + decimal(frame / (TICKS_PER_SPRITE as int) + 1) + ").png"@
}

fn digit_text(d: u8) -> (text: &'static str)
    requires
        d < 10,
    ensures
        text@ == digit(d as int),
{
    if d == 0 {
        "0"
    } else if d == 1 {
        "1"
    } else if d == 2 {
        "2"
    } else if d == 3 {
        "3"
    } else if d == 4 {
        "4"
    } else if d == 5 {
        "5"
    } else if d == 6 {
        "6"
    } else if d == 7 {
        "7"
    } else if d == 8 {
        "8"
    } else {
        "9"
    }
}

fn append_decimal(text: &mut String, n: u8)
    requires
        n < 100,
    ensures
        final(text)@ == old(text)@ + decimal(n as int),
{
    if n < 10 {
        text.append(digit_text(n));
    } else {
        text.append(digit_text(n / 10));
        text.append(digit_text(n % 10));
    }
}

/// The character: where it is, how fast it moves up or down, what it is
/// doing, and how far it is into the animation of that.
pub struct RedHatBoy {
    pub state: RedHatBoyState,
    /// Ticks since the current animation cycle began.
    pub frame: u8,
    pub position: Point,
    /// Pixels per tick downwards; negative while rising.
    pub velocity_y: i16,
    pub sprite_sheet: SpriteSheet,
}

impl RedHatBoy {
    /// What every character that the operations below produce satisfies: the
    /// frame counter lies within the animation of its state, the vertical
    /// velocity is zero on the ground and after a knock-out, not positive
    /// while jumping and not negative while falling, and the sprite sheet is
    /// well formed.
    pub open spec fn wf(&self) -> bool {
        &&& self.frame < self.state.frames()
        &&& self.sprite_sheet.wf()
        &&& match self.state {
            RedHatBoyState::Jumping => JUMP_SPEED <= self.velocity_y <= 0,
            RedHatBoyState::Falling => 0 <= self.velocity_y <= TERMINAL_VELOCITY,
            _ => self.velocity_y == 0,
        }
    }

    /// The frame counter one tick on, starting over at the end of the cycle.
    pub open spec fn next_frame(self) -> u8 {
        if self.frame + 1 < self.state.frames() {
            (self.frame + 1) as u8
        } else {
            0
        }
    }

    /// The vertical velocity one airborne tick on: gravity added, capped at
    /// the terminal velocity.
    pub open spec fn next_velocity(self) -> int {
        if self.velocity_y + GRAVITY < TERMINAL_VELOCITY {
            self.velocity_y + GRAVITY
        } else {
            TERMINAL_VELOCITY as int
        }
    }

    /// The tick's vertical move keeps the position representable.
    pub open spec fn can_advance(self) -> bool {
        self.state.airborne() ==> i16::MIN <= self.position.y + self.next_velocity() <= i16::MAX
    }

    /// `Idle` to `Running`; any other character stays as it is.
    pub open spec fn after_run_right(self) -> RedHatBoy {
        if self.state == RedHatBoyState::Idle {
            RedHatBoy { state: RedHatBoyState::Running, frame: 0, ..self }
        } else {
            self
        }
    }

    /// `Running` to `Sliding`; any other character stays as it is.
    pub open spec fn after_slide(self) -> RedHatBoy {
        if self.state == RedHatBoyState::Running {
            RedHatBoy { state: RedHatBoyState::Sliding, frame: 0, ..self }
        } else {
            self
        }
    }

    /// `Running` to `Jumping`, upwards at `JUMP_SPEED`; any other character
    /// stays as it is.
    pub open spec fn after_jump(self) -> RedHatBoy {
        if self.state == RedHatBoyState::Running {
            RedHatBoy { state: RedHatBoyState::Jumping, frame: 0, velocity_y: JUMP_SPEED, ..self }
        } else {
            self
        }
    }

    /// The character one tick on.
    ///
    /// On the ground and after a knock-out only the animation advances; a
    /// slide that has shown its last frame ends in `Running`. In the air the
    /// velocity takes up gravity first and the position then moves by the new
    /// velocity; a jump whose velocity is no longer negative becomes a fall.
    pub open spec fn advanced(self) -> RedHatBoy {
        match self.state {
            RedHatBoyState::Sliding => if self.frame + 1 < SLIDING_FRAMES {
                RedHatBoy { frame: (self.frame + 1) as u8, ..self }
            } else {
                RedHatBoy { state: RedHatBoyState::Running, frame: 0, ..self }
            },
            RedHatBoyState::Jumping => {
                let velocity = self.next_velocity();
                let position = Point {
                    x: self.position.x,
                    y: (self.position.y + velocity) as i16,
                };
                if velocity >= 0 {
                    RedHatBoy {
                        state: RedHatBoyState::Falling,
                        frame: 0,
                        position,
                        velocity_y: velocity as i16,
                        ..self
                    }
                } else {
                    RedHatBoy {
                        frame: self.next_frame(),
                        position,
                        velocity_y: velocity as i16,
                        ..self
                    }
                }
            },
            RedHatBoyState::Falling => {
                let velocity = self.next_velocity();
                RedHatBoy {
                    frame: self.next_frame(),
                    position: Point { x: self.position.x, y: (self.position.y + velocity) as i16 },
                    velocity_y: velocity as i16,
                    ..self
                }
            },
            _ => RedHatBoy { frame: self.next_frame(), ..self },
        }
    }

    /// Landed on a surface at height `y`: the position snaps to it and the
    /// vertical velocity is gone; from the air the character goes on running.
    /// A knocked-out character stays as it is.
    pub open spec fn after_land_on(self, y: i16) -> RedHatBoy {
        let position = Point { x: self.position.x, y };
        match self.state {
            RedHatBoyState::KnockedOut => self,
            RedHatBoyState::Jumping | RedHatBoyState::Falling => RedHatBoy {
                state: RedHatBoyState::Running,
                frame: 0,
                position,
                velocity_y: 0,
                ..self
            },
            _ => RedHatBoy { position, velocity_y: 0, ..self },
        }
    }

    /// The vertical motion stopped; the state stays.
    pub open spec fn after_hit_ceiling(self) -> RedHatBoy {
        RedHatBoy { velocity_y: 0, ..self }
    }

    /// Knocked out, for good: nothing changes a character that already is.
    pub open spec fn after_knock_out(self) -> RedHatBoy {
        if self.state == RedHatBoyState::KnockedOut {
            self
        } else {
            RedHatBoy { state: RedHatBoyState::KnockedOut, frame: 0, velocity_y: 0, ..self }
        }
    }

    /// The speed at which the world scrolls past: the running speed from the
    /// first step to the knock-out, nothing before and after.
    pub open spec fn speed(self) -> int {
        if self.state == RedHatBoyState::Idle || self.state == RedHatBoyState::KnockedOut {
            0
        } else {
            RUNNING_SPEED as int
        }
    }

    /// The name of the picture that shows the character now.
    pub open spec fn sprite_name(self) -> Seq<char> {
        sprite_file(self.state.sprite_name(), self.frame as int)
    }

    /// The cell that shows the character now, if its sheet has it.
    pub open spec fn sprite(self) -> Option<Cell> {
        if self.sprite_sheet.has(self.sprite_name()) {
            Some(self.sprite_sheet.sheet@[self.sprite_name()])
        } else {
            None
        }
    }

    /// Where `cell` is drawn for a character at this position.
    pub open spec fn placed(self, cell: Cell) -> Rect {
        Rect {
            position: Point {
                x: (self.position.x + cell.sprite_source_size.x) as i16,
                y: (self.position.y + cell.sprite_source_size.y) as i16,
            },
            width: cell.frame.w,
            height: cell.frame.h,
        }
    }

    /// The part of `placed(cell)` that counts for collisions.
    pub open spec fn inset(self, cell: Cell) -> Rect {
        Rect {
            position: Point {
                x: (self.position.x + cell.sprite_source_size.x + X_OFFSET) as i16,
                y: (self.position.y + cell.sprite_source_size.y + Y_OFFSET) as i16,
            },
            width: (cell.frame.w - WIDTH_OFFSET) as i16,
            height: (cell.frame.h - Y_OFFSET) as i16,
        }
    }

    /// The bounding box; none while the sheet lacks the current picture.
    pub open spec fn hitbox(self) -> Option<Rect> {
        match self.sprite() {
            Some(cell) => Some(self.inset(cell)),
            None => None,
        }
    }

    /// The corners of the drawn sprite and of the bounding box are
    /// representable coordinates.
    pub open spec fn box_fits(self) -> bool {
        self.sprite() matches Some(cell) ==> {
            &&& i16::MIN <= self.position.x + cell.sprite_source_size.x
            &&& self.position.x + cell.sprite_source_size.x + X_OFFSET <= i16::MAX
            &&& i16::MIN <= self.position.y + cell.sprite_source_size.y
            &&& self.position.y + cell.sprite_source_size.y + Y_OFFSET <= i16::MAX
            &&& i16::MIN <= cell.frame.w - WIDTH_OFFSET
            &&& i16::MIN <= cell.frame.h - Y_OFFSET
        }
    }

    /// Neither coordinate of the position is further than `limit` from zero.
    pub open spec fn within(self, limit: int) -> bool {
        &&& -limit <= self.position.x <= limit
        &&& -limit <= self.position.y <= limit
    }

    /// A character standing idle at `position`.
    pub fn new(sprite_sheet: SpriteSheet, position: Point) -> (boy: RedHatBoy)
        requires
            sprite_sheet.wf(),
        ensures
            boy.wf(),
            boy == (RedHatBoy {
                state: RedHatBoyState::Idle,
                frame: 0,
                position,
                velocity_y: 0,
                sprite_sheet,
            }),
    {
        RedHatBoy { state: RedHatBoyState::Idle, frame: 0, position, velocity_y: 0, sprite_sheet }
    }

    /// `Idle` to `Running`; ignored in every other state.
    pub fn run_right(&mut self)
        requires
            old(self).wf(),
        ensures
            final(self).wf(),
            *final(self) == old(self).after_run_right(),
    {
        if self.state == RedHatBoyState::Idle {
            self.state = RedHatBoyState::Running;
            self.frame = 0;
        }
    }

    /// `Running` to `Sliding`; ignored in every other state.
    pub fn slide(&mut self)
        requires
            old(self).wf(),
        ensures
            final(self).wf(),
            *final(self) == old(self).after_slide(),
    {
        if self.state == RedHatBoyState::Running {
            self.state = RedHatBoyState::Sliding;
            self.frame = 0;
        }
    }

    /// `Running` to `Jumping`, taking off at `JUMP_SPEED`; ignored in every
    /// other state.
    pub fn jump(&mut self)
        requires
            old(self).wf(),
        ensures
            final(self).wf(),
            *final(self) == old(self).after_jump(),
    {
        if self.state == RedHatBoyState::Running {
            self.state = RedHatBoyState::Jumping;
            self.frame = 0;
            self.velocity_y = JUMP_SPEED;
        }
    }

    /// Advances the character by one tick.
    pub fn update(&mut self)
        requires
            old(self).wf(),
            old(self).can_advance(),
        ensures
            final(self).wf(),
            *final(self) == old(self).advanced(),
    {
        let next_frame: u8 = if self.frame + 1 < self.state.frame_count() {
            self.frame + 1
        } else {
            0
        };
        match self.state {
            RedHatBoyState::Sliding => {
                if next_frame == 0 {
                    self.state = RedHatBoyState::Running;
                }
                self.frame = next_frame;
            },
            RedHatBoyState::Jumping => {
                self.fall();
                if self.velocity_y >= 0 {
                    self.state = RedHatBoyState::Falling;
                    self.frame = 0;
                } else {
                    self.frame = next_frame;
                }
            },
            RedHatBoyState::Falling => {
                self.fall();
                self.frame = next_frame;
            },
            _ => {
                self.frame = next_frame;
            },
        }
    }

    /// One tick of gravity: the velocity first, then the position.
    fn fall(&mut self)
        requires
            JUMP_SPEED <= old(self).velocity_y <= TERMINAL_VELOCITY,
            i16::MIN <= old(self).position.y + old(self).next_velocity() <= i16::MAX,
        ensures
            *final(self) == (RedHatBoy {
                velocity_y: old(self).next_velocity() as i16,
                position: Point {
                    x: old(self).position.x,
                    y: (old(self).position.y + old(self).next_velocity()) as i16,
                },
                ..*old(self)
            }),
    {
        if self.velocity_y + GRAVITY < TERMINAL_VELOCITY {
            self.velocity_y = self.velocity_y + GRAVITY;
        } else {
            self.velocity_y = TERMINAL_VELOCITY;
        }
        self.position.y = self.position.y + self.velocity_y;
    }

    /// Puts the character on a surface at height `position`.
    pub fn land_on(&mut self, position: i16)
        requires
            old(self).wf(),
        ensures
            final(self).wf(),
            *final(self) == old(self).after_land_on(position),
    {
        match self.state {
            RedHatBoyState::KnockedOut => {},
            RedHatBoyState::Jumping | RedHatBoyState::Falling => {
                self.state = RedHatBoyState::Running;
                self.frame = 0;
                self.position.y = position;
                self.velocity_y = 0;
            },
            _ => {
                self.position.y = position;
                self.velocity_y = 0;
            },
        }
    }

    /// Stops the vertical motion; the state stays.
    pub fn hit_ceiling(&mut self)
        requires
            old(self).wf(),
        ensures
            final(self).wf(),
            *final(self) == old(self).after_hit_ceiling(),
    {
        self.velocity_y = 0;
    }

    /// Knocks the character out.
    pub fn knock_out(&mut self)
        requires
            old(self).wf(),
        ensures
            final(self).wf(),
            *final(self) == old(self).after_knock_out(),
    {
        if self.state != RedHatBoyState::KnockedOut {
            self.state = RedHatBoyState::KnockedOut;
            self.frame = 0;
            self.velocity_y = 0;
        }
    }

    pub fn state(&self) -> (state: RedHatBoyState)
        ensures
            state == self.state,
    {
        self.state
    }

    pub fn position(&self) -> (position: Point)
        ensures
            position == self.position,
    {
        self.position
    }

    pub fn pos_y(&self) -> (y: i16)
        ensures
            y == self.position.y,
    {
        self.position.y
    }

    pub fn velocity_y(&self) -> (velocity: i16)
        ensures
            velocity == self.velocity_y,
    {
        self.velocity_y
    }

    pub fn walking_speed(&self) -> (speed: i16)
        ensures
            speed == self.speed(),
    {
        match self.state {
            RedHatBoyState::Idle => 0,
            RedHatBoyState::KnockedOut => 0,
            _ => RUNNING_SPEED,
        }
    }

    /// The name of the picture that shows the character now.
    pub fn frame_name(&self) -> (name: String)
        ensures
            name@ == self.sprite_name(),
    {
        let mut name = String::from_str(self.state.frame_name());
        name.append(" (");
        append_decimal(&mut name, self.frame / TICKS_PER_SPRITE + 1);
        name.append(").png");
        name
    }

    /// The cell that shows the character now, if its sheet has it.
    pub fn current_sprite(&self) -> (cell: Option<&Cell>)
        ensures
            cell == (match self.sprite() {
                Some(found) => Some(&found),
                None => None,
            }),
    {
        let name = self.frame_name();
        self.sprite_sheet.cell(name.as_str())
    }

    /// Where the current picture is drawn; `MissingFrame` when the sheet does
    /// not have it.
    pub fn destination_box(&self) -> (placed: Result<Rect, GameError>)
        requires
            self.box_fits(),
        ensures
            placed == (match self.sprite() {
                Some(cell) => Ok::<Rect, GameError>(self.placed(cell)),
                None => Err::<Rect, GameError>(GameError::MissingFrame),
            }),
    {
        match self.current_sprite() {
            Some(sprite) => Ok(
                Rect::new_from_x_y(
                    self.position.x + sprite.sprite_source_size.x,
                    self.position.y + sprite.sprite_source_size.y,
                    sprite.frame.w,
                    sprite.frame.h,
                ),
            ),
            None => Err(GameError::MissingFrame),
        }
    }

    /// The bounding box: the drawn sprite, inset on three sides. None when the
    /// sheet does not have the current picture.
    pub fn bounding_box(&self) -> (rect: Option<Rect>)
        requires
            self.box_fits(),
        ensures
            rect == self.hitbox(),
    {
        match self.current_sprite() {
            Some(sprite) => Some(
                Rect::new_from_x_y(
                    self.position.x + sprite.sprite_source_size.x + X_OFFSET,
                    self.position.y + sprite.sprite_source_size.y + Y_OFFSET,
                    sprite.frame.w - WIDTH_OFFSET,
                    sprite.frame.h - Y_OFFSET,
                ),
            ),
            None => None,
        }
    }

    /// The command that draws the character; `MissingFrame` when the sheet
    /// does not have the current picture.
    pub fn draw(&self) -> (command: Result<DrawCommand, GameError>)
        requires
            self.box_fits(),
        ensures
            command == (match self.sprite() {
                Some(cell) => Ok::<DrawCommand, GameError>(
                    DrawCommand::Image {
                        picture: self.sprite_sheet.image.id,
                        source: cell.source(),
                        destination: self.placed(cell),
                    },
                ),
                None => Err::<DrawCommand, GameError>(GameError::MissingFrame),
            }),
    {
        match self.current_sprite() {
            Some(sprite) => {
                let source = Rect::new_from_x_y(
                    sprite.frame.x,
                    sprite.frame.y,
                    sprite.frame.w,
                    sprite.frame.h,
                );
                let destination = Rect::new_from_x_y(
                    self.position.x + sprite.sprite_source_size.x,
                    self.position.y + sprite.sprite_source_size.y,
                    sprite.frame.w,
                    sprite.frame.h,
                );
                Ok(self.sprite_sheet.draw(&source, &destination))
            },
            None => Err(GameError::MissingFrame),
        }
    }

    /// The command that outlines the bounding box, if there is one.
    pub fn draw_bounding_box(&self) -> (command: Option<DrawCommand>)
        requires
            self.box_fits(),
        ensures
            command == (match self.hitbox() {
                Some(rect) => Some(DrawCommand::Outline(rect)),
                None => None,
            }),
    {
        match self.bounding_box() {
            Some(rect) => Some(DrawCommand::Outline(rect)),
            None => None,
        }
    }
}

/// Every operation leaves a well-formed character well formed.
pub proof fn lemma_operations_keep_wf(boy: RedHatBoy, y: i16)
    requires
        boy.wf(),
    ensures
        boy.after_run_right().wf(),
        boy.after_slide().wf(),
        boy.after_jump().wf(),
        boy.after_land_on(y).wf(),
        boy.after_hit_ceiling().wf(),
        boy.after_knock_out().wf(),
        boy.advanced().wf(),
{
}

/// A knock-out is final: no operation changes the state of a character that
/// is knocked out, moves it, or sets it in motion.
pub proof fn lemma_knocked_out_is_final(boy: RedHatBoy, y: i16)
    requires
        boy.wf(),
        boy.state == RedHatBoyState::KnockedOut,
    ensures
        boy.after_run_right() == boy,
        boy.after_slide() == boy,
        boy.after_jump() == boy,
        boy.after_land_on(y) == boy,
        boy.after_hit_ceiling() == boy,
        boy.after_knock_out() == boy,
        boy.advanced() == (RedHatBoy { frame: boy.next_frame(), ..boy }),
{
}

/// No operation moves the character sideways.
pub proof fn lemma_operations_keep_x(boy: RedHatBoy, y: i16)
    ensures
        boy.after_run_right().position.x == boy.position.x,
        boy.after_slide().position.x == boy.position.x,
        boy.after_jump().position.x == boy.position.x,
        boy.after_land_on(y).position.x == boy.position.x,
        boy.after_hit_ceiling().position.x == boy.position.x,
        boy.after_knock_out().position.x == boy.position.x,
        boy.advanced().position.x == boy.position.x,
{
}

/// A well-formed character that stands no further than `limit` from the
/// origin, in either direction, has a bounding box with representable
/// corners, as long as `limit` leaves room for a cell of the sheet.
pub proof fn lemma_within_fits(boy: RedHatBoy, limit: int)
    requires
        boy.wf(),
        boy.within(limit),
        0 <= limit <= i16::MAX - CELL_LIMIT - X_OFFSET,
    ensures
        boy.box_fits(),
        boy.can_advance(),
{
    if boy.sprite() is Some {
        assert(boy.sprite_sheet.sheet@.contains_key(boy.sprite_name()));
    }
}

} // verus!
