//! Plain values shared by the whole game: points and rectangles on the
//! canvas, the cells of a sprite sheet, placed images, the keys held down,
//! drawing commands and the errors the game can report.

use vstd::hash_map::StringHashMap;
use vstd::prelude::*;
use vstd::string::StringExecFns;

verus! {

/// No field of a sprite-sheet cell may lie outside `0..=CELL_LIMIT`.
pub const CELL_LIMIT: i16 = 4096;

/// What the game can report to its caller.
#[derive(Clone, Copy, Debug, PartialEq, Eq, Structural)]
pub enum GameError {
    /// The game was asked to initialise a second time.
    AlreadyInitialized,
    /// A sprite sheet holds no cell under the name that was asked for.
    MissingFrame,
    /// An asset could not be loaded, or cannot be used as it was loaded.
    AssetLoadFailure,
}

impl GameError {
    /// A sentence for the log or the screen.
    pub fn message(&self) -> (text: &'static str)
        ensures
            text@ == match *self {
                GameError::AlreadyInitialized => "Error: Game is already initialized!"@,
                GameError::MissingFrame => "Error: Frame is missing from the sprite sheet!"@,
                GameError::AssetLoadFailure => "Error: Asset could not be loaded!"@,
            },
    {
        match self {
            GameError::AlreadyInitialized => "Error: Game is already initialized!",
            GameError::MissingFrame => "Error: Frame is missing from the sprite sheet!",
            GameError::AssetLoadFailure => "Error: Asset could not be loaded!",
        }
    }
}

/// A position on the canvas, in pixels. `y` grows downwards.
#[derive(Clone, Copy, Debug, PartialEq, Eq, Structural, Default)]
pub struct Point {
    pub x: i16,
    pub y: i16,
}

/// An axis-aligned rectangle: its top left corner and its size.
#[derive(Clone, Copy, Debug, PartialEq, Eq, Structural, Default)]
pub struct Rect {
    pub position: Point,
    pub width: i16,
    pub height: i16,
}

impl Rect {
    /// The x coordinate just right of the rectangle, as a mathematical integer.
    pub open spec fn right_edge(self) -> int {
        self.position.x + self.width
    }

    /// The y coordinate just below the rectangle, as a mathematical integer.
    pub open spec fn bottom_edge(self) -> int {
        self.position.y + self.height
    }

    /// Two rectangles overlap when their interiors share a point; rectangles
    /// that only touch along an edge do not overlap.
    pub open spec fn overlaps(self, other: Rect) -> bool {
        &&& self.position.x < other.right_edge()
        &&& self.right_edge() > other.position.x
        &&& self.position.y < other.bottom_edge()
        &&& self.bottom_edge() > other.position.y
    }

    /// The same rectangle, `delta` pixels further right.
    pub open spec fn shifted(self, delta: int) -> Rect
        recommends
            i16::MIN <= self.position.x + delta <= i16::MAX,
    {
        Rect {
            position: Point { x: (self.position.x + delta) as i16, y: self.position.y },
            width: self.width,
            height: self.height,
        }
    }

    pub fn new(position: Point, width: i16, height: i16) -> (rect: Rect)
        ensures
            rect == (Rect { position, width, height }),
    {
        Rect { position, width, height }
    }

    pub fn new_from_x_y(x: i16, y: i16, width: i16, height: i16) -> (rect: Rect)
        ensures
            rect == (Rect { position: Point { x, y }, width, height }),
    {
        Rect::new(Point { x, y }, width, height)
    }

    /// Whether the two rectangles overlap. Computed in a wider type, so it is
    /// defined for every pair of rectangles.
    pub fn intersects(&self, rect: &Rect) -> (hit: bool)
        ensures
            hit == self.overlaps(*rect),
    {
        let left: i32 = self.position.x as i32;
        let right: i32 = self.position.x as i32 + self.width as i32;
        let top: i32 = self.position.y as i32;
        let bottom: i32 = self.position.y as i32 + self.height as i32;
        let other_left: i32 = rect.position.x as i32;
        let other_right: i32 = rect.position.x as i32 + rect.width as i32;
        let other_top: i32 = rect.position.y as i32;
        let other_bottom: i32 = rect.position.y as i32 + rect.height as i32;
        left < other_right && right > other_left && top < other_bottom && bottom > other_top
    }

    pub fn right(&self) -> (edge: i16)
        requires
            i16::MIN <= self.right_edge() <= i16::MAX,
        ensures
            edge == self.right_edge(),
    {
        self.position.x + self.width
    }

    pub fn bottom(&self) -> (edge: i16)
        requires
            i16::MIN <= self.bottom_edge() <= i16::MAX,
        ensures
            edge == self.bottom_edge(),
    {
        self.position.y + self.height
    }

    pub fn set_x(&mut self, x: i16)
        ensures
            *final(self) == (Rect { position: Point { x, y: old(self).position.y }, ..*old(self) }),
    {
        self.position.x = x;
    }

    pub fn x(&self) -> (x: i16)
        ensures
            x == self.position.x,
    {
        self.position.x
    }

    pub fn y(&self) -> (y: i16)
        ensures
            y == self.position.y,
    {
        self.position.y
    }
}

/// A rectangle inside a sprite sheet, as the sheet's description gives it.
#[derive(Clone, Copy, Debug, PartialEq, Eq, Structural, Default)]
pub struct SheetRect {
    pub x: i16,
    pub y: i16,
    pub w: i16,
    pub h: i16,
}

impl SheetRect {
    pub open spec fn within_limit(self) -> bool {
        &&& 0 <= self.x <= CELL_LIMIT
        &&& 0 <= self.y <= CELL_LIMIT
        &&& 0 <= self.w <= CELL_LIMIT
        &&& 0 <= self.h <= CELL_LIMIT
    }

    fn check_limit(&self) -> (ok: bool)
        ensures
            ok == self.within_limit(),
    {
        0 <= self.x && self.x <= CELL_LIMIT && 0 <= self.y && self.y <= CELL_LIMIT && 0 <= self.w
            && self.w <= CELL_LIMIT && 0 <= self.h && self.h <= CELL_LIMIT
    }
}

/// One named picture of a sprite sheet: where it lies in the sheet (`frame`)
/// and how far it was trimmed from the top left of the untrimmed sprite
/// (`sprite_source_size`).
#[derive(Clone, Copy, Debug, PartialEq, Eq, Structural, Default)]
pub struct Cell {
    pub frame: SheetRect,
    pub sprite_source_size: SheetRect,
}

impl Cell {
    pub open spec fn within_limit(self) -> bool {
        self.frame.within_limit() && self.sprite_source_size.within_limit()
    }

    /// The cell's place in the sheet, as a rectangle to copy from.
    pub open spec fn source(self) -> Rect {
        Rect {
            position: Point { x: self.frame.x, y: self.frame.y },
            width: self.frame.w,
            height: self.frame.h,
        }
    }
}

/// A decoded picture as the game sees it: which picture it is, and its size
/// in pixels. The pixels themselves stay with whoever draws.
#[derive(Clone, Copy, Debug, PartialEq, Eq, Structural, Default)]
pub struct Picture {
    pub id: u32,
    pub width: i16,
    pub height: i16,
}

/// What the renderer is asked to do, one step at a time.
#[derive(Clone, Copy, Debug, PartialEq, Eq, Structural)]
pub enum DrawCommand {
    /// Wipe the region.
    Clear(Rect),
    /// Copy `source` of the picture `picture` to `destination` on the canvas.
    Image { picture: u32, source: Rect, destination: Rect },
    /// Stroke the outline of the rectangle.
    Outline(Rect),
}

/// A whole picture placed on the canvas.
#[derive(Clone, Copy, Debug, PartialEq, Eq, Structural)]
pub struct Image {
    pub element: Picture,
    pub bounding_box: Rect,
}

impl Image {
    /// The picture moved `distance` pixels to the right.
    pub open spec fn moved(self, distance: int) -> Image
        recommends
            i16::MIN <= self.bounding_box.position.x + distance <= i16::MAX,
    {
        Image { element: self.element, bounding_box: self.bounding_box.shifted(distance) }
    }

    /// The command that draws the picture where it stands.
    pub open spec fn picture(self) -> DrawCommand {
        DrawCommand::Image {
            picture: self.element.id,
            source: Rect {
                position: Point { x: 0, y: 0 },
                width: self.element.width,
                height: self.element.height,
            },
            destination: self.bounding_box,
        }
    }

    pub fn new(element: Picture, position: Point) -> (image: Image)
        ensures
            image.element == element,
            image.bounding_box == (Rect { position, width: element.width, height: element.height }),
    {
        let bounding_box = Rect::new(position, element.width, element.height);
        Image { element, bounding_box }
    }

    pub fn draw(&self) -> (command: DrawCommand)
        ensures
            command == self.picture(),
    {
        DrawCommand::Image {
            picture: self.element.id,
            source: Rect::new_from_x_y(0, 0, self.element.width, self.element.height),
            destination: self.bounding_box,
        }
    }

    pub fn draw_bounding_box(&self) -> (command: DrawCommand)
        ensures
            command == DrawCommand::Outline(self.bounding_box),
    {
        DrawCommand::Outline(self.bounding_box)
    }

    pub fn bounding_box(&self) -> (rect: &Rect)
        ensures
            *rect == self.bounding_box,
    {
        &self.bounding_box
    }

    pub fn move_horizontally(&mut self, distance: i16)
        requires
            i16::MIN <= old(self).bounding_box.position.x + distance <= i16::MAX,
        ensures
            *final(self) == old(self).moved(distance as int),
    {
        let x = self.bounding_box.x() + distance;
        self.set_x(x);
    }

    pub fn set_x(&mut self, x: i16)
        ensures
            final(self).element == old(self).element,
            final(self).bounding_box == (Rect {
                position: Point { x, y: old(self).bounding_box.position.y },
                ..old(self).bounding_box
            }),
    {
        self.bounding_box.set_x(x);
    }

    pub fn right(&self) -> (edge: i16)
        requires
            i16::MIN <= self.bounding_box.right_edge() <= i16::MAX,
        ensures
            edge == self.bounding_box.right_edge(),
    {
        self.bounding_box.right()
    }
}

/// A picture cut into named cells.
pub struct SpriteSheet {
    pub image: Picture,
    pub sheet: StringHashMap<Cell>,
}

impl SpriteSheet {
    /// Every cell of the sheet keeps within `CELL_LIMIT`.
    pub open spec fn wf(&self) -> bool {
        forall|name: Seq<char>| #[trigger]
            self.sheet@.contains_key(name) ==> self.sheet@[name].within_limit()
    }

    /// Whether the sheet holds a cell under `name`.
    pub open spec fn has(&self, name: Seq<char>) -> bool {
        self.sheet@.contains_key(name)
    }

    /// A sheet over `image` with no cell yet.
    pub fn new(image: Picture) -> (sheet: SpriteSheet)
        ensures
            sheet.wf(),
            sheet.image == image,
            sheet.sheet@ == Map::<Seq<char>, Cell>::empty(),
    {
        SpriteSheet { image, sheet: StringHashMap::new() }
    }

    /// Names a cell, in place of any cell that had the name before. A cell
    /// with a field outside `0..=CELL_LIMIT` is refused and the sheet stays as
    /// it was.
    pub fn insert(&mut self, name: String, cell: Cell) -> (added: Result<(), GameError>)
        requires
            old(self).wf(),
        ensures
            final(self).wf(),
            final(self).image == old(self).image,
            cell.within_limit() ==> added == Ok::<(), GameError>(()) && final(self).sheet@ == old(
                self,
            ).sheet@.insert(name@, cell),
            !cell.within_limit() ==> added == Err::<(), GameError>(GameError::AssetLoadFailure)
                && final(self).sheet@ == old(self).sheet@,
    {
        if cell.frame.check_limit() && cell.sprite_source_size.check_limit() {
            self.sheet.insert(name, cell);
            Ok(())
        } else {
            Err(GameError::AssetLoadFailure)
        }
    }

    /// The cell called `name`, if the sheet has one.
    pub fn cell(&self, name: &str) -> (found: Option<&Cell>)
        ensures
            found == (if self.has(name@) {
                Some(&self.sheet@[name@])
            } else {
                None
            }),
    {
        self.sheet.get(name)
    }

    /// The command that copies `source` of the sheet's picture to
    /// `destination`.
    pub fn draw(&self, source: &Rect, destination: &Rect) -> (command: DrawCommand)
        ensures
            command == (DrawCommand::Image {
                picture: self.image.id,
                source: *source,
                destination: *destination,
            }),
    {
        DrawCommand::Image { picture: self.image.id, source: *source, destination: *destination }
    }
}

/// The keys that are held down, by their names (`ArrowRight`, `Space`, ...).
pub struct KeyState {
    pub pressed_keys: StringHashMap<()>,
}

impl KeyState {
    /// Whether the key called `code` counts as held down.
    pub open spec fn holds(&self, code: Seq<char>) -> bool {
        self.pressed_keys@.contains_key(code)
    }

    pub fn new() -> (keys: KeyState)
        ensures
            forall|code: Seq<char>| !keys.holds(code),
    {
        KeyState { pressed_keys: StringHashMap::new() }
    }

    pub fn is_pressed(&self, code: &str) -> (pressed: bool)
        ensures
            pressed == self.holds(code@),
    {
        self.pressed_keys.contains_key(code)
    }

    pub fn set_pressed(&mut self, code: &str)
        ensures
            forall|other: Seq<char>|
                final(self).holds(other) == (other == code@ || old(self).holds(other)),
    {
        self.pressed_keys.insert(String::from_str(code), ());
    }

    pub fn set_released(&mut self, code: &str)
        ensures
            forall|other: Seq<char>|
                final(self).holds(other) == (other != code@ && old(self).holds(other)),
    {
        self.pressed_keys.remove(code);
    }
}

} // verus!
