use vstd::prelude::*;

verus! {

/// What occupies one cell of the grid. The player is stored as one of the
/// four facing kinds at the cell where they stand.
#[derive(Clone, Copy, Debug, PartialEq, Eq, Structural)]
pub enum Tile {
    Blank,
    Wall,
    Ground,
    Box,
    Target,
    PlayerFacingDown,
    PlayerFacingRight,
    PlayerFacingLeft,
    PlayerFacingUp,
    BoxOnTarget,
}

/// One step of the player along an axis of the grid.
#[derive(Clone, Copy, Debug, PartialEq, Eq, Structural)]
pub enum Direction {
    Left,
    Right,
    Up,
    Down,
}

impl Tile {
    pub open spec fn is_player(self) -> bool {
        self == Tile::PlayerFacingDown || self == Tile::PlayerFacingRight
            || self == Tile::PlayerFacingLeft || self == Tile::PlayerFacingUp
    }

    /// A box, on plain ground or on a target.
    pub open spec fn is_box(self) -> bool {
        self == Tile::Box || self == Tile::BoxOnTarget
    }

    /// A cell the player or a box may enter.
    pub open spec fn is_floor(self) -> bool {
        self == Tile::Ground || self == Tile::Target
    }

    /// The digit that stands for this tile in a level file.
    pub open spec fn code_spec(self) -> u8 {
        match self {
            Tile::Blank => 0,
            Tile::Wall => 1,
            Tile::Ground => 2,
            Tile::Box => 3,
            Tile::Target => 4,
            Tile::PlayerFacingDown => 5,
            Tile::PlayerFacingRight => 6,
            Tile::PlayerFacingLeft => 7,
            Tile::PlayerFacingUp => 8,
            Tile::BoxOnTarget => 9,
        }
    }

    /// The tile whose code is `c`; `Blank` for a number that is no code.
    pub open spec fn from_code_spec(c: u8) -> Tile {
        if c == 1 {
            Tile::Wall
        } else if c == 2 {
            Tile::Ground
        } else if c == 3 {
            Tile::Box
        } else if c == 4 {
            Tile::Target
        } else if c == 5 {
            Tile::PlayerFacingDown
        } else if c == 6 {
            Tile::PlayerFacingRight
        } else if c == 7 {
            Tile::PlayerFacingLeft
        } else if c == 8 {
            Tile::PlayerFacingUp
        } else if c == 9 {
            Tile::BoxOnTarget
        } else {
            Tile::Blank
        }
    }

    /// The tile that an ASCII character of a level file stands for: a digit
    /// gives the tile of that code, anything else gives `Blank`.
    pub open spec fn from_char_spec(b: u8) -> Tile {
        if 48 <= b && b <= 57 {
            Tile::from_code_spec((b - 48) as u8)
        } else {
            Tile::Blank
        }
    }

    /// A box pushed onto `self` (a floor tile).
    pub open spec fn with_box(self) -> Tile {
        if self == Tile::Target {
            Tile::BoxOnTarget
        } else {
            Tile::Box
        }
    }

    /// What is left under a box (a box tile) once it has been pushed away.
    pub open spec fn without_box(self) -> Tile {
        if self == Tile::BoxOnTarget {
            Tile::Target
        } else {
            Tile::Ground
        }
    }

    pub fn code(self) -> (r: u8)
        ensures
            r == self.code_spec(),
    {
        match self {
            Tile::Blank => 0,
            Tile::Wall => 1,
            Tile::Ground => 2,
            Tile::Box => 3,
            Tile::Target => 4,
            Tile::PlayerFacingDown => 5,
            Tile::PlayerFacingRight => 6,
            Tile::PlayerFacingLeft => 7,
            Tile::PlayerFacingUp => 8,
            Tile::BoxOnTarget => 9,
        }
    }

    pub fn from_code(c: u8) -> (r: Tile)
        ensures
            r == Tile::from_code_spec(c),
            c <= 9 ==> r.code_spec() == c,
    {
        if c == 1 {
            Tile::Wall
        } else if c == 2 {
            Tile::Ground
        } else if c == 3 {
            Tile::Box
        } else if c == 4 {
            Tile::Target
        } else if c == 5 {
            Tile::PlayerFacingDown
        } else if c == 6 {
            Tile::PlayerFacingRight
        } else if c == 7 {
            Tile::PlayerFacingLeft
        } else if c == 8 {
            Tile::PlayerFacingUp
        } else if c == 9 {
            Tile::BoxOnTarget
        } else {
            Tile::Blank
        }
    }

    pub fn from_char(b: u8) -> (r: Tile)
        ensures
            r == Tile::from_char_spec(b),
    {
        if 48 <= b && b <= 57 {
            Tile::from_code(b - 48)
        } else {
            Tile::Blank
        }
    }

    pub fn is_player_tile(self) -> (r: bool)
        ensures
            r == self.is_player(),
    {
        match self {
            Tile::PlayerFacingDown | Tile::PlayerFacingRight | Tile::PlayerFacingLeft
            | Tile::PlayerFacingUp => true,
            _ => false,
        }
    }

    pub fn is_box_tile(self) -> (r: bool)
        ensures
            r == self.is_box(),
    {
        match self {
            Tile::Box | Tile::BoxOnTarget => true,
            _ => false,
        }
    }

    pub fn is_floor_tile(self) -> (r: bool)
        ensures
            r == self.is_floor(),
    {
        match self {
            Tile::Ground | Tile::Target => true,
            _ => false,
        }
    }
}

impl Direction {
    /// The column offset of one step.
    pub open spec fn dx(self) -> int {
        match self {
            Direction::Left => -1,
            Direction::Right => 1,
            _ => 0,
        }
    }

    /// The row offset of one step; rows count upwards.
    pub open spec fn dy(self) -> int {
        match self {
            Direction::Down => -1,
            Direction::Up => 1,
            _ => 0,
        }
    }

    /// The tile drawn at the player's new cell. Left and right are swapped:
    /// a step to the right shows the left-facing tile, and the other way round.
    pub open spec fn player_tile_spec(self) -> Tile {
        match self {
            Direction::Right => Tile::PlayerFacingLeft,
            Direction::Left => Tile::PlayerFacingRight,
            Direction::Up => Tile::PlayerFacingUp,
            Direction::Down => Tile::PlayerFacingDown,
        }
    }

    pub fn player_tile(self) -> (r: Tile)
        ensures
            r == self.player_tile_spec(),
            r.is_player(),
    {
        match self {
            Direction::Right => Tile::PlayerFacingLeft,
            Direction::Left => Tile::PlayerFacingRight,
            Direction::Up => Tile::PlayerFacingUp,
            Direction::Down => Tile::PlayerFacingDown,
        }
    }

    /// The action for the arrow keys held down: when several are held, down
    /// beats up, up beats right and right beats left.
    pub fn from_keys(left: bool, right: bool, up: bool, down: bool) -> (r: Option<Direction>)
        ensures
            r == (if down {
                Some(Direction::Down)
            } else if up {
                Some(Direction::Up)
            } else if right {
                Some(Direction::Right)
            } else if left {
                Some(Direction::Left)
            } else {
                None
            }),
    {
        let mut r: Option<Direction> = None;
        if left {
            r = Some(Direction::Left);
        }
        if right {
            r = Some(Direction::Right);
        }
        if up {
            r = Some(Direction::Up);
        }
        if down {
            r = Some(Direction::Down);
        }
        r
    }
}

} // verus!
