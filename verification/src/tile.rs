//! Tile kinds of the level grid, and the errors of level loading and grid
//! queries.

use vstd::prelude::*;

verus! {

/// The terrain kind of one grid cell. `Empty` and `Fence` block movement;
/// `Plain` and `Grass` are walkable.
#[derive(Debug, Clone, Copy, PartialEq, Eq, Structural)]
pub enum LevelTile {
    Empty,
    Plain,
    Grass,
    Fence,
}

/// Errors of the level core: a level text that cannot be parsed, and a grid
/// query outside the grid.
#[derive(Debug, Clone, Copy, PartialEq, Eq, Structural)]
pub enum LevelError {
    LevelLoadError,
    OutOfBoundsError,
}

/// The tile a map character stands for: `'.'` is `Plain`, `','` is `Grass`,
/// `' '` is `Empty`, `'-'` is `Fence`; every other character is unrecognized.
pub open spec fn spec_tile_of(c: char) -> Option<LevelTile> {
    if c == '.' {
        Some(LevelTile::Plain)
    } else if c == ',' {
        Some(LevelTile::Grass)
    } else if c == ' ' {
        Some(LevelTile::Empty)
    } else if c == '-' {
        Some(LevelTile::Fence)
    } else {
        None
    }
}

impl LevelTile {
    /// Whether the tile forbids an entity from occupying its cell.
    pub open spec fn spec_is_blocking(self) -> bool {
        self == LevelTile::Fence || self == LevelTile::Empty
    }

    /// Reads one map character; an unrecognized character is a load error.
    pub fn new(c: char) -> (r: Result<Self, LevelError>)
        ensures
            r == (match spec_tile_of(c) {
                Some(t) => Result::<Self, LevelError>::Ok(t),
                None => Result::<Self, LevelError>::Err(LevelError::LevelLoadError),
            }),
    {
        match c {
            '.' => Ok(Self::Plain),
            ',' => Ok(Self::Grass),
            ' ' => Ok(Self::Empty),
            '-' => Ok(Self::Fence),
            _ => Err(LevelError::LevelLoadError),
        }
    }

    pub fn is_blocking(&self) -> (r: bool)
        ensures
            r == self.spec_is_blocking(),
    {
        match self {
            Self::Fence | Self::Empty => true,
            _ => false,
        }
    }
}

impl LevelError {
    /// A human-readable description of the error.
    pub fn message(&self) -> (r: String)
        ensures
            self is LevelLoadError ==> r@ == "Failed load level data"@,
            self is OutOfBoundsError ==> r@ == "Index out of bounds"@,
    {
        match self {
            Self::LevelLoadError => String::from_str("Failed load level data"),
            Self::OutOfBoundsError => String::from_str("Index out of bounds"),
        }
    }
}

impl Default for LevelTile {
    /// The default tile is `Empty`, the padding of short rows.
    fn default() -> (r: Self)
        ensures
            r == LevelTile::Empty,
    {
        LevelTile::Empty
    }
}

} // verus!
