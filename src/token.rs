use vstd::prelude::*;

verus! {

/// One of the two players; a token's color is the player that owns it.
#[derive(Clone, Copy, Debug, PartialEq, Eq, Hash, Structural)]
pub enum PlayerId {
    RED,
    GREEN,
}

/// The other player.
pub open spec fn other(p: PlayerId) -> PlayerId {
    match p {
        PlayerId::RED => PlayerId::GREEN,
        PlayerId::GREEN => PlayerId::RED,
    }
}

/// Position of a player in per-player tables.
pub open spec fn color_index(p: PlayerId) -> int {
    match p {
        PlayerId::RED => 0,
        PlayerId::GREEN => 1,
    }
}

impl PlayerId {
    /// The player whose turn follows this one's.
    pub fn next(&self) -> (r: PlayerId)
        ensures
            r == other(*self),
    {
        match self {
            PlayerId::RED => PlayerId::GREEN,
            PlayerId::GREEN => PlayerId::RED,
        }
    }

    /// The player whose turn preceded this one's; with two players, the same as `next`.
    pub fn prev(&self) -> (r: PlayerId)
        ensures
            r == other(*self),
    {
        self.next()
    }

    /// Position of this player in per-player tables: 0 for RED, 1 for GREEN.
    pub fn index(&self) -> (r: usize)
        ensures
            r as int == color_index(*self),
    {
        match self {
            PlayerId::RED => 0,
            PlayerId::GREEN => 1,
        }
    }
}

/// Token sizes, ordered SMALL < MID < BIG.
#[derive(Clone, Copy, Debug, PartialEq, Eq, PartialOrd, Ord, Hash, Structural)]
pub enum Size {
    SMALL,
    MID,
    BIG,
}

impl Size {
    /// The numeric rank of the size: SMALL 0, MID 1, BIG 2.
    pub open spec fn rank(self) -> int {
        match self {
            Size::SMALL => 0,
            Size::MID => 1,
            Size::BIG => 2,
        }
    }

    /// The size of a given rank.
    pub open spec fn of_rank(r: int) -> Size {
        if r == 0 {
            Size::SMALL
        } else if r == 1 {
            Size::MID
        } else {
            Size::BIG
        }
    }

    /// The rank of the size, usable as an index.
    pub fn index(&self) -> (r: usize)
        ensures
            r as int == self.rank(),
            r < 3,
    {
        match self {
            Size::SMALL => 0,
            Size::MID => 1,
            Size::BIG => 2,
        }
    }

    /// The size of rank `r`.
    pub fn from_index(r: usize) -> (s: Size)
        requires
            r < 3,
        ensures
            s == Size::of_rank(r as int),
            s.rank() == r as int,
    {
        if r == 0 {
            Size::SMALL
        } else if r == 1 {
            Size::MID
        } else {
            Size::BIG
        }
    }
}

/// A token: an immutable pair of color and size.
#[derive(Clone, Copy, Debug, PartialEq, Eq, Hash, Structural)]
pub struct Token {
    pub color: PlayerId,
    pub size: Size,
}

impl Token {
    pub fn new(color: PlayerId, size: Size) -> (t: Token)
        ensures
            t.color == color,
            t.size == size,
    {
        Token { color, size }
    }

    /// A one-glyph picture of the token: a red or a green disc.
    pub fn to_string(&self) -> (r: String)
        ensures
            r@ == token_glyph(self.color),
    {
        match self.color {
            PlayerId::RED => String::from_str("\u{1F534}"),
            PlayerId::GREEN => String::from_str("\u{1F7E2}"),
        }
    }
}

/// The glyph that pictures a token of the given color.
pub open spec fn token_glyph(c: PlayerId) -> Seq<char> {
    match c {
        PlayerId::RED => "\u{1F534}"@,
        PlayerId::GREEN => "\u{1F7E2}"@,
    }
}

} // verus!
