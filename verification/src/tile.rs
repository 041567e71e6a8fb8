//! Tiles: the material enumerations and the packing of one tile into a 32-bit code.
//!
//! A tile code holds four byte fields, most significant first: the
//! [`SpecialParse`] discriminator, the ordinal of a [`Shape`] or of a [`Special`],
//! the ordinal of the background [`Element`] and that of the foreground one.

use vstd::arithmetic::div_mod::lemma_fundamental_div_mod_converse;
use vstd::prelude::*;

verus! {

/// Why a tile could not be built from integer fields. Each variant carries the
/// field value that was refused.
#[derive(Debug, PartialEq, Eq, Structural, Copy, Clone)]
pub enum TileCreationError {
    InvalidSpecial(i32),
    InvalidShape(i32),
    InvalidBackground(i32),
    InvalidForeground(i32),
}

/// Discriminator held in the top byte of a tile code: it says whether the
/// secondary byte names a [`Shape`] or a [`Special`].
#[derive(PartialEq, Eq, Structural, Debug, Copy, Clone)]
pub enum SpecialParse {
    Normal,
    Special,
}

/// The special objects a tile can carry, in wire order.
#[derive(PartialEq, Eq, Structural, Debug, Copy, Clone, Hash)]
pub enum Special {
    StartPosition,
    Hole,
    FakeHole,
    MoveableBlock,
    Mine,
    BlownMine,
    BigMine,
    BlownBigMine,
    BlueTeleportStart,
    BlueTeleportExit,
    RedTeleportStart,
    RedTeleportExit,
    YellowTeleportStart,
    YellowTeleportExit,
    GreenTeleportStart,
    GreenTeleportExit,
    FullBreakable,
    ThreeQuaterBreakable,
    HalfBreakable,
    QuaterBreakable,
    MagnetAttract,
    MagnetRepel,
    MoveableBlock2,
    SunkMoveableBlock,
    StartPositionBlue,
    StartPositionRed,
    StartPositionYellow,
    StartPositionGreen,
}

/// The ground materials, in wire order.
#[derive(PartialEq, Eq, Structural, Debug, Copy, Clone, Hash)]
pub enum Element {
    Grass,
    Dirt,
    Mud,
    Ice,
    SpeedN,
    SpeedNE,
    SpeedE,
    SpeedSE,
    SpeedS,
    SpeedSW,
    SpeedW,
    SpeedNW,
    Water,
    Acid,
    WaterSwamp,
    AcidSwamp,
    Block,
    StickyBlock,
    BouncyBlock,
    FakeBlock,
    OnewayN,
    OnewayE,
    OnewayS,
    OnewayW,
}

/// The silhouettes that split a tile between its two elements, in wire order.
#[derive(PartialEq, Eq, Structural, Debug, Copy, Clone, Hash)]
pub enum Shape {
    Blank,
    BigCircle,
    SmallCircle,
    Diamond,
    TriangleSE,
    TriangleSW,
    TriangleNW,
    TriangleNE,
    RoundedSE,
    RoundedSW,
    RoundedNW,
    RoundedNE,
    RoundedS,
    RoundedE,
    RoundedN,
    RoundedW,
    TriangleN,
    TriangleE,
    TriangleS,
    TriangleW,
    TriangleNS,
    TriangleWE,
    HalfW,
    HalfS,
    QuaterNE,
    QuaterSE,
    QuaterSW,
    QuaterNW,
}

impl SpecialParse {
    /// The wire value of this variant.
    pub open spec fn ordinal(self) -> int {
        match self {
            SpecialParse::Normal => 1,
            SpecialParse::Special => 2,
        }
    }

    /// The variant with wire value `n`, if there is one.
    pub open spec fn from_ordinal(n: int) -> Option<SpecialParse> {
        if n == 1 {
            Some(SpecialParse::Normal)
        } else if n == 2 {
            Some(SpecialParse::Special)
        } else {
            None
        }
    }

    /// The wire value of this variant as a machine integer.
    pub fn to_i32(&self) -> (n: i32)
        ensures
            n == self.ordinal(),
    {
        match self {
            SpecialParse::Normal => 1,
            SpecialParse::Special => 2,
        }
    }

    /// Resolves a wire value to its variant; `None` when no variant carries it.
    pub fn from_i32(n: i32) -> (r: Option<SpecialParse>)
        ensures
            r == SpecialParse::from_ordinal(n as int),
    {
        match n {
            1 => Some(SpecialParse::Normal),
            2 => Some(SpecialParse::Special),
            _ => None,
        }
    }
}

impl Special {
    /// The wire ordinal of this variant: its position in declaration order.
    pub open spec fn ordinal(self) -> int {
        match self {
            Special::StartPosition => 0,
            Special::Hole => 1,
            Special::FakeHole => 2,
            Special::MoveableBlock => 3,
            Special::Mine => 4,
            Special::BlownMine => 5,
            Special::BigMine => 6,
            Special::BlownBigMine => 7,
            Special::BlueTeleportStart => 8,
            Special::BlueTeleportExit => 9,
            Special::RedTeleportStart => 10,
            Special::RedTeleportExit => 11,
            Special::YellowTeleportStart => 12,
            Special::YellowTeleportExit => 13,
            Special::GreenTeleportStart => 14,
            Special::GreenTeleportExit => 15,
            Special::FullBreakable => 16,
            Special::ThreeQuaterBreakable => 17,
            Special::HalfBreakable => 18,
            Special::QuaterBreakable => 19,
            Special::MagnetAttract => 20,
            Special::MagnetRepel => 21,
            Special::MoveableBlock2 => 22,
            Special::SunkMoveableBlock => 23,
            Special::StartPositionBlue => 24,
            Special::StartPositionRed => 25,
            Special::StartPositionYellow => 26,
            Special::StartPositionGreen => 27,
        }
    }

    /// The variant with wire value `n`, if there is one.
    pub open spec fn from_ordinal(n: int) -> Option<Special> {
        if n == 0 {
            Some(Special::StartPosition)
        } else if n == 1 {
            Some(Special::Hole)
        } else if n == 2 {
            Some(Special::FakeHole)
        } else if n == 3 {
            Some(Special::MoveableBlock)
        } else if n == 4 {
            Some(Special::Mine)
        } else if n == 5 {
            Some(Special::BlownMine)
        } else if n == 6 {
            Some(Special::BigMine)
        } else if n == 7 {
            Some(Special::BlownBigMine)
        } else if n == 8 {
            Some(Special::BlueTeleportStart)
        } else if n == 9 {
            Some(Special::BlueTeleportExit)
        } else if n == 10 {
            Some(Special::RedTeleportStart)
        } else if n == 11 {
            Some(Special::RedTeleportExit)
        } else if n == 12 {
            Some(Special::YellowTeleportStart)
        } else if n == 13 {
            Some(Special::YellowTeleportExit)
        } else if n == 14 {
            Some(Special::GreenTeleportStart)
        } else if n == 15 {
            Some(Special::GreenTeleportExit)
        } else if n == 16 {
            Some(Special::FullBreakable)
        } else if n == 17 {
            Some(Special::ThreeQuaterBreakable)
        } else if n == 18 {
            Some(Special::HalfBreakable)
        } else if n == 19 {
            Some(Special::QuaterBreakable)
        } else if n == 20 {
            Some(Special::MagnetAttract)
        } else if n == 21 {
            Some(Special::MagnetRepel)
        } else if n == 22 {
            Some(Special::MoveableBlock2)
        } else if n == 23 {
            Some(Special::SunkMoveableBlock)
        } else if n == 24 {
            Some(Special::StartPositionBlue)
        } else if n == 25 {
            Some(Special::StartPositionRed)
        } else if n == 26 {
            Some(Special::StartPositionYellow)
        } else if n == 27 {
            Some(Special::StartPositionGreen)
        } else {
            None
        }
    }

    /// The wire value of this variant as a machine integer.
    pub fn to_i32(&self) -> (n: i32)
        ensures
            n == self.ordinal(),
    {
        match self {
            Special::StartPosition => 0,
            Special::Hole => 1,
            Special::FakeHole => 2,
            Special::MoveableBlock => 3,
            Special::Mine => 4,
            Special::BlownMine => 5,
            Special::BigMine => 6,
            Special::BlownBigMine => 7,
            Special::BlueTeleportStart => 8,
            Special::BlueTeleportExit => 9,
            Special::RedTeleportStart => 10,
            Special::RedTeleportExit => 11,
            Special::YellowTeleportStart => 12,
            Special::YellowTeleportExit => 13,
            Special::GreenTeleportStart => 14,
            Special::GreenTeleportExit => 15,
            Special::FullBreakable => 16,
            Special::ThreeQuaterBreakable => 17,
            Special::HalfBreakable => 18,
            Special::QuaterBreakable => 19,
            Special::MagnetAttract => 20,
            Special::MagnetRepel => 21,
            Special::MoveableBlock2 => 22,
            Special::SunkMoveableBlock => 23,
            Special::StartPositionBlue => 24,
            Special::StartPositionRed => 25,
            Special::StartPositionYellow => 26,
            Special::StartPositionGreen => 27,
        }
    }

    /// Resolves a wire value to its variant; `None` when no variant carries it.
    pub fn from_i32(n: i32) -> (r: Option<Special>)
        ensures
            r == Special::from_ordinal(n as int),
    {
        match n {
            0 => Some(Special::StartPosition),
            1 => Some(Special::Hole),
            2 => Some(Special::FakeHole),
            3 => Some(Special::MoveableBlock),
            4 => Some(Special::Mine),
            5 => Some(Special::BlownMine),
            6 => Some(Special::BigMine),
            7 => Some(Special::BlownBigMine),
            8 => Some(Special::BlueTeleportStart),
            9 => Some(Special::BlueTeleportExit),
            10 => Some(Special::RedTeleportStart),
            11 => Some(Special::RedTeleportExit),
            12 => Some(Special::YellowTeleportStart),
            13 => Some(Special::YellowTeleportExit),
            14 => Some(Special::GreenTeleportStart),
            15 => Some(Special::GreenTeleportExit),
            16 => Some(Special::FullBreakable),
            17 => Some(Special::ThreeQuaterBreakable),
            18 => Some(Special::HalfBreakable),
            19 => Some(Special::QuaterBreakable),
            20 => Some(Special::MagnetAttract),
            21 => Some(Special::MagnetRepel),
            22 => Some(Special::MoveableBlock2),
            23 => Some(Special::SunkMoveableBlock),
            24 => Some(Special::StartPositionBlue),
            25 => Some(Special::StartPositionRed),
            26 => Some(Special::StartPositionYellow),
            27 => Some(Special::StartPositionGreen),
            _ => None,
        }
    }
}

impl Element {
    /// The wire ordinal of this variant: its position in declaration order.
    pub open spec fn ordinal(self) -> int {
        match self {
            Element::Grass => 0,
            Element::Dirt => 1,
            Element::Mud => 2,
            Element::Ice => 3,
            Element::SpeedN => 4,
            Element::SpeedNE => 5,
            Element::SpeedE => 6,
            Element::SpeedSE => 7,
            Element::SpeedS => 8,
            Element::SpeedSW => 9,
            Element::SpeedW => 10,
            Element::SpeedNW => 11,
            Element::Water => 12,
            Element::Acid => 13,
            Element::WaterSwamp => 14,
            Element::AcidSwamp => 15,
            Element::Block => 16,
            Element::StickyBlock => 17,
            Element::BouncyBlock => 18,
            Element::FakeBlock => 19,
            Element::OnewayN => 20,
            Element::OnewayE => 21,
            Element::OnewayS => 22,
            Element::OnewayW => 23,
        }
    }

    /// The variant with wire value `n`, if there is one.
    pub open spec fn from_ordinal(n: int) -> Option<Element> {
        if n == 0 {
            Some(Element::Grass)
        } else if n == 1 {
            Some(Element::Dirt)
        } else if n == 2 {
            Some(Element::Mud)
        } else if n == 3 {
            Some(Element::Ice)
        } else if n == 4 {
            Some(Element::SpeedN)
        } else if n == 5 {
            Some(Element::SpeedNE)
        } else if n == 6 {
            Some(Element::SpeedE)
        } else if n == 7 {
            Some(Element::SpeedSE)
        } else if n == 8 {
            Some(Element::SpeedS)
        } else if n == 9 {
            Some(Element::SpeedSW)
        } else if n == 10 {
            Some(Element::SpeedW)
        } else if n == 11 {
            Some(Element::SpeedNW)
        } else if n == 12 {
            Some(Element::Water)
        } else if n == 13 {
            Some(Element::Acid)
        } else if n == 14 {
            Some(Element::WaterSwamp)
        } else if n == 15 {
            Some(Element::AcidSwamp)
        } else if n == 16 {
            Some(Element::Block)
        } else if n == 17 {
            Some(Element::StickyBlock)
        } else if n == 18 {
            Some(Element::BouncyBlock)
        } else if n == 19 {
            Some(Element::FakeBlock)
        } else if n == 20 {
            Some(Element::OnewayN)
        } else if n == 21 {
            Some(Element::OnewayE)
        } else if n == 22 {
            Some(Element::OnewayS)
        } else if n == 23 {
            Some(Element::OnewayW)
        } else {
            None
        }
    }

    /// The wire value of this variant as a machine integer.
    pub fn to_i32(&self) -> (n: i32)
        ensures
            n == self.ordinal(),
    {
        match self {
            Element::Grass => 0,
            Element::Dirt => 1,
            Element::Mud => 2,
            Element::Ice => 3,
            Element::SpeedN => 4,
            Element::SpeedNE => 5,
            Element::SpeedE => 6,
            Element::SpeedSE => 7,
            Element::SpeedS => 8,
            Element::SpeedSW => 9,
            Element::SpeedW => 10,
            Element::SpeedNW => 11,
            Element::Water => 12,
            Element::Acid => 13,
            Element::WaterSwamp => 14,
            Element::AcidSwamp => 15,
            Element::Block => 16,
            Element::StickyBlock => 17,
            Element::BouncyBlock => 18,
            Element::FakeBlock => 19,
            Element::OnewayN => 20,
            Element::OnewayE => 21,
            Element::OnewayS => 22,
            Element::OnewayW => 23,
        }
    }

    /// Resolves a wire value to its variant; `None` when no variant carries it.
    pub fn from_i32(n: i32) -> (r: Option<Element>)
        ensures
            r == Element::from_ordinal(n as int),
    {
        match n {
            0 => Some(Element::Grass),
            1 => Some(Element::Dirt),
            2 => Some(Element::Mud),
            3 => Some(Element::Ice),
            4 => Some(Element::SpeedN),
            5 => Some(Element::SpeedNE),
            6 => Some(Element::SpeedE),
            7 => Some(Element::SpeedSE),
            8 => Some(Element::SpeedS),
            9 => Some(Element::SpeedSW),
            10 => Some(Element::SpeedW),
            11 => Some(Element::SpeedNW),
            12 => Some(Element::Water),
            13 => Some(Element::Acid),
            14 => Some(Element::WaterSwamp),
            15 => Some(Element::AcidSwamp),
            16 => Some(Element::Block),
            17 => Some(Element::StickyBlock),
            18 => Some(Element::BouncyBlock),
            19 => Some(Element::FakeBlock),
            20 => Some(Element::OnewayN),
            21 => Some(Element::OnewayE),
            22 => Some(Element::OnewayS),
            23 => Some(Element::OnewayW),
            _ => None,
        }
    }
}

impl Shape {
    /// The wire ordinal of this variant: its position in declaration order.
    pub open spec fn ordinal(self) -> int {
        match self {
            Shape::Blank => 0,
            Shape::BigCircle => 1,
            Shape::SmallCircle => 2,
            Shape::Diamond => 3,
            Shape::TriangleSE => 4,
            Shape::TriangleSW => 5,
            Shape::TriangleNW => 6,
            Shape::TriangleNE => 7,
            Shape::RoundedSE => 8,
            Shape::RoundedSW => 9,
            Shape::RoundedNW => 10,
            Shape::RoundedNE => 11,
            Shape::RoundedS => 12,
            Shape::RoundedE => 13,
            Shape::RoundedN => 14,
            Shape::RoundedW => 15,
            Shape::TriangleN => 16,
            Shape::TriangleE => 17,
            Shape::TriangleS => 18,
            Shape::TriangleW => 19,
            Shape::TriangleNS => 20,
            Shape::TriangleWE => 21,
            Shape::HalfW => 22,
            Shape::HalfS => 23,
            Shape::QuaterNE => 24,
            Shape::QuaterSE => 25,
            Shape::QuaterSW => 26,
            Shape::QuaterNW => 27,
        }
    }

    /// The variant with wire value `n`, if there is one.
    pub open spec fn from_ordinal(n: int) -> Option<Shape> {
        if n == 0 {
            Some(Shape::Blank)
        } else if n == 1 {
            Some(Shape::BigCircle)
        } else if n == 2 {
            Some(Shape::SmallCircle)
        } else if n == 3 {
            Some(Shape::Diamond)
        } else if n == 4 {
            Some(Shape::TriangleSE)
        } else if n == 5 {
            Some(Shape::TriangleSW)
        } else if n == 6 {
            Some(Shape::TriangleNW)
        } else if n == 7 {
            Some(Shape::TriangleNE)
        } else if n == 8 {
            Some(Shape::RoundedSE)
        } else if n == 9 {
            Some(Shape::RoundedSW)
        } else if n == 10 {
            Some(Shape::RoundedNW)
        } else if n == 11 {
            Some(Shape::RoundedNE)
        } else if n == 12 {
            Some(Shape::RoundedS)
        } else if n == 13 {
            Some(Shape::RoundedE)
        } else if n == 14 {
            Some(Shape::RoundedN)
        } else if n == 15 {
            Some(Shape::RoundedW)
        } else if n == 16 {
            Some(Shape::TriangleN)
        } else if n == 17 {
            Some(Shape::TriangleE)
        } else if n == 18 {
            Some(Shape::TriangleS)
        } else if n == 19 {
            Some(Shape::TriangleW)
        } else if n == 20 {
            Some(Shape::TriangleNS)
        } else if n == 21 {
            Some(Shape::TriangleWE)
        } else if n == 22 {
            Some(Shape::HalfW)
        } else if n == 23 {
            Some(Shape::HalfS)
        } else if n == 24 {
            Some(Shape::QuaterNE)
        } else if n == 25 {
            Some(Shape::QuaterSE)
        } else if n == 26 {
            Some(Shape::QuaterSW)
        } else if n == 27 {
            Some(Shape::QuaterNW)
        } else {
            None
        }
    }

    /// The wire value of this variant as a machine integer.
    pub fn to_i32(&self) -> (n: i32)
        ensures
            n == self.ordinal(),
    {
        match self {
            Shape::Blank => 0,
            Shape::BigCircle => 1,
            Shape::SmallCircle => 2,
            Shape::Diamond => 3,
            Shape::TriangleSE => 4,
            Shape::TriangleSW => 5,
            Shape::TriangleNW => 6,
            Shape::TriangleNE => 7,
            Shape::RoundedSE => 8,
            Shape::RoundedSW => 9,
            Shape::RoundedNW => 10,
            Shape::RoundedNE => 11,
            Shape::RoundedS => 12,
            Shape::RoundedE => 13,
            Shape::RoundedN => 14,
            Shape::RoundedW => 15,
            Shape::TriangleN => 16,
            Shape::TriangleE => 17,
            Shape::TriangleS => 18,
            Shape::TriangleW => 19,
            Shape::TriangleNS => 20,
            Shape::TriangleWE => 21,
            Shape::HalfW => 22,
            Shape::HalfS => 23,
            Shape::QuaterNE => 24,
            Shape::QuaterSE => 25,
            Shape::QuaterSW => 26,
            Shape::QuaterNW => 27,
        }
    }

    /// Resolves a wire value to its variant; `None` when no variant carries it.
    pub fn from_i32(n: i32) -> (r: Option<Shape>)
        ensures
            r == Shape::from_ordinal(n as int),
    {
        match n {
            0 => Some(Shape::Blank),
            1 => Some(Shape::BigCircle),
            2 => Some(Shape::SmallCircle),
            3 => Some(Shape::Diamond),
            4 => Some(Shape::TriangleSE),
            5 => Some(Shape::TriangleSW),
            6 => Some(Shape::TriangleNW),
            7 => Some(Shape::TriangleNE),
            8 => Some(Shape::RoundedSE),
            9 => Some(Shape::RoundedSW),
            10 => Some(Shape::RoundedNW),
            11 => Some(Shape::RoundedNE),
            12 => Some(Shape::RoundedS),
            13 => Some(Shape::RoundedE),
            14 => Some(Shape::RoundedN),
            15 => Some(Shape::RoundedW),
            16 => Some(Shape::TriangleN),
            17 => Some(Shape::TriangleE),
            18 => Some(Shape::TriangleS),
            19 => Some(Shape::TriangleW),
            20 => Some(Shape::TriangleNS),
            21 => Some(Shape::TriangleWE),
            22 => Some(Shape::HalfW),
            23 => Some(Shape::HalfS),
            24 => Some(Shape::QuaterNE),
            25 => Some(Shape::QuaterSE),
            26 => Some(Shape::QuaterSW),
            27 => Some(Shape::QuaterNW),
            _ => None,
        }
    }
}

/// Every `SpecialParse` is recovered from its own wire value, and the wire values are
/// exactly `1..=2`.
pub proof fn lemma_specialparse_ordinal_roundtrip(v: SpecialParse)
    ensures
        1 <= v.ordinal() <= 2,
        SpecialParse::from_ordinal(v.ordinal()) == Some(v),
{
}

/// A wire value resolves to a `SpecialParse` exactly when it lies in `1..=2`, and the
/// variant found carries that value.
pub proof fn lemma_specialparse_from_ordinal(n: int)
    ensures
        SpecialParse::from_ordinal(n) is Some <==> 1 <= n <= 2,
        SpecialParse::from_ordinal(n) matches Some(v) ==> v.ordinal() == n,
{
}

/// Every `Special` is recovered from its own wire value, and the wire values are
/// exactly `0..=27`.
pub proof fn lemma_special_ordinal_roundtrip(v: Special)
    ensures
        0 <= v.ordinal() <= 27,
        Special::from_ordinal(v.ordinal()) == Some(v),
{
}

/// A wire value resolves to a `Special` exactly when it lies in `0..=27`, and the
/// variant found carries that value.
pub proof fn lemma_special_from_ordinal(n: int)
    ensures
        Special::from_ordinal(n) is Some <==> 0 <= n <= 27,
        Special::from_ordinal(n) matches Some(v) ==> v.ordinal() == n,
{
}

/// Every `Element` is recovered from its own wire value, and the wire values are
/// exactly `0..=23`.
pub proof fn lemma_element_ordinal_roundtrip(v: Element)
    ensures
        0 <= v.ordinal() <= 23,
        Element::from_ordinal(v.ordinal()) == Some(v),
{
}

/// A wire value resolves to a `Element` exactly when it lies in `0..=23`, and the
/// variant found carries that value.
pub proof fn lemma_element_from_ordinal(n: int)
    ensures
        Element::from_ordinal(n) is Some <==> 0 <= n <= 23,
        Element::from_ordinal(n) matches Some(v) ==> v.ordinal() == n,
{
}

/// Every `Shape` is recovered from its own wire value, and the wire values are
/// exactly `0..=27`.
pub proof fn lemma_shape_ordinal_roundtrip(v: Shape)
    ensures
        0 <= v.ordinal() <= 27,
        Shape::from_ordinal(v.ordinal()) == Some(v),
{
}

/// A wire value resolves to a `Shape` exactly when it lies in `0..=27`, and the
/// variant found carries that value.
pub proof fn lemma_shape_from_ordinal(n: int)
    ensures
        Shape::from_ordinal(n) is Some <==> 0 <= n <= 27,
        Shape::from_ordinal(n) matches Some(v) ==> v.ordinal() == n,
{
}

impl Special {
    /// Breakable and moveable blocks stop the ball.
    pub open spec fn spec_is_solid(&self) -> bool {
        self == Special::MoveableBlock || self == Special::MoveableBlock2 || self
            == Special::HalfBreakable || self == Special::QuaterBreakable || self
            == Special::FullBreakable || self == Special::ThreeQuaterBreakable
    }

    /// The exit that a teleport start leads to: the one of the same colour.
    pub open spec fn spec_matching_teleport(self) -> Option<Special> {
        match self {
            Special::RedTeleportStart => Some(Special::RedTeleportExit),
            Special::BlueTeleportStart => Some(Special::BlueTeleportExit),
            Special::GreenTeleportStart => Some(Special::GreenTeleportExit),
            Special::YellowTeleportStart => Some(Special::YellowTeleportExit),
            _ => None,
        }
    }

    /// The four coloured teleport entrances.
    pub open spec fn spec_is_teleport_start(&self) -> bool {
        self == Special::YellowTeleportStart || self == Special::RedTeleportStart || self
            == Special::GreenTeleportStart || self == Special::BlueTeleportStart
    }

    /// Friction override of this special, in ten-thousandths: `9975` stands for
    /// the coefficient `0.9975`.
    pub open spec fn spec_friction_e4(self) -> int {
        match self {
            Special::Hole => 9600,
            Special::BlownMine => 9000,
            Special::BlownBigMine => 9000,
            Special::BlueTeleportStart => 9975,
            Special::RedTeleportStart => 9975,
            Special::YellowTeleportStart => 9975,
            Special::GreenTeleportStart => 9975,
            Special::MagnetAttract => 9000,
            Special::SunkMoveableBlock => 9935,
            _ => 10000,
        }
    }

    #[verifier::when_used_as_spec(spec_is_solid)]
    pub fn is_solid(&self) -> (b: bool)
        ensures
            b == self.spec_is_solid(),
    {
        matches!(
            self,
            Special::MoveableBlock | Special::MoveableBlock2 | Special::HalfBreakable
                | Special::QuaterBreakable | Special::FullBreakable
                | Special::ThreeQuaterBreakable
        )
    }

    pub fn get_matching_teleport(&self) -> (r: Option<Special>)
        ensures
            r == self.spec_matching_teleport(),
    {
        match self {
            Special::RedTeleportStart => Some(Special::RedTeleportExit),
            Special::BlueTeleportStart => Some(Special::BlueTeleportExit),
            Special::GreenTeleportStart => Some(Special::GreenTeleportExit),
            Special::YellowTeleportStart => Some(Special::YellowTeleportExit),
            _ => None,
        }
    }

    #[verifier::when_used_as_spec(spec_is_teleport_start)]
    pub fn is_teleport_start(&self) -> (b: bool)
        ensures
            b == self.spec_is_teleport_start(),
    {
        matches!(
            self,
            Special::YellowTeleportStart | Special::RedTeleportStart
                | Special::GreenTeleportStart | Special::BlueTeleportStart
        )
    }

    /// Friction override in ten-thousandths, always within `0..=10000`.
    pub fn friction_e4(&self) -> (f: u32)
        ensures
            f == self.spec_friction_e4(),
            f <= 10000,
    {
        match self {
            Special::Hole => 9600,
            Special::BlownMine | Special::BlownBigMine | Special::MagnetAttract => 9000,
            Special::BlueTeleportStart | Special::RedTeleportStart
            | Special::YellowTeleportStart | Special::GreenTeleportStart => 9975,
            Special::SunkMoveableBlock => 9935,
            _ => 10000,
        }
    }
}

/// A teleport start, and nothing else, has a matching exit; the exit is not
/// itself a start.
pub proof fn lemma_teleport_pairing(s: Special)
    ensures
        s.spec_matching_teleport() is Some <==> s.spec_is_teleport_start(),
        s.spec_matching_teleport() matches Some(exit) ==> !exit.spec_is_teleport_start()
            && exit.ordinal() == s.ordinal() + 1,
{
}

impl Element {
    /// Blocks and one-way walls stop the ball.
    pub open spec fn spec_is_solid(&self) -> bool {
        self == Element::Block || self == Element::StickyBlock || self == Element::BouncyBlock
            || self.spec_is_oneway()
    }

    pub open spec fn spec_is_oneway(&self) -> bool {
        self == Element::OnewayN || self == Element::OnewayE || self == Element::OnewayS || self
            == Element::OnewayW
    }

    /// The eight speed zones.
    pub open spec fn spec_is_downhill(&self) -> bool {
        4 <= self.ordinal() <= 11
    }

    /// Direction `(x, y)` in which a speed zone pushes, each component in
    /// `-1..=1` with y growing southwards; `(0, 0)` for every other element.
    /// The acceleration has the same magnitude along all eight directions, so a
    /// diagonal scales both components by `1/sqrt(2)`.
    pub open spec fn spec_downhill_direction(self) -> (int, int) {
        match self {
            Element::SpeedN => (0, -1),
            Element::SpeedNE => (1, -1),
            Element::SpeedE => (1, 0),
            Element::SpeedSE => (1, 1),
            Element::SpeedS => (0, 1),
            Element::SpeedSW => (-1, 1),
            Element::SpeedW => (-1, 0),
            Element::SpeedNW => (-1, -1),
            _ => (0, 0),
        }
    }

    /// Friction coefficient in ten-thousandths: `9935` stands for `0.9935`.
    pub open spec fn spec_friction_e4(self) -> int {
        match self {
            Element::Grass => 9935,
            Element::Dirt => 9200,
            Element::Mud => 8000,
            Element::Ice => 9975,
            Element::Water | Element::Acid => 0,
            Element::WaterSwamp | Element::AcidSwamp => 9500,
            Element::Block | Element::StickyBlock | Element::BouncyBlock => 9000,
            Element::FakeBlock => 9935,
            Element::OnewayN | Element::OnewayE | Element::OnewayS | Element::OnewayW => 9950,
            _ => 9935,
        }
    }

    #[verifier::when_used_as_spec(spec_is_solid)]
    pub fn is_solid(&self) -> (b: bool)
        ensures
            b == self.spec_is_solid(),
    {
        matches!(
            self,
            Element::Block | Element::StickyBlock | Element::BouncyBlock | Element::OnewayN
                | Element::OnewayE | Element::OnewayS | Element::OnewayW
        )
    }

    #[verifier::when_used_as_spec(spec_is_oneway)]
    pub fn is_oneway(&self) -> (b: bool)
        ensures
            b == self.spec_is_oneway(),
    {
        matches!(self, Element::OnewayN | Element::OnewayE | Element::OnewayS | Element::OnewayW)
    }

    #[verifier::when_used_as_spec(spec_is_downhill)]
    pub fn is_downhill(&self) -> (b: bool)
        ensures
            b == self.spec_is_downhill(),
    {
        matches!(
            self,
            Element::SpeedN | Element::SpeedNE | Element::SpeedE | Element::SpeedSE
                | Element::SpeedS | Element::SpeedSW | Element::SpeedW | Element::SpeedNW
        )
    }

    /// The unit direction of the downhill push as `(x, y)`.
    pub fn downhill_direction(&self) -> (d: (i8, i8))
        ensures
            (d.0 as int, d.1 as int) == self.spec_downhill_direction(),
            (d.0 != 0 || d.1 != 0) <==> self.spec_is_downhill(),
    {
        match self {
            Element::SpeedN => (0, -1),
            Element::SpeedNE => (1, -1),
            Element::SpeedE => (1, 0),
            Element::SpeedSE => (1, 1),
            Element::SpeedS => (0, 1),
            Element::SpeedSW => (-1, 1),
            Element::SpeedW => (-1, 0),
            Element::SpeedNW => (-1, -1),
            _ => (0, 0),
        }
    }

    /// Friction coefficient in ten-thousandths, always within `0..=10000`.
    pub fn friction_e4(&self) -> (f: u32)
        ensures
            f == self.spec_friction_e4(),
            f <= 10000,
    {
        match self {
            Element::Dirt => 9200,
            Element::Mud => 8000,
            Element::Ice => 9975,
            Element::Water | Element::Acid => 0,
            Element::WaterSwamp | Element::AcidSwamp => 9500,
            Element::Block | Element::StickyBlock | Element::BouncyBlock => 9000,
            Element::OnewayN | Element::OnewayE | Element::OnewayS | Element::OnewayW => 9950,
            _ => 9935,
        }
    }
}

/// One cell of the course.
///
/// A tile read from a code has exactly one of `special` and `shape`; see
/// [`Tile::is_valid`].
#[derive(PartialEq, Eq, Debug, Copy, Clone)]
pub struct Tile {
    pub special: Option<Special>,
    pub shape: Option<Shape>,
    pub background: Element,
    pub foreground: Element,
}

impl Tile {
    /// Exactly one of `special` and `shape` is populated.
    pub open spec fn is_valid(self) -> bool {
        self.special is Some <==> self.shape is None
    }

    /// The tile has a special or a shape to show.
    pub open spec fn is_populated(self) -> bool {
        self.special is Some || self.shape is Some
    }

    /// The default tile: blank grass.
    pub open spec fn blank() -> Tile {
        Tile {
            special: None,
            shape: Some(Shape::Blank),
            background: Element::Grass,
            foreground: Element::Grass,
        }
    }

    /// The tile that four integer fields describe, or the first field refused.
    /// The discriminator is checked first, then background and foreground, then
    /// the secondary field, read as a shape or as a special as the discriminator
    /// says.
    pub open spec fn spec_from_fields(special: int, secondary: int, background: int, foreground: int)
        -> Result<Tile, TileCreationError> {
        match SpecialParse::from_ordinal(special) {
            None => Err(TileCreationError::InvalidSpecial(special as i32)),
            Some(parse) => match Element::from_ordinal(background) {
                None => Err(TileCreationError::InvalidBackground(background as i32)),
                Some(bg) => match Element::from_ordinal(foreground) {
                    None => Err(TileCreationError::InvalidForeground(foreground as i32)),
                    Some(fg) => match parse {
                        SpecialParse::Normal => match Shape::from_ordinal(secondary) {
                            None => Err(TileCreationError::InvalidShape(secondary as i32)),
                            Some(shape) => Ok(
                                Tile {
                                    special: None,
                                    shape: Some(shape),
                                    background: bg,
                                    foreground: fg,
                                },
                            ),
                        },
                        SpecialParse::Special => match Special::from_ordinal(secondary) {
                            None => Err(TileCreationError::InvalidShape(secondary as i32)),
                            Some(special) => Ok(
                                Tile {
                                    special: Some(special),
                                    shape: None,
                                    background: bg,
                                    foreground: fg,
                                },
                            ),
                        },
                    },
                },
            },
        }
    }

    /// The four byte fields of a code, most significant first. The top field is
    /// the code divided by `2^24` rounding down, so it is negative for a
    /// negative code.
    pub open spec fn code_fields(code: int) -> (int, int, int, int) {
        (code / 0x100_0000, (code / 0x1_0000) % 256, (code / 0x100) % 256, code % 256)
    }

    /// The tile that a code stands for.
    pub open spec fn spec_from_code(code: int) -> Result<Tile, TileCreationError> {
        let f = Tile::code_fields(code);
        Tile::spec_from_fields(f.0, f.1, f.2, f.3)
    }

    /// The discriminator that this tile encodes with: `Special` when a special
    /// is present, `Normal` otherwise.
    pub open spec fn parse_kind(self) -> SpecialParse {
        if self.special is Some {
            SpecialParse::Special
        } else {
            SpecialParse::Normal
        }
    }

    /// The ordinal in the secondary byte: that of the special when there is one,
    /// else that of the shape.
    pub open spec fn secondary_ordinal(self) -> int
        recommends
            self.is_populated(),
    {
        match self.special {
            Some(s) => s.ordinal(),
            None => self.shape->0.ordinal(),
        }
    }

    /// The code of a tile: its four fields packed into bytes.
    pub open spec fn spec_code(self) -> int
        recommends
            self.is_populated(),
    {
        self.parse_kind().ordinal() * 0x100_0000 + self.secondary_ordinal() * 0x1_0000
            + self.background.ordinal() * 0x100 + self.foreground.ordinal()
    }

    pub fn new(
        special: Option<Special>,
        shape: Option<Shape>,
        background: Element,
        foreground: Element,
    ) -> (tile: Tile)
        ensures
            tile == (Tile { special, shape, background, foreground }),
    {
        Tile { special, shape, background, foreground }
    }

    /// Builds a tile from its four integer fields.
    pub fn from_i32s(
        special_value: i32,
        shape_value: i32,
        background_value: i32,
        foreground_value: i32,
    ) -> (r: Result<Tile, TileCreationError>)
        ensures
            r == Tile::spec_from_fields(
                special_value as int,
                shape_value as int,
                background_value as int,
                foreground_value as int,
            ),
            r matches Ok(tile) ==> tile.is_valid(),
    {
        let special_parse = match SpecialParse::from_i32(special_value) {
            Some(p) => p,
            None => {
                return Err(TileCreationError::InvalidSpecial(special_value));
            },
        };
        let background = match Element::from_i32(background_value) {
            Some(e) => e,
            None => {
                return Err(TileCreationError::InvalidBackground(background_value));
            },
        };
        let foreground = match Element::from_i32(foreground_value) {
            Some(e) => e,
            None => {
                return Err(TileCreationError::InvalidForeground(foreground_value));
            },
        };
        match special_parse {
            SpecialParse::Normal => match Shape::from_i32(shape_value) {
                Some(shape) => Ok(Tile { special: None, shape: Some(shape), background, foreground }),
                None => Err(TileCreationError::InvalidShape(shape_value)),
            },
            SpecialParse::Special => match Special::from_i32(shape_value) {
                Some(special) => Ok(
                    Tile { special: Some(special), shape: None, background, foreground },
                ),
                None => Err(TileCreationError::InvalidShape(shape_value)),
            },
        }
    }

    /// Decodes a 32-bit tile code.
    pub fn from_tile_code(tile_code: i32) -> (r: Result<Tile, TileCreationError>)
        ensures
            r == Tile::spec_from_code(tile_code as int),
            r matches Ok(tile) ==> tile.is_valid() && tile.spec_code() == tile_code,
    {
        proof {
            if Tile::spec_from_code(tile_code as int) is Ok {
                lemma_encode_decode(tile_code as int);
            }
        }
        let special_value = tile_code >> 24;
        assert(special_value == tile_code as int / 0x100_0000) by (bit_vector)
            requires
                special_value == tile_code >> 24,
        ;
        if special_value != 1 && special_value != 2 {
            return Err(TileCreationError::InvalidSpecial(special_value));
        }
        assert(0x100_0000 <= tile_code < 0x300_0000);
        let shape_value = (tile_code >> 16) % 256;
        let background_value = (tile_code >> 8) % 256;
        let foreground_value = tile_code % 256;
        assert(tile_code >> 16 == tile_code as int / 0x1_0000 && tile_code >> 8 == tile_code as int
            / 0x100) by (bit_vector)
            requires
                0x100_0000 <= tile_code < 0x300_0000,
        ;
        Tile::from_i32s(special_value, shape_value, background_value, foreground_value)
    }

    /// Encodes this tile. The secondary byte comes from the special when there
    /// is one, otherwise from the shape.
    pub fn to_tile_code(&self) -> (code: i32)
        requires
            self.is_populated(),
        ensures
            code == self.spec_code(),
            0x100_0000 <= code < 0x300_0000,
            self.is_valid() ==> Tile::spec_from_code(code as int) == Ok::<Tile, TileCreationError>(
                *self,
            ),
    {
        proof {
            if self.is_valid() {
                lemma_decode_encode(*self);
            }
        }
        let (special, shape): (i32, i32) = match self.special {
            None => match self.shape {
                Some(shape) => (SpecialParse::Normal.to_i32(), shape.to_i32()),
                None => (0, 0),
            },
            Some(special) => (SpecialParse::Special.to_i32(), special.to_i32()),
        };
        let background: i32 = self.background.to_i32();
        let foreground: i32 = self.foreground.to_i32();
        proof {
            lemma_specialparse_ordinal_roundtrip(self.parse_kind());
            lemma_element_ordinal_roundtrip(self.background);
            lemma_element_ordinal_roundtrip(self.foreground);
            if self.special is Some {
                lemma_special_ordinal_roundtrip(self.special->0);
            } else {
                lemma_shape_ordinal_roundtrip(self.shape->0);
            }
        }
        assert((special << 24) | (shape << 16) | (background << 8) | foreground == special
            * 0x100_0000 + shape * 0x1_0000 + background * 0x100 + foreground) by (bit_vector)
            requires
                1 <= special <= 2,
                0 <= shape < 256,
                0 <= background < 256,
                0 <= foreground < 256,
        ;
        (special << 24) | (shape << 16) | (background << 8) | foreground
    }
}

impl Default for Tile {
    fn default() -> (tile: Tile)
        ensures
            tile == Tile::blank(),
    {
        Tile {
            special: None,
            shape: Some(Shape::Blank),
            background: Element::Grass,
            foreground: Element::Grass,
        }
    }
}

/// Four byte-sized fields are read back from the integer they are packed into.
pub proof fn lemma_code_fields_of_packed(top: int, secondary: int, background: int, foreground: int)
    requires
        0 <= secondary < 256,
        0 <= background < 256,
        0 <= foreground < 256,
    ensures
        Tile::code_fields(
            top * 0x100_0000 + secondary * 0x1_0000 + background * 0x100 + foreground,
        ) == (top, secondary, background, foreground),
{
    let code = top * 0x100_0000 + secondary * 0x1_0000 + background * 0x100 + foreground;
    lemma_fundamental_div_mod_converse(
        code,
        0x100_0000,
        top,
        secondary * 0x1_0000 + background * 0x100 + foreground,
    );
    lemma_fundamental_div_mod_converse(
        code,
        0x1_0000,
        top * 0x100 + secondary,
        background * 0x100 + foreground,
    );
    lemma_fundamental_div_mod_converse(top * 0x100 + secondary, 256, top, secondary);
    lemma_fundamental_div_mod_converse(
        code,
        0x100,
        top * 0x1_0000 + secondary * 0x100 + background,
        foreground,
    );
    lemma_fundamental_div_mod_converse(
        top * 0x1_0000 + secondary * 0x100 + background,
        256,
        top * 0x100 + secondary,
        background,
    );
}

/// Encoding then decoding gives the tile back: for every tile with exactly one
/// of `special` and `shape`, the code decodes to that tile.
pub proof fn lemma_decode_encode(tile: Tile)
    requires
        tile.is_valid(),
    ensures
        Tile::spec_from_code(tile.spec_code()) == Ok::<Tile, TileCreationError>(tile),
{
    let top = tile.parse_kind().ordinal();
    let secondary = tile.secondary_ordinal();
    let background = tile.background.ordinal();
    let foreground = tile.foreground.ordinal();
    lemma_specialparse_ordinal_roundtrip(tile.parse_kind());
    lemma_element_ordinal_roundtrip(tile.background);
    lemma_element_ordinal_roundtrip(tile.foreground);
    if tile.special is Some {
        lemma_special_ordinal_roundtrip(tile.special->0);
    } else {
        lemma_shape_ordinal_roundtrip(tile.shape->0);
    }
    lemma_code_fields_of_packed(top, secondary, background, foreground);
    assert(Tile::spec_from_fields(top, secondary, background, foreground) == Ok::<
        Tile,
        TileCreationError,
    >(tile));
}

/// Every valid combination of discriminator, secondary ordinal, background and
/// foreground builds a tile whose code decodes to the same tile, and whose code
/// holds those four values as its bytes.
pub proof fn lemma_fields_roundtrip(special: int, secondary: int, background: int, foreground: int)
    requires
        Tile::spec_from_fields(special, secondary, background, foreground) is Ok,
    ensures
        ({
            let tile = Tile::spec_from_fields(special, secondary, background, foreground)->Ok_0;
            &&& tile.is_valid()
            &&& Tile::code_fields(tile.spec_code()) == (special, secondary, background, foreground)
            &&& Tile::spec_from_code(tile.spec_code()) == Ok::<Tile, TileCreationError>(tile)
        }),
{
    let tile = Tile::spec_from_fields(special, secondary, background, foreground)->Ok_0;
    lemma_specialparse_from_ordinal(special);
    lemma_element_from_ordinal(background);
    lemma_element_from_ordinal(foreground);
    lemma_shape_from_ordinal(secondary);
    lemma_special_from_ordinal(secondary);
    lemma_decode_encode(tile);
}

/// Decoding then encoding gives the code back: a code that decodes is the code
/// of the tile it decodes to.
pub proof fn lemma_encode_decode(code: int)
    requires
        Tile::spec_from_code(code) is Ok,
    ensures
        Tile::spec_from_code(code)->Ok_0.spec_code() == code,
{
    let f = Tile::code_fields(code);
    lemma_specialparse_from_ordinal(f.0);
    lemma_element_from_ordinal(f.2);
    lemma_element_from_ordinal(f.3);
    lemma_shape_from_ordinal(f.1);
    lemma_special_from_ordinal(f.1);
}

} // verus!
