//! Food kinds and what eating each one does.
use vstd::prelude::*;

use crate::grid::GridPosition;

verus! {

/// The three kinds of food; at most one of each is on the arena.
#[derive(Debug, Clone, Copy, PartialEq, Eq, Structural, Hash)]
pub enum FoodKind {
    Green,
    Red,
    Blue,
}

/// A positive rational factor `numerator / denominator` by which the snake's
/// speed is multiplied; the step duration is divided by it.
#[derive(Debug, Clone, Copy, PartialEq, Eq, Structural)]
pub struct SpeedMultiplier {
    pub numerator: u32,
    pub denominator: u32,
}

impl SpeedMultiplier {
    pub open spec fn wf(self) -> bool {
        self.numerator > 0 && self.denominator > 0
    }

    pub fn new(numerator: u32, denominator: u32) -> (r: SpeedMultiplier)
        requires
            numerator > 0,
            denominator > 0,
        ensures
            r.numerator == numerator,
            r.denominator == denominator,
            r.wf(),
    {
        SpeedMultiplier { numerator, denominator }
    }
}

/// A food with its effect parameters.
#[derive(Debug, Clone, Copy, PartialEq, Eq, Structural)]
pub enum Food {
    /// Makes the snake longer.
    Green { growth_amount: u32 },
    /// Makes the snake longer and changes its speed.
    Red { growth_amount: u32, speed_multiplier: SpeedMultiplier },
    /// Changes the snake's speed.
    Blue { speed_multiplier: SpeedMultiplier },
}

/// The sound to play when a food is eaten.
#[derive(Debug, Clone, Copy, PartialEq, Eq, Structural, Hash)]
pub enum AudioCue {
    GreenPickup,
    RedPickup,
    BluePickup,
}

/// What eating a food does: segments to add, a speed change, a sound.
#[derive(Debug, Clone, Copy, PartialEq, Eq, Structural)]
pub struct FoodEffect {
    pub growth: u32,
    pub speed_multiplier: Option<SpeedMultiplier>,
    pub cue: AudioCue,
}

impl Food {
    pub open spec fn wf(self) -> bool {
        match self {
            Food::Green { .. } => true,
            Food::Red { speed_multiplier, .. } => speed_multiplier.wf(),
            Food::Blue { speed_multiplier } => speed_multiplier.wf(),
        }
    }

    pub open spec fn kind_spec(self) -> FoodKind {
        match self {
            Food::Green { .. } => FoodKind::Green,
            Food::Red { .. } => FoodKind::Red,
            Food::Blue { .. } => FoodKind::Blue,
        }
    }

    /// Green grows the snake, Red grows it and changes its speed, Blue only
    /// changes its speed; each kind has its own sound.
    pub open spec fn effect_spec(self) -> FoodEffect {
        match self {
            Food::Green { growth_amount } => FoodEffect {
                growth: growth_amount,
                speed_multiplier: None,
                cue: AudioCue::GreenPickup,
            },
            Food::Red { growth_amount, speed_multiplier } => FoodEffect {
                growth: growth_amount,
                speed_multiplier: Some(speed_multiplier),
                cue: AudioCue::RedPickup,
            },
            Food::Blue { speed_multiplier } => FoodEffect {
                growth: 0,
                speed_multiplier: Some(speed_multiplier),
                cue: AudioCue::BluePickup,
            },
        }
    }

    pub fn kind(&self) -> (r: FoodKind)
        ensures
            r == self.kind_spec(),
    {
        match self {
            Food::Green { .. } => FoodKind::Green,
            Food::Red { .. } => FoodKind::Red,
            Food::Blue { .. } => FoodKind::Blue,
        }
    }

    pub fn effect(&self) -> (r: FoodEffect)
        ensures
            r == self.effect_spec(),
    {
        match *self {
            Food::Green { growth_amount } => FoodEffect {
                growth: growth_amount,
                speed_multiplier: None,
                cue: AudioCue::GreenPickup,
            },
            Food::Red { growth_amount, speed_multiplier } => FoodEffect {
                growth: growth_amount,
                speed_multiplier: Some(speed_multiplier),
                cue: AudioCue::RedPickup,
            },
            Food::Blue { speed_multiplier } => FoodEffect {
                growth: 0,
                speed_multiplier: Some(speed_multiplier),
                cue: AudioCue::BluePickup,
            },
        }
    }
}

/// A food lying on a cell.
#[derive(Debug, Clone, Copy, PartialEq, Eq, Structural)]
pub struct FoodItem {
    pub food: Food,
    pub position: GridPosition,
}

/// The food placed for each kind when that kind is missing.
#[derive(Debug, Clone, Copy, PartialEq, Eq, Structural)]
pub struct FoodMenu {
    pub green: Food,
    pub red: Food,
    pub blue: Food,
}

impl FoodMenu {
    pub open spec fn wf(self) -> bool {
        &&& self.green.kind_spec() == FoodKind::Green
        &&& self.red.kind_spec() == FoodKind::Red
        &&& self.blue.kind_spec() == FoodKind::Blue
        &&& self.green.wf()
        &&& self.red.wf()
        &&& self.blue.wf()
    }

    pub open spec fn food_of(self, kind: FoodKind) -> Food {
        match kind {
            FoodKind::Green => self.green,
            FoodKind::Red => self.red,
            FoodKind::Blue => self.blue,
        }
    }

    /// Green adds one segment; Red adds three and speeds up by 1.25; Blue
    /// slows down by 0.85.
    pub open spec fn standard_spec() -> FoodMenu {
        FoodMenu {
            green: Food::Green { growth_amount: 1 },
            red: Food::Red {
                growth_amount: 3,
                speed_multiplier: SpeedMultiplier { numerator: 125, denominator: 100 },
            },
            blue: Food::Blue {
                speed_multiplier: SpeedMultiplier { numerator: 85, denominator: 100 },
            },
        }
    }

    pub fn standard() -> (r: FoodMenu)
        ensures
            r.wf(),
            r == FoodMenu::standard_spec(),
    {
        FoodMenu {
            green: Food::Green { growth_amount: 1 },
            red: Food::Red {
                growth_amount: 3,
                speed_multiplier: SpeedMultiplier::new(125, 100),
            },
            blue: Food::Blue { speed_multiplier: SpeedMultiplier::new(85, 100) },
        }
    }

    pub fn food_for(&self, kind: FoodKind) -> (r: Food)
        ensures
            r == self.food_of(kind),
    {
        match kind {
            FoodKind::Green => self.green,
            FoodKind::Red => self.red,
            FoodKind::Blue => self.blue,
        }
    }
}

} // verus!
