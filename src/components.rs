use vstd::prelude::*;

verus! {

/// Where an entity stands, in arena units.
#[derive(Clone, Copy, Debug, PartialEq, Eq, Structural)]
pub struct Position {
    pub x: i32,
    pub y: i32,
}

/// Displacement applied to a position each frame.
#[derive(Clone, Copy, Debug, PartialEq, Eq, Structural)]
pub struct Velocity {
    pub x: i32,
    pub y: i32,
}

/// The point an AI-driven entity walks toward.
#[derive(Clone, Copy, Debug, PartialEq, Eq, Structural)]
pub struct MoveTarget {
    pub x: i32,
    pub y: i32,
}

/// Buttons held this frame.
#[derive(Clone, Copy, Debug, PartialEq, Eq, Structural)]
pub struct Input {
    pub left: bool,
    pub right: bool,
    pub up: bool,
    pub down: bool,
    pub attack: bool,
}

/// Partition key: entities of one team never harm each other.
#[derive(Clone, Copy, Debug, PartialEq, Eq, Structural)]
pub struct Team {
    pub id: u32,
}

impl Team {
    pub fn team_id(&self) -> (r: u32)
        ensures
            r == self.id,
    {
        self.id
    }
}

/// Facing as one of eight compass directions: `octant * 45` degrees, counted
/// from +x toward +y.
#[derive(Clone, Copy, Debug, PartialEq, Eq, Structural)]
pub struct Heading {
    pub octant: u8,
}

/// What a character is doing.
#[derive(Clone, Copy, Debug, PartialEq, Eq, Structural)]
pub enum CharacterState {
    Wait,
    Attack,
    Damaged,
}

/// The animation clips a character can play.
#[derive(Clone, Copy, Debug, PartialEq, Eq, Structural)]
pub enum CharacterAnimId {
    Wait,
    Attack,
    Damaged,
}

/// What the simulation reads of a character's animation playback: the clip
/// playing and whether it has reached its end.
#[derive(Clone, Copy, Debug, PartialEq, Eq, Structural)]
pub struct CharacterAnimator {
    pub playing: Option<CharacterAnimId>,
    pub at_end: bool,
}

impl CharacterAnimator {
    pub open spec fn played(id: CharacterAnimId) -> CharacterAnimator {
        CharacterAnimator { playing: Some(id), at_end: false }
    }

    pub fn new() -> (r: CharacterAnimator)
        ensures
            r.playing.is_none(),
            !r.at_end,
    {
        CharacterAnimator { playing: None, at_end: false }
    }

    pub fn playing_id(&self) -> (r: Option<CharacterAnimId>)
        ensures
            r == self.playing,
    {
        self.playing
    }

    pub fn is_end(&self) -> (r: bool)
        ensures
            r == self.at_end,
    {
        self.at_end
    }

    /// Starts clip `id` from its beginning.
    pub fn play(&mut self, id: CharacterAnimId)
        ensures
            *final(self) == CharacterAnimator::played(id),
    {
        self.playing = Some(id);
        self.at_end = false;
    }
}

} // verus!
