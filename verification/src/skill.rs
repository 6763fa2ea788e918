//! What an actor is able to do, and for how long.

use vstd::prelude::*;
use vstd::std_specs::convert::FromSpecImpl;
use vstd::string::*;

verus! {

/// Game time, counted in turns.
pub type GameTime = usize;

/// What a skill lets an actor do.
#[derive(Debug, Clone, Copy, PartialEq, Eq, Structural)]
pub enum SkillKind {
    Swim,
    Climb,
    /// Seeing further; `radius` is how far.
    Vision { radius: i32 },
}

/// How long a skill lasts.
#[derive(Debug, Clone, Copy, PartialEq, Eq, Structural)]
pub enum SkillDuration {
    Permanent,
    Temporary { duration: GameTime },
}

/// Something that an actor is able to do.
#[derive(Debug, Clone, Copy, PartialEq, Eq, Structural)]
pub struct Skill {
    pub kind: SkillKind,
    pub duration: SkillDuration,
}

/// The name of a kind of skill.
pub open spec fn skill_name(kind: SkillKind) -> Seq<char> {
    match kind {
        SkillKind::Swim => "swimming"@,
        SkillKind::Climb => "climbing"@,
        SkillKind::Vision { .. } => "vision"@,
    }
}

impl Skill {
    /// A skill that does not run out.
    pub fn new(kind: SkillKind) -> (s: Skill)
        ensures
            s == (Skill { kind, duration: SkillDuration::Permanent }),
    {
        Skill { kind, duration: SkillDuration::Permanent }
    }

    /// A skill that lasts for what `duration` converts to.
    pub fn new_temporary<D: Into<SkillDuration>>(kind: SkillKind, duration: D) -> (s: Skill)
        ensures
            s.kind == kind,
            call_ensures(D::into, (duration,), s.duration),
    {
        Skill { kind, duration: duration.into() }
    }

    /// How the skill is called.
    pub fn description(&self) -> (text: String)
        ensures
            text@ == skill_name(self.kind),
    {
        match self.kind {
            SkillKind::Swim => String::from_str("swimming"),
            SkillKind::Climb => String::from_str("climbing"),
            SkillKind::Vision { .. } => String::from_str("vision"),
        }
    }
}

impl From<SkillKind> for Skill {
    fn from(kind: SkillKind) -> (s: Skill) {
        Skill { kind, duration: SkillDuration::Permanent }
    }
}

impl FromSpecImpl<SkillKind> for Skill {
    open spec fn obeys_from_spec() -> bool {
        true
    }

    open spec fn from_spec(kind: SkillKind) -> Skill {
        Skill { kind, duration: SkillDuration::Permanent }
    }
}

impl From<GameTime> for SkillDuration {
    fn from(time: GameTime) -> (d: SkillDuration) {
        SkillDuration::Temporary { duration: time }
    }
}

impl FromSpecImpl<GameTime> for SkillDuration {
    open spec fn obeys_from_spec() -> bool {
        true
    }

    open spec fn from_spec(time: GameTime) -> SkillDuration {
        SkillDuration::Temporary { duration: time }
    }
}

} // verus!
