//! The companion's configuration.

use vstd::prelude::*;
use crate::clock::Span;
use crate::task::Task;

verus! {

#[verifier::external_type_specification]
#[verifier::external_body]
pub struct ExColor(crossterm::style::Color);

/// Which companion to show.
#[derive(Clone, Copy, Debug, PartialEq, Eq, Structural)]
pub enum CharacterChoice {
    DebugGuy,
    Kitty,
}

impl CharacterChoice {
    /// The companion's name.
    pub fn character_name(&self) -> (r: &'static str)
        ensures
            r@ == match self {
                CharacterChoice::DebugGuy => "Debug Guy (very cool)"@,
                CharacterChoice::Kitty => "Kitted Catte"@,
            },
    {
        match self {
            CharacterChoice::DebugGuy => "Debug Guy (very cool)",
            CharacterChoice::Kitty => "Kitted Catte",
        }
    }

    /// The file, under the animations directory, that holds the companion's
    /// animation library.
    pub fn animation_file(&self) -> (r: &'static str)
        ensures
            r@ == match self {
                CharacterChoice::DebugGuy => "debug_guy.txt"@,
                CharacterChoice::Kitty => "kitty.txt"@,
            },
    {
        match self {
            CharacterChoice::DebugGuy => "debug_guy.txt",
            CharacterChoice::Kitty => "kitty.txt",
        }
    }
}

/// The settings: which companion, how long a task may stay due before it
/// counts as past, how fast happiness decays, how often the idle behaviour
/// changes, how long a done task's animation holds, the colour, and the
/// tasks.
#[derive(Debug)]
pub struct Config {
    pub character: CharacterChoice,
    pub task_timeout: Span,
    pub task_timeout_max: Span,
    pub idle_animation_time_min: Span,
    pub idle_animation_time_max: Span,
    pub task_animation_duration: Span,
    pub colour: crossterm::style::Color,
    pub tasks: Vec<Task>,
}

impl Config {
    pub open spec fn wf(&self) -> bool {
        forall|i: int| 0 <= i < self.tasks@.len() ==> (#[trigger] self.tasks@[i]).wf()
    }

    /// The companion's name.
    pub fn character_name(&self) -> (r: &'static str)
        ensures
            r@ == match self.character {
                CharacterChoice::DebugGuy => "Debug Guy (very cool)"@,
                CharacterChoice::Kitty => "Kitted Catte"@,
            },
    {
        self.character.character_name()
    }
}

} // verus!
