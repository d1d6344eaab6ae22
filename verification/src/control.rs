//! The switches of a simulation: which rules are on, whether it is paused,
//! and what a click spawns.

use vstd::prelude::*;

verus! {

/// A switch that a command can flip.
#[derive(Clone, Copy, Debug, PartialEq, Eq, Structural)]
pub enum Rule {
    Separation,
    Alignment,
    Cohesion,
    Random,
    DebugCircles,
    DebugVectors,
}

/// The switch that `name` names, if it names one.
pub open spec fn rule_named(name: Seq<char>) -> Option<Rule> {
    if name == "separation"@ {
        Some(Rule::Separation)
    } else if name == "alignment"@ {
        Some(Rule::Alignment)
    } else if name == "cohesion"@ {
        Some(Rule::Cohesion)
    } else if name == "random"@ {
        Some(Rule::Random)
    } else if name == "debug_circles"@ {
        Some(Rule::DebugCircles)
    } else if name == "debug_vectors"@ {
        Some(Rule::DebugVectors)
    } else {
        None
    }
}

/// Tells whether two strings hold the same text.
fn same_text(a: &str, b: &str) -> (same: bool)
    ensures
        same == (a@ == b@),
{
    let left: String = a.to_owned();
    let right: String = b.to_owned();
    left == right
}

impl Rule {
    /// The switch that `name` names: `Some` for one of the six names
    /// `separation`, `alignment`, `cohesion`, `random`, `debug_circles` and
    /// `debug_vectors`, and `None` for any other text.
    pub fn from_name(name: &str) -> (rule: Option<Rule>)
        ensures
            rule == rule_named(name@),
    {
        if same_text(name, "separation") {
            Some(Rule::Separation)
        } else if same_text(name, "alignment") {
            Some(Rule::Alignment)
        } else if same_text(name, "cohesion") {
            Some(Rule::Cohesion)
        } else if same_text(name, "random") {
            Some(Rule::Random)
        } else if same_text(name, "debug_circles") {
            Some(Rule::DebugCircles)
        } else if same_text(name, "debug_vectors") {
            Some(Rule::DebugVectors)
        } else {
            None
        }
    }
}

/// Which rules steer the birds, and which overlays are shown.
#[derive(Clone, Copy, Debug, PartialEq, Eq, Structural)]
pub struct RuleState {
    pub separation: bool,
    pub alignment: bool,
    pub cohesion: bool,
    pub random_movement: bool,
    pub debug_circles: bool,
    pub debug_vectors: bool,
}

impl RuleState {
    /// The state of one switch.
    pub open spec fn enabled(self, rule: Rule) -> bool {
        match rule {
            Rule::Separation => self.separation,
            Rule::Alignment => self.alignment,
            Rule::Cohesion => self.cohesion,
            Rule::Random => self.random_movement,
            Rule::DebugCircles => self.debug_circles,
            Rule::DebugVectors => self.debug_vectors,
        }
    }

    /// The switches after `rule` was flipped.
    pub open spec fn toggled(self, rule: Rule) -> RuleState {
        match rule {
            Rule::Separation => RuleState { separation: !self.separation, ..self },
            Rule::Alignment => RuleState { alignment: !self.alignment, ..self },
            Rule::Cohesion => RuleState { cohesion: !self.cohesion, ..self },
            Rule::Random => RuleState { random_movement: !self.random_movement, ..self },
            Rule::DebugCircles => RuleState { debug_circles: !self.debug_circles, ..self },
            Rule::DebugVectors => RuleState { debug_vectors: !self.debug_vectors, ..self },
        }
    }

    /// The switches after the one that `name` names was flipped; a name that
    /// names none leaves them as they are.
    pub open spec fn toggled_by_name(self, name: Seq<char>) -> RuleState {
        match rule_named(name) {
            Some(rule) => self.toggled(rule),
            None => self,
        }
    }

    /// The four rules on and the two overlays off.
    pub fn new() -> (state: RuleState)
        ensures
            state == (RuleState {
                separation: true,
                alignment: true,
                cohesion: true,
                random_movement: true,
                debug_circles: false,
                debug_vectors: false,
            }),
    {
        RuleState {
            separation: true,
            alignment: true,
            cohesion: true,
            random_movement: true,
            debug_circles: false,
            debug_vectors: false,
        }
    }

    /// Tells whether a switch is on.
    pub fn is_enabled(&self, rule: Rule) -> (on: bool)
        ensures
            on == self.enabled(rule),
    {
        match rule {
            Rule::Separation => self.separation,
            Rule::Alignment => self.alignment,
            Rule::Cohesion => self.cohesion,
            Rule::Random => self.random_movement,
            Rule::DebugCircles => self.debug_circles,
            Rule::DebugVectors => self.debug_vectors,
        }
    }

    /// Flips one switch and leaves the others.
    pub fn toggle(&mut self, rule: Rule)
        ensures
            *final(self) == old(self).toggled(rule),
            final(self).enabled(rule) == !old(self).enabled(rule),
    {
        match rule {
            Rule::Separation => {
                self.separation = !self.separation;
            },
            Rule::Alignment => {
                self.alignment = !self.alignment;
            },
            Rule::Cohesion => {
                self.cohesion = !self.cohesion;
            },
            Rule::Random => {
                self.random_movement = !self.random_movement;
            },
            Rule::DebugCircles => {
                self.debug_circles = !self.debug_circles;
            },
            Rule::DebugVectors => {
                self.debug_vectors = !self.debug_vectors;
            },
        }
    }

    /// Flips the switch that `name` names and returns it; a name that names
    /// none changes nothing and returns `None`.
    pub fn toggle_rule(&mut self, name: &str) -> (flipped: Option<Rule>)
        ensures
            flipped == rule_named(name@),
            *final(self) == old(self).toggled_by_name(name@),
    {
        let rule: Option<Rule> = Rule::from_name(name);
        match rule {
            Some(r) => {
                self.toggle(r);
            },
            None => {},
        }
        rule
    }
}

/// Flipping a switch twice restores every switch.
pub proof fn lemma_toggle_twice(state: RuleState, rule: Rule)
    ensures
        state.toggled(rule).toggled(rule) == state,
        state.toggled(rule) != state,
{
}

/// Flipping a switch by its name twice restores every switch, whatever the
/// name.
pub proof fn lemma_toggle_by_name_twice(state: RuleState, name: Seq<char>)
    ensures
        state.toggled_by_name(name).toggled_by_name(name) == state,
{
}

/// Flipping one switch leaves every other switch as it was.
pub proof fn lemma_toggle_leaves_others(state: RuleState, rule: Rule, other: Rule)
    requires
        rule != other,
    ensures
        state.toggled(rule).enabled(other) == state.enabled(other),
        state.toggled(rule).enabled(rule) == !state.enabled(rule),
{
}

/// Whether the simulation runs.
#[derive(Clone, Copy, Debug, PartialEq, Eq, Structural)]
pub enum Pause {
    /// Ticks advance the flock and frames show it.
    Running,
    /// A pause was asked for; the next frame shows the pause menu.
    ToPause,
    /// The pause menu is on the screen.
    Paused,
}

impl Pause {
    /// The state after the pause command: a running simulation is to pause,
    /// any other runs again.
    pub open spec fn toggled(self) -> Pause {
        match self {
            Pause::Running => Pause::ToPause,
            Pause::ToPause => Pause::Running,
            Pause::Paused => Pause::Running,
        }
    }

    /// The state after a frame was shown: a pause that was asked for is in
    /// force.
    pub open spec fn after_frame(self) -> Pause {
        match self {
            Pause::Running => Pause::Running,
            Pause::ToPause => Pause::Paused,
            Pause::Paused => Pause::Paused,
        }
    }
}

/// What a click spawns.
#[derive(Clone, Copy, Debug, PartialEq, Eq, Structural)]
pub enum Entity {
    Bird,
    Obstacle,
}

impl Entity {
    /// The other kind.
    pub open spec fn toggled(self) -> Entity {
        match self {
            Entity::Bird => Entity::Obstacle,
            Entity::Obstacle => Entity::Bird,
        }
    }
}

/// What a frame shows.
#[derive(Clone, Copy, Debug, PartialEq, Eq, Structural)]
pub enum Frame {
    /// The birds, the obstacles and the labels.
    Scene,
    /// The pause menu, over the last scene.
    PauseMenu,
    /// Nothing new: the pause menu stays.
    Nothing,
}

/// A key of the keyboard, as far as the simulation tells keys apart.
#[derive(Clone, Copy, Debug, PartialEq, Eq, Structural)]
pub enum Key {
    S,
    A,
    C,
    R,
    D,
    V,
    P,
    Space,
    Escape,
    B,
    O,
    Other,
}

/// What a key asks for.
#[derive(Clone, Copy, Debug, PartialEq, Eq, Structural)]
pub enum Command {
    Toggle(Rule),
    TogglePause,
    ToggleSpawn,
    Quit,
    KillBirds,
    KillObstacles,
    Nothing,
}

/// The command on each key.
pub open spec fn command_of(key: Key) -> Command {
    match key {
        Key::S => Command::Toggle(Rule::Separation),
        Key::A => Command::Toggle(Rule::Alignment),
        Key::C => Command::Toggle(Rule::Cohesion),
        Key::R => Command::Toggle(Rule::Random),
        Key::D => Command::Toggle(Rule::DebugCircles),
        Key::V => Command::Toggle(Rule::DebugVectors),
        Key::P => Command::TogglePause,
        Key::Space => Command::ToggleSpawn,
        Key::Escape => Command::Quit,
        Key::B => Command::KillBirds,
        Key::O => Command::KillObstacles,
        Key::Other => Command::Nothing,
    }
}

impl Key {
    /// The command on this key.
    pub fn command(self) -> (command: Command)
        ensures
            command == command_of(self),
    {
        match self {
            Key::S => Command::Toggle(Rule::Separation),
            Key::A => Command::Toggle(Rule::Alignment),
            Key::C => Command::Toggle(Rule::Cohesion),
            Key::R => Command::Toggle(Rule::Random),
            Key::D => Command::Toggle(Rule::DebugCircles),
            Key::V => Command::Toggle(Rule::DebugVectors),
            Key::P => Command::TogglePause,
            Key::Space => Command::ToggleSpawn,
            Key::Escape => Command::Quit,
            Key::B => Command::KillBirds,
            Key::O => Command::KillObstacles,
            Key::Other => Command::Nothing,
        }
    }
}

} // verus!
