//! Input mapping: which actions the held keys stand for.
//!
//! The host numbers the keys it knows and says which of them are held. The
//! mappings give each action the keys that trigger it; an action is active
//! while at least one of its keys is held.

use std::collections::{HashMap, HashSet};
use vstd::prelude::*;
use vstd::string::StringExecFns;
use crate::text::{decimal, spec_decimal};

verus! {

/// The key number of the left arrow.
pub const KEY_ARROW_LEFT: u32 = 0;

/// The key number of the right arrow.
pub const KEY_ARROW_RIGHT: u32 = 1;

/// The key number of the up arrow.
pub const KEY_ARROW_UP: u32 = 2;

/// The key number of the down arrow.
pub const KEY_ARROW_DOWN: u32 = 3;

/// The number of actions.
pub const ACTION_COUNT: u32 = 7;

/// The actions that inputs can trigger.
#[derive(Debug, Clone, Copy, PartialEq, Eq, Hash, Structural)]
pub enum GameAction {
    MoveLeft,
    MoveRight,
    MoveUp,
    MoveDown,
    RotateLeft,
    RotateRight,
    SpeedBoost,
}

impl GameAction {
    /// The number under which the action is kept in maps and sets: its
    /// place in the list of actions.
    pub open spec fn spec_code(self) -> u32 {
        match self {
            GameAction::MoveLeft => 0,
            GameAction::MoveRight => 1,
            GameAction::MoveUp => 2,
            GameAction::MoveDown => 3,
            GameAction::RotateLeft => 4,
            GameAction::RotateRight => 5,
            GameAction::SpeedBoost => 6,
        }
    }

    /// The number under which the action is kept in maps and sets.
    pub fn code(self) -> (r: u32)
        ensures
            r == self.spec_code(),
            r < ACTION_COUNT,
    {
        match self {
            GameAction::MoveLeft => 0,
            GameAction::MoveRight => 1,
            GameAction::MoveUp => 2,
            GameAction::MoveDown => 3,
            GameAction::RotateLeft => 4,
            GameAction::RotateRight => 5,
            GameAction::SpeedBoost => 6,
        }
    }

    /// The action with the number `code`, if there is one.
    pub fn from_code(code: u32) -> (r: Option<GameAction>)
        ensures
            match r {
                Some(action) => action.spec_code() == code,
                None => code >= ACTION_COUNT,
            },
    {
        if code == 0 {
            Some(GameAction::MoveLeft)
        } else if code == 1 {
            Some(GameAction::MoveRight)
        } else if code == 2 {
            Some(GameAction::MoveUp)
        } else if code == 3 {
            Some(GameAction::MoveDown)
        } else if code == 4 {
            Some(GameAction::RotateLeft)
        } else if code == 5 {
            Some(GameAction::RotateRight)
        } else if code == 6 {
            Some(GameAction::SpeedBoost)
        } else {
            None
        }
    }
}

/// Where an input comes from. A key is the only kind there is.
#[derive(Debug, Clone, Copy, PartialEq, Eq, Hash, Structural)]
pub enum InputSource {
    /// The key with the given number.
    KeyCode(u32),
}

impl InputSource {
    /// Whether the source is triggered while the keys `held` are down.
    pub open spec fn spec_is_held(self, held: Set<u32>) -> bool {
        match self {
            InputSource::KeyCode(key) => held.contains(key),
        }
    }

    /// The source in words: "Keyboard(" and the key number and ")".
    pub open spec fn spec_describe(self) -> Seq<char> {
        match self {
            InputSource::KeyCode(key) => "Keyboard("@ + spec_decimal(key as nat) + ")"@,
        }
    }

    /// Whether the source is triggered while the keys `held` are down.
    pub fn is_held(&self, held: &HashSet<u32>) -> (r: bool)
        ensures
            r == self.spec_is_held(held@),
    {
        broadcast use vstd::std_specs::hash::group_hash_axioms;

        match self {
            InputSource::KeyCode(key) => held.contains(key),
        }
    }

    /// The source in words.
    pub fn describe(&self) -> (r: String)
        ensures
            r@ == self.spec_describe(),
    {
        match self {
            InputSource::KeyCode(key) => {
                let mut text: String = String::from_str("Keyboard(");
                let number: String = decimal(*key as u64);
                text.append(number.as_str());
                text.append(")");
                text
            },
        }
    }
}

/// Whether one of `sources` is triggered while the keys `held` are down.
pub open spec fn any_held(sources: Seq<InputSource>, held: Set<u32>) -> bool {
    exists|i: int| 0 <= i < sources.len() && (#[trigger] sources[i]).spec_is_held(held)
}

/// The numbers of the actions that are active under `mappings` while the
/// keys `held` are down: those with a mapping of which a key is held.
pub open spec fn spec_active_codes(mappings: Map<u32, Vec<InputSource>>, held: Set<u32>) -> Set<
    u32,
> {
    Set::new(
        |code: u32|
            code < ACTION_COUNT && mappings.contains_key(code) && any_held(mappings[code]@, held),
    )
}

/// The standard mappings: each move action on its arrow key.
pub open spec fn spec_default_mappings(mappings: Map<u32, Vec<InputSource>>) -> bool {
    &&& mappings.dom() =~= set![0u32, 1u32, 2u32, 3u32]
    &&& mappings[0]@ == seq![InputSource::KeyCode(KEY_ARROW_LEFT)]
    &&& mappings[1]@ == seq![InputSource::KeyCode(KEY_ARROW_RIGHT)]
    &&& mappings[2]@ == seq![InputSource::KeyCode(KEY_ARROW_UP)]
    &&& mappings[3]@ == seq![InputSource::KeyCode(KEY_ARROW_DOWN)]
}

/// Whether one of `sources` is triggered while the keys `held` are down.
pub fn any_source_held(sources: &Vec<InputSource>, held: &HashSet<u32>) -> (r: bool)
    ensures
        r == any_held(sources@, held@),
{
    let mut i: usize = 0;
    while i < sources.len()
        invariant
            i <= sources@.len(),
            forall|j: int| 0 <= j < i ==> !(#[trigger] sources@[j]).spec_is_held(held@),
        decreases sources@.len() - i,
    {
        if sources[i].is_held(held) {
            return true;
        }
        i += 1;
    }
    false
}

/// The input sources of each action, by the action's number.
pub struct InputMappings {
    pub action_to_input: HashMap<u32, Vec<InputSource>>,
}

/// One mapping list with a single key in it.
fn single_key(key: u32) -> (r: Vec<InputSource>)
    ensures
        r@ == seq![InputSource::KeyCode(key)],
{
    let mut sources: Vec<InputSource> = Vec::new();
    sources.push(InputSource::KeyCode(key));
    assert(sources@ =~= seq![InputSource::KeyCode(key)]);
    sources
}

impl Default for InputMappings {
    fn default() -> (r: InputMappings)
        ensures
            spec_default_mappings(r.action_to_input@),
    {
        broadcast use vstd::std_specs::hash::group_hash_axioms;

        let mut mappings: HashMap<u32, Vec<InputSource>> = HashMap::new();
        mappings.insert(GameAction::MoveLeft.code(), single_key(KEY_ARROW_LEFT));
        mappings.insert(GameAction::MoveRight.code(), single_key(KEY_ARROW_RIGHT));
        mappings.insert(GameAction::MoveUp.code(), single_key(KEY_ARROW_UP));
        mappings.insert(GameAction::MoveDown.code(), single_key(KEY_ARROW_DOWN));
        InputMappings { action_to_input: mappings }
    }
}

impl InputMappings {
    /// Adds `source` behind the sources that `action` has so far.
    pub fn add_mapping(&mut self, action: GameAction, source: InputSource)
        ensures
            final(self).action_to_input@.dom() == old(self).action_to_input@.dom().insert(
                action.spec_code(),
            ),
            final(self).action_to_input@[action.spec_code()]@ == (if old(
                self,
            ).action_to_input@.contains_key(action.spec_code()) {
                old(self).action_to_input@[action.spec_code()]@
            } else {
                Seq::<InputSource>::empty()
            }).push(source),
            forall|code: u32|
                code != action.spec_code() && old(self).action_to_input@.contains_key(code)
                    ==> #[trigger] final(self).action_to_input@[code] == old(
                    self,
                ).action_to_input@[code],
    {
        broadcast use vstd::std_specs::hash::group_hash_axioms;

        let code: u32 = action.code();
        let mut sources: Vec<InputSource> = match self.action_to_input.remove(&code) {
            Some(sources) => sources,
            None => Vec::new(),
        };
        sources.push(source);
        self.action_to_input.insert(code, sources);
        assert(final(self).action_to_input@.dom() =~= old(self).action_to_input@.dom().insert(
            code,
        ));
    }

    /// Replaces whatever sources `action` has with `sources`.
    pub fn set_mappings_for_action(&mut self, action: GameAction, sources: Vec<InputSource>)
        ensures
            final(self).action_to_input@ == old(self).action_to_input@.insert(
                action.spec_code(),
                sources,
            ),
    {
        broadcast use vstd::std_specs::hash::group_hash_axioms;

        self.action_to_input.insert(action.code(), sources);
    }

    /// All mappings, by the action's number.
    pub fn get_current_mappings(&self) -> (r: &HashMap<u32, Vec<InputSource>>)
        ensures
            r@ == self.action_to_input@,
    {
        &self.action_to_input
    }
}

/// The actions that are being performed, by their numbers.
pub struct InputState {
    pub active_actions: HashSet<u32>,
}

impl Default for InputState {
    fn default() -> (r: InputState)
        ensures
            r.active_actions@ == Set::<u32>::empty(),
    {
        InputState { active_actions: HashSet::new() }
    }
}

impl InputState {
    /// Whether `action` is being performed.
    pub fn is_action_active(&self, action: GameAction) -> (r: bool)
        ensures
            r == self.active_actions@.contains(action.spec_code()),
    {
        broadcast use vstd::std_specs::hash::group_hash_axioms;

        let code: u32 = action.code();
        self.active_actions.contains(&code)
    }

    /// The numbers of all actions that are being performed.
    pub fn get_active_actions(&self) -> (r: &HashSet<u32>)
        ensures
            r@ == self.active_actions@,
    {
        &self.active_actions
    }
}

/// Works out the active actions from the keys that are held: an action is
/// active when one of its sources is triggered. What was active before
/// plays no part.
pub fn update_input_system(
    input_state: &mut InputState,
    mappings: &InputMappings,
    held: &HashSet<u32>,
)
    ensures
        final(input_state).active_actions@ == spec_active_codes(mappings.action_to_input@, held@),
{
    broadcast use vstd::std_specs::hash::group_hash_axioms;

    let mut active: HashSet<u32> = HashSet::new();
    let mut code: u32 = 0;
    while code < ACTION_COUNT
        invariant
            code <= ACTION_COUNT,
            forall|c: u32|
                active@.contains(c) <==> c < code && spec_active_codes(
                    mappings.action_to_input@,
                    held@,
                ).contains(c),
        decreases ACTION_COUNT - code,
    {
        let triggered: bool = match mappings.action_to_input.get(&code) {
            Some(sources) => any_source_held(sources, held),
            None => false,
        };
        if triggered {
            active.insert(code);
        }
        code += 1;
    }
    assert(active@ =~= spec_active_codes(mappings.action_to_input@, held@));
    input_state.active_actions = active;
}

} // verus!
