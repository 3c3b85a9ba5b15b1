//! The overlay's buttons: what a visibility button does to the settings, and
//! how a button with several looks picks its image and steps through them.

use vstd::prelude::*;

use crate::GraphVisibility;
use crate::Settings;

verus! {

/// How the pointer meets a button.
#[derive(Clone, Copy, Debug, PartialEq, Eq, Structural)]
pub enum Interaction {
    /// The button is being pressed.
    Pressed,
    /// The pointer rests on the button.
    Hovered,
    /// The pointer is elsewhere.
    Idle,
}

/// Which toggle a visibility button controls.
#[derive(Clone, Copy, Debug, PartialEq, Eq, Structural)]
pub enum VisibilityButton {
    Character,
    Ranges,
    Graphs,
}

/// The graph mode that a three-state button selects in state `state`.
pub open spec fn graph_visibility_at(state: u16) -> GraphVisibility {
    if state == 1 {
        GraphVisibility::Adjacent
    } else if state == 2 {
        GraphVisibility::All
    } else {
        GraphVisibility::Hidden
    }
}

/// The settings after the button `vis`, now in state `state`, has been applied
/// to `settings`.
pub open spec fn settings_after(settings: Settings, vis: VisibilityButton, state: u16) -> Settings {
    match vis {
        VisibilityButton::Character => Settings { character_visible: state == 0, ..settings },
        VisibilityButton::Ranges => Settings { ranges_visible: state == 1, ..settings },
        VisibilityButton::Graphs => Settings {
            graph_visibility: graph_visibility_at(state),
            ..settings
        },
    }
}

/// Applies a visibility button to the settings. The character is shown in the
/// button's state 0, the ranges in state 1; the graph button selects no arcs,
/// adjacent arcs or all arcs in states 0, 1 and 2, and no arcs in any other
/// state. The other toggles keep their values.
pub fn vis_button_interaction(settings: &mut Settings, vis: VisibilityButton, state: u16)
    ensures
        *final(settings) == settings_after(*old(settings), vis, state),
{
    match vis {
        VisibilityButton::Character => {
            settings.character_visible = state == 0;
        },
        VisibilityButton::Ranges => {
            settings.ranges_visible = state == 1;
        },
        VisibilityButton::Graphs => {
            settings.graph_visibility = match state {
                1 => GraphVisibility::Adjacent,
                2 => GraphVisibility::All,
                _ => GraphVisibility::Hidden,
            };
        },
    }
}

/// A button that steps through a list of looks, one step per press. Each look
/// is a pair of images: the plain one first, then the highlighted one.
pub struct StateButton<T> {
    /// The current look, an index into `states`.
    pub state: u16,
    pub states: Vec<(T, T)>,
}

/// The number by which a button with `len` looks steps around: `len` as far as
/// it fits into 16 bits.
pub open spec fn period(len: int) -> int {
    len % 0x1_0000
}

/// The look that follows `state` on a button with `len` looks.
pub open spec fn next_state(state: u16, len: int) -> int {
    (state + 1) % period(len)
}

/// The state of a button with `len` looks after `interaction`, if it was in
/// `state` before: a press steps on, anything else leaves the state.
pub open spec fn state_after(state: u16, len: int, interaction: Interaction) -> int {
    if interaction == Interaction::Pressed {
        next_state(state, len)
    } else {
        state as int
    }
}

impl<T> StateButton<T> {
    /// The current state names one of the looks.
    pub open spec fn shows(&self) -> bool {
        self.state < self.states.len()
    }

    /// A press can be taken: there is a look to step to, and the step does not
    /// leave the range of the state.
    pub open spec fn steps(&self) -> bool {
        period(self.states.len() as int) != 0 && self.state < u16::MAX
    }

    /// The image that the button shows under `interaction`: the highlighted
    /// image of the current look while it is pressed or hovered, the plain one
    /// otherwise.
    pub open spec fn image_for(&self, interaction: Interaction) -> T {
        if interaction == Interaction::Idle {
            self.states[self.state as int].0
        } else {
            self.states[self.state as int].1
        }
    }

    /// A button with the given looks, showing the first.
    pub fn new(states: Vec<(T, T)>) -> (button: Self)
        ensures
            button.state == 0,
            button.states == states,
    {
        StateButton { state: 0, states }
    }

    /// The image to show under `interaction`.
    pub fn image(&self, interaction: Interaction) -> (image: &T)
        requires
            self.shows(),
        ensures
            *image == self.image_for(interaction),
    {
        let look = &self.states[self.state as usize];
        match interaction {
            Interaction::Pressed => &look.1,
            Interaction::Hovered => &look.1,
            Interaction::Idle => &look.0,
        }
    }

    /// Takes an interaction: a press steps to the next look, anything else
    /// leaves the button as it is. A button that showed one of its looks
    /// still does so afterwards.
    pub fn state_button_interaction(&mut self, interaction: Interaction)
        requires
            interaction == Interaction::Pressed ==> old(self).steps(),
        ensures
            final(self).states == old(self).states,
            final(self).state == state_after(
                old(self).state,
                old(self).states.len() as int,
                interaction,
            ),
            old(self).shows() ==> final(self).shows(),
    {
        match interaction {
            Interaction::Pressed => {
                let period: u16 = (self.states.len() % 0x1_0000) as u16;
                self.state = (self.state + 1) % period;
            },
            _ => {},
        }
    }
}

/// On a button with at most 65535 looks that shows one of them, a press moves
/// to the next look, and from the last look back to the first.
pub proof fn lemma_next_state_wraps(state: u16, len: int)
    requires
        state < len <= u16::MAX,
    ensures
        state + 1 == len ==> next_state(state, len) == 0,
        state + 1 < len ==> next_state(state, len) == state + 1,
{
    assert(period(len) == len);
    if state + 1 == len {
        vstd::arithmetic::div_mod::lemma_mod_self_0(len);
    } else {
        vstd::arithmetic::div_mod::lemma_small_mod((state + 1) as nat, len as nat);
    }
}

} // verus!
