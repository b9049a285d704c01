//! The graph of screens: which screens follow which, and how often each was
//! visited.

use vstd::prelude::*;
use vstd::string::StringExecFns;
use std::collections::HashMap;
use crate::game::GameEvent;
use crate::gfx::Key;
use crate::text::{decimal, decimal_spec, number_list, number_list_spec};

verus! {

/// The highest screen number of the game.
pub const LAST_SCREEN: usize = 111;

/// The screens that a list of actions leads to, in the order of the actions.
pub open spec fn next_screens(actions: Seq<(String, usize)>) -> Seq<usize> {
    Seq::new(actions.len(), |i: int| actions[i].1)
}

/// The screens of the game and the visits made to them.
pub struct GameGraph {
    pub(crate) graph: HashMap<usize, Vec<usize>>,
    pub(crate) visited: HashMap<usize, usize>,
}

impl GameGraph {
    /// The screens that are known.
    pub closed spec fn screens(&self) -> Set<usize> {
        self.graph@.dom()
    }

    /// The screens that follow `screen_no`, for a known screen.
    pub closed spec fn successors(&self, screen_no: usize) -> Seq<usize> {
        self.graph@[screen_no]@
    }

    /// How often `screen_no` was visited.
    pub closed spec fn visits(&self, screen_no: usize) -> nat {
        if self.visited@.contains_key(screen_no) {
            self.visited@[screen_no] as nat
        } else {
            0
        }
    }

    /// A graph without screens or visits.
    pub fn new() -> (g: Self)
        ensures
            g.screens() == Set::<usize>::empty(),
            forall|s: usize| g.visits(s) == 0,
    {
        Self { graph: HashMap::new(), visited: HashMap::new() }
    }

    /// Records the screens that follow `screen_no`, replacing what was
    /// recorded for it before.
    pub fn add_screen(&mut self, screen_no: usize, actions: &[(String, usize)])
        ensures
            final(self).screens() == old(self).screens().insert(screen_no),
            final(self).successors(screen_no) == next_screens(actions@),
            forall|s: usize|
                s != screen_no && old(self).screens().contains(s) ==> final(self).successors(s)
                    == old(self).successors(s),
            forall|s: usize| final(self).visits(s) == old(self).visits(s),
    {
        broadcast use vstd::std_specs::hash::group_hash_axioms;

        let mut next: Vec<usize> = Vec::new();
        let mut i: usize = 0;
        while i < actions.len()
            invariant
                i <= actions@.len(),
                next@.len() == i,
                forall|j: int| 0 <= j < i ==> #[trigger] next@[j] == actions@[j].1,
            decreases actions@.len() - i,
        {
            next.push(actions[i].1);
            i += 1;
        }
        assert(next@ =~= next_screens(actions@));
        self.graph.insert(screen_no, next);
    }

    /// Counts one more visit to `screen_no`.
    pub fn visit(&mut self, screen_no: usize)
        requires
            old(self).visits(screen_no) < usize::MAX,
        ensures
            final(self).visits(screen_no) == old(self).visits(screen_no) + 1,
            forall|s: usize| s != screen_no ==> final(self).visits(s) == old(self).visits(s),
            final(self).screens() == old(self).screens(),
            forall|s: usize| final(self).successors(s) == old(self).successors(s),
    {
        broadcast use vstd::std_specs::hash::group_hash_axioms;

        let count: usize = match self.visited.get(&screen_no) {
            Some(v) => *v + 1,
            None => 1,
        };
        self.visited.insert(screen_no, count);
    }

    /// The graph of the screens `0..=LAST_SCREEN` whose actions are given:
    /// `screens[n]` holds the actions of screen `n`, or nothing where screen
    /// `n` has none that could be read. No screen is visited yet.
    pub fn load(screens: &Vec<Option<Vec<(String, usize)>>>) -> (g: Self)
        ensures
            forall|s: usize|
                g.screens().contains(s) <==> s <= LAST_SCREEN && s < screens@.len()
                    && screens@[s as int] is Some,
            forall|s: usize|
                g.screens().contains(s) ==> g.successors(s) == next_screens(
                    screens@[s as int]->Some_0@,
                ),
            forall|s: usize| g.visits(s) == 0,
    {
        let mut g = Self::new();
        let mut screen_no: usize = 0;
        while screen_no <= LAST_SCREEN && screen_no < screens.len()
            invariant
                screen_no <= LAST_SCREEN + 1,
                screen_no <= screens@.len(),
                forall|s: usize|
                    g.screens().contains(s) <==> s < screen_no && screens@[s as int] is Some,
                forall|s: usize|
                    g.screens().contains(s) ==> g.successors(s) == next_screens(
                        screens@[s as int]->Some_0@,
                    ),
                forall|s: usize| g.visits(s) == 0,
            decreases screens@.len() - screen_no,
        {
            match &screens[screen_no] {
                Some(actions) => {
                    g.add_screen(screen_no, actions.as_slice());
                },
                None => {},
            }
            screen_no += 1;
        }
        g
    }

    /// Handles a key press while the graph is shown: Enter and Esc leave it,
    /// every other key does nothing. The graph itself never changes.
    pub fn key_event(&self, key_code: Key) -> (event: Option<GameEvent>)
        ensures
            event == match key_code {
                Key::Enter | Key::Esc => Some(GameEvent::Exit),
                _ => None,
            },
    {
        match key_code {
            Key::Enter | Key::Esc => Some(GameEvent::Exit),
            _ => None,
        }
    }

    /// The screens that follow each known screen.
    pub fn edges(&self) -> (graph: &HashMap<usize, Vec<usize>>)
        ensures
            graph@.dom() == self.screens(),
            forall|s: usize| self.screens().contains(s) ==> graph@[s]@ == self.successors(s),
    {
        &self.graph
    }

    /// How often `screen_no` was visited.
    pub fn visit_count(&self, screen_no: usize) -> (count: usize)
        ensures
            count == self.visits(screen_no),
    {
        broadcast use vstd::std_specs::hash::group_hash_axioms;

        match self.visited.get(&screen_no) {
            Some(v) => *v,
            None => 0,
        }
    }
}

/// The colour a screen is listed in, by the number of visits made to it.
#[derive(Debug, Clone, Copy, PartialEq, Eq, Structural)]
pub enum VisitColor {
    DarkGray,
    Blue,
    Cyan,
    Green,
    Yellow,
    Magenta,
    Red,
}

/// The colour for a screen with `visit_count` visits: the more visits, the
/// warmer.
pub open spec fn visit_color_spec(visit_count: usize) -> VisitColor {
    if visit_count == 0 {
        VisitColor::DarkGray
    } else if visit_count <= 2 {
        VisitColor::Blue
    } else if visit_count <= 5 {
        VisitColor::Cyan
    } else if visit_count <= 10 {
        VisitColor::Green
    } else if visit_count <= 20 {
        VisitColor::Yellow
    } else if visit_count <= 50 {
        VisitColor::Magenta
    } else {
        VisitColor::Red
    }
}

/// The colour for a screen with `visit_count` visits.
pub fn visit_color(visit_count: usize) -> (color: VisitColor)
    ensures
        color == visit_color_spec(visit_count),
{
    if visit_count == 0 {
        VisitColor::DarkGray
    } else if visit_count <= 2 {
        VisitColor::Blue
    } else if visit_count <= 5 {
        VisitColor::Cyan
    } else if visit_count <= 10 {
        VisitColor::Green
    } else if visit_count <= 20 {
        VisitColor::Yellow
    } else if visit_count <= 50 {
        VisitColor::Magenta
    } else {
        VisitColor::Red
    }
}

/// The line that lists a screen: nothing for a screen that was never
/// visited, else its number, the screens that follow it and its visits.
pub open spec fn screen_line_spec(
    screen_no: usize,
    next_screens: Seq<usize>,
    visit_count: usize,
) -> Seq<char> {
    if visit_count == 0 {
        Seq::empty()
    } else {
        "Screen "@ + decimal_spec(screen_no as nat) + ": "@ + number_list_spec(next_screens) + " ("@
            + decimal_spec(visit_count as nat) + "x)"@
    }
}

/// The line that lists a screen.
pub fn screen_line(screen_no: usize, next_screens: &Vec<usize>, visit_count: usize) -> (line: String)
    ensures
        line@ == screen_line_spec(screen_no, next_screens@, visit_count),
{
    if visit_count == 0 {
        return String::new();
    }
    let mut line = String::from_str("Screen ");
    line.append(decimal(screen_no).as_str());
    line.append(": ");
    line.append(number_list(next_screens).as_str());
    line.append(" (");
    line.append(decimal(visit_count).as_str());
    line.append("x)");
    line
}

/// Where the `index`-th line of the listing goes in a frame of `width` by
/// `height` cells: down the left column as long as there is room above the
/// border, then down a second column that starts in the middle.
pub open spec fn line_position_spec(index: int, width: int, height: int) -> (int, int) {
    if index < height - 2 {
        (1, 1 + index)
    } else if height >= 2 {
        (width / 2 + 1, 1 + index - (height - 2))
    } else {
        (width / 2 + 1, 1 + index)
    }
}

/// Where the `index`-th line of the listing goes.
pub fn line_position(index: u16, width: u16, height: u16) -> (position: (u16, u16))
    requires
        line_position_spec(index as int, width as int, height as int).1 <= u16::MAX,
    ensures
        (position.0 as int, position.1 as int) == line_position_spec(
            index as int,
            width as int,
            height as int,
        ),
{
    if height >= 2 && index < height - 2 {
        (1, 1 + index)
    } else if height >= 2 {
        (width / 2 + 1, index - (height - 2) + 1)
    } else {
        (width / 2 + 1, 1 + index)
    }
}

/// Width of a column of the listing.
pub fn column_width(width: u16) -> (w: u16)
    requires
        width >= 4,
    ensures
        w == width / 2 - 2,
{
    width / 2 - 2
}

} // verus!
