//! The traversal engine: a session is the tag of the current node and the
//! life that is left, and a turn moves it on by one choice.

use crate::graph::{NodeView, StoryGraph};
use crate::text::{parse_usize_or, trim, trimmed, usize_or};
use vstd::prelude::*;

verus! {

/// The tag at which a session starts.
pub const START_TAG: &'static str = "LUZ";

/// The life with which a session starts.
pub const START_LIFE: i32 = 100;

/// The index that stands for a line which writes no index.
pub const NO_CHOICE: usize = 99;

/// The state of a traversal.
#[derive(Debug, PartialEq, Eq)]
pub struct Session {
    pub current_tag: String,
    pub life: i32,
}

/// What a [`Session`] holds, as mathematical values.
pub struct SessionView {
    pub current_tag: Seq<char>,
    pub life: int,
}

impl View for Session {
    type V = SessionView;

    open spec fn view(&self) -> SessionView {
        SessionView { current_tag: self.current_tag@, life: self.life as int }
    }
}

/// How a turn went.
#[derive(Debug, PartialEq, Eq, Clone, Copy)]
pub enum Turn {
    /// There is no node under the current tag: the story is over, and the
    /// session is as it was.
    Ended,
    /// The index named a choice: the session moved to the choice's target
    /// and took the choice's life delta. `dead` says whether the life is
    /// used up.
    Moved { dead: bool },
    /// The index named no choice: the session stays at its node and takes
    /// the node's own life delta. `dead` says whether the life is used up.
    Refused { dead: bool },
}

/// The session after a turn with `index` at its current node: unchanged
/// where the graph has no such node.
pub open spec fn session_after(
    graph: Map<Seq<char>, NodeView>,
    session: SessionView,
    index: int,
) -> SessionView {
    if !graph.contains_key(session.current_tag) {
        session
    } else {
        let node = graph[session.current_tag];
        if 0 <= index < node.options.len() {
            SessionView {
                current_tag: node.options[index].tag,
                life: session.life + node.options[index].life_delta,
            }
        } else {
            SessionView {
                current_tag: session.current_tag,
                life: session.life + node.record.life_delta,
            }
        }
    }
}

/// How a turn with `index` goes. The life is looked at after the delta has
/// been applied, and it is used up when it is zero or less.
pub open spec fn turn_of(
    graph: Map<Seq<char>, NodeView>,
    session: SessionView,
    index: int,
) -> Turn {
    if !graph.contains_key(session.current_tag) {
        Turn::Ended
    } else {
        let dead = session_after(graph, session, index).life <= 0;
        if 0 <= index < graph[session.current_tag].options.len() {
            Turn::Moved { dead }
        } else {
            Turn::Refused { dead }
        }
    }
}

/// Whether the life after a turn with `index` can be held in an `i32`.
pub open spec fn turn_fits(
    graph: Map<Seq<char>, NodeView>,
    session: SessionView,
    index: int,
) -> bool {
    i32::MIN <= session_after(graph, session, index).life <= i32::MAX
}

/// Reads the index that a line of input writes: the line without the
/// whitespace around it, as an unsigned numeral. A line that writes no index
/// stands for [`NO_CHOICE`].
pub fn parse_index(line: &str) -> (index: usize)
    ensures
        index == usize_or(trimmed(line@), NO_CHOICE),
{
    parse_usize_or(trim(line), NO_CHOICE)
}

impl Session {
    /// The session at the start of a story: at [`START_TAG`] with
    /// [`START_LIFE`].
    pub fn start() -> (session: Session)
        ensures
            session@ == (SessionView { current_tag: START_TAG@, life: START_LIFE as int }),
    {
        Session { current_tag: START_TAG.to_owned(), life: START_LIFE }
    }

    /// Takes one turn with the index that the player chose. Returns `None`,
    /// and leaves the session as it was, exactly when the life after the
    /// turn could not be held in an `i32`.
    pub fn advance(&mut self, graph: &StoryGraph, index: usize) -> (r: Option<Turn>)
        ensures
            match r {
                Some(turn) => turn_fits(graph@, old(self)@, index as int) && final(self)@
                    == session_after(graph@, old(self)@, index as int) && turn == turn_of(
                    graph@,
                    old(self)@,
                    index as int,
                ),
                None => !turn_fits(graph@, old(self)@, index as int) && final(self)@ == old(
                    self,
                )@,
            },
    {
        let node = match graph.get(self.current_tag.as_str()) {
            Some(node) => node,
            None => {
                return Some(Turn::Ended);
            },
        };
        if index < node.options.len() {
            let option = &node.options[index];
            assert(node@.options[index as int] == option@);
            match self.life.checked_add(option.life_delta) {
                Some(life) => {
                    self.current_tag = option.tag.clone();
                    self.life = life;
                    Some(Turn::Moved { dead: life <= 0 })
                },
                None => None,
            }
        } else {
            match self.life.checked_add(node.record.life_delta) {
                Some(life) => {
                    self.life = life;
                    Some(Turn::Refused { dead: life <= 0 })
                },
                None => None,
            }
        }
    }
}

} // verus!
