//! The state of the input method: idle, composing a preedit, or choosing
//! among the conversion candidates.

use vstd::prelude::*;

use crate::engine::candidates::{cand_views, AnnotatedCandidate, CandView, CandidateSource};

verus! {

/// The text shown at the insertion point while composing, with the caret
/// position in characters.
#[derive(Debug)]
pub struct Preedit {
    pub text: String,
    pub caret: usize,
}

impl Preedit {
    /// The text.
    pub fn text(&self) -> (r: &str)
        ensures
            r@ == self.text@,
    {
        self.text.as_str()
    }

    /// The caret position, in characters.
    pub fn caret(&self) -> (r: usize)
        ensures
            r == self.caret,
    {
        self.caret
    }
}

/// The candidates on offer and the selected one. The cursor indexes the
/// list; an empty list (a source view with nothing to show) has the
/// cursor at 0.
#[derive(Debug)]
pub struct CandidateList {
    pub candidates: Vec<AnnotatedCandidate>,
    pub cursor: usize,
}

impl CandidateList {
    /// The cursor is on a candidate, or at 0 in an empty list.
    pub open spec fn wf(&self) -> bool {
        if self.candidates@.len() == 0 {
            self.cursor == 0
        } else {
            self.cursor < self.candidates@.len()
        }
    }

    /// The candidates as plain values.
    pub open spec fn views(&self) -> Seq<CandView> {
        cand_views(self.candidates@)
    }

    /// A list of `candidates` with the first one selected.
    pub fn new(candidates: Vec<AnnotatedCandidate>) -> (r: Self)
        ensures
            r.wf(),
            r.views() == cand_views(candidates@),
            r.cursor == 0,
    {
        CandidateList { candidates, cursor: 0 }
    }

    /// The candidates, in order.
    pub fn candidates(&self) -> (r: &Vec<AnnotatedCandidate>)
        ensures
            cand_views(r@) == self.views(),
    {
        &self.candidates
    }

    /// The index of the selected candidate.
    pub fn cursor(&self) -> (r: usize)
        ensures
            r == self.cursor,
    {
        self.cursor
    }

    /// The number of candidates.
    pub fn len(&self) -> (r: usize)
        ensures
            r == self.views().len(),
    {
        self.candidates.len()
    }

    /// Whether there is no candidate.
    pub fn is_empty(&self) -> (r: bool)
        ensures
            r == (self.views().len() == 0),
    {
        self.candidates.len() == 0
    }

    /// The selected candidate; `None` in an empty list.
    pub fn selected(&self) -> (r: Option<&AnnotatedCandidate>)
        requires
            self.wf(),
        ensures
            match r {
                Some(c) => self.views().len() > 0 && crate::engine::candidates::cand_view(*c)
                    == self.views()[self.cursor as int],
                None => self.views().len() == 0,
            },
    {
        if self.candidates.len() == 0 {
            None
        } else {
            Some(&self.candidates[self.cursor])
        }
    }

    /// The selected candidate's text; `None` in an empty list.
    pub fn selected_text(&self) -> (r: Option<&str>)
        requires
            self.wf(),
        ensures
            match r {
                Some(t) => self.views().len() > 0 && t@ == self.views()[self.cursor as int].0,
                None => self.views().len() == 0,
            },
    {
        if self.candidates.len() == 0 {
            None
        } else {
            Some(self.candidates[self.cursor].text.as_str())
        }
    }
}

/// The current state of the input method.
#[derive(Debug)]
pub enum InputState {
    /// Nothing composed: keys start a composition or go to the application.
    Empty,
    /// Building the preedit (hiragana, katakana or alphabet).
    Composing { preedit: Preedit },
    /// Choosing among the candidates.
    Conversion {
        /// The preedit showing the selected candidate.
        preedit: Preedit,
        /// The candidates, possibly narrowed to one source.
        candidates: CandidateList,
        /// The settled reading the conversion was built from.
        reading: String,
        /// The source view shown; `None` for the full list.
        filter: Option<CandidateSource>,
    },
}

impl InputState {
    /// The idle state, as a fresh engine starts.
    pub fn new() -> (r: Self)
        ensures
            r is Empty,
    {
        InputState::Empty
    }

    /// Whether nothing is composed.
    pub fn is_empty(&self) -> (r: bool)
        ensures
            r == (*self is Empty),
    {
        match self {
            InputState::Empty => true,
            _ => false,
        }
    }

    /// The preedit, in the composing and conversion states.
    pub fn preedit(&self) -> (r: Option<&Preedit>)
        ensures
            match self {
                InputState::Empty => r is None,
                InputState::Composing { preedit } => r == Some(preedit),
                InputState::Conversion { preedit, .. } => r == Some(preedit),
            },
    {
        match self {
            InputState::Empty => None,
            InputState::Composing { preedit } => Some(preedit),
            InputState::Conversion { preedit, .. } => Some(preedit),
        }
    }

    /// The preedit, to edit in place, in the composing and conversion
    /// states.
    pub fn preedit_mut(&mut self) -> (r: Option<&mut Preedit>)
        ensures
            match *old(self) {
                InputState::Empty => r is None && *final(self) is Empty,
                InputState::Composing { preedit } => r is Some && *r->0 == preedit
                    && *final(self) == (InputState::Composing { preedit: *final(r->0) }),
                InputState::Conversion { preedit, candidates, reading, filter } => r is Some && *r->0
                    == preedit && *final(self) == (InputState::Conversion {
                    preedit: *final(r->0),
                    candidates,
                    reading,
                    filter,
                }),
            },
    {
        match self {
            InputState::Empty => None,
            InputState::Composing { preedit } => Some(preedit),
            InputState::Conversion { preedit, .. } => Some(preedit),
        }
    }

    /// The source view shown, in the conversion state.
    pub fn filter(&self) -> (r: Option<CandidateSource>)
        ensures
            match self {
                InputState::Conversion { filter, .. } => r == *filter,
                _ => r is None,
            },
    {
        match self {
            InputState::Conversion { filter, .. } => *filter,
            _ => None,
        }
    }

    /// The reading the conversion was built from, in the conversion state.
    pub fn reading(&self) -> (r: Option<&str>)
        ensures
            match self {
                InputState::Conversion { reading, .. } => r is Some && r->0@ == reading@,
                _ => r is None,
            },
    {
        match self {
            InputState::Conversion { reading, .. } => Some(reading.as_str()),
            _ => None,
        }
    }

    /// The candidates, in the conversion state.
    pub fn candidates(&self) -> (r: Option<&CandidateList>)
        ensures
            match self {
                InputState::Conversion { candidates, .. } => r == Some(candidates),
                _ => r is None,
            },
    {
        match self {
            InputState::Conversion { candidates, .. } => Some(candidates),
            _ => None,
        }
    }

    /// The candidates, to navigate in place, in the conversion state.
    pub fn candidates_mut(&mut self) -> (r: Option<&mut CandidateList>)
        ensures
            match *old(self) {
                InputState::Conversion { preedit, candidates, reading, filter } => r is Some && *r->0
                    == candidates && *final(self) == (InputState::Conversion {
                    preedit,
                    candidates: *final(r->0),
                    reading,
                    filter,
                }),
                _ => r is None && *final(self) == *old(self),
            },
    {
        match self {
            InputState::Conversion { candidates, .. } => Some(candidates),
            _ => None,
        }
    }
}

impl Default for InputState {
    /// The idle state.
    fn default() -> (r: Self)
        ensures
            r is Empty,
    {
        InputState::Empty
    }
}

impl InputState {
    /// The candidate list of a conversion has its cursor in range.
    pub open spec fn wf(&self) -> bool {
        match self {
            InputState::Conversion { candidates, .. } => candidates.wf(),
            _ => true,
        }
    }
}

/// What committing the conversion produces: the selected candidate's text
/// (or, in an empty source view, the reading itself, so a commit never
/// swallows the composition) and the reading the selected candidate
/// stands for, if it carries one; `None` outside the conversion state.
pub open spec fn spec_selected_conversion_info(s: InputState) -> Option<(Seq<char>, Option<Seq<char>>)> {
    match s {
        InputState::Conversion { candidates, reading, .. } => if candidates.views().len() == 0 {
            Some((reading@, None))
        } else {
            let c = candidates.views()[candidates.cursor as int];
            Some((c.0, c.1))
        },
        _ => None,
    }
}

/// The text and reading a commit of the conversion takes (see
/// [`spec_selected_conversion_info`]).
pub fn selected_conversion_info(state: &InputState) -> (r: Option<(String, Option<String>)>)
    requires
        state.wf(),
    ensures
        match r {
            Some(p) => spec_selected_conversion_info(*state) == Some(
                (p.0@, crate::rewriter::opt_view(p.1)),
            ),
            None => spec_selected_conversion_info(*state) is None,
        },
{
    match state {
        InputState::Conversion { candidates, reading, .. } => {
            match candidates.selected() {
                None => Some((reading.clone(), None)),
                Some(c) => {
                    let reading = match &c.reading {
                        Some(r) => Some(r.clone()),
                        None => None,
                    };
                    Some((c.text.clone(), reading))
                },
            }
        },
        _ => None,
    }
}

} // verus!
