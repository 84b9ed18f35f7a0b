//! The solving session.
//!
//! The session holds the imported puzzle set and drives a trainee through
//! the active puzzle's solution line. Every state change goes through
//! [`Model::update`], a transition on one serialized event queue: trainee
//! input, navigation, and the deferred opponent reply are all events. A
//! matching submission schedules the reply; the caller performs the delay
//! and feeds the reply event back, tagged with the puzzle and move index
//! it was scheduled for, so a reply that outlived a navigation or a
//! re-import is discarded instead of mutating a position it never meant.

use vstd::prelude::*;

use crate::engine::{
    apply_move, clone_pos, legal_moves, legals_of, resolved_for, Pos, PosModel, ResolvedMove,
};
use crate::importer::{
    import_events, import_spec, puzzle_inv, puzzle_line_legal, EventModel, PgnEvent, Puzzle,
    PuzzleModel,
};
use crate::moves::{PuzzleMove, Role};

verus! {

/// The delay, in milliseconds, before a scheduled opponent reply fires.
pub const REPLY_DELAY_MS: u64 = 1000;

/// The user-visible status of the session.
#[derive(Clone, Copy, PartialEq, Eq, Structural, Debug)]
pub enum Status {
    /// Nothing to report.
    Empty,
    /// The whole solution line has been played.
    Success,
    /// The last submission was legal but not the recorded solution move.
    WrongAnswer,
}

/// The spelling of each status, for display.
pub open spec fn status_str(s: Status) -> Seq<char> {
    match s {
        Status::Empty => ""@,
        Status::Success => "Success"@,
        Status::WrongAnswer => "Wrong answer"@,
    }
}

/// One event of the session's queue.
#[derive(Clone, Copy, Debug)]
pub enum Msg {
    /// The trainee moved a piece: origin, destination, promotion.
    MovePlayed(u8, u8, Option<Role>),
    /// Go to the next puzzle.
    NextPuzzle,
    /// The trainee dropped a pocketed piece: role, destination.
    PieceDrop(Role, u8),
    /// A scheduled opponent reply fired. It names the puzzle and move
    /// index it was scheduled for, and is discarded if the session has
    /// moved on.
    PlayOpponentMove { puzzle: usize, mov: usize },
    /// Go to the previous puzzle.
    PreviousPuzzle,
}

/// The session's state.
pub struct Model {
    /// The active puzzle set.
    pub(crate) puzzles: Vec<Puzzle>,
    /// The index of the active puzzle.
    pub(crate) current_puzzle: usize,
    /// How many solution moves have been consumed for the active puzzle.
    pub(crate) current_move: usize,
    /// The position shown to the trainee.
    pub(crate) current_position: Option<Pos>,
    /// Whether a new submission is accepted; false while an opponent
    /// reply is pending.
    pub(crate) can_play: bool,
    /// The user-visible status.
    pub(crate) text: Status,
}

/// The mathematical model of the session's state.
#[verifier::ext_equal]
pub struct ModelView {
    /// The models of the loaded puzzles.
    pub puzzles: Seq<PuzzleModel>,
    /// The index of the active puzzle.
    pub current_puzzle: int,
    /// How many solution moves have been consumed.
    pub current_move: int,
    /// The model of the shown position.
    pub current_position: Option<PosModel>,
    /// Whether a new submission is accepted.
    pub can_play: bool,
    /// The user-visible status.
    pub text: Status,
}

impl View for Model {
    type V = ModelView;

    open(crate) spec fn view(&self) -> ModelView {
        ModelView {
            puzzles: self.puzzles@.map_values(|pz: Puzzle| pz@),
            current_puzzle: self.current_puzzle as int,
            current_move: self.current_move as int,
            current_position: match self.current_position {
                Some(p) => Some(p@),
                None => None,
            },
            can_play: self.can_play,
            text: self.text,
        }
    }
}

/// The session's well-formedness: solution lines are legal, and while a
/// puzzle is active the shown position is its starting position with
/// exactly the consumed solution moves applied.
pub open spec fn session_wf(s: ModelView) -> bool {
    &&& (forall|i: int| 0 <= i < s.puzzles.len() ==> puzzle_line_legal(#[trigger] s.puzzles[i]))
    &&& (s.puzzles.len() > 0 ==> {
        &&& 0 <= s.current_puzzle < s.puzzles.len()
        &&& 0 <= s.current_move <= s.puzzles[s.current_puzzle].moves.len()
        &&& s.current_position == Some(
            PosModel {
                fen: s.puzzles[s.current_puzzle].fen,
                applied: s.puzzles[s.current_puzzle].moves.take(s.current_move),
            },
        )
    })
}

/// The session's full invariant, over the running state as well as its
/// model.
pub open(crate) spec fn model_inv(m: Model) -> bool {
    &&& session_wf(m@)
    &&& (forall|i: int| 0 <= i < m.puzzles@.len() ==> puzzle_inv(#[trigger] m.puzzles@[i]))
}

/// The state at program start: no puzzles, nothing to show.
pub open spec fn init_model() -> ModelView {
    ModelView {
        puzzles: Seq::empty(),
        current_puzzle: 0,
        current_move: 0,
        current_position: None,
        can_play: true,
        text: Status::Empty,
    }
}

/// A board-move candidate, as the trainee's input describes it.
pub open spec fn board_candidate(from: u8, to: u8, promotion: Option<Role>) -> PuzzleMove {
    PuzzleMove::Board { from, to, promotion }
}

/// The view of a returned schedule request.
pub open spec fn sched_view(s: Option<(usize, usize)>) -> Option<(int, int)> {
    match s {
        Some((p, m)) => Some((p as int, m as int)),
        None => None,
    }
}

/// The view of a resolved candidate.
pub open spec fn mov_view(m: Option<ResolvedMove>) -> Option<PuzzleMove> {
    match m {
        Some(rm) => Some(rm@),
        None => None,
    }
}

/// What validating a resolved candidate does: nothing without an active
/// puzzle with moves left; on a match, play the move, block input, and
/// either report success or request the opponent reply; on a mismatch,
/// report a wrong answer and change nothing else.
pub open spec fn try_spec(s: ModelView, found: Option<PuzzleMove>) -> (ModelView, Option<
    (int, int),
>) {
    if !(0 <= s.current_puzzle < s.puzzles.len()) {
        (s, None)
    } else {
        let pz = s.puzzles[s.current_puzzle];
        if !(0 <= s.current_move < pz.moves.len()) {
            (s, None)
        } else {
            match found {
                None => (s, None),
                Some(m) => {
                    if m == pz.moves[s.current_move] {
                        let s2 = ModelView {
                            current_move: s.current_move + 1,
                            current_position: match s.current_position {
                                Some(c) => Some(
                                    PosModel { fen: c.fen, applied: c.applied.push(m) },
                                ),
                                None => None,
                            },
                            can_play: false,
                            ..s
                        };
                        if s.current_move + 1 == pz.moves.len() {
                            (ModelView { text: Status::Success, ..s2 }, None)
                        } else {
                            (s2, Some((s.current_puzzle, s.current_move + 1)))
                        }
                    } else {
                        (ModelView { text: Status::WrongAnswer, ..s }, None)
                    }
                },
            }
        }
    }
}

/// Re-snapshot the active puzzle's starting position, if there is one.
pub open spec fn show_spec(s: ModelView) -> ModelView {
    if 0 <= s.current_puzzle < s.puzzles.len() {
        ModelView {
            current_position: Some(
                PosModel { fen: s.puzzles[s.current_puzzle].fen, applied: Seq::empty() },
            ),
            ..s
        }
    } else {
        s
    }
}

/// Navigate to the given puzzle index: reset progress, unblock input,
/// clear the status, snapshot the puzzle's starting position.
pub open spec fn nav_spec(s: ModelView, ncp: int) -> ModelView {
    show_spec(
        ModelView {
            current_puzzle: ncp,
            current_move: 0,
            can_play: true,
            text: Status::Empty,
            ..s
        },
    )
}

/// What one event does to the session's state, and the reply it requests.
pub open spec fn update_spec(s: ModelView, msg: Msg) -> (ModelView, Option<(int, int)>) {
    match msg {
        Msg::MovePlayed(from, to, promotion) => {
            if !s.can_play {
                (s, None)
            } else {
                let found = match s.current_position {
                    Some(c) => if legals_of(c.fen, c.applied).contains(
                        board_candidate(from, to, promotion),
                    ) {
                        Some(board_candidate(from, to, promotion))
                    } else {
                        None
                    },
                    None => None,
                };
                try_spec(s, found)
            }
        },
        Msg::PieceDrop(role, to) => {
            if !s.can_play {
                (s, None)
            } else {
                let found = match s.current_position {
                    Some(c) => if legals_of(c.fen, c.applied).contains(
                        PuzzleMove::Put { role, to },
                    ) {
                        Some(PuzzleMove::Put { role, to })
                    } else {
                        None
                    },
                    None => None,
                };
                try_spec(s, found)
            }
        },
        Msg::PlayOpponentMove { puzzle, mov } => {
            if s.can_play || puzzle as int != s.current_puzzle || mov as int != s.current_move {
                (s, None)
            } else if !(0 <= s.current_puzzle < s.puzzles.len()) {
                (s, None)
            } else {
                let pz = s.puzzles[s.current_puzzle];
                if !(0 <= s.current_move < pz.moves.len()) {
                    (s, None)
                } else {
                    let m = pz.moves[s.current_move];
                    (
                        ModelView {
                            can_play: true,
                            current_move: s.current_move + 1,
                            current_position: match s.current_position {
                                Some(c) => Some(
                                    PosModel { fen: c.fen, applied: c.applied.push(m) },
                                ),
                                None => None,
                            },
                            ..s
                        },
                        None,
                    )
                }
            }
        },
        Msg::NextPuzzle => {
            let ncp = if s.current_puzzle + 1 < s.puzzles.len() {
                s.current_puzzle + 1
            } else {
                s.puzzles.len() - 1
            };
            (nav_spec(s, ncp), None)
        },
        Msg::PreviousPuzzle => {
            let ncp = if s.current_puzzle > 0 {
                s.current_puzzle - 1
            } else {
                0
            };
            (nav_spec(s, ncp), None)
        },
    }
}

/// Loading a puzzle set replaces the collection wholesale, resets all
/// progress, and snapshots the first puzzle's position; with an empty set
/// the shown position is left alone.
pub open spec fn load_spec(s: ModelView, ps: Seq<PuzzleModel>) -> ModelView {
    show_spec(
        ModelView {
            puzzles: ps,
            current_puzzle: 0,
            current_move: 0,
            can_play: true,
            text: Status::Empty,
            ..s
        },
    )
}

/// Every event preserves the session's well-formedness; navigation asks
/// for a non-empty puzzle set.
pub proof fn lemma_update_preserves_wf(s: ModelView, msg: Msg)
    requires
        session_wf(s),
        (msg is NextPuzzle || msg is PreviousPuzzle) ==> s.puzzles.len() > 0,
    ensures
        session_wf(update_spec(s, msg).0),
        update_spec(s, msg).0.puzzles == s.puzzles,
{
    let t = update_spec(s, msg).0;
    if s.puzzles.len() > 0 {
        let pz = s.puzzles[s.current_puzzle];
        if 0 <= s.current_move < pz.moves.len() {
            assert(pz.moves.take(s.current_move).push(pz.moves[s.current_move]) =~= pz.moves.take(
                s.current_move + 1,
            ));
        }
        if t.puzzles.len() > 0 && t.current_position != s.current_position {
            assert(t.puzzles[t.current_puzzle].moves.take(0) =~= Seq::<PuzzleMove>::empty());
        }
    }
}

impl Model {
    /// The state at program start.
    pub fn new() -> (m: Model)
        ensures
            m@ == init_model(),
            model_inv(m),
    {
        let m = Model {
            puzzles: Vec::new(),
            current_puzzle: 0,
            current_move: 0,
            current_position: None,
            can_play: true,
            text: Status::Empty,
        };
        proof {
            assert(m@ =~= init_model());
        }
        m
    }

    /// Re-snapshot the active puzzle's starting position.
    pub(crate) fn show_position(&mut self)
        requires
            forall|i: int|
                0 <= i < old(self).puzzles@.len() ==> puzzle_inv(#[trigger] old(self).puzzles@[i]),
        ensures
            final (self)@ == show_spec(old(self)@),
            final (self).puzzles == old(self).puzzles,
            final (self).current_puzzle == old(self).current_puzzle,
            final (self).current_move == old(self).current_move,
            final (self).can_play == old(self).can_play,
            final (self).text == old(self).text,
    {
        if self.current_puzzle < self.puzzles.len() {
            let snap = clone_pos(&self.puzzles[self.current_puzzle].position);
            self.current_position = Some(snap);
            proof {
                assert(self@ =~= show_spec(old(self)@));
            }
        }
    }

    /// Replace the puzzle set after an import.
    pub fn load_puzzles(&mut self, puzzles: Vec<Puzzle>)
        requires
            forall|i: int| 0 <= i < puzzles@.len() ==> puzzle_inv(#[trigger] puzzles@[i]),
        ensures
            final (self)@ == load_spec(old(self)@, puzzles@.map_values(|pz: Puzzle| pz@)),
            model_inv(*final (self)),
    {
        self.puzzles = puzzles;
        self.current_puzzle = 0;
        self.current_move = 0;
        self.can_play = true;
        self.text = Status::Empty;
        self.show_position();
        proof {
            assert(final (self)@ =~= load_spec(old(self)@, puzzles@.map_values(|pz: Puzzle| pz@)));
            if self.puzzles@.len() > 0 {
                assert(self@.puzzles[0].moves.take(0) =~= Seq::<PuzzleMove>::empty());
            }
        }
    }

    /// Validate a resolved candidate against the expected solution move.
    pub(crate) fn try_move(&mut self, mov: Option<ResolvedMove>) -> (sched: Option<(usize, usize)>)
        requires
            model_inv(*old(self)),
            mov matches Some(rm) ==> match old(self)@.current_position {
                Some(c) => legals_of(c.fen, c.applied).contains(rm@) && resolved_for(
                    rm,
                    c.fen,
                    c.applied,
                ),
                None => false,
            },
        ensures
            final (self)@ == try_spec(old(self)@, mov_view(mov)).0,
            sched_view(sched) == try_spec(old(self)@, mov_view(mov)).1,
            model_inv(*final (self)),
    {
        let cp = self.current_puzzle;
        if !(cp < self.puzzles.len()) {
            return None;
        }
        let nmoves = self.puzzles[cp].moves.len();
        let cm = self.current_move;
        if !(cm < nmoves) {
            return None;
        }
        match mov {
            None => None,
            Some(rm) => {
                let expected = self.puzzles[cp].moves[cm].data();
                if rm.data() == expected {
                    self.current_move = cm + 1;
                    match &mut self.current_position {
                        Some(p) => apply_move(p, &rm),
                        None => {
                            proof {
                                assert(false);
                            }
                        },
                    }
                    self.can_play = false;
                    proof {
                        let pz = old(self)@.puzzles[cp as int];
                        assert(pz.moves.take(cm as int).push(pz.moves[cm as int]) =~= pz.moves.take(
                            cm + 1,
                        ));
                    }
                    if self.current_move == nmoves {
                        self.text = Status::Success;
                        None
                    } else {
                        Some((cp, cm + 1))
                    }
                } else {
                    self.text = Status::WrongAnswer;
                    None
                }
            },
        }
    }

    /// Consume one event; the result is the opponent reply to schedule
    /// after [`REPLY_DELAY_MS`], if any. Navigation asks for a non-empty
    /// puzzle set.
    pub fn update(&mut self, msg: Msg) -> (sched: Option<(usize, usize)>)
        requires
            model_inv(*old(self)),
            (msg is NextPuzzle || msg is PreviousPuzzle) ==> old(self)@.puzzles.len() > 0,
        ensures
            final (self)@ == update_spec(old(self)@, msg).0,
            sched_view(sched) == update_spec(old(self)@, msg).1,
            model_inv(*final (self)),
    {
        match msg {
            Msg::MovePlayed(from, to, promotion) => {
                if !self.can_play {
                    return None;
                }
                let found = self.find_board_candidate(from, to, promotion);
                self.try_move(found)
            },
            Msg::PieceDrop(role, to) => {
                if !self.can_play {
                    return None;
                }
                let found = self.find_drop_candidate(role, to);
                self.try_move(found)
            },
            Msg::PlayOpponentMove { puzzle, mov } => {
                if self.can_play || puzzle != self.current_puzzle || mov != self.current_move {
                    return None;
                }
                let cp = self.current_puzzle;
                if !(cp < self.puzzles.len()) {
                    return None;
                }
                let nmoves = self.puzzles[cp].moves.len();
                let cm = self.current_move;
                if !(cm < nmoves) {
                    return None;
                }
                self.can_play = true;
                self.current_move = cm + 1;
                proof {
                    let pz = old(self)@.puzzles[cp as int];
                    assert(pz.moves.take(cm as int).push(pz.moves[cm as int]) =~= pz.moves.take(
                        cm + 1,
                    ));
                }
                match &mut self.current_position {
                    Some(p) => apply_move(p, &self.puzzles[cp].moves[cm]),
                    None => {
                        proof {
                            assert(false);
                        }
                    },
                }
                None
            },
            Msg::NextPuzzle => {
                self.current_move = 0;
                let len = self.puzzles.len();
                self.current_puzzle = if self.current_puzzle + 1 < len {
                    self.current_puzzle + 1
                } else {
                    len - 1
                };
                self.can_play = true;
                self.text = Status::Empty;
                self.show_position();
                proof {
                    assert(self@ =~= update_spec(old(self)@, msg).0);
                    lemma_update_preserves_wf(old(self)@, msg);
                }
                None
            },
            Msg::PreviousPuzzle => {
                self.current_move = 0;
                if self.current_puzzle > 0 {
                    self.current_puzzle = self.current_puzzle - 1;
                }
                self.can_play = true;
                self.text = Status::Empty;
                self.show_position();
                proof {
                    assert(self@ =~= update_spec(old(self)@, msg).0);
                    lemma_update_preserves_wf(old(self)@, msg);
                }
                None
            },
        }
    }

    /// Resolve a board-move submission against the legal moves of the
    /// shown position: the first legal move with this origin, destination
    /// and promotion.
    fn find_board_candidate(&self, from: u8, to: u8, promotion: Option<Role>) -> (found: Option<
        ResolvedMove,
    >)
        ensures
            mov_view(found) == (match self@.current_position {
                Some(c) => if legals_of(c.fen, c.applied).contains(
                    board_candidate(from, to, promotion),
                ) {
                    Some(board_candidate(from, to, promotion))
                } else {
                    None::<PuzzleMove>
                },
                None => None::<PuzzleMove>,
            }),
            found matches Some(rm) ==> match self@.current_position {
                Some(c) => legals_of(c.fen, c.applied).contains(rm@) && resolved_for(
                    rm,
                    c.fen,
                    c.applied,
                ),
                None => false,
            },
    {
        match &self.current_position {
            Some(p) => {
                let mut legals = legal_moves(p);
                let ghost ls = legals@.map_values(|rm: ResolvedMove| rm@);
                let mut k: usize = 0;
                let mut at: Option<usize> = None;
                while k < legals.len()
                    invariant
                        k <= legals.len(),
                        ls == legals@.map_values(|rm: ResolvedMove| rm@),
                        match at {
                            Some(ix) => ix < legals.len() && ls[ix as int] == board_candidate(
                                from,
                                to,
                                promotion,
                            ),
                            None => forall|j: int|
                                0 <= j < k ==> ls[j] != board_candidate(from, to, promotion),
                        },
                    decreases legals.len() - k,
                {
                    if at.is_none() {
                        let is_match = match legals[k].data() {
                            PuzzleMove::Board { from: f, to: t, promotion: pr } => f == from && t
                                == to && promotion_eq(pr, promotion),
                            PuzzleMove::Put { .. } => false,
                        };
                        if is_match {
                            at = Some(k);
                        }
                    }
                    k += 1;
                }
                match at {
                    Some(ix) => {
                        let rm = legals.remove(ix);
                        Some(rm)
                    },
                    None => {
                        proof {
                            assert(!ls.contains(board_candidate(from, to, promotion)));
                        }
                        None
                    },
                }
            },
            None => None,
        }
    }

    /// Resolve a drop submission against the legal moves of the shown
    /// position.
    fn find_drop_candidate(&self, role: Role, to: u8) -> (found: Option<ResolvedMove>)
        ensures
            mov_view(found) == (match self@.current_position {
                Some(c) => if legals_of(c.fen, c.applied).contains(PuzzleMove::Put { role, to }) {
                    Some(PuzzleMove::Put { role, to })
                } else {
                    None::<PuzzleMove>
                },
                None => None::<PuzzleMove>,
            }),
            found matches Some(rm) ==> match self@.current_position {
                Some(c) => legals_of(c.fen, c.applied).contains(rm@) && resolved_for(
                    rm,
                    c.fen,
                    c.applied,
                ),
                None => false,
            },
    {
        match &self.current_position {
            Some(p) => {
                let mut legals = legal_moves(p);
                let ghost ls = legals@.map_values(|rm: ResolvedMove| rm@);
                let mut k: usize = 0;
                let mut at: Option<usize> = None;
                while k < legals.len()
                    invariant
                        k <= legals.len(),
                        ls == legals@.map_values(|rm: ResolvedMove| rm@),
                        match at {
                            Some(ix) => ix < legals.len() && ls[ix as int] == (PuzzleMove::Put {
                                role,
                                to,
                            }),
                            None => forall|j: int|
                                0 <= j < k ==> ls[j] != (PuzzleMove::Put { role, to }),
                        },
                    decreases legals.len() - k,
                {
                    if at.is_none() {
                        let is_match = match legals[k].data() {
                            PuzzleMove::Put { role: r, to: t } => r == role && t == to,
                            PuzzleMove::Board { .. } => false,
                        };
                        if is_match {
                            at = Some(k);
                        }
                    }
                    k += 1;
                }
                match at {
                    Some(ix) => {
                        let rm = legals.remove(ix);
                        Some(rm)
                    },
                    None => {
                        proof {
                            assert(!ls.contains(PuzzleMove::Put { role, to }));
                        }
                        None
                    },
                }
            },
            None => None,
        }
    }

    /// How many puzzles are loaded.
    pub fn puzzle_count(&self) -> (r: usize)
        ensures
            r == self@.puzzles.len(),
    {
        self.puzzles.len()
    }

    /// The index of the active puzzle.
    pub fn current_puzzle_index(&self) -> (r: usize)
        ensures
            r == self@.current_puzzle,
    {
        self.current_puzzle
    }

    /// How many solution moves have been consumed.
    pub fn current_move_index(&self) -> (r: usize)
        ensures
            r == self@.current_move,
    {
        self.current_move
    }

    /// Whether a new submission is accepted.
    pub fn playable(&self) -> (r: bool)
        ensures
            r == self@.can_play,
    {
        self.can_play
    }

    /// The user-visible status.
    pub fn status(&self) -> (r: Status)
        ensures
            r == self@.text,
    {
        self.text
    }

    /// The user-visible status, spelled out.
    pub fn status_text(&self) -> (r: &'static str)
        ensures
            r@ == status_str(self@.text),
    {
        match self.text {
            Status::Empty => "",
            Status::Success => "Success",
            Status::WrongAnswer => "Wrong answer",
        }
    }

    /// The position shown to the trainee.
    pub fn position(&self) -> (r: &Option<Pos>)
        ensures
            (r is Some) == (self@.current_position is Some),
            (r matches Some(p) ==> self@.current_position == Some(p@)),
    {
        &self.current_position
    }

    /// The puzzle at the given index.
    pub fn puzzle(&self, i: usize) -> (r: &Puzzle)
        requires
            i < self@.puzzles.len(),
        ensures
            r@ == self@.puzzles[i as int],
    {
        &self.puzzles[i]
    }
}

fn promotion_eq(a: Option<Role>, b: Option<Role>) -> (r: bool)
    ensures
        r == (a == b),
{
    match (a, b) {
        (None, None) => true,
        (Some(x), Some(y)) => x == y,
        _ => false,
    }
}

/// Navigating forward at the last puzzle stays at the last puzzle.
pub proof fn lemma_next_clamps_at_last(s: ModelView)
    requires
        session_wf(s),
        s.puzzles.len() > 0,
        s.current_puzzle == s.puzzles.len() - 1,
    ensures
        update_spec(s, Msg::NextPuzzle).0.current_puzzle == s.current_puzzle,
{
}

/// Navigating backward at the first puzzle stays at the first puzzle.
pub proof fn lemma_previous_clamps_at_zero(s: ModelView)
    requires
        session_wf(s),
        s.puzzles.len() > 0,
        s.current_puzzle == 0,
    ensures
        update_spec(s, Msg::PreviousPuzzle).0.current_puzzle == 0,
{
}

/// A validated candidate that is not the expected solution move reports a
/// wrong answer and changes neither the shown position nor the progress,
/// and schedules nothing.
pub proof fn lemma_wrong_move_keeps_progress(s: ModelView, found: PuzzleMove)
    requires
        session_wf(s),
        0 <= s.current_puzzle < s.puzzles.len(),
        0 <= s.current_move < s.puzzles[s.current_puzzle].moves.len(),
        found != s.puzzles[s.current_puzzle].moves[s.current_move],
    ensures
        try_spec(s, Some(found)).0.current_move == s.current_move,
        try_spec(s, Some(found)).0.current_position == s.current_position,
        try_spec(s, Some(found)).0.text == Status::WrongAnswer,
        try_spec(s, Some(found)).1 is None,
{
}

/// A candidate that does not resolve to a legal move changes nothing at
/// all at validation.
pub proof fn lemma_unresolved_move_ignored(s: ModelView)
    ensures
        try_spec(s, None).0 == s,
        try_spec(s, None).1 is None,
{
}

/// What [`replay`] reaches: the state after importing the event stream,
/// loading the puzzles, and consuming the session events in order,
/// skipping navigation while no puzzle is loaded.
pub open spec fn replay_spec(evs: Seq<EventModel>, msgs: Seq<Msg>) -> ModelView
    decreases msgs.len(),
{
    if msgs.len() == 0 {
        load_spec(init_model(), import_spec(evs).puzzles)
    } else {
        let s = replay_spec(evs, msgs.drop_last());
        let msg = msgs.last();
        if (msg is NextPuzzle || msg is PreviousPuzzle) && s.puzzles.len() == 0 {
            s
        } else {
            update_spec(s, msg).0
        }
    }
}

/// Import an event stream into a fresh session and consume the given
/// session events in order. Navigation events are skipped while the
/// puzzle set is empty, the guard every caller owes them.
pub fn replay(events: &Vec<PgnEvent>, msgs: &Vec<Msg>) -> (m: Model)
    ensures
        m@ == replay_spec(events@.map_values(|e: PgnEvent| e@), msgs@),
        model_inv(m),
{
    let imp = import_events(events);
    let (puzzles, _) = imp.finish();
    let mut m = Model::new();
    m.load_puzzles(puzzles);
    proof {
        assert(msgs@.take(0) =~= Seq::<Msg>::empty());
    }
    let mut k: usize = 0;
    while k < msgs.len()
        invariant
            k <= msgs.len(),
            m@ == replay_spec(events@.map_values(|e: PgnEvent| e@), msgs@.take(k as int)),
            model_inv(m),
        decreases msgs.len() - k,
    {
        let msg = msgs[k];
        let skip = match msg {
            Msg::NextPuzzle | Msg::PreviousPuzzle => m.puzzles.len() == 0,
            _ => false,
        };
        proof {
            assert(msgs@.take(k + 1).drop_last() =~= msgs@.take(k as int));
            assert(msgs@.take(k + 1).last() == msgs@[k as int]);
        }
        if !skip {
            let _ = m.update(msg);
        }
        k += 1;
    }
    proof {
        assert(msgs@.take(msgs.len() as int) =~= msgs@);
    }
    m
}

/// The event a trainee sends to submit this move.
pub open spec fn msg_for(m: PuzzleMove) -> Msg {
    match m {
        PuzzleMove::Board { from, to, promotion } => Msg::MovePlayed(from, to, promotion),
        PuzzleMove::Put { role, to } => Msg::PieceDrop(role, to),
    }
}

/// The session after `fuel` further events in which the trainee submits
/// the expected solution move whenever input is accepted, and the
/// scheduled opponent reply fires otherwise.
pub open spec fn drive(s: ModelView, fuel: nat) -> ModelView
    decreases fuel,
{
    if fuel == 0 {
        s
    } else {
        let pz = s.puzzles[s.current_puzzle];
        let next = if s.can_play {
            update_spec(s, msg_for(pz.moves[s.current_move])).0
        } else {
            update_spec(
                s,
                Msg::PlayOpponentMove {
                    puzzle: s.current_puzzle as usize,
                    mov: s.current_move as usize,
                },
            ).0
        };
        drive(next, (fuel - 1) as nat)
    }
}

/// Submitting the recorded solution line, interleaved with firing each
/// scheduled opponent reply, ends with the success status and the whole
/// line consumed. This asks for a line whose remaining length is odd: the
/// trainee plays the last move, as in every puzzle whose solution ends
/// with the trainee's winning move.
pub proof fn lemma_solution_line_succeeds(s: ModelView)
    requires
        session_wf(s),
        s.puzzles.len() > 0,
        s.can_play,
        0 <= s.current_puzzle <= usize::MAX,
        s.puzzles[s.current_puzzle].moves.len() <= usize::MAX,
        0 <= s.current_move < s.puzzles[s.current_puzzle].moves.len(),
        (s.puzzles[s.current_puzzle].moves.len() - s.current_move) % 2 == 1,
    ensures
        ({
            let t = drive(s, (s.puzzles[s.current_puzzle].moves.len() - s.current_move) as nat);
            &&& t.text == Status::Success
            &&& t.current_puzzle == s.current_puzzle
            &&& t.current_move == s.puzzles[s.current_puzzle].moves.len()
        }),
    decreases s.puzzles[s.current_puzzle].moves.len() - s.current_move,
{
    let pz = s.puzzles[s.current_puzzle];
    let n = pz.moves.len() as int;
    let cm = s.current_move;
    let m = pz.moves[cm];
    let submit = msg_for(m);
    lemma_update_preserves_wf(s, submit);
    let s1 = update_spec(s, submit).0;
    assert(legals_of(pz.fen, pz.moves.take(cm)).contains(m));
    assert(s1.current_move == cm + 1 && s1.current_puzzle == s.current_puzzle && !s1.can_play);
    if cm + 1 == n {
        assert(s1.text == Status::Success);
        assert(drive(s, 1) == s1);
    } else {
        let reply = Msg::PlayOpponentMove {
            puzzle: s1.current_puzzle as usize,
            mov: s1.current_move as usize,
        };
        lemma_update_preserves_wf(s1, reply);
        let s2 = update_spec(s1, reply).0;
        assert(s2.current_move == cm + 2 && s2.current_puzzle == s.current_puzzle && s2.can_play);
        assert(s2.text == s1.text);
        lemma_solution_line_succeeds(s2);
        assert(drive(s, (n - cm) as nat) == drive(s1, (n - cm - 1) as nat));
        assert(drive(s1, (n - cm - 1) as nat) == drive(s2, (n - cm - 2) as nat));
    }
}

} // verus!
