//! The puzzle importer.
//!
//! The importer consumes the structural events of an annotated game record
//! — record starts, tag pairs, notation tokens — in document order, and
//! accumulates puzzles. A tag with key `FEN` whose value holds a `|`
//! separator opens a new puzzle from the text left of the separator (minus
//! one trailing character, the space before the `|`); every token that the
//! engine resolves against the running cursor position is appended to the
//! most recently opened puzzle and advances the cursor. Undecodable tags
//! and unresolvable tokens are recorded as warnings and skipped; they never
//! abort the import.

use vstd::prelude::*;

use crate::engine::{
    apply_move, clone_pos, decode_position, fen_parses, legals_of, position_ok, resolve_san,
    resolved_for, san_move_of, Decoded, Pos, PosModel, ResolvedMove,
};
use crate::moves::PuzzleMove;

verus! {

/// A condition that made the importer skip a tag or a token.
#[derive(Clone, Copy, PartialEq, Eq, Structural, Debug)]
pub enum Warning {
    /// A `FEN` tag value with no `|` separator.
    MissingSeparator,
    /// A left substring that is not a well-formed FEN string.
    InvalidFen,
    /// A left substring that parses but is not a legal position.
    IllegalPosition,
    /// A notation token that does not resolve against the cursor position.
    UnresolvedMove,
}

/// One training puzzle: a starting position and the recorded solution line.
pub struct Puzzle {
    /// The starting position, exactly as decoded.
    pub(crate) position: Pos,
    /// The solution moves, in playing order.
    pub(crate) moves: Vec<ResolvedMove>,
}

/// The mathematical model of a puzzle.
#[verifier::ext_equal]
pub struct PuzzleModel {
    /// The FEN text the starting position was decoded from.
    pub fen: Seq<u8>,
    /// The solution moves, in playing order.
    pub moves: Seq<PuzzleMove>,
}

impl View for Puzzle {
    type V = PuzzleModel;

    open(crate) spec fn view(&self) -> PuzzleModel {
        PuzzleModel {
            fen: self.position@.fen,
            moves: self.moves@.map_values(|rm: ResolvedMove| rm@),
        }
    }
}

/// Each solution move is legal in the position reached by playing the
/// moves before it from the puzzle's starting position.
pub open spec fn puzzle_line_legal(m: PuzzleModel) -> bool {
    forall|i: int|
        0 <= i < m.moves.len() ==> legals_of(m.fen, m.moves.take(i)).contains(#[trigger] m.moves[i])
}

/// A well-formed puzzle: its position is the decoded one with no moves
/// applied, and its solution line is legal.
pub open(crate) spec fn puzzle_inv(pz: Puzzle) -> bool {
    &&& pz.position@.applied == Seq::<PuzzleMove>::empty()
    &&& puzzle_line_legal(pz@)
    &&& (forall|i: int|
        0 <= i < pz.moves@.len() ==> resolved_for(
            #[trigger] pz.moves@[i],
            pz@.fen,
            pz@.moves.take(i),
        ))
}

impl Puzzle {
    /// The number of solution moves.
    pub fn solution_len(&self) -> (r: usize)
        ensures
            r == self@.moves.len(),
    {
        self.moves.len()
    }

    /// The solution move at the given index.
    pub fn solution_move(&self, i: usize) -> (r: PuzzleMove)
        requires
            i < self@.moves.len(),
        ensures
            r == self@.moves[i as int],
    {
        self.moves[i].data()
    }

    /// The starting position.
    pub fn initial_position(&self) -> (r: &Pos)
        ensures
            r@.fen == self@.fen,
    {
        &self.position
    }
}

/// The importer's streaming state.
pub struct FENImporter {
    /// The cursor: the position against which the next token is read.
    pub(crate) current_position: Option<Pos>,
    /// The puzzles accumulated so far, in document order.
    pub(crate) puzzles: Vec<Puzzle>,
    /// The conditions recorded so far, in document order.
    pub(crate) warnings: Vec<Warning>,
}

/// The mathematical model of the importer's state.
#[verifier::ext_equal]
pub struct ImporterModel {
    /// The cursor's model, if a puzzle has been opened.
    pub current: Option<PosModel>,
    /// The models of the accumulated puzzles.
    pub puzzles: Seq<PuzzleModel>,
    /// The recorded conditions.
    pub warnings: Seq<Warning>,
}

impl View for FENImporter {
    type V = ImporterModel;

    open(crate) spec fn view(&self) -> ImporterModel {
        ImporterModel {
            current: match self.current_position {
                Some(p) => Some(p@),
                None => None,
            },
            puzzles: self.puzzles@.map_values(|pz: Puzzle| pz@),
            warnings: self.warnings@,
        }
    }
}

/// The cursor always mirrors the most recently opened puzzle: same FEN
/// text, and exactly that puzzle's moves applied.
pub open spec fn importer_wf(s: ImporterModel) -> bool {
    &&& (s.puzzles.len() > 0 <==> s.current is Some)
    &&& (forall|i: int| 0 <= i < s.puzzles.len() ==> puzzle_line_legal(#[trigger] s.puzzles[i]))
    &&& (s.puzzles.len() > 0 ==> s.current == Some(
        PosModel { fen: s.puzzles.last().fen, applied: s.puzzles.last().moves },
    ))
}

/// The importer's full invariant, over the running state as well as its
/// model.
pub open(crate) spec fn importer_inv(imp: FENImporter) -> bool {
    &&& importer_wf(imp@)
    &&& (forall|i: int| 0 <= i < imp.puzzles.len() ==> puzzle_inv(#[trigger] imp.puzzles@[i]))
}

/// The key of the one significant tag.
pub open spec fn fen_key() -> Seq<u8> {
    seq![70u8, 69u8, 78u8]
}

/// The index of the first `|` in the value, if any.
pub open spec fn first_bar(v: Seq<u8>) -> Option<int>
    decreases v.len(),
{
    if v.len() == 0 {
        None
    } else if v[0] == 124u8 {
        Some(0)
    } else {
        match first_bar(v.subrange(1, v.len() as int)) {
            None => None,
            Some(i) => Some(i + 1),
        }
    }
}

/// The player-board substring: everything before the first `|`, minus one
/// trailing character. Empty when the `|` is first, or absent.
pub open spec fn left_of(v: Seq<u8>) -> Seq<u8> {
    match first_bar(v) {
        Some(i) => if i >= 1 {
            v.take(i - 1)
        } else {
            Seq::empty()
        },
        None => Seq::empty(),
    }
}

/// What one tag does to the importer's state.
pub open spec fn header_spec(s: ImporterModel, key: Seq<u8>, value: Seq<u8>) -> ImporterModel {
    if key != fen_key() {
        s
    } else {
        match first_bar(value) {
            None => ImporterModel { warnings: s.warnings.push(Warning::MissingSeparator), ..s },
            Some(i) => {
                let left = left_of(value);
                if position_ok(left) {
                    ImporterModel {
                        current: Some(PosModel { fen: left, applied: Seq::empty() }),
                        puzzles: s.puzzles.push(PuzzleModel { fen: left, moves: Seq::empty() }),
                        warnings: s.warnings,
                    }
                } else if !fen_parses(left) {
                    ImporterModel { warnings: s.warnings.push(Warning::InvalidFen), ..s }
                } else {
                    ImporterModel { warnings: s.warnings.push(Warning::IllegalPosition), ..s }
                }
            },
        }
    }
}

/// What one notation token does to the importer's state.
pub open spec fn san_spec(s: ImporterModel, token: Seq<u8>) -> ImporterModel {
    if s.puzzles.len() == 0 {
        s
    } else {
        match s.current {
            None => s,
            Some(c) => match san_move_of(token, c.fen, c.applied) {
                None => ImporterModel { warnings: s.warnings.push(Warning::UnresolvedMove), ..s },
                Some(m) => {
                    let last = s.puzzles.last();
                    ImporterModel {
                        current: Some(PosModel { fen: c.fen, applied: c.applied.push(m) }),
                        puzzles: s.puzzles.update(
                            s.puzzles.len() - 1,
                            PuzzleModel { fen: last.fen, moves: last.moves.push(m) },
                        ),
                        warnings: s.warnings,
                    }
                },
            },
        }
    }
}

/// One structural event of a record stream.
pub enum PgnEvent {
    /// A new record starts. The importer keeps its state: puzzles
    /// accumulate across records.
    BeginGame,
    /// A tag pair: key and raw value.
    Header(Vec<u8>, Vec<u8>),
    /// One notation token of the movetext.
    San(Vec<u8>),
    /// The record ended.
    EndGame,
}

/// The mathematical model of an event.
pub enum EventModel {
    /// A new record starts.
    BeginGame,
    /// A tag pair: key and raw value.
    Header(Seq<u8>, Seq<u8>),
    /// One notation token.
    San(Seq<u8>),
    /// The record ended.
    EndGame,
}

impl View for PgnEvent {
    type V = EventModel;

    open spec fn view(&self) -> EventModel {
        match self {
            PgnEvent::BeginGame => EventModel::BeginGame,
            PgnEvent::Header(k, v) => EventModel::Header(k@, v@),
            PgnEvent::San(t) => EventModel::San(t@),
            PgnEvent::EndGame => EventModel::EndGame,
        }
    }
}

/// The importer's starting state: no cursor, no puzzles, no warnings.
pub open spec fn init_importer() -> ImporterModel {
    ImporterModel { current: None, puzzles: Seq::empty(), warnings: Seq::empty() }
}

/// What one event does to the importer's state.
pub open spec fn step_spec(s: ImporterModel, e: EventModel) -> ImporterModel {
    match e {
        EventModel::BeginGame => s,
        EventModel::Header(k, v) => header_spec(s, k, v),
        EventModel::San(t) => san_spec(s, t),
        EventModel::EndGame => s,
    }
}

/// The state after importing a whole event stream, from the start.
pub open spec fn import_spec(evs: Seq<EventModel>) -> ImporterModel
    decreases evs.len(),
{
    if evs.len() == 0 {
        init_importer()
    } else {
        step_spec(import_spec(evs.drop_last()), evs.last())
    }
}

proof fn lemma_first_bar_found(v: Seq<u8>, i: int)
    requires
        0 <= i < v.len(),
        v[i] == 124u8,
        forall|j: int| 0 <= j < i ==> v[j] != 124u8,
    ensures
        first_bar(v) == Some(i),
    decreases i,
{
    if i > 0 {
        let w = v.subrange(1, v.len() as int);
        assert(forall|j: int| 0 <= j < i - 1 ==> w[j] == v[j + 1] && w[j] != 124u8);
        lemma_first_bar_found(w, i - 1);
    }
}

proof fn lemma_first_bar_none(v: Seq<u8>)
    requires
        forall|j: int| 0 <= j < v.len() ==> v[j] != 124u8,
    ensures
        first_bar(v) is None,
    decreases v.len(),
{
    if v.len() > 0 {
        let w = v.subrange(1, v.len() as int);
        assert(forall|j: int| 0 <= j < w.len() ==> w[j] == v[j + 1] && w[j] != 124u8);
        lemma_first_bar_none(w);
    }
}

impl FENImporter {
    /// A fresh importer.
    pub fn new() -> (r: FENImporter)
        ensures
            r@ == init_importer(),
            importer_inv(r),
    {
        let r = FENImporter {
            current_position: None,
            puzzles: Vec::new(),
            warnings: Vec::new(),
        };
        proof {
            assert(r@ =~= init_importer());
        }
        r
    }

    /// A new record starts. Nothing is reset: puzzles accumulate across
    /// records.
    pub fn begin_game(&mut self)
        ensures
            *final (self) == *old(self),
    {
    }

    /// The record ended. Nothing to do.
    pub fn end_game(&mut self)
        ensures
            *final (self) == *old(self),
    {
    }

    /// Consume one tag pair.
    pub fn header(&mut self, key: &Vec<u8>, value: &Vec<u8>)
        requires
            importer_inv(*old(self)),
        ensures
            final (self)@ == header_spec(old(self)@, key@, value@),
            importer_inv(*final (self)),
    {
        if !(key.len() == 3 && key[0] == 70u8 && key[1] == 69u8 && key[2] == 78u8) {
            proof {
                assert(key@ != fen_key());
            }
            return ;
        }
        proof {
            assert(key@ =~= fen_key());
        }
        let mut i: usize = 0;
        while i < value.len() && value[i] != 124u8
            invariant
                i <= value.len(),
                forall|j: int| 0 <= j < i ==> value@[j] != 124u8,
            decreases value.len() - i,
        {
            i += 1;
        }
        if i == value.len() {
            proof {
                lemma_first_bar_none(value@);
            }
            self.warnings.push(Warning::MissingSeparator);
            proof {
                assert(self@ =~= header_spec(old(self)@, key@, value@));
            }
            return ;
        }
        proof {
            lemma_first_bar_found(value@, i as int);
        }
        let end: usize = if i >= 1 {
            i - 1
        } else {
            0
        };
        let mut left: Vec<u8> = Vec::new();
        let mut j: usize = 0;
        while j < end
            invariant
                j <= end,
                end <= value.len(),
                left@ == value@.take(j as int),
            decreases end - j,
        {
            let b = value[j];
            left.push(b);
            proof {
                assert(left@ =~= value@.take(j as int + 1));
            }
            j += 1;
        }
        proof {
            assert(left@ =~= left_of(value@));
        }
        match decode_position(&left) {
            Decoded::Position(p) => {
                let cursor = clone_pos(&p);
                self.current_position = Some(cursor);
                self.puzzles.push(Puzzle { position: p, moves: Vec::new() });
                proof {
                    let pz = self.puzzles@.last();
                    assert(pz@.moves =~= Seq::<PuzzleMove>::empty());
                    assert(self@.puzzles =~= old(self)@.puzzles.push(
                        PuzzleModel { fen: left@, moves: Seq::empty() },
                    ));
                    assert(self@ =~= header_spec(old(self)@, key@, value@));
                    assert(forall|k: int|
                        0 <= k < old(self).puzzles@.len() ==> self.puzzles@[k] == old(
                            self,
                        ).puzzles@[k]);
                }
            },
            Decoded::BadFen => {
                self.warnings.push(Warning::InvalidFen);
                proof {
                    assert(self@ =~= header_spec(old(self)@, key@, value@));
                }
            },
            Decoded::IllegalSetup => {
                self.warnings.push(Warning::IllegalPosition);
                proof {
                    assert(self@ =~= header_spec(old(self)@, key@, value@));
                }
            },
        }
    }

    /// Consume one notation token.
    pub fn san(&mut self, token: &Vec<u8>)
        requires
            importer_inv(*old(self)),
        ensures
            final (self)@ == san_spec(old(self)@, token@),
            importer_inv(*final (self)),
    {
        if self.puzzles.len() == 0 {
            return ;
        }
        let resolved = match &self.current_position {
            Some(p) => resolve_san(token, p),
            None => {
                proof {
                    assert(false);
                }
                None
            },
        };
        match resolved {
            None => {
                self.warnings.push(Warning::UnresolvedMove);
                proof {
                    assert(self@ =~= san_spec(old(self)@, token@));
                }
            },
            Some(rm) => {
                match &mut self.current_position {
                    Some(p) => apply_move(p, &rm),
                    None => {
                        proof {
                            assert(false);
                        }
                    },
                }
                let mut pz = match self.puzzles.pop() {
                    Some(pz) => pz,
                    None => vstd::pervasive::unreached(),
                };
                pz.moves.push(rm);
                self.puzzles.push(pz);
                proof {
                    let n = old(self)@.puzzles.len() as int;
                    let last = old(self)@.puzzles.last();
                    assert(pz@.moves =~= last.moves.push(rm@));
                    assert(self@.puzzles =~= old(self)@.puzzles.update(
                        n - 1,
                        PuzzleModel { fen: last.fen, moves: last.moves.push(rm@) },
                    ));
                    assert(self@ =~= san_spec(old(self)@, token@));
                    assert(pz@.moves.take(last.moves.len() as int) =~= last.moves);
                    assert(forall|k: int|
                        0 <= k < last.moves.len() ==> pz@.moves.take(k) =~= last.moves.take(k));
                    assert(puzzle_line_legal(pz@));
                    assert(forall|k: int|
                        0 <= k < pz.moves@.len() ==> resolved_for(
                            #[trigger] pz.moves@[k],
                            pz@.fen,
                            pz@.moves.take(k),
                        ));
                    assert(forall|k: int|
                        0 <= k < self.puzzles@.len() - 1 ==> self.puzzles@[k] == old(
                            self,
                        ).puzzles@[k]);
                }
            },
        }
    }

    /// Give up the accumulated puzzles and warnings.
    pub fn finish(self) -> (r: (Vec<Puzzle>, Vec<Warning>))
        requires
            importer_inv(self),
        ensures
            r.0@.map_values(|pz: Puzzle| pz@) == self@.puzzles,
            r.1@ == self@.warnings,
            forall|i: int| 0 <= i < r.0@.len() ==> puzzle_inv(#[trigger] r.0@[i]),
    {
        let FENImporter { current_position: _, puzzles, warnings } = self;
        (puzzles, warnings)
    }
}

/// Import a whole event stream, from a fresh importer.
pub fn import_events(events: &Vec<PgnEvent>) -> (r: FENImporter)
    ensures
        r@ == import_spec(events@.map_values(|e: PgnEvent| e@)),
        importer_inv(r),
{
    let ghost evs = events@.map_values(|e: PgnEvent| e@);
    let mut imp = FENImporter::new();
    proof {
        assert(evs.take(0) =~= Seq::<EventModel>::empty());
    }
    let mut k: usize = 0;
    while k < events.len()
        invariant
            k <= events.len(),
            evs == events@.map_values(|e: PgnEvent| e@),
            events@.len() == evs.len(),
            imp@ == import_spec(evs.take(k as int)),
            importer_inv(imp),
        decreases events.len() - k,
    {
        match &events[k] {
            PgnEvent::BeginGame => imp.begin_game(),
            PgnEvent::Header(key, value) => imp.header(key, value),
            PgnEvent::San(t) => imp.san(t),
            PgnEvent::EndGame => imp.end_game(),
        }
        proof {
            assert(evs.take(k + 1).drop_last() =~= evs.take(k as int));
            assert(evs.take(k + 1).last() == evs[k as int]);
        }
        k += 1;
    }
    proof {
        assert(evs.take(events.len() as int) =~= evs);
    }
    imp
}

/// A tag whose key is `FEN`, whose value has a separator, and whose left
/// substring resolves to a legal position appends exactly one puzzle, with
/// an empty solution line, and records no warning.
pub proof fn lemma_header_appends_one_puzzle(s: ImporterModel, key: Seq<u8>, value: Seq<u8>)
    requires
        key == fen_key(),
        first_bar(value) is Some,
        position_ok(left_of(value)),
    ensures
        header_spec(s, key, value).puzzles == s.puzzles.push(
            PuzzleModel { fen: left_of(value), moves: Seq::empty() },
        ),
        header_spec(s, key, value).warnings == s.warnings,
        header_spec(s, key, value).current == Some(
            PosModel { fen: left_of(value), applied: Seq::empty() },
        ),
{
}

/// A tag that is not a resolvable compound-FEN tag appends no puzzle and
/// leaves the cursor alone.
pub proof fn lemma_header_skips(s: ImporterModel, key: Seq<u8>, value: Seq<u8>)
    requires
        key != fen_key() || first_bar(value) is None || !position_ok(left_of(value)),
    ensures
        header_spec(s, key, value).puzzles == s.puzzles,
        header_spec(s, key, value).current == s.current,
{
}

/// A token that resolves against the cursor is appended to the most
/// recently opened puzzle, and the cursor becomes the position after
/// playing that move.
pub proof fn lemma_san_appends_to_last(s: ImporterModel, token: Seq<u8>, m: PuzzleMove)
    requires
        importer_wf(s),
        s.puzzles.len() > 0,
        san_move_of(token, s.puzzles.last().fen, s.puzzles.last().moves) == Some(m),
    ensures
        san_spec(s, token).puzzles.len() == s.puzzles.len(),
        san_spec(s, token).puzzles.last().moves == s.puzzles.last().moves.push(m),
        san_spec(s, token).puzzles.last().fen == s.puzzles.last().fen,
        san_spec(s, token).current == Some(
            PosModel {
                fen: s.puzzles.last().fen,
                applied: s.puzzles.last().moves.push(m),
            },
        ),
{
    let n = s.puzzles.len() as int;
    assert(san_spec(s, token).puzzles[n - 1] == san_spec(s, token).puzzles.last());
}

/// A token that does not resolve against the cursor is dropped: no puzzle
/// changes and the cursor does not advance; only a warning is recorded.
pub proof fn lemma_san_unresolved_drops_token(s: ImporterModel, token: Seq<u8>)
    requires
        importer_wf(s),
        s.puzzles.len() > 0,
        san_move_of(token, s.puzzles.last().fen, s.puzzles.last().moves) is None,
    ensures
        san_spec(s, token).puzzles == s.puzzles,
        san_spec(s, token).current == s.current,
        san_spec(s, token).warnings == s.warnings.push(Warning::UnresolvedMove),
{
}

/// Importing the same event stream twice gives structurally equal results:
/// the import is a function of the stream.
pub proof fn lemma_import_deterministic(evs1: Seq<EventModel>, evs2: Seq<EventModel>)
    requires
        evs1 == evs2,
    ensures
        import_spec(evs1) == import_spec(evs2),
{
}

} // verus!
