//! The rules engine behind trusted wrappers.
//!
//! A [`Pos`] carries an engine position together with its provenance: the
//! FEN text it was decoded from and the moves applied since. Contracts
//! speak only of that provenance; the engine's answers are named by
//! uninterpreted spec functions of it, which is sound because decoding,
//! legal-move generation and move application are deterministic functions
//! of the position, and the position is determined by its provenance.
//!
//! That naming is faithful only while every `Pos` pairs an engine state
//! with its own provenance, and every [`ResolvedMove`] an engine move
//! with its own plain form. The fields of both are therefore private to
//! this module: the only constructors are the wrappers below, which
//! establish the pairing, and nothing mutates it afterwards. A move is
//! applied only to a position of the provenance it was resolved for,
//! which [`apply_move`] demands through [`resolved_for`].

use vstd::prelude::*;

use shakmaty::FromSetup as _;
use shakmaty::Position as _;

use crate::moves::{PuzzleMove, Role};

verus! {

#[verifier::external_type_specification]
#[verifier::external_body]
pub struct ExCrazyhouse(shakmaty::variant::Crazyhouse);

#[verifier::external_type_specification]
#[verifier::external_body]
pub struct ExEngineMove(shakmaty::Move);

/// Whether the engine parses this text as a well-formed FEN string.
pub uninterp spec fn fen_parses(fen_text: Seq<u8>) -> bool;

/// Whether this text parses as a FEN string that resolves to a legal
/// position of the drop-chess variant.
pub uninterp spec fn position_ok(fen_text: Seq<u8>) -> bool;

/// The legal moves, in the engine's order, of the position reached by
/// decoding `fen_text` and applying `applied`.
pub uninterp spec fn legals_of(fen_text: Seq<u8>, applied: Seq<PuzzleMove>) -> Seq<PuzzleMove>;

/// The move, if any, that the engine reads this algebraic-notation token
/// as, against the position reached by decoding `fen_text` and applying
/// `applied`.
pub uninterp spec fn san_move_of(token: Seq<u8>, fen_text: Seq<u8>, applied: Seq<PuzzleMove>) -> Option<
    PuzzleMove,
>;

/// The engine half of this resolved move is the legal move of the
/// position with this provenance whose plain form is the move's view.
/// Only [`resolve_san`] and [`legal_moves`] establish it, for the
/// position they resolved against; [`apply_move`] demands it, so a move
/// is only ever played in a position of the provenance it was resolved
/// for.
pub uninterp spec fn resolved_for(rm: ResolvedMove, fen_text: Seq<u8>, applied: Seq<PuzzleMove>) -> bool;

/// The mathematical model of a position: its provenance.
pub struct PosModel {
    /// The FEN text the position was decoded from.
    pub fen: Seq<u8>,
    /// The moves applied since decoding, in order.
    pub applied: Seq<PuzzleMove>,
}

/// A variant-legal position, created only by [`decode_position`] and
/// advanced only by [`apply_move`].
pub struct Pos {
    /// The engine's form of the position.
    engine: shakmaty::variant::Crazyhouse,
    /// The FEN text this position was decoded from.
    fen: Vec<u8>,
    /// The moves applied since decoding, in order.
    applied: Vec<PuzzleMove>,
}

impl View for Pos {
    type V = PosModel;

    closed spec fn view(&self) -> PosModel {
        PosModel { fen: self.fen@, applied: self.applied@ }
    }
}

impl Pos {
    /// The engine's form of this position, for rendering by a caller.
    pub fn engine_position(&self) -> &shakmaty::variant::Crazyhouse {
        &self.engine
    }

    /// The FEN text this position was decoded from.
    pub fn fen_text(&self) -> (r: &Vec<u8>)
        ensures
            r@ == self@.fen,
    {
        &self.fen
    }
}

/// A legal move in both the engine's form and the plain form, paired by
/// the wrapper that resolved it. Its view is the plain form.
pub struct ResolvedMove {
    /// The engine's form of the move.
    engine: shakmaty::Move,
    /// The plain form of the move.
    data: PuzzleMove,
}

impl View for ResolvedMove {
    type V = PuzzleMove;

    closed spec fn view(&self) -> PuzzleMove {
        self.data
    }
}

impl ResolvedMove {
    /// The plain form of the move.
    pub fn data(&self) -> (r: PuzzleMove)
        ensures
            r == self@,
    {
        self.data
    }
}

/// The outcome of decoding a FEN text.
pub enum Decoded {
    /// The text resolved to a legal position.
    Position(Pos),
    /// The text is not a well-formed FEN string.
    BadFen,
    /// The text parsed, but does not describe a legal position.
    IllegalSetup,
}

/// Relies on shakmaty's `Fen::from_ascii` and `Crazyhouse::from_setup`:
/// whether a FEN text parses, and whether it sets up a legal position, are
/// functions of the text alone. A missing pocket field reads as empty
/// pockets.
#[verifier::external_body]
pub(crate) fn decode_position(fen_text: &Vec<u8>) -> (r: Decoded)
    ensures
        (r is Position) <==> position_ok(fen_text@),
        (r is BadFen) <==> !fen_parses(fen_text@),
        (r is Position) ==> fen_parses(fen_text@),
        (r matches Decoded::Position(p) ==> p@ == (PosModel {
            fen: fen_text@,
            applied: Seq::<PuzzleMove>::empty(),
        })),
{
    let fen = match shakmaty::fen::Fen::from_ascii(fen_text.as_slice()) {
        Ok(fen) => fen,
        Err(_) => return Decoded::BadFen,
    };
    match shakmaty::variant::Crazyhouse::from_setup(fen.into_setup(), shakmaty::CastlingMode::Standard) {
        Err(_) => Decoded::IllegalSetup,
        Ok(engine) => Decoded::Position(Pos { engine, fen: fen_text.clone(), applied: Vec::new() }),
    }
}

/// Relies on shakmaty's `SanPlus::from_ascii` and `San::to_move`: reading a
/// notation token against a position is a function of the token and the
/// position, and a move it returns is legal in that position.
#[verifier::external_body]
pub(crate) fn resolve_san(token: &Vec<u8>, p: &Pos) -> (r: Option<ResolvedMove>)
    ensures
        (r is Some) <==> (san_move_of(token@, p@.fen, p@.applied) is Some),
        (r matches Some(rm) ==> san_move_of(token@, p@.fen, p@.applied) == Some(rm@)),
        (r matches Some(rm) ==> legals_of(p@.fen, p@.applied).contains(rm@)),
        (r matches Some(rm) ==> resolved_for(rm, p@.fen, p@.applied)),
{
    let sp = match shakmaty::san::SanPlus::from_ascii(token.as_slice()) { Ok(sp) => sp, Err(_) => return None };
    let m = match sp.san.to_move(&p.engine) { Ok(m) => m, Err(_) => return None };
    let data = match m {
        shakmaty::Move::Put { role, to } => PuzzleMove::Put { role: Role::from_index(role as u8), to: to as u8 },
        _ => PuzzleMove::Board {
            from: m.from().map_or(0, |s| s as u8),
            to: m.to() as u8,
            promotion: m.promotion().map(|r| Role::from_index(r as u8)),
        },
    };
    Some(ResolvedMove { engine: m, data })
}

/// Relies on shakmaty's `Position::legal_moves`: the legal moves of a
/// position are a function of it, produced in a deterministic order.
#[verifier::external_body]
pub(crate) fn legal_moves(p: &Pos) -> (r: Vec<ResolvedMove>)
    ensures
        r@.map_values(|rm: ResolvedMove| rm@) == legals_of(p@.fen, p@.applied),
        forall|k: int| 0 <= k < r@.len() ==> resolved_for(#[trigger] r@[k], p@.fen, p@.applied),
{
    let mut out = Vec::new();
    for m in p.engine.legal_moves() {
        let data = match m {
            shakmaty::Move::Put { role, to } => PuzzleMove::Put { role: Role::from_index(role as u8), to: to as u8 },
            _ => PuzzleMove::Board {
                from: m.from().map_or(0, |s| s as u8),
                to: m.to() as u8,
                promotion: m.promotion().map(|r| Role::from_index(r as u8)),
            },
        };
        out.push(ResolvedMove { engine: m, data });
    }
    out
}

/// Relies on shakmaty's `Position::play_unchecked`, which advances the
/// position by a move that is legal in it: the move must have been
/// resolved for this position's provenance, so its engine half is legal
/// here.
#[verifier::external_body]
pub(crate) fn apply_move(p: &mut Pos, rm: &ResolvedMove)
    requires
        legals_of(old(p)@.fen, old(p)@.applied).contains(rm@),
        resolved_for(*rm, old(p)@.fen, old(p)@.applied),
    ensures
        final(p)@ == (PosModel { fen: old(p)@.fen, applied: old(p)@.applied.push(rm@) }),
{
    p.engine.play_unchecked(&rm.engine);
    p.applied.push(rm.data);
}

/// Relies on the `Clone` derived for shakmaty's `Crazyhouse`, which copies
/// the position's fields and so returns the same position.
#[verifier::external_body]
pub(crate) fn clone_pos(p: &Pos) -> (r: Pos)
    ensures
        r@ == p@,
{
    Pos { engine: p.engine.clone(), fen: p.fen.clone(), applied: p.applied.clone() }
}

} // verus!
