//! Session behaviour on concrete puzzles.
//!
//! Square numbers: e2 = 12, e4 = 28, e5 = 36, e7 = 52, d1 = 3, h5 = 39,
//! g1 = 6, f3 = 21, d8 = 59.

use bughouse_trainer::importer::{import_events, PgnEvent};
use bughouse_trainer::moves::Role;
use bughouse_trainer::session::{replay, Model, Msg, Status};

const START: &str = "rnbqkbnr/pppppppp/8/8/8/8/PPPPPPPP/RNBQKBNR w KQkq - 0 1";
const QH5_MATE: &str = "r1bqk2r/pppp1ppp/2n2n2/4p3/2B1P3/8/PPPP1PPP/RNBQK1NR w KQkq - 0 1";
const POCKET_QUEEN: &str = "rnb1kbnr/pppp1ppp/8/4p3/4P3/8/PPPP1PPP/RNBQKBNR[q] b KQkq - 0 1";
const PARTNER: &str = "rnbqkbnr/pppppppp/8/8/8/8/PPPPPPPP/RNBQKBNR b KQkq - 0 1";

fn header(left: &str) -> PgnEvent {
    let value = format!("{} | {}", left, PARTNER);
    PgnEvent::Header(b"FEN".to_vec(), value.into_bytes())
}

fn san(token: &str) -> PgnEvent {
    PgnEvent::San(token.as_bytes().to_vec())
}

fn session_with(events: Vec<PgnEvent>) -> Model {
    let (puzzles, warnings) = import_events(&events).finish();
    assert!(warnings.is_empty());
    let mut m = Model::new();
    m.load_puzzles(puzzles);
    m
}

#[test]
fn matching_single_move_solution_succeeds() {
    let mut m = session_with(vec![PgnEvent::BeginGame, header(QH5_MATE), san("Qh5#")]);
    assert!(m.playable());
    assert_eq!(m.status_text(), "");
    let sched = m.update(Msg::MovePlayed(3, 39, None));
    assert_eq!(sched, None);
    assert_eq!(m.status_text(), "Success");
    assert_eq!(m.status(), Status::Success);
    assert_eq!(m.current_move_index(), 1);
    assert!(!m.playable());
}

#[test]
fn legal_but_wrong_move_reports_wrong_answer_and_keeps_progress() {
    let mut m = session_with(vec![PgnEvent::BeginGame, header(QH5_MATE), san("Qh5#")]);
    // Ng1-f3 is legal here, but not the recorded solution move.
    let sched = m.update(Msg::MovePlayed(6, 21, None));
    assert_eq!(sched, None);
    assert_eq!(m.status_text(), "Wrong answer");
    assert_eq!(m.current_move_index(), 0);
    assert!(m.playable());
    // Retries are unlimited: the correct move still succeeds.
    m.update(Msg::MovePlayed(3, 39, None));
    assert_eq!(m.status_text(), "Success");
}

#[test]
fn unresolvable_candidate_is_ignored_silently() {
    let mut m = session_with(vec![PgnEvent::BeginGame, header(QH5_MATE), san("Qh5#")]);
    m.update(Msg::MovePlayed(6, 21, None));
    assert_eq!(m.status_text(), "Wrong answer");
    // Nothing stands on a5, so this resolves to no legal move: no answer
    // is judged and the status does not change.
    let sched = m.update(Msg::MovePlayed(32, 33, None));
    assert_eq!(sched, None);
    assert_eq!(m.status_text(), "Wrong answer");
    assert_eq!(m.current_move_index(), 0);
    assert!(m.playable());
}

#[test]
fn matching_move_schedules_the_opponent_reply() {
    let mut m = session_with(vec![PgnEvent::BeginGame, header(START), san("e4"), san("e5")]);
    let sched = m.update(Msg::MovePlayed(12, 28, None));
    assert_eq!(sched, Some((0, 1)));
    assert_eq!(m.current_move_index(), 1);
    assert!(!m.playable());
    assert_eq!(m.status_text(), "");
}

#[test]
fn submissions_are_blocked_while_a_reply_is_pending() {
    let mut m = session_with(vec![PgnEvent::BeginGame, header(START), san("e4"), san("e5")]);
    m.update(Msg::MovePlayed(12, 28, None));
    // e7-e5 is the recorded continuation, but input is blocked.
    let sched = m.update(Msg::MovePlayed(52, 36, None));
    assert_eq!(sched, None);
    assert_eq!(m.current_move_index(), 1);
    // The scheduled reply plays the continuation and unblocks input.
    m.update(Msg::PlayOpponentMove { puzzle: 0, mov: 1 });
    assert_eq!(m.current_move_index(), 2);
    assert!(m.playable());
}

#[test]
fn three_move_solution_line_ends_in_success() {
    let mut m = session_with(vec![
        PgnEvent::BeginGame,
        header(START),
        san("e4"),
        san("e5"),
        san("Qh5"),
    ]);
    let sched = m.update(Msg::MovePlayed(12, 28, None));
    assert_eq!(sched, Some((0, 1)));
    m.update(Msg::PlayOpponentMove { puzzle: 0, mov: 1 });
    assert!(m.playable());
    let sched = m.update(Msg::MovePlayed(3, 39, None));
    assert_eq!(sched, None);
    assert_eq!(m.status_text(), "Success");
    assert_eq!(m.current_move_index(), 3);
}

#[test]
fn drop_submission_matches_a_recorded_drop() {
    let mut m = session_with(vec![PgnEvent::BeginGame, header(POCKET_QUEEN), san("Q@d8")]);
    let sched = m.update(Msg::PieceDrop(Role::Queen, 59));
    assert_eq!(sched, None);
    assert_eq!(m.status_text(), "Success");
    assert_eq!(m.current_move_index(), 1);
}

#[test]
fn drop_of_an_unpocketed_piece_is_ignored() {
    let mut m = session_with(vec![PgnEvent::BeginGame, header(POCKET_QUEEN), san("Q@d8")]);
    // Black holds a queen, not a rook.
    let sched = m.update(Msg::PieceDrop(Role::Rook, 59));
    assert_eq!(sched, None);
    assert_eq!(m.status_text(), "");
    assert_eq!(m.current_move_index(), 0);
}

#[test]
fn navigation_clamps_at_both_ends() {
    let mut m = session_with(vec![
        PgnEvent::BeginGame,
        header(START),
        san("e4"),
        PgnEvent::BeginGame,
        header(QH5_MATE),
        san("Qh5#"),
    ]);
    assert_eq!(m.puzzle_count(), 2);
    assert_eq!(m.current_puzzle_index(), 0);
    m.update(Msg::PreviousPuzzle);
    assert_eq!(m.current_puzzle_index(), 0);
    m.update(Msg::NextPuzzle);
    assert_eq!(m.current_puzzle_index(), 1);
    m.update(Msg::NextPuzzle);
    assert_eq!(m.current_puzzle_index(), 1);
    m.update(Msg::PreviousPuzzle);
    assert_eq!(m.current_puzzle_index(), 0);
}

#[test]
fn navigation_resets_progress_and_unblocks_input() {
    let mut m = session_with(vec![
        PgnEvent::BeginGame,
        header(START),
        san("e4"),
        san("e5"),
        PgnEvent::BeginGame,
        header(QH5_MATE),
        san("Qh5#"),
    ]);
    m.update(Msg::MovePlayed(12, 28, None));
    assert_eq!(m.current_move_index(), 1);
    assert!(!m.playable());
    m.update(Msg::NextPuzzle);
    assert_eq!(m.current_puzzle_index(), 1);
    assert_eq!(m.current_move_index(), 0);
    assert!(m.playable());
    assert_eq!(m.status_text(), "");
}

#[test]
fn stale_opponent_reply_is_discarded_after_navigation() {
    let mut m = session_with(vec![
        PgnEvent::BeginGame,
        header(START),
        san("e4"),
        san("e5"),
        PgnEvent::BeginGame,
        header(QH5_MATE),
        san("Qh5#"),
    ]);
    let sched = m.update(Msg::MovePlayed(12, 28, None));
    assert_eq!(sched, Some((0, 1)));
    m.update(Msg::NextPuzzle);
    // The reply scheduled for puzzle 0 fires after the navigation: it no
    // longer targets the active state and must change nothing.
    m.update(Msg::PlayOpponentMove { puzzle: 0, mov: 1 });
    assert_eq!(m.current_puzzle_index(), 1);
    assert_eq!(m.current_move_index(), 0);
    assert!(m.playable());
}

#[test]
fn empty_puzzle_set_keeps_the_session_inert() {
    let mut m = Model::new();
    m.load_puzzles(Vec::new());
    assert_eq!(m.puzzle_count(), 0);
    let sched = m.update(Msg::MovePlayed(12, 28, None));
    assert_eq!(sched, None);
    assert_eq!(m.status_text(), "");
    assert_eq!(m.current_move_index(), 0);
}

#[test]
fn loading_a_new_set_resets_the_session() {
    let mut m = session_with(vec![
        PgnEvent::BeginGame,
        header(START),
        san("e4"),
        PgnEvent::BeginGame,
        header(QH5_MATE),
        san("Qh5#"),
    ]);
    m.update(Msg::NextPuzzle);
    assert_eq!(m.current_puzzle_index(), 1);
    let events = vec![PgnEvent::BeginGame, header(QH5_MATE), san("Qh5#")];
    let (puzzles, _) = import_events(&events).finish();
    m.load_puzzles(puzzles);
    assert_eq!(m.puzzle_count(), 1);
    assert_eq!(m.current_puzzle_index(), 0);
    assert_eq!(m.current_move_index(), 0);
    assert!(m.playable());
    assert_eq!(m.status_text(), "");
}

#[test]
fn replay_drives_a_whole_session() {
    let events = vec![PgnEvent::BeginGame, header(QH5_MATE), san("Qh5#")];
    let msgs = vec![Msg::PreviousPuzzle, Msg::MovePlayed(3, 39, None)];
    let m = replay(&events, &msgs);
    assert_eq!(m.status_text(), "Success");
    assert_eq!(m.current_move_index(), 1);
}
