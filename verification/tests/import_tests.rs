//! Importer behaviour on concrete event streams.

use bughouse_trainer::importer::{import_events, PgnEvent, Warning};
use bughouse_trainer::moves::PuzzleMove;

const START: &str = "rnbqkbnr/pppppppp/8/8/8/8/PPPPPPPP/RNBQKBNR w KQkq - 0 1";
const QH5_MATE: &str = "r1bqk2r/pppp1ppp/2n2n2/4p3/2B1P3/8/PPPP1PPP/RNBQK1NR w KQkq - 0 1";
const PARTNER: &str = "rnbqkbnr/pppppppp/8/8/8/8/PPPPPPPP/RNBQKBNR b KQkq - 0 1";

fn header(left: &str) -> PgnEvent {
    let value = format!("{} | {}", left, PARTNER);
    PgnEvent::Header(b"FEN".to_vec(), value.into_bytes())
}

fn san(token: &str) -> PgnEvent {
    PgnEvent::San(token.as_bytes().to_vec())
}

#[test]
fn valid_header_appends_one_empty_puzzle() {
    let events = vec![PgnEvent::BeginGame, header(QH5_MATE), PgnEvent::EndGame];
    let (puzzles, warnings) = import_events(&events).finish();
    assert_eq!(puzzles.len(), 1);
    assert!(warnings.is_empty());
    assert_eq!(puzzles[0].solution_len(), 0);
    assert_eq!(
        puzzles[0].initial_position().fen_text().as_slice(),
        QH5_MATE.as_bytes()
    );
}

#[test]
fn header_without_separator_yields_no_puzzle_and_a_warning() {
    let events = vec![
        PgnEvent::BeginGame,
        PgnEvent::Header(b"FEN".to_vec(), START.as_bytes().to_vec()),
        PgnEvent::EndGame,
    ];
    let (puzzles, warnings) = import_events(&events).finish();
    assert!(puzzles.is_empty());
    assert_eq!(warnings, vec![Warning::MissingSeparator]);
}

#[test]
fn non_fen_tags_are_ignored() {
    let events = vec![
        PgnEvent::BeginGame,
        PgnEvent::Header(b"White".to_vec(), b"Someone".to_vec()),
        PgnEvent::Header(b"Event".to_vec(), b"has | a bar".to_vec()),
        PgnEvent::EndGame,
    ];
    let (puzzles, warnings) = import_events(&events).finish();
    assert!(puzzles.is_empty());
    assert!(warnings.is_empty());
}

#[test]
fn unparsable_left_substring_is_skipped() {
    let events = vec![PgnEvent::BeginGame, header("not a fen at all"), PgnEvent::EndGame];
    let (puzzles, warnings) = import_events(&events).finish();
    assert!(puzzles.is_empty());
    assert_eq!(warnings, vec![Warning::InvalidFen]);
}

#[test]
fn illegal_position_is_skipped_but_later_headers_still_count() {
    let events = vec![
        PgnEvent::BeginGame,
        header("8/8/8/8/8/8/8/8 w - - 0 1"),
        PgnEvent::EndGame,
        PgnEvent::BeginGame,
        header(QH5_MATE),
        PgnEvent::EndGame,
    ];
    let (puzzles, warnings) = import_events(&events).finish();
    assert_eq!(puzzles.len(), 1);
    assert_eq!(warnings, vec![Warning::IllegalPosition]);
    assert_eq!(
        puzzles[0].initial_position().fen_text().as_slice(),
        QH5_MATE.as_bytes()
    );
}

#[test]
fn resolved_token_is_appended_to_the_last_puzzle() {
    let events = vec![PgnEvent::BeginGame, header(QH5_MATE), san("Qh5#"), PgnEvent::EndGame];
    let (puzzles, warnings) = import_events(&events).finish();
    assert!(warnings.is_empty());
    assert_eq!(puzzles.len(), 1);
    assert_eq!(puzzles[0].solution_len(), 1);
    // d1 is square 3, h5 is square 39.
    assert_eq!(
        puzzles[0].solution_move(0),
        PuzzleMove::Board { from: 3, to: 39, promotion: None }
    );
}

#[test]
fn cursor_advances_with_each_resolved_token() {
    let events = vec![PgnEvent::BeginGame, header(START), san("e4"), san("e5"), PgnEvent::EndGame];
    let (puzzles, warnings) = import_events(&events).finish();
    // "e5" resolves only against the position after "e4" was applied:
    // from the start position no white pawn reaches e5 in one move.
    assert!(warnings.is_empty());
    assert_eq!(puzzles.len(), 1);
    assert_eq!(puzzles[0].solution_len(), 2);
}

#[test]
fn unresolved_token_is_dropped_and_the_cursor_stays() {
    let events = vec![
        PgnEvent::BeginGame,
        header(QH5_MATE),
        san("Qh7"),
        san("Qh5#"),
        PgnEvent::EndGame,
    ];
    let (puzzles, warnings) = import_events(&events).finish();
    assert_eq!(warnings, vec![Warning::UnresolvedMove]);
    assert_eq!(puzzles.len(), 1);
    // The bad token left the cursor alone, so the good one still resolved.
    assert_eq!(puzzles[0].solution_len(), 1);
}

#[test]
fn tokens_before_any_puzzle_are_discarded_silently() {
    let events = vec![PgnEvent::BeginGame, san("e4"), PgnEvent::EndGame];
    let (puzzles, warnings) = import_events(&events).finish();
    assert!(puzzles.is_empty());
    assert!(warnings.is_empty());
}

#[test]
fn puzzles_accumulate_across_records() {
    let events = vec![
        PgnEvent::BeginGame,
        header(START),
        san("e4"),
        PgnEvent::EndGame,
        PgnEvent::BeginGame,
        header(QH5_MATE),
        san("Qh5#"),
        PgnEvent::EndGame,
    ];
    let (puzzles, warnings) = import_events(&events).finish();
    assert!(warnings.is_empty());
    assert_eq!(puzzles.len(), 2);
    assert_eq!(puzzles[0].solution_len(), 1);
    assert_eq!(puzzles[1].solution_len(), 1);
}

#[test]
fn importing_the_same_events_twice_is_structurally_equal() {
    let events = vec![
        PgnEvent::BeginGame,
        header(QH5_MATE),
        san("Qh5#"),
        PgnEvent::EndGame,
        PgnEvent::BeginGame,
        header(START),
        san("e4"),
        san("e5"),
        PgnEvent::EndGame,
    ];
    let (first, warn1) = import_events(&events).finish();
    let (second, warn2) = import_events(&events).finish();
    assert_eq!(warn1, warn2);
    assert_eq!(first.len(), second.len());
    for (a, b) in first.iter().zip(second.iter()) {
        assert_eq!(
            a.initial_position().fen_text(),
            b.initial_position().fen_text()
        );
        assert_eq!(a.solution_len(), b.solution_len());
        for i in 0..a.solution_len() {
            assert_eq!(a.solution_move(i), b.solution_move(i));
        }
    }
}

#[test]
fn separator_first_means_an_empty_left_substring() {
    let events = vec![
        PgnEvent::BeginGame,
        PgnEvent::Header(b"FEN".to_vec(), b"| something".to_vec()),
        PgnEvent::EndGame,
    ];
    let (puzzles, warnings) = import_events(&events).finish();
    assert!(puzzles.is_empty());
    assert_eq!(warnings, vec![Warning::InvalidFen]);
}
