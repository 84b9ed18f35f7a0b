//! A trainer core for drop-chess tactics puzzles.
//!
//! The library has two halves. The importer consumes the structural events
//! of an annotated game record (tag pairs and movetext tokens), recognises
//! compound `FEN` tags whose value holds two board descriptions separated by
//! `|`, decodes the left description through the rules engine, and collects
//! one puzzle per resolvable tag together with the solution line read from
//! the following movetext. The session drives a trainee through one puzzle:
//! it validates submitted moves against the recorded solution, plays back
//! the opponent's replies, and navigates between puzzles.
//!
//! The rules engine (position decoding, legal-move generation, move
//! application) is the `shakmaty` crate, reached only through a small set of
//! trusted wrappers in [`engine`].

pub mod engine;
pub mod importer;
pub mod moves;
pub mod session;
