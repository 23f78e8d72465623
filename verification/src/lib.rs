//! Rules engine of a turn-based naval combat game on a fixed 10x10 board.
//!
//! Two opponents each deploy a fleet of five fixed-size ships, then
//! alternately attack coordinates on the opponent's board until one fleet is
//! entirely destroyed.  This crate holds the verified game logic: the
//! coordinate model, ship placement and overlap validation, fleet
//! composition, attack resolution, the computer opponent's targeting
//! strategies, and the turn-orchestration state machine.  Terminal rendering
//! and input mapping live outside of it and consume its query surface.

pub mod rng;

pub mod grid;

pub mod ship;

pub mod fleet;

pub mod strategy;

pub mod player;

pub mod game;

pub mod battlefield;

pub mod parser;

pub mod screen;
