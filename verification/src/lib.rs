//! Deterministic per-tick combat simulation kernel of a two-dimensional
//! fighting game, with machine-checked contracts.
//!
//! A [`simulation::Simulation`] holds the combatants, the animations that
//! they play, and the clock. One tick sets the facings, lets every
//! combatant take in its input, run its state machine, move and have its
//! animation driven, detects the collisions between the live hitboxes,
//! resolves them into effects, and applies the effects. All arithmetic is
//! in fixed point, and every step is a function of the state and the input
//! alone.

/// Frames, hitboxes, and the frame driver.
pub mod animation;
/// Sufficient bounds under which a tick can always be computed.
pub mod bounds;
/// The combatant and its parts, and the facings.
pub mod character;
/// Eight-way directions and facings.
pub mod direction;
/// Effects of a hit and their application.
pub mod effects;
/// Fixed-point scalars.
pub mod fixedpoint;
/// The log of input events, and how the input of a tick is recorded.
pub mod input_history;
/// Moves and what they ask of the state and the input.
pub mod movelist;
/// Motion, collision detection and collision resolution.
pub mod physics;
/// Combatants at rest.
pub mod rest;
/// The simulation and its tick.
pub mod simulation;
/// Layout and encoding of the sheets that animation files hold.
pub mod spritesheet;
/// The part of a tick that each combatant goes through alone.
pub mod stages;
/// The state machine of a combatant.
pub mod state_machine;
/// Fixed-point vectors.
pub mod vec2;
/// Well-formedness of combatants and simulations, and what keeps it.
pub mod wellformed;
