//! Verified parts of the Sorcery engine's rules core: realm geometry, ability
//! programs and their lowering, action descriptors and their canonical order,
//! card facts, deck validation and pricing, eligibility gates, trigger
//! ordering, canonical identity, batch and gauntlet bookkeeping, game records
//! and checkpoints, and the deterministic action selector.

pub mod text;
pub mod codes;
pub mod order;
pub mod json;
pub mod canonical;
pub mod board;
pub mod contract;
pub mod action;
pub mod action_order;
pub mod ability;
pub mod compiled_ability;
pub mod modifiers;
pub mod trigger_order;
pub mod facts;
pub mod deck;
pub mod manifest_deck;
pub mod eligibility;
pub mod batch;
pub mod gauntlet;
pub mod game_record;
pub mod checkpoint;
pub mod cli;
pub mod novelty;
pub mod novelty_dispatch;
pub mod counterfactual;
