//! Opponent-engine configuration.
//!
//! The engine itself — move search and position evaluation — lives outside
//! the core; the core only carries its configuration: how hard, how long,
//! and how deep it may think.

use vstd::prelude::*;

verus! {

/// Difficulty level for an engine opponent.
#[derive(Clone, Copy, Debug, PartialEq, Eq, Structural)]
pub enum Difficulty {
    Low,
    Medium,
    High,
    Custom,
}

/// Configuration for engine behaviour.
#[derive(Clone, Copy, Debug, PartialEq, Eq, Structural)]
pub struct AIConfig {
    pub difficulty: Difficulty,
    pub max_thinking_time_ms: u64,
    pub max_depth: u8,
}

/// A reinforcement-learning engine opponent: unconfigured until `init`.
pub struct RLChessModel {
    pub config: Option<AIConfig>,
}

impl RLChessModel {
    /// A model with no configuration yet.
    pub fn new() -> (m: Self)
        ensures
            m.config is None,
    {
        Self { config: None }
    }

    /// Adopt a configuration.
    pub fn init(&mut self, config: AIConfig)
        ensures
            final(self).config == Some(config),
    {
        self.config = Some(config);
    }

    /// The model's name and version.
    pub fn get_model_info(&self) -> (r: (&str, &str))
        ensures
            r.0@ == "RLChessModel"@,
            r.1@ == "0.1.0"@,
    {
        ("RLChessModel", "0.1.0")
    }
}

} // verus!
