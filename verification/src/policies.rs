pub mod greedy_random_policy;
pub mod mcs_policy;
pub mod mcts_policy;
pub mod one_step_look_ahead_policy;
pub mod policy;
pub mod random_policy;
pub mod test_utils;

pub use greedy_random_policy::GreedyRandomPolicy;
pub use mcs_policy::MCSPolicy;
pub use mcts_policy::MCTSPolicy;
pub use one_step_look_ahead_policy::OneStepLookAheadPolicy;
pub use policy::Policy;
pub use random_policy::RandomPolicy;
