//! Grid-world Markov decision process: topology, transition models,
//! value and Q-value iteration in fixed-point arithmetic, policy
//! robustness and per-action transition matrices.
//!
//! Every real quantity (reward, probability, discount factor, value) is an
//! integer count of millionths, see [`config::ESCALA`].

pub mod aritmetica;
pub mod bellman;
pub mod cadenas;
pub mod config;
pub mod convergencia;
pub mod experimentos;
pub mod mdp_model;
pub mod mundo;
pub mod robustness;
pub mod simulation;
pub mod transicion;
pub mod transition_matrices;
