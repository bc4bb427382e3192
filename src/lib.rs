//! `scarecrow` is a small feedforward neural network: a chain of layers,
//! evaluated forward and differentiated backward, and trained by gradient
//! descent accumulated over the whole dataset in each epoch.
//!
//! This library holds what the network's arithmetic rests on: the layer
//! variants and their widths, the weighted layer's buffers and their layout,
//! the rule that picks a layer's backward operation, the chain and dataset
//! shape checks, and the order in which training does its work.

pub mod layers;
pub mod loss;
pub mod network;
pub mod schedule;
