use vstd::prelude::*;

pub mod cli;
pub mod inference;
pub mod labels;
pub mod metrics;
pub mod models;
pub mod solvers;

verus! {

/// Number of distinct digit classes.
pub const N_DIGITS: u8 = 10;

/// Number of pixels of one image (28 by 28).
pub const N_PIXELS: usize = 784;

/// Number of training images that are loaded.
pub const N_TRAINING_SET: u32 = 1000;

/// Number of test images that are loaded.
pub const N_TESTING_SET: u32 = 10000;

/// Number of principal components kept when the data is reduced.
pub const PCA_COMPONENTS: usize = 50;

/// Number of gradient-descent rounds of logistic regression.
pub const EPOCHS: usize = 50;

} // verus!
