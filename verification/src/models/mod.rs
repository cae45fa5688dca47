pub mod logistic_regression;
