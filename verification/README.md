# digit_classifier

Handwritten-digit classification on MNIST with linear regression (SVD or QR
least squares, optionally after PCA) and softmax logistic regression.

- `src/` is the verified library: the integer side of the program, proved with
  Verus. It tallies, per digit, the true positives, false positives and false
  negatives of a set of predictions and the number of correct predictions
  (`inference`), gives precision, recall and F1 as exact fractions (`metrics`),
  builds the 0/1 training targets and one-hot label rows (`labels`,
  `models::logistic_regression`), finds the numerical rank of a pivoted QR
  factorisation from the significance of its diagonal (`solvers::qr`), and maps
  menu choices to libraries and methods (`cli`).
- `app/` is the program around it: loading MNIST, the prompts and file
  dialogs, the floating-point linear algebra (nalgebra, nalgebra-lapack, faer),
  PCA, JSON files of weights and the scatterplot.
