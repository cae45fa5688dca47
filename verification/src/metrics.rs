use vstd::prelude::*;

verus! {

/// An unreduced fraction `num / den`. A zero denominator stands for a value
/// that is undefined (a division `0 / 0` in floating point gives NaN).
#[derive(Clone, Copy, Debug, PartialEq, Eq, Structural)]
pub struct Ratio {
    pub num: u128,
    pub den: u128,
}

impl Ratio {
    /// The fraction denotes a number.
    pub open spec fn is_defined(self) -> bool {
        self.den != 0
    }
}

/// Per-digit classification counts: true positives, false positives and
/// false negatives of one digit class.
#[derive(Clone, Copy, Debug)]
pub struct F1 {
    pub digit: u8,
    pub n_train: u32,
    pub tpos: u64,
    pub fpos: u64,
    pub fneg: u64,
}

impl F1 {
    /// Precision of the digit: `tpos / (tpos + fpos)`.
    pub open spec fn precision_ratio(self) -> Ratio {
        Ratio { num: self.tpos as u128, den: (self.tpos + self.fpos) as u128 }
    }

    /// Recall of the digit: `tpos / (tpos + fneg)`.
    pub open spec fn recall_ratio(self) -> Ratio {
        Ratio { num: self.tpos as u128, den: (self.tpos + self.fneg) as u128 }
    }

    /// F1 score of the digit, `2 * P * R / (P + R)`, which reduces to
    /// `2 tpos / (2 tpos + fpos + fneg)`; undefined when there is no true positive,
    /// since then precision or recall is zero or undefined.
    pub open spec fn f1_ratio(self) -> Ratio {
        if self.tpos == 0 {
            Ratio { num: 0, den: 0 }
        } else {
            Ratio {
                num: (2 * self.tpos) as u128,
                den: (2 * self.tpos + self.fpos + self.fneg) as u128,
            }
        }
    }

    /// A fresh record for `digit`, with every count at zero.
    pub fn new(digit: u8, n_train: u32) -> (r: F1)
        ensures
            r.digit == digit,
            r.n_train == n_train,
            r.tpos == 0,
            r.fpos == 0,
            r.fneg == 0,
    {
        F1 { digit, n_train, tpos: 0, fpos: 0, fneg: 0 }
    }

    pub fn precision(&self) -> (r: Ratio)
        ensures
            r == self.precision_ratio(),
            r.num == self.tpos,
            r.den == self.tpos + self.fpos,
    {
        Ratio { num: self.tpos as u128, den: self.tpos as u128 + self.fpos as u128 }
    }

    pub fn recall(&self) -> (r: Ratio)
        ensures
            r == self.recall_ratio(),
            r.num == self.tpos,
            r.den == self.tpos + self.fneg,
    {
        Ratio { num: self.tpos as u128, den: self.tpos as u128 + self.fneg as u128 }
    }

    pub fn f1(&self) -> (r: Ratio)
        ensures
            r == self.f1_ratio(),
            self.tpos == 0 ==> r.num == 0 && r.den == 0,
            self.tpos > 0 ==> r.num == 2 * self.tpos && r.den == 2 * self.tpos + self.fpos
                + self.fneg,
    {
        if self.tpos == 0 {
            Ratio { num: 0, den: 0 }
        } else {
            let tp2: u128 = 2 * (self.tpos as u128);
            Ratio { num: tp2, den: tp2 + self.fpos as u128 + self.fneg as u128 }
        }
    }
}

/// Precision and recall count true positives over the predictions of the
/// digit and over its labelled images: their numerator is the number of true
/// positives whatever the counts, their denominators add the false positives
/// and the false negatives, they never exceed 1, they are 0 when there is no
/// true positive but something to divide by, and 1 exactly when there is no
/// false positive (for precision) or no false negative (for recall).
pub proof fn lemma_precision_recall_values(m: F1)
    ensures
        m.precision_ratio().num == m.tpos,
        m.precision_ratio().den == m.tpos + m.fpos,
        m.recall_ratio().num == m.tpos,
        m.recall_ratio().den == m.tpos + m.fneg,
        m.precision_ratio().num <= m.precision_ratio().den,
        m.recall_ratio().num <= m.recall_ratio().den,
        m.tpos == 0 && m.fpos > 0 ==> m.precision_ratio().num == 0
            && m.precision_ratio().is_defined(),
        m.tpos == 0 && m.fneg > 0 ==> m.recall_ratio().num == 0 && m.recall_ratio().is_defined(),
        m.tpos > 0 ==> (m.precision_ratio().num == m.precision_ratio().den <==> m.fpos == 0),
        m.tpos > 0 ==> (m.recall_ratio().num == m.recall_ratio().den <==> m.fneg == 0),
        m.precision_ratio().is_defined() <==> m.tpos + m.fpos > 0,
        m.recall_ratio().is_defined() <==> m.tpos + m.fneg > 0,
{
}

/// The F1 score lies between 0 and 1, is 1 exactly when there is neither a
/// false positive nor a false negative, and its numerator is twice the true
/// positives whenever it is defined.
pub proof fn lemma_f1_values(m: F1)
    ensures
        m.f1_ratio().num <= m.f1_ratio().den,
        m.tpos > 0 ==> m.f1_ratio().num == 2 * m.tpos,
        m.tpos > 0 ==> m.f1_ratio().den == 2 * m.tpos + m.fpos + m.fneg,
        m.tpos > 0 ==> (m.f1_ratio().num == m.f1_ratio().den <==> m.fpos == 0 && m.fneg == 0),
{
}

/// The F1 score is the harmonic mean of precision and recall:
/// `F1 * (P + R) == 2 * P * R`, written over the fractions' numerators and
/// denominators, and it is defined exactly when there is a true positive, in
/// which case precision and recall are defined as well.
pub proof fn lemma_f1_is_harmonic_mean(m: F1)
    ensures
        m.f1_ratio().is_defined() <==> m.tpos > 0,
        m.tpos > 0 ==> m.precision_ratio().is_defined() && m.recall_ratio().is_defined(),
        m.tpos > 0 ==> ({
            let p = m.precision_ratio();
            let r = m.recall_ratio();
            let f = m.f1_ratio();
            f.num * (p.num * r.den + r.num * p.den) == 2 * (p.num * r.num) * f.den
        }),
{
    if m.tpos > 0 {
        let a = m.tpos as int;
        let b = m.tpos + m.fpos;
        let c = m.tpos + m.fneg;
        assert(2 * a * (a * c + a * b) == 2 * (a * a) * (b + c)) by (nonlinear_arith);
    }
}

} // verus!
