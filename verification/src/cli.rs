use vstd::prelude::*;

verus! {

/// The linear-algebra library that a model is trained with.
#[derive(Clone, Copy, Debug, PartialEq, Eq, Structural)]
pub enum Library {
    Faer,
    NAlgebra,
}

/// The training method.
#[derive(Clone, Copy, Debug, PartialEq, Eq, Structural)]
pub enum Method {
    SVD,
    QR,
    Logistic,
}

impl Library {
    /// Position of the library in the menu offered to the user.
    pub open spec fn menu_index(self) -> nat {
        match self {
            Library::Faer => 0,
            Library::NAlgebra => 1,
        }
    }

    /// The library chosen at position `selection` of the menu `Faer`, `nAlgebra`.
    pub fn from_selection(selection: usize) -> (r: Library)
        requires
            selection < 2,
        ensures
            r.menu_index() == selection,
            selection == 0 ==> r == Library::Faer,
            selection == 1 ==> r == Library::NAlgebra,
    {
        if selection == 0 {
            Library::Faer
        } else {
            Library::NAlgebra
        }
    }
}

impl Method {
    /// Position of the method in the menu offered to the user.
    pub open spec fn menu_index(self) -> nat {
        match self {
            Method::SVD => 0,
            Method::QR => 1,
            Method::Logistic => 2,
        }
    }

    /// The method chosen at position `selection` of the menu `SVD`, `QR`, `Logistic`.
    pub fn from_selection(selection: usize) -> (r: Method)
        requires
            selection < 3,
        ensures
            r.menu_index() == selection,
            selection == 0 ==> r == Method::SVD,
            selection == 1 ==> r == Method::QR,
            selection == 2 ==> r == Method::Logistic,
    {
        if selection == 0 {
            Method::SVD
        } else if selection == 1 {
            Method::QR
        } else {
            Method::Logistic
        }
    }
}

} // verus!
