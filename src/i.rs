use vstd::prelude::*;
use vstd::string::*;

verus! {

/// A query result carried as a string.
#[derive(Clone, Debug, PartialEq, Eq)]
pub struct I {
    pub result_string: String,
}

impl I {
    pub fn new(result_string: String) -> (r: Self)
        ensures
            r.result_string == result_string,
    {
        Self { result_string }
    }
}

/// The values an `I2` may hold.
#[derive(PartialEq, Eq, Structural, Debug, Clone, Copy, Hash)]
pub enum I2Content {
    A,
    B,
}

/// A tag that is only ever built from the text `"A"`.
#[derive(PartialEq, Eq, Structural, Debug, Clone, Copy, Hash)]
pub struct I2(I2Content);

impl I2 {
    /// `Ok` holding `A` when `value` is `"A"`; otherwise `value` is handed back.
    pub fn new(value: String) -> (r: Result<Self, String>)
        ensures
            value@ == "A"@ ==> r is Ok && r->Ok_0.held() == I2Content::A,
            value@ != "A"@ ==> r == Err::<I2, String>(value),
    {
        if value.eq(&String::from_str("A")) {
            Ok(I2(I2Content::A))
        } else {
            Err(value)
        }
    }

    /// What the tag holds.
    pub closed spec fn held(&self) -> I2Content {
        self.0
    }

    /// What the tag holds.
    pub fn content(&self) -> (r: I2Content)
        ensures
            r == self.held(),
    {
        self.0
    }
}

} // verus!
