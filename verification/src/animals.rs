//! A trait with an associated constructor name, and a type whose inherent
//! name differs from its trait name.

use vstd::prelude::*;
use vstd::string::StringExecFns;

verus! {

/// Animals have a species-wide name for their young.
pub trait Animal {
    /// What this species calls its young.
    spec fn spec_baby_name() -> Seq<char>;

    /// The name for this species' young.
    fn baby_name() -> (r: String)
        ensures
            r@ == Self::spec_baby_name(),
    ;
}

/// A dog.
pub struct Dog;

impl Dog {
    /// This particular dog's own pet name.
    pub fn baby_name() -> (r: String)
        ensures
            r@ == "点点"@,
    {
        String::from_str("点点")
    }
}

impl Animal for Dog {
    open spec fn spec_baby_name() -> Seq<char> {
        "狗崽"@
    }

    fn baby_name() -> (r: String) {
        String::from_str("狗崽")
    }
}

} // verus!
