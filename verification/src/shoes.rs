//! Shoes, and filtering a collection of them by size.

use vstd::prelude::*;

verus! {

/// A shoe: a size and a style name.
#[derive(Debug)]
pub struct Shoe {
    pub size: u32,
    pub style: String,
}

impl PartialEq for Shoe {
    fn eq(&self, other: &Shoe) -> (r: bool) {
        self.size == other.size && self.style == other.style
    }
}

impl vstd::std_specs::cmp::PartialEqSpecImpl for Shoe {
    open spec fn obeys_eq_spec() -> bool {
        true
    }

    open spec fn eq_spec(&self, other: &Shoe) -> bool {
        self.size == other.size && self.style@ == other.style@
    }
}

/// The shoes of the given size, in their original order.
pub open spec fn spec_shoes_in_size(ss: Seq<Shoe>, size: u32) -> Seq<Shoe>
    decreases ss.len(),
{
    if ss.len() == 0 {
        Seq::empty()
    } else {
        let rest = spec_shoes_in_size(ss.drop_first(), size);
        if ss[0].size == size {
            seq![ss[0]] + rest
        } else {
            rest
        }
    }
}

/// Keeps only the shoes of the given size.
pub fn shoes_in_size(shoes: Vec<Shoe>, shoe_size: u32) -> (r: Vec<Shoe>)
    ensures
        r@ == spec_shoes_in_size(shoes@, shoe_size),
{
    let ghost orig = shoes@;
    let mut rest = shoes;
    let mut r: Vec<Shoe> = Vec::new();
    proof {
        assert(r@ + spec_shoes_in_size(rest@, shoe_size) =~= spec_shoes_in_size(
            orig,
            shoe_size,
        ));
    }
    while rest.len() > 0
        invariant
            r@ + spec_shoes_in_size(rest@, shoe_size) == spec_shoes_in_size(orig, shoe_size),
        decreases rest@.len(),
    {
        let ghost prev_rest = rest@;
        let ghost prev_r = r@;
        let s = rest.remove(0);
        proof {
            assert(prev_rest.remove(0) =~= prev_rest.drop_first());
        }
        if s.size == shoe_size {
            r.push(s);
            proof {
                assert(prev_r + (seq![prev_rest[0]] + spec_shoes_in_size(
                    rest@,
                    shoe_size,
                )) =~= r@ + spec_shoes_in_size(rest@, shoe_size));
            }
        }
        proof {
            assert(spec_shoes_in_size(prev_rest, shoe_size) == if prev_rest[0].size == shoe_size {
                seq![prev_rest[0]] + spec_shoes_in_size(prev_rest.drop_first(), shoe_size)
            } else {
                spec_shoes_in_size(prev_rest.drop_first(), shoe_size)
            });
        }
    }
    proof {
        assert(spec_shoes_in_size(rest@, shoe_size) =~= Seq::<Shoe>::empty());
        assert(r@ + Seq::<Shoe>::empty() =~= r@);
    }
    r
}

} // verus!
