use vstd::prelude::*;

use crate::namespace::Namespace;

verus! {

/// Links a namespace: it must have a block of its own.
pub fn linkaged(n: &Namespace)
    requires
        n@.own is Some,
{
    let block = n.get_own_block();
    match block {
        Option::Some(_) => {},
        Option::None => {
            proof {
                assert(false);
            }
        },
    }
}

} // verus!
