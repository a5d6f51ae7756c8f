//! What a vector's deep view holds, element by element.

use vstd::prelude::*;

verus! {

/// A vector's deep view is as long as the vector.
pub broadcast proof fn deep_view_len<T: DeepView>(v: Vec<T>)
    ensures
        #![trigger v.deep_view().len()]
        #![trigger v.deep_view(), v@.len()]
        v.deep_view().len() == v@.len(),
{
}

/// An element of a vector's deep view is the deep view of the element.
pub broadcast proof fn deep_view_index<T: DeepView>(v: Vec<T>, i: int)
    requires
        0 <= i < v@.len(),
    ensures
        #![trigger v.deep_view()[i]]
        #![trigger v.deep_view(), v@[i]]
        v.deep_view()[i] == v@[i].deep_view(),
{
}

/// Appending to a vector appends to its deep view.
pub broadcast proof fn deep_view_push<T: DeepView>(before: Vec<T>, after: Vec<T>, x: T)
    requires
        after@ == before@.push(x),
    ensures
        #![trigger before@.push(x), after.deep_view()]
        after.deep_view() == before.deep_view().push(x.deep_view()),
{
    assert(after.deep_view() =~= before.deep_view().push(x.deep_view()));
}

pub broadcast group group_deep_views {
    deep_view_len,
    deep_view_index,
    deep_view_push,
}

} // verus!
