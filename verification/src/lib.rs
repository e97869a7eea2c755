use vstd::prelude::*;

pub mod text;
mod json;
pub mod eco_checks;
pub mod project_scanner;
pub mod report_printer;
pub mod config;

verus! {

/// A vector of characters deep-views as its plain view.
pub broadcast proof fn lemma_deep_view_chars(v: Vec<char>)
    ensures
        #[trigger] v.deep_view() == v@,
{
    assert(v.deep_view() =~= v@);
}

/// Appends to a vector, whose deep view grows by the element's deep view.
pub fn push_deep<T: DeepView>(v: &mut Vec<T>, x: T)
    ensures
        final(v).deep_view() == old(v).deep_view().push(x.deep_view()),
{
    let ghost before = v@;
    let ghost bd = v.deep_view();
    let ghost xg = x;
    assert(bd.len() == before.len());
    v.push(x);
    assert(v@[before.len() as int] == xg);
    assert forall|k: int| 0 <= k < before.len() implies v.deep_view()[k] == bd[k] by {
        assert(v@[k] == before[k]);
    }
    assert(v.deep_view() =~= bd.push(xg.deep_view()));
}

} // verus!
