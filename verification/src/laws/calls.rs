//! Laws of calls: a function sees its parameters, bound by position, and
//! nothing else.
use vstd::prelude::*;
use crate::frame::spec_parameters_map;
use crate::value::ValueView;

verus! {

/// A function sees its parameters and nothing else: every variable of
/// the frame in which it starts is one of its parameters.
pub proof fn law_callee_sees_parameters(
    names: Seq<Seq<char>>,
    values: Seq<ValueView>,
    name: Seq<char>,
)
    requires
        spec_parameters_map(names, values).contains_key(name),
    ensures
        names.contains(name),
    decreases names.len(),
{
    if names.len() != 0 && values.len() != 0 {
        if name == names.last() {
            assert(names[names.len() - 1] == name);
        } else {
            law_callee_sees_parameters(names.drop_last(), values.drop_last(), name);
            let k = choose|k: int| 0 <= k < names.drop_last().len() && names.drop_last()[k] == name;
            assert(names[k] == name);
        }
    }
}

/// Parameters are bound by position: where no two parameters have the
/// same name and as many arguments are given, each parameter is bound to
/// the argument at its place.
pub proof fn law_parameters_by_position(names: Seq<Seq<char>>, values: Seq<ValueView>, k: int)
    requires
        names.len() == values.len(),
        names.no_duplicates(),
        0 <= k < names.len(),
    ensures
        spec_parameters_map(names, values).contains_key(names[k]),
        spec_parameters_map(names, values)[names[k]] == values[k],
    decreases names.len(),
{
    if k < names.len() - 1 {
        law_parameters_by_position(names.drop_last(), values.drop_last(), k);
        assert(names.drop_last()[k] == names[k]);
        assert(names[k] != names.last());
    }
}

} // verus!
