//! Names of the layers of a render.
use vstd::prelude::*;
use vstd::string::StringExecFns;
use crate::text::{decimal, lemma_decimal_injective, to_decimal};

verus! {

/// The name a layer gets from its position: `Layer 1` for the first.
pub open spec fn layer_name_spec(index: nat) -> Seq<char> {
    "Layer "@ + decimal(index + 1)
}

/// The name of the layer at `index`, counting from one.
pub fn layer_name(index: usize) -> (name: String)
    requires
        index < u64::MAX,
    ensures
        name@ == layer_name_spec(index as nat),
{
    let mut name = "Layer ".to_owned();
    let number = to_decimal(index as u64 + 1);
    name.append(number.as_str());
    name
}

/// The names of `count` layers in order.
pub fn layer_names(count: usize) -> (names: Vec<String>)
    requires
        count < u64::MAX,
    ensures
        names.len() == count,
        forall|i: int| 0 <= i < count ==> #[trigger] names[i]@ == layer_name_spec(i as nat),
{
    let mut names: Vec<String> = Vec::new();
    let mut i: usize = 0;
    while i < count
        invariant
            i <= count,
            count < u64::MAX,
            names.len() == i,
            forall|k: int| 0 <= k < i ==> #[trigger] names[k]@ == layer_name_spec(k as nat),
        decreases count - i,
    {
        names.push(layer_name(i));
        i = i + 1;
    }
    names
}

/// Every layer gets a name of its own: layers at different positions never
/// share a name.
pub proof fn lemma_layer_names_distinct(i: nat, j: nat)
    requires
        i != j,
    ensures
        layer_name_spec(i) != layer_name_spec(j),
{
    let p = "Layer "@;
    if layer_name_spec(i) == layer_name_spec(j) {
        assert((p + decimal(i + 1)).subrange(p.len() as int, (p + decimal(i + 1)).len() as int) =~= decimal(i + 1));
        assert((p + decimal(j + 1)).subrange(p.len() as int, (p + decimal(j + 1)).len() as int) =~= decimal(j + 1));
        lemma_decimal_injective(i + 1, j + 1);
    }
}

} // verus!
