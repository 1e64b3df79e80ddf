use vstd::prelude::*;
use crate::model::texts;
use crate::numbers::{parse_u32, unsigned_text_value};
use crate::ordering::{is_stable_order, stable_order_by_key};

verus! {

/// Every text is a decimal number that fits in 32 bits.
pub open spec fn all_u32_texts(keys: Seq<Seq<char>>) -> bool {
    forall|i: int|
        0 <= i < keys.len() ==> (#[trigger] unsigned_text_value(keys[i])) is Some
            && unsigned_text_value(keys[i])->0 <= u32::MAX
}

/// The numbers the texts stand for.
pub open spec fn u32_values(keys: Seq<Seq<char>>) -> Seq<u32> {
    keys.map_values(|k: Seq<char>| unsigned_text_value(k)->0 as u32)
}

/// The confirmation targets (numbers of blocks) of a set of fee estimates,
/// given as the decimal texts of its keys, in ascending order.
pub fn confirmation_targets(keys: &Vec<String>) -> (r: Vec<u32>)
    requires
        all_u32_texts(texts(keys@)),
    ensures
        exists|p: Seq<usize>|
            #![trigger is_stable_order(u32_values(texts(keys@)), p)]
            is_stable_order(u32_values(texts(keys@)), p) && r@.len() == p.len() && forall|i: int|
                0 <= i < p.len() ==> #[trigger] r@[i] == u32_values(texts(keys@))[p[i] as int],
{
    let ghost values = u32_values(texts(keys@));
    let n: usize = keys.len();
    let mut parsed: Vec<u32> = Vec::new();
    let mut i: usize = 0;
    while i < n
        invariant
            i <= n,
            n == keys@.len(),
            all_u32_texts(texts(keys@)),
            values == u32_values(texts(keys@)),
            parsed@.len() == i,
            forall|q: int| 0 <= q < i ==> parsed@[q] == #[trigger] values[q],
        decreases n - i,
    {
        assert(texts(keys@)[i as int] == keys@[i as int]@);
        let v = match parse_u32(keys[i].as_str()) {
            Ok(v) => v,
            Err(_) => 0,
        };
        parsed.push(v);
        i = i + 1;
    }
    assert(parsed@ =~= values);
    let order = stable_order_by_key(&parsed);
    let mut sorted: Vec<u32> = Vec::new();
    let mut j: usize = 0;
    while j < n
        invariant
            j <= n,
            n == parsed@.len(),
            parsed@ == values,
            is_stable_order(values, order@),
            sorted@.len() == j,
            forall|q: int| 0 <= q < j ==> #[trigger] sorted@[q] == values[order@[q] as int],
        decreases n - j,
    {
        let p = order[j];
        sorted.push(parsed[p]);
        j = j + 1;
    }
    assert(is_stable_order(values, order@));
    sorted
}

} // verus!
