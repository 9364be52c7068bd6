//! Depth-scaled transition tables: the single mechanism by which every
//! difficulty curve in the generator (room counts, monster rarity, item
//! gating, generator selection) is expressed.

use vstd::prelude::*;

verus! {

/// One entry of a depth-scaled table: from dungeon depth `level` onwards the
/// table yields `value`, until a later entry takes over.
#[derive(Clone, Copy, Debug)]
pub struct Transition {
    pub level: u32,
    pub value: u32,
}

/// The value a depth-scaled table yields at `level`: the value of the last
/// entry whose threshold does not exceed `level`, or 0 when every threshold
/// lies above `level` (or the table is empty).
pub open spec fn table_value_at(table: Seq<Transition>, level: u32) -> u32
    decreases table.len(),
{
    if table.len() == 0 {
        0
    } else if table.last().level <= level {
        table.last().value
    } else {
        table_value_at(table.drop_last(), level)
    }
}

/// Looks up the value for the current dungeon depth in a transition table.
pub fn from_dungeon_level(table: &Vec<Transition>, level: u32) -> (r: u32)
    ensures
        r == table_value_at(table@, level),
{
    let mut i: usize = table.len();
    proof {
        assert(table@.take(i as int) =~= table@);
    }
    while i > 0
        invariant
            i <= table@.len(),
            table_value_at(table@, level) == table_value_at(table@.take(i as int), level),
        decreases i,
    {
        i = i - 1;
        proof {
            assert(table@.take(i + 1).last() == table@[i as int]);
            assert(table@.take(i + 1).drop_last() =~= table@.take(i as int));
        }
        if table[i].level <= level {
            return table[i].value;
        }
    }
    proof {
        assert(table@.take(0).len() == 0);
    }
    0
}

/// The sum of the weights of the first `k` entries.
pub open spec fn weight_sum_prefix(weights: Seq<u32>, k: int) -> int
    decreases k,
{
    if k <= 0 {
        0
    } else {
        weight_sum_prefix(weights, k - 1) + weights[k - 1]
    }
}

/// The total weight of a table.
pub open spec fn total_weight(weights: Seq<u32>) -> int {
    weight_sum_prefix(weights, weights.len() as int)
}

pub proof fn lemma_weight_prefix_monotone(weights: Seq<u32>, i: int, j: int)
    requires
        0 <= i <= j <= weights.len(),
    ensures
        weight_sum_prefix(weights, i) <= weight_sum_prefix(weights, j),
    decreases j - i,
{
    if i < j {
        lemma_weight_prefix_monotone(weights, i, j - 1);
    }
}

/// Adds up a weight table.
pub fn total_of_weights(weights: &Vec<u32>) -> (t: u64)
    requires
        total_weight(weights@) <= u32::MAX,
    ensures
        t == total_weight(weights@),
{
    let mut acc: u64 = 0;
    let mut i: usize = 0;
    while i < weights.len()
        invariant
            i <= weights@.len(),
            acc == weight_sum_prefix(weights@, i as int),
            total_weight(weights@) <= u32::MAX,
        decreases weights@.len() - i,
    {
        proof {
            lemma_weight_prefix_monotone(weights@, i + 1, weights@.len() as int);
        }
        acc = acc + weights[i] as u64;
        i = i + 1;
    }
    acc
}

/// Resolves a roll in `[0, total)` to the index it falls on: the unique entry
/// whose cumulative weight interval contains the roll. An entry of weight 0
/// owns an empty interval, so it can never be the result.
pub fn pick_weighted(weights: &Vec<u32>, roll: u64) -> (idx: usize)
    requires
        roll < total_weight(weights@),
        total_weight(weights@) <= u32::MAX,
    ensures
        idx < weights@.len(),
        weight_sum_prefix(weights@, idx as int) <= roll < weight_sum_prefix(
            weights@,
            idx as int + 1,
        ),
        weights@[idx as int] > 0,
{
    let mut acc: u64 = 0;
    let mut i: usize = 0;
    while i < weights.len()
        invariant
            i <= weights@.len(),
            acc == weight_sum_prefix(weights@, i as int),
            acc <= roll,
            roll < total_weight(weights@),
            total_weight(weights@) <= u32::MAX,
        decreases weights@.len() - i,
    {
        proof {
            lemma_weight_prefix_monotone(weights@, i + 1, weights@.len() as int);
        }
        let next = acc + weights[i] as u64;
        if roll < next {
            return i;
        }
        acc = next;
        i = i + 1;
    }
    proof {
        assert(acc == total_weight(weights@));
        assert(false);
    }
    0
}

/// Spells out a one-entry table lookup.
pub proof fn lemma_table1(t: Seq<Transition>, level: u32)
    requires
        t.len() == 1,
    ensures
        table_value_at(t, level) == (if t[0].level <= level {
            t[0].value
        } else {
            0u32
        }),
{
    reveal_with_fuel(table_value_at, 3);
    assert(t.drop_last().len() == 0);
}

/// Spells out a two-entry table lookup.
pub proof fn lemma_table2(t: Seq<Transition>, level: u32)
    requires
        t.len() == 2,
    ensures
        table_value_at(t, level) == (if t[1].level <= level {
            t[1].value
        } else if t[0].level <= level {
            t[0].value
        } else {
            0u32
        }),
{
    reveal_with_fuel(table_value_at, 4);
    let t1 = t.drop_last();
    assert(t1.len() == 1 && t1.drop_last().len() == 0);
    assert(t1[0] == t[0]);
}

/// Spells out a four-entry table lookup.
pub proof fn lemma_table4(t: Seq<Transition>, level: u32)
    requires
        t.len() == 4,
    ensures
        table_value_at(t, level) == (if t[3].level <= level {
            t[3].value
        } else if t[2].level <= level {
            t[2].value
        } else if t[1].level <= level {
            t[1].value
        } else if t[0].level <= level {
            t[0].value
        } else {
            0u32
        }),
{
    reveal_with_fuel(table_value_at, 6);
    let t3 = t.drop_last();
    let t2 = t3.drop_last();
    let t1 = t2.drop_last();
    assert(t3.len() == 3 && t2.len() == 2 && t1.len() == 1);
    assert(t1.drop_last().len() == 0);
    assert(t3[2] == t[2] && t3[1] == t[1] && t3[0] == t[0]);
    assert(t2[1] == t[1] && t2[0] == t[0] && t1[0] == t[0]);
}

/// Spells out a five-entry table lookup.
pub proof fn lemma_table5(t: Seq<Transition>, level: u32)
    requires
        t.len() == 5,
    ensures
        table_value_at(t, level) == (if t[4].level <= level {
            t[4].value
        } else if t[3].level <= level {
            t[3].value
        } else if t[2].level <= level {
            t[2].value
        } else if t[1].level <= level {
            t[1].value
        } else if t[0].level <= level {
            t[0].value
        } else {
            0u32
        }),
{
    reveal_with_fuel(table_value_at, 7);
    let t4 = t.drop_last();
    let t3 = t4.drop_last();
    let t2 = t3.drop_last();
    let t1 = t2.drop_last();
    assert(t4.len() == 4 && t3.len() == 3 && t2.len() == 2 && t1.len() == 1);
    assert(t1.drop_last().len() == 0);
    assert(t4[3] == t[3] && t4[2] == t[2] && t4[1] == t[1] && t4[0] == t[0]);
    assert(t3[2] == t[2] && t3[1] == t[1] && t3[0] == t[0]);
    assert(t2[1] == t[1] && t2[0] == t[0] && t1[0] == t[0]);
}

/// Spells out a seven-entry total weight.
pub proof fn lemma_total7(w: Seq<u32>)
    requires
        w.len() == 7,
    ensures
        total_weight(w) == w[0] + w[1] + w[2] + w[3] + w[4] + w[5] + w[6],
{
    reveal_with_fuel(weight_sum_prefix, 9);
    assert(weight_sum_prefix(w, 7) == w[0] + w[1] + w[2] + w[3] + w[4] + w[5] + w[6]);
}

/// Spells out a three-entry table lookup.
pub proof fn lemma_table3(t: Seq<Transition>, level: u32)
    requires
        t.len() == 3,
    ensures
        table_value_at(t, level) == (if t[2].level <= level {
            t[2].value
        } else if t[1].level <= level {
            t[1].value
        } else if t[0].level <= level {
            t[0].value
        } else {
            0u32
        }),
{
    reveal_with_fuel(table_value_at, 5);
    let t2 = t.drop_last();
    let t1 = t2.drop_last();
    assert(t2.len() == 2 && t1.len() == 1);
    assert(t1.drop_last().len() == 0);
    assert(t2[1] == t[1] && t2[0] == t[0] && t1[0] == t[0]);
}

/// Spells out a three-entry total weight.
pub proof fn lemma_total3(w: Seq<u32>)
    requires
        w.len() == 3,
    ensures
        total_weight(w) == w[0] + w[1] + w[2],
{
    reveal_with_fuel(weight_sum_prefix, 5);
    assert(weight_sum_prefix(w, 3) == w[0] + w[1] + w[2]);
}

pub proof fn lemma_total_weight_bounds(weights: Seq<u32>, k: int)
    requires
        0 <= k <= weights.len(),
        forall|i: int| 0 <= i < weights.len() ==> 1 <= #[trigger] weights[i] <= 1000,
    ensures
        k <= weight_sum_prefix(weights, k) <= 1000 * k,
    decreases k,
{
    if k > 0 {
        lemma_total_weight_bounds(weights, k - 1);
    }
}

/// Draws one index from a weight table, each index with probability
/// proportional to its weight; a zero-weight index is never drawn.
pub fn sample_weighted(weights: &Vec<u32>, rng: &mut rand::rngs::StdRng) -> (idx: usize)
    requires
        0 < total_weight(weights@),
        total_weight(weights@) <= u32::MAX,
    ensures
        idx < weights@.len(),
        weights@[idx as int] > 0,
{
    let total = total_of_weights(weights);
    let roll = crate::rng::rand_range(rng, 0, total as u32);
    pick_weighted(weights, roll as u64)
}

} // verus!
