use vstd::prelude::*;

verus! {

// Ring points of a cell, numbered as below; point 8 is the centre.
//
//   6----5----4
//   |         |
//   7         3
//   |         |
//   0----1----2

/// Ring points of the general ruleset, used when a corner density is
/// negative: every three consecutive points form one triangle.
pub open spec fn default_rule(mask: int) -> Seq<usize> {
    if mask == 0 {
        seq![]
    } else if mask == 1 {
        seq![7, 1, 0]
    } else if mask == 2 {
        seq![3, 2, 1]
    } else if mask == 3 {
        seq![7, 2, 0, 7, 3, 2]
    } else if mask == 4 {
        seq![5, 4, 3]
    } else if mask == 5 {
        seq![7, 1, 0, 5, 4, 3, 7, 3, 1, 7, 5, 3]
    } else if mask == 6 {
        seq![1, 4, 2, 1, 5, 4]
    } else if mask == 7 {
        seq![2, 0, 7, 5, 2, 7, 4, 2, 5]
    } else if mask == 8 {
        seq![7, 6, 5]
    } else if mask == 9 {
        seq![0, 5, 1, 0, 6, 5]
    } else if mask == 10 {
        seq![3, 2, 1, 7, 6, 5, 7, 3, 1, 7, 5, 3]
    } else if mask == 11 {
        seq![6, 5, 0, 5, 3, 0, 3, 2, 0]
    } else if mask == 12 {
        seq![6, 3, 7, 6, 4, 3]
    } else if mask == 13 {
        seq![6, 4, 3, 6, 3, 1, 6, 1, 0]
    } else if mask == 14 {
        seq![6, 4, 7, 4, 1, 7, 4, 2, 1]
    } else {
        full_square()
    }
}

/// The whole cell as four triangles around its centre.
pub open spec fn full_square() -> Seq<usize> {
    seq![0, 6, 8, 0, 8, 2, 4, 8, 2, 6, 8, 4]
}

/// Ring points of the restricted ruleset, used when no corner density is
/// negative: only a fully solid cell is drawn, as a flat square.
pub open spec fn restricted_rule(mask: int) -> Seq<usize> {
    if mask == 15 {
        full_square()
    } else {
        seq![]
    }
}

/// The triangle list for a ruleset (0 general, 1 restricted) and a corner mask.
pub open spec fn triangle_table(ruleset: int, mask: int) -> Seq<usize> {
    if ruleset == 0 {
        default_rule(mask)
    } else {
        restricted_rule(mask)
    }
}

/// Both tables hold 16 lists, one per mask; each list is whole triangles of
/// ring points 0 to 8.
pub proof fn lemma_table_shape(ruleset: int, mask: int)
    requires
        0 <= ruleset < 2,
        0 <= mask < 16,
    ensures
        triangle_table(ruleset, mask).len() % 3 == 0,
        forall|i: int|
            0 <= i < triangle_table(ruleset, mask).len() ==> #[trigger] triangle_table(
                ruleset,
                mask,
            )[i] <= 8,
{
}

/// The two triangle tables, indexed by ruleset and then by mask.
pub fn triangle_mappings() -> (r: Vec<Vec<Vec<usize>>>)
    ensures
        r@.len() == 2,
        forall|s: int| 0 <= s < 2 ==> (#[trigger] r@[s])@.len() == 16,
        forall|s: int, m: int|
            0 <= s < 2 && 0 <= m < 16 ==> (#[trigger] r@[s]@[m])@ == triangle_table(s, m),
{
    let default_rules: Vec<Vec<usize>> = vec![
        vec![],
        vec![7, 1, 0],
        vec![3, 2, 1],
        vec![7, 2, 0, 7, 3, 2],
        vec![5, 4, 3],
        vec![7, 1, 0, 5, 4, 3, 7, 3, 1, 7, 5, 3],
        vec![1, 4, 2, 1, 5, 4],
        vec![2, 0, 7, 5, 2, 7, 4, 2, 5],
        vec![7, 6, 5],
        vec![0, 5, 1, 0, 6, 5],
        vec![3, 2, 1, 7, 6, 5, 7, 3, 1, 7, 5, 3],
        vec![6, 5, 0, 5, 3, 0, 3, 2, 0],
        vec![6, 3, 7, 6, 4, 3],
        vec![6, 4, 3, 6, 3, 1, 6, 1, 0],
        vec![6, 4, 7, 4, 1, 7, 4, 2, 1],
        vec![0, 6, 8, 0, 8, 2, 4, 8, 2, 6, 8, 4],
    ];
    let mut restricted_rules: Vec<Vec<usize>> = Vec::new();
    let mut m: usize = 0;
    while m < 15
        invariant
            m <= 15,
            restricted_rules@.len() == m,
            forall|j: int| 0 <= j < m ==> (#[trigger] restricted_rules@[j])@ == restricted_rule(j),
        decreases 15 - m,
    {
        restricted_rules.push(Vec::new());
        m = m + 1;
    }
    restricted_rules.push(vec![0, 6, 8, 0, 8, 2, 4, 8, 2, 6, 8, 4]);
    proof {
        assert forall|m: int| 0 <= m < 16 implies (#[trigger] default_rules@[m])@
            == default_rule(m) by {
            assert(default_rules@[m]@ =~= default_rule(m));
        }
        assert(restricted_rules@[15]@ =~= restricted_rule(15));
    }
    vec![default_rules, restricted_rules]
}

} // verus!
