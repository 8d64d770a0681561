use vstd::prelude::*;
use crate::remote::views;
use crate::sorting::{
    chains, compare_chars, identity_positions, is_permutation_of_range, lemma_text_order_antisym,
    lemma_text_order_chains, lemma_text_order_range, lemma_then_chains, lemma_three_way_chains,
    text_order, then_order, three_way,
};
use crate::text::chars_of;

verus! {

/// The theme listed at position `i` comes before the one at `j`: by name, in
/// character order, and by position among equal names.
pub open spec fn name_precedes(names: Seq<Seq<char>>, i: int, j: int) -> bool {
    then_order(text_order(names[i], names[j]), three_way(i, j)) < 0
}

/// The position listed at `k` comes before the one listed after it.
pub open spec fn name_step(r: Seq<usize>, names: Seq<Seq<char>>, k: int) -> bool {
    name_precedes(names, r[k] as int, r[k + 1] as int)
}

/// Each listed position comes before the next one.
pub open spec fn names_ordered(r: Seq<usize>, names: Seq<Seq<char>>) -> bool {
    forall|k: int| 0 <= k < r.len() - 1 ==> #[trigger] name_step(r, names, k)
}

proof fn lemma_name_precedes_trans(names: Seq<Seq<char>>, i: int, j: int, k: int)
    requires
        name_precedes(names, i, j),
        name_precedes(names, j, k),
    ensures
        name_precedes(names, i, k),
{
    lemma_text_order_chains(names[i], names[j], names[k]);
    lemma_three_way_chains(i, j, k);
    lemma_then_chains(
        text_order(names[i], names[j]),
        text_order(names[j], names[k]),
        text_order(names[i], names[k]),
        three_way(i, j),
        three_way(j, k),
        three_way(i, k),
    );
}

proof fn lemma_name_precedes_total(names: Seq<Seq<char>>, i: int, j: int)
    requires
        i != j,
    ensures
        name_precedes(names, i, j) != name_precedes(names, j, i),
{
    lemma_text_order_antisym(names[i], names[j]);
}

/// In a list ordered step by step, every position comes before all later ones.
pub proof fn lemma_names_ordered_pairwise(r: Seq<usize>, names: Seq<Seq<char>>, a: int, b: int)
    requires
        names_ordered(r, names),
        0 <= a < b < r.len(),
    ensures
        name_precedes(names, r[a] as int, r[b] as int),
    decreases b - a,
{
    assert(name_step(r, names, a));
    if b > a + 1 {
        lemma_names_ordered_pairwise(r, names, a + 1, b);
        lemma_name_precedes_trans(names, r[a] as int, r[a + 1] as int, r[b] as int);
    }
}

fn name_precedes_exec(names: &Vec<Vec<char>>, i: usize, j: usize) -> (r: bool)
    requires
        i < names@.len(),
        j < names@.len(),
    ensures
        r == name_precedes(names@.map_values(|v: Vec<char>| v@), i as int, j as int),
{
    let ghost ns = names@.map_values(|v: Vec<char>| v@);
    assert(ns[i as int] == names@[i as int]@);
    assert(ns[j as int] == names@[j as int]@);
    let c = compare_chars(&names[i], &names[j]);
    if c != 0 {
        c < 0
    } else {
        i < j
    }
}

/// The positions of the custom themes in the order the theme menu lists them:
/// by name, equal names keeping the order they came in.
pub fn custom_theme_order(names: &[String]) -> (r: Vec<usize>)
    ensures
        is_permutation_of_range(r@, names@.len()),
        names_ordered(r@, views(names@)),
{
    let n = names.len();
    let mut cs: Vec<Vec<char>> = Vec::new();
    let mut q: usize = 0;
    while q < n
        invariant
            n == names@.len(),
            q <= n,
            cs@.len() == q,
            forall|t: int| 0 <= t < q ==> #[trigger] cs@[t]@ == names@[t]@,
        decreases n - q,
    {
        cs.push(chars_of(names[q].as_str()));
        q = q + 1;
    }
    let ghost ns = views(names@);
    assert(cs@.map_values(|v: Vec<char>| v@) =~= ns);
    let mut r = identity_positions(n);
    let mut k: usize = 0;
    while k < n
        invariant
            n == names@.len(),
            cs@.len() == n,
            cs@.map_values(|v: Vec<char>| v@) == ns,
            k <= n,
            is_permutation_of_range(r@, n as nat),
            forall|a: int| 0 <= a < k - 1 ==> #[trigger] name_step(r@, ns, a),
        decreases n - k,
    {
        let mut j: usize = k;
        while j > 0 && name_precedes_exec(&cs, r[j], r[j - 1])
            invariant
                n == names@.len(),
                cs@.len() == n,
                cs@.map_values(|v: Vec<char>| v@) == ns,
                k < n,
                j <= k,
                is_permutation_of_range(r@, n as nat),
                forall|a: int| 0 <= a < j - 1 ==> #[trigger] name_step(r@, ns, a),
                forall|a: int| j + 1 <= a < k ==> #[trigger] name_step(r@, ns, a),
                j < k ==> name_step(r@, ns, j as int),
                0 < j < k ==> name_precedes(ns, r@[j - 1] as int, r@[j + 1] as int),
            decreases j,
        {
            let x = r[j];
            let y = r[j - 1];
            let ghost before = r@;
            r.set(j - 1, x);
            r.set(j, y);
            assert forall|a: int, b: int| 0 <= a < b < r@.len() implies r@[a] != r@[b] by {
                let pa = if a == j - 1 { j as int } else if a == j { j - 1 } else { a };
                let pb = if b == j - 1 { j as int } else if b == j { j - 1 } else { b };
                assert(r@[a] == before[pa]);
                assert(r@[b] == before[pb]);
                if pa < pb {
                    assert(before[pa] != before[pb]);
                } else {
                    assert(before[pb] != before[pa]);
                }
            }
            assert forall|a: int| 0 <= a < j - 2 implies #[trigger] name_step(r@, ns, a) by {
                assert(name_step(before, ns, a));
            }
            assert forall|a: int| j <= a < k implies #[trigger] name_step(r@, ns, a) by {
                if a > j {
                    assert(name_step(before, ns, a));
                }
            }
            if j >= 2 {
                assert(name_step(before, ns, j - 2));
            }
            j = j - 1;
        }
        proof {
            if j > 0 {
                lemma_name_precedes_total(ns, r@[j as int] as int, r@[j - 1] as int);
                assert(name_step(r@, ns, j - 1));
            }
            assert forall|a: int| 0 <= a < k implies #[trigger] name_step(r@, ns, a) by {
                if a == j - 1 {
                } else if a == j as int {
                }
            }
        }
        k = k + 1;
    }
    r
}

/// The names of (id, name) pairs.
pub open spec fn theme_names(themes: Seq<(String, String)>) -> Seq<Seq<char>> {
    themes.map_values(|t: (String, String)| t.1@)
}

/// The custom themes of the theme menu, as (id, name) pairs: all of them, by
/// name, equal names keeping the order they came in.
pub fn custom_theme_options(themes: &[(String, String)]) -> (r: Vec<(String, String)>)
    ensures
        exists|p: Seq<usize>|
            #![trigger is_permutation_of_range(p, themes@.len())]
            is_permutation_of_range(p, themes@.len()) && names_ordered(p, theme_names(themes@))
                && r@.len() == p.len() && forall|k: int|
                0 <= k < p.len() ==> (#[trigger] r@[k]).0@ == themes@[p[k] as int].0@ && r@[k].1@
                    == themes@[p[k] as int].1@,
{
    let mut names: Vec<String> = Vec::new();
    let mut q: usize = 0;
    while q < themes.len()
        invariant
            q <= themes@.len(),
            names@.len() == q,
            forall|t: int| 0 <= t < q ==> #[trigger] names@[t]@ == themes@[t].1@,
        decreases themes@.len() - q,
    {
        names.push(themes[q].1.clone());
        q = q + 1;
    }
    assert(views(names@) =~= theme_names(themes@));
    let order = custom_theme_order(names.as_slice());
    let mut out: Vec<(String, String)> = Vec::new();
    let mut k: usize = 0;
    while k < order.len()
        invariant
            k <= order@.len(),
            is_permutation_of_range(order@, themes@.len()),
            out@.len() == k,
            forall|t: int|
                0 <= t < k ==> (#[trigger] out@[t]).0@ == themes@[order@[t] as int].0@ && out@[t].1@
                    == themes@[order@[t] as int].1@,
        decreases order@.len() - k,
    {
        let at = order[k];
        let pair = (themes[at].0.clone(), themes[at].1.clone());
        out.push(pair);
        k = k + 1;
    }
    out
}

} // verus!
