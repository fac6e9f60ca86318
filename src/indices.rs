//! Enumerations of the (rule, directory) pairs of a configuration.
use vstd::prelude::*;

use crate::config::{Config, Rule};

verus! {

/// Every pair `(r, j)` with `r < counts.len()` and `j < counts[r]`, rule by
/// rule and, within a rule, in order.
pub open spec fn pairs_of(counts: Seq<int>) -> Seq<(usize, usize)>
    decreases counts.len(),
{
    if counts.len() == 0 {
        Seq::empty()
    } else {
        let n = counts.len() - 1;
        pairs_of(counts.drop_last()) + Seq::new(
            if counts.last() >= 0 { counts.last() as nat } else { 0 },
            |j: int| (n as usize, j as usize),
        )
    }
}

/// The number of link directories of each rule.
pub open spec fn link_counts(config: Config) -> Seq<int> {
    config.rules@.map_values(|r: Rule| r.link_dirs@.len() as int)
}

/// The number of watch directories of each rule.
pub open spec fn watch_counts(config: Config) -> Seq<int> {
    config.rules@.map_values(|r: Rule| r.watch_dirs@.len() as int)
}

/// The sum of `counts`.
pub open spec fn sum_of(counts: Seq<int>) -> int
    decreases counts.len(),
{
    if counts.len() == 0 {
        0
    } else {
        sum_of(counts.drop_last()) + counts.last()
    }
}

/// There are as many pairs as the counts add up to.
pub proof fn lemma_pairs_len(counts: Seq<int>)
    requires
        forall|i: int| 0 <= i < counts.len() ==> #[trigger] counts[i] >= 0,
    ensures
        pairs_of(counts).len() == sum_of(counts),
    decreases counts.len(),
{
    if counts.len() > 0 {
        lemma_pairs_len(counts.drop_last());
    }
}

/// The (rule, directory) pairs of the link directories where `of_links`,
/// else of the watch directories.
fn pairs_for(config: &Config, of_links: bool) -> (r: Vec<(usize, usize)>)
    ensures
        of_links ==> r@ == pairs_of(link_counts(*config)),
        !of_links ==> r@ == pairs_of(watch_counts(*config)),
{
    let ghost counts = if of_links { link_counts(*config) } else { watch_counts(*config) };
    let mut out: Vec<(usize, usize)> = Vec::new();
    let mut r: usize = 0;
    while r < config.rules.len()
        invariant
            0 <= r <= config.rules@.len(),
            counts.len() == config.rules@.len(),
            counts == if of_links { link_counts(*config) } else { watch_counts(*config) },
            out@ == pairs_of(counts.subrange(0, r as int)),
        decreases config.rules@.len() - r,
    {
        let rule = &config.rules[r];
        let n: usize = if of_links { rule.link_dirs.len() } else { rule.watch_dirs.len() };
        assert(counts[r as int] == n as int);
        let ghost start = out@;
        let mut j: usize = 0;
        while j < n
            invariant
                0 <= j <= n,
                out@ == start + Seq::new(j as nat, |k: int| (r as usize, k as usize)),
            decreases n - j,
        {
            out.push((r, j));
            assert(out@ =~= start + Seq::new((j + 1) as nat, |k: int| (r as usize, k as usize)));
            j += 1;
        }
        assert(counts.subrange(0, r + 1).drop_last() =~= counts.subrange(0, r as int));
        assert(counts.subrange(0, r + 1).last() == n as int);
        r += 1;
    }
    assert(counts.subrange(0, r as int) =~= counts);
    out
}

/// Every (rule index, link directory index) pair of `config`, in order.
pub fn link_dir_indices(config: &Config) -> (r: Vec<(usize, usize)>)
    ensures
        r@ == pairs_of(link_counts(*config)),
{
    pairs_for(config, true)
}

/// Every (rule index, watch directory index) pair of `config`, in order.
pub fn watch_dir_indices(config: &Config) -> (r: Vec<(usize, usize)>)
    ensures
        r@ == pairs_of(watch_counts(*config)),
{
    pairs_for(config, false)
}

/// The number of watch directories over all rules.
pub fn sum_all_watch_dirs(config: &Config) -> (r: usize)
    ensures
        r == sum_of(watch_counts(*config)),
{
    let pairs = watch_dir_indices(config);
    proof { lemma_pairs_len(watch_counts(*config)); }
    pairs.len()
}

/// The number of rules.
pub fn sum_all_rules(config: &Config) -> (r: usize)
    ensures
        r == config.rules@.len(),
{
    config.rules.len()
}

} // verus!
