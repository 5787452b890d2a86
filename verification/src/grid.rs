//! The grid of a session: the labels `1..=width * height`, once each, in the
//! order in which they fill the cells, left to right and top to bottom.

use rand::rngs::ThreadRng;
use rand::seq::SliceRandom;
use vstd::prelude::*;
use vstd::seq_lib::to_multiset_contains;
use vstd::seq_lib::to_multiset_len;
use vstd::set_lib::lemma_subset_equality;

use crate::config::ConfigError;
use crate::config::GameConfiguraiton;

verus! {

/// `labels` is a grid of `cells` tiles: it has `cells` entries, each of them a
/// label from `1..=cells`, and no label stands in it twice.
pub open spec fn is_grid(labels: Seq<u32>, cells: nat) -> bool {
    &&& labels.len() == cells
    &&& forall|i: int| 0 <= i < labels.len() ==> 1 <= #[trigger] labels[i] <= cells
    &&& labels.no_duplicates()
}

/// The labels `1`, `2`, ... `cells` in ascending order.
pub open spec fn ascending(cells: nat) -> Seq<u32> {
    Seq::new(cells, |i: int| (i + 1) as u32)
}

/// The set of the labels `1..=cells`.
pub open spec fn label_set(cells: nat) -> Set<u32> {
    Set::new(|label: u32| 1 <= label <= cells)
}

/// The thread's random number generator, as the `rand` crate hands it out.
/// Nothing is known of what is inside.
#[verifier::external_type_specification]
#[verifier::external_body]
pub struct ExThreadRng(ThreadRng);

/// `rand::thread_rng` returns a handle to the generator of the calling thread.
/// Nothing is promised of the numbers that it will give. The generator is
/// seeded by the system when a thread first asks for it; where the system has
/// no entropy to give, `rand` panics there.
pub assume_specification[ rand::thread_rng ]() -> (rng: ThreadRng)
;

/// `SliceRandom::shuffle` of the `rand` crate, on the labels of a grid. It
/// only ever swaps two entries of the slice, so what comes out holds the
/// entries that went in, each as often as before. Their order depends on the
/// generator and nothing is said of it.
#[verifier::external_body]
fn shuffle(labels: &mut Vec<u32>, rng: &mut ThreadRng)
    ensures
        final(labels)@.to_multiset() == old(labels)@.to_multiset(),
{
    labels.shuffle(rng);
}

/// The labels `1..=cells` in ascending order.
pub fn ascending_labels(cells: u32) -> (labels: Vec<u32>)
    ensures
        labels@ == ascending(cells as nat),
{
    let mut labels: Vec<u32> = Vec::new();
    let mut next: u32 = 0;
    while next < cells
        invariant
            next <= cells,
            labels@ == ascending(next as nat),
        decreases cells - next,
    {
        next = next + 1;
        labels.push(next);
        assert(labels@ =~= ascending(next as nat));
    }
    labels
}

/// The ascending labels are a grid.
pub proof fn lemma_ascending_is_grid(cells: nat)
    requires
        cells <= u32::MAX,
    ensures
        is_grid(ascending(cells), cells),
{
}

/// Whatever holds the entries of a grid, each as often as the grid does, is a
/// grid of the same size.
pub proof fn lemma_rearranged_grid(before: Seq<u32>, after: Seq<u32>, cells: nat)
    requires
        is_grid(before, cells),
        after.to_multiset() == before.to_multiset(),
    ensures
        is_grid(after, cells),
{
    to_multiset_len(before);
    to_multiset_len(after);
    assert forall|i: int| 0 <= i < after.len() implies 1 <= #[trigger] after[i] <= cells by {
        let label = after[i];
        assert(after.contains(label));
        to_multiset_contains(after, label);
        to_multiset_contains(before, label);
        let j = choose|j: int| 0 <= j < before.len() && before[j] == label;
        assert(1 <= before[j] <= cells);
    }
    before.lemma_multiset_has_no_duplicates();
    after.lemma_multiset_has_no_duplicates_conv();
}

/// Lays out a new grid for `config`: the labels `1..=width * height`, each
/// once, in an order that chance decides.
///
/// A configuration with a zero dimension, or with more tiles than labels, is
/// refused before anything is laid out.
pub fn generate_grid(config: &GameConfiguraiton) -> (grid: Result<Vec<u32>, ConfigError>)
    ensures
        grid is Ok <==> config.valid(),
        grid matches Ok(labels) ==> is_grid(labels@, config.cells()),
        grid matches Err(error) ==> config.checked() == Err::<u32, ConfigError>(error),
{
    match config.tile_count() {
        Err(error) => Err(error),
        Ok(cells) => {
            let mut labels = ascending_labels(cells);
            let mut rng = rand::thread_rng();
            shuffle(&mut labels, &mut rng);
            proof {
                lemma_ascending_is_grid(cells as nat);
                lemma_rearranged_grid(ascending(cells as nat), labels@, cells as nat);
            }
            Ok(labels)
        },
    }
}

/// Tells whether `labels` is a grid of `cells` tiles.
pub fn is_layout(labels: &Vec<u32>, cells: u32) -> (ok: bool)
    ensures
        ok == is_grid(labels@, cells as nat),
{
    if labels.len() != cells as usize {
        return false;
    }
    let mut seen: Vec<bool> = Vec::new();
    let mut filled: u32 = 0;
    while filled < cells
        invariant
            filled <= cells,
            seen.len() == filled,
            forall|v: int| 0 <= v < filled ==> !#[trigger] seen[v],
        decreases cells - filled,
    {
        seen.push(false);
        filled = filled + 1;
    }
    let mut i: usize = 0;
    while i < labels.len()
        invariant
            i <= labels.len(),
            labels.len() == cells,
            seen.len() == cells,
            forall|j: int| 0 <= j < i ==> 1 <= #[trigger] labels[j] <= cells,
            forall|j: int, k: int| 0 <= j < k < i ==> labels[j] != labels[k],
            forall|v: int|
                0 <= v < cells ==> (#[trigger] seen[v] <==> exists|j: int|
                    0 <= j < i && #[trigger] labels[j] == v + 1),
        decreases labels.len() - i,
    {
        let label = labels[i];
        if label < 1 || label > cells {
            return false;
        }
        let slot = (label - 1) as usize;
        if seen[slot] {
            proof {
                let j = choose|j: int| 0 <= j < i && labels[j] == slot + 1;
                assert(labels@[j] == labels@[i as int]);
            }
            return false;
        }
        seen.set(slot, true);
        proof {
            assert forall|v: int| 0 <= v < cells implies (#[trigger] seen[v] <==> exists|j: int|
                0 <= j < i + 1 && #[trigger] labels[j] == v + 1) by {
                if v == slot {
                    assert(labels[i as int] == v + 1);
                }
            }
        }
        i = i + 1;
    }
    true
}

/// The labels `1..=cells` are `cells` many.
pub proof fn lemma_label_set_len(cells: nat)
    requires
        cells <= u32::MAX,
    ensures
        label_set(cells).finite(),
        label_set(cells).len() == cells,
    decreases cells,
{
    if cells == 0 {
        assert(label_set(cells) =~= Set::<u32>::empty());
    } else {
        lemma_label_set_len((cells - 1) as nat);
        assert(label_set(cells) =~= label_set((cells - 1) as nat).insert(cells as u32));
    }
}

/// A grid omits no label: as a set, it is the labels `1..=cells`.
pub proof fn lemma_grid_is_permutation(labels: Seq<u32>, cells: nat)
    requires
        is_grid(labels, cells),
    ensures
        labels.len() == cells,
        labels.to_set() == label_set(cells),
        forall|label: u32| 1 <= label <= cells ==> labels.contains(label),
{
    if cells > u32::MAX {
        // more entries than there are labels: two of them would be equal
        lemma_label_set_len(u32::MAX as nat);
        labels.unique_seq_to_set();
        assert(labels.to_set().subset_of(label_set(u32::MAX as nat)));
        vstd::set_lib::lemma_len_subset(labels.to_set(), label_set(u32::MAX as nat));
    } else {
        lemma_label_set_len(cells);
        labels.unique_seq_to_set();
        assert(labels.to_set().subset_of(label_set(cells))) by {
            assert forall|label: u32| labels.to_set().contains(label) implies label_set(
                cells,
            ).contains(label) by {
                let i = choose|i: int| 0 <= i < labels.len() && labels[i] == label;
                assert(1 <= labels[i] <= cells);
            }
        }
        vstd::seq_lib::seq_to_set_is_finite(labels);
        lemma_subset_equality(labels.to_set(), label_set(cells));
        assert forall|label: u32| 1 <= label <= cells implies labels.contains(label) by {
            assert(label_set(cells).contains(label));
            assert(labels.to_set().contains(label));
        }
    }
}

/// Two grids of one size hold the same labels, each once: they differ in
/// order at most.
pub proof fn lemma_grids_hold_the_same(first: Seq<u32>, second: Seq<u32>, cells: nat)
    requires
        is_grid(first, cells),
        is_grid(second, cells),
    ensures
        first.to_multiset() == second.to_multiset(),
{
    lemma_grid_is_permutation(first, cells);
    lemma_grid_is_permutation(second, cells);
    first.lemma_multiset_has_no_duplicates();
    second.lemma_multiset_has_no_duplicates();
    assert forall|label: u32|
        first.to_multiset().count(label) == second.to_multiset().count(label) by {
        to_multiset_contains(first, label);
        to_multiset_contains(second, label);
        if first.contains(label) {
            let i = choose|i: int| 0 <= i < first.len() && first[i] == label;
            assert(1 <= first[i] <= cells);
            assert(second.contains(label));
        } else if second.contains(label) {
            let i = choose|i: int| 0 <= i < second.len() && second[i] == label;
            assert(1 <= second[i] <= cells);
            assert(first.contains(label));
        }
    }
    assert(first.to_multiset() =~= second.to_multiset());
}

} // verus!
