use vstd::prelude::*;

verus! {

/// Which octaves of a fractal sum are shown.
#[derive(Clone, Copy, Debug, PartialEq, Eq, Structural)]
pub enum Visualization {
    /// Every octave.
    Final,
    /// Only the selected octave.
    SingleOctave,
    /// The octaves up to and including the selected one.
    AccumulatedOctaves,
}

/// Whether octave `i` enters the sum when octave `show_octave` is selected.
pub open spec fn includes(visualization: Visualization, i: int, show_octave: int) -> bool {
    match visualization {
        Visualization::Final => true,
        Visualization::SingleOctave => i == show_octave,
        Visualization::AccumulatedOctaves => i <= show_octave,
    }
}

/// The octaves, numbered from 1 to `octaves`, that enter the sum.
pub open spec fn included_octaves(
    visualization: Visualization,
    octaves: int,
    show_octave: int,
) -> Set<int> {
    Set::new(|i: int| 1 <= i <= octaves && includes(visualization, i, show_octave))
}

/// The sum of the contributions of the included octaves among the first
/// `n`; `contributions[i - 1]` is what octave `i` would add.
pub open spec fn accumulated(
    visualization: Visualization,
    show_octave: int,
    contributions: Seq<int>,
    n: int,
) -> int
    decreases n,
{
    if n <= 0 {
        0
    } else {
        accumulated(visualization, show_octave, contributions, n - 1) + if includes(
            visualization,
            n,
            show_octave,
        ) {
            contributions[n - 1]
        } else {
            0
        }
    }
}

/// The sum of the first `n` contributions.
pub open spec fn partial_sum(contributions: Seq<int>, n: int) -> int
    decreases n,
{
    if n <= 0 {
        0
    } else {
        partial_sum(contributions, n - 1) + contributions[n - 1]
    }
}

/// Decides whether octave `i` enters the sum.
pub fn include_octave(visualization: Visualization, i: u32, show_octave: u32) -> (b: bool)
    ensures
        b == includes(visualization, i as int, show_octave as int),
{
    match visualization {
        Visualization::Final => true,
        Visualization::SingleOctave => i == show_octave,
        Visualization::AccumulatedOctaves => i <= show_octave,
    }
}

/// Decides whether any octave of `1..=octaves` enters the sum. Only then
/// does the sum of the included amplitudes differ from zero, so that the
/// total can be divided by it.
pub fn has_included_octave(visualization: Visualization, octaves: u32, show_octave: u32) -> (b:
    bool)
    ensures
        b <==> exists|i: int|
            1 <= i <= octaves && #[trigger] includes(visualization, i, show_octave as int),
        b == match visualization {
            Visualization::Final => octaves >= 1,
            Visualization::SingleOctave => 1 <= show_octave <= octaves,
            Visualization::AccumulatedOctaves => octaves >= 1 && show_octave >= 1,
        },
{
    let b = match visualization {
        Visualization::Final => octaves >= 1,
        Visualization::SingleOctave => 1 <= show_octave && show_octave <= octaves,
        Visualization::AccumulatedOctaves => octaves >= 1 && show_octave >= 1,
    };
    proof {
        if b {
            match visualization {
                Visualization::SingleOctave => {
                    assert(includes(visualization, show_octave as int, show_octave as int));
                },
                _ => {
                    assert(includes(visualization, 1, show_octave as int));
                },
            }
        }
    }
    b
}

/// With a single octave selected, exactly that octave enters the sum.
pub proof fn lemma_single_octave_set(octaves: int, k: int)
    requires
        1 <= k <= octaves,
    ensures
        included_octaves(Visualization::SingleOctave, octaves, k) =~= set![k],
{
}

/// With accumulation up to octave `k`, exactly the octaves `1..=k` enter
/// the sum.
pub proof fn lemma_accumulated_octaves_set(octaves: int, k: int)
    requires
        1 <= k <= octaves,
    ensures
        included_octaves(Visualization::AccumulatedOctaves, octaves, k) =~= Set::new(
            |i: int| 1 <= i <= k,
        ),
{
}

/// In the final view every octave enters the sum.
pub proof fn lemma_final_set(octaves: int, show_octave: int)
    ensures
        included_octaves(Visualization::Final, octaves, show_octave) =~= Set::new(
            |i: int| 1 <= i <= octaves,
        ),
{
}

/// With a single octave `k` selected, the sum over the first `n` octaves is
/// the contribution of octave `k` alone once `n` has reached `k`, and zero
/// before.
pub proof fn lemma_single_octave_sum(contributions: Seq<int>, k: int, n: int)
    requires
        1 <= k,
        0 <= n <= contributions.len(),
    ensures
        accumulated(Visualization::SingleOctave, k, contributions, n) == if k <= n {
            contributions[k - 1]
        } else {
            0
        },
    decreases n,
{
    if n > 0 {
        lemma_single_octave_sum(contributions, k, n - 1);
    }
}

/// With accumulation up to octave `k`, the sum over the first `n` octaves
/// is the sum of the contributions of octaves `1..=min(k, n)`.
pub proof fn lemma_accumulated_octaves_sum(contributions: Seq<int>, k: int, n: int)
    requires
        0 <= k,
        0 <= n <= contributions.len(),
    ensures
        accumulated(Visualization::AccumulatedOctaves, k, contributions, n) == partial_sum(
            contributions,
            if k <= n {
                k
            } else {
                n
            },
        ),
    decreases n,
{
    if n > 0 {
        lemma_accumulated_octaves_sum(contributions, k, n - 1);
    }
}

/// In the final view the sum over the first `n` octaves is the sum of all
/// their contributions.
pub proof fn lemma_final_sum(contributions: Seq<int>, show_octave: int, n: int)
    requires
        0 <= n <= contributions.len(),
    ensures
        accumulated(Visualization::Final, show_octave, contributions, n) == partial_sum(
            contributions,
            n,
        ),
    decreases n,
{
    if n > 0 {
        lemma_final_sum(contributions, show_octave, n - 1);
    }
}

} // verus!
