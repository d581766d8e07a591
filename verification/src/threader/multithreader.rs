//! The decisions behind the worker threads: what a worker does after each
//! tile, how the shared settings change, and how the coordinator tracks its
//! workers and their progress.

use vstd::prelude::*;

verus! {

#[derive(Copy, Clone, PartialEq, Eq, Structural, Debug)]
pub struct Settings {
    pub max_depth: i32,
    pub samples_per_pixel: i32,
}

/// What every worker reads before rendering: the render settings, the scene,
/// and the id of the current version of both.
#[derive(Clone)]
pub struct ThreadData<S> {
    pub settings: Settings,
    pub scene: S,
    pub id: i32,
}

/// Messages from the coordinator to the workers.
#[derive(Copy, Clone, PartialEq, Eq, Structural, Debug)]
pub enum Instructions {
    StartTask,
    StopTask,
    Terminate,
}

/// What a worker does once the render of a tile has returned.
#[derive(Copy, Clone, PartialEq, Eq, Structural, Debug)]
pub enum ThreadStep {
    /// Set the interrupted tile aside, neither merged nor queued again, and
    /// wait for the coordinator's next instruction before going on.
    AwaitInstructions,
    /// Stop working.
    Terminate,
    /// Merge the tile into the film and queue it for more samples.
    RequeueTile,
    /// Merge the tile into the film and set it aside as finished.
    FinishTile,
}

/// The worker's decision after rendering a tile. A render that was
/// interrupted by an instruction obeys it: a stop drops the tile and waits
/// for the next instruction, a termination ends the worker. A render that ran to the end
/// merges its tile, and the tile goes back to the queue while it has fewer
/// samples than the settings ask for.
pub fn next_thread_step(interruption: Option<Instructions>, tile_samples: i32, samples_per_pixel: i32) -> (step: ThreadStep)
    requires
        interruption != Some(Instructions::StartTask),
    ensures
        step == (match interruption {
            Some(Instructions::StopTask) => ThreadStep::AwaitInstructions,
            Some(_) => ThreadStep::Terminate,
            None => if tile_samples < samples_per_pixel {
                ThreadStep::RequeueTile
            } else {
                ThreadStep::FinishTile
            },
        }),
{
    match interruption {
        Some(Instructions::StopTask) => ThreadStep::AwaitInstructions,
        Some(Instructions::Terminate) => ThreadStep::Terminate,
        Some(Instructions::StartTask) => ThreadStep::Terminate,
        None => {
            if tile_samples < samples_per_pixel {
                ThreadStep::RequeueTile
            } else {
                ThreadStep::FinishTile
            }
        },
    }
}

/// Sets the number of samples per pixel that the workers aim for.
pub fn update_samples<S>(thread_data: &mut ThreadData<S>, samples: i32)
    ensures
        final(thread_data).settings.samples_per_pixel == samples,
        final(thread_data).settings.max_depth == old(thread_data).settings.max_depth,
        final(thread_data).scene == old(thread_data).scene,
        final(thread_data).id == old(thread_data).id,
{
    thread_data.settings.samples_per_pixel = samples;
}

/// Raises the number of samples per pixel. Asking for fewer samples than
/// already targeted changes nothing here and asks for the image to be
/// refreshed instead.
pub fn raise_samples_or_refresh<S>(thread_data: &mut ThreadData<S>, samples: i32) -> (refresh: bool)
    ensures
        refresh == (samples < old(thread_data).settings.samples_per_pixel),
        final(thread_data).settings.samples_per_pixel == if refresh {
            old(thread_data).settings.samples_per_pixel
        } else {
            samples
        },
        final(thread_data).settings.max_depth == old(thread_data).settings.max_depth,
        final(thread_data).scene == old(thread_data).scene,
        final(thread_data).id == old(thread_data).id,
{
    if samples < thread_data.settings.samples_per_pixel {
        true
    } else {
        thread_data.settings.samples_per_pixel = samples;
        false
    }
}

/// Installs new settings and scene under the next id, so that work started
/// under the old ones can be told apart.
pub fn update_settings<S>(thread_data: &mut ThreadData<S>, new_settings: ThreadData<S>)
    requires
        old(thread_data).id < i32::MAX,
    ensures
        final(thread_data).settings == new_settings.settings,
        final(thread_data).scene == new_settings.scene,
        final(thread_data).id == old(thread_data).id + 1,
{
    let mut new_settings = new_settings;
    new_settings.id = thread_data.id + 1;
    *thread_data = new_settings;
}

/// The items left after removing, one after the other, the item at each of
/// `indices` from what the previous removals left.
pub open spec fn remove_in_turn<T>(items: Seq<T>, indices: Seq<usize>) -> Seq<T>
    decreases indices.len(),
{
    if indices.len() == 0 {
        items
    } else {
        remove_in_turn(items, indices.drop_last()).remove(indices.last() as int)
    }
}

/// Each removal finds an item at its index.
pub open spec fn removable_in_turn<T>(items: Seq<T>, indices: Seq<usize>) -> bool
    decreases indices.len(),
{
    indices.len() == 0 || (removable_in_turn(items, indices.drop_last()) && indices.last()
        < remove_in_turn(items, indices.drop_last()).len())
}

/// Drops the workers whose channel reported an error, as the coordinator
/// does: it removes the item at each listed index in turn.
pub fn remove_indices<T>(items: &mut Vec<T>, indices: &Vec<usize>)
    requires
        removable_in_turn(old(items)@, indices@),
    ensures
        final(items)@ == remove_in_turn(old(items)@, indices@),
{
    let ghost initial = items@;
    let mut i: usize = 0;
    while i < indices.len()
        invariant
            i <= indices@.len(),
            removable_in_turn(initial, indices@.subrange(0, i as int)),
            removable_in_turn(initial, indices@),
            items@ == remove_in_turn(initial, indices@.subrange(0, i as int)),
        decreases indices@.len() - i,
    {
        proof {
            lemma_removable_prefix(initial, indices@, i as int + 1);
            assert(indices@.subrange(0, i + 1).drop_last() =~= indices@.subrange(0, i as int));
        }
        items.remove(indices[i]);
        i += 1;
    }
    proof {
        assert(indices@.subrange(0, indices@.len() as int) =~= indices@);
    }
}

proof fn lemma_removable_prefix<T>(items: Seq<T>, indices: Seq<usize>, n: int)
    requires
        removable_in_turn(items, indices),
        0 <= n <= indices.len(),
    ensures
        removable_in_turn(items, indices.subrange(0, n)),
    decreases indices.len(),
{
    if n < indices.len() {
        assert(indices.drop_last().subrange(0, n) =~= indices.subrange(0, n));
        lemma_removable_prefix(items, indices.drop_last(), n);
    } else {
        assert(indices.subrange(0, n) =~= indices);
    }
}

/// The number of samples every tile has reached: the smallest tile count,
/// or `i32::MAX` when there are no tiles.
pub fn minimum_progress(tile_samples: &Vec<i32>) -> (progress: i32)
    ensures
        forall|i: int| 0 <= i < tile_samples@.len() ==> progress <= #[trigger] tile_samples@[i],
        progress == i32::MAX || exists|i: int|
            0 <= i < tile_samples@.len() && progress == #[trigger] tile_samples@[i],
{
    let mut minimum_progress = i32::MAX;
    let mut i: usize = 0;
    while i < tile_samples.len()
        invariant
            i <= tile_samples@.len(),
            forall|j: int| 0 <= j < i ==> minimum_progress <= #[trigger] tile_samples@[j],
            minimum_progress == i32::MAX || exists|j: int|
                0 <= j < i && minimum_progress == #[trigger] tile_samples@[j],
        decreases tile_samples@.len() - i,
    {
        if tile_samples[i] < minimum_progress {
            minimum_progress = tile_samples[i];
        }
        i += 1;
    }
    minimum_progress
}

/// The tiles are all done exactly when the progress reported for them has
/// reached the desired number of samples.
pub proof fn lemma_done_iff_progress(tile_samples: Seq<i32>, progress: i32, desired_samples: i32)
    requires
        forall|i: int| 0 <= i < tile_samples.len() ==> progress <= #[trigger] tile_samples[i],
        progress == i32::MAX || exists|i: int|
            0 <= i < tile_samples.len() && progress == #[trigger] tile_samples[i],
    ensures
        (forall|i: int| 0 <= i < tile_samples.len() ==> #[trigger] tile_samples[i] >= desired_samples)
            == (progress >= desired_samples),
{
    if progress >= desired_samples {
        assert forall|i: int| 0 <= i < tile_samples.len() implies #[trigger] tile_samples[i]
            >= desired_samples by {}
    } else if progress != i32::MAX {
        let i = choose|i: int| 0 <= i < tile_samples.len() && progress == #[trigger] tile_samples[i];
        assert(tile_samples[i] < desired_samples);
    }
}

/// Every tile has at least the desired number of samples.
pub fn all_tiles_done(tile_samples: &Vec<i32>, desired_samples: i32) -> (done: bool)
    ensures
        done == forall|i: int| 0 <= i < tile_samples@.len() ==> #[trigger] tile_samples@[i] >= desired_samples,
{
    let mut i: usize = 0;
    while i < tile_samples.len()
        invariant
            i <= tile_samples@.len(),
            forall|j: int| 0 <= j < i ==> #[trigger] tile_samples@[j] >= desired_samples,
        decreases tile_samples@.len() - i,
    {
        if tile_samples[i] < desired_samples {
            return false;
        }
        i += 1;
    }
    true
}

/// The coordinator's image is complete: it holds the requested number of
/// ray-traced samples, at least one rasterisation, and it belongs to the
/// current version of the settings.
pub fn coordinator_is_done(
    raytrace_samples: usize,
    samples_per_pixel: usize,
    rasterization_samples: usize,
    image_id: i32,
    settings_id: i32,
) -> (done: bool)
    ensures
        done == (raytrace_samples >= samples_per_pixel && rasterization_samples >= 1 && image_id
            == settings_id),
{
    raytrace_samples >= samples_per_pixel && rasterization_samples >= 1 && image_id == settings_id
}

} // verus!
