//! The rules by which benchmark settings from several sources combine.

use vstd::prelude::*;

use crate::definition::{BuilderView, Iterations, same_text};
use crate::implementation::{join_path, joined_path};
use crate::suite::{Builder, SuiteBuilderView};

verus! {

/// Suite iteration settings after the configuration-wide `defaults` are
/// applied: each default that is set overrides the suite's own setting.
pub open spec fn with_defaults(own: Iterations, defaults: Iterations) -> Iterations {
    let warmed = if defaults.warmup_setting() is Some {
        own.with_warmup(defaults.warmup_count() as usize)
    } else {
        own
    };
    if defaults.benchmark_setting() is Some {
        warmed.with_benchmark(defaults.benchmark_count() as usize)
    } else {
        warmed
    }
}

/// Applies the configuration-wide iteration `defaults` to a suite.
pub fn apply_defaults(builder: Builder, defaults: Iterations) -> (r: Builder)
    ensures
        r@ == (SuiteBuilderView {
            namespace: BuilderView {
                iterations: with_defaults(builder@.namespace.iterations, defaults),
                ..builder@.namespace
            },
            ..builder@
        }),
{
    let warmed = if defaults.has_warmup() {
        builder.warmup(defaults.warmup())
    } else {
        builder
    };
    if defaults.has_benchmark() {
        warmed.iterations(defaults.benchmark())
    } else {
        warmed
    }
}

/// The directory of implementation `id`: `custom` when it is absolute,
/// else `custom`, or `id` when none is given, within `working_directory`.
pub open spec fn resolved_directory(
    working_directory: Seq<char>,
    id: Seq<char>,
    custom: Option<Seq<char>>,
) -> Seq<char> {
    match custom {
        None => joined_path(working_directory, id),
        Some(c) => if c.len() > 0 && c[0] == '/' {
            c
        } else {
            joined_path(working_directory, c)
        },
    }
}

/// The directory of implementation `id`, as [`resolved_directory`] says.
pub fn resolve_directory(working_directory: &str, id: &str, custom: Option<&str>) -> (r: String)
    ensures
        r@ == resolved_directory(
            working_directory@,
            id@,
            match custom {
                Some(c) => Some(c@),
                None => None,
            },
        ),
{
    match custom {
        None => join_path(working_directory, id),
        Some(c) => {
            if c.unicode_len() > 0 && c.get_char(0) == '/' {
                c.to_owned()
            } else {
                join_path(working_directory, c)
            }
        },
    }
}

/// Whether the id at `k` is the first of its kind in `ids`.
pub open spec fn first_of_its_id(ids: Seq<Seq<char>>, k: int) -> bool {
    forall|j: int| 0 <= j < k ==> #[trigger] ids[j] != ids[k]
}

/// For each id, whether no earlier one equals it: later duplicates are
/// skipped.
pub fn first_occurrences(ids: &Vec<String>) -> (r: Vec<bool>)
    ensures
        r@.len() == ids@.len(),
        forall|k: int|
            0 <= k < ids@.len() ==> #[trigger] r@[k] == first_of_its_id(
                ids@.map_values(|s: String| s@),
                k,
            ),
{
    let ghost views = ids@.map_values(|s: String| s@);
    let mut r: Vec<bool> = Vec::new();
    let mut k: usize = 0;
    while k < ids.len()
        invariant
            k <= ids@.len(),
            views == ids@.map_values(|s: String| s@),
            r@.len() == k,
            forall|i: int| 0 <= i < k ==> #[trigger] r@[i] == first_of_its_id(views, i),
        decreases ids.len() - k,
    {
        let mut first = true;
        let mut j: usize = 0;
        while j < k
            invariant
                j <= k < ids@.len(),
                views == ids@.map_values(|s: String| s@),
                first == forall|i: int| 0 <= i < j ==> #[trigger] views[i] != views[k as int],
            decreases k - j,
        {
            assert(views[j as int] == ids@[j as int]@);
            assert(views[k as int] == ids@[k as int]@);
            if same_text(ids[j].as_str(), ids[k].as_str()) {
                first = false;
            }
            j = j + 1;
        }
        r.push(first);
        k = k + 1;
    }
    r
}

} // verus!
