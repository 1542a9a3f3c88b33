//! The order in which a CSS/SVG filter list is evaluated on a raster
//! surface: uninterrupted runs of colour functions are evaluated together
//! and quantized once, geometry primitives one at a time.

use vstd::prelude::*;

verus! {

/// The kind of one filter operation, with what the evaluation order
/// depends on: whether a blur's radius is positive.
#[derive(Clone, Copy, Debug, PartialEq, Eq, Structural)]
pub enum FilterOperationKind {
    Grayscale,
    Sepia,
    Invert,
    Brightness,
    Contrast,
    Saturate,
    HueRotate,
    Opacity,
    Matrix,
    BlendWithFlood,
    Blur { positive_radius: bool },
    DropShadow,
    Offset,
    MorphologyDilate,
}

/// Colour functions map each pixel's colour on its own.
pub open spec fn spec_is_color_operation(operation: FilterOperationKind) -> bool {
    match operation {
        FilterOperationKind::Grayscale | FilterOperationKind::Sepia | FilterOperationKind::Invert
        | FilterOperationKind::Brightness | FilterOperationKind::Contrast
        | FilterOperationKind::Saturate | FilterOperationKind::HueRotate
        | FilterOperationKind::Opacity | FilterOperationKind::Matrix => true,
        _ => false,
    }
}

/// See [`spec_is_color_operation`].
pub fn is_color_operation(operation: FilterOperationKind) -> (result: bool)
    ensures
        result == spec_is_color_operation(operation),
{
    match operation {
        FilterOperationKind::Grayscale | FilterOperationKind::Sepia | FilterOperationKind::Invert
        | FilterOperationKind::Brightness | FilterOperationKind::Contrast
        | FilterOperationKind::Saturate | FilterOperationKind::HueRotate
        | FilterOperationKind::Opacity | FilterOperationKind::Matrix => true,
        _ => false,
    }
}

/// Primitives the raster surface evaluator cannot apply.
pub open spec fn is_unsupported_on_surface(operation: FilterOperationKind) -> bool {
    operation == FilterOperationKind::Offset || operation == FilterOperationKind::MorphologyDilate
}

/// One step of surface evaluation, by operation index.
#[derive(Clone, Copy, Debug, PartialEq, Eq, Structural)]
pub enum SurfaceStep {
    /// The colour functions `start..end`, evaluated together.
    ColorRun { start: usize, end: usize },
    BlendWithFlood { index: usize },
    Blur { index: usize },
    DropShadow { index: usize },
}

/// The steps for the first `count` operations and the start of the colour
/// run still open after them; `None` once an unsupported primitive is met.
pub open spec fn scan_steps(operations: Seq<FilterOperationKind>, count: nat) -> Option<
    (Seq<SurfaceStep>, Option<usize>),
>
    decreases count,
{
    if count == 0 {
        Some((Seq::empty(), None))
    } else {
        match scan_steps(operations, (count - 1) as nat) {
            None => None,
            Some((steps, open_run)) => {
                let index = (count - 1) as usize;
                let operation = operations[count - 1];
                if spec_is_color_operation(operation) {
                    Some(
                        (
                            steps,
                            match open_run {
                                Some(start) => Some(start),
                                None => Some(index),
                            },
                        ),
                    )
                } else {
                    let flushed = match open_run {
                        Some(start) => steps.push(SurfaceStep::ColorRun { start, end: index }),
                        None => steps,
                    };
                    match operation {
                        FilterOperationKind::BlendWithFlood => Some(
                            (flushed.push(SurfaceStep::BlendWithFlood { index }), None),
                        ),
                        FilterOperationKind::Blur { positive_radius } => if positive_radius {
                            Some((flushed.push(SurfaceStep::Blur { index }), None))
                        } else {
                            Some((flushed, None))
                        },
                        FilterOperationKind::DropShadow => Some(
                            (flushed.push(SurfaceStep::DropShadow { index }), None),
                        ),
                        _ => None,
                    }
                }
            },
        }
    }
}

/// The evaluation steps of a whole filter list: every uninterrupted run of
/// colour functions as one step, every flood blend, positive blur and drop
/// shadow as a step of its own, in list order; `None` when the list holds
/// a primitive the surface evaluator cannot apply.
pub open spec fn surface_steps(operations: Seq<FilterOperationKind>) -> Option<Seq<SurfaceStep>> {
    match scan_steps(operations, operations.len()) {
        Some((steps, open_run)) => Some(
            match open_run {
                Some(start) => steps.push(
                    SurfaceStep::ColorRun { start, end: operations.len() as usize },
                ),
                None => steps,
            },
        ),
        None => None,
    }
}

/// Plan the evaluation of a filter list on a raster surface.
pub fn surface_operation_steps(operations: &Vec<FilterOperationKind>) -> (steps: Option<
    Vec<SurfaceStep>,
>)
    ensures
        match steps {
            Some(steps) => surface_steps(operations@) == Some(steps@) && steps_in_list_order(
                steps@,
            ),
            None => surface_steps(operations@) is None,
        },
{
    let _operation_count = operations.len();
    proof {
        lemma_surface_steps_cover_the_list(operations@);
    }
    let mut steps: Vec<SurfaceStep> = Vec::new();
    let mut open_run: Option<usize> = None;
    let mut index: usize = 0;
    while index < operations.len()
        invariant
            index <= operations.len(),
            scan_steps(operations@, index as nat) == Some((steps@, open_run)),
        decreases operations.len() - index,
    {
        let operation = operations[index];
        if is_color_operation(operation) {
            if open_run.is_none() {
                open_run = Some(index);
            }
        } else {
            match open_run {
                Some(start) => {
                    steps.push(SurfaceStep::ColorRun { start, end: index });
                },
                None => {},
            }
            open_run = None;
            match operation {
                FilterOperationKind::BlendWithFlood => {
                    steps.push(SurfaceStep::BlendWithFlood { index });
                },
                FilterOperationKind::Blur { positive_radius } => {
                    if positive_radius {
                        steps.push(SurfaceStep::Blur { index });
                    }
                },
                FilterOperationKind::DropShadow => {
                    steps.push(SurfaceStep::DropShadow { index });
                },
                _ => {
                    proof {
                        lemma_scan_stays_none(operations@, (index + 1) as nat);
                    }
                    return None;
                },
            }
        }
        index += 1;
    }
    match open_run {
        Some(start) => {
            steps.push(SurfaceStep::ColorRun { start, end: operations.len() });
        },
        None => {},
    }
    Some(steps)
}

/// Once the scan meets an unsupported primitive, the whole list has no
/// plan.
proof fn lemma_scan_stays_none(operations: Seq<FilterOperationKind>, count: nat)
    requires
        count <= operations.len(),
        scan_steps(operations, count) is None,
    ensures
        surface_steps(operations) is None,
    decreases operations.len() - count,
{
    if count < operations.len() {
        assert(scan_steps(operations, (count + 1) as nat) is None);
        lemma_scan_stays_none(operations, (count + 1) as nat);
    }
}

/// Operations `start..end` are a maximal run of colour functions.
pub open spec fn is_maximal_color_run(
    operations: Seq<FilterOperationKind>,
    start: int,
    end: int,
) -> bool {
    &&& 0 <= start < end <= operations.len()
    &&& forall|k: int| start <= k < end ==> spec_is_color_operation(#[trigger] operations[k])
    &&& start == 0 || !spec_is_color_operation(operations[start - 1])
    &&& end == operations.len() || !spec_is_color_operation(operations[end])
}

/// A step names operations of the kind it evaluates.
pub open spec fn step_matches(operations: Seq<FilterOperationKind>, step: SurfaceStep) -> bool {
    match step {
        SurfaceStep::ColorRun { start, end } => is_maximal_color_run(
            operations,
            start as int,
            end as int,
        ),
        SurfaceStep::BlendWithFlood { index } => index < operations.len() && operations[index as int]
            == FilterOperationKind::BlendWithFlood,
        SurfaceStep::Blur { index } => index < operations.len() && operations[index as int]
            == FilterOperationKind::Blur { positive_radius: true },
        SurfaceStep::DropShadow { index } => index < operations.len() && operations[index as int]
            == FilterOperationKind::DropShadow,
    }
}

/// Some colour-run step covers operation `k`.
pub open spec fn run_covers(steps: Seq<SurfaceStep>, k: int) -> bool {
    exists|i: int|
        0 <= i < steps.len() && (#[trigger] steps[i] matches SurfaceStep::ColorRun { start, end }
            && start <= k < end)
}

/// The step that evaluates a single geometry primitive at `k`, if it is one.
pub open spec fn geometry_step(operations: Seq<FilterOperationKind>, k: int) -> Option<SurfaceStep> {
    match operations[k] {
        FilterOperationKind::BlendWithFlood => Some(SurfaceStep::BlendWithFlood { index: k as usize }),
        FilterOperationKind::Blur { positive_radius } => if positive_radius {
            Some(SurfaceStep::Blur { index: k as usize })
        } else {
            None
        },
        FilterOperationKind::DropShadow => Some(SurfaceStep::DropShadow { index: k as usize }),
        _ => None,
    }
}

/// The first operation index a step evaluates.
pub open spec fn step_first(step: SurfaceStep) -> int {
    match step {
        SurfaceStep::ColorRun { start, end } => start as int,
        SurfaceStep::BlendWithFlood { index } => index as int,
        SurfaceStep::Blur { index } => index as int,
        SurfaceStep::DropShadow { index } => index as int,
    }
}

/// The last operation index a step evaluates.
pub open spec fn step_last(step: SurfaceStep) -> int {
    match step {
        SurfaceStep::ColorRun { start, end } => end - 1,
        SurfaceStep::BlendWithFlood { index } => index as int,
        SurfaceStep::Blur { index } => index as int,
        SurfaceStep::DropShadow { index } => index as int,
    }
}

/// Steps follow the list: every operation an earlier step evaluates comes
/// before every operation a later step evaluates.
pub open spec fn steps_in_list_order(steps: Seq<SurfaceStep>) -> bool {
    forall|i: int, j: int|
        0 <= i < j < steps.len() ==> step_last(#[trigger] steps[i]) < step_first(
            #[trigger] steps[j],
        )
}

/// The operation index below which the scan of `count` operations has
/// emitted every step.
pub open spec fn emitted_below(count: int, open_run: Option<usize>) -> int {
    match open_run {
        Some(start) => start as int,
        None => count,
    }
}

/// What the scan of the first `count` operations has established.
pub open spec fn scan_facts(
    operations: Seq<FilterOperationKind>,
    count: int,
    steps: Seq<SurfaceStep>,
    open_run: Option<usize>,
) -> bool {
    &&& forall|i: int| 0 <= i < steps.len() ==> step_matches(operations, #[trigger] steps[i])
    &&& steps_in_list_order(steps)
    &&& forall|i: int|
        0 <= i < steps.len() ==> step_last(#[trigger] steps[i]) < emitted_below(count, open_run)
    &&& match open_run {
        Some(start) => {
            &&& start < count
            &&& forall|k: int| start <= k < count ==> spec_is_color_operation(#[trigger] operations[k])
            &&& start == 0 || !spec_is_color_operation(operations[start - 1])
        },
        None => count == 0 || !spec_is_color_operation(operations[count - 1]),
    }
    &&& forall|k: int|
        0 <= k < count && spec_is_color_operation(#[trigger] operations[k]) ==> run_covers(steps, k)
            || (open_run matches Some(start) && start <= k)
    &&& forall|k: int|
        0 <= k < count && #[trigger] geometry_step(operations, k) is Some ==> steps.contains(
            geometry_step(operations, k)->0,
        )
}

proof fn lemma_scan_facts(operations: Seq<FilterOperationKind>, count: nat)
    requires
        count <= operations.len(),
        operations.len() <= usize::MAX,
    ensures
        scan_steps(operations, count) is None <==> exists|k: int|
            0 <= k < count && is_unsupported_on_surface(#[trigger] operations[k]),
        scan_steps(operations, count) matches Some((steps, open_run)) ==> scan_facts(
            operations,
            count as int,
            steps,
            open_run,
        ),
    decreases count,
{
    if count > 0 {
        let c = (count - 1) as nat;
        lemma_scan_facts(operations, c);
        let index = c as int;
        let operation = operations[index];
        match scan_steps(operations, c) {
            None => {
                let k = choose|k: int| 0 <= k < c && is_unsupported_on_surface(#[trigger] operations[k]);
                assert(0 <= k < count && is_unsupported_on_surface(operations[k]));
            },
            Some((steps, open_run)) => {
                assert forall|k: int| 0 <= k < c implies !is_unsupported_on_surface(
                    #[trigger] operations[k],
                ) by {}
                if spec_is_color_operation(operation) {
                    let next_open = match open_run {
                        Some(start) => Some(start),
                        None => Some(index as usize),
                    };
                    assert(scan_steps(operations, count) == Some((steps, next_open)));
                    assert forall|k: int|
                        0 <= k < count && spec_is_color_operation(
                            #[trigger] operations[k],
                        ) implies run_covers(steps, k) || (next_open matches Some(start) && start
                        <= k) by {}
                    assert forall|k: int|
                        0 <= k < count && #[trigger] geometry_step(operations, k) is Some implies steps.contains(
                        geometry_step(operations, k)->0,
                    ) by {
                        if k == index {
                        }
                    }
                    assert(scan_facts(operations, count as int, steps, next_open));
                } else {
                    let flushed = match open_run {
                        Some(start) => steps.push(
                            SurfaceStep::ColorRun { start, end: index as usize },
                        ),
                        None => steps,
                    };
                    if is_unsupported_on_surface(operation) {
                        assert(scan_steps(operations, count) is None);
                        assert(is_unsupported_on_surface(operations[index]));
                    } else {
                        let next = match operation {
                            FilterOperationKind::BlendWithFlood => flushed.push(
                                SurfaceStep::BlendWithFlood { index: index as usize },
                            ),
                            FilterOperationKind::Blur { positive_radius } => if positive_radius {
                                flushed.push(SurfaceStep::Blur { index: index as usize })
                            } else {
                                flushed
                            },
                            _ => flushed.push(SurfaceStep::DropShadow { index: index as usize }),
                        };
                        assert(scan_steps(operations, count) == Some((next, None::<usize>)));
                        assert(forall|i: int| 0 <= i < flushed.len() ==> #[trigger] next[i] == flushed[i]);
                        assert forall|i: int| 0 <= i < next.len() implies step_matches(
                            operations,
                            #[trigger] next[i],
                        ) by {
                            if i < steps.len() {
                                assert(next[i] == steps[i]);
                            }
                        }
                        assert forall|k: int|
                            0 <= k < count && spec_is_color_operation(
                                #[trigger] operations[k],
                            ) implies run_covers(next, k) by {
                            if run_covers(steps, k) {
                                let i = choose|i: int|
                                    0 <= i < steps.len() && (#[trigger] steps[i] matches SurfaceStep::ColorRun {
                                        start,
                                        end,
                                    } && start <= k < end);
                                assert(next[i] == steps[i]);
                            } else {
                                let i = steps.len() as int;
                                assert(flushed[i] == next[i]);
                            }
                        }
                        assert forall|k: int|
                            0 <= k < count && #[trigger] geometry_step(operations, k) is Some implies next.contains(
                            geometry_step(operations, k)->0,
                        ) by {
                            if k < index {
                                let step = geometry_step(operations, k)->0;
                                let i = choose|i: int| 0 <= i < steps.len() && steps[i] == step;
                                assert(next[i] == steps[i]);
                            } else {
                                assert(next[next.len() - 1] == geometry_step(operations, k)->0);
                            }
                        }
                    }
                }
            },
        }
    }
}

/// The plan of a filter list is complete and exact: it exists exactly when
/// no operation is an offset or a dilation; then every step names
/// operations of its kind, every colour-run step is a maximal run of
/// colour functions, every colour function lies in a run, and every flood
/// blend, positive blur and drop shadow has its own step; and the steps
/// come in list order, so each operation sees the result of every
/// operation before it.
pub proof fn lemma_surface_steps_cover_the_list(operations: Seq<FilterOperationKind>)
    requires
        operations.len() <= usize::MAX,
    ensures
        surface_steps(operations) is None <==> exists|k: int|
            0 <= k < operations.len() && is_unsupported_on_surface(#[trigger] operations[k]),
        surface_steps(operations) matches Some(steps) ==> {
            &&& forall|i: int| 0 <= i < steps.len() ==> step_matches(operations, #[trigger] steps[i])
            &&& steps_in_list_order(steps)
            &&& forall|k: int|
                0 <= k < operations.len() && spec_is_color_operation(#[trigger] operations[k])
                    ==> run_covers(steps, k)
            &&& forall|k: int|
                0 <= k < operations.len() && #[trigger] geometry_step(operations, k) is Some
                    ==> steps.contains(geometry_step(operations, k)->0)
        },
{
    let len = operations.len();
    lemma_scan_facts(operations, len);
    match scan_steps(operations, len) {
        Some((steps, open_run)) => {
            match open_run {
                Some(start) => {
                    let last = SurfaceStep::ColorRun { start, end: len as usize };
                    let all = steps.push(last);
                    assert(step_matches(operations, last));
                    assert forall|i: int| 0 <= i < all.len() implies step_matches(
                        operations,
                        #[trigger] all[i],
                    ) by {
                        if i < steps.len() {
                            assert(all[i] == steps[i]);
                        }
                    }
                    assert forall|k: int|
                        0 <= k < len && spec_is_color_operation(
                            #[trigger] operations[k],
                        ) implies run_covers(all, k) by {
                        if run_covers(steps, k) {
                            let i = choose|i: int|
                                0 <= i < steps.len() && (#[trigger] steps[i] matches SurfaceStep::ColorRun {
                                    start,
                                    end,
                                } && start <= k < end);
                            assert(all[i] == steps[i]);
                        } else {
                            assert(all[steps.len() as int] == last);
                        }
                    }
                    assert forall|k: int|
                        0 <= k < len && #[trigger] geometry_step(operations, k) is Some implies all.contains(
                        geometry_step(operations, k)->0,
                    ) by {
                        let step = geometry_step(operations, k)->0;
                        let i = choose|i: int| 0 <= i < steps.len() && steps[i] == step;
                        assert(all[i] == steps[i]);
                    }
                },
                None => {},
            }
        },
        None => {},
    }
}

} // verus!
