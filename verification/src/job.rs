//! The plan of a slice job's outputs: which files a job writes, and in what
//! order its phases run, given which outputs were asked for.

use crate::paths::SliceOutputPaths;
use crate::progress::CancellationToken;
use vstd::prelude::*;

verus! {

/// The debug outputs a job was asked for.
#[derive(Clone, Copy, Debug, PartialEq, Eq, Structural)]
pub struct SliceDebugOutput {
    pub export_ply: bool,
    pub gcode: bool,
}

/// A slice job: the model to slice, the prefix of its outputs, the debug
/// outputs asked for and the explicit kernel to propagate with, if any.
#[derive(Clone, Debug)]
pub struct SliceJobRequest {
    pub input: String,
    pub output_prefix: String,
    pub debug_output: SliceDebugOutput,
    pub kernel_path: Option<String>,
}

/// One step of writing a job's outputs.
#[derive(Clone, Copy, Debug, PartialEq, Eq, Structural)]
pub enum OutputStep {
    /// Stop here if the job has been cancelled.
    CheckCancelled,
    /// Write the occupancy volume.
    WriteVolume,
    /// Write the atlas image.
    WriteImage,
    /// Report that isosurface extraction starts.
    BeginExtractLayers,
    /// Extract the isosurfaces of the field, and report it done.
    ExtractLayers,
    /// Write the unclipped isosurfaces.
    WriteMesh,
    /// Report that clipping starts.
    BeginClipLayers,
    /// Clip the isosurfaces to the part, and report it done.
    ClipLayers,
    /// Write the clipped isosurfaces.
    WriteClippedMesh,
    /// Report that toolpath generation starts.
    BeginGeneratePaths,
    /// Generate the toolpaths of the clipped layers, and report it done.
    GeneratePaths,
    /// Write the G-code.
    WriteGcode,
    /// Write the metadata.
    WriteMetadata,
}

/// Whether a step writes a file.
pub open spec fn writes_file(step: OutputStep) -> bool {
    match step {
        OutputStep::WriteVolume | OutputStep::WriteImage | OutputStep::WriteMesh
        | OutputStep::WriteClippedMesh | OutputStep::WriteGcode | OutputStep::WriteMetadata => true,
        _ => false,
    }
}

/// Whether a step does a long computation.
pub open spec fn computes(step: OutputStep) -> bool {
    match step {
        OutputStep::ExtractLayers | OutputStep::ClipLayers | OutputStep::GeneratePaths => true,
        _ => false,
    }
}

/// `step` followed by a cancellation check.
pub open spec fn then_check(step: OutputStep) -> Seq<OutputStep> {
    seq![step, OutputStep::CheckCancelled]
}

/// The steps of writing a job's outputs, in order, with a cancellation
/// check after each file written but the last and around each long
/// computation: the volume and the image always; when there is a field and
/// PLY or G-code output is asked for, the layers are extracted (and written
/// when the paths hold a mesh), clipped (and written when the paths hold a
/// clipped mesh), and turned into paths and G-code when the paths hold a
/// G-code file; the metadata last.
pub open spec fn planned_steps(paths: SliceOutputPaths, has_field: bool, debug: SliceDebugOutput) -> Seq<
    OutputStep,
> {
    let layers = if has_field && (debug.export_ply || debug.gcode) {
        then_check(OutputStep::BeginExtractLayers) + then_check(OutputStep::ExtractLayers) + (
        if paths.mesh is Some {
            then_check(OutputStep::WriteMesh)
        } else {
            Seq::empty()
        }) + then_check(OutputStep::BeginClipLayers) + then_check(OutputStep::ClipLayers) + (
        if paths.clipped_mesh is Some {
            then_check(OutputStep::WriteClippedMesh)
        } else {
            Seq::empty()
        }) + (if paths.gcode is Some {
            then_check(OutputStep::BeginGeneratePaths) + then_check(OutputStep::GeneratePaths)
                + then_check(OutputStep::WriteGcode)
        } else {
            Seq::empty()
        })
    } else {
        Seq::empty()
    };
    then_check(OutputStep::WriteVolume) + then_check(OutputStep::WriteImage) + layers + seq![
        OutputStep::WriteMetadata,
    ]
}

/// Whether the step at `i` of `steps`, where it writes a file (and is not
/// the last step) or does a long computation, is followed directly by a
/// cancellation check.
pub open spec fn checked_after(steps: Seq<OutputStep>, i: int) -> bool {
    (0 <= i < steps.len() - 1 && (writes_file(steps[i]) || computes(steps[i]))) ==> steps[i + 1]
        == OutputStep::CheckCancelled
}

/// Whether the step at `i` of `steps`, where it does a long computation,
/// is preceded directly by a cancellation check.
pub open spec fn checked_before(steps: Seq<OutputStep>, i: int) -> bool {
    (0 <= i < steps.len() && computes(steps[i])) ==> i > 0 && steps[i - 1] == OutputStep::CheckCancelled
}

/// Whether a cancelled job stops before it writes another file or starts
/// another long computation: each file written but the last, and each long
/// computation, is followed directly by a cancellation check, and each long
/// computation is preceded directly by one.
pub open spec fn checks_cancellation(steps: Seq<OutputStep>) -> bool {
    &&& forall|i: int| #[trigger] checked_after(steps, i)
    &&& forall|i: int| #[trigger] checked_before(steps, i)
}

/// Whether `steps` is guarded as a part of a plan: as `checks_cancellation`
/// says, but a long computation may stand first.
spec fn guarded(steps: Seq<OutputStep>) -> bool {
    &&& forall|i: int| #[trigger] checked_after(steps, i)
    &&& forall|i: int| i != 0 ==> #[trigger] checked_before(steps, i)
}

/// Whether `steps` is empty or ends in a check.
spec fn ends_checked(steps: Seq<OutputStep>) -> bool {
    steps.len() == 0 || steps.last() == OutputStep::CheckCancelled
}

proof fn lemma_guarded_concat(a: Seq<OutputStep>, b: Seq<OutputStep>)
    requires
        guarded(a),
        guarded(b),
        ends_checked(a),
    ensures
        guarded(a + b),
        ends_checked(b) ==> ends_checked(a + b),
{
    let c = a + b;
    assert forall|i: int| #[trigger] checked_after(c, i) by {
        if 0 <= i < c.len() - 1 {
            if i < a.len() - 1 {
                assert(checked_after(a, i));
                assert(c[i] == a[i] && c[i + 1] == a[i + 1]);
            } else if i == a.len() - 1 {
                assert(c[i] == a.last());
            } else {
                assert(checked_after(b, i - a.len()));
                assert(c[i] == b[i - a.len()] && c[i + 1] == b[i + 1 - a.len()]);
            }
        }
    }
    assert forall|i: int| i != 0 implies #[trigger] checked_before(c, i) by {
        if 0 < i < c.len() {
            if i < a.len() {
                assert(checked_before(a, i));
                assert(c[i] == a[i] && c[i - 1] == a[i - 1]);
            } else if i == a.len() {
                assert(c[i - 1] == a.last());
            } else {
                assert(checked_before(b, i - a.len()));
                assert(c[i] == b[i - a.len()] && c[i - 1] == b[i - 1 - a.len()]);
            }
        }
    }
    if ends_checked(b) && c.len() > 0 {
        if b.len() > 0 {
            assert(c.last() == b.last());
        } else {
            assert(c =~= a);
        }
    }
}

proof fn lemma_then_check(step: OutputStep)
    ensures
        guarded(then_check(step)),
        ends_checked(then_check(step)),
{
    let s = then_check(step);
    assert forall|i: int| #[trigger] checked_after(s, i) by {
        if i == 0 {
            assert(s[1] == OutputStep::CheckCancelled);
        }
    }
    assert forall|i: int| i != 0 implies #[trigger] checked_before(s, i) by {
        if i == 1 {
            assert(s[1] == OutputStep::CheckCancelled);
        }
    }
}

/// The layers part of a plan is guarded and ends in a check.
proof fn lemma_layers_checked(paths: SliceOutputPaths, with_layers: bool)
    ensures
        ({
            let layers = if with_layers {
                then_check(OutputStep::BeginExtractLayers) + then_check(OutputStep::ExtractLayers) + (
                if paths.mesh is Some {
                    then_check(OutputStep::WriteMesh)
                } else {
                    Seq::empty()
                }) + then_check(OutputStep::BeginClipLayers) + then_check(OutputStep::ClipLayers) + (
                if paths.clipped_mesh is Some {
                    then_check(OutputStep::WriteClippedMesh)
                } else {
                    Seq::empty()
                }) + (if paths.gcode is Some {
                    then_check(OutputStep::BeginGeneratePaths) + then_check(OutputStep::GeneratePaths)
                        + then_check(OutputStep::WriteGcode)
                } else {
                    Seq::empty()
                })
            } else {
                Seq::empty()
            };
            guarded(layers) && ends_checked(layers)
        }),
{
    let empty = Seq::<OutputStep>::empty();
    assert forall|i: int| #[trigger] checked_after(empty, i) by {}
    assert forall|i: int| i != 0 implies #[trigger] checked_before(empty, i) by {}
    lemma_then_check(OutputStep::BeginExtractLayers);
    lemma_then_check(OutputStep::ExtractLayers);
    lemma_then_check(OutputStep::WriteMesh);
    lemma_then_check(OutputStep::BeginClipLayers);
    lemma_then_check(OutputStep::ClipLayers);
    lemma_then_check(OutputStep::WriteClippedMesh);
    lemma_then_check(OutputStep::BeginGeneratePaths);
    lemma_then_check(OutputStep::GeneratePaths);
    lemma_then_check(OutputStep::WriteGcode);
    if with_layers {
        let mesh = if paths.mesh is Some {
            then_check(OutputStep::WriteMesh)
        } else {
            empty
        };
        let clipped = if paths.clipped_mesh is Some {
            then_check(OutputStep::WriteClippedMesh)
        } else {
            empty
        };
        let g1 = then_check(OutputStep::BeginGeneratePaths) + then_check(OutputStep::GeneratePaths);
        lemma_guarded_concat(then_check(OutputStep::BeginGeneratePaths), then_check(OutputStep::GeneratePaths));
        lemma_guarded_concat(g1, then_check(OutputStep::WriteGcode));
        let gcode = if paths.gcode is Some {
            g1 + then_check(OutputStep::WriteGcode)
        } else {
            empty
        };
        let a1 = then_check(OutputStep::BeginExtractLayers) + then_check(OutputStep::ExtractLayers);
        lemma_guarded_concat(then_check(OutputStep::BeginExtractLayers), then_check(OutputStep::ExtractLayers));
        lemma_guarded_concat(a1, mesh);
        let a2 = a1 + mesh + then_check(OutputStep::BeginClipLayers);
        lemma_guarded_concat(a1 + mesh, then_check(OutputStep::BeginClipLayers));
        lemma_guarded_concat(a2, then_check(OutputStep::ClipLayers));
        let a3 = a2 + then_check(OutputStep::ClipLayers);
        lemma_guarded_concat(a3, clipped);
        lemma_guarded_concat(a3 + clipped, gcode);
    }
}

/// Every plan stops a cancelled job before it writes another file or starts
/// another long computation.
pub proof fn lemma_plan_checks_cancellation(paths: SliceOutputPaths, has_field: bool, debug: SliceDebugOutput)
    ensures
        checks_cancellation(planned_steps(paths, has_field, debug)),
{
    let with_layers = has_field && (debug.export_ply || debug.gcode);
    lemma_layers_checked(paths, with_layers);
    let layers = if with_layers {
        then_check(OutputStep::BeginExtractLayers) + then_check(OutputStep::ExtractLayers) + (
        if paths.mesh is Some {
            then_check(OutputStep::WriteMesh)
        } else {
            Seq::empty()
        }) + then_check(OutputStep::BeginClipLayers) + then_check(OutputStep::ClipLayers) + (
        if paths.clipped_mesh is Some {
            then_check(OutputStep::WriteClippedMesh)
        } else {
            Seq::empty()
        }) + (if paths.gcode is Some {
            then_check(OutputStep::BeginGeneratePaths) + then_check(OutputStep::GeneratePaths)
                + then_check(OutputStep::WriteGcode)
        } else {
            Seq::empty()
        })
    } else {
        Seq::empty()
    };
    let head = then_check(OutputStep::WriteVolume) + then_check(OutputStep::WriteImage);
    lemma_then_check(OutputStep::WriteVolume);
    lemma_then_check(OutputStep::WriteImage);
    lemma_guarded_concat(then_check(OutputStep::WriteVolume), then_check(OutputStep::WriteImage));
    lemma_guarded_concat(head, layers);
    let last = seq![OutputStep::WriteMetadata];
    assert forall|i: int| #[trigger] checked_after(last, i) by {}
    assert forall|i: int| i != 0 implies #[trigger] checked_before(last, i) by {}
    lemma_guarded_concat(head + layers, last);
    let plan = head + layers + last;
    assert(plan == planned_steps(paths, has_field, debug));
    assert(plan[0] == OutputStep::WriteVolume);
    assert forall|i: int| #[trigger] checked_before(plan, i) by {
        if i != 0 {
            assert(checked_before(plan, i));
        }
    }
}

/// The steps of writing the outputs at `paths` (see `planned_steps`).
pub fn output_steps(paths: &SliceOutputPaths, has_field: bool, debug: SliceDebugOutput) -> (r: Vec<OutputStep>)
    ensures
        r@ == planned_steps(*paths, has_field, debug),
        checks_cancellation(r@),
{
    let mut steps: Vec<OutputStep> = Vec::new();
    steps.push(OutputStep::WriteVolume);
    steps.push(OutputStep::CheckCancelled);
    steps.push(OutputStep::WriteImage);
    steps.push(OutputStep::CheckCancelled);
    if has_field && (debug.export_ply || debug.gcode) {
        steps.push(OutputStep::BeginExtractLayers);
        steps.push(OutputStep::CheckCancelled);
        steps.push(OutputStep::ExtractLayers);
        steps.push(OutputStep::CheckCancelled);
        if paths.mesh.is_some() {
            steps.push(OutputStep::WriteMesh);
            steps.push(OutputStep::CheckCancelled);
        }
        steps.push(OutputStep::BeginClipLayers);
        steps.push(OutputStep::CheckCancelled);
        steps.push(OutputStep::ClipLayers);
        steps.push(OutputStep::CheckCancelled);
        if paths.clipped_mesh.is_some() {
            steps.push(OutputStep::WriteClippedMesh);
            steps.push(OutputStep::CheckCancelled);
        }
        if paths.gcode.is_some() {
            steps.push(OutputStep::BeginGeneratePaths);
            steps.push(OutputStep::CheckCancelled);
            steps.push(OutputStep::GeneratePaths);
            steps.push(OutputStep::CheckCancelled);
            steps.push(OutputStep::WriteGcode);
            steps.push(OutputStep::CheckCancelled);
        }
    }
    steps.push(OutputStep::WriteMetadata);
    assert(steps@ =~= planned_steps(*paths, has_field, debug));
    proof {
        lemma_plan_checks_cancellation(*paths, has_field, debug);
    }
    steps
}


/// What a job's cancellation check answers once the token has been read:
/// the error text `cancelled` when it reported a cancellation, `Ok`
/// otherwise.
pub fn cancellation_result(cancelled: bool) -> (r: Result<(), String>)
    ensures
        cancelled ==> (r matches Err(e) && e@ == "cancelled"@),
        !cancelled ==> r is Ok,
{
    if cancelled {
        Err(String::from_str("cancelled"))
    } else {
        Ok(())
    }
}

/// Stops a job that has been cancelled, with the error text `cancelled`.
/// The token is shared with other threads, so which answer comes back is
/// decided by the flag at the moment it is read (see `cancellation_result`).
pub fn check_cancelled(cancellation: &CancellationToken) -> (r: Result<(), String>)
    ensures
        r matches Err(e) ==> e@ == "cancelled"@,
{
    cancellation_result(cancellation.is_cancelled())
}

} // verus!
