//! The processing chain: stage definitions, the artifacts each stage scope
//! produces, and the plan of a run over a dataset's patches.

use vstd::prelude::*;
use crate::text::str_eq;

verus! {

/// Whether a stage runs once per patch or once on the merged dataset.
#[derive(Clone, Copy, Debug, PartialEq, Eq, Structural)]
pub enum StageScope {
    Patch,
    Merged,
}

impl StageScope {
    pub open spec fn spec_label(self) -> Seq<char> {
        match self {
            StageScope::Patch => "patch"@,
            StageScope::Merged => "merged"@,
        }
    }

    /// The lowercase name of the scope.
    pub fn label(&self) -> (r: &'static str)
        ensures
            r@ == self.spec_label(),
    {
        match self {
            StageScope::Patch => "patch",
            StageScope::Merged => "merged",
        }
    }
}

/// The outcome of a planned or executed stage scope.
#[derive(Clone, Copy, Debug, PartialEq, Eq, Structural)]
pub enum StageStatus {
    Planned,
    Completed,
    Failed,
    PendingExecution,
    Skipped,
    SkippedExisting,
}

impl StageStatus {
    pub open spec fn spec_label(self) -> Seq<char> {
        match self {
            StageStatus::Planned => "planned"@,
            StageStatus::Completed => "completed"@,
            StageStatus::Failed => "failed"@,
            StageStatus::PendingExecution => "pending_execution"@,
            StageStatus::Skipped => "skipped"@,
            StageStatus::SkippedExisting => "skipped_existing"@,
        }
    }

    /// The snake-case name of the status.
    pub fn label(&self) -> (r: &'static str)
        ensures
            r@ == self.spec_label(),
    {
        match self {
            StageStatus::Planned => "planned",
            StageStatus::Completed => "completed",
            StageStatus::Failed => "failed",
            StageStatus::PendingExecution => "pending_execution",
            StageStatus::Skipped => "skipped",
            StageStatus::SkippedExisting => "skipped_existing",
        }
    }
}

/// A stage of the processing chain.
#[derive(Clone, Copy, Debug)]
pub struct StageDef {
    pub stage_id: u8,
    pub name: &'static str,
    pub scope: StageScope,
}

/// The ordered chain of the eight stages: stage `i` (from 1) is the `i`-th
/// entry; stages 1 to 5 run on patches, 6 to 8 on the merged dataset.
pub open spec fn stage_scope_of(stage_id: u8) -> StageScope {
    if stage_id <= 5 {
        StageScope::Patch
    } else {
        StageScope::Merged
    }
}

pub open spec fn stage_name_of(stage_id: u8) -> Seq<char> {
    if stage_id == 1 {
        "Initial load"@
    } else if stage_id == 2 {
        "Estimate gamma"@
    } else if stage_id == 3 {
        "Select PS pixels"@
    } else if stage_id == 4 {
        "Weed adjacent pixels"@
    } else if stage_id == 5 {
        "Correct phase + merge"@
    } else if stage_id == 6 {
        "Unwrap phase"@
    } else if stage_id == 7 {
        "Calculate SCLA"@
    } else {
        "Filter SCN"@
    }
}

/// The definition of stage `id` (1 to 8).
pub open spec fn def_matches(d: StageDef, id: u8) -> bool {
    d.stage_id == id && d.name@ == stage_name_of(id) && d.scope == stage_scope_of(id)
}

fn stage_def(stage_id: u8, name: &'static str, scope: StageScope) -> (r: StageDef)
    ensures
        r.stage_id == stage_id,
        r.name == name,
        r.scope == scope,
{
    StageDef { stage_id, name, scope }
}

/// The eight stage definitions in chain order.
pub fn stage_defs() -> (r: Vec<StageDef>)
    ensures
        r@.len() == 8,
        forall|i: int| 0 <= i < 8 ==> def_matches(#[trigger] r@[i], (i + 1) as u8),
{
    let mut v: Vec<StageDef> = Vec::new();
    v.push(stage_def(1, "Initial load", StageScope::Patch));
    v.push(stage_def(2, "Estimate gamma", StageScope::Patch));
    v.push(stage_def(3, "Select PS pixels", StageScope::Patch));
    v.push(stage_def(4, "Weed adjacent pixels", StageScope::Patch));
    v.push(stage_def(5, "Correct phase + merge", StageScope::Patch));
    v.push(stage_def(6, "Unwrap phase", StageScope::Merged));
    v.push(stage_def(7, "Calculate SCLA", StageScope::Merged));
    v.push(stage_def(8, "Filter SCN", StageScope::Merged));
    assert forall|i: int| 0 <= i < 8 implies def_matches(#[trigger] v@[i], (i + 1) as u8) by {
    }
    v
}

/// The first stage selected by a range starting at `start_step`.
pub open spec fn range_lo(start_step: u8) -> int {
    if start_step == 0 {
        1
    } else {
        start_step as int
    }
}

/// The last stage selected by a range ending at `end_step`.
pub open spec fn range_hi(end_step: u8) -> int {
    if end_step > 8 {
        8
    } else {
        end_step as int
    }
}

/// How many stages the range selects.
pub open spec fn range_count(start_step: u8, end_step: u8) -> int {
    if range_lo(start_step) <= range_hi(end_step) {
        range_hi(end_step) - range_lo(start_step) + 1
    } else {
        0
    }
}

/// The stages whose number lies in `start_step..=end_step`, in chain order.
pub fn selected_stages(start_step: u8, end_step: u8) -> (r: Vec<StageDef>)
    ensures
        r@.len() == range_count(start_step, end_step),
        forall|i: int| 0 <= i < r@.len() ==> def_matches(#[trigger] r@[i], (range_lo(start_step) + i) as u8),
{
    let defs = stage_defs();
    let mut out: Vec<StageDef> = Vec::new();
    let mut i: usize = 0;
    let ghost first: int = range_lo(start_step);
    while i < 8
        invariant
            i <= 8,
            defs@.len() == 8,
            forall|k: int| 0 <= k < 8 ==> def_matches(#[trigger] defs@[k], (k + 1) as u8),
            first == range_lo(start_step),
            out@.len() == (if i + 1 <= first || first > end_step { 0 } else if i <= end_step { i + 1 - first } else { end_step - first + 1 }),
            forall|k: int| 0 <= k < out@.len() ==> def_matches(#[trigger] out@[k], (k + first) as u8),
        decreases 8 - i,
    {
        let d = defs[i];
        assert(def_matches(defs@[i as int], (i + 1) as u8));
        if start_step <= d.stage_id && d.stage_id <= end_step {
            out.push(d);
        }
        i = i + 1;
    }
    out
}

/// The artifact that marks a stage scope as done, if the stage scope has one.
pub open spec fn spec_expected_artifact(stage_id: u8, scope: StageScope) -> Option<Seq<char>> {
    match scope {
        StageScope::Patch => if stage_id == 1 {
            Some("ps1.mat"@)
        } else if stage_id == 2 {
            Some("pm1.mat"@)
        } else if stage_id == 3 {
            Some("select1.mat"@)
        } else if stage_id == 4 {
            Some("weed1.mat"@)
        } else if stage_id == 5 {
            Some("ph2.mat"@)
        } else {
            None
        },
        StageScope::Merged => if stage_id == 5 {
            Some("ifgstd2.mat"@)
        } else if stage_id == 6 {
            Some("phuw2.mat"@)
        } else if stage_id == 7 {
            Some("scla2.mat"@)
        } else if stage_id == 8 {
            Some("uw_space_time.mat"@)
        } else {
            None
        },
    }
}

/// The artifact that marks each stage scope as done: on a patch, stages 1 to
/// 5 write `ps1.mat`, `pm1.mat`, `select1.mat`, `weed1.mat` and `ph2.mat`; on
/// the merged dataset, stages 5 to 8 write `ifgstd2.mat`, `phuw2.mat`,
/// `scla2.mat` and `uw_space_time.mat`; no other stage scope has one.
pub proof fn law_stage_artifacts(stage_id: u8)
    ensures
        spec_expected_artifact(1, StageScope::Patch) == Some("ps1.mat"@),
        spec_expected_artifact(2, StageScope::Patch) == Some("pm1.mat"@),
        spec_expected_artifact(3, StageScope::Patch) == Some("select1.mat"@),
        spec_expected_artifact(4, StageScope::Patch) == Some("weed1.mat"@),
        spec_expected_artifact(5, StageScope::Patch) == Some("ph2.mat"@),
        spec_expected_artifact(5, StageScope::Merged) == Some("ifgstd2.mat"@),
        spec_expected_artifact(6, StageScope::Merged) == Some("phuw2.mat"@),
        spec_expected_artifact(7, StageScope::Merged) == Some("scla2.mat"@),
        spec_expected_artifact(8, StageScope::Merged) == Some("uw_space_time.mat"@),
        !(1 <= stage_id <= 5) ==> spec_expected_artifact(stage_id, StageScope::Patch) is None,
        !(5 <= stage_id <= 8) ==> spec_expected_artifact(stage_id, StageScope::Merged) is None,
{
}

/// The artifact that marks a stage scope as done.
pub fn expected_stage_artifact(stage_id: u8, scope: StageScope) -> (r: Option<&'static str>)
    ensures
        match spec_expected_artifact(stage_id, scope) {
            Some(a) => r matches Some(x) && x@ == a,
            None => r is None,
        },
{
    match scope {
        StageScope::Patch => if stage_id == 1 {
            Some("ps1.mat")
        } else if stage_id == 2 {
            Some("pm1.mat")
        } else if stage_id == 3 {
            Some("select1.mat")
        } else if stage_id == 4 {
            Some("weed1.mat")
        } else if stage_id == 5 {
            Some("ph2.mat")
        } else {
            None
        },
        StageScope::Merged => if stage_id == 5 {
            Some("ifgstd2.mat")
        } else if stage_id == 6 {
            Some("phuw2.mat")
        } else if stage_id == 7 {
            Some("scla2.mat")
        } else if stage_id == 8 {
            Some("uw_space_time.mat")
        } else {
            None
        },
    }
}

} // verus!

verus! {

/// The artifacts whose joint presence means a stage scope need not run again.
pub open spec fn spec_expected_bundle(stage_id: u8, scope: StageScope) -> Seq<Seq<char>> {
    match scope {
        StageScope::Patch => if stage_id == 1 {
            seq!["ps1.mat"@, "ph1.mat"@, "bp1.mat"@, "da1.mat"@, "hgt1.mat"@, "la1.mat"@, "psver.mat"@]
        } else if stage_id == 2 {
            seq!["pm1.mat"@]
        } else if stage_id == 3 {
            seq!["select1.mat"@]
        } else if stage_id == 4 {
            seq!["weed1.mat"@]
        } else if stage_id == 5 {
            seq!["ps2.mat"@, "ph2.mat"@, "pm2.mat"@, "bp2.mat"@, "hgt2.mat"@, "la2.mat"@, "rc2.mat"@, "psver.mat"@]
        } else {
            seq![]
        },
        StageScope::Merged => if stage_id == 5 {
            seq!["ps2.mat"@, "ph2.mat"@, "pm2.mat"@, "bp2.mat"@, "hgt2.mat"@, "la2.mat"@, "rc2.mat"@, "psver.mat"@, "ifgstd2.mat"@]
        } else if stage_id == 6 {
            seq!["ps2.mat"@, "ph2.mat"@, "pm2.mat"@, "bp2.mat"@, "ifgstd2.mat"@, "phuw2.mat"@, "uw_phaseuw.mat"@, "uw_grid.mat"@, "uw_interp.mat"@]
        } else if stage_id == 7 {
            seq!["scla2.mat"@, "scla_smooth2.mat"@]
        } else if stage_id == 8 {
            seq!["mean_v.mat"@, "uw_space_time.mat"@]
        } else {
            seq![]
        },
    }
}

fn names(items: &[&'static str]) -> (r: Vec<&'static str>)
    ensures
        r@ == items@,
{
    let mut v: Vec<&'static str> = Vec::new();
    let mut i: usize = 0;
    while i < items.len()
        invariant
            i <= items@.len(),
            v@ == items@.take(i as int),
        decreases items@.len() - i,
    {
        v.push(items[i]);
        i = i + 1;
        proof {
            assert(v@ =~= items@.take(i as int));
        }
    }
    proof {
        assert(items@.take(items@.len() as int) =~= items@);
    }
    v
}

/// The artifacts whose joint presence means a stage scope need not run again.
pub fn expected_bundle(stage_id: u8, scope: StageScope) -> (r: Vec<&'static str>)
    ensures
        r@.map_values(|s: &'static str| s@) == spec_expected_bundle(stage_id, scope),
{
    let v = match scope {
        StageScope::Patch => if stage_id == 1 {
            names(&["ps1.mat", "ph1.mat", "bp1.mat", "da1.mat", "hgt1.mat", "la1.mat", "psver.mat"])
        } else if stage_id == 2 {
            names(&["pm1.mat"])
        } else if stage_id == 3 {
            names(&["select1.mat"])
        } else if stage_id == 4 {
            names(&["weed1.mat"])
        } else if stage_id == 5 {
            names(&["ps2.mat", "ph2.mat", "pm2.mat", "bp2.mat", "hgt2.mat", "la2.mat", "rc2.mat", "psver.mat"])
        } else {
            Vec::new()
        },
        StageScope::Merged => if stage_id == 5 {
            names(&["ps2.mat", "ph2.mat", "pm2.mat", "bp2.mat", "hgt2.mat", "la2.mat", "rc2.mat", "psver.mat", "ifgstd2.mat"])
        } else if stage_id == 6 {
            names(&["ps2.mat", "ph2.mat", "pm2.mat", "bp2.mat", "ifgstd2.mat", "phuw2.mat", "uw_phaseuw.mat", "uw_grid.mat", "uw_interp.mat"])
        } else if stage_id == 7 {
            names(&["scla2.mat", "scla_smooth2.mat"])
        } else if stage_id == 8 {
            names(&["mean_v.mat", "uw_space_time.mat"])
        } else {
            Vec::new()
        },
    };
    proof {
        assert(v@.map_values(|s: &'static str| s@) =~= spec_expected_bundle(stage_id, scope));
    }
    v
}

} // verus!

verus! {

/// A requested run over a dataset.
#[derive(Clone, Debug)]
pub struct RunRequest {
    pub dataset_root: String,
    pub start_step: u8,
    pub end_step: u8,
    pub dry_run: bool,
}

/// Rejects a stage range that is not within `1..=8` or runs backwards.
pub fn validate_stage_range(start_step: u8, end_step: u8) -> (r: Result<(), crate::core_error::CoreError>)
    ensures
        r is Ok <==> (1 <= start_step <= end_step <= 8),
        r matches Err(e) ==> e@ == (crate::core_error::CoreErrorView::InvalidStageRange { start_step, end_step }),
{
    if start_step == 0 || end_step == 0 || start_step > end_step || end_step > 8 {
        return Err(crate::core_error::CoreError::InvalidStageRange { start_step, end_step });
    }
    Ok(())
}

/// The report of one stage scope on one target.
#[derive(Clone, Debug)]
pub struct StageResult {
    pub stage: u8,
    pub scope: StageScope,
    pub target: String,
    pub status: StageStatus,
    pub details: String,
}

pub struct StageResultView {
    pub stage: u8,
    pub scope: StageScope,
    pub target: Seq<char>,
    pub status: StageStatus,
    pub details: Seq<char>,
}

impl View for StageResult {
    type V = StageResultView;

    open spec fn view(&self) -> StageResultView {
        StageResultView {
            stage: self.stage,
            scope: self.scope,
            target: self.target@,
            status: self.status,
            details: self.details@,
        }
    }
}

/// A directory that a stage scope works in: its last path component when that
/// is valid UTF-8, and the artifact files found in it.
#[derive(Clone, Debug)]
pub struct PlanTarget {
    pub name: Option<String>,
    pub present: Vec<String>,
}

pub struct PlanTargetView {
    pub name: Option<Seq<char>>,
    pub present: Seq<Seq<char>>,
}

impl View for PlanTarget {
    type V = PlanTargetView;

    open spec fn view(&self) -> PlanTargetView {
        PlanTargetView {
            name: match self.name {
                Some(n) => Some(n@),
                None => None,
            },
            present: self.present@.map_values(|s: String| s@),
        }
    }
}

/// Every artifact of the stage scope's bundle is among the files present.
pub open spec fn bundle_present(stage_id: u8, scope: StageScope, present: Seq<Seq<char>>) -> bool {
    forall|i: int| 0 <= i < spec_expected_bundle(stage_id, scope).len()
        ==> present.contains(#[trigger] spec_expected_bundle(stage_id, scope)[i])
}

/// The report for one stage scope on one target: skipped when the stage scope
/// has no artifact, already done when its whole bundle is present, otherwise
/// planned (dry run) or pending.
pub open spec fn spec_plan_one(
    stage_id: u8,
    scope: StageScope,
    target: Seq<char>,
    present: Seq<Seq<char>>,
    dry_run: bool,
) -> StageResultView {
    match spec_expected_artifact(stage_id, scope) {
        None => StageResultView {
            stage: stage_id,
            scope,
            target,
            status: StageStatus::Skipped,
            details: "No expected artifact mapping"@,
        },
        Some(expected) => if bundle_present(stage_id, scope, present) {
            StageResultView { stage: stage_id, scope, target, status: StageStatus::SkippedExisting, details: expected + " present"@ }
        } else if dry_run {
            StageResultView { stage: stage_id, scope, target, status: StageStatus::Planned, details: "Would produce "@ + expected }
        } else {
            StageResultView { stage: stage_id, scope, target, status: StageStatus::PendingExecution, details: "Will produce "@ + expected }
        },
    }
}

fn contains_name(present: &Vec<String>, name: &str) -> (r: bool)
    ensures
        r == present@.map_values(|s: String| s@).contains(name@),
{
    let ghost pv = present@.map_values(|s: String| s@);
    let mut i: usize = 0;
    while i < present.len()
        invariant
            i <= present@.len(),
            pv == present@.map_values(|s: String| s@),
            forall|k: int| 0 <= k < i ==> pv[k] != name@,
        decreases present@.len() - i,
    {
        if str_eq(present[i].as_str(), name) {
            proof {
                assert(pv[i as int] == name@);
            }
            return true;
        }
        i = i + 1;
    }
    false
}

/// Whether every artifact of the bundle is among the files present.
pub fn all_bundle_present(stage_id: u8, scope: StageScope, present: &Vec<String>) -> (r: bool)
    ensures
        r == bundle_present(stage_id, scope, present@.map_values(|s: String| s@)),
{
    let bundle = expected_bundle(stage_id, scope);
    let ghost b = spec_expected_bundle(stage_id, scope);
    let ghost pv = present@.map_values(|s: String| s@);
    let mut i: usize = 0;
    while i < bundle.len()
        invariant
            i <= bundle@.len(),
            b == spec_expected_bundle(stage_id, scope),
            bundle@.map_values(|s: &'static str| s@) == b,
            pv == present@.map_values(|s: String| s@),
            forall|k: int| 0 <= k < i ==> pv.contains(#[trigger] b[k]),
        decreases bundle@.len() - i,
    {
        assert(b[i as int] == bundle@[i as int]@);
        if !contains_name(present, bundle[i]) {
            return false;
        }
        i = i + 1;
    }
    true
}

/// Reports one stage scope on one target, given the artifact files present there.
pub fn plan_single_scope(stage_id: u8, scope: StageScope, target_name: &str, present: &Vec<String>, dry_run: bool) -> (r: StageResult)
    ensures
        r@ == spec_plan_one(stage_id, scope, target_name@, present@.map_values(|s: String| s@), dry_run),
{
    let expected = match expected_stage_artifact(stage_id, scope) {
        Some(e) => e,
        None => {
            return StageResult {
                stage: stage_id,
                scope,
                target: String::from_str(target_name),
                status: StageStatus::Skipped,
                details: String::from_str("No expected artifact mapping"),
            };
        },
    };
    if all_bundle_present(stage_id, scope, present) {
        let mut details = String::from_str(expected);
        details.append(" present");
        return StageResult {
            stage: stage_id,
            scope,
            target: String::from_str(target_name),
            status: StageStatus::SkippedExisting,
            details,
        };
    }
    let status = if dry_run {
        StageStatus::Planned
    } else {
        StageStatus::PendingExecution
    };
    let mut details = if dry_run {
        String::from_str("Would produce ")
    } else {
        String::from_str("Will produce ")
    };
    details.append(expected);
    StageResult { stage: stage_id, scope, target: String::from_str(target_name), status, details }
}

} // verus!

verus! {

/// The label of a target: its name, or `default` when it has none.
pub open spec fn label_of(t: PlanTargetView, default: Seq<char>) -> Seq<char> {
    match t.name {
        Some(n) => n,
        None => default,
    }
}

/// The label of the dataset root: its directory name, or `dataset`.
pub fn dataset_name(root: &PlanTarget) -> (r: String)
    ensures
        r@ == label_of(root@, "dataset"@),
{
    match &root.name {
        Some(n) => n.clone(),
        None => String::from_str("dataset"),
    }
}

fn patch_name(patch: &PlanTarget) -> (r: String)
    ensures
        r@ == label_of(patch@, "unknown"@),
{
    match &patch.name {
        Some(n) => n.clone(),
        None => String::from_str("unknown"),
    }
}

/// The reports of one stage: one per patch for patch stages (and, for stage 5,
/// one more for the merged dataset), or one for the merged dataset.
pub open spec fn spec_stage_block(
    stage_id: u8,
    dry_run: bool,
    root: PlanTargetView,
    patches: Seq<PlanTargetView>,
) -> Seq<StageResultView> {
    let merged = spec_plan_one(stage_id, StageScope::Merged, label_of(root, "dataset"@), root.present, dry_run);
    if stage_scope_of(stage_id) == StageScope::Patch {
        Seq::new(
            patches.len(),
            |j: int| spec_plan_one(stage_id, StageScope::Patch, label_of(patches[j], "unknown"@), patches[j].present, dry_run),
        ) + (if stage_id == 5 {
            seq![spec_plan_one(5, StageScope::Merged, label_of(root, "dataset"@), root.present, dry_run)]
        } else {
            Seq::empty()
        })
    } else {
        seq![merged]
    }
}

/// The reports of the first `count` stages from `lo`, in chain order.
pub open spec fn spec_plan_stages(
    lo: int,
    count: nat,
    dry_run: bool,
    root: PlanTargetView,
    patches: Seq<PlanTargetView>,
) -> Seq<StageResultView>
    decreases count,
{
    if count == 0 {
        Seq::empty()
    } else {
        spec_plan_stages(lo, (count - 1) as nat, dry_run, root, patches) + spec_stage_block(
            (lo + count - 1) as u8,
            dry_run,
            root,
            patches,
        )
    }
}

/// The plan of a run: for each selected stage in order, its reports.
pub open spec fn spec_plan(
    start_step: u8,
    end_step: u8,
    dry_run: bool,
    root: PlanTargetView,
    patches: Seq<PlanTargetView>,
) -> Seq<StageResultView> {
    spec_plan_stages(start_step as int, (end_step - start_step + 1) as nat, dry_run, root, patches)
}

/// Plans a run of stages `start_step..=end_step` over the dataset root and its
/// patches, in stage order and, within a stage, in patch order.
pub fn plan_pipeline(request: &RunRequest, root: &PlanTarget, patches: &Vec<PlanTarget>) -> (r: Result<
    Vec<StageResult>,
    crate::core_error::CoreError,
>)
    ensures
        r is Ok <==> (1 <= request.start_step <= request.end_step <= 8),
        r matches Err(e) ==> e@ == (crate::core_error::CoreErrorView::InvalidStageRange {
            start_step: request.start_step,
            end_step: request.end_step,
        }),
        r matches Ok(v) ==> v@.map_values(|x: StageResult| x@) == spec_plan(
            request.start_step,
            request.end_step,
            request.dry_run,
            root@,
            patches@.map_values(|p: PlanTarget| p@),
        ),
{
    validate_stage_range(request.start_step, request.end_step)?;
    let stages = selected_stages(request.start_step, request.end_step);
    let ghost pv = patches@.map_values(|p: PlanTarget| p@);
    let ghost rv = root@;
    let dry = request.dry_run;
    let mut results: Vec<StageResult> = Vec::new();
    let mut s: usize = 0;
    while s < stages.len()
        invariant
            1 <= request.start_step <= request.end_step <= 8,
            s <= stages@.len(),
            stages@.len() == range_count(request.start_step, request.end_step),
            forall|i: int| 0 <= i < stages@.len() ==> def_matches(#[trigger] stages@[i], (range_lo(request.start_step) + i) as u8),
            pv == patches@.map_values(|p: PlanTarget| p@),
            rv == root@,
            dry == request.dry_run,
            results@.map_values(|x: StageResult| x@) == spec_plan_stages(request.start_step as int, s as nat, dry, rv, pv),
        decreases stages@.len() - s,
    {
        let stage = stages[s];
        assert(def_matches(stages@[s as int], (request.start_step + s) as u8));
        let ghost before = results@.map_values(|x: StageResult| x@);
        let ghost block = spec_stage_block(stage.stage_id, dry, rv, pv);
        match stage.scope {
            StageScope::Patch => {
                let mut j: usize = 0;
                while j < patches.len()
                    invariant
                        j <= patches@.len(),
                        pv == patches@.map_values(|p: PlanTarget| p@),
                        stage_scope_of(stage.stage_id) == StageScope::Patch,
                        block == spec_stage_block(stage.stage_id, dry, rv, pv),
                        results@.map_values(|x: StageResult| x@) == before + block.take(j as int),
                    decreases patches@.len() - j,
                {
                    let label = patch_name(&patches[j]);
                    let one = plan_single_scope(stage.stage_id, StageScope::Patch, label.as_str(), &patches[j].present, dry);
                    let ghost prev = results@.map_values(|x: StageResult| x@);
                    results.push(one);
                    proof {
                        assert(pv[j as int] == patches@[j as int]@);
                        assert(block[j as int] == one@);
                        assert(block.take(j + 1) =~= block.take(j as int).push(one@));
                        assert(results@.map_values(|x: StageResult| x@) =~= prev.push(one@));
                    }
                    j = j + 1;
                }
                if stage.stage_id == 5 {
                    let label = dataset_name(root);
                    let one = plan_single_scope(5, StageScope::Merged, label.as_str(), &root.present, dry);
                    let ghost prev = results@.map_values(|x: StageResult| x@);
                    results.push(one);
                    proof {
                        assert(results@.map_values(|x: StageResult| x@) =~= prev.push(one@));
                        assert(block =~= block.take(patches@.len() as int).push(one@));
                    }
                } else {
                    proof {
                        assert(block =~= block.take(patches@.len() as int));
                    }
                }
            },
            StageScope::Merged => {
                let label = dataset_name(root);
                let one = plan_single_scope(stage.stage_id, StageScope::Merged, label.as_str(), &root.present, dry);
                results.push(one);
                proof {
                    assert(block =~= seq![one@]);
                    assert(results@.map_values(|x: StageResult| x@) =~= before + block);
                }
            },
        }
        proof {
            assert(results@.map_values(|x: StageResult| x@) =~= before + block);
        }
        s = s + 1;
    }
    Ok(results)
}

/// A report that a run of the given kind may give: a dry run only plans, a
/// real run never does, and the execution outcomes come only later.
pub open spec fn status_allowed(status: StageStatus, dry_run: bool) -> bool {
    if dry_run {
        status == StageStatus::Planned || status == StageStatus::Skipped || status == StageStatus::SkippedExisting
    } else {
        status == StageStatus::PendingExecution || status == StageStatus::Skipped || status
            == StageStatus::SkippedExisting
    }
}

proof fn lemma_plan_stages_shape(
    lo: int,
    count: nat,
    dry_run: bool,
    root: PlanTargetView,
    patches: Seq<PlanTargetView>,
)
    requires
        1 <= lo,
        lo + count - 1 <= 8,
    ensures
        forall|i: int|
            0 <= i < spec_plan_stages(lo, count, dry_run, root, patches).len() ==> {
                let r = #[trigger] spec_plan_stages(lo, count, dry_run, root, patches)[i];
                &&& lo <= r.stage < lo + count
                &&& status_allowed(r.status, dry_run)
            },
        forall|i: int, j: int|
            0 <= i <= j < spec_plan_stages(lo, count, dry_run, root, patches).len() ==> (#[trigger] spec_plan_stages(
                lo,
                count,
                dry_run,
                root,
                patches,
            )[i]).stage <= (#[trigger] spec_plan_stages(lo, count, dry_run, root, patches)[j]).stage,
    decreases count,
{
    if count > 0 {
        let prev = spec_plan_stages(lo, (count - 1) as nat, dry_run, root, patches);
        let id = (lo + count - 1) as u8;
        let block = spec_stage_block(id, dry_run, root, patches);
        lemma_plan_stages_shape(lo, (count - 1) as nat, dry_run, root, patches);
        assert forall|k: int| 0 <= k < block.len() implies (#[trigger] block[k]).stage == id && status_allowed(
            block[k].status,
            dry_run,
        ) by {
            if stage_scope_of(id) == StageScope::Patch {
                if k < patches.len() {
                } else {
                    assert(id == 5);
                }
            }
        }
        let all = spec_plan_stages(lo, count, dry_run, root, patches);
        assert(all == prev + block);
        assert forall|i: int| 0 <= i < all.len() implies {
            let r = #[trigger] all[i];
            &&& lo <= r.stage < lo + count
            &&& status_allowed(r.status, dry_run)
        } by {
            if i >= prev.len() {
                assert(all[i] == block[i - prev.len()]);
            } else {
                assert(all[i] == prev[i]);
            }
        }
        assert forall|i: int, j: int| 0 <= i <= j < all.len() implies (#[trigger] all[i]).stage <= (
        #[trigger] all[j]).stage by {
            if j >= prev.len() {
                assert(all[j] == block[j - prev.len()]);
                if i >= prev.len() {
                    assert(all[i] == block[i - prev.len()]);
                } else {
                    assert(all[i] == prev[i]);
                }
            } else {
                assert(all[i] == prev[i]);
                assert(all[j] == prev[j]);
            }
        }
    }
}

/// Every report of a valid run concerns a stage of the requested range, the
/// reports come in stage order, and a dry run only plans while a real run
/// never reports a stage as merely planned.
pub proof fn law_plan_respects_range_and_mode(
    start_step: u8,
    end_step: u8,
    dry_run: bool,
    root: PlanTargetView,
    patches: Seq<PlanTargetView>,
)
    requires
        1 <= start_step <= end_step <= 8,
    ensures
        forall|i: int|
            0 <= i < spec_plan(start_step, end_step, dry_run, root, patches).len() ==> {
                let r = #[trigger] spec_plan(start_step, end_step, dry_run, root, patches)[i];
                &&& start_step <= r.stage <= end_step
                &&& status_allowed(r.status, dry_run)
            },
        forall|i: int, j: int|
            0 <= i <= j < spec_plan(start_step, end_step, dry_run, root, patches).len() ==> (#[trigger] spec_plan(
                start_step,
                end_step,
                dry_run,
                root,
                patches,
            )[i]).stage <= (#[trigger] spec_plan(start_step, end_step, dry_run, root, patches)[j]).stage,
{
    lemma_plan_stages_shape(start_step as int, (end_step - start_step + 1) as nat, dry_run, root, patches);
}

/// The number of reports of a stage: one per patch for a patch stage, one
/// more for stage 5, and one for a merged stage.
pub open spec fn block_size(stage_id: u8, n_patches: nat) -> nat {
    if stage_scope_of(stage_id) == StageScope::Patch {
        n_patches + (if stage_id == 5 { 1nat } else { 0nat })
    } else {
        1
    }
}

/// The number of reports of the stages `lo .. lo + count`.
pub open spec fn plan_size(lo: int, count: nat, n_patches: nat) -> nat
    decreases count,
{
    if count == 0 {
        0
    } else {
        plan_size(lo, (count - 1) as nat, n_patches) + block_size((lo + count - 1) as u8, n_patches)
    }
}

proof fn lemma_plan_stages_len(lo: int, count: nat, dry_run: bool, root: PlanTargetView, patches: Seq<PlanTargetView>)
    ensures
        spec_plan_stages(lo, count, dry_run, root, patches).len() == plan_size(lo, count, patches.len()),
    decreases count,
{
    if count > 0 {
        lemma_plan_stages_len(lo, (count - 1) as nat, dry_run, root, patches);
    }
}

/// A plan has one report per patch for each selected patch stage, one more
/// for the merge of stage 5, and one for each selected merged stage.
pub proof fn law_plan_size(
    start_step: u8,
    end_step: u8,
    dry_run: bool,
    root: PlanTargetView,
    patches: Seq<PlanTargetView>,
)
    requires
        1 <= start_step <= end_step <= 8,
    ensures
        spec_plan(start_step, end_step, dry_run, root, patches).len() == plan_size(
            start_step as int,
            (end_step - start_step + 1) as nat,
            patches.len(),
        ),
{
    lemma_plan_stages_len(start_step as int, (end_step - start_step + 1) as nat, dry_run, root, patches);
}

} // verus!
