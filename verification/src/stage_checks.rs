//! Small decisions of the native stages: which interferograms the weeding
//! uses, which processing modes stage 8 supports, and where input files are
//! looked for.

use vstd::prelude::*;
use crate::core_error::{CoreError, CoreErrorView};
use crate::text::str_eq;

verus! {

/// The interferogram numbers `1..=n` that are not dropped, in order.
pub open spec fn kept_ifgs(n: int, drop: Seq<i64>) -> Seq<i64>
    decreases n,
{
    if n <= 0 {
        Seq::empty()
    } else if drop.contains(n as i64) {
        kept_ifgs(n - 1, drop)
    } else {
        kept_ifgs(n - 1, drop).push(n as i64)
    }
}

/// The interferograms that the weeding uses: `1..=n_ifg` without the ones in
/// `drop_ifg_index`.
pub fn ifg_index_for_weed(n_ifg: i64, drop_ifg_index: &[i64]) -> (r: Vec<i64>)
    requires
        n_ifg < i64::MAX,
    ensures
        r@ == kept_ifgs(n_ifg as int, drop_ifg_index@),
{
    let mut r: Vec<i64> = Vec::new();
    let mut v: i64 = 1;
    while v <= n_ifg
        invariant
            1 <= v,
            n_ifg < i64::MAX,
            (n_ifg >= 1 && v <= n_ifg + 1) || (n_ifg < 1 && v == 1),
            r@ == kept_ifgs(v - 1, drop_ifg_index@),
        decreases n_ifg - v + 1,
    {
        let mut dropped = false;
        let mut k: usize = 0;
        while k < drop_ifg_index.len()
            invariant
                k <= drop_ifg_index@.len(),
                dropped == (exists|j: int| 0 <= j < k && drop_ifg_index@[j] == v),
            decreases drop_ifg_index@.len() - k,
        {
            if drop_ifg_index[k] == v {
                dropped = true;
            }
            k = k + 1;
        }
        assert(dropped == drop_ifg_index@.contains(v));
        if !dropped {
            r.push(v);
        }
        v = v + 1;
    }
    r
}

/// The code of a character with ASCII capitals taken as small letters.
pub open spec fn ascii_lower(c: char) -> u32 {
    if 'A' <= c && c <= 'Z' {
        (c as u32 + 32) as u32
    } else {
        c as u32
    }
}

/// Whether two texts are equal up to the case of ASCII letters.
pub open spec fn eq_ignore_ascii_case(a: Seq<char>, b: Seq<char>) -> bool {
    a.len() == b.len() && forall|k: int| 0 <= k < a.len() ==> ascii_lower(#[trigger] a[k]) == ascii_lower(b[k])
}

fn lower_char(c: char) -> (r: u32)
    ensures
        r == ascii_lower(c),
{
    if 'A' <= c && c <= 'Z' {
        (c as u32) + 32
    } else {
        c as u32
    }
}

/// Compares two texts with ASCII letters taken without case.
pub fn text_eq_ignore_ascii_case(a: &str, b: &str) -> (r: bool)
    ensures
        r == eq_ignore_ascii_case(a@, b@),
{
    let n = a.unicode_len();
    if n != b.unicode_len() {
        return false;
    }
    let mut k: usize = 0;
    while k < n
        invariant
            n == a@.len(),
            n == b@.len(),
            k <= n,
            forall|j: int| 0 <= j < k ==> ascii_lower(#[trigger] a@[j]) == ascii_lower(b@[j]),
        decreases n - k,
    {
        if lower_char(a.get_char(k)) != lower_char(b.get_char(k)) {
            return false;
        }
        k = k + 1;
    }
    true
}

/// What `str::to_uppercase` gives for a text.
pub uninterp spec fn uppercase(s: Seq<char>) -> Seq<char>;

/// Calls `str::to_uppercase`.  Trusted: the result depends on the text
/// alone.  What the Unicode case mapping makes of each character is not
/// stated here.
#[verifier::external_body]
fn to_uppercase(s: &str) -> (r: String)
    ensures
        r@ == uppercase(s@),
{
    s.to_uppercase()
}

/// The unwrapping method that stage 8 runs: the plain and new 3-D methods
/// of a single-master dataset are run as the full 3-D method.
pub open spec fn effective_unwrap(small_baseline: bool, unwrap_upper: Seq<char>) -> Seq<char> {
    if !small_baseline && (unwrap_upper == "3D"@ || unwrap_upper == "3D_NEW"@) {
        "3D_FULL"@
    } else {
        unwrap_upper
    }
}

/// Whether stage 8 supports a combination of processing flags, given the
/// unwrapping method already in capitals.
pub open spec fn spec_stage8_mode_supported(
    small_baseline_flag: Seq<char>,
    unwrap_upper: Seq<char>,
    la_error_flag: Seq<char>,
    spatial_cost_flag: Seq<char>,
) -> bool {
    let small_baseline = eq_ignore_ascii_case(small_baseline_flag, "y"@);
    &&& !small_baseline
    &&& effective_unwrap(small_baseline, unwrap_upper) == "3D_FULL"@
    &&& eq_ignore_ascii_case(la_error_flag, "y"@)
    &&& !eq_ignore_ascii_case(spatial_cost_flag, "y"@)
}

/// Decides whether stage 8 supports a combination of processing flags, given
/// the unwrapping method already in capitals.
pub fn stage8_mode_supported(
    small_baseline_flag: &str,
    unwrap_upper: &str,
    la_error_flag: &str,
    spatial_cost_flag: &str,
) -> (r: bool)
    ensures
        r == spec_stage8_mode_supported(small_baseline_flag@, unwrap_upper@, la_error_flag@, spatial_cost_flag@),
{
    let small_baseline = text_eq_ignore_ascii_case(small_baseline_flag, "y");
    let effective_is_full = if !small_baseline && (str_eq(unwrap_upper, "3D") || str_eq(unwrap_upper, "3D_NEW")) {
        proof { reveal_strlit("3D_FULL"); }
        true
    } else {
        str_eq(unwrap_upper, "3D_FULL")
    };
    let la_flag = text_eq_ignore_ascii_case(la_error_flag, "y");
    let scf_flag = text_eq_ignore_ascii_case(spatial_cost_flag, "y");
    !small_baseline && effective_is_full && la_flag && !scf_flag
}

/// The message for a combination of flags that stage 8 does not support.
pub open spec fn unsupported_stage8_message() -> Seq<char> {
    "Stage 8 native path currently supports only single-master unwrap_method=3D_FULL with unwrap_la_error_flag='y' and unwrap_spatial_cost_func_flag='n'"@
}

/// Checks that stage 8 supports the processing flags of a dataset: a
/// single-master dataset unwrapped with the full 3-D method, with the
/// look-angle error estimated and without the spatial cost function.
pub fn validate_supported_stage8_mode(
    small_baseline_flag: &str,
    unwrap_method: &str,
    unwrap_la_error_flag: &str,
    unwrap_spatial_cost_func_flag: &str,
) -> (r: Result<(), CoreError>)
    ensures
        spec_stage8_mode_supported(
            small_baseline_flag@,
            uppercase(unwrap_method@),
            unwrap_la_error_flag@,
            unwrap_spatial_cost_func_flag@,
        ) ==> r is Ok,
        !spec_stage8_mode_supported(
            small_baseline_flag@,
            uppercase(unwrap_method@),
            unwrap_la_error_flag@,
            unwrap_spatial_cost_func_flag@,
        ) ==> (r matches Err(x) && x@ == (CoreErrorView::NativeStage { stage: 8, message: unsupported_stage8_message() })),
{
    let upper = to_uppercase(unwrap_method);
    if stage8_mode_supported(small_baseline_flag, upper.as_str(), unwrap_la_error_flag, unwrap_spatial_cost_func_flag) {
        Ok(())
    } else {
        Err(CoreError::NativeStage {
            stage: 8,
            message: String::from_str(
                "Stage 8 native path currently supports only single-master unwrap_method=3D_FULL with unwrap_la_error_flag='y' and unwrap_spatial_cost_func_flag='n'",
            ),
        })
    }
}

/// The first candidate path that exists, if any.
pub open spec fn first_existing(candidates: Seq<(Seq<char>, bool)>) -> Option<Seq<char>>
    decreases candidates.len(),
{
    if candidates.len() == 0 {
        None
    } else if candidates[0].1 {
        Some(candidates[0].0)
    } else {
        first_existing(candidates.drop_first())
    }
}

/// The candidates as character sequences with their existence flags.
pub open spec fn candidates_view(c: Seq<(String, bool)>) -> Seq<(Seq<char>, bool)> {
    c.map_values(|p: (String, bool)| (p.0@, p.1))
}

/// Picks the first existing candidate among the places where an input file is
/// looked for: the patch directory, its parent and its grandparent.
pub fn resolve_file_optional(candidates: &Vec<(String, bool)>) -> (r: Option<String>)
    ensures
        match first_existing(candidates_view(candidates@)) {
            Some(p) => r matches Some(x) && x@ == p,
            None => r is None,
        },
{
    let ghost c = candidates_view(candidates@);
    assert(c.subrange(0, c.len() as int) =~= c);
    let mut k: usize = 0;
    while k < candidates.len()
        invariant
            c == candidates_view(candidates@),
            k <= candidates@.len(),
            first_existing(c) == first_existing(c.subrange(k as int, c.len() as int)),
        decreases candidates@.len() - k,
    {
        let ghost rest = c.subrange(k as int, c.len() as int);
        assert(rest.drop_first() =~= c.subrange(k + 1, c.len() as int));
        assert(rest[0] == (candidates@[k as int].0@, candidates@[k as int].1));
        if candidates[k].1 {
            return Some(candidates[k].0.clone());
        }
        k = k + 1;
    }
    None
}

/// The message for an input file found in none of the places looked at.
pub open spec fn not_found_message(filename: Seq<char>, patch_dir: Seq<char>) -> Seq<char> {
    filename + " not found near "@ + patch_dir
}

/// Picks the first existing candidate for a stage 1 input file; an error of
/// stage 1 names the file and the patch directory when none exists.
pub fn resolve_file(filename: &str, patch_dir: &str, candidates: &Vec<(String, bool)>) -> (r: Result<String, CoreError>)
    ensures
        match first_existing(candidates_view(candidates@)) {
            Some(p) => r matches Ok(x) && x@ == p,
            None => r matches Err(x) && x@ == (CoreErrorView::NativeStage {
                stage: 1,
                message: not_found_message(filename@, patch_dir@),
            }),
        },
{
    match resolve_file_optional(candidates) {
        Some(p) => Ok(p),
        None => {
            let mut m = String::from_str(filename);
            m.append(" not found near ");
            m.append(patch_dir);
            Err(CoreError::NativeStage { stage: 1, message: m })
        },
    }
}

/// The message for a required artifact that an earlier stage did not write.
pub open spec fn missing_artifact_message(filename: Seq<char>, label: Seq<char>) -> Seq<char> {
    "Missing required artifact: "@ + filename + " ("@ + label + ") before stage 8"@
}

/// Checks that an artifact that stage 8 needs exists, given whether it does.
pub fn ensure_exists(filename: &str, label: &str, exists: bool) -> (r: Result<(), CoreError>)
    ensures
        exists ==> r is Ok,
        !exists ==> (r matches Err(x) && x@ == (CoreErrorView::NativeStage {
            stage: 8,
            message: missing_artifact_message(filename@, label@),
        })),
{
    if exists {
        Ok(())
    } else {
        let mut m = String::from_str("Missing required artifact: ");
        m.append(filename);
        m.append(" (");
        m.append(label);
        m.append(") before stage 8");
        Err(CoreError::NativeStage { stage: 8, message: m })
    }
}

} // verus!
