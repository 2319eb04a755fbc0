//! The decisions of the stage 5 runner on a patch (promotion of the
//! selected points to version 2): which candidates survive selection and
//! weeding, the checks of their indices, and the step function that the
//! runner's loop drives.

use vstd::prelude::*;
use crate::core_error::{CoreError, CoreErrorView};
use crate::graph::{validate_one_based_indices, bad_one_based, first_bad_one_based, one_based_message};
use crate::stage_checks::{eq_ignore_ascii_case, text_eq_ignore_ascii_case};
use crate::text::{decimal, usize_text};

verus! {

/// Flags read from a file: used when there is one per item, otherwise every
/// item gets the default.
pub open spec fn flags_or_default(raw: Option<Seq<bool>>, len: nat, default: bool) -> Seq<bool> {
    match raw {
        Some(v) => if v.len() == len {
            v
        } else {
            Seq::new(len, |i: int| default)
        },
        None => Seq::new(len, |i: int| default),
    }
}

/// The indices of the first `m` candidates that the selection keeps.
pub open spec fn selected(ix: Seq<i64>, keep: Seq<bool>, m: int) -> Seq<i64>
    decreases m,
{
    if m <= 0 {
        Seq::empty()
    } else if keep[m - 1] {
        selected(ix, keep, m - 1).push(ix[m - 1])
    } else {
        selected(ix, keep, m - 1)
    }
}

/// The weeding mask, when it has one flag per selected candidate.
pub open spec fn weed_mask(raw: Option<Seq<bool>>, n_selected: nat) -> Option<Seq<bool>> {
    match raw {
        Some(v) => if v.len() == n_selected {
            Some(v)
        } else {
            None
        },
        None => None,
    }
}

/// What promotion keeps of the first `m` candidates: the kept indices, their
/// positions among all candidates, their positions among the selected ones,
/// and the number of selected candidates so far.
pub open spec fn promoted(ix: Seq<i64>, keep: Seq<bool>, weed: Option<Seq<bool>>, m: int) -> (
    Seq<i64>,
    Seq<usize>,
    Seq<usize>,
    nat,
)
    decreases m,
{
    if m <= 0 {
        (Seq::empty(), Seq::empty(), Seq::empty(), 0)
    } else {
        let prev = promoted(ix, keep, weed, m - 1);
        if !keep[m - 1] {
            prev
        } else {
            let survives = match weed {
                Some(w) => w[prev.3 as int],
                None => true,
            };
            if survives {
                (prev.0.push(ix[m - 1]), prev.1.push((m - 1) as usize), prev.2.push(prev.3 as usize), prev.3 + 1)
            } else {
                (prev.0, prev.1, prev.2, prev.3 + 1)
            }
        }
    }
}

/// What the promotion reads from `select1.mat` and `weed1.mat`: the selected
/// candidates' 1-based indices, and the raw selection and weeding flags.
pub struct Stage5Selection {
    pub ix: Vec<i64>,
    pub keep_ix: Option<Vec<bool>>,
    pub ix_weed: Option<Vec<bool>>,
}

/// The candidates to promote, as row positions, and where each version-2
/// artifact takes its rows from.
pub struct Promotion {
    /// The 0-based rows (in `ps1`) of the promoted points: row `k` of
    /// `ps2.ij`, `ps2.lonlat`, `ps2.xy`, `ph2.ph`, `bp2.bperp_mat`,
    /// `hgt2.hgt`, `la2.la`, `da2.D_A` and `pm2.ph_patch` is this row of the
    /// version-1 input.
    pub final_ix0: Vec<usize>,
    /// Their positions among all candidates of `select1.mat`: row `k` of
    /// `pm2.K_ps`, `pm2.C_ps`, `pm2.coh_ps` and `pm2.ph_res` is this row of
    /// the `select1.mat` estimates.
    pub kept_select_positions: Vec<usize>,
    /// Their positions among the selected candidates.
    pub kept_ix2_positions: Vec<usize>,
    /// The 0-based rows (in `ps1`) of every selected candidate.
    pub ix2_rows: Vec<usize>,
    /// The value of `psver.mat` once the points are promoted.
    pub psver: u8,
}

/// Where the stage 5 runner stands.
pub enum Stage5State {
    Start,
    ReadingInputs,
    ReadingSelection { n_ps1: usize },
    Writing { n_promoted: usize },
    Done,
}

/// What a piece of outside work gave.
pub enum Stage5Event {
    Begin,
    /// The inputs (`ps1`, `pm1`, `select1`, `weed1`, `ph1`) were read, giving
    /// the rounded point count of `ps1.mat`, or the named file could not be read.
    InputsRead(Result<usize, (String, String)>),
    /// The point matrices and the selection were read, or reading them failed.
    SelectionRead(Result<Stage5Selection, CoreError>),
    /// The version-2 artifacts were written, or that failed.
    Written(Result<(), CoreError>),
}

/// The next piece of outside work, or the end of the run.
pub enum Stage5Action {
    ReadInputs,
    ReadSelection { n_ps1: usize },
    Promote(Promotion),
    Finish(Result<String, CoreError>),
}

/// Whether an event answers the work that the state asked for.
pub open spec fn stage5_event_fits(state: Stage5State, event: Stage5Event) -> bool {
    match state {
        Stage5State::Start => event is Begin,
        Stage5State::ReadingInputs => event is InputsRead,
        Stage5State::ReadingSelection { .. } => event is SelectionRead,
        Stage5State::Writing { .. } => event is Written,
        Stage5State::Done => false,
    }
}

/// An error of stage 5 with the given message.
pub open spec fn stage5_error(message: Seq<char>) -> CoreErrorView {
    CoreErrorView::NativeStage { stage: 5, message }
}

/// The 0-based rows of 1-based indices.
pub open spec fn rows_of(v: Seq<i64>) -> Seq<usize> {
    v.map_values(|x: i64| (x - 1) as usize)
}

fn fail5(message: String) -> (r: (Stage5State, Stage5Action))
    ensures
        r.0 is Done,
        r.1 matches Stage5Action::Finish(Err(x)) && x@ == stage5_error(message@),
{
    (Stage5State::Done, Stage5Action::Finish(Err(CoreError::NativeStage { stage: 5, message })))
}

/// The 0-based rows of 1-based indices.
pub(crate) fn rows(v: &Vec<i64>) -> (r: Vec<usize>)
    requires
        forall|k: int| 0 <= k < v@.len() ==> #[trigger] v@[k] >= 1,
    ensures
        r@ == rows_of(v@),
{
    let mut r: Vec<usize> = Vec::new();
    let mut k: usize = 0;
    while k < v.len()
        invariant
            k <= v@.len(),
            forall|j: int| 0 <= j < v@.len() ==> #[trigger] v@[j] >= 1,
            r@ == rows_of(v@.take(k as int)),
        decreases v@.len() - k,
    {
        r.push((v[k] - 1) as usize);
        proof {
            assert(v@.take(k + 1) =~= v@.take(k as int).push(v@[k as int]));
            assert(rows_of(v@.take(k + 1)) =~= rows_of(v@.take(k as int)).push((v@[k as int] - 1) as usize));
        }
        k = k + 1;
    }
    proof {
        assert(v@.take(v@.len() as int) =~= v@);
    }
    r
}

/// The flags read from a file, or the default for every item when there is
/// not one per item.
pub(crate) fn flags_of(raw: &Option<Vec<bool>>, len: usize, default: bool) -> (r: Vec<bool>)
    ensures
        r@ == flags_or_default(
            match raw {
                Some(v) => Some(v@),
                None => None,
            },
            len as nat,
            default,
        ),
{
    if let Some(v) = raw {
        if v.len() == len {
            return v.clone();
        }
    }
    let mut r: Vec<bool> = Vec::new();
    let mut k: usize = 0;
    while k < len
        invariant
            k <= len,
            r@.len() == k,
            forall|i: int| 0 <= i < k ==> #[trigger] r@[i] == default,
        decreases len - k,
    {
        r.push(default);
        k = k + 1;
    }
    proof {
        assert(r@ =~= Seq::new(len as nat, |i: int| default));
    }
    r
}

/// The indices of the candidates that the selection keeps.
pub(crate) fn select_kept(ix: &Vec<i64>, keep_ix: &Vec<bool>) -> (r: Vec<i64>)
    requires
        keep_ix@.len() == ix@.len(),
    ensures
        r@ == selected(ix@, keep_ix@, ix@.len() as int),
{
    let n = ix.len();
    let mut ix2: Vec<i64> = Vec::new();
    let mut k: usize = 0;
    while k < n
        invariant
            k <= n,
            n == ix@.len(),
            keep_ix@.len() == n,
            ix2@ == selected(ix@, keep_ix@, k as int),
        decreases n - k,
    {
        if keep_ix[k] {
            ix2.push(ix[k]);
        }
        k = k + 1;
    }
    ix2
}

/// Selects the candidates to promote: those that the selection keeps (all,
/// when its flags do not match the candidates) and, when the weeding mask has
/// one flag per selected candidate, that the weeding keeps.
pub fn promote_selection(ix: &Vec<i64>, keep_ix: &Vec<bool>, ix_weed: &Option<Vec<bool>>) -> (r: (
    Vec<i64>,
    Vec<i64>,
    Vec<usize>,
    Vec<usize>,
))
    requires
        keep_ix@.len() == ix@.len(),
    ensures
        r.0@ == selected(ix@, keep_ix@, ix@.len() as int),
        ({
            let weed = weed_mask(
                match ix_weed {
                    Some(v) => Some(v@),
                    None => None,
                },
                r.0@.len(),
            );
            let p = promoted(ix@, keep_ix@, weed, ix@.len() as int);
            r.1@ == p.0 && r.2@ == p.1 && r.3@ == p.2
        }),
{
    let n = ix.len();
    let ix2 = select_kept(ix, keep_ix);
    let n2 = ix2.len();
    let weed: Option<&Vec<bool>> = match ix_weed {
        Some(v) => if v.len() == n2 {
            Some(v)
        } else {
            None
        },
        None => None,
    };
    let ghost weed_spec = weed_mask(
        match ix_weed {
            Some(v) => Some(v@),
            None => None,
        },
        n2 as nat,
    );
    let mut final_ix1: Vec<i64> = Vec::new();
    let mut kept_select: Vec<usize> = Vec::new();
    let mut kept_ix2: Vec<usize> = Vec::new();
    let mut ix2_pos: usize = 0;
    let mut m: usize = 0;
    proof {
        lemma_promoted_count(ix@, keep_ix@, weed_spec, n as int);
    }
    while m < n
        invariant
            m <= n,
            n == ix@.len(),
            keep_ix@.len() == n,
            n2 == selected(ix@, keep_ix@, n as int).len(),
            weed_spec == weed_mask(
                match ix_weed {
                    Some(v) => Some(v@),
                    None => None,
                },
                n2 as nat,
            ),
            match weed {
                Some(w) => weed_spec == Some(w@),
                None => weed_spec is None,
            },
            promoted(ix@, keep_ix@, weed_spec, n as int).3 == n2,
            ({
                let p = promoted(ix@, keep_ix@, weed_spec, m as int);
                final_ix1@ == p.0 && kept_select@ == p.1 && kept_ix2@ == p.2 && ix2_pos == p.3
            }),
            ix2_pos <= m,
        decreases n - m,
    {
        proof {
            lemma_promoted_monotone(ix@, keep_ix@, weed_spec, m as int, n as int);
        }
        if keep_ix[m] {
            let survives = match weed {
                Some(w) => w[ix2_pos],
                None => true,
            };
            if survives {
                final_ix1.push(ix[m]);
                kept_select.push(m);
                kept_ix2.push(ix2_pos);
            }
            ix2_pos = ix2_pos + 1;
        }
        m = m + 1;
    }
    (ix2, final_ix1, kept_select, kept_ix2)
}

proof fn lemma_promoted_count(ix: Seq<i64>, keep: Seq<bool>, weed: Option<Seq<bool>>, m: int)
    requires
        0 <= m <= ix.len(),
        keep.len() == ix.len(),
    ensures
        promoted(ix, keep, weed, m).3 == selected(ix, keep, m).len(),
        promoted(ix, keep, weed, m).3 <= m,
    decreases m,
{
    if m > 0 {
        lemma_promoted_count(ix, keep, weed, m - 1);
    }
}

proof fn lemma_promoted_monotone(ix: Seq<i64>, keep: Seq<bool>, weed: Option<Seq<bool>>, m: int, n: int)
    requires
        0 <= m < n <= ix.len(),
        keep.len() == ix.len(),
    ensures
        keep[m] ==> promoted(ix, keep, weed, m).3 < promoted(ix, keep, weed, n).3,
    decreases n - m,
{
    lemma_promoted_count(ix, keep, weed, m);
    if m + 1 < n {
        lemma_promoted_monotone(ix, keep, weed, m, n - 1);
        lemma_promoted_count(ix, keep, weed, n - 1);
        lemma_promoted_count(ix, keep, weed, n);
    } else {
        lemma_promoted_count(ix, keep, weed, n);
    }
}

proof fn lemma_promoted_from(ix: Seq<i64>, keep: Seq<bool>, weed: Option<Seq<bool>>, m: int)
    requires
        0 <= m <= ix.len() <= usize::MAX,
        keep.len() == ix.len(),
    ensures
        ({
            let p = promoted(ix, keep, weed, m);
            let ix2 = selected(ix, keep, m);
            &&& p.1.len() == p.0.len()
            &&& p.2.len() == p.0.len()
            &&& p.3 == ix2.len()
            &&& forall|t: int|
                0 <= t < p.0.len() ==> #[trigger] p.1[t] < m && ix[p.1[t] as int] == p.0[t] && keep[p.1[t] as int]
                    && p.2[t] < ix2.len() && ix2[p.2[t] as int] == p.0[t]
        }),
    decreases m,
{
    lemma_promoted_count(ix, keep, weed, m);
    if m > 0 {
        lemma_promoted_from(ix, keep, weed, m - 1);
        lemma_promoted_count(ix, keep, weed, m - 1);
        let prev = promoted(ix, keep, weed, m - 1);
        let p = promoted(ix, keep, weed, m);
        let prev2 = selected(ix, keep, m - 1);
        let ix2 = selected(ix, keep, m);
        assert forall|t: int| 0 <= t < p.0.len() implies #[trigger] p.1[t] < m && ix[p.1[t] as int] == p.0[t]
            && keep[p.1[t] as int] && p.2[t] < ix2.len() && ix2[p.2[t] as int] == p.0[t] by {
            if t < prev.0.len() {
                assert(p.0[t] == prev.0[t] && p.1[t] == prev.1[t] && p.2[t] == prev.2[t]);
                if keep[m - 1] {
                    assert(ix2[prev.2[t] as int] == prev2[prev.2[t] as int]);
                }
            }
        }
    }
}

/// In rows: the row of each promoted point is the row, among the selected
/// candidates, at its recorded position.
proof fn lemma_promoted_rows(ix: Seq<i64>, keep: Seq<bool>, weed: Option<Seq<bool>>)
    requires
        ix.len() <= usize::MAX,
        keep.len() == ix.len(),
    ensures
        ({
            let p = promoted(ix, keep, weed, ix.len() as int);
            let ix2 = selected(ix, keep, ix.len() as int);
            forall|k: int|
                0 <= k < rows_of(p.0).len() ==> #[trigger] p.1[k] < ix.len() && p.2[k] < rows_of(ix2).len()
                    && rows_of(ix2)[p.2[k] as int] == rows_of(p.0)[k]
        }),
{
    lemma_promoted_from(ix, keep, weed, ix.len() as int);
}

/// Promotion carries each promoted point's index over from the candidates:
/// the `t`-th promoted index is the candidate's index at its recorded
/// position among all candidates (which the selection kept) and at its
/// recorded position among the selected candidates.
pub proof fn law_promoted_points_keep_their_indices(ix: Seq<i64>, keep: Seq<bool>, weed: Option<Seq<bool>>, t: int)
    requires
        keep.len() == ix.len(),
        ix.len() <= usize::MAX,
        0 <= t < promoted(ix, keep, weed, ix.len() as int).0.len(),
    ensures
        ({
            let p = promoted(ix, keep, weed, ix.len() as int);
            let ix2 = selected(ix, keep, ix.len() as int);
            &&& p.1[t] < ix.len() && ix[p.1[t] as int] == p.0[t] && keep[p.1[t] as int]
            &&& p.2[t] < ix2.len() && ix2[p.2[t] as int] == p.0[t]
        }),
{
    lemma_promoted_from(ix, keep, weed, ix.len() as int);
}

/// The first problem with the selection, if any: no candidates, or a
/// selected or promoted index outside the points of `ps1.mat`.
pub open spec fn selection_problem(sel: Stage5Selection, n_ps1: usize) -> Option<Seq<char>> {
    let keep = flags_or_default(
        match sel.keep_ix {
            Some(v) => Some(v@),
            None => None,
        },
        sel.ix@.len(),
        true,
    );
    let ix2 = selected(sel.ix@, keep, sel.ix@.len() as int);
    let weed = weed_mask(
        match sel.ix_weed {
            Some(v) => Some(v@),
            None => None,
        },
        ix2.len(),
    );
    let promoted_ix = promoted(sel.ix@, keep, weed, sel.ix@.len() as int).0;
    let bad2 = first_bad_index(ix2, n_ps1);
    let bad_final = first_bad_index(promoted_ix, n_ps1);
    if sel.ix@.len() == 0 {
        Some("select1.mat has empty ix"@)
    } else if bad2 >= 0 {
        Some(one_based_message("select1.ix after keep_ix for weed1.mat"@, ix2[bad2], bad2, n_ps1))
    } else if bad_final >= 0 {
        Some(one_based_message("weed1.mat promoted PS indices"@, promoted_ix[bad_final], bad_final, n_ps1))
    } else {
        None
    }
}

/// The position of the first index outside `1..=n`, or -1.
pub open spec fn first_bad_index(values: Seq<i64>, n: usize) -> int
    decreases values.len(),
{
    if values.len() == 0 {
        -1
    } else {
        let k = first_bad_index(values.drop_last(), n);
        if k >= 0 {
            k
        } else if bad_one_based(values.last(), n) {
            values.len() - 1
        } else {
            -1
        }
    }
}

pub(crate) proof fn lemma_first_bad_index(values: Seq<i64>, n: usize)
    ensures
        -1 <= first_bad_index(values, n) < values.len(),
        first_bad_index(values, n) >= 0 ==> first_bad_one_based(values, n, first_bad_index(values, n)),
        first_bad_index(values, n) < 0 ==> forall|j: int| 0 <= j < values.len() ==> !bad_one_based(#[trigger] values[j], n),
    decreases values.len(),
{
    if values.len() > 0 {
        let rest = values.drop_last();
        lemma_first_bad_index(rest, n);
        assert forall|j: int| 0 <= j < rest.len() implies rest[j] == values[j] by {}
        if first_bad_index(rest, n) < 0 {
            assert forall|j: int| 0 <= j < values.len() - 1 implies !bad_one_based(#[trigger] values[j], n) by {
                assert(rest[j] == values[j]);
            }
        }
    }
}

pub(crate) proof fn lemma_first_bad_unique(values: Seq<i64>, n: usize, i: int, j: int)
    requires
        first_bad_one_based(values, n, i),
        first_bad_one_based(values, n, j),
    ensures
        i == j,
{
    if i < j {
        assert(!bad_one_based(values[i], n));
    } else if j < i {
        assert(!bad_one_based(values[j], n));
    }
}

/// Takes one step of the stage 5 runner on a patch: from where it stands and
/// what the last piece of outside work gave, to where it stands next and
/// what to do next.  The checks come in the order of the runner: the input
/// files, the point count, the point matrices and the selection, and the
/// indices of the selected and of the promoted points.
pub fn run_stage5_patch_native(state: Stage5State, event: Stage5Event) -> (r: (Stage5State, Stage5Action))
    requires
        stage5_event_fits(state, event),
    ensures
        match state {
            Stage5State::Start => r.0 is ReadingInputs && r.1 is ReadInputs,
            Stage5State::ReadingInputs => match event {
                Stage5Event::InputsRead(Err(e)) => r.0 is Done && (r.1 matches Stage5Action::Finish(Err(x)) && x@
                    == stage5_error("unable to read "@ + e.0@ + ": "@ + e.1@)),
                Stage5Event::InputsRead(Ok(n)) => if n == 0 {
                    r.0 is Done && (r.1 matches Stage5Action::Finish(Err(x)) && x@ == stage5_error(
                        "ps1.mat missing valid n_ps"@,
                    ))
                } else {
                    (r.0 == Stage5State::ReadingSelection { n_ps1: n }) && (r.1 matches Stage5Action::ReadSelection { n_ps1 }
                        && n_ps1 == n)
                },
                _ => false,
            },
            Stage5State::ReadingSelection { n_ps1 } => match event {
                Stage5Event::SelectionRead(Err(e)) => r.0 is Done && (r.1 matches Stage5Action::Finish(Err(x)) && x@
                    == e@),
                Stage5Event::SelectionRead(Ok(sel)) => match selection_problem(sel, n_ps1) {
                    Some(m) => r.0 is Done && (r.1 matches Stage5Action::Finish(Err(x)) && x@ == stage5_error(m)),
                    None => {
                        let keep = flags_or_default(
                            match sel.keep_ix {
                                Some(v) => Some(v@),
                                None => None,
                            },
                            sel.ix@.len(),
                            true,
                        );
                        let ix2 = selected(sel.ix@, keep, sel.ix@.len() as int);
                        let weed = weed_mask(
                            match sel.ix_weed {
                                Some(v) => Some(v@),
                                None => None,
                            },
                            ix2.len(),
                        );
                        let p = promoted(sel.ix@, keep, weed, sel.ix@.len() as int);
                        (r.0 == Stage5State::Writing { n_promoted: p.0.len() as usize }) && (r.1 matches Stage5Action::Promote(
                            pr,
                        ) && pr.final_ix0@ == rows_of(p.0) && pr.kept_select_positions@ == p.1
                            && pr.kept_ix2_positions@ == p.2 && pr.ix2_rows@ == rows_of(ix2) && pr.psver == 2
                            && forall|k: int|
                            0 <= k < pr.final_ix0@.len() ==> #[trigger] pr.kept_select_positions@[k] < sel.ix@.len()
                                && pr.kept_ix2_positions@[k] < pr.ix2_rows@.len() && pr.ix2_rows@[pr.kept_ix2_positions@[k] as int]
                                == pr.final_ix0@[k])
                    },
                },
                _ => false,
            },
            Stage5State::Writing { n_promoted } => match event {
                Stage5Event::Written(Err(e)) => r.0 is Done && (r.1 matches Stage5Action::Finish(Err(x)) && x@ == e@),
                Stage5Event::Written(Ok(())) => r.0 is Done && (r.1 matches Stage5Action::Finish(Ok(m)) && m@
                    == "Stage 5 promoted "@ + decimal(n_promoted as nat) + " PS to version 2"@),
                _ => false,
            },
            Stage5State::Done => false,
        },
{
    match state {
        Stage5State::Start => (Stage5State::ReadingInputs, Stage5Action::ReadInputs),
        Stage5State::ReadingInputs => match event {
            Stage5Event::InputsRead(Err((file, err))) => {
                let mut m = String::from_str("unable to read ");
                m.append(file.as_str());
                m.append(": ");
                m.append(err.as_str());
                fail5(m)
            },
            Stage5Event::InputsRead(Ok(n)) => {
                if n == 0 {
                    fail5(String::from_str("ps1.mat missing valid n_ps"))
                } else {
                    (Stage5State::ReadingSelection { n_ps1: n }, Stage5Action::ReadSelection { n_ps1: n })
                }
            },
            _ => (Stage5State::Done, Stage5Action::ReadInputs),
        },
        Stage5State::ReadingSelection { n_ps1 } => match event {
            Stage5Event::SelectionRead(Err(e)) => (Stage5State::Done, Stage5Action::Finish(Err(e))),
            Stage5Event::SelectionRead(Ok(sel)) => {
                let ghost sv = sel;
                if sel.ix.len() == 0 {
                    return fail5(String::from_str("select1.mat has empty ix"));
                }
                let keep = flags_of(&sel.keep_ix, sel.ix.len(), true);
                let (ix2, final_ix1, kept_select_positions, kept_ix2_positions) = promote_selection(
                    &sel.ix,
                    &keep,
                    &sel.ix_weed,
                );
                proof {
                    reveal_strlit("select1.ix after keep_ix for weed1.mat");
                    reveal_strlit("weed1.mat promoted PS indices");
                }
                match validate_one_based_indices(ix2.as_slice(), n_ps1, "select1.ix after keep_ix for weed1.mat", 5) {
                    Err(e) => {
                        proof {
                            let i = choose|i: int| first_bad_one_based(ix2@, n_ps1, i) && e@ == (CoreErrorView::NativeStage {
                                stage: 5,
                                message: one_based_message("select1.ix after keep_ix for weed1.mat"@, ix2@[i], i, n_ps1),
                            });
                            lemma_first_bad_index(ix2@, n_ps1);
                            if first_bad_index(ix2@, n_ps1) < 0 {
                                assert(!bad_one_based(ix2@[i], n_ps1));
                            }
                            lemma_first_bad_unique(ix2@, n_ps1, i, first_bad_index(ix2@, n_ps1));
                        }
                        return (Stage5State::Done, Stage5Action::Finish(Err(e)));
                    },
                    Ok(()) => {},
                }
                match validate_one_based_indices(final_ix1.as_slice(), n_ps1, "weed1.mat promoted PS indices", 5) {
                    Err(e) => {
                        proof {
                            lemma_first_bad_index(ix2@, n_ps1);
                            if first_bad_index(ix2@, n_ps1) >= 0 {
                                let k = first_bad_index(ix2@, n_ps1);
                                assert(bad_one_based(ix2@[k], n_ps1));
                            }
                            let i = choose|i: int| first_bad_one_based(final_ix1@, n_ps1, i) && e@ == (CoreErrorView::NativeStage {
                                stage: 5,
                                message: one_based_message("weed1.mat promoted PS indices"@, final_ix1@[i], i, n_ps1),
                            });
                            lemma_first_bad_index(final_ix1@, n_ps1);
                            if first_bad_index(final_ix1@, n_ps1) < 0 {
                                assert(!bad_one_based(final_ix1@[i], n_ps1));
                            }
                            lemma_first_bad_unique(final_ix1@, n_ps1, i, first_bad_index(final_ix1@, n_ps1));
                        }
                        return (Stage5State::Done, Stage5Action::Finish(Err(e)));
                    },
                    Ok(()) => {},
                }
                proof {
                    lemma_first_bad_index(ix2@, n_ps1);
                    lemma_first_bad_index(final_ix1@, n_ps1);
                    if first_bad_index(ix2@, n_ps1) >= 0 {
                        let k = first_bad_index(ix2@, n_ps1);
                        assert(bad_one_based(ix2@[k], n_ps1));
                    }
                    if first_bad_index(final_ix1@, n_ps1) >= 0 {
                        let k = first_bad_index(final_ix1@, n_ps1);
                        assert(bad_one_based(final_ix1@[k], n_ps1));
                    }
                }
                let final_ix0 = rows(&final_ix1);
                let ix2_rows = rows(&ix2);
                let n_promoted = final_ix0.len();
                let n_candidates = sel.ix.len();
                proof {
                    lemma_promoted_rows(sv.ix@, keep@, weed_mask(
                        match sv.ix_weed {
                            Some(v) => Some(v@),
                            None => None,
                        },
                        ix2@.len(),
                    ));
                }
                (
                    Stage5State::Writing { n_promoted },
                    Stage5Action::Promote(Promotion { final_ix0, kept_select_positions, kept_ix2_positions, ix2_rows, psver: 2 }),
                )
            },
            _ => (Stage5State::Done, Stage5Action::ReadInputs),
        },
        Stage5State::Writing { n_promoted } => match event {
            Stage5Event::Written(Err(e)) => (Stage5State::Done, Stage5Action::Finish(Err(e))),
            Stage5Event::Written(Ok(())) => {
                let mut m = String::from_str("Stage 5 promoted ");
                m.append(usize_text(n_promoted).as_str());
                m.append(" PS to version 2");
                (Stage5State::Done, Stage5Action::Finish(Ok(m)))
            },
            _ => (Stage5State::Done, Stage5Action::ReadInputs),
        },
        Stage5State::Done => (Stage5State::Done, Stage5Action::ReadInputs),
    }
}

/// How `rc2.mat` is made from the promoted points.
pub struct Rc2Layout {
    /// Whether `rc2.mat` also holds the re-referenced phase `ph_reref`: only
    /// in single-master mode.
    pub reref: bool,
    /// For each column of `ph2.ph`: the column of `bp2.bperp_mat` (and, in
    /// single-master mode, of `pm2.ph_patch`) that goes with it, or `None`
    /// for the master's column, whose baseline is 0 and whose re-referenced
    /// phase is (1, 0).
    pub columns: Vec<Option<usize>>,
}

/// The column of `bp2.bperp_mat` that goes with column `col` of `ph2.ph`.
pub open spec fn rc2_column(small_baseline: bool, master_ix: usize, col: int) -> Option<usize> {
    if small_baseline {
        Some(col as usize)
    } else if col + 1 == master_ix {
        None
    } else if col + 1 < master_ix {
        Some(col as usize)
    } else {
        Some((col - 1) as usize)
    }
}

/// How `rc2.mat` is made, or the message of the shape that does not fit:
/// `rows` promoted points, `cols` columns of `ph2.ph`, `n_k` and `n_c`
/// promoted K and C values, `bp_cols` columns of `bp2.bperp_mat`,
/// `n_ph_patch` values of `pm2.ph_patch`, and the 1-based master column.
pub open spec fn spec_rc2_layout(
    small_baseline_flag: Seq<char>,
    rows: usize,
    cols: usize,
    n_k: usize,
    n_c: usize,
    bp_cols: usize,
    n_ph_patch: usize,
    master_ix: usize,
) -> Result<(bool, Seq<Option<usize>>), Seq<char>> {
    let small = eq_ignore_ascii_case(small_baseline_flag, "y"@);
    if n_k != rows || n_c != rows {
        Err(
            "select1 K/C vectors have incompatible lengths K="@ + decimal(n_k as nat) + " C="@ + decimal(n_c as nat)
                + " for promoted n_ps="@ + decimal(rows as nat),
        )
    } else if small && bp_cols != cols {
        Err("bp2.bperp_mat has "@ + decimal(bp_cols as nat) + " columns but small-baseline ph2 has "@ + decimal(cols as nat))
    } else if !small && (master_ix == 0 || master_ix > cols) {
        Err("ps2.master_ix must be 1-based within ph2 columns; got "@ + decimal(master_ix as nat))
    } else if !small && bp_cols + 1 != cols {
        Err("bp2.bperp_mat has "@ + decimal(bp_cols as nat) + " columns but single-master ph2 has "@ + decimal(cols as nat))
    } else if !small && n_ph_patch != rows * bp_cols {
        Err("pm2.ph_patch has "@ + decimal(n_ph_patch as nat) + " values for "@ + decimal(rows as nat) + "x"@ + decimal(
            bp_cols as nat,
        ))
    } else {
        Ok((!small, Seq::new(cols as nat, |c: int| rc2_column(small, master_ix, c))))
    }
}

/// Decides how `rc2.mat` is made from the promoted points, as an error of
/// stage 5 when the shapes do not fit.
pub fn rc2_layout(
    small_baseline_flag: &str,
    rows: usize,
    cols: usize,
    n_k: usize,
    n_c: usize,
    bp_cols: usize,
    n_ph_patch: usize,
    master_ix: usize,
) -> (r: Result<Rc2Layout, CoreError>)
    ensures
        match spec_rc2_layout(small_baseline_flag@, rows, cols, n_k, n_c, bp_cols, n_ph_patch, master_ix) {
            Ok(l) => r matches Ok(x) && x.reref == l.0 && x.columns@ == l.1,
            Err(m) => r matches Err(e) && e@ == stage5_error(m),
        },
{
    let small = text_eq_ignore_ascii_case(small_baseline_flag, "y");
    if n_k != rows || n_c != rows {
        let mut m = String::from_str("select1 K/C vectors have incompatible lengths K=");
        m.append(usize_text(n_k).as_str());
        m.append(" C=");
        m.append(usize_text(n_c).as_str());
        m.append(" for promoted n_ps=");
        m.append(usize_text(rows).as_str());
        return Err(CoreError::NativeStage { stage: 5, message: m });
    }
    if small && bp_cols != cols {
        let mut m = String::from_str("bp2.bperp_mat has ");
        m.append(usize_text(bp_cols).as_str());
        m.append(" columns but small-baseline ph2 has ");
        m.append(usize_text(cols).as_str());
        return Err(CoreError::NativeStage { stage: 5, message: m });
    }
    if !small && (master_ix == 0 || master_ix > cols) {
        let mut m = String::from_str("ps2.master_ix must be 1-based within ph2 columns; got ");
        m.append(usize_text(master_ix).as_str());
        return Err(CoreError::NativeStage { stage: 5, message: m });
    }
    if !small && (bp_cols >= cols || bp_cols + 1 != cols) {
        let mut m = String::from_str("bp2.bperp_mat has ");
        m.append(usize_text(bp_cols).as_str());
        m.append(" columns but single-master ph2 has ");
        m.append(usize_text(cols).as_str());
        return Err(CoreError::NativeStage { stage: 5, message: m });
    }
    if !small {
        let fits = match rows.checked_mul(bp_cols) {
            Some(p) => p == n_ph_patch,
            None => false,
        };
        if !fits {
            let mut m = String::from_str("pm2.ph_patch has ");
            m.append(usize_text(n_ph_patch).as_str());
            m.append(" values for ");
            m.append(usize_text(rows).as_str());
            m.append("x");
            m.append(usize_text(bp_cols).as_str());
            return Err(CoreError::NativeStage { stage: 5, message: m });
        }
    }
    let mut columns: Vec<Option<usize>> = Vec::new();
    let mut c: usize = 0;
    while c < cols
        invariant
            c <= cols,
            small || master_ix >= 1,
            columns@.len() == c,
            forall|j: int| 0 <= j < c ==> #[trigger] columns@[j] == rc2_column(small, master_ix, j),
        decreases cols - c,
    {
        let col = if small {
            Some(c)
        } else if c + 1 == master_ix {
            None
        } else if c + 1 < master_ix {
            Some(c)
        } else {
            Some(c - 1)
        };
        columns.push(col);
        c = c + 1;
    }
    assert(columns@ =~= Seq::new(cols as nat, |j: int| rc2_column(small, master_ix, j)));
    Ok(Rc2Layout { reref: !small, columns })
}

} // verus!
