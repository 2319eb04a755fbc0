use pystamps::weed::{adjacent_component_keep_mask, coherence_key, remove_duplicate_xy};
use std::collections::BTreeMap;

fn keys(coh: &[f64]) -> Vec<i64> {
    coh.iter().map(|c| coherence_key(c.to_bits())).collect()
}

/// A direct grid-based rendering of the weeding rule, used as an oracle.
fn grid_weeding(ij: &[(i64, i64)], coh: &[f64]) -> Vec<bool> {
    let n_ps = ij.len();
    if n_ps == 0 {
        return Vec::new();
    }
    let min_r = ij.iter().map(|&(r, _)| r).min().unwrap();
    let min_c = ij.iter().map(|&(_, c)| c).min().unwrap();
    let shifted: Vec<(usize, usize)> =
        ij.iter().map(|&(r, c)| ((r + 2 - min_r) as usize, (c + 2 - min_c) as usize)).collect();
    let n_r = shifted.iter().map(|&(r, _)| r).max().unwrap() + 2;
    let n_c = shifted.iter().map(|&(_, c)| c).max().unwrap() + 2;
    let mut neigh_ix = vec![0usize; n_r * n_c];
    for (i, &(r, c)) in shifted.iter().enumerate() {
        for rr in r - 1..=r + 1 {
            for cc in c - 1..=c + 1 {
                if rr == r && cc == c {
                    continue;
                }
                if neigh_ix[rr * n_c + cc] == 0 {
                    neigh_ix[rr * n_c + cc] = i + 1;
                }
            }
        }
    }
    let mut neigh_ps = vec![Vec::<usize>::new(); n_ps + 1];
    for (i, &(r, c)) in shifted.iter().enumerate() {
        let owner = neigh_ix[r * n_c + c];
        if owner != 0 {
            neigh_ps[owner].push(i + 1);
        }
    }
    let mut keep = vec![true; n_ps];
    for i in 1..=n_ps {
        if neigh_ps[i].is_empty() {
            continue;
        }
        let mut same = vec![i];
        let mut i2 = 0;
        while i2 < same.len() {
            let p = same[i2];
            if !neigh_ps[p].is_empty() {
                let more = std::mem::take(&mut neigh_ps[p]);
                same.extend(more);
            }
            i2 += 1;
        }
        same.sort_unstable();
        same.dedup();
        let best = same.iter().copied().max_by(|&a, &b| coh[a - 1].total_cmp(&coh[b - 1])).unwrap();
        for s in same {
            if s != best {
                keep[s - 1] = false;
            }
        }
    }
    keep
}

#[test]
fn isolated_pixels_are_all_kept() {
    let ij = vec![(0, 0), (10, 10), (0, 5)];
    let coh = [0.1, 0.2, 0.3];
    assert_eq!(adjacent_component_keep_mask(&ij, &keys(&coh)), vec![true, true, true]);
}

#[test]
fn adjacent_pixels_keep_the_most_coherent() {
    let ij = vec![(5, 5), (5, 6), (6, 7), (20, 20)];
    let coh = [0.4, 0.9, 0.5, 0.1];
    assert_eq!(adjacent_component_keep_mask(&ij, &keys(&coh)), vec![false, true, false, true]);
}

#[test]
fn ties_keep_the_later_pixel() {
    let ij = vec![(1, 1), (2, 2)];
    let coh = [0.5, 0.5];
    assert_eq!(adjacent_component_keep_mask(&ij, &keys(&coh)), vec![false, true]);
}

#[test]
fn empty_input_gives_empty_mask() {
    assert_eq!(adjacent_component_keep_mask(&vec![], &vec![]), Vec::<bool>::new());
}

#[test]
fn coherence_keys_order_like_total_cmp() {
    let values = [-f64::INFINITY, -2.5, -0.0, 0.0, 1e-300, 0.5, 3.0, f64::INFINITY];
    for a in values {
        for b in values {
            assert_eq!(coherence_key(a.to_bits()).cmp(&coherence_key(b.to_bits())), a.total_cmp(&b));
        }
    }
}

#[test]
fn weeding_agrees_with_a_grid_rendering_on_many_layouts() {
    let mut state: u64 = 0x2545_f491_4f6c_dd1d;
    let mut next = || {
        state ^= state << 13;
        state ^= state >> 7;
        state ^= state << 17;
        state
    };
    for round in 0..400 {
        let n = (next() % 14) as usize;
        let span = 2 + (round % 5) as u64;
        let ij: Vec<(i64, i64)> =
            (0..n).map(|_| ((next() % span) as i64 - 1, (next() % span) as i64 + 3)).collect();
        let coh: Vec<f64> = (0..n).map(|_| (next() % 5) as f64 / 4.0).collect();
        assert_eq!(
            adjacent_component_keep_mask(&ij, &keys(&coh)),
            grid_weeding(&ij, &coh),
            "layout {ij:?} with coherence {coh:?}"
        );
    }
}

fn grouped_duplicates(xy: &[(u64, u64)], coh: &[f64], keep: &mut [bool]) {
    let mut groups: BTreeMap<(u64, u64), Vec<usize>> = BTreeMap::new();
    for (row, &k) in keep.iter().enumerate() {
        if k {
            groups.entry(xy[row]).or_default().push(row);
        }
    }
    for rows in groups.values() {
        if rows.len() <= 1 {
            continue;
        }
        let best = rows.iter().copied().max_by(|&a, &b| coh[a].total_cmp(&coh[b])).unwrap();
        for &row in rows {
            if row != best {
                keep[row] = false;
            }
        }
    }
}

#[test]
fn duplicate_positions_keep_one_row() {
    let xy = vec![(1.0f64.to_bits(), 2.0f64.to_bits()), (3.0f64.to_bits(), 4.0f64.to_bits()), (1.0f64.to_bits(), 2.0f64.to_bits())];
    let coh = [0.9, 0.1, 0.3];
    let mut keep = vec![true, true, true];
    remove_duplicate_xy(&xy, &keys(&coh), &mut keep);
    assert_eq!(keep, vec![true, true, false]);
    let mut keep = vec![false, true, true];
    remove_duplicate_xy(&xy, &keys(&coh), &mut keep);
    assert_eq!(keep, vec![false, true, true]);
}

#[test]
fn duplicate_removal_agrees_with_grouping() {
    let mut state: u64 = 0x9e37_79b9_7f4a_7c15;
    let mut next = || {
        state ^= state << 13;
        state ^= state >> 7;
        state ^= state << 17;
        state
    };
    for _ in 0..300 {
        let n = (next() % 12) as usize;
        let xy: Vec<(u64, u64)> = (0..n).map(|_| (next() % 3, next() % 2)).collect();
        let coh: Vec<f64> = (0..n).map(|_| (next() % 4) as f64).collect();
        let keep: Vec<bool> = (0..n).map(|_| next() % 4 != 0).collect();
        let mut ours = keep.clone();
        remove_duplicate_xy(&xy, &keys(&coh), &mut ours);
        let mut theirs = keep.clone();
        grouped_duplicates(&xy, &coh, &mut theirs);
        assert_eq!(ours, theirs, "positions {xy:?} coherence {coh:?} mask {keep:?}");
    }
}
