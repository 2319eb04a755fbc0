//! Which directories of a dataset are patches, and their order.

use vstd::prelude::*;
use vstd::utf8::encode_utf8;
use crate::mat::data::{bytes_lt, bytes_less, lemma_bytes_lt_trichotomy, lemma_bytes_lt_transitive};
use crate::text::str_starts_with;

verus! {

broadcast use vstd::seq_lib::to_multiset_build, vstd::seq_lib::to_multiset_insert;

/// An entry of the dataset directory: its path, its last path component when
/// that is valid UTF-8, and whether it is a directory.
#[derive(Clone, Debug)]
pub struct DirEntryInfo {
    pub path: String,
    pub name: Option<String>,
    pub is_dir: bool,
}

pub struct DirEntryView {
    pub path: Seq<char>,
    pub name: Option<Seq<char>>,
    pub is_dir: bool,
}

impl View for DirEntryInfo {
    type V = DirEntryView;

    open spec fn view(&self) -> DirEntryView {
        DirEntryView {
            path: self.path@,
            name: match self.name {
                Some(n) => Some(n@),
                None => None,
            },
            is_dir: self.is_dir,
        }
    }
}

/// A patch is a directory whose name begins with `PATCH_`.
pub open spec fn is_patch(e: DirEntryView) -> bool {
    e.is_dir && match e.name {
        Some(n) => n.len() >= 6 && n.take(6) == "PATCH_"@,
        None => false,
    }
}

/// The sort key of an entry: the bytes of its name.
pub open spec fn key(e: DirEntryView) -> Seq<u8> {
    match e.name {
        Some(n) => encode_utf8(n),
        None => Seq::empty(),
    }
}

/// The patches among the entries, in directory order.
pub open spec fn patches_of(es: Seq<DirEntryView>) -> Seq<DirEntryView>
    decreases es.len(),
{
    if es.len() == 0 {
        Seq::empty()
    } else if is_patch(es.last()) {
        patches_of(es.drop_last()).push(es.last())
    } else {
        patches_of(es.drop_last())
    }
}

/// Entries in non-decreasing order of name bytes.
pub open spec fn sorted_by_name(es: Seq<DirEntryView>) -> bool {
    forall|i: int, j: int| 0 <= i < j < es.len() ==> !bytes_lt(key(#[trigger] es[j]), key(#[trigger] es[i]))
}

fn copy_entry(e: &DirEntryInfo) -> (r: DirEntryInfo)
    ensures
        r@ == e@,
{
    let name = match &e.name {
        Some(n) => Some(n.clone()),
        None => None,
    };
    DirEntryInfo { path: e.path.clone(), name, is_dir: e.is_dir }
}

fn is_patch_entry(e: &DirEntryInfo) -> (r: bool)
    ensures
        r == is_patch(e@),
{
    if !e.is_dir {
        return false;
    }
    match &e.name {
        None => false,
        Some(n) => {
            proof {
                reveal_strlit("PATCH_");
            }
            str_starts_with(n.as_str(), "PATCH_")
        },
    }
}

fn entry_key(e: &DirEntryInfo) -> (r: &[u8])
    ensures
        r@ == key(e@),
{
    match &e.name {
        Some(n) => n.as_str().as_bytes(),
        None => {
            let empty: &[u8] = &[];
            proof {
                assert(empty@ =~= Seq::<u8>::empty());
            }
            empty
        },
    }
}

/// The patch directories among the entries, sorted by name; entries with equal
/// names keep their directory order.
pub fn select_patches(entries: &Vec<DirEntryInfo>) -> (r: Vec<DirEntryInfo>)
    ensures
        sorted_by_name(r@.map_values(|e: DirEntryInfo| e@)),
        r@.map_values(|e: DirEntryInfo| e@).to_multiset() == patches_of(entries@.map_values(|e: DirEntryInfo| e@)).to_multiset(),
{
    let ghost ev = entries@.map_values(|e: DirEntryInfo| e@);
    let mut out: Vec<DirEntryInfo> = Vec::new();
    let mut i: usize = 0;
    proof {
        assert(out@.map_values(|e: DirEntryInfo| e@) =~= Seq::<DirEntryView>::empty());
        assert(ev.take(0) =~= Seq::<DirEntryView>::empty());
    }
    while i < entries.len()
        invariant
            i <= entries@.len(),
            ev == entries@.map_values(|e: DirEntryInfo| e@),
            sorted_by_name(out@.map_values(|e: DirEntryInfo| e@)),
            out@.map_values(|e: DirEntryInfo| e@).to_multiset() == patches_of(ev.take(i as int)).to_multiset(),
        decreases entries@.len() - i,
    {
        let e = &entries[i];
        let ghost ov = out@.map_values(|x: DirEntryInfo| x@);
        proof {
            assert(ev.take(i + 1).drop_last() =~= ev.take(i as int));
            assert(ev.take(i + 1).last() == e@);
        }
        if is_patch_entry(e) {
            let k = entry_key(e);
            let mut p: usize = 0;
            while p < out.len() && !bytes_less(k, entry_key(&out[p]))
                invariant
                    p <= out@.len(),
                    ov == out@.map_values(|x: DirEntryInfo| x@),
                    k@ == key(e@),
                    forall|q: int| 0 <= q < p ==> !bytes_lt(key(e@), key(#[trigger] ov[q])),
                decreases out@.len() - p,
            {
                p = p + 1;
            }
            out.insert(p, copy_entry(e));
            proof {
                let nv = out@.map_values(|x: DirEntryInfo| x@);
                assert(nv =~= ov.insert(p as int, e@));
                assert forall|a: int, b: int| 0 <= a < b < nv.len() implies !bytes_lt(key(#[trigger] nv[b]), key(#[trigger] nv[a])) by {
                    if a < p && b == p {
                        assert(nv[a] == ov[a]);
                        assert(!bytes_lt(key(e@), key(ov[a])));
                    } else if a == p && b > p {
                        assert(nv[b] == ov[b - 1]);
                        assert(p < ov.len());
                        assert(bytes_lt(key(e@), key(ov[p as int])));
                        if p < b - 1 {
                            lemma_bytes_lt_trichotomy(key(ov[b - 1]), key(ov[p as int]));
                            if bytes_lt(key(ov[b - 1]), key(e@)) {
                                lemma_bytes_lt_transitive(key(ov[b - 1]), key(e@), key(ov[p as int]));
                            }
                        } else {
                            lemma_bytes_lt_trichotomy(key(e@), key(ov[p as int]));
                        }
                    } else if a < p && b > p {
                        assert(nv[a] == ov[a] && nv[b] == ov[b - 1]);
                    } else if b < p {
                        assert(nv[a] == ov[a] && nv[b] == ov[b]);
                    } else {
                        assert(nv[a] == ov[a - 1] && nv[b] == ov[b - 1]);
                    }
                }
                vstd::seq_lib::to_multiset_insert(ov, p as int, e@);
                assert(patches_of(ev.take(i + 1)) == patches_of(ev.take(i as int)).push(e@));
            }
        } else {
            proof {
                assert(patches_of(ev.take(i + 1)) == patches_of(ev.take(i as int)));
            }
        }
        i = i + 1;
    }
    proof {
        assert(ev.take(entries@.len() as int) =~= ev);
    }
    out
}

} // verus!

verus! {

/// A dataset: its root directory and its patch directories, sorted by name.
#[derive(Clone, Debug)]
pub struct DatasetLayout {
    pub root: String,
    pub patches: Vec<String>,
}

impl DatasetLayout {
    /// The layout of the dataset at `root`, from the entries of its directory.
    pub fn from_entries(root: String, entries: &Vec<DirEntryInfo>) -> (r: DatasetLayout)
        ensures
            r.root@ == root@,
            exists|sorted: Seq<DirEntryView>|
                sorted_by_name(sorted)
                && sorted.to_multiset() == patches_of(entries@.map_values(|e: DirEntryInfo| e@)).to_multiset()
                && r.patches@.map_values(|p: String| p@) == sorted.map_values(|e: DirEntryView| e.path),
    {
        let selected = select_patches(entries);
        let ghost sv = selected@.map_values(|e: DirEntryInfo| e@);
        let mut patches: Vec<String> = Vec::new();
        let mut i: usize = 0;
        while i < selected.len()
            invariant
                i <= selected@.len(),
                sv == selected@.map_values(|e: DirEntryInfo| e@),
                patches@.map_values(|p: String| p@) == sv.take(i as int).map_values(|e: DirEntryView| e.path),
            decreases selected@.len() - i,
        {
            let path = selected[i].path.clone();
            let ghost before = patches@.map_values(|p: String| p@);
            patches.push(path);
            proof {
                assert(sv[i as int] == selected@[i as int]@);
                assert(sv.take(i + 1).map_values(|e: DirEntryView| e.path) =~= sv.take(i as int).map_values(|e: DirEntryView| e.path).push(path@));
                assert(patches@.map_values(|p: String| p@) =~= before.push(path@));
            }
            i = i + 1;
            proof {
                assert(patches@.map_values(|p: String| p@) =~= sv.take(i as int).map_values(|e: DirEntryView| e.path));
            }
        }
        proof {
            assert(sv.take(sv.len() as int) =~= sv);
        }
        DatasetLayout { root, patches }
    }
}

} // verus!
