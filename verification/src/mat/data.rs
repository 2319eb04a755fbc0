//! The variables read from a MAT file, kept in increasing order of their names'
//! UTF-8 bytes, one entry per name.

use vstd::prelude::*;
use vstd::utf8::encode_utf8;
use crate::mat::error::{MatError, MatErrorView};
use crate::mat::types::{MatArray, MatArrayView};

verus! {

broadcast use vstd::utf8::encode_utf8_decode_utf8;

/// Byte-wise lexicographic order (the order of Rust strings).
pub open spec fn bytes_lt(a: Seq<u8>, b: Seq<u8>) -> bool
    decreases a.len(),
{
    if b.len() == 0 {
        false
    } else if a.len() == 0 {
        true
    } else if a[0] < b[0] {
        true
    } else if a[0] == b[0] {
        bytes_lt(a.drop_first(), b.drop_first())
    } else {
        false
    }
}

/// The order of names: byte-wise on their UTF-8 encodings.
pub open spec fn name_lt(a: Seq<char>, b: Seq<char>) -> bool {
    bytes_lt(encode_utf8(a), encode_utf8(b))
}

pub proof fn lemma_bytes_lt_trichotomy(a: Seq<u8>, b: Seq<u8>)
    ensures
        a == b || bytes_lt(a, b) || bytes_lt(b, a),
        !(bytes_lt(a, b) && bytes_lt(b, a)),
        !bytes_lt(a, a),
    decreases a.len(),
{
    if a.len() > 0 && b.len() > 0 {
        lemma_bytes_lt_trichotomy(a.drop_first(), b.drop_first());
        if a[0] == b[0] && a.drop_first() == b.drop_first() {
            assert forall|i: int| 0 <= i < a.len() implies a[i] == b[i] by {
                if i > 0 {
                    assert(a[i] == a.drop_first()[i - 1]);
                    assert(b[i] == b.drop_first()[i - 1]);
                }
            }
            assert(a =~= b);
        }
    } else if a.len() == 0 && b.len() == 0 {
        assert(a =~= b);
    }
    if a.len() > 0 {
        lemma_bytes_lt_irreflexive(a);
    }
}

proof fn lemma_bytes_lt_irreflexive(a: Seq<u8>)
    ensures
        !bytes_lt(a, a),
    decreases a.len(),
{
    if a.len() > 0 {
        lemma_bytes_lt_irreflexive(a.drop_first());
    }
}

pub proof fn lemma_bytes_lt_transitive(a: Seq<u8>, b: Seq<u8>, c: Seq<u8>)
    requires
        bytes_lt(a, b),
        bytes_lt(b, c),
    ensures
        bytes_lt(a, c),
    decreases a.len(),
{
    if a.len() > 0 && a[0] == b[0] && b[0] == c[0] {
        lemma_bytes_lt_transitive(a.drop_first(), b.drop_first(), c.drop_first());
    }
}

/// Distinct names have distinct encodings.
pub proof fn lemma_encode_injective(a: Seq<char>, b: Seq<char>)
    ensures
        encode_utf8(a) == encode_utf8(b) ==> a == b,
{
    if encode_utf8(a) == encode_utf8(b) {
        assert(vstd::utf8::decode_utf8(encode_utf8(a)) == a);
        assert(vstd::utf8::decode_utf8(encode_utf8(b)) == b);
    }
}

/// Names are totally ordered.
pub proof fn lemma_name_trichotomy(a: Seq<char>, b: Seq<char>)
    ensures
        a == b || name_lt(a, b) || name_lt(b, a),
        !(name_lt(a, b) && name_lt(b, a)),
        !name_lt(a, a),
{
    lemma_bytes_lt_trichotomy(encode_utf8(a), encode_utf8(b));
    lemma_bytes_lt_trichotomy(encode_utf8(a), encode_utf8(a));
    lemma_encode_injective(a, b);
}

/// Entries are sorted strictly by name.
pub open spec fn sorted_names(es: Seq<MatArrayView>) -> bool {
    forall|i: int, j: int| 0 <= i < j < es.len() ==> name_lt(#[trigger] es[i].name, #[trigger] es[j].name)
}

/// Inserting an array: it takes the place of an entry with the same name, or is
/// placed before the first entry whose name is larger.
pub open spec fn spec_insert(es: Seq<MatArrayView>, a: MatArrayView) -> Seq<MatArrayView>
    decreases es.len(),
{
    if es.len() == 0 {
        seq![a]
    } else if name_lt(a.name, es[0].name) {
        seq![a] + es
    } else if es[0].name == a.name {
        seq![a] + es.drop_first()
    } else {
        seq![es[0]] + spec_insert(es.drop_first(), a)
    }
}

/// The entry with this name, if there is one.
pub open spec fn lookup(es: Seq<MatArrayView>, name: Seq<char>) -> Option<MatArrayView>
    decreases es.len(),
{
    if es.len() == 0 {
        None
    } else if es[0].name == name {
        Some(es[0])
    } else {
        lookup(es.drop_first(), name)
    }
}

/// After an insertion, the inserted name reads back the inserted array and every
/// other name reads back what it read before.
pub proof fn lemma_lookup_insert(es: Seq<MatArrayView>, a: MatArrayView, name: Seq<char>)
    ensures
        lookup(spec_insert(es, a), name) == (if name == a.name {
            Some(a)
        } else {
            lookup(es, name)
        }),
    decreases es.len(),
{
    let r = spec_insert(es, a);
    if es.len() == 0 {
        assert(r[0] == a);
        assert(r.drop_first().len() == 0);
    } else if name_lt(a.name, es[0].name) {
        assert(r[0] == a);
        assert(r.drop_first() =~= es);
    } else if es[0].name == a.name {
        assert(r[0] == a);
        assert(r.drop_first() =~= es.drop_first());
    } else {
        lemma_lookup_insert(es.drop_first(), a, name);
        assert(r[0] == es[0]);
        assert(r.drop_first() =~= spec_insert(es.drop_first(), a));
    }
}

proof fn lemma_insert_skip_prefix(es: Seq<MatArrayView>, a: MatArrayView, i: int)
    requires
        0 <= i <= es.len(),
        forall|k: int| 0 <= k < i ==> name_lt(#[trigger] es[k].name, a.name),
    ensures
        spec_insert(es, a) == es.take(i) + spec_insert(es.skip(i), a),
    decreases i,
{
    if i == 0 {
        assert(es.skip(0) =~= es);
        assert(es.take(0) + spec_insert(es, a) =~= spec_insert(es, a));
    } else {
        let rest = es.drop_first();
        assert forall|k: int| 0 <= k < i - 1 implies name_lt(#[trigger] rest[k].name, a.name) by {
            assert(rest[k] == es[k + 1]);
        }
        lemma_insert_skip_prefix(rest, a, i - 1);
        lemma_name_trichotomy(es[0].name, a.name);
        assert(es[0].name != a.name);
        assert(rest.skip(i - 1) =~= es.skip(i));
        assert(es.take(i) =~= seq![es[0]] + rest.take(i - 1));
        assert(seq![es[0]] + (rest.take(i - 1) + spec_insert(es.skip(i), a)) =~= es.take(i) + spec_insert(es.skip(i), a));
    }
}

pub proof fn lemma_insert_sorted(es: Seq<MatArrayView>, a: MatArrayView)
    requires
        sorted_names(es),
    ensures
        sorted_names(spec_insert(es, a)),
        forall|k: int| 0 <= k < spec_insert(es, a).len() ==> (#[trigger] spec_insert(es, a)[k]).name == a.name
            || (exists|j: int| 0 <= j < es.len() && es[j] == spec_insert(es, a)[k]),
    decreases es.len(),
{
    let r = spec_insert(es, a);
    if es.len() == 0 {
    } else if name_lt(a.name, es[0].name) {
        assert forall|i: int, j: int| 0 <= i < j < r.len() implies name_lt(#[trigger] r[i].name, #[trigger] r[j].name) by {
            if i == 0 {
                if j > 1 {
                    lemma_bytes_lt_transitive(encode_utf8(a.name), encode_utf8(es[0].name), encode_utf8(es[j - 1].name));
                }
            } else {
                assert(r[i] == es[i - 1] && r[j] == es[j - 1]);
            }
        }
        assert forall|k: int| 0 <= k < r.len() implies (#[trigger] r[k]).name == a.name
            || (exists|j: int| 0 <= j < es.len() && es[j] == r[k]) by {
            if k > 0 {
                assert(es[k - 1] == r[k]);
            }
        }
    } else if es[0].name == a.name {
        assert forall|i: int, j: int| 0 <= i < j < r.len() implies name_lt(#[trigger] r[i].name, #[trigger] r[j].name) by {
            assert(r[j] == es[j]);
            if i > 0 {
                assert(r[i] == es[i]);
            }
        }
        assert forall|k: int| 0 <= k < r.len() implies (#[trigger] r[k]).name == a.name
            || (exists|j: int| 0 <= j < es.len() && es[j] == r[k]) by {
            if k > 0 {
                assert(es[k] == r[k]);
            }
        }
    } else {
        let rest = es.drop_first();
        assert(sorted_names(rest)) by {
            assert forall|i: int, j: int| 0 <= i < j < rest.len() implies name_lt(#[trigger] rest[i].name, #[trigger] rest[j].name) by {
                assert(rest[i] == es[i + 1] && rest[j] == es[j + 1]);
            }
        }
        lemma_insert_sorted(rest, a);
        let t = spec_insert(rest, a);
        lemma_name_trichotomy(es[0].name, a.name);
        assert(name_lt(es[0].name, a.name));
        assert forall|i: int, j: int| 0 <= i < j < r.len() implies name_lt(#[trigger] r[i].name, #[trigger] r[j].name) by {
            if i == 0 {
                assert(r[j] == t[j - 1]);
                let x = t[j - 1];
                if x.name != a.name {
                    let jj = choose|jj: int| 0 <= jj < rest.len() && rest[jj] == x;
                    assert(es[jj + 1] == x);
                }
            } else {
                assert(r[i] == t[i - 1] && r[j] == t[j - 1]);
            }
        }
        assert forall|k: int| 0 <= k < r.len() implies (#[trigger] r[k]).name == a.name
            || (exists|j: int| 0 <= j < es.len() && es[j] == r[k]) by {
            if k == 0 {
                assert(es[0] == r[0]);
            } else {
                assert(r[k] == t[k - 1]);
                if t[k - 1].name != a.name {
                    let jj = choose|jj: int| 0 <= jj < rest.len() && rest[jj] == t[k - 1];
                    assert(es[jj + 1] == r[k]);
                }
            }
        }
    }
}

/// Compares two byte strings in the order of Rust strings.
pub fn bytes_less(a: &[u8], b: &[u8]) -> (r: bool)
    ensures
        r == bytes_lt(a@, b@),
{
    let mut i: usize = 0;
    proof {
        assert(a@.skip(0) =~= a@);
        assert(b@.skip(0) =~= b@);
        assert(a@.take(0) =~= b@.take(0));
    }
    while i < a.len() && i < b.len() && a[i] == b[i]
        invariant
            i <= a@.len(),
            i <= b@.len(),
            a@.take(i as int) == b@.take(i as int),
            bytes_lt(a@, b@) == bytes_lt(a@.skip(i as int), b@.skip(i as int)),
        decreases a@.len() - i,
    {
        proof {
            let sa = a@.skip(i as int);
            let sb = b@.skip(i as int);
            assert(sa.drop_first() =~= a@.skip(i + 1));
            assert(sb.drop_first() =~= b@.skip(i + 1));
            assert(a@.take(i + 1) =~= b@.take(i + 1)) by {
                assert(a@.take(i + 1) =~= a@.take(i as int).push(a@[i as int]));
                assert(b@.take(i + 1) =~= b@.take(i as int).push(b@[i as int]));
            }
        }
        i = i + 1;
    }
    if i == b.len() {
        false
    } else if i == a.len() {
        true
    } else {
        a[i] < b[i]
    }
}

/// The variables of a MAT file.
#[derive(Clone, Debug)]
pub struct MatData {
    variables: Vec<MatArray>,
}

impl View for MatData {
    type V = Seq<MatArrayView>;

    closed spec fn view(&self) -> Seq<MatArrayView> {
        self.variables@.map_values(|a: MatArray| a@)
    }
}

impl MatData {
    /// No variables.
    pub fn new() -> (r: MatData)
        ensures
            r@ == Seq::<MatArrayView>::empty(),
    {
        let r = MatData { variables: Vec::new() };
        proof {
            assert(r@ =~= Seq::<MatArrayView>::empty());
        }
        r
    }

    /// Adds an array under its name, replacing an array of the same name.
    pub fn insert(&mut self, array: MatArray)
        requires
            sorted_names(old(self)@),
        ensures
            final(self)@ == spec_insert(old(self)@, array@),
            sorted_names(final(self)@),
    {
        let ghost es = self@;
        let ghost a = array@;
        let n = self.variables.len();
        let mut i: usize = 0;
        while i < n && bytes_less(self.variables[i].name.as_str().as_bytes(), array.name.as_str().as_bytes())
            invariant
                i <= n,
                n == self.variables@.len(),
                es == self@,
                a == array@,
                forall|k: int| 0 <= k < i ==> name_lt(#[trigger] es[k].name, a.name),
            decreases n - i,
        {
            proof {
                assert(es[i as int] == self.variables@[i as int]@);
            }
            i = i + 1;
        }
        proof {
            lemma_insert_skip_prefix(es, a, i as int);
            lemma_insert_sorted(es, a);
        }
        if i < n && self.variables[i].name == array.name {
            proof {
                let rest = es.skip(i as int);
                assert(rest[0] == es[i as int]);
                assert(!name_lt(a.name, rest[0].name) || rest[0].name == a.name);
            }
            self.variables.set(i, array);
            proof {
                let rest = es.skip(i as int);
                assert(spec_insert(rest, a) == seq![a] + rest.drop_first()) by {
                    lemma_name_trichotomy(a.name, a.name);
                }
                assert(self@ =~= es.take(i as int) + (seq![a] + rest.drop_first()));
            }
        } else {
            proof {
                let rest = es.skip(i as int);
                if i < n {
                    assert(rest[0] == es[i as int]);
                    assert(es[i as int] == self.variables@[i as int]@);
                    lemma_name_trichotomy(a.name, rest[0].name);
                    assert(name_lt(a.name, rest[0].name));
                    assert(spec_insert(rest, a) == seq![a] + rest);
                } else {
                    assert(rest.len() == 0);
                    assert(spec_insert(rest, a) == seq![a]);
                }
            }
            self.variables.insert(i, array);
            proof {
                let rest = es.skip(i as int);
                if i < n {
                    assert(self@ =~= es.take(i as int) + (seq![a] + rest));
                } else {
                    assert(self@ =~= es.take(i as int) + seq![a]);
                }
            }
        }
    }

    /// The arrays, in increasing order of name.
    pub fn variables(&self) -> (r: &[MatArray])
        ensures
            r@.map_values(|a: MatArray| a@) == self@,
    {
        self.variables.as_slice()
    }

    /// The array with this name, or `MissingVariable`.
    pub fn get(&self, name: &str) -> (r: Result<&MatArray, MatError>)
        ensures
            match lookup(self@, name@) {
                Some(a) => r matches Ok(x) && x@ == a,
                None => r matches Err(e) && e@ == (MatErrorView::MissingVariable { name: name@ }),
            },
    {
        let ghost es = self@;
        let mut i: usize = 0;
        proof {
            assert(es.skip(0) =~= es);
        }
        while i < self.variables.len()
            invariant
                i <= self.variables@.len(),
                es == self@,
                lookup(es, name@) == lookup(es.skip(i as int), name@),
            decreases self.variables@.len() - i,
        {
            proof {
                assert(es.skip(i as int)[0] == self.variables@[i as int]@);
                assert(es.skip(i as int).drop_first() =~= es.skip(i + 1));
            }
            if crate::text::str_eq(self.variables[i].name.as_str(), name) {
                return Ok(&self.variables[i]);
            }
            i = i + 1;
        }
        Err(MatError::MissingVariable { name: String::from_str(name) })
    }
}

} // verus!
