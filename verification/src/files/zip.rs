//! Entry names of a zip download: a name seen before gets `__{n}` appended,
//! where `n` counts its earlier occurrences.
use vstd::prelude::*;

use crate::text::{decimal, push_char, push_u64};

verus! {

/// How many elements of `s` equal `x`.
pub open spec fn count_eq(s: Seq<Seq<char>>, x: Seq<char>) -> nat
    decreases s.len(),
{
    if s.len() == 0 {
        0
    } else {
        count_eq(s.drop_last(), x) + if s.last() == x {
            1nat
        } else {
            0nat
        }
    }
}

/// The name of the `i`-th entry: the file name the first time it appears,
/// `{name}__{k}` the `(k+1)`-th time.
pub open spec fn zip_entry_name(names: Seq<Seq<char>>, i: int) -> Seq<char> {
    let c = count_eq(names.subrange(0, i + 1), names[i]);
    if c == 1 {
        names[i]
    } else {
        names[i] + seq!['_', '_'] + decimal((c - 1) as nat)
    }
}

/// The characters of each name.
pub open spec fn name_views(names: Seq<String>) -> Seq<Seq<char>> {
    names.map_values(|t: String| t@)
}

proof fn lemma_count_at_least_one(s: Seq<Seq<char>>, i: int)
    requires
        0 <= i < s.len(),
    ensures
        count_eq(s.subrange(0, i + 1), s[i]) >= 1,
{
    assert(s.subrange(0, i + 1).last() == s[i]);
}

/// The entry names for files named `names`, in order.
pub fn zip_entry_names(names: &Vec<String>) -> (r: Vec<String>)
    requires
        names@.len() < u64::MAX,
    ensures
        r@.len() == names@.len(),
        forall|i: int| 0 <= i < names@.len() ==> #[trigger] r@[i]@ == zip_entry_name(name_views(names@), i),
{
    let ghost v = name_views(names@);
    let n = names.len();
    let mut out: Vec<String> = Vec::new();
    for i in 0..n
        invariant
            n == names@.len(),
            n < u64::MAX,
            v == name_views(names@),
            out@.len() == i,
            forall|k: int| 0 <= k < i ==> #[trigger] out@[k]@ == zip_entry_name(v, k),
    {
        let mut c: u64 = 0;
        let mut j: usize = 0;
        while j <= i
            invariant
                n == names@.len(),
                n < u64::MAX,
                i < n,
                j <= i + 1,
                v == name_views(names@),
                c == count_eq(v.subrange(0, j as int), v[i as int]),
                c <= j,
            decreases i + 1 - j,
        {
            assert(v.subrange(0, j + 1).drop_last() == v.subrange(0, j as int));
            assert(v[j as int] == names@[j as int]@);
            if names[j].eq(&names[i]) {
                c = c + 1;
            }
            j = j + 1;
        }
        proof {
            lemma_count_at_least_one(v, i as int);
        }
        let mut name = names[i].clone();
        if c != 1 {
            push_char(&mut name, '_');
            push_char(&mut name, '_');
            push_u64(&mut name, c - 1);
        }
        assert(name@ == zip_entry_name(v, i as int));
        out.push(name);
    }
    out
}

proof fn lemma_count_zero_iff_absent(s: Seq<Seq<char>>, x: Seq<char>)
    ensures
        count_eq(s, x) == 0 <==> forall|j: int| 0 <= j < s.len() ==> s[j] != x,
    decreases s.len(),
{
    if s.len() > 0 {
        lemma_count_zero_iff_absent(s.drop_last(), x);
        if count_eq(s, x) == 0 {
            assert forall|j: int| 0 <= j < s.len() implies s[j] != x by {
                if j < s.len() - 1 {
                    assert(s.drop_last()[j] == s[j]);
                }
            }
        }
        if forall|j: int| 0 <= j < s.len() ==> s[j] != x {
            assert forall|j: int| 0 <= j < s.drop_last().len() implies s.drop_last()[j] != x by {
                assert(s.drop_last()[j] == s[j]);
            }
            assert(s.last() == s[s.len() - 1]);
        }
    }
}

/// Entry names in a zip download: a file whose name did not come before
/// keeps its name; a file whose name came before gets `__` and a number
/// appended, so it no longer equals that name.
pub proof fn lemma_zip_entry_name_rule(names: Seq<Seq<char>>, i: int)
    requires
        0 <= i < names.len(),
    ensures
        (forall|j: int| 0 <= j < i ==> names[j] != names[i]) ==> zip_entry_name(names, i) == names[i],
        (exists|j: int| 0 <= j < i && names[j] == names[i]) ==> (zip_entry_name(names, i) != names[i]
            && zip_entry_name(names, i).len() > names[i].len() + 2 && zip_entry_name(names, i).subrange(
            0,
            names[i].len() + 2int,
        ) == names[i] + seq!['_', '_']),
{
    let pre = names.subrange(0, i);
    let cur = names.subrange(0, i + 1);
    assert(cur.drop_last() == pre);
    assert(cur.last() == names[i]);
    lemma_count_zero_iff_absent(pre, names[i]);
    if forall|j: int| 0 <= j < i ==> names[j] != names[i] {
        assert forall|j: int| 0 <= j < pre.len() implies pre[j] != names[i] by {
            assert(pre[j] == names[j]);
        }
    }
    if exists|j: int| 0 <= j < i && names[j] == names[i] {
        let j = choose|j: int| 0 <= j < i && names[j] == names[i];
        assert(pre[j] == names[j]);
        let c = count_eq(cur, names[i]);
        assert(c >= 2);
        let d = decimal((c - 1) as nat);
        assert(d.len() >= 1);
        let e = names[i] + seq!['_', '_'] + d;
        assert(e.len() > names[i].len() + 2);
        assert(e.subrange(0, names[i].len() + 2int) =~= names[i] + seq!['_', '_']);
    }
}

} // verus!
