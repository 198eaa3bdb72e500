//! Tags on files: adding keeps one copy of a tag, removing drops every copy.
use vstd::prelude::*;

verus! {

/// The characters of each tag.
pub open spec fn tag_views(tags: Seq<String>) -> Seq<Seq<char>> {
    tags.map_values(|t: String| t@)
}

/// The tags after adding `tag`: unchanged when present, else appended.
pub open spec fn with_tag(tags: Seq<Seq<char>>, tag: Seq<char>) -> Seq<Seq<char>> {
    if tags.contains(tag) {
        tags
    } else {
        tags.push(tag)
    }
}

/// Whether a tag differs from `tag`.
pub open spec fn other_than(tag: Seq<char>) -> spec_fn(Seq<char>) -> bool {
    |t: Seq<char>| t != tag
}

/// The tags after removing `tag`: every copy dropped, the rest in order.
pub open spec fn without_tag(tags: Seq<Seq<char>>, tag: Seq<char>) -> Seq<Seq<char>> {
    tags.filter(other_than(tag))
}

/// Whether some tag equals `tag`.
pub fn has_tag(tags: &Vec<String>, tag: &String) -> (r: bool)
    ensures
        r == tag_views(tags@).contains(tag@),
{
    let n = tags.len();
    for i in 0..n
        invariant
            n == tags@.len(),
            forall|j: int| 0 <= j < i ==> tags@[j]@ != tag@,
    {
        if tags[i].eq(tag) {
            assert(tag_views(tags@)[i as int] == tag@);
            return true;
        }
    }
    assert forall|j: int| 0 <= j < tag_views(tags@).len() implies tag_views(tags@)[j] != tag@ by {
        assert(tag_views(tags@)[j] == tags@[j]@);
    }
    false
}

/// Adds `tag` unless the file already has it.
pub fn add_tag(tags: Vec<String>, tag: String) -> (r: Vec<String>)
    ensures
        tag_views(r@) == with_tag(tag_views(tags@), tag@),
{
    let mut tags = tags;
    if !has_tag(&tags, &tag) {
        let ghost before = tags@;
        tags.push(tag);
        assert(tag_views(tags@) == tag_views(before).push(tag@));
    }
    tags
}

/// Drops every copy of `tag`, keeping the other tags in order.
pub fn remove_tag(tags: Vec<String>, tag: &String) -> (r: Vec<String>)
    ensures
        tag_views(r@) == without_tag(tag_views(tags@), tag@),
{
    let ghost orig = tags@;
    let mut tags = tags;
    let mut out: Vec<String> = Vec::new();
    let n = tags.len();
    let mut i: usize = 0;
    while i < n
        invariant
            n == orig.len(),
            i <= n,
            tags@ == orig.subrange(i as int, n as int),
            tag_views(out@) == without_tag(tag_views(orig.subrange(0, i as int)), tag@),
        decreases n - i,
    {
        let t = tags.remove(0);
        let ghost pre = orig.subrange(0, i as int);
        let ghost cur = orig.subrange(0, i + 1);
        assert(cur.drop_last() == pre);
        assert(tag_views(cur) == tag_views(pre).push(t@));
        assert(tag_views(cur).drop_last() == tag_views(pre));
        proof {
            reveal_with_fuel(Seq::<_>::filter, 1);
        }
        if !t.eq(tag) {
            let ghost o = out@;
            out.push(t);
            assert(tag_views(out@) == tag_views(o).push(t@));
        }
        i = i + 1;
    }
    assert(orig.subrange(0, n as int) == orig);
    out
}

/// Adding a tag twice is adding it once.
pub proof fn lemma_add_tag_idempotent(tags: Seq<Seq<char>>, tag: Seq<char>)
    ensures
        with_tag(with_tag(tags, tag), tag) == with_tag(tags, tag),
        with_tag(tags, tag).contains(tag),
{
    if !tags.contains(tag) {
        assert(tags.push(tag)[tags.len() as int] == tag);
    }
}

/// After removing a tag the file no longer has it, and the other tags stay.
pub proof fn lemma_remove_tag_removes(tags: Seq<Seq<char>>, tag: Seq<char>, other: Seq<char>)
    requires
        other != tag,
    ensures
        !without_tag(tags, tag).contains(tag),
        without_tag(tags, tag).contains(other) == tags.contains(other),
{
    let f = other_than(tag);
    let w = without_tag(tags, tag);
    if w.contains(tag) {
        let j = choose|j: int| 0 <= j < w.len() && w[j] == tag;
        tags.lemma_filter_pred(f, j);
    }
    if tags.contains(other) {
        let i = choose|i: int| 0 <= i < tags.len() && tags[i] == other;
        tags.lemma_filter_contains(f, i);
    }
    if w.contains(other) {
        tags.lemma_filter_contains_rev(f, other);
    }
}

/// Removing a tag just added leaves the tags as removing it from the start.
pub proof fn lemma_remove_after_add(tags: Seq<Seq<char>>, tag: Seq<char>)
    ensures
        without_tag(with_tag(tags, tag), tag) == without_tag(tags, tag),
{
    if !tags.contains(tag) {
        assert(tags.push(tag).drop_last() == tags);
        reveal_with_fuel(Seq::<_>::filter, 1);
    }
}

/// Adding a tag keeps every tag the file had, adds `tag` and nothing else,
/// and adds no second copy of a tag already there.
pub proof fn lemma_add_tag_adds_only_it(tags: Seq<Seq<char>>, tag: Seq<char>, x: Seq<char>)
    ensures
        with_tag(tags, tag).contains(x) <==> (tags.contains(x) || x == tag),
        tags.contains(tag) ==> with_tag(tags, tag) == tags,
        !tags.contains(tag) ==> with_tag(tags, tag).len() == tags.len() + 1,
{
    if !tags.contains(tag) {
        let w = tags.push(tag);
        assert(w[tags.len() as int] == tag);
        if w.contains(x) {
            let j = choose|j: int| 0 <= j < w.len() && w[j] == x;
            if j < tags.len() {
                assert(tags[j] == x);
            }
        }
        if tags.contains(x) {
            let j = choose|j: int| 0 <= j < tags.len() && tags[j] == x;
            assert(w[j] == x);
        }
    }
}

} // verus!
