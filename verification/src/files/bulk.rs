//! Bulk actions: which of the reachable files each action writes, and what it
//! writes to each.
use vstd::prelude::*;

use super::FileRecord;
use super::tags::{add_tag, remove_tag, tag_views, with_tag, without_tag};

verus! {

/// `POST /files/bulk`: an action on a list of files.
pub enum BulkAction {
    Delete { ids: Vec<u128> },
    Purge { ids: Vec<u128> },
    Tag { ids: Vec<u128>, tag: String },
    Untag { ids: Vec<u128>, tag: String },
}

/// One write of a bulk action: move a file to the trash, erase a trashed file
/// (row, then stored object), or replace a file's tags.
pub enum BulkStep {
    SoftDelete { id: u128 },
    Purge { id: u128, storage_key: String },
    SetTags { id: u128, tags: Vec<String> },
}

impl BulkAction {
    /// The files the action names.
    pub fn ids(&self) -> (r: &Vec<u128>)
        ensures
            r == match *self {
                BulkAction::Delete { ids } => ids,
                BulkAction::Purge { ids } => ids,
                BulkAction::Tag { ids, .. } => ids,
                BulkAction::Untag { ids, .. } => ids,
            },
    {
        match self {
            BulkAction::Delete { ids } => ids,
            BulkAction::Purge { ids } => ids,
            BulkAction::Tag { ids, .. } => ids,
            BulkAction::Untag { ids, .. } => ids,
        }
    }
}

/// Whether the action writes the reachable file `r`: deleting skips files
/// already in the trash; purging takes trashed files that the user owns;
/// tagging and untagging write every file.
pub open spec fn acts_on(action: BulkAction, r: FileRecord, uid: u128) -> bool {
    match action {
        BulkAction::Delete { .. } => r.deleted_at is None,
        BulkAction::Purge { .. } => r.deleted_at is Some && r.owner_id == uid,
        BulkAction::Tag { .. } => true,
        BulkAction::Untag { .. } => true,
    }
}

/// The files, in order, that the action writes.
pub open spec fn acted_rows(rows: Seq<FileRecord>, action: BulkAction, uid: u128) -> Seq<FileRecord> {
    rows.filter(|r: FileRecord| acts_on(action, r, uid))
}

/// `s` is the write that `action` makes to `r`.
pub open spec fn step_for(s: BulkStep, action: BulkAction, r: FileRecord) -> bool {
    match action {
        BulkAction::Delete { .. } => s == BulkStep::SoftDelete { id: r.id },
        BulkAction::Purge { .. } => s matches BulkStep::Purge { id, storage_key } && id == r.id
            && storage_key@ == r.storage_key@,
        BulkAction::Tag { tag, .. } => s matches BulkStep::SetTags { id, tags } && id == r.id
            && tag_views(tags@) == with_tag(tag_views(r.tags@), tag@),
        BulkAction::Untag { tag, .. } => s matches BulkStep::SetTags { id, tags } && id == r.id
            && tag_views(tags@) == without_tag(tag_views(r.tags@), tag@),
    }
}

/// The write the action makes to `r`.
fn step_of(action: &BulkAction, r: FileRecord) -> (s: BulkStep)
    ensures
        step_for(s, *action, r),
{
    match action {
        BulkAction::Delete { .. } => BulkStep::SoftDelete { id: r.id },
        BulkAction::Purge { .. } => BulkStep::Purge { id: r.id, storage_key: r.storage_key },
        BulkAction::Tag { tag, .. } => {
            let id = r.id;
            let tags = add_tag(r.tags, tag.clone());
            BulkStep::SetTags { id, tags }
        },
        BulkAction::Untag { tag, .. } => {
            let id = r.id;
            let tags = remove_tag(r.tags, tag);
            BulkStep::SetTags { id, tags }
        },
    }
}

/// Whether the action writes `r` (see `acts_on`).
fn writes(action: &BulkAction, r: &FileRecord, uid: u128) -> (b: bool)
    ensures
        b == acts_on(*action, *r, uid),
{
    match action {
        BulkAction::Delete { .. } => r.deleted_at.is_none(),
        BulkAction::Purge { .. } => r.deleted_at.is_some() && r.owner_id == uid,
        BulkAction::Tag { .. } => true,
        BulkAction::Untag { .. } => true,
    }
}

/// The writes of a bulk action on the files the user reaches (see
/// `resolve_accessible`): one for each file that the action writes, in the
/// order of `rows`.
pub fn bulk_plan(action: &BulkAction, rows: Vec<FileRecord>, uid: u128) -> (r: Vec<BulkStep>)
    ensures
        r@.len() == acted_rows(rows@, *action, uid).len(),
        forall|i: int| 0 <= i < r@.len() ==> step_for(#[trigger] r@[i], *action, acted_rows(rows@, *action, uid)[i]),
{
    let ghost orig = rows@;
    let mut rows = rows;
    let mut out: Vec<BulkStep> = Vec::new();
    let n = rows.len();
    let mut i: usize = 0;
    while i < n
        invariant
            n == orig.len(),
            i <= n,
            rows@ == orig.subrange(i as int, n as int),
            out@.len() == acted_rows(orig.subrange(0, i as int), *action, uid).len(),
            forall|j: int| 0 <= j < out@.len() ==> step_for(#[trigger] out@[j], *action, acted_rows(orig.subrange(0, i as int), *action, uid)[j]),
        decreases n - i,
    {
        let r = rows.remove(0);
        let ghost pre = orig.subrange(0, i as int);
        let ghost cur = orig.subrange(0, i + 1);
        assert(cur.drop_last() == pre);
        assert(cur.last() == r);
        assert(rows@ == orig.subrange(i + 1, n as int));
        proof {
            reveal_with_fuel(Seq::<_>::filter, 1);
        }
        if writes(action, &r, uid) {
            let ghost before = out@;
            let s = step_of(action, r);
            out.push(s);
            assert forall|j: int| 0 <= j < out@.len() implies step_for(#[trigger] out@[j], *action, acted_rows(cur, *action, uid)[j]) by {
                if j < before.len() {
                    assert(out@[j] == before[j]);
                }
            }
        }
        i = i + 1;
    }
    assert(orig.subrange(0, n as int) == orig);
    out
}

/// The number of `true` entries.
pub open spec fn count_true(v: Seq<bool>) -> nat
    decreases v.len(),
{
    if v.len() == 0 {
        0
    } else {
        count_true(v.drop_last()) + if v.last() { 1nat } else { 0nat }
    }
}

/// The `affected` count of a bulk action: the writes that went through.
pub fn affected_count(succeeded: &Vec<bool>) -> (r: u64)
    requires
        succeeded@.len() <= u64::MAX,
    ensures
        r == count_true(succeeded@),
{
    let mut n: u64 = 0;
    let len = succeeded.len();
    for i in 0..len
        invariant
            len == succeeded@.len(),
            len <= u64::MAX,
            n == count_true(succeeded@.subrange(0, i as int)),
            n <= i,
    {
        assert(succeeded@.subrange(0, i + 1).drop_last() == succeeded@.subrange(0, i as int));
        if succeeded[i] {
            n = n + 1;
        }
    }
    assert(succeeded@.subrange(0, len as int) == succeeded@);
    n
}

/// Which reachable files a bulk action writes: deleting takes exactly the
/// files not yet in the trash, purging exactly the trashed files the user
/// owns, tagging and untagging every file.
pub proof fn lemma_bulk_targets(rows: Seq<FileRecord>, action: BulkAction, uid: u128)
    ensures
        action is Delete ==> forall|i: int|
            0 <= i < rows.len() ==> (acted_rows(rows, action, uid).contains(#[trigger] rows[i]) <==> rows[i].deleted_at is None),
        action is Purge ==> forall|i: int|
            0 <= i < rows.len() ==> (acted_rows(rows, action, uid).contains(#[trigger] rows[i]) <==> (rows[i].deleted_at is Some
                && rows[i].owner_id == uid)),
        (action is Tag || action is Untag) ==> acted_rows(rows, action, uid) == rows,
{
    let p = |r: FileRecord| acts_on(action, r, uid);
    assert(acted_rows(rows, action, uid) == rows.filter(p));
    super::lemma_filter_exact(rows, p);
    if action is Tag || action is Untag {
        super::lemma_filter_all(rows, p);
    }
}

/// What each write does: deleting and purging name the file (purging with
/// its stored object), tagging leaves the file with the tag and every tag it
/// had, untagging leaves it without the tag.
pub proof fn lemma_bulk_step_effect(s: BulkStep, action: BulkAction, r: FileRecord)
    requires
        step_for(s, action, r),
    ensures
        action is Delete ==> s == (BulkStep::SoftDelete { id: r.id }),
        action is Purge ==> s is Purge && s->Purge_id == r.id && s->storage_key@ == r.storage_key@,
        action is Tag ==> s is SetTags && s->SetTags_id == r.id && tag_views(s->tags@).contains(action->Tag_tag@),
        action is Tag ==> forall|k: int|
            0 <= k < r.tags@.len() ==> tag_views(s->tags@).contains(#[trigger] tag_views(r.tags@)[k]),
        action is Untag ==> s is SetTags && s->SetTags_id == r.id && !tag_views(s->tags@).contains(action->Untag_tag@),
{
    match action {
        BulkAction::Tag { tag, .. } => {
            if let BulkStep::SetTags { id, tags } = s {
                assert forall|k: int| 0 <= k < r.tags@.len() implies tag_views(tags@).contains(
                    #[trigger] tag_views(r.tags@)[k],
                ) by {
                    assert(tag_views(r.tags@).contains(tag_views(r.tags@)[k]));
                    super::tags::lemma_add_tag_adds_only_it(tag_views(r.tags@), tag@, tag_views(r.tags@)[k]);
                }
                super::tags::lemma_add_tag_adds_only_it(tag_views(r.tags@), tag@, tag@);
            }
        },
        BulkAction::Untag { tag, .. } => {
            if let BulkStep::SetTags { id, tags } = s {
                let f = super::tags::other_than(tag@);
                let w = without_tag(tag_views(r.tags@), tag@);
                if w.contains(tag@) {
                    let j = choose|j: int| 0 <= j < w.len() && w[j] == tag@;
                    tag_views(r.tags@).lemma_filter_pred(f, j);
                }
            }
        },
        _ => {},
    }
}

/// The affected count: a write that went through counts one, one that
/// failed counts nothing, and the counts of two runs add up.
pub proof fn lemma_count_true_additive(a: Seq<bool>, b: Seq<bool>)
    ensures
        count_true(Seq::<bool>::empty()) == 0,
        count_true(seq![true]) == 1,
        count_true(seq![false]) == 0,
        count_true(a + b) == count_true(a) + count_true(b),
        count_true(a) <= a.len(),
    decreases a.len() + b.len(),
{
    assert(seq![true].drop_last() =~= Seq::<bool>::empty());
    assert(seq![false].drop_last() =~= Seq::<bool>::empty());
    if b.len() == 0 {
        assert(a + b =~= a);
        if a.len() > 0 {
            lemma_count_true_additive(a.drop_last(), b);
        }
    } else {
        lemma_count_true_additive(a, b.drop_last());
        assert((a + b).drop_last() =~= a + b.drop_last());
        assert((a + b).last() == b.last());
    }
}

} // verus!
