//! The controller's governing laws, stated and proved once over the
//! specification functions that the controller's contracts use.

use vstd::prelude::*;
use crate::picker::{
    ingest_models, models_contain_path, paths_distinct, BackgroundEvent, LoadError, LoadingState,
    PendingLoad, PickerState, SearchState,
};
use crate::rows::RowModel;

verus! {

/// Accumulation only appends: every already accumulated row stays at its
/// position when further pages are ingested.
pub proof fn lemma_ingest_preserves_prefix(rows: Seq<RowModel>, new: Seq<RowModel>)
    ensures
        ingest_models(rows, new).len() >= rows.len(),
        ingest_models(rows, new).subrange(0, rows.len() as int) == rows,
    decreases new.len(),
{
    if new.len() == 0 {
        assert(rows.subrange(0, rows.len() as int) =~= rows);
    } else {
        lemma_ingest_preserves_prefix(rows, new.drop_last());
        let pre = ingest_models(rows, new.drop_last());
        if !models_contain_path(pre, new.last().path) {
            assert(pre.push(new.last()).subrange(0, rows.len() as int) =~= pre.subrange(
                0,
                rows.len() as int,
            ));
        }
    }
}

/// An identity is accumulated after ingesting exactly when it was already
/// accumulated or the ingested page carries it.
pub proof fn lemma_ingest_contains(rows: Seq<RowModel>, new: Seq<RowModel>, p: Seq<char>)
    ensures
        models_contain_path(ingest_models(rows, new), p) <==> (models_contain_path(rows, p)
            || models_contain_path(new, p)),
    decreases new.len(),
{
    if new.len() == 0 {
    } else {
        lemma_ingest_contains(rows, new.drop_last(), p);
        let pre = ingest_models(rows, new.drop_last());
        let post = ingest_models(rows, new);
        assert(models_contain_path(new.drop_last(), p) ==> models_contain_path(new, p)) by {
            if models_contain_path(new.drop_last(), p) {
                let i = choose|i: int|
                    0 <= i < new.drop_last().len() && new.drop_last()[i].path == p;
                assert(new[i].path == p);
            }
        }
        if models_contain_path(pre, new.last().path) {
            if models_contain_path(new, p) && !models_contain_path(new.drop_last(), p) {
                let i = choose|i: int| 0 <= i < new.len() && new[i].path == p;
                if i < new.len() - 1 {
                    assert(new.drop_last()[i].path == p);
                } else {
                    assert(p == new.last().path);
                }
            }
        } else {
            assert(post == pre.push(new.last()));
            if models_contain_path(pre, p) {
                let i = choose|i: int| 0 <= i < pre.len() && pre[i].path == p;
                assert(post[i].path == p);
            }
            if models_contain_path(new, p) {
                let i = choose|i: int| 0 <= i < new.len() && new[i].path == p;
                if i < new.len() - 1 {
                    assert(new.drop_last()[i].path == p);
                } else {
                    assert(post.last().path == p);
                }
            }
            if models_contain_path(post, p) {
                let i = choose|i: int| 0 <= i < post.len() && post[i].path == p;
                if i < pre.len() {
                    assert(pre[i].path == p);
                } else {
                    assert(p == new.last().path);
                }
            }
        }
    }
}

/// Dedup law: ingesting pages that repeat an identity leaves exactly one
/// accumulated row for it. Identities stay unique, an identity is present
/// exactly when some ingested page carried it, and rows already
/// accumulated are kept unchanged — the first-seen data wins.
pub proof fn lemma_dedup(rows: Seq<RowModel>, new: Seq<RowModel>, p: Seq<char>)
    requires
        paths_distinct(rows),
    ensures
        paths_distinct(ingest_models(rows, new)),
        models_contain_path(ingest_models(rows, new), p) <==> (models_contain_path(rows, p)
            || models_contain_path(new, p)),
        ingest_models(rows, new).subrange(0, rows.len() as int) == rows,
{
    crate::picker::lemma_ingest_distinct(rows, new);
    lemma_ingest_contains(rows, new, p);
    lemma_ingest_preserves_prefix(rows, new);
}

/// The row an identity keeps is the first-seen one: ingesting further
/// pages never replaces or moves an already accumulated row.
pub proof fn lemma_first_seen_kept(rows: Seq<RowModel>, new: Seq<RowModel>, i: int)
    requires
        0 <= i < rows.len(),
    ensures
        ingest_models(rows, new)[i] == rows[i],
{
    lemma_ingest_preserves_prefix(rows, new);
    assert(ingest_models(rows, new).subrange(0, rows.len() as int)[i] == rows[i]);
}

/// A page whose identities are fresh and mutually distinct is appended
/// whole, in source order.
pub proof fn lemma_ingest_disjoint(rows: Seq<RowModel>, new: Seq<RowModel>)
    requires
        paths_distinct(new),
        forall|i: int| 0 <= i < new.len() ==> !models_contain_path(rows, #[trigger] new[i].path),
    ensures
        ingest_models(rows, new) == rows + new,
    decreases new.len(),
{
    if new.len() == 0 {
        assert(rows + new =~= rows);
    } else {
        let head = new.drop_last();
        assert(paths_distinct(head)) by {
            assert(forall|i: int, j: int|
                0 <= i < j < head.len() ==> head[i] == new[i] && head[j] == new[j]);
        }
        assert(forall|i: int|
            0 <= i < head.len() ==> !models_contain_path(rows, #[trigger] head[i].path)) by {
            assert(forall|i: int| 0 <= i < head.len() ==> head[i] == new[i]);
        }
        lemma_ingest_disjoint(rows, head);
        let pre = rows + head;
        assert(!models_contain_path(pre, new.last().path)) by {
            if models_contain_path(pre, new.last().path) {
                let i = choose|i: int| 0 <= i < pre.len() && pre[i].path == new.last().path;
                if i < rows.len() {
                    assert(rows[i].path == new.last().path);
                    assert(models_contain_path(rows, new[new.len() - 1].path));
                } else {
                    assert(new[i - rows.len()].path == new.last().path);
                    assert(new[i - rows.len()].path == new[new.len() - 1].path);
                }
            }
        }
        assert(pre.push(new.last()) =~= rows + new);
    }
}

/// Order-preservation law: for pages with disjoint identities ingested in
/// sequence, the accumulated rows are exactly the first page's items, then
/// the second's, then the third's — regardless of their timestamps.
pub proof fn lemma_order_preservation(p1: Seq<RowModel>, p2: Seq<RowModel>, p3: Seq<RowModel>)
    requires
        paths_distinct(p1 + p2 + p3),
    ensures
        ingest_models(ingest_models(ingest_models(Seq::empty(), p1), p2), p3) == p1 + p2 + p3,
{
    let all = p1 + p2 + p3;
    assert forall|i: int| 0 <= i < p1.len() implies all[i] == p1[i] by {}
    assert forall|i: int| 0 <= i < p2.len() implies all[p1.len() + i] == p2[i] by {}
    assert forall|i: int| 0 <= i < p3.len() implies all[p1.len() + p2.len() + i] == p3[i] by {}

    assert forall|i: int, j: int| 0 <= i < j < p1.len() implies p1[i].path != p1[j].path by {
        assert(all[i] == p1[i]);
        assert(all[j] == p1[j]);
    }
    assert(paths_distinct(p1));
    assert(forall|i: int|
        0 <= i < p1.len() ==> !models_contain_path(Seq::empty(), #[trigger] p1[i].path));
    lemma_ingest_disjoint(Seq::<RowModel>::empty(), p1);
    let a1 = ingest_models(Seq::<RowModel>::empty(), p1);
    assert(a1 =~= p1);

    assert forall|i: int, j: int| 0 <= i < j < p2.len() implies p2[i].path != p2[j].path by {
        assert(all[p1.len() + i] == p2[i]);
        assert(all[p1.len() + j] == p2[j]);
    }
    assert(paths_distinct(p2));
    assert forall|i: int| 0 <= i < p2.len() implies !models_contain_path(
        p1,
        #[trigger] p2[i].path,
    ) by {
        if models_contain_path(p1, p2[i].path) {
            let k = choose|k: int| 0 <= k < p1.len() && p1[k].path == p2[i].path;
            assert(all[k].path == all[p1.len() + i].path);
        }
    }
    lemma_ingest_disjoint(p1, p2);
    let a2 = ingest_models(a1, p2);
    assert(a2 == p1 + p2);

    assert forall|i: int, j: int| 0 <= i < j < p3.len() implies p3[i].path != p3[j].path by {
        assert(all[p1.len() + p2.len() + i] == p3[i]);
        assert(all[p1.len() + p2.len() + j] == p3[j]);
    }
    assert(paths_distinct(p3));
    assert forall|i: int| 0 <= i < p3.len() implies !models_contain_path(
        p1 + p2,
        #[trigger] p3[i].path,
    ) by {
        if models_contain_path(p1 + p2, p3[i].path) {
            let k = choose|k: int| 0 <= k < (p1 + p2).len() && (p1 + p2)[k].path == p3[i].path;
            assert(all[k].path == all[p1.len() + p2.len() + i].path);
        }
    }
    lemma_ingest_disjoint(p1 + p2, p3);
    assert((p1 + p2) + p3 =~= p1 + p2 + p3);
}

/// Stale-response law: a completion that does not answer the single
/// outstanding request — no fetch outstanding, or another token — mutates
/// neither pagination, nor the accumulated rows, nor the loading state:
/// the controller stays exactly as it was.
pub proof fn lemma_stale_response_immune(
    pre: PickerState,
    event: BackgroundEvent,
    r: Result<(), LoadError>,
    post: PickerState,
)
    requires
        PickerState::background_rel(pre, event, r, post),
        match event {
            BackgroundEvent::PageLoaded { request_token, .. } => match pre.pagination.loading {
                LoadingState::Idle => true,
                LoadingState::Pending(p) => p.request_token != request_token,
            },
        },
    ensures
        post == pre,
        r is Ok,
{
}

/// Search-convergence law, one step: while a search is active and a
/// matching completion has been ingested, the search either goes idle —
/// exactly when a match is now visible or the source is exhausted or
/// capped — or stays active under the same token and dispatches exactly
/// one further fetch carrying that token.
pub proof fn lemma_search_convergence_step(mid: PickerState, post: PickerState, token: usize)
    requires
        PickerState::search_continue_rel(mid, post),
        mid.search_state == (SearchState::Active { token }),
        mid.pagination.loading is Idle,
    ensures
        PickerState::search_should_stop(mid) ==> post.search_state is Idle && post.dispatched
            == mid.dispatched && post.pagination == mid.pagination,
        !PickerState::search_should_stop(mid) ==> {
            &&& post.search_state == (SearchState::Active { token })
            &&& post.dispatched@.len() == mid.dispatched@.len() + 1
            &&& post.dispatched@.last().search_token == Some(token)
            &&& post.dispatched@.last().cursor == mid.pagination.next_cursor
            &&& post.pagination.loading == LoadingState::Pending(
                PendingLoad {
                    request_token: mid.next_request_token,
                    search_token: Some(token),
                },
            )
        },
{
}

/// Viewport law: in every well-formed state — hence after any sequence of
/// the controller's operations — the capacity is positive and the
/// selection lies within the visible window whenever the filtered view is
/// non-empty.
pub proof fn lemma_viewport_invariant(s: PickerState)
    requires
        s.wf(),
        s.filtered_rows@.len() > 0,
    ensures
        s.scroll_top <= s.selected,
        (s.selected as int) < s.scroll_top + s.cap(),
        s.cap() > 0,
{
}

} // verus!
