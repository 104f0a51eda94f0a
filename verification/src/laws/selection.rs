//! What is kept of a context that has to fit a budget.
use vstd::prelude::*;
use vstd::utf8::encode_utf8;
use crate::context::{capped_add, consider, consider_rank, hard_only, is_selection, item_view, item_views, kept, kept_tokens, left_out, lemma_consider_rank_tokens, lemma_hard_only_tokens, picked, required, tokens_of, untouched, weight, CompiledContext, ContextError, ContextItem, ContextSource, ItemView, Picked, Priority};
use crate::laws::texts::law_a_joined_text_shows_its_parts;
use crate::text::contains;

verus! {

/// Hard context comes before sticky, sticky before working, and working before
/// ephemeral context.
pub proof fn law_priorities_are_in_order(a: Priority, b: Priority)
    ensures
        Priority::Hard.rank() > Priority::Sticky.rank() > Priority::Working.rank()
            > Priority::Ephemeral.rank(),
        a.rank() == b.rank() <==> a == b,
{
}

/// The tokens of the kept items, of the first `n`, that come before item `i`: those
/// of a higher priority, and the later ones of the same.
pub open spec fn ahead(items: Seq<ItemView>, keep: Seq<bool>, i: int, n: int) -> nat
    decreases n,
{
    if n <= 0 {
        0
    } else {
        let j = n - 1;
        ahead(items, keep, i, j) + if keep[j] && (items[j].priority.rank()
            > items[i].priority.rank() || (items[j].priority.rank() == items[i].priority.rank() && j
            > i)) {
            items[j].tokens
        } else {
            0
        }
    }
}

proof fn lemma_stable(items: Seq<ItemView>, max: nat, p: Picked, rank: nat, n: int)
    requires
        p.keep.len() == items.len(),
        0 <= n <= items.len(),
    ensures
        consider_rank(items, max, p, rank, n).keep.len() == items.len(),
        forall|j: int|
            0 <= j < items.len() && (items[j].priority.rank() != rank || j >= n) ==> (
            #[trigger] consider_rank(items, max, p, rank, n).keep[j]) == p.keep[j],
    decreases n,
{
    if n > 0 {
        if items[n - 1].priority.rank() == rank {
            lemma_stable(items, max, consider(items, max, p, n - 1), rank, n - 1);
        } else {
            lemma_stable(items, max, p, rank, n - 1);
        }
    }
}

proof fn lemma_ahead_same(
    items: Seq<ItemView>,
    a: Seq<bool>,
    b: Seq<bool>,
    i: int,
    n: int,
)
    requires
        0 <= n <= items.len(),
        0 <= i < items.len(),
        a.len() == items.len(),
        b.len() == items.len(),
        forall|j: int|
            0 <= j < items.len() && (items[j].priority.rank() > items[i].priority.rank() || (
            items[j].priority.rank() == items[i].priority.rank() && j > i)) ==> (#[trigger] a[j])
                == b[j],
    ensures
        ahead(items, a, i, n) == ahead(items, b, i, n),
    decreases n,
{
    if n > 0 {
        lemma_ahead_same(items, a, b, i, n - 1);
        assert(a[n - 1] == a[n - 1]);
    }
}

proof fn lemma_ahead_is_all(items: Seq<ItemView>, keep: Seq<bool>, i: int, n: int)
    requires
        0 <= n <= items.len(),
        0 <= i < items.len(),
        keep.len() == items.len(),
        forall|j: int|
            0 <= j < items.len() && #[trigger] keep[j] ==> items[j].priority.rank()
                > items[i].priority.rank() || (items[j].priority.rank()
                == items[i].priority.rank() && j > i),
    ensures
        ahead(items, keep, i, n) == kept_tokens(items.take(n), keep),
    decreases n,
{
    if n > 0 {
        lemma_ahead_is_all(items, keep, i, n - 1);
        assert(items.take(n).drop_last() =~= items.take(n - 1));
        assert(keep[n - 1] == keep[n - 1]);
    }
}

proof fn lemma_left_out_for_want_of_room(
    items: Seq<ItemView>,
    max: nat,
    p: Picked,
    rank: nat,
    n: int,
    i: int,
)
    requires
        untouched(items, p, rank, n),
        p.used == kept_tokens(items, p.keep),
        0 <= i < n <= items.len(),
        items[i].priority.rank() == rank,
        !consider_rank(items, max, p, rank, n).keep[i],
    ensures
        ahead(items, consider_rank(items, max, p, rank, n).keep, i, items.len() as int)
            + items[i].tokens > max,
    decreases n,
{
    let q = consider_rank(items, max, p, rank, n);
    if i == n - 1 {
        let next = consider(items, max, p, i);
        lemma_stable(items, max, next, rank, i);
        lemma_stable(items, max, p, rank, n);
        assert(q.keep[i] == next.keep[i]);
        assert forall|j: int|
            0 <= j < items.len() && (items[j].priority.rank() > items[i].priority.rank() || (
            items[j].priority.rank() == items[i].priority.rank() && j > i)) implies (
        #[trigger] q.keep[j]) == p.keep[j] by {}
        lemma_ahead_same(items, q.keep, p.keep, i, items.len() as int);
        assert forall|j: int|
            0 <= j < items.len() && #[trigger] p.keep[j] implies items[j].priority.rank()
            > items[i].priority.rank() || (items[j].priority.rank() == items[i].priority.rank() && j
            > i) by {}
        lemma_ahead_is_all(items, p.keep, i, items.len() as int);
        assert(items.take(items.len() as int) =~= items);
    } else if items[n - 1].priority.rank() == rank {
        let next = consider(items, max, p, n - 1);
        if p.used + items[n - 1].tokens <= max {
            assert(!p.keep[n - 1]);
            crate::context::lemma_kept_tokens_update(items, p.keep, n - 1);
        }
        lemma_left_out_for_want_of_room(items, max, next, rank, n - 1, i);
    } else {
        lemma_left_out_for_want_of_room(items, max, p, rank, n - 1, i);
    }
}

/// An item is left out only for want of room: what is kept of a higher priority,
/// and of its own priority but later, leaves too little for it. So what matters
/// more comes first, and of equals the newer.
pub proof fn law_an_item_is_left_out_only_for_want_of_room(
    items: Seq<ItemView>,
    max: nat,
    i: int,
)
    requires
        required(items) <= max,
        required(items) < usize::MAX,
        0 <= i < items.len(),
        !picked(items, max).keep[i],
    ensures
        ahead(items, picked(items, max).keep, i, items.len() as int) + items[i].tokens > max,
        !(items[i].priority is Hard),
{
    let n = items.len() as int;
    let start = hard_only(items);
    assert forall|j: int| 0 <= j < items.len() implies #[trigger] start.keep[j] == (
    items[j].priority is Hard) by {}
    lemma_hard_only_tokens(items, start.keep);
    let sticky = consider_rank(items, max, start, 2, n);
    let working = consider_rank(items, max, sticky, 1, n);
    let last = consider_rank(items, max, working, 0, n);
    lemma_consider_rank_tokens(items, max, start, 2, n);
    lemma_consider_rank_tokens(items, max, sticky, 1, n);
    lemma_stable(items, max, start, 2, n);
    lemma_stable(items, max, sticky, 1, n);
    lemma_stable(items, max, working, 0, n);
    let rank = items[i].priority.rank();
    assert(last.keep[i] == picked(items, max).keep[i]);
    if rank == 3 {
        assert(start.keep[i]);
    } else if rank == 2 {
        lemma_left_out_for_want_of_room(items, max, start, 2, n, i);
        lemma_ahead_same(items, last.keep, sticky.keep, i, n);
    } else if rank == 1 {
        lemma_left_out_for_want_of_room(items, max, sticky, 1, n, i);
        lemma_ahead_same(items, last.keep, working.keep, i, n);
    } else {
        lemma_left_out_for_want_of_room(items, max, working, 0, n, i);
    }
}

/// The tokens of all items.
pub open spec fn all_tokens(items: Seq<ItemView>) -> nat
    decreases items.len(),
{
    if items.len() == 0 {
        0
    } else {
        all_tokens(items.drop_last()) + items.last().tokens
    }
}

proof fn lemma_ahead_bound(items: Seq<ItemView>, keep: Seq<bool>, i: int, n: int)
    requires
        0 <= n <= items.len(),
        0 <= i < items.len(),
    ensures
        ahead(items, keep, i, n) + (if i < n {
            items[i].tokens
        } else {
            0
        }) <= all_tokens(items.take(n)),
    decreases n,
{
    if n > 0 {
        lemma_ahead_bound(items, keep, i, n - 1);
        assert(items.take(n).drop_last() =~= items.take(n - 1));
    }
}

proof fn lemma_required_bound(items: Seq<ItemView>)
    ensures
        required(items) <= all_tokens(items),
    decreases items.len(),
{
    if items.len() > 0 {
        lemma_required_bound(items.drop_last());
    }
}

proof fn lemma_all_kept(items: Seq<ItemView>, keep: Seq<bool>)
    requires
        keep.len() >= items.len(),
        forall|i: int| 0 <= i < items.len() ==> #[trigger] keep[i],
    ensures
        kept(items, keep) == items,
    decreases items.len(),
{
    if items.len() > 0 {
        let init = items.drop_last();
        lemma_all_kept(init, keep);
        assert(keep[items.len() - 1]);
        assert(items =~= init.push(items.last()));
    } else {
        assert(kept(items, keep) =~= items);
    }
}

proof fn lemma_none_left_out(keep: Seq<bool>)
    requires
        forall|i: int| 0 <= i < keep.len() ==> #[trigger] keep[i],
    ensures
        left_out(keep) == 0,
    decreases keep.len(),
{
    if keep.len() > 0 {
        assert(keep[keep.len() - 1]);
        assert forall|i: int| 0 <= i < keep.drop_last().len() implies #[trigger] keep.drop_last()[i] by {
            assert(keep[i]);
        }
        lemma_none_left_out(keep.drop_last());
    }
}

/// Where everything fits, everything is kept, in its order, and nothing is
/// counted as left out.
pub proof fn law_what_fits_is_kept_whole(
    items: Seq<ItemView>,
    max: nat,
    r: Result<CompiledContext, ContextError>,
)
    requires
        is_selection(items, max, r),
        all_tokens(items) <= max,
        all_tokens(items) < usize::MAX,
    ensures
        r matches Ok(compiled) && item_views(compiled.items@) == items && compiled.omitted_items
            == 0,
{
    lemma_required_bound(items);
    crate::context::law_selection_keeps_hard_items_within_budget(items, max);
    let keep = picked(items, max).keep;
    assert forall|i: int| 0 <= i < items.len() implies #[trigger] keep[i] by {
        if !keep[i] {
            law_an_item_is_left_out_only_for_want_of_room(items, max, i);
            lemma_ahead_bound(items, keep, i, items.len() as int);
            assert(items.take(items.len() as int) =~= items);
        }
    }
    lemma_all_kept(items, keep);
    lemma_none_left_out(keep);
}

/// The tokens of the hard items.
pub open spec fn hard_tokens(items: Seq<ItemView>) -> nat
    decreases items.len(),
{
    if items.len() == 0 {
        0
    } else {
        hard_tokens(items.drop_last()) + if items.last().priority == Priority::Hard {
            items.last().tokens
        } else {
            0
        }
    }
}

proof fn lemma_required(items: Seq<ItemView>)
    ensures
        required(items) == if hard_tokens(items) > usize::MAX {
            usize::MAX as nat
        } else {
            hard_tokens(items)
        },
    decreases items.len(),
{
    if items.len() > 0 {
        lemma_required(items.drop_last());
    }
}

/// A context whose hard items alone do not fit is refused, and no other is: hard
/// context is never dropped.
pub proof fn law_only_hard_context_overflows(
    items: Seq<ItemView>,
    max: nat,
    r: Result<CompiledContext, ContextError>,
)
    requires
        is_selection(items, max, r),
        max <= usize::MAX,
    ensures
        r is Err ==> hard_tokens(items) > max,
        hard_tokens(items) > max && max < usize::MAX ==> r is Err,
        r matches Err(ContextError::HardOverflow { max_tokens, .. }) ==> max_tokens == max,
{
    lemma_required(items);
}

/// What is kept is among the candidates, and stands in their order.
pub proof fn law_what_is_kept_is_in_order(items: Seq<ItemView>, keep: Seq<bool>)
    requires
        keep.len() >= items.len(),
    ensures
        exists|at: Seq<int>|
            #![trigger kept_at(items, keep, at)]
            kept_at(items, keep, at),
    decreases items.len(),
{
    if items.len() == 0 {
        assert(kept_at(items, keep, Seq::empty()));
    } else {
        let init = items.drop_last();
        law_what_is_kept_is_in_order(init, keep);
        let at = choose|at: Seq<int>| #![trigger kept_at(init, keep, at)] kept_at(init, keep, at);
        if keep[items.len() - 1] {
            let more = at.push(items.len() - 1);
            assert forall|k: int| 0 <= k < more.len() implies 0 <= #[trigger] more[k] < items.len()
                && keep[more[k]] && kept(items, keep)[k] == items[more[k]] by {
                if k < at.len() {
                    assert(more[k] == at[k]);
                    assert(kept(init, keep)[k] == init[at[k]]);
                }
            }
            assert forall|k: int, m: int| 0 <= k < m < more.len() implies #[trigger] more[k]
                < #[trigger] more[m] by {
                if m < at.len() {
                    assert(at[k] < at[m]);
                } else {
                    assert(0 <= at[k] < init.len());
                }
            }
            assert(kept_at(items, keep, more));
        } else {
            assert forall|k: int| 0 <= k < at.len() implies 0 <= #[trigger] at[k] < items.len()
                && keep[at[k]] && kept(items, keep)[k] == items[at[k]] by {
                assert(kept(init, keep)[k] == init[at[k]]);
            }
            assert(kept_at(items, keep, at));
        }
    }
}

/// Whether what is kept stands at these places among the items, in order.
pub open spec fn kept_at(items: Seq<ItemView>, keep: Seq<bool>, at: Seq<int>) -> bool {
    &&& at.len() == kept(items, keep).len()
    &&& forall|k: int|
        0 <= k < at.len() ==> 0 <= #[trigger] at[k] < items.len() && keep[at[k]] && kept(
            items,
            keep,
        )[k] == items[at[k]]
    &&& forall|k: int, m: int|
        0 <= k < m < at.len() ==> #[trigger] at[k] < #[trigger] at[m]
}

/// The model reads every item that was kept.
pub proof fn law_the_model_reads_what_was_kept(context: CompiledContext, i: int)
    requires
        0 <= i < context.items@.len(),
    ensures
        contains(context.rendered(), context.items@[i].content@),
{
    let parts = context.items@.map_values(|i: ContextItem| i.content@);
    law_a_joined_text_shows_its_parts(parts, "\n\n"@, i);
}

/// The number of bytes that are no ASCII characters.
pub open spec fn wide(bytes: Seq<u8>) -> nat
    decreases bytes.len(),
{
    if bytes.len() == 0 {
        0
    } else {
        wide(bytes.drop_last()) + if bytes.last() >= 128 {
            1nat
        } else {
            0
        }
    }
}

/// A text is estimated at a token for every four bytes, where a byte that is no
/// ASCII character counts twice, and at one token at the least.
pub proof fn law_tokens_are_a_quarter_of_the_bytes(s: Seq<char>)
    ensures
        tokens_of(s) >= 1,
        4 * tokens_of(s) >= encode_utf8(s).len() + wide(encode_utf8(s)),
        s.len() > 0 ==> 4 * (tokens_of(s) - 1) < encode_utf8(s).len() + wide(encode_utf8(s)) + 4,
        encode_utf8(s).len() + wide(encode_utf8(s)) > 0 ==> 4 * (tokens_of(s) - 1) < encode_utf8(
            s,
        ).len() + wide(encode_utf8(s)),
{
    lemma_weight(encode_utf8(s));
}

proof fn lemma_weight(bytes: Seq<u8>)
    ensures
        weight(bytes) == bytes.len() + wide(bytes),
    decreases bytes.len(),
{
    if bytes.len() > 0 {
        lemma_weight(bytes.drop_last());
    }
}

/// An item is estimated at the tokens of its content.
pub proof fn law_an_item_costs_its_content(
    source: ContextSource,
    priority: Priority,
    content: Seq<char>,
)
    ensures
        item_view(source, priority, content).content == content,
        item_view(source, priority, content).source == source,
        item_view(source, priority, content).priority == priority,
        item_view(source, priority, content).tokens == tokens_of(content),
{
}

} // verus!
