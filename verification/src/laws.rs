//! Laws of the reconciler, proved over the cycle fold of `reconcile`.
//!
//! The statements quantify over an arbitrary starting store, filter pattern,
//! snapshot and transport outcomes; the only restriction is that a snapshot
//! reports each item at most once, as the listing source keys listings by
//! item identity.

use vstd::prelude::*;

use crate::data::{ItemMessage, TGTGListing};
use crate::filter::accepts;
use crate::reconcile::{
    action_id, commit_spec, decide_spec, distinct_ids, issued_spec, outcome_ok_for,
    outcomes_match, run_spec, step_spec, visible_spec, ActionView, Outcome,
};

verus! {

/// Two stores that agree about one item: both know it or neither, and with
/// the same record.
pub open spec fn agree_at(
    s1: Map<Seq<char>, ItemMessage>,
    s2: Map<Seq<char>, ItemMessage>,
    k: Seq<char>,
) -> bool {
    &&& s1.dom().contains(k) == s2.dom().contains(k)
    &&& (s1.dom().contains(k) ==> s1[k] == s2[k])
}

/// The listing needs nothing done: the store already reflects it.
pub open spec fn settled(
    store: Map<Seq<char>, ItemMessage>,
    pattern: Option<Seq<char>>,
    l: TGTGListing,
) -> bool {
    decide_spec(store, pattern, l) is None
}

/// The actions among `s` that concern item `id`, in order.
pub open spec fn actions_for(s: Seq<ActionView>, id: Seq<char>) -> Seq<ActionView>
    decreases s.len(),
{
    if s.len() == 0 {
        Seq::empty()
    } else {
        let rest = actions_for(s.drop_first(), id);
        if action_id(s.first()) == id {
            seq![s.first()] + rest
        } else {
            rest
        }
    }
}

/// An action decided for a listing concerns that listing's item.
proof fn lemma_decide_id(
    store: Map<Seq<char>, ItemMessage>,
    pattern: Option<Seq<char>>,
    l: TGTGListing,
)
    ensures
        decide_spec(store, pattern, l) matches Some(a) ==> action_id(a) == l.id(),
{
}

/// Processing a listing leaves the store unchanged at every other item.
proof fn lemma_step_frame(
    store: Map<Seq<char>, ItemMessage>,
    pattern: Option<Seq<char>>,
    l: TGTGListing,
    o: Outcome,
    k: Seq<char>,
)
    requires
        k !== l.id(),
    ensures
        agree_at(step_spec(store, pattern, l, o), store, k),
{
}

/// What is decided for a listing depends on the store only at that listing's
/// item.
proof fn lemma_decide_local(
    s1: Map<Seq<char>, ItemMessage>,
    s2: Map<Seq<char>, ItemMessage>,
    pattern: Option<Seq<char>>,
    l: TGTGListing,
)
    requires
        agree_at(s1, s2, l.id()),
    ensures
        decide_spec(s1, pattern, l) == decide_spec(s2, pattern, l),
{
}

/// A whole cycle leaves the store unchanged at items its snapshot does not
/// report.
proof fn lemma_run_frame(
    store: Map<Seq<char>, ItemMessage>,
    pattern: Option<Seq<char>>,
    snapshot: Seq<TGTGListing>,
    outcomes: Seq<Outcome>,
    k: Seq<char>,
)
    requires
        forall|i: int| 0 <= i < snapshot.len() ==> (#[trigger] snapshot[i]).id() !== k,
    ensures
        agree_at(run_spec(store, pattern, snapshot, outcomes), store, k),
    decreases snapshot.len(),
{
    if snapshot.len() > 0 {
        lemma_step_frame(store, pattern, snapshot.first(), outcomes.first(), k);
        let store1 = step_spec(store, pattern, snapshot.first(), outcomes.first());
        assert(forall|i: int| 0 <= i < snapshot.drop_first().len()
            ==> (#[trigger] snapshot.drop_first()[i]).id() !== k);
        lemma_run_frame(store1, pattern, snapshot.drop_first(), outcomes.drop_first(), k);
    }
}

/// After a listing's action succeeds, the listing is settled.
proof fn lemma_step_settles(
    store: Map<Seq<char>, ItemMessage>,
    pattern: Option<Seq<char>>,
    l: TGTGListing,
    o: Outcome,
)
    requires
        match decide_spec(store, pattern, l) {
            None => true,
            Some(a) => outcome_ok_for(a, o),
        },
    ensures
        settled(step_spec(store, pattern, l, o), pattern, l),
{
}

/// After a cycle in which every issued action succeeded, every listing of the
/// snapshot is settled.
proof fn lemma_run_settles(
    store: Map<Seq<char>, ItemMessage>,
    pattern: Option<Seq<char>>,
    snapshot: Seq<TGTGListing>,
    outcomes: Seq<Outcome>,
)
    requires
        distinct_ids(snapshot),
        outcomes_match(store, pattern, snapshot, outcomes),
    ensures
        forall|i: int| 0 <= i < snapshot.len() ==> settled(
            run_spec(store, pattern, snapshot, outcomes),
            pattern,
            #[trigger] snapshot[i],
        ),
    decreases snapshot.len(),
{
    if snapshot.len() > 0 {
        let first = snapshot.first();
        let store1 = step_spec(store, pattern, first, outcomes.first());
        let rest = snapshot.drop_first();
        let rest_outcomes = outcomes.drop_first();
        let store_end = run_spec(store, pattern, snapshot, outcomes);
        assert(store_end == run_spec(store1, pattern, rest, rest_outcomes));

        lemma_step_settles(store, pattern, first, outcomes.first());
        assert(forall|i: int| 0 <= i < rest.len() ==> (#[trigger] rest[i]).id() !== first.id());
        lemma_run_frame(store1, pattern, rest, rest_outcomes, first.id());
        lemma_decide_local(store_end, store1, pattern, first);
        assert(settled(store_end, pattern, first));

        assert(distinct_ids(rest));
        lemma_run_settles(store1, pattern, rest, rest_outcomes);
        assert forall|i: int| 0 < i < snapshot.len() implies settled(
            store_end,
            pattern,
            #[trigger] snapshot[i],
        ) by {
            assert(rest[i - 1] == snapshot[i]);
        }
    }
}

/// A cycle over a snapshot that is already settled issues nothing and changes
/// nothing.
proof fn lemma_settled_run_is_noop(
    store: Map<Seq<char>, ItemMessage>,
    pattern: Option<Seq<char>>,
    snapshot: Seq<TGTGListing>,
    outcomes: Seq<Outcome>,
)
    requires
        forall|i: int| 0 <= i < snapshot.len() ==> settled(store, pattern, #[trigger] snapshot[i]),
    ensures
        issued_spec(store, pattern, snapshot, outcomes) == Seq::<ActionView>::empty(),
        run_spec(store, pattern, snapshot, outcomes) == store,
    decreases snapshot.len(),
{
    if snapshot.len() > 0 {
        assert(settled(store, pattern, snapshot.first()));
        assert(step_spec(store, pattern, snapshot.first(), outcomes.first()) == store);
        assert(forall|i: int| 0 <= i < snapshot.drop_first().len() ==> settled(
            store,
            pattern,
            #[trigger] snapshot.drop_first()[i],
        ));
        lemma_settled_run_is_noop(store, pattern, snapshot.drop_first(), outcomes.drop_first());
    }
}

/// Idempotence: a cycle in which every issued action succeeded brings the
/// store up to date, so an immediate second cycle over the same snapshot
/// issues no action at all — no duplicate posts, no redundant edits — and
/// leaves the store as it was, whatever the second cycle's outcomes would be.
pub proof fn lemma_reconcile_idempotent(
    store: Map<Seq<char>, ItemMessage>,
    pattern: Option<Seq<char>>,
    snapshot: Seq<TGTGListing>,
    outcomes: Seq<Outcome>,
    outcomes2: Seq<Outcome>,
)
    requires
        distinct_ids(snapshot),
        outcomes_match(store, pattern, snapshot, outcomes),
    ensures
        issued_spec(run_spec(store, pattern, snapshot, outcomes), pattern, snapshot, outcomes2)
            == Seq::<ActionView>::empty(),
        run_spec(run_spec(store, pattern, snapshot, outcomes), pattern, snapshot, outcomes2)
            == run_spec(store, pattern, snapshot, outcomes),
{
    lemma_run_settles(store, pattern, snapshot, outcomes);
    lemma_settled_run_is_noop(
        run_spec(store, pattern, snapshot, outcomes),
        pattern,
        snapshot,
        outcomes2,
    );
}

/// No cycle issues an action for an item its snapshot does not report.
proof fn lemma_absent_id_no_actions(
    store: Map<Seq<char>, ItemMessage>,
    pattern: Option<Seq<char>>,
    snapshot: Seq<TGTGListing>,
    outcomes: Seq<Outcome>,
    id: Seq<char>,
)
    requires
        forall|i: int| 0 <= i < snapshot.len() ==> (#[trigger] snapshot[i]).id() !== id,
    ensures
        actions_for(issued_spec(store, pattern, snapshot, outcomes), id)
            == Seq::<ActionView>::empty(),
    decreases snapshot.len(),
{
    if snapshot.len() > 0 {
        let first = snapshot.first();
        let store1 = step_spec(store, pattern, first, outcomes.first());
        let rest_issued = issued_spec(store1, pattern, snapshot.drop_first(), outcomes.drop_first());
        lemma_decide_id(store, pattern, first);
        assert(forall|i: int| 0 <= i < snapshot.drop_first().len()
            ==> (#[trigger] snapshot.drop_first()[i]).id() !== id);
        lemma_absent_id_no_actions(
            store1,
            pattern,
            snapshot.drop_first(),
            outcomes.drop_first(),
            id,
        );
        match decide_spec(store, pattern, first) {
            None => {},
            Some(a) => {
                let whole = seq![a] + rest_issued;
                assert(whole.drop_first() =~= rest_issued);
                assert(actions_for(whole, id) =~= actions_for(rest_issued, id));
            },
        }
    }
}

/// Filter exclusivity: if every listing reporting item `id` has a display
/// name the subscription's pattern does not match, no cycle ever issues any
/// action — post, edit or delete — for that item, whatever its quantity or
/// deadline.
pub proof fn lemma_filter_exclusive(
    store: Map<Seq<char>, ItemMessage>,
    pattern: Option<Seq<char>>,
    snapshot: Seq<TGTGListing>,
    outcomes: Seq<Outcome>,
    id: Seq<char>,
)
    requires
        forall|i: int| 0 <= i < snapshot.len() && (#[trigger] snapshot[i]).id() == id
            ==> !accepts(pattern, snapshot[i].display_name@),
    ensures
        actions_for(issued_spec(store, pattern, snapshot, outcomes), id)
            == Seq::<ActionView>::empty(),
    decreases snapshot.len(),
{
    if snapshot.len() > 0 {
        let first = snapshot.first();
        let store1 = step_spec(store, pattern, first, outcomes.first());
        let rest_issued = issued_spec(store1, pattern, snapshot.drop_first(), outcomes.drop_first());
        lemma_decide_id(store, pattern, first);
        assert(forall|i: int| 0 <= i < snapshot.drop_first().len()
            && (#[trigger] snapshot.drop_first()[i]).id() == id
            ==> !accepts(pattern, snapshot.drop_first()[i].display_name@));
        lemma_filter_exclusive(store1, pattern, snapshot.drop_first(), outcomes.drop_first(), id);
        match decide_spec(store, pattern, first) {
            None => {},
            Some(a) => {
                assert(action_id(a) !== id);
                let whole = seq![a] + rest_issued;
                assert(whole.drop_first() =~= rest_issued);
                assert(actions_for(whole, id) =~= actions_for(rest_issued, id));
            },
        }
    }
}

/// When a snapshot reports an item exactly once, the cycle's actions for that
/// item are exactly what was decided against the starting store.
proof fn lemma_single_id_actions(
    store: Map<Seq<char>, ItemMessage>,
    pattern: Option<Seq<char>>,
    snapshot: Seq<TGTGListing>,
    outcomes: Seq<Outcome>,
    i1: int,
)
    requires
        distinct_ids(snapshot),
        0 <= i1 < snapshot.len(),
    ensures
        actions_for(issued_spec(store, pattern, snapshot, outcomes), snapshot[i1].id())
            == match decide_spec(store, pattern, snapshot[i1]) {
            None => Seq::<ActionView>::empty(),
            Some(a) => seq![a],
        },
    decreases snapshot.len(),
{
    let id = snapshot[i1].id();
    let first = snapshot.first();
    let store1 = step_spec(store, pattern, first, outcomes.first());
    let rest = snapshot.drop_first();
    let rest_outcomes = outcomes.drop_first();
    let rest_issued = issued_spec(store1, pattern, rest, rest_outcomes);
    lemma_decide_id(store, pattern, first);
    if i1 == 0 {
        assert(forall|i: int| 0 <= i < rest.len() ==> (#[trigger] rest[i]).id() !== id);
        lemma_absent_id_no_actions(store1, pattern, rest, rest_outcomes, id);
        match decide_spec(store, pattern, first) {
            None => {},
            Some(a) => {
                let whole = seq![a] + rest_issued;
                assert(whole.drop_first() =~= rest_issued);
                assert(whole.first() == a);
                assert(actions_for(whole, id) =~= seq![a] + actions_for(rest_issued, id));
                assert(actions_for(whole, id) =~= seq![a]);
            },
        }
    } else {
        assert(first.id() !== id);
        assert(distinct_ids(rest));
        assert(rest[i1 - 1] == snapshot[i1]);
        lemma_single_id_actions(store1, pattern, rest, rest_outcomes, i1 - 1);
        lemma_step_frame(store, pattern, first, outcomes.first(), id);
        lemma_decide_local(store1, store, pattern, snapshot[i1]);
        match decide_spec(store, pattern, first) {
            None => {},
            Some(a) => {
                assert(action_id(a) !== id);
                let whole = seq![a] + rest_issued;
                assert(whole.drop_first() =~= rest_issued);
                assert(actions_for(whole, id) =~= actions_for(rest_issued, id));
            },
        }
    }
}

/// Update suppression: an item that a cycle first reports as available — a
/// deadline and a positive quantity, under a matching name — gets exactly one
/// post in that cycle; a following cycle reporting the same quantity for it
/// issues nothing for it, neither a post nor an edit.
pub proof fn lemma_update_suppression(
    store: Map<Seq<char>, ItemMessage>,
    pattern: Option<Seq<char>>,
    snap1: Seq<TGTGListing>,
    out1: Seq<Outcome>,
    snap2: Seq<TGTGListing>,
    out2: Seq<Outcome>,
    i1: int,
    i2: int,
)
    requires
        distinct_ids(snap1),
        distinct_ids(snap2),
        0 <= i1 < snap1.len(),
        0 <= i2 < snap2.len(),
        snap2[i2].id() == snap1[i1].id(),
        snap2[i2].items_available == snap1[i1].items_available,
        visible_spec(snap1[i1]),
        visible_spec(snap2[i2]),
        accepts(pattern, snap1[i1].display_name@),
        !store.dom().contains(snap1[i1].id()),
        outcomes_match(store, pattern, snap1, out1),
    ensures
        actions_for(issued_spec(store, pattern, snap1, out1), snap1[i1].id()) == seq![
            ActionView::Post { id: snap1[i1].id(), quantity: snap1[i1].items_available },
        ],
        actions_for(
            issued_spec(run_spec(store, pattern, snap1, out1), pattern, snap2, out2),
            snap1[i1].id(),
        ) == Seq::<ActionView>::empty(),
{
    let id = snap1[i1].id();
    let store1 = run_spec(store, pattern, snap1, out1);

    lemma_single_id_actions(store, pattern, snap1, out1, i1);
    assert(decide_spec(store, pattern, snap1[i1]) == Some(
        ActionView::Post { id: id, quantity: snap1[i1].items_available },
    ));

    lemma_run_settles(store, pattern, snap1, out1);
    assert(settled(store1, pattern, snap1[i1]));
    assert(store1.dom().contains(id) && store1[id].quantity == snap1[i1].items_available);

    lemma_single_id_actions(store1, pattern, snap2, out2, i2);
    assert(decide_spec(store1, pattern, snap2[i2]) is None);
}

/// No cross-subscription interference: each subscription's cycle reads and
/// writes its own store alone, so for two distinct channels the per-channel
/// results do not depend on the order in which their cycles land, and each
/// channel's actions are computed from its own store only.
pub proof fn lemma_no_cross_subscription_interference(
    stores: Map<u64, Map<Seq<char>, ItemMessage>>,
    c1: u64,
    c2: u64,
    pattern1: Option<Seq<char>>,
    pattern2: Option<Seq<char>>,
    snap1: Seq<TGTGListing>,
    out1: Seq<Outcome>,
    snap2: Seq<TGTGListing>,
    out2: Seq<Outcome>,
)
    requires
        c1 != c2,
        stores.dom().contains(c1),
        stores.dom().contains(c2),
    ensures
        stores.insert(c1, run_spec(stores[c1], pattern1, snap1, out1)).insert(
            c2,
            run_spec(stores[c2], pattern2, snap2, out2),
        ) == stores.insert(c2, run_spec(stores[c2], pattern2, snap2, out2)).insert(
            c1,
            run_spec(stores[c1], pattern1, snap1, out1),
        ),
        stores.insert(c2, run_spec(stores[c2], pattern2, snap2, out2))[c1] == stores[c1],
{
    let run1 = run_spec(stores[c1], pattern1, snap1, out1);
    let run2 = run_spec(stores[c2], pattern2, snap2, out2);
    assert(stores.insert(c1, run1).insert(c2, run2) =~= stores.insert(c2, run2).insert(c1, run1));
}

} // verus!
