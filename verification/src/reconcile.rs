//! The reconciler: diffing one fetched snapshot against the notification
//! store.
//!
//! For each listing of a snapshot, `decide` produces at most one action —
//! post a new notification, edit the shown quantity, or delete the
//! notification — and `commit` folds the transport outcome of that action
//! back into the store. A record changes only when its transport call
//! succeeded, and one listing's failure never disturbs the others: the next
//! cycle retries.
//!
//! `run_spec` and `issued_spec` describe a whole cycle — the final store and
//! the actions issued — as a fold of `decide` and `commit` over the snapshot.
//! The calling loop performs one transport call per issued action and is
//! otherwise decision-free.

use vstd::prelude::*;

use crate::data::{ItemMessage, TGTGListing};
use crate::filter::{accepts, filter_accepts, pattern_of, CompiledPattern};
use crate::store::NotificationStore;

verus! {

/// Availability classifier: a listing warrants a visible notification exactly
/// when it carries a purchase deadline and has quantity available. Only the
/// deadline's presence counts, not its value — the observed upstream behavior,
/// kept deliberately (see the crate documentation).
pub open spec fn visible_spec(l: TGTGListing) -> bool {
    l.purchase_end is Some && l.items_available > 0
}

/// Whether `l` should currently be represented by a notification.
pub fn is_visible(l: &TGTGListing) -> (r: bool)
    ensures
        r == visible_spec(*l),
{
    l.purchase_end.is_some() && l.items_available > 0
}

/// One transport action the reconciler asks for.
pub enum Action {
    /// Post a new notification for the item.
    Post { item_id: String, quantity: usize },
    /// Edit the item's notification to show a new quantity.
    Edit { message_id: u64, item_id: String, quantity: usize },
    /// Delete the item's notification.
    Delete { message_id: u64, item_id: String },
}

/// Mathematical shape of an `Action`.
pub enum ActionView {
    Post { id: Seq<char>, quantity: usize },
    Edit { message_id: u64, id: Seq<char>, quantity: usize },
    Delete { message_id: u64, id: Seq<char> },
}

impl View for Action {
    type V = ActionView;

    open spec fn view(&self) -> ActionView {
        match self {
            Action::Post { item_id, quantity } => ActionView::Post {
                id: item_id@,
                quantity: *quantity,
            },
            Action::Edit { message_id, item_id, quantity } => ActionView::Edit {
                message_id: *message_id,
                id: item_id@,
                quantity: *quantity,
            },
            Action::Delete { message_id, item_id } => ActionView::Delete {
                message_id: *message_id,
                id: item_id@,
            },
        }
    }
}

/// The item identity an action concerns.
pub open spec fn action_id(a: ActionView) -> Seq<char> {
    match a {
        ActionView::Post { id, .. } => id,
        ActionView::Edit { id, .. } => id,
        ActionView::Delete { id, .. } => id,
    }
}

/// How the transport answered one action.
#[derive(Clone, Copy, PartialEq, Eq, Structural, Debug)]
pub enum Outcome {
    /// A post succeeded and produced this message.
    Posted { message_id: u64 },
    /// An edit succeeded.
    Edited,
    /// A delete succeeded.
    Deleted,
    /// The call failed; nothing may change.
    Failed,
}

/// The view of an optional action.
pub open spec fn opt_action_view(r: Option<Action>) -> Option<ActionView> {
    match r {
        None => None,
        Some(a) => Some(a@),
    }
}

/// What the reconciler does with one listing, given the store at that moment:
/// nothing for a filtered-out listing; for a visible one, post when no record
/// exists and edit when the recorded quantity went stale; for an invisible
/// one, delete whatever record exists.
pub open spec fn decide_spec(
    store: Map<Seq<char>, ItemMessage>,
    pattern: Option<Seq<char>>,
    l: TGTGListing,
) -> Option<ActionView> {
    if !accepts(pattern, l.display_name@) {
        None
    } else if visible_spec(l) {
        if !store.dom().contains(l.id()) {
            Some(ActionView::Post { id: l.id(), quantity: l.items_available })
        } else if store[l.id()].quantity != l.items_available {
            Some(
                ActionView::Edit {
                    message_id: store[l.id()].message_id,
                    id: l.id(),
                    quantity: l.items_available,
                },
            )
        } else {
            None
        }
    } else {
        if store.dom().contains(l.id()) {
            Some(ActionView::Delete { message_id: store[l.id()].message_id, id: l.id() })
        } else {
            None
        }
    }
}

/// Decide the action for one listing.
pub fn decide(store: &NotificationStore, filter: &Option<CompiledPattern>, l: &TGTGListing) -> (r:
    Option<Action>)
    requires
        store.wf(),
    ensures
        opt_action_view(r) == decide_spec(store@, pattern_of(*filter), *l),
{
    if !filter_accepts(filter, l.display_name.as_str()) {
        return None;
    }
    let existing = store.get(&l.item.item_id);
    if is_visible(l) {
        match existing {
            None => Some(
                Action::Post { item_id: l.item.item_id.clone(), quantity: l.items_available },
            ),
            Some(m) => {
                if m.quantity != l.items_available {
                    Some(
                        Action::Edit {
                            message_id: m.message_id,
                            item_id: l.item.item_id.clone(),
                            quantity: l.items_available,
                        },
                    )
                } else {
                    None
                }
            },
        }
    } else {
        match existing {
            Some(m) => Some(
                Action::Delete { message_id: m.message_id, item_id: l.item.item_id.clone() },
            ),
            None => None,
        }
    }
}

/// How the store changes when an action's outcome comes back: a successful
/// post or edit records the shown quantity under the posted message, a
/// successful delete erases the record, and anything else — a failure, or an
/// answer of the wrong kind — leaves the store as it was.
pub open spec fn commit_spec(
    store: Map<Seq<char>, ItemMessage>,
    a: ActionView,
    o: Outcome,
) -> Map<Seq<char>, ItemMessage> {
    match (a, o) {
        (ActionView::Post { id, quantity }, Outcome::Posted { message_id }) => store.insert(
            id,
            ItemMessage { message_id, quantity },
        ),
        (ActionView::Edit { message_id, id, quantity }, Outcome::Edited) => store.insert(
            id,
            ItemMessage { message_id, quantity },
        ),
        (ActionView::Delete { message_id: _, id }, Outcome::Deleted) => store.remove(id),
        _ => store,
    }
}

/// Fold an action's outcome into the store.
pub fn commit(store: &mut NotificationStore, a: &Action, o: &Outcome)
    requires
        old(store).wf(),
    ensures
        final(store).wf(),
        final(store)@ == commit_spec(old(store)@, a@, *o),
{
    match (a, o) {
        (Action::Post { item_id, quantity }, Outcome::Posted { message_id }) => {
            store.put(
                item_id.clone(),
                ItemMessage { message_id: *message_id, quantity: *quantity },
            );
        },
        (Action::Edit { message_id, item_id, quantity }, Outcome::Edited) => {
            store.put(
                item_id.clone(),
                ItemMessage { message_id: *message_id, quantity: *quantity },
            );
        },
        (Action::Delete { message_id: _, item_id }, Outcome::Deleted) => {
            store.remove(item_id);
        },
        _ => {},
    }
}

/// The store after one listing is processed and its outcome (if an action was
/// issued) folded in.
pub open spec fn step_spec(
    store: Map<Seq<char>, ItemMessage>,
    pattern: Option<Seq<char>>,
    l: TGTGListing,
    o: Outcome,
) -> Map<Seq<char>, ItemMessage> {
    match decide_spec(store, pattern, l) {
        None => store,
        Some(a) => commit_spec(store, a, o),
    }
}

/// The store after one full cycle over `snapshot`, with `outcomes[i]`
/// answering whatever action listing `i` produced.
pub open spec fn run_spec(
    store: Map<Seq<char>, ItemMessage>,
    pattern: Option<Seq<char>>,
    snapshot: Seq<TGTGListing>,
    outcomes: Seq<Outcome>,
) -> Map<Seq<char>, ItemMessage>
    decreases snapshot.len(),
{
    if snapshot.len() == 0 {
        store
    } else {
        run_spec(
            step_spec(store, pattern, snapshot.first(), outcomes.first()),
            pattern,
            snapshot.drop_first(),
            outcomes.drop_first(),
        )
    }
}

/// The actions one full cycle issues, in snapshot order.
pub open spec fn issued_spec(
    store: Map<Seq<char>, ItemMessage>,
    pattern: Option<Seq<char>>,
    snapshot: Seq<TGTGListing>,
    outcomes: Seq<Outcome>,
) -> Seq<ActionView>
    decreases snapshot.len(),
{
    if snapshot.len() == 0 {
        Seq::empty()
    } else {
        let rest = issued_spec(
            step_spec(store, pattern, snapshot.first(), outcomes.first()),
            pattern,
            snapshot.drop_first(),
            outcomes.drop_first(),
        );
        match decide_spec(store, pattern, snapshot.first()) {
            None => rest,
            Some(a) => seq![a] + rest,
        }
    }
}

/// Whether `o` is the success answer for `a`.
pub open spec fn outcome_ok_for(a: ActionView, o: Outcome) -> bool {
    match a {
        ActionView::Post { .. } => o is Posted,
        ActionView::Edit { .. } => o == Outcome::Edited,
        ActionView::Delete { .. } => o == Outcome::Deleted,
    }
}

/// Whether every action the cycle issues is answered with success.
pub open spec fn outcomes_match(
    store: Map<Seq<char>, ItemMessage>,
    pattern: Option<Seq<char>>,
    snapshot: Seq<TGTGListing>,
    outcomes: Seq<Outcome>,
) -> bool
    decreases snapshot.len(),
{
    if snapshot.len() == 0 {
        true
    } else {
        let ok = match decide_spec(store, pattern, snapshot.first()) {
            None => true,
            Some(a) => outcome_ok_for(a, outcomes.first()),
        };
        ok && outcomes_match(
            step_spec(store, pattern, snapshot.first(), outcomes.first()),
            pattern,
            snapshot.drop_first(),
            outcomes.drop_first(),
        )
    }
}

/// No two listings of the snapshot report the same item.
pub open spec fn distinct_ids(snapshot: Seq<TGTGListing>) -> bool {
    forall|i: int, j: int| 0 <= i < j < snapshot.len() ==> snapshot[i].id() !== snapshot[j].id()
}

} // verus!
