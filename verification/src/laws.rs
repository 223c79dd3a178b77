//! Properties the library states of itself: classification totality, and the
//! mark discipline of the stack-main command batches.

use vstd::prelude::*;

use crate::cmd::{Action, Clause, Selector};
use crate::layout::StackLayout;
use crate::node::{classify, container_shape, dfs, Node, NodeKind};
use crate::stack_main::{
    is_main_swap_batch, is_new_third_batch, main_mark_text, on_close_matches,
    on_new_matches, rotate_shuffle_matches, rotate_swap_matches, stack_focus_matches,
    stack_mark_text, swap_main_matches,
};
verus! {

/// The one node shape that matches no classification: a (floating) container
/// kind that neither has the pure-container shape nor owns an application
/// process, or the legacy dock area kind.
pub open spec fn unclassifiable(n: Node) -> bool {
    match n.node_type {
        NodeKind::Con => !container_shape(n) && n.pid is None,
        NodeKind::FloatingCon => !container_shape(n) && n.pid is None,
        NodeKind::Dockarea => true,
        _ => false,
    }
}

/// Classifying a node is total except for the single invariant-violation
/// shape: every other node maps to exactly one refined type.
pub proof fn lemma_classification_total(n: Node)
    ensures
        (classify(n) is None) <==> unclassifiable(n),
{
}

/// Whether a clause adds the given mark.
pub open spec fn adds_mark(c: Clause, m: Seq<char>) -> bool {
    c.action matches Action::MarkAdd(mm) && mm@ == m
}

/// Whether a clause removes the given mark.
pub open spec fn unmarks_mark(c: Clause, m: Seq<char>) -> bool {
    c.action matches Action::Unmark(mm) && mm@ == m
}

/// Whether a clause touches the given mark at all.
pub open spec fn touches_mark(c: Clause, m: Seq<char>) -> bool {
    adds_mark(c, m) || unmarks_mark(c, m)
}

/// The set of node ids carrying mark `m` after a batch runs, starting from
/// the carriers `s`.  The model is conservative: an add puts the mark on the
/// selected node without assuming the compositor keeps marks unique; an
/// unmark addressed by the mark itself, or unaddressed, clears every
/// carrier.  A clause whose effect the model cannot name (an add without an
/// id selector, an unmark behind a foreign mark selector) yields `None`; the
/// batches this library emits contain no such clause.
pub open spec fn marked_after(b: Seq<Clause>, m: Seq<char>, s: Set<i64>) -> Option<Set<i64>>
    decreases b.len(),
{
    if b.len() == 0 {
        Some(s)
    } else {
        match marked_after(b.drop_last(), m, s) {
            None => None,
            Some(prev) => {
                let c = b.last();
                if unmarks_mark(c, m) {
                    match c.sel {
                        None => Some(Set::empty()),
                        Some(Selector::ConId(id)) => Some(prev.remove(id)),
                        Some(Selector::ConMark(mm)) => if mm@ == m {
                            Some(Set::<i64>::empty())
                        } else {
                            None
                        },
                    }
                } else if adds_mark(c, m) {
                    match c.sel {
                        Some(Selector::ConId(id)) => Some(prev.insert(id)),
                        _ => None,
                    }
                } else {
                    Some(prev)
                }
            },
        }
    }
}

/// A batch touching a mark nowhere leaves its carriers alone.
pub proof fn lemma_untouched_mark(b: Seq<Clause>, m: Seq<char>, s: Set<i64>)
    requires
        forall|i: int| 0 <= i < b.len() ==> !touches_mark(#[trigger] b[i], m),
    ensures
        marked_after(b, m, s) == Some(s),
    decreases b.len(),
{
    if b.len() > 0 {
        assert(forall|i: int|
            0 <= i < b.drop_last().len() ==> #[trigger] b.drop_last()[i] == b[i]);
        lemma_untouched_mark(b.drop_last(), m, s);
        assert(!touches_mark(b.last(), m));
    }
}

/// The main mark and a stack mark never collide: they differ in their second
/// character.
pub proof fn lemma_mark_texts_differ(a: int, b: int)
    ensures
        main_mark_text(a) != stack_mark_text(b),
{
    reveal_strlit("_main_");
    reveal_strlit("_stack_");
    assert(main_mark_text(a)[1] == 'm');
    assert(stack_mark_text(b)[1] == 's');
}

/// An insertion batch never touches a workspace's main mark: the only mark
/// it handles is the transient stack tag, whose text can never equal a main
/// mark.
pub proof fn lemma_on_new_keeps_main_mark(
    wst: Node,
    event_id: i64,
    size: u8,
    sl: StackLayout,
    b: Seq<Clause>,
    ws_id: i64,
    s: Set<i64>,
)
    requires
        on_new_matches(wst, event_id, size, sl, Ok(b)),
    ensures
        marked_after(b, main_mark_text(ws_id as int), s) == Some(s),
{
    let m = main_mark_text(ws_id as int);
    let k = wst.nodes@.len();
    if k == 3 {
        let stack = wst.nodes@[0];
        lemma_mark_texts_differ(ws_id as int, stack.id as int);
        assert(is_new_third_batch(b, stack.id, choose_main_id(wst, event_id), event_id)) by {
            assert(on_new_matches(wst, event_id, size, sl, Ok(b)));
        }
        assert(forall|i: int| 0 <= i < b.len() ==> !touches_mark(#[trigger] b[i], m));
    } else {
        assert(forall|i: int| 0 <= i < b.len() ==> !touches_mark(#[trigger] b[i], m));
    }
    lemma_untouched_mark(b, m, s);
}

/// The id of the main window an insertion at child count three picks.
pub open spec fn choose_main_id(wst: Node, event_id: i64) -> i64 {
    match crate::node::first_from(wst.nodes@, crate::stack_main::main_candidate(event_id), 1) {
        Some(mi) => wst.nodes@[mi].id,
        None => 0,
    }
}

/// An insertion at child count three removes its transient stack tag within
/// the same batch: the tag does not outlive the operation.  The tag is keyed
/// by the stack container's id; the hypothesis keeps it apart from a
/// workspace-keyed stack mark only when the ids differ, which unique node
/// ids guarantee.
pub proof fn lemma_transient_tag_cleared(
    wst: Node,
    event_id: i64,
    size: u8,
    sl: StackLayout,
    b: Seq<Clause>,
    s: Set<i64>,
)
    requires
        on_new_matches(wst, event_id, size, sl, Ok(b)),
        wst.nodes@.len() == 3,
    ensures
        marked_after(b, stack_mark_text(wst.nodes@[0].id as int), s) == Some(Set::<i64>::empty()),
{
    let stack = wst.nodes@[0];
    let m = stack_mark_text(stack.id as int);
    assert(is_new_third_batch(b, stack.id, choose_main_id(wst, event_id), event_id)) by {
        assert(on_new_matches(wst, event_id, size, sl, Ok(b)));
    }
    let b0 = b.subrange(0, 1);
    let b3 = b.subrange(0, 4);
    assert(b.subrange(0, 1).drop_last() =~= b.subrange(0, 0));
    assert(marked_after(b.subrange(0, 0), m, s) == Some(s));
    assert(marked_after(b0, m, s) == Some(s.insert(stack.id)));
    assert(b.subrange(0, 2).drop_last() =~= b0);
    assert(!touches_mark(b[1], m));
    assert(marked_after(b.subrange(0, 2), m, s) == Some(s.insert(stack.id)));
    assert(b.subrange(0, 3).drop_last() =~= b.subrange(0, 2));
    assert(!touches_mark(b[2], m));
    assert(marked_after(b.subrange(0, 3), m, s) == Some(s.insert(stack.id)));
    assert(b3.drop_last() =~= b.subrange(0, 3));
    assert(unmarks_mark(b[3], m));
    assert(marked_after(b3, m, s) == Some(Set::<i64>::empty()));
    assert(b.subrange(0, 5).drop_last() =~= b3);
    assert(!touches_mark(b[4], m));
    assert(marked_after(b.subrange(0, 5), m, s) == Some(Set::<i64>::empty()));
    assert(b.subrange(0, 6).drop_last() =~= b.subrange(0, 5));
    assert(!touches_mark(b[5], m));
    assert(marked_after(b.subrange(0, 6), m, s) == Some(Set::<i64>::empty()));
    assert(b.subrange(0, 7).drop_last() =~= b.subrange(0, 6));
    assert(!touches_mark(b[6], m));
    assert(marked_after(b.subrange(0, 7), m, s) == Some(Set::<i64>::empty()));
    assert(b.subrange(0, 7) =~= b);
}

/// A close batch carries no mark clause at all: every mark's carriers stay.
pub proof fn lemma_on_close_keeps_marks(
    wst: Node,
    event_id: i64,
    size: u8,
    b: Seq<Clause>,
    m: Seq<char>,
    s: Set<i64>,
)
    requires
        on_close_matches(wst, event_id, size, Ok(b)),
    ensures
        marked_after(b, m, s) == Some(s),
{
    assert(forall|i: int| 0 <= i < b.len() ==> !touches_mark(#[trigger] b[i], m));
    lemma_untouched_mark(b, m, s);
}

/// A focus-cycling batch only focuses: every mark's carriers stay.
pub proof fn lemma_stack_focus_keeps_marks(
    wst: Node,
    ws_id: i64,
    reverse: bool,
    b: Seq<Clause>,
    m: Seq<char>,
    s: Set<i64>,
)
    requires
        stack_focus_matches(wst, ws_id, reverse, Ok(b)),
    ensures
        marked_after(b, m, s) == Some(s),
{
    assert(forall|i: int| 0 <= i < b.len() ==> !touches_mark(#[trigger] b[i], m));
    lemma_untouched_mark(b, m, s);
}

/// A swap batch reassigns the main mark to exactly the swapped-in node: it
/// clears every carrier, then marks one.
pub proof fn lemma_main_swap_batch_reassigns(
    b: Seq<Clause>,
    main_id: i64,
    new_id: i64,
    ws_id: i64,
    s: Set<i64>,
)
    requires
        is_main_swap_batch(b, main_id, new_id, ws_id),
    ensures
        marked_after(b, main_mark_text(ws_id as int), s) == Some(Set::<i64>::empty().insert(new_id)),
{
    let m = main_mark_text(ws_id as int);
    assert(b.subrange(0, 1).drop_last() =~= b.subrange(0, 0));
    assert(marked_after(b.subrange(0, 0), m, s) == Some(s));
    assert(!touches_mark(b[0], m));
    assert(marked_after(b.subrange(0, 1), m, s) == Some(s));
    assert(b.subrange(0, 2).drop_last() =~= b.subrange(0, 1));
    assert(!touches_mark(b[1], m));
    assert(marked_after(b.subrange(0, 2), m, s) == Some(s));
    assert(b.subrange(0, 3).drop_last() =~= b.subrange(0, 2));
    assert(!touches_mark(b[2], m));
    assert(marked_after(b.subrange(0, 3), m, s) == Some(s));
    assert(b.subrange(0, 4).drop_last() =~= b.subrange(0, 3));
    assert(unmarks_mark(b[3], m));
    assert(marked_after(b.subrange(0, 4), m, s) == Some(Set::<i64>::empty()));
    assert(b.subrange(0, 5).drop_last() =~= b.subrange(0, 4));
    assert(adds_mark(b[4], m));
    assert(marked_after(b.subrange(0, 5), m, s) == Some(Set::<i64>::empty().insert(new_id)));
    assert(b.subrange(0, 5) =~= b);
}

/// After the swap-main operation at most one node carries the main mark,
/// whatever carried it before.
pub proof fn lemma_swap_main_mark_at_most_one(wst: Node, ws_id: i64, b: Seq<Clause>, s: Set<i64>)
    requires
        swap_main_matches(wst, ws_id, Ok(b)),
        s.finite(),
        s.len() <= 1,
    ensures
        marked_after(b, main_mark_text(ws_id as int), s) matches Some(after) && after.finite()
            && after.len() <= 1,
{
    let m = main_mark_text(ws_id as int);
    let sm = stack_mark_text(ws_id as int);
    if forall|i: int| !(#[trigger] crate::node::found_mark(dfs(wst), sm, i)) {
        lemma_untouched_mark(b, m, s);
    } else {
        let stack = choose|stack: Node|
            #[trigger] crate::node::is_first_mark_match(dfs(wst), sm, stack) && (
            if stack.nodes@.len() == 0 {
                Ok::<Seq<Clause>, crate::node::TreeError>(b) == Ok::<
                    Seq<Clause>,
                    crate::node::TreeError,
                >(Seq::<Clause>::empty())
            } else if wst.nodes@.len() == 0 {
                false
            } else if forall|i: int|
                !(#[trigger] crate::node::found_visible_window(dfs(stack), i)) {
                false
            } else {
                exists|sv: Node|
                    #[trigger] crate::node::is_first_visible_window(dfs(stack), sv) && (
                    is_main_swap_batch(b, wst.nodes@.last().id, sv.id, ws_id))
            });
        if stack.nodes@.len() == 0 {
            lemma_untouched_mark(b, m, s);
        } else {
            let sv = choose|sv: Node|
                #[trigger] crate::node::is_first_visible_window(dfs(stack), sv) && (
                is_main_swap_batch(b, wst.nodes@.last().id, sv.id, ws_id));
            lemma_main_swap_batch_reassigns(b, wst.nodes@.last().id, sv.id, ws_id, s);
            assert(Set::<i64>::empty().insert(sv.id).len() == 1);
        }
    }
}

/// After the rotation's second step at most one node carries the main mark.
pub proof fn lemma_rotate_promote_mark_at_most_one(
    wst: Node,
    ws_id: i64,
    b: Seq<Clause>,
    s: Set<i64>,
)
    requires
        rotate_swap_matches(wst, ws_id, Ok(b)),
        s.finite(),
        s.len() <= 1,
    ensures
        marked_after(b, main_mark_text(ws_id as int), s) matches Some(after) && after.finite()
            && after.len() <= 1,
{
    let m = main_mark_text(ws_id as int);
    let stack = wst.nodes@[0];
    let sf = choose|sf: Node|
        #[trigger] crate::node::is_last_window(dfs(stack), sf) && (is_main_swap_batch(
            b,
            wst.nodes@.last().id,
            sf.id,
            ws_id,
        ));
    lemma_main_swap_batch_reassigns(b, wst.nodes@.last().id, sf.id, ws_id, s);
    assert(Set::<i64>::empty().insert(sf.id).len() == 1);
}

/// The rotation's first step only focuses and swaps containers: every mark's
/// carriers stay.
pub proof fn lemma_rotate_shuffle_keeps_marks(
    wst: Node,
    ws_id: i64,
    b: Seq<Clause>,
    m: Seq<char>,
    s: Set<i64>,
)
    requires
        rotate_shuffle_matches(wst, ws_id, Ok(b)),
    ensures
        marked_after(b, m, s) == Some(s),
{
    let sm = stack_mark_text(ws_id as int);
    if forall|i: int| !(#[trigger] crate::node::found_mark(dfs(wst), sm, i)) {
        lemma_untouched_mark(b, m, s);
    } else {
        let stack = choose|stack: Node|
            #[trigger] crate::node::is_first_mark_match(dfs(wst), sm, stack) && (
            if stack.nodes@.len() == 0 {
                Ok::<Seq<Clause>, crate::node::TreeError>(b) == Ok::<
                    Seq<Clause>,
                    crate::node::TreeError,
                >(Seq::<Clause>::empty())
            } else {
                crate::stack_main::is_rotate_shuffle_batch(
                    b,
                    crate::node::windows_of(stack),
                    stack.nodes@.last().id,
                    ws_id,
                )
            });
        if stack.nodes@.len() == 0 {
            lemma_untouched_mark(b, m, s);
        } else {
            let leaves = crate::node::windows_of(stack);
            let pairs: int = if leaves.len() == 0 {
                0
            } else {
                2 * (leaves.len() - 1)
            };
            assert forall|i: int| 0 <= i < b.len() implies !touches_mark(#[trigger] b[i], m) by {
                if i < pairs {
                    let k = i / 2;
                    assert(0 <= k < leaves.len() - 1) by (nonlinear_arith)
                        requires
                            0 <= i < pairs,
                            pairs == 2 * (leaves.len() - 1),
                            k == i / 2,
                    ;
                    assert(crate::stack_main::rotate_pair_ok(b, leaves, k));
                    assert(i == 2 * k || i == 2 * k + 1) by (nonlinear_arith)
                        requires
                            k == i / 2,
                            0 <= i,
                    ;
                }
            }
            lemma_untouched_mark(b, m, s);
        }
    }
}

} // verus!
