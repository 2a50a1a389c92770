//! Back/forward history of jumps, kept as two bounded stacks.

use vstd::prelude::*;
use crate::geometry::ViewportOffset;

verus! {

/// The most entries either stack keeps; older entries are dropped first.
pub const JUMP_HISTORY_CAPACITY: usize = 128;

/// A place in a document that a jump can return to.
#[derive(Debug, Clone, Copy, PartialEq, Eq, Structural)]
pub struct DocumentPosition {
    pub page: usize,
    pub scale: u32,
    pub viewport: ViewportOffset,
}

/// The last `JUMP_HISTORY_CAPACITY` entries of `stack`.
pub open spec fn bounded(stack: Seq<DocumentPosition>) -> Seq<DocumentPosition> {
    if stack.len() > JUMP_HISTORY_CAPACITY {
        stack.subrange(stack.len() - JUMP_HISTORY_CAPACITY, stack.len() as int)
    } else {
        stack
    }
}

/// `stack` after pushing `position`: unchanged when `position` is already
/// on top, else one longer and cut back to the capacity.
pub open spec fn pushed(stack: Seq<DocumentPosition>, position: DocumentPosition) -> Seq<
    DocumentPosition,
> {
    if stack.len() > 0 && stack.last() == position {
        stack
    } else {
        bounded(stack.push(position))
    }
}

/// `stack` without the run of entries equal to `current` at its top.
pub open spec fn without_top_run(stack: Seq<DocumentPosition>, current: DocumentPosition) -> Seq<
    DocumentPosition,
>
    decreases stack.len(),
{
    if stack.len() > 0 && stack.last() == current {
        without_top_run(stack.drop_last(), current)
    } else {
        stack
    }
}

/// What a `JumpHistory` holds: both stacks, top last, and the position it
/// last heard of.
pub struct JumpHistoryView {
    pub back: Seq<DocumentPosition>,
    pub forward: Seq<DocumentPosition>,
    pub last_known: Option<DocumentPosition>,
}

impl JumpHistoryView {
    /// The history after a navigation from `from` to `to`.
    pub open spec fn record_navigation(self, from: DocumentPosition, to: DocumentPosition) -> Self {
        if from == to {
            self
        } else {
            JumpHistoryView {
                back: pushed(self.back, from),
                forward: Seq::empty(),
                last_known: Some(to),
            }
        }
    }

    /// The history after a jump back from `current`, and where the jump lands.
    pub open spec fn jump_backward(self, current: DocumentPosition) -> (Self, Option<
        DocumentPosition,
    >) {
        let rest = without_top_run(self.back, current);
        if rest.len() == 0 {
            (JumpHistoryView { back: rest, ..self }, None)
        } else {
            (
                JumpHistoryView {
                    back: rest.drop_last(),
                    forward: pushed(self.forward, current),
                    last_known: Some(rest.last()),
                },
                Some(rest.last()),
            )
        }
    }

    /// The history after a jump forward from `current`, and where the jump lands.
    pub open spec fn jump_forward(self, current: DocumentPosition) -> (Self, Option<
        DocumentPosition,
    >) {
        let rest = without_top_run(self.forward, current);
        if rest.len() == 0 {
            (JumpHistoryView { forward: rest, ..self }, None)
        } else {
            (
                JumpHistoryView {
                    back: pushed(self.back, current),
                    forward: rest.drop_last(),
                    last_known: Some(rest.last()),
                },
                Some(rest.last()),
            )
        }
    }
}

/// Whatever is pushed ends up on top.
pub proof fn lemma_pushed_top(stack: Seq<DocumentPosition>, position: DocumentPosition)
    ensures
        pushed(stack, position).len() > 0,
        pushed(stack, position).last() == position,
        stack.len() <= JUMP_HISTORY_CAPACITY ==> pushed(stack, position).len()
            <= JUMP_HISTORY_CAPACITY,
{
}

/// The top of a stack that has lost its run of `current` is not `current`.
pub proof fn lemma_without_top_run(stack: Seq<DocumentPosition>, current: DocumentPosition)
    ensures
        without_top_run(stack, current).len() <= stack.len(),
        without_top_run(stack, current).len() > 0 ==> without_top_run(stack, current).last()
            != current,
    decreases stack.len(),
{
    if stack.len() > 0 && stack.last() == current {
        lemma_without_top_run(stack.drop_last(), current);
    }
}

/// A jump back that lands somewhere can be undone at once: jumping
/// forward from where it landed returns the position it started from.
pub proof fn lemma_backward_then_forward(history: JumpHistoryView, current: DocumentPosition)
    requires
        history.jump_backward(current).1 is Some,
    ensures
        ({
            let (after, landed) = history.jump_backward(current);
            after.jump_forward(landed->0).1 == Some(current)
        }),
{
    let (after, landed) = history.jump_backward(current);
    let target = landed->0;
    lemma_without_top_run(history.back, current);
    lemma_pushed_top(history.forward, current);
    assert(target != current);
    assert(without_top_run(after.forward, target) == after.forward);
}

/// A jump forward that lands somewhere can be undone at once: jumping
/// back from where it landed returns the position it started from.
pub proof fn lemma_forward_then_backward(history: JumpHistoryView, current: DocumentPosition)
    requires
        history.jump_forward(current).1 is Some,
    ensures
        ({
            let (after, landed) = history.jump_forward(current);
            after.jump_backward(landed->0).1 == Some(current)
        }),
{
    let (after, landed) = history.jump_forward(current);
    let target = landed->0;
    lemma_without_top_run(history.forward, current);
    lemma_pushed_top(history.back, current);
    assert(target != current);
    assert(without_top_run(after.back, target) == after.back);
}

/// Pushes `position` unless it is already on top, then drops the oldest
/// entries beyond the capacity.
fn push_bounded(stack: &mut Vec<DocumentPosition>, position: DocumentPosition)
    ensures
        final(stack)@ == pushed(old(stack)@, position),
{
    let len: usize = stack.len();
    if len > 0 && stack[len - 1] == position {
        return ;
    }
    stack.push(position);
    let ghost full = stack@;
    while stack.len() > JUMP_HISTORY_CAPACITY
        invariant
            stack.len() <= full.len(),
            stack.len() >= JUMP_HISTORY_CAPACITY || stack.len() == full.len(),
            stack@ == full.subrange(full.len() - stack.len(), full.len() as int),
        decreases stack.len(),
    {
        stack.remove(0);
        assert(stack@ =~= full.subrange(full.len() - stack.len(), full.len() as int));
    }
    assert(stack@ =~= bounded(full));
}

/// Pops entries equal to `current` off `stack`, then one more, which it returns.
fn pop_distinct(stack: &mut Vec<DocumentPosition>, current: DocumentPosition) -> (r: Option<
    DocumentPosition,
>)
    ensures
        ({
            let rest = without_top_run(old(stack)@, current);
            if rest.len() == 0 {
                r is None && final(stack)@ == rest
            } else {
                r == Some(rest.last()) && final(stack)@ == rest.drop_last()
            }
        }),
{
    loop
        invariant
            without_top_run(stack@, current) == without_top_run(old(stack)@, current),
        decreases stack.len(),
    {
        match stack.pop() {
            Some(target) => {
                if target == current {
                    continue ;
                }
                return Some(target);
            },
            None => {
                return None;
            },
        }
    }
}

/// Browser-style history of the positions a reader jumped away from.
#[derive(Debug)]
pub struct JumpHistory {
    back_stack: Vec<DocumentPosition>,
    forward_stack: Vec<DocumentPosition>,
    last_known: Option<DocumentPosition>,
}

impl View for JumpHistory {
    type V = JumpHistoryView;

    closed spec fn view(&self) -> JumpHistoryView {
        JumpHistoryView {
            back: self.back_stack@,
            forward: self.forward_stack@,
            last_known: self.last_known,
        }
    }
}

impl Default for JumpHistory {
    fn default() -> (r: Self)
        ensures
            r@.back.len() == 0,
            r@.forward.len() == 0,
            r@.last_known is None,
    {
        JumpHistory { back_stack: Vec::new(), forward_stack: Vec::new(), last_known: None }
    }
}

impl JumpHistory {
    /// An empty history.
    pub fn new() -> (r: Self)
        ensures
            r@.back.len() == 0,
            r@.forward.len() == 0,
            r@.last_known is None,
    {
        JumpHistory { back_stack: Vec::new(), forward_stack: Vec::new(), last_known: None }
    }

    /// Notes where the document was opened; neither stack changes.
    pub fn record_initial(&mut self, position: DocumentPosition)
        ensures
            final(self)@ == (JumpHistoryView { last_known: Some(position), ..old(self)@ }),
    {
        self.last_known = Some(position);
    }

    /// Records a jump from `from` to `to`: `from` goes on the back stack
    /// and the forward stack is emptied. A move that stays in place
    /// records nothing.
    pub fn record_navigation(&mut self, from: DocumentPosition, to: DocumentPosition)
        ensures
            final(self)@ == old(self)@.record_navigation(from, to),
    {
        if from == to {
            return ;
        }
        push_bounded(&mut self.back_stack, from);
        self.forward_stack.clear();
        self.last_known = Some(to);
        assert(self.forward_stack@ =~= Seq::empty());
    }

    /// Notes an in-place change of position; neither stack changes.
    pub fn record_current(&mut self, position: DocumentPosition)
        ensures
            final(self)@ == (JumpHistoryView { last_known: Some(position), ..old(self)@ }),
    {
        self.last_known = Some(position);
    }

    /// Steps back to the newest recorded position that differs from
    /// `current`, and puts `current` on the forward stack.
    pub fn jump_backward(&mut self, current: DocumentPosition) -> (r: Option<DocumentPosition>)
        ensures
            final(self)@ == old(self)@.jump_backward(current).0,
            r == old(self)@.jump_backward(current).1,
    {
        match pop_distinct(&mut self.back_stack, current) {
            Some(target) => {
                push_bounded(&mut self.forward_stack, current);
                self.last_known = Some(target);
                Some(target)
            },
            None => None,
        }
    }

    /// Steps forward to the newest undone position that differs from
    /// `current`, and puts `current` on the back stack.
    pub fn jump_forward(&mut self, current: DocumentPosition) -> (r: Option<DocumentPosition>)
        ensures
            final(self)@ == old(self)@.jump_forward(current).0,
            r == old(self)@.jump_forward(current).1,
    {
        match pop_distinct(&mut self.forward_stack, current) {
            Some(target) => {
                push_bounded(&mut self.back_stack, current);
                self.last_known = Some(target);
                Some(target)
            },
            None => None,
        }
    }

    /// The position the history last heard of.
    pub fn last_known(&self) -> (r: Option<DocumentPosition>)
        ensures
            r == self@.last_known,
    {
        self.last_known
    }

    /// How many positions a jump back can still reach.
    pub fn back_len(&self) -> (r: usize)
        ensures
            r == self@.back.len(),
    {
        self.back_stack.len()
    }

    /// How many positions a jump forward can still reach.
    pub fn forward_len(&self) -> (r: usize)
        ensures
            r == self@.forward.len(),
    {
        self.forward_stack.len()
    }
}

} // verus!
