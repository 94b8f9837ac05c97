//! The frames of function identifiers that evaluation has entered.
use vstd::prelude::*;

use crate::cfgbuilder::Identifier;

verus! {

/// The stack of frames, innermost last.
pub struct Stack {
    data: Vec<Identifier>,
}

impl View for Stack {
    type V = Seq<Identifier>;

    closed spec fn view(&self) -> Seq<Identifier> {
        self.data@
    }
}

impl Stack {
    /// An empty stack.
    pub fn new() -> (r: Stack)
        ensures
            r@ == Seq::<Identifier>::empty(),
    {
        Stack { data: Vec::new() }
    }

    /// The current frame: the last pushed that is still there.
    pub fn get_current_frame(&self) -> (r: Option<Identifier>)
        ensures
            r == if self@.len() == 0 {
                None::<Identifier>
            } else {
                Some(self@.last())
            },
    {
        if self.data.len() == 0 {
            None
        } else {
            Some(self.data[self.data.len() - 1])
        }
    }

    /// Adds a frame to the stack.
    pub fn push_frame(&mut self, id: Identifier)
        ensures
            final(self)@ == old(self)@.push(id),
    {
        self.data.push(id);
    }

    /// Removes the current frame, if there is one.
    pub fn pop_frame(&mut self)
        ensures
            final(self)@ == if old(self)@.len() == 0 {
                old(self)@
            } else {
                old(self)@.drop_last()
            },
    {
        self.data.pop();
    }
}

/// Pushing a frame and popping it restores the stack.
pub proof fn lemma_push_then_pop(s: Seq<Identifier>, id: Identifier)
    ensures
        s.push(id).drop_last() == s,
        s.push(id).last() == id,
{
    assert(s.push(id).drop_last() =~= s);
}

/// The frames after `ops` starting from `s`: `Some(id)` pushes `id`, `None`
/// pops the current frame where there is one, as `push_frame` and
/// `pop_frame` do.
pub open spec fn run_frames(s: Seq<Identifier>, ops: Seq<Option<Identifier>>) -> Seq<Identifier>
    decreases ops.len(),
{
    if ops.len() == 0 {
        s
    } else {
        let t = run_frames(s, ops.drop_last());
        match ops.last() {
            Some(id) => t.push(id),
            None => if t.len() == 0 {
                t
            } else {
                t.drop_last()
            },
        }
    }
}

/// Reading `ops` backwards with `pending` pops still to match: the first
/// push met with none pending, that is the last push that no later pop
/// undid.
pub open spec fn last_live_push(ops: Seq<Option<Identifier>>, pending: nat) -> Option<Identifier>
    decreases ops.len(),
{
    if ops.len() == 0 {
        None
    } else {
        match ops.last() {
            None => last_live_push(ops.drop_last(), pending + 1),
            Some(id) => if pending == 0 {
                Some(id)
            } else {
                last_live_push(ops.drop_last(), (pending - 1) as nat)
            },
        }
    }
}

/// The frame `pending` below the top after `ops` from an empty stack is the
/// push met when reading `ops` backwards with that many pops to match.
proof fn lemma_live_push_depth(ops: Seq<Option<Identifier>>, pending: nat)
    ensures
        last_live_push(ops, pending) == {
            let t = run_frames(Seq::empty(), ops);
            if pending < t.len() {
                Some(t[t.len() - 1 - pending])
            } else {
                None
            }
        },
    decreases ops.len(),
{
    if ops.len() > 0 {
        let p = ops.drop_last();
        match ops.last() {
            None => {
                lemma_live_push_depth(p, pending + 1);
            },
            Some(id) => {
                if pending > 0 {
                    lemma_live_push_depth(p, (pending - 1) as nat);
                }
            },
        }
    }
}

/// After any pushes and pops from an empty stack, the current frame is the
/// last frame still live: the last push that no later pop undid; with no
/// such push, there is no current frame.
pub proof fn lemma_current_frame_live(ops: Seq<Option<Identifier>>)
    ensures
        ({
            let t = run_frames(Seq::empty(), ops);
            if t.len() == 0 {
                None::<Identifier>
            } else {
                Some(t.last())
            }
        }) == last_live_push(ops, 0),
{
    lemma_live_push_depth(ops, 0);
}

} // verus!
