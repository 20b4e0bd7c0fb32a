use crate::ir::Register;
use vstd::prelude::*;

verus! {

/// Hands out registers one after another; a block gives back, when it ends,
/// the registers that were taken inside it.
#[derive(Debug)]
pub struct RegisterAllocator {
    register_size: usize,
    current_register: usize,
    check_points: Vec<usize>,
}

/// The state of a register allocator.
pub struct AllocatorView {
    /// How many registers the code seen so far needs.
    pub size: nat,
    /// The register that the next allocation hands out.
    pub current: nat,
    /// The registers at which the open blocks started, innermost last.
    pub check_points: Seq<nat>,
}

impl AllocatorView {
    /// No register in use, and no block started, beyond the size.
    pub open spec fn wf(self) -> bool {
        &&& self.current <= self.size
        &&& forall|i: int| 0 <= i < self.check_points.len() ==> #[trigger] self.check_points[i] <= self.size
    }

    /// The state after taking one register.
    pub open spec fn allocate(self) -> AllocatorView {
        AllocatorView {
            size: if self.size < self.current + 1 { self.current + 1 } else { self.size },
            current: self.current + 1,
            check_points: self.check_points,
        }
    }

    /// The state after taking `n` registers.
    pub open spec fn allocate_n(self, n: nat) -> AllocatorView
        decreases n,
    {
        if n == 0 {
            self
        } else {
            self.allocate_n((n - 1) as nat).allocate()
        }
    }

    /// The state after opening a block.
    pub open spec fn enter_block(self) -> AllocatorView {
        AllocatorView { check_points: self.check_points.push(self.current), ..self }
    }

    /// The state after closing the innermost block; without one, the same state.
    pub open spec fn exit_block(self) -> AllocatorView {
        if self.check_points.len() == 0 {
            self
        } else {
            AllocatorView {
                current: self.check_points.last(),
                check_points: self.check_points.drop_last(),
                ..self
            }
        }
    }
}

impl View for RegisterAllocator {
    type V = AllocatorView;

    closed spec fn view(&self) -> AllocatorView {
        AllocatorView {
            size: self.register_size as nat,
            current: self.current_register as nat,
            check_points: self.check_points@.map_values(|r: usize| r as nat),
        }
    }
}

impl RegisterAllocator {
    #[verifier::type_invariant]
    closed spec fn inv(&self) -> bool {
        &&& self.current_register <= self.register_size
        &&& forall|i: int|
            0 <= i < self.check_points@.len() ==> #[trigger] self.check_points@[i] <= self.register_size
    }

    /// An allocator with no register in use and no open block.
    pub fn new() -> (a: Self)
        ensures
            a@.size == 0,
            a@.current == 0,
            a@.check_points == Seq::<nat>::empty(),
            a@.wf(),
    {
        let a = Self { register_size: 0, current_register: 0, check_points: Vec::new() };
        assert(a@.check_points =~= Seq::<nat>::empty());
        a
    }

    /// Takes the next register.
    pub fn allocate(&mut self) -> (reg: Register)
        requires
            old(self)@.current < usize::MAX,
        ensures
            reg.0 == old(self)@.current,
            final(self)@ == old(self)@.allocate(),
            final(self)@.wf(),
    {
        proof {
            use_type_invariant(&*self);
        }
        let reg = self.current_register;
        let next = reg + 1;
        if self.register_size < next {
            self.register_size = next;
        }
        self.current_register = next;
        Register(reg)
    }

    /// Opens a block at the current register.
    pub fn enter_block(&mut self)
        ensures
            final(self)@ == old(self)@.enter_block(),
            final(self)@.wf(),
    {
        proof {
            use_type_invariant(&*self);
        }
        let mut points = Vec::new();
        std::mem::swap(&mut points, &mut self.check_points);
        points.push(self.current_register);
        self.check_points = points;
        assert(self@.check_points =~= old(self)@.check_points.push(old(self)@.current));
    }

    /// Closes the innermost block: the register it started at is the next one again.
    /// Without an open block nothing changes.
    pub fn exit_block(&mut self)
        ensures
            final(self)@ == old(self)@.exit_block(),
            final(self)@.wf(),
    {
        proof {
            use_type_invariant(&*self);
        }
        let mut points = Vec::new();
        std::mem::swap(&mut points, &mut self.check_points);
        let ghost before = points@;
        let popped = points.pop();
        self.check_points = points;
        if let Some(reg) = popped {
            assert(before[before.len() - 1] <= self.register_size);
            self.current_register = reg;
            assert(self@.check_points =~= old(self)@.check_points.drop_last());
        }
    }

    /// How many registers the code seen so far needs.
    pub fn get_size(&self) -> (n: usize)
        ensures
            n == self@.size,
            self@.wf(),
    {
        proof {
            use_type_invariant(self);
        }
        self.register_size
    }
}

/// Taking registers never lowers the size, and the size covers every register taken.
pub proof fn law_alloc_grows(s: AllocatorView, n: nat)
    requires
        s.current <= s.size,
    ensures
        s.allocate_n(n).current == s.current + n,
        s.allocate_n(n).size >= s.size,
        s.allocate_n(n).size >= s.current + n,
        s.allocate_n(n).check_points == s.check_points,
    decreases n,
{
    if n > 0 {
        law_alloc_grows(s, (n - 1) as nat);
    }
}

/// A block hands back what it took: opening a block, taking `n` registers and
/// closing the block again leaves the next register and the open blocks as they
/// were, while the size grows to cover the registers taken inside.
pub proof fn law_block_restores(s: AllocatorView, n: nat)
    requires
        s.current <= s.size,
    ensures
        s.enter_block().allocate_n(n).exit_block().current == s.current,
        s.enter_block().allocate_n(n).exit_block().check_points == s.check_points,
        s.enter_block().allocate_n(n).exit_block().size >= s.current + n,
        s.enter_block().allocate_n(n).exit_block().size >= s.size,
{
    law_alloc_grows(s.enter_block(), n);
    assert(s.enter_block().check_points.drop_last() =~= s.check_points);
}

/// One call on a register allocator.
pub enum AllocStep {
    Allocate,
    Enter,
    Exit,
}

impl AllocatorView {
    /// The state after one call.
    pub open spec fn step(self, op: AllocStep) -> AllocatorView {
        match op {
            AllocStep::Allocate => self.allocate(),
            AllocStep::Enter => self.enter_block(),
            AllocStep::Exit => self.exit_block(),
        }
    }

    /// The state after the calls, in order.
    pub open spec fn run(self, ops: Seq<AllocStep>) -> AllocatorView
        decreases ops.len(),
    {
        if ops.len() == 0 {
            self
        } else {
            self.run(ops.drop_last()).step(ops[ops.len() - 1])
        }
    }
}

/// How many more blocks the calls open than they close.
pub open spec fn depth(ops: Seq<AllocStep>) -> int
    decreases ops.len(),
{
    if ops.len() == 0 {
        0
    } else {
        depth(ops.drop_last()) + match ops[ops.len() - 1] {
            AllocStep::Enter => 1int,
            AllocStep::Exit => -1int,
            AllocStep::Allocate => 0int,
        }
    }
}

/// Every block that the calls close, they opened before; and they close all they open.
pub open spec fn balanced(ops: Seq<AllocStep>) -> bool {
    &&& forall|k: int| 0 <= k <= ops.len() ==> depth(#[trigger] ops.take(k)) >= 0
    &&& depth(ops) == 0
}

/// Calls that never close a block they did not open keep the blocks that were open before
/// them, add one for each block left open, and never lower the size.
proof fn lemma_run_keeps_blocks(s: AllocatorView, ops: Seq<AllocStep>)
    requires
        forall|k: int| 0 <= k <= ops.len() ==> depth(#[trigger] ops.take(k)) >= 0,
    ensures
        s.run(ops).check_points.len() == s.check_points.len() + depth(ops),
        s.run(ops).check_points.subrange(0, s.check_points.len() as int) == s.check_points,
        s.run(ops).size >= s.size,
    decreases ops.len(),
{
    if ops.len() > 0 {
        let d = ops.drop_last();
        assert forall|k: int| 0 <= k <= d.len() implies depth(#[trigger] d.take(k)) >= 0 by {
            assert(d.take(k) =~= ops.take(k));
        }
        lemma_run_keeps_blocks(s, d);
        assert(ops.take(ops.len() as int) =~= ops);
        let t = s.run(d);
        assert(t.check_points.push(t.current).subrange(0, s.check_points.len() as int) =~= t.check_points.subrange(
            0,
            s.check_points.len() as int,
        ));
        if ops[ops.len() - 1] is Exit {
            assert(depth(d) >= 1);
            assert(t.check_points.drop_last().subrange(0, s.check_points.len() as int) =~= t.check_points.subrange(
                0,
                s.check_points.len() as int,
            ));
        }
    }
}

/// Blocks hand back what they took, however they nest: after a block is opened, any calls in
/// which every block closed was opened within them and all are closed, and the block closed
/// again, the next register and the open blocks are as before the block, and the size has
/// not shrunk. Closing a block when none is open changes nothing.
pub proof fn law_nested_blocks_restore(s: AllocatorView, ops: Seq<AllocStep>)
    requires
        balanced(ops),
    ensures
        s.enter_block().run(ops).exit_block().current == s.current,
        s.enter_block().run(ops).exit_block().check_points == s.check_points,
        s.enter_block().run(ops).exit_block().size >= s.size,
        s.check_points.len() == 0 ==> s.exit_block() == s,
{
    let e = s.enter_block();
    lemma_run_keeps_blocks(e, ops);
    let t = e.run(ops);
    assert(t.check_points =~= e.check_points);
    assert(t.check_points.drop_last() =~= s.check_points);
}

} // verus!
