pub mod errors;
pub mod register_allocator;

use self::errors::IRCompileError;
use crate::hir::{FunctionId, HIRBlock, HIRExpression, HIRFunction, HIRModule, HIRStatement};
use crate::ir::{code_view, CompiledFunction, InstrView, Instruction, Register, reg_numbers};
use crate::primitive::{BinaryOperator, ComparisonOperator};
use vstd::prelude::*;

verus! {

pub type IRCompileResult<T> = Result<T, IRCompileError>;

/// The outcome of compiling an expression: the instructions, the register that holds the
/// value, and the next free register.
pub type ExprCode = IRCompileResult<(Seq<InstrView>, usize, int)>;

/// The outcome of compiling statements: the instructions, the register of the last
/// statement's value if it has one, and the next free register.
pub type BlockCode = IRCompileResult<(Seq<InstrView>, Option<usize>, int)>;

/// The outcome of compiling call arguments: the instructions, the registers of the values in
/// order, and the next free register.
pub type ArgsCode = IRCompileResult<(Seq<InstrView>, Seq<usize>, int)>;

pub open spec fn or_zero(r: Option<usize>) -> usize {
    match r {
        Some(x) => x,
        None => 0,
    }
}

/// The code for `e` when it starts at index `len` of the function's code, with `reg` the next
/// free register and `loops` the start indices of the enclosing loops, innermost last.
///
/// A literal is loaded into a new register; a variable is its own register; a store moves the
/// value into the variable's register; an operation puts its result into a new register after
/// computing both operands, left first; a call computes its arguments in order and puts the
/// result into a new register. `if` tests the condition, jumps past the `then` block and its
/// closing jump when it is false, and the `then` block jumps to the end. A loop jumps back to
/// its start after its body; `continue` jumps to the start of the innermost loop, `break` one
/// instruction past itself, and both fail outside a loop. `return` gives back the value, if any.
/// A block, an `if`, a loop and the jumps stand for register 0 where nothing holds their value.
pub open spec fn c_expr(e: HIRExpression, len: int, reg: int, loops: Seq<int>) -> ExprCode
    decreases e,
{
    match e {
        HIRExpression::Literal(c) => Ok(
            (seq![InstrView::LoadConst { dst: reg as usize, value: c@ }], reg as usize, reg + 1),
        ),
        HIRExpression::Variable { id, .. } => Ok((Seq::empty(), id.0, reg)),
        HIRExpression::Store { target, value } => match c_expr(*value, len, reg, loops) {
            Ok((c, v, r)) => Ok((c.push(InstrView::Move { dst: target.0, src: v }), target.0, r)),
            Err(x) => Err(x),
        },
        HIRExpression::BinOp { op, lhs, rhs } => match c_expr(*lhs, len, reg, loops) {
            Ok((c1, l, r1)) => match c_expr(*rhs, len + c1.len(), r1, loops) {
                Ok((c2, rr, r2)) => Ok(
                    ((c1 + c2).push(InstrView::BinOp { dst: r2 as usize, op, lhs: l, rhs: rr }), r2 as usize, r2 + 1),
                ),
                Err(x) => Err(x),
            },
            Err(x) => Err(x),
        },
        HIRExpression::CmpOp { op, lhs, rhs } => match c_expr(*lhs, len, reg, loops) {
            Ok((c1, l, r1)) => match c_expr(*rhs, len + c1.len(), r1, loops) {
                Ok((c2, rr, r2)) => Ok(
                    ((c1 + c2).push(InstrView::Cmp { dst: r2 as usize, op, lhs: l, rhs: rr }), r2 as usize, r2 + 1),
                ),
                Err(x) => Err(x),
            },
            Err(x) => Err(x),
        },
        HIRExpression::Call { function, args } => match c_args(args@, len, reg, loops) {
            Ok((c, regs, r)) => Ok(
                (c.push(InstrView::Call { dst: Some(r as usize), func: function.0, args: regs }), r as usize, r + 1),
            ),
            Err(x) => Err(x),
        },
        HIRExpression::Block(b) => match c_stmts(b.statements@, len, reg, loops) {
            Ok((c, v, r)) => Ok((c, or_zero(v), r)),
            Err(x) => Err(x),
        },
        HIRExpression::If { cond, then_block, else_block } => match c_expr(*cond, len, reg, loops) {
            Ok((c1, cr, r1)) => {
                let jif = len + c1.len();
                match c_stmts(then_block.statements@, jif + 1, r1, loops) {
                    Ok((c2, tv, r2)) => {
                        let else_start = jif + 1 + c2.len() + 1;
                        let else_code: BlockCode = match else_block {
                            Some(eb) => c_stmts(eb.statements@, else_start, r2, loops),
                            None => Ok((Seq::empty(), None, r2)),
                        };
                        match else_code {
                            Ok((c3, _, r3)) => Ok(
                                (
                                    c1.push(InstrView::JumpIfFalse { cond: cr, target: else_start as usize }) + c2.push(
                                        InstrView::Jump { target: (else_start + c3.len()) as usize },
                                    ) + c3,
                                    or_zero(tv),
                                    r3,
                                ),
                            ),
                            Err(x) => Err(x),
                        }
                    },
                    Err(x) => Err(x),
                }
            },
            Err(x) => Err(x),
        },
        HIRExpression::Loop { body } => match c_stmts(body.statements@, len, reg, loops.push(len)) {
            Ok((c, _, r)) => Ok((c.push(InstrView::Jump { target: len as usize }), 0, r)),
            Err(x) => Err(x),
        },
        HIRExpression::Continue => if loops.len() == 0 {
            Err(IRCompileError::IllegalContinue)
        } else {
            Ok((seq![InstrView::Jump { target: loops.last() as usize }], 0, reg))
        },
        HIRExpression::Break(_) => if loops.len() == 0 {
            Err(IRCompileError::IllegalBreak)
        } else {
            Ok((seq![InstrView::Jump { target: (len + 1) as usize }], 0, reg))
        },
        HIRExpression::Return(value) => match value {
            Some(x) => match c_expr(*x, len, reg, loops) {
                Ok((c, v, r)) => Ok((c.push(InstrView::Return { value: Some(v) }), 0, r)),
                Err(x) => Err(x),
            },
            None => Ok((seq![InstrView::Return { value: None }], 0, reg)),
        },
    }
}

/// The code of statements one after another; the value is the last statement's.
pub open spec fn c_stmts(s: Seq<HIRStatement>, len: int, reg: int, loops: Seq<int>) -> BlockCode
    decreases s,
{
    if s.len() == 0 {
        Ok((Seq::empty(), None, reg))
    } else {
        match c_stmts(s.drop_last(), len, reg, loops) {
            Ok((c0, _, r0)) => match c_stmt(s[s.len() - 1], len + c0.len(), r0, loops) {
                Ok((c1, v, r1)) => Ok((c0 + c1, v, r1)),
                Err(x) => Err(x),
            },
            Err(x) => Err(x),
        }
    }
}

/// The code of a statement: `let` moves its initial value, if any, into the variable's
/// register and has no value; an expression statement has the expression's value.
pub open spec fn c_stmt(st: HIRStatement, len: int, reg: int, loops: Seq<int>) -> BlockCode
    decreases st,
{
    match st {
        HIRStatement::Let { symbol, initializer, .. } => match initializer {
            Some(x) => match c_expr(x, len, reg, loops) {
                Ok((c, v, r)) => Ok((c.push(InstrView::Move { dst: symbol.0, src: v }), None, r)),
                Err(e) => Err(e),
            },
            None => Ok((Seq::empty(), None, reg)),
        },
        HIRStatement::Expr(x) => match c_expr(x, len, reg, loops) {
            Ok((c, v, r)) => Ok((c, Some(v), r)),
            Err(e) => Err(e),
        },
    }
}

/// The code of call arguments, left to right.
pub open spec fn c_args(s: Seq<HIRExpression>, len: int, reg: int, loops: Seq<int>) -> ArgsCode
    decreases s,
{
    if s.len() == 0 {
        Ok((Seq::empty(), Seq::empty(), reg))
    } else {
        match c_args(s.drop_last(), len, reg, loops) {
            Ok((c0, regs, r0)) => match c_expr(s[s.len() - 1], len + c0.len(), r0, loops) {
                Ok((c1, v, r1)) => Ok((c0 + c1, regs.push(v), r1)),
                Err(x) => Err(x),
            },
            Err(x) => Err(x),
        }
    }
}

/// How many nodes an expression has: a bound on the registers it takes, and half a bound on
/// the instructions it gives.
pub open spec fn h_expr(e: HIRExpression) -> nat
    decreases e,
{
    1 + match e {
        HIRExpression::Store { value, .. } => h_expr(*value),
        HIRExpression::BinOp { lhs, rhs, .. } => h_expr(*lhs) + h_expr(*rhs),
        HIRExpression::CmpOp { lhs, rhs, .. } => h_expr(*lhs) + h_expr(*rhs),
        HIRExpression::Call { args, .. } => h_args(args@),
        HIRExpression::Block(b) => h_stmts(b.statements@),
        HIRExpression::If { cond, then_block, else_block } => h_expr(*cond) + h_stmts(then_block.statements@)
            + match else_block {
            Some(eb) => h_stmts(eb.statements@),
            None => 0,
        },
        HIRExpression::Loop { body } => h_stmts(body.statements@),
        HIRExpression::Return(Some(x)) => h_expr(*x),
        _ => 0,
    }
}

pub open spec fn h_stmts(s: Seq<HIRStatement>) -> nat
    decreases s,
{
    if s.len() == 0 {
        0
    } else {
        h_stmts(s.drop_last()) + h_stmt(s[s.len() - 1])
    }
}

pub open spec fn h_stmt(st: HIRStatement) -> nat
    decreases st,
{
    match st {
        HIRStatement::Let { initializer, .. } => 1 + match initializer {
            Some(x) => h_expr(x),
            None => 0,
        },
        HIRStatement::Expr(x) => h_expr(x),
    }
}

pub open spec fn h_args(s: Seq<HIRExpression>) -> nat
    decreases s,
{
    if s.len() == 0 {
        0
    } else {
        h_args(s.drop_last()) + h_expr(s[s.len() - 1])
    }
}

/// The code of a function: its body with the registers after its parameters free, outside
/// any loop; and the registers it needs.
pub open spec fn c_function(f: HIRFunction) -> IRCompileResult<(Seq<InstrView>, int)> {
    match c_stmts(f.body.statements@, 0, f.params@.len() as int, Seq::empty()) {
        Ok((c, _, r)) => Ok((c, r)),
        Err(e) => Err(e),
    }
}

/// The function's body is small enough for its code and registers to be counted.
pub open spec fn function_fits(f: HIRFunction) -> bool {
    &&& f.params@.len() + h_stmts(f.body.statements@) <= usize::MAX
    &&& 2 * h_stmts(f.body.statements@) + 2 <= usize::MAX
}

/// The code of each function of a module, under its id, in order, up to the first that fails.
pub open spec fn module_ok_upto(fs: Seq<(FunctionId, HIRFunction)>, n: int) -> bool {
    forall|i: int| 0 <= i < n ==> (#[trigger] c_function(fs[i].1)) is Ok
}

proof fn lemma_code_push(code: Seq<Instruction>, i: Instruction)
    ensures
        code_view(code.push(i)) == code_view(code).push(i@),
{
    assert(code_view(code.push(i)) =~= code_view(code).push(i@));
}

/// Compiles every function of the module; the first failure stops it.
pub fn compile_module(module: &HIRModule) -> (res: IRCompileResult<Vec<(FunctionId, CompiledFunction)>>)
    requires
        forall|i: int| 0 <= i < module.functions@.len() ==> function_fits(#[trigger] module.functions@[i].1),
    ensures
        res is Ok <==> module_ok_upto(module.functions@, module.functions@.len() as int),
        res matches Ok(fs) ==> fs@.len() == module.functions@.len() && forall|i: int|
            0 <= i < fs@.len() ==> #[trigger] fs@[i].0 == module.functions@[i].0 && c_function(module.functions@[i].1)
                == Ok::<(Seq<InstrView>, int), IRCompileError>((code_view(fs@[i].1.code@), fs@[i].1.registers as int)),
        res matches Err(e) ==> exists|k: int|
            0 <= k < module.functions@.len() && module_ok_upto(module.functions@, k) && #[trigger] c_function(
                module.functions@[k].1,
            ) == Err::<(Seq<InstrView>, int), IRCompileError>(e),
{
    let mut functions: Vec<(FunctionId, CompiledFunction)> = Vec::new();
    let mut i: usize = 0;
    while i < module.functions.len()
        invariant
            i <= module.functions@.len(),
            forall|j: int| 0 <= j < module.functions@.len() ==> function_fits(#[trigger] module.functions@[j].1),
            functions@.len() == i,
            module_ok_upto(module.functions@, i as int),
            forall|j: int|
                0 <= j < i ==> #[trigger] functions@[j].0 == module.functions@[j].0 && c_function(module.functions@[j].1)
                    == Ok::<(Seq<InstrView>, int), IRCompileError>(
                    (code_view(functions@[j].1.code@), functions@[j].1.registers as int),
                ),
        decreases module.functions@.len() - i,
    {
        let id = module.functions[i].0;
        let code = match compile_function(&module.functions[i].1) {
            Ok(c) => c,
            Err(e) => {
                assert(c_function(module.functions@[i as int].1) == Err::<(Seq<InstrView>, int), IRCompileError>(e));
                return Err(e);
            },
        };
        functions.push((id, code));
        i = i + 1;
    }
    Ok(functions)
}

/// Compiles a function: the registers of its parameters come first.
pub fn compile_function(func: &HIRFunction) -> (res: IRCompileResult<CompiledFunction>)
    requires
        function_fits(*func),
    ensures
        match c_function(*func) {
            Ok((c, r)) => res matches Ok(f) && code_view(f.code@) == c && f.registers == r,
            Err(e) => res == Err::<CompiledFunction, IRCompileError>(e),
        },
{
    let mut compiler = IRCompiler::new();
    compiler.next_reg = func.params.len();
    assert(compiler.loops() =~= Seq::<int>::empty());
    match compiler.compile_block(&func.body) {
        Ok(_) => {},
        Err(e) => return Err(e),
    }
    assert(code_view(compiler.code@) =~= Seq::<InstrView>::empty() + code_view(compiler.code@));
    Ok(CompiledFunction { code: compiler.code, registers: compiler.next_reg })
}

/// Emits the code of a function into one growing list of instructions.
#[derive(Debug)]
struct IRCompiler {
    code: Vec<Instruction>,
    next_reg: usize,
    loop_statement: Vec<LoopStatement>,
}

/// A loop being compiled: where it starts. A `break` jumps one instruction past itself, so no
/// jump is left to patch when the loop ends.
#[derive(Debug)]
struct LoopStatement {
    loop_start: usize,
}

impl LoopStatement {
    fn new(loop_start: usize) -> (l: Self)
        ensures
            l.loop_start == loop_start,
    {
        Self { loop_start }
    }
}

impl IRCompiler {
    spec fn loops(&self) -> Seq<int> {
        self.loop_statement@.map_values(|l: LoopStatement| l.loop_start as int)
    }

    /// The code grew by `c`, and the register counter and the loops moved as a compilation
    /// that ended at `next` does.
    spec fn emitted(old: &Self, new: &Self, c: Seq<InstrView>, next: int) -> bool {
        &&& code_view(new.code@) == code_view(old.code@) + c
        &&& new.next_reg == next
    }

    /// Room for `h` more registers and twice as many instructions.
    spec fn room(&self, h: nat) -> bool {
        &&& self.next_reg + h <= usize::MAX
        &&& self.code@.len() + 2 * h + 1 <= usize::MAX
    }

    fn new() -> (c: Self)
        ensures
            c.code@.len() == 0,
            c.next_reg == 0,
            c.loop_statement@.len() == 0,
    {
        Self { code: Vec::new(), next_reg: 0, loop_statement: Vec::new() }
    }

    fn alloc_register(&mut self) -> (r: Register)
        requires
            old(self).next_reg < usize::MAX,
        ensures
            r.0 == old(self).next_reg,
            final(self).next_reg == old(self).next_reg + 1,
            final(self).code == old(self).code,
            final(self).loop_statement == old(self).loop_statement,
    {
        let r = Register(self.next_reg);
        self.next_reg = self.next_reg + 1;
        r
    }

    fn emit(&mut self, i: Instruction)
        requires
            old(self).code@.len() < usize::MAX,
        ensures
            code_view(final(self).code@) == code_view(old(self).code@).push(i@),
            final(self).code@.len() == old(self).code@.len() + 1,
            final(self).next_reg == old(self).next_reg,
            final(self).loop_statement == old(self).loop_statement,
    {
        let ghost before = self.code@;
        self.code.push(i);
        proof {
            lemma_code_push(before, i);
        }
    }

    fn compile_block(&mut self, block: &HIRBlock) -> (res: IRCompileResult<Option<Register>>)
        requires
            old(self).room(h_stmts(block.statements@)),
        ensures
            final(self).loops() == old(self).loops(),
            match c_stmts(block.statements@, old(self).code@.len() as int, old(self).next_reg as int, old(self).loops()) {
                Ok((c, v, r)) => res matches Ok(x) && opt_reg_num(x) == v && Self::emitted(old(self), final(self), c, r)
                    && final(self).next_reg <= old(self).next_reg + h_stmts(block.statements@)
                    && final(self).code@.len() <= old(self).code@.len() + 2 * h_stmts(block.statements@),
                Err(e) => res == Err::<Option<Register>, IRCompileError>(e),
            },
        decreases block, 1nat,
    {
        let ghost s = block.statements@;
        let ghost len0 = self.code@.len() as int;
        let ghost reg0 = self.next_reg as int;
        let ghost loops0 = self.loops();
        let ghost code0 = code_view(self.code@);
        let ghost mut acc: Seq<InstrView> = Seq::empty();
        let mut res: Option<Register> = None;
        let mut i: usize = 0;
        assert(s.take(0) =~= Seq::<HIRStatement>::empty());
        assert(code_view(self.code@) =~= code0 + acc);
        while i < block.statements.len()
            invariant
                i <= s.len(),
                s == block.statements@,
                self.loops() == loops0,
                loops0 == old(self).loops(),
                old(self).room(h_stmts(s)),
                len0 == old(self).code@.len(),
                reg0 == old(self).next_reg,
                code0 == code_view(old(self).code@),
                c_stmts(s.take(i as int), len0, reg0, loops0) == Ok::<(Seq<InstrView>, Option<usize>, int), IRCompileError>(
                    (acc, opt_reg_num(res), self.next_reg as int),
                ),
                code_view(self.code@) == code0 + acc,
                self.code@.len() == len0 + acc.len(),
                self.next_reg <= reg0 + h_stmts(s.take(i as int)),
                acc.len() <= 2 * h_stmts(s.take(i as int)),
            decreases s.len() - i,
        {
            proof {
                assert(s.take(i + 1).drop_last() =~= s.take(i as int));
                assert(s.take(i + 1)[i as int] == s[i as int]);
                lemma_h_stmts_take(s, i as int + 1);
            }
            let ghost len_before = self.code@.len() as int;
            let ghost nr = self.next_reg as int;
            match self.compile_statement(&block.statements[i]) {
                Ok(r) => {
                    proof {
                        let sc = c_stmt(s[i as int], len_before, nr, loops0);
                        let c1 = (sc->Ok_0).0;
                        assert(code_view(self.code@) =~= code0 + (acc + c1));
                        acc = acc + c1;
                    }
                    res = r;
                },
                Err(e) => {
                    proof {
                        lemma_stmts_err(s, i as int + 1, len0, reg0, loops0);
                    }
                    return Err(e);
                },
            }
            i = i + 1;
        }
        assert(s.take(s.len() as int) =~= s);
        Ok(res)
    }

    fn compile_statement(&mut self, statement: &HIRStatement) -> (res: IRCompileResult<Option<Register>>)
        requires
            old(self).room(h_stmt(*statement)),
        ensures
            final(self).loops() == old(self).loops(),
            match c_stmt(*statement, old(self).code@.len() as int, old(self).next_reg as int, old(self).loops()) {
                Ok((c, v, r)) => res matches Ok(x) && opt_reg_num(x) == v && Self::emitted(old(self), final(self), c, r)
                    && final(self).next_reg <= old(self).next_reg + h_stmt(*statement)
                    && final(self).code@.len() <= old(self).code@.len() + 2 * h_stmt(*statement),
                Err(e) => res == Err::<Option<Register>, IRCompileError>(e),
            },
        decreases statement, 1nat,
    {
        let reg = match statement {
            HIRStatement::Let { symbol, symbol_type: _, initializer } => {
                if let Some(expr) = initializer {
                    let reg = match self.compile_expr(expr) {
                        Ok(r) => r,
                        Err(e) => return Err(e),
                    };
                    self.emit(Instruction::Move { dst: Register(symbol.0), src: reg });
                }
                None
            },
            HIRStatement::Expr(expr) => match self.compile_expr(expr) {
                Ok(r) => Some(r),
                Err(e) => return Err(e),
            },
        };
        Ok(reg)
    }

    #[verifier::rlimit(40)]
    #[verifier::spinoff_prover]
    fn compile_expr(&mut self, expr: &HIRExpression) -> (res: IRCompileResult<Register>)
        requires
            old(self).room(h_expr(*expr)),
        ensures
            final(self).loops() == old(self).loops(),
            match c_expr(*expr, old(self).code@.len() as int, old(self).next_reg as int, old(self).loops()) {
                Ok((c, v, r)) => res matches Ok(x) && x.0 == v && Self::emitted(old(self), final(self), c, r)
                    && final(self).next_reg <= old(self).next_reg + h_expr(*expr)
                    && final(self).code@.len() <= old(self).code@.len() + 2 * h_expr(*expr),
                Err(e) => res == Err::<Register, IRCompileError>(e),
            },
        decreases expr, 1nat,
    {
        let ghost code0 = code_view(self.code@);
        let reg = match expr {
            HIRExpression::Literal(literal) => {
                let dst = self.alloc_register();
                self.emit(Instruction::LoadConst { dst, value: literal.duplicate() });
                assert(code_view(self.code@) =~= code0 + seq![InstrView::LoadConst { dst: dst.0, value: literal@ }]);
                dst
            },
            HIRExpression::Variable { id, symbol_type: _ } => {
                assert(code_view(self.code@) =~= code0 + Seq::<InstrView>::empty());
                Register(id.0)
            },
            HIRExpression::Store { .. } => match self.compile_store(expr) {
                Ok(r) => r,
                Err(e) => return Err(e),
            },
            HIRExpression::BinOp { .. } => match self.compile_binop(expr) {
                Ok(r) => r,
                Err(e) => return Err(e),
            },
            HIRExpression::CmpOp { .. } => match self.compile_comparison(expr) {
                Ok(r) => r,
                Err(e) => return Err(e),
            },
            HIRExpression::Call { .. } => match self.compile_call(expr) {
                Ok(r) => r,
                Err(e) => return Err(e),
            },
            HIRExpression::Block(block) => match self.compile_block(block) {
                Ok(r) => match r {
                    Some(r) => r,
                    None => Register(0),
                },
                Err(e) => return Err(e),
            },
            HIRExpression::If { .. } => match self.compile_if(expr) {
                Ok(r) => r,
                Err(e) => return Err(e),
            },
            HIRExpression::Loop { .. } => match self.compile_loop(expr) {
                Ok(r) => r,
                Err(e) => return Err(e),
            },
            HIRExpression::Continue => match self.compile_continue() {
                Ok(r) => {
                    assert(code_view(self.code@) =~= code0 + seq![InstrView::Jump { target: old(self).loops().last() as usize }]);
                    r
                },
                Err(e) => return Err(e),
            },
            HIRExpression::Break(_) => match self.compile_break() {
                Ok(r) => {
                    assert(code_view(self.code@) =~= code0 + seq![
                        InstrView::Jump { target: (old(self).code@.len() + 1) as usize },
                    ]);
                    r
                },
                Err(e) => return Err(e),
            },
            HIRExpression::Return(_) => match self.compile_return(expr) {
                Ok(r) => r,
                Err(e) => return Err(e),
            },
        };
        Ok(reg)
    }

    /// The code of a store: see `c_expr`.
    fn compile_store(&mut self, expr: &HIRExpression) -> (res: IRCompileResult<Register>)
        requires
            expr is Store,
            old(self).room(h_expr(*expr)),
        ensures
            final(self).loops() == old(self).loops(),
            match c_expr(*expr, old(self).code@.len() as int, old(self).next_reg as int, old(self).loops()) {
                Ok((c, v, r)) => res matches Ok(x) && x.0 == v && Self::emitted(old(self), final(self), c, r)
                    && final(self).next_reg <= old(self).next_reg + h_expr(*expr)
                    && final(self).code@.len() <= old(self).code@.len() + 2 * h_expr(*expr),
                Err(e) => res == Err::<Register, IRCompileError>(e),
            },
        decreases expr, 0nat,
    {
        let HIRExpression::Store { target, value } = expr else {
            vstd::pervasive::unreached()
        };
        let ghost code0 = code_view(self.code@);
        let ghost sp = c_expr(**value, self.code@.len() as int, self.next_reg as int, self.loops());
        let val = match self.compile_expr(value) {
            Ok(r) => r,
            Err(e) => return Err(e),
        };
        let dst = Register(target.0);
        self.emit(Instruction::Move { dst, src: val });
        assert(code_view(self.code@) =~= code0 + (sp->Ok_0).0.push(InstrView::Move { dst: target.0, src: val.0 }));
        Ok(dst)
    }

    /// The code of an arithmetic operation: see `c_expr`.
    fn compile_binop(&mut self, expr: &HIRExpression) -> (res: IRCompileResult<Register>)
        requires
            expr is BinOp,
            old(self).room(h_expr(*expr)),
        ensures
            final(self).loops() == old(self).loops(),
            match c_expr(*expr, old(self).code@.len() as int, old(self).next_reg as int, old(self).loops()) {
                Ok((c, v, r)) => res matches Ok(x) && x.0 == v && Self::emitted(old(self), final(self), c, r)
                    && final(self).next_reg <= old(self).next_reg + h_expr(*expr)
                    && final(self).code@.len() <= old(self).code@.len() + 2 * h_expr(*expr),
                Err(e) => res == Err::<Register, IRCompileError>(e),
            },
        decreases expr, 0nat,
    {
        let HIRExpression::BinOp { op, lhs, rhs } = expr else {
            vstd::pervasive::unreached()
        };
        let ghost code0 = code_view(self.code@);
        let ghost sp1 = c_expr(**lhs, self.code@.len() as int, self.next_reg as int, self.loops());
        let l = match self.compile_expr(lhs) {
            Ok(r) => r,
            Err(e) => return Err(e),
        };
        assert(code_view(self.code@).len() == self.code@.len());
        let ghost sp2 = c_expr(**rhs, self.code@.len() as int, self.next_reg as int, self.loops());
        let r = match self.compile_expr(rhs) {
            Ok(r) => r,
            Err(e) => return Err(e),
        };
        let dst = self.alloc_register();
        self.emit(Instruction::BinOp { dst, op: *op, lhs: l, rhs: r });
        assert(code_view(self.code@) =~= code0 + ((sp1->Ok_0).0 + (sp2->Ok_0).0).push(
            InstrView::BinOp { dst: dst.0, op: *op, lhs: l.0, rhs: r.0 },
        ));
        Ok(dst)
    }

    /// The code of a comparison: see `c_expr`.
    fn compile_comparison(&mut self, expr: &HIRExpression) -> (res: IRCompileResult<Register>)
        requires
            expr is CmpOp,
            old(self).room(h_expr(*expr)),
        ensures
            final(self).loops() == old(self).loops(),
            match c_expr(*expr, old(self).code@.len() as int, old(self).next_reg as int, old(self).loops()) {
                Ok((c, v, r)) => res matches Ok(x) && x.0 == v && Self::emitted(old(self), final(self), c, r)
                    && final(self).next_reg <= old(self).next_reg + h_expr(*expr)
                    && final(self).code@.len() <= old(self).code@.len() + 2 * h_expr(*expr),
                Err(e) => res == Err::<Register, IRCompileError>(e),
            },
        decreases expr, 0nat,
    {
        let HIRExpression::CmpOp { op, lhs, rhs } = expr else {
            vstd::pervasive::unreached()
        };
        let ghost code0 = code_view(self.code@);
        let ghost sp1 = c_expr(**lhs, self.code@.len() as int, self.next_reg as int, self.loops());
        let l = match self.compile_expr(lhs) {
            Ok(r) => r,
            Err(e) => return Err(e),
        };
        assert(code_view(self.code@).len() == self.code@.len());
        let ghost sp2 = c_expr(**rhs, self.code@.len() as int, self.next_reg as int, self.loops());
        let r = match self.compile_expr(rhs) {
            Ok(r) => r,
            Err(e) => return Err(e),
        };
        let dst = self.alloc_register();
        self.emit(Instruction::Cmp { dst, op: *op, lhs: l, rhs: r });
        assert(code_view(self.code@) =~= code0 + ((sp1->Ok_0).0 + (sp2->Ok_0).0).push(
            InstrView::Cmp { dst: dst.0, op: *op, lhs: l.0, rhs: r.0 },
        ));
        Ok(dst)
    }

    /// The code of a call: see `c_expr`.
    fn compile_call(&mut self, expr: &HIRExpression) -> (res: IRCompileResult<Register>)
        requires
            expr is Call,
            old(self).room(h_expr(*expr)),
        ensures
            final(self).loops() == old(self).loops(),
            match c_expr(*expr, old(self).code@.len() as int, old(self).next_reg as int, old(self).loops()) {
                Ok((c, v, r)) => res matches Ok(x) && x.0 == v && Self::emitted(old(self), final(self), c, r)
                    && final(self).next_reg <= old(self).next_reg + h_expr(*expr)
                    && final(self).code@.len() <= old(self).code@.len() + 2 * h_expr(*expr),
                Err(e) => res == Err::<Register, IRCompileError>(e),
            },
        decreases expr, 0nat,
    {
        let HIRExpression::Call { function, args } = expr else {
            vstd::pervasive::unreached()
        };
        let ghost code0 = code_view(self.code@);
        let ghost sp = c_args(args@, self.code@.len() as int, self.next_reg as int, self.loops());
        let regs = match self.compile_args(args) {
            Ok(r) => r,
            Err(e) => return Err(e),
        };
        let ghost nums = reg_numbers(regs@);
        let dst = self.alloc_register();
        self.emit(Instruction::Call { dst: Some(dst), func: function.0, args: regs });
        assert(code_view(self.code@) =~= code0 + (sp->Ok_0).0.push(
            InstrView::Call { dst: Some(dst.0), func: function.0, args: nums },
        ));
        Ok(dst)
    }

    /// The code of a `return`: see `c_expr`.
    fn compile_return(&mut self, expr: &HIRExpression) -> (res: IRCompileResult<Register>)
        requires
            expr is Return,
            old(self).room(h_expr(*expr)),
        ensures
            final(self).loops() == old(self).loops(),
            match c_expr(*expr, old(self).code@.len() as int, old(self).next_reg as int, old(self).loops()) {
                Ok((c, v, r)) => res matches Ok(x) && x.0 == v && Self::emitted(old(self), final(self), c, r)
                    && final(self).next_reg <= old(self).next_reg + h_expr(*expr)
                    && final(self).code@.len() <= old(self).code@.len() + 2 * h_expr(*expr),
                Err(e) => res == Err::<Register, IRCompileError>(e),
            },
        decreases expr, 0nat,
    {
        let HIRExpression::Return(value) = expr else {
            vstd::pervasive::unreached()
        };
        let ghost code0 = code_view(self.code@);
        let val = match value {
            Some(x) => {
                let ghost sp = c_expr(**x, self.code@.len() as int, self.next_reg as int, self.loops());
                let v = match self.compile_expr(x) {
                    Ok(r) => r,
                    Err(e) => return Err(e),
                };
                proof {
                    assert(code_view(self.code@) == code0 + (sp->Ok_0).0);
                }
                Some(v)
            },
            None => None,
        };
        let ghost mid = code_view(self.code@);
        self.emit(Instruction::Return { value: val });
        proof {
            match value {
                Some(x) => {
                    let sp = c_expr(**x, old(self).code@.len() as int, old(self).next_reg as int, old(self).loops());
                    assert(code_view(self.code@) =~= code0 + (sp->Ok_0).0.push(
                        InstrView::Return { value: Some(val->Some_0.0) },
                    ));
                },
                None => {
                    assert(code_view(self.code@) =~= code0 + seq![InstrView::Return { value: None }]);
                },
            }
        }
        Ok(Register(0))
    }

    fn compile_args(&mut self, args: &Vec<HIRExpression>) -> (res: IRCompileResult<Vec<Register>>)
        requires
            old(self).room(h_args(args@)),
        ensures
            final(self).loops() == old(self).loops(),
            match c_args(args@, old(self).code@.len() as int, old(self).next_reg as int, old(self).loops()) {
                Ok((c, v, r)) => res matches Ok(x) && reg_numbers(x@) == v && Self::emitted(old(self), final(self), c, r)
                    && final(self).next_reg <= old(self).next_reg + h_args(args@)
                    && final(self).code@.len() <= old(self).code@.len() + 2 * h_args(args@),
                Err(e) => res == Err::<Vec<Register>, IRCompileError>(e),
            },
        decreases args, 1nat,
    {
        let ghost s = args@;
        let ghost len0 = self.code@.len() as int;
        let ghost reg0 = self.next_reg as int;
        let ghost loops0 = self.loops();
        let ghost code0 = code_view(self.code@);
        let ghost mut acc: Seq<InstrView> = Seq::empty();
        let mut regs: Vec<Register> = Vec::new();
        let mut i: usize = 0;
        assert(s.take(0) =~= Seq::<HIRExpression>::empty());
        assert(code_view(self.code@) =~= code0 + acc);
        assert(reg_numbers(regs@) =~= Seq::<usize>::empty());
        while i < args.len()
            invariant
                i <= s.len(),
                s == args@,
                self.loops() == loops0,
                loops0 == old(self).loops(),
                old(self).room(h_args(s)),
                len0 == old(self).code@.len(),
                reg0 == old(self).next_reg,
                code0 == code_view(old(self).code@),
                c_args(s.take(i as int), len0, reg0, loops0) == Ok::<(Seq<InstrView>, Seq<usize>, int), IRCompileError>(
                    (acc, reg_numbers(regs@), self.next_reg as int),
                ),
                code_view(self.code@) == code0 + acc,
                self.code@.len() == len0 + acc.len(),
                self.next_reg <= reg0 + h_args(s.take(i as int)),
                acc.len() <= 2 * h_args(s.take(i as int)),
            decreases s.len() - i,
        {
            proof {
                assert(s.take(i + 1).drop_last() =~= s.take(i as int));
                assert(s.take(i + 1)[i as int] == s[i as int]);
                lemma_h_args_take(s, i as int + 1);
            }
            let ghost len_before = self.code@.len() as int;
            let ghost nr = self.next_reg as int;
            let ghost regs0 = regs@;
            match self.compile_expr(&args[i]) {
                Ok(r) => {
                    regs.push(r);
                    proof {
                        let sc = c_expr(s[i as int], len_before, nr, loops0);
                        let c1 = (sc->Ok_0).0;
                        assert(code_view(self.code@) =~= code0 + (acc + c1));
                        assert(reg_numbers(regs@) =~= reg_numbers(regs0).push(r.0));
                        acc = acc + c1;
                    }
                },
                Err(e) => {
                    proof {
                        lemma_args_err(s, i as int + 1, len0, reg0, loops0);
                    }
                    return Err(e);
                },
            }
            i = i + 1;
        }
        assert(s.take(s.len() as int) =~= s);
        Ok(regs)
    }

    /// The code of an `if`: see `c_expr`.
    #[verifier::rlimit(40)]
    #[verifier::spinoff_prover]
    fn compile_if(&mut self, expr: &HIRExpression) -> (res: IRCompileResult<Register>)
        requires
            expr is If,
            old(self).room(h_expr(*expr)),
        ensures
            final(self).loops() == old(self).loops(),
            match c_expr(*expr, old(self).code@.len() as int, old(self).next_reg as int, old(self).loops()) {
                Ok((c, v, r)) => res matches Ok(x) && x.0 == v && Self::emitted(old(self), final(self), c, r)
                    && final(self).next_reg <= old(self).next_reg + h_expr(*expr)
                    && final(self).code@.len() <= old(self).code@.len() + 2 * h_expr(*expr),
                Err(e) => res == Err::<Register, IRCompileError>(e),
            },
        decreases expr, 0nat,
    {
        let HIRExpression::If { cond, then_block, else_block } = expr else {
            vstd::pervasive::unreached()
        };
        let ghost len0 = self.code@.len() as int;
        let ghost reg0 = self.next_reg as int;
        let ghost loops0 = self.loops();
        let ghost code0 = code_view(self.code@);
        let ghost sp1 = c_expr(**cond, len0, reg0, loops0);
        let cond_reg = match self.compile_expr(cond) {
            Ok(r) => r,
            Err(e) => return Err(e),
        };
        let ghost c1 = (sp1->Ok_0).0;
        let jump_if_false_pos = self.code.len();
        self.emit(Instruction::JumpIfFalse { cond: cond_reg, target: 0 });
        let ghost len1 = self.code@.len() as int;
        let ghost code1 = code_view(self.code@);
        let ghost r1 = self.next_reg as int;
        assert(code_view(self.code@).len() == self.code@.len());
        assert(code_view(self.code@) =~= code0 + c1.push(InstrView::JumpIfFalse { cond: cond_reg.0, target: 0 }));
        assert(len1 == len0 + c1.len() + 1);
        let ghost sp2 = c_stmts(then_block.statements@, len1, r1, loops0);
        let then_reg = match self.compile_block(then_block) {
            Ok(r) => r,
            Err(e) => return Err(e),
        };
        let ghost c2 = (sp2->Ok_0).0;
        let jump_end_pos = self.code.len();
        self.emit(Instruction::Jump { target: 0 });
        let else_start = self.code.len();
        let ghost code2 = code_view(self.code@);
        let ghost r2 = self.next_reg as int;
        assert(code_view(self.code@).len() == self.code@.len());
        assert(else_start == len0 + c1.len() + 1 + c2.len() + 1);
        let ghost sp3: BlockCode = match else_block {
            Some(eb) => c_stmts(eb.statements@, else_start as int, r2, loops0),
            None => Ok((Seq::empty(), None, r2)),
        };
        if let Some(else_block) = else_block {
            match self.compile_block(else_block) {
                Ok(_) => {},
                Err(e) => return Err(e),
            }
        } else {
            assert(code_view(self.code@) =~= code2 + Seq::<InstrView>::empty());
        }
        let ghost c3 = (sp3->Ok_0).0;
        assert(code_view(self.code@).len() == self.code@.len());
        assert(code_view(self.code@) == code2 + c3);
        assert(code2 == code1 + c2 + seq![InstrView::Jump { target: 0 }]) by {
            assert(code2 =~= code1 + c2 + seq![InstrView::Jump { target: 0 }]);
        }
        let end = self.code.len();
        self.patch(jump_if_false_pos, Instruction::JumpIfFalse { cond: cond_reg, target: else_start });
        self.patch(jump_end_pos, Instruction::Jump { target: end });
        assert(code_view(self.code@) =~= code0 + (c1.push(InstrView::JumpIfFalse { cond: cond_reg.0, target: else_start })
            + c2.push(InstrView::Jump { target: end }) + c3));
        Ok(
            match then_reg {
                Some(r) => r,
                None => Register(0),
            },
        )
    }

    /// Puts `i` at index `pos` of the code.
    fn patch(&mut self, pos: usize, i: Instruction)
        requires
            pos < old(self).code@.len(),
        ensures
            code_view(final(self).code@) == code_view(old(self).code@).update(pos as int, i@),
            final(self).code@.len() == old(self).code@.len(),
            final(self).next_reg == old(self).next_reg,
            final(self).loop_statement == old(self).loop_statement,
    {
        self.code.set(pos, i);
        assert(code_view(self.code@) =~= code_view(old(self).code@).update(pos as int, i@));
    }

    /// The code of a loop: see `c_expr`.
    fn compile_loop(&mut self, expr: &HIRExpression) -> (res: IRCompileResult<Register>)
        requires
            expr is Loop,
            old(self).room(h_expr(*expr)),
        ensures
            final(self).loops() == old(self).loops(),
            match c_expr(*expr, old(self).code@.len() as int, old(self).next_reg as int, old(self).loops()) {
                Ok((c, v, r)) => res matches Ok(x) && x.0 == v && Self::emitted(old(self), final(self), c, r)
                    && final(self).next_reg <= old(self).next_reg + h_expr(*expr)
                    && final(self).code@.len() <= old(self).code@.len() + 2 * h_expr(*expr),
                Err(e) => res == Err::<Register, IRCompileError>(e),
            },
        decreases expr, 0nat,
    {
        let HIRExpression::Loop { body } = expr else {
            vstd::pervasive::unreached()
        };
        let loop_start = self.code.len();
        let ghost loops0 = self.loops();
        let ghost stack0 = self.loop_statement@;
        self.loop_statement.push(LoopStatement::new(loop_start));
        assert(self.loops() =~= loops0.push(loop_start as int));
        let ghost code0 = code_view(self.code@);
        let ghost sp = c_stmts(body.statements@, loop_start as int, self.next_reg as int, loops0.push(loop_start as int));
        let compiled = self.compile_block(body);
        let ghost stack = self.loop_statement@;
        proof {
            assert(stack.map_values(|l: LoopStatement| l.loop_start as int) == loops0.push(loop_start as int));
            assert(stack.len() == loops0.len() + 1);
        }
        let Some(_) = self.loop_statement.pop() else {
            return Err(IRCompileError::InvalidLoopStatement);
        };
        proof {
            assert(self.loop_statement@ =~= stack.drop_last());
            assert forall|j: int| 0 <= j < loops0.len() implies self.loops()[j] == loops0[j] by {
                assert(self.loop_statement@[j] == stack[j]);
                assert(stack.map_values(|l: LoopStatement| l.loop_start as int)[j] == loops0.push(loop_start as int)[j]);
            }
            assert(self.loops() =~= loops0);
        }
        match compiled {
            Ok(_) => {},
            Err(e) => return Err(e),
        }
        self.emit(Instruction::Jump { target: loop_start });
        Ok(Register(0))
    }

    fn compile_break(&mut self) -> (res: IRCompileResult<Register>)
        requires
            old(self).code@.len() + 2 <= usize::MAX,
        ensures
            final(self).loop_statement == old(self).loop_statement,
            final(self).next_reg == old(self).next_reg,
            old(self).loops().len() == 0 ==> res == Err::<Register, IRCompileError>(IRCompileError::IllegalBreak),
            old(self).loops().len() != 0 ==> (res matches Ok(x) && x.0 == 0 && code_view(final(self).code@) == code_view(
                old(self).code@,
            ).push(InstrView::Jump { target: (old(self).code@.len() + 1) as usize })),
    {
        if self.loop_statement.len() == 0 {
            return Err(IRCompileError::IllegalBreak);
        }
        let target = self.code.len() + 1;
        self.emit(Instruction::Jump { target });
        Ok(Register(0))
    }

    fn compile_continue(&mut self) -> (res: IRCompileResult<Register>)
        requires
            old(self).code@.len() + 1 <= usize::MAX,
        ensures
            final(self).loop_statement == old(self).loop_statement,
            final(self).next_reg == old(self).next_reg,
            old(self).loops().len() == 0 ==> res == Err::<Register, IRCompileError>(IRCompileError::IllegalContinue),
            old(self).loops().len() != 0 ==> (res matches Ok(x) && x.0 == 0 && code_view(final(self).code@) == code_view(
                old(self).code@,
            ).push(InstrView::Jump { target: old(self).loops().last() as usize })),
    {
        let n = self.loop_statement.len();
        if n == 0 {
            return Err(IRCompileError::IllegalContinue);
        }
        let loop_start = self.loop_statement[n - 1].loop_start;
        self.emit(Instruction::Jump { target: loop_start });
        Ok(Register(0))
    }
}

pub open spec fn opt_reg_num(r: Option<Register>) -> Option<usize> {
    match r {
        Some(x) => Some(x.0),
        None => None,
    }
}

proof fn lemma_stmts_err(s: Seq<HIRStatement>, k: int, len: int, reg: int, loops: Seq<int>)
    requires
        0 <= k <= s.len(),
        c_stmts(s.take(k), len, reg, loops) is Err,
    ensures
        c_stmts(s, len, reg, loops) == c_stmts(s.take(k), len, reg, loops),
    decreases s.len() - k,
{
    if k < s.len() {
        assert(s.take(k + 1).drop_last() =~= s.take(k));
        lemma_stmts_err(s, k + 1, len, reg, loops);
    } else {
        assert(s.take(k) =~= s);
    }
}

proof fn lemma_args_err(s: Seq<HIRExpression>, k: int, len: int, reg: int, loops: Seq<int>)
    requires
        0 <= k <= s.len(),
        c_args(s.take(k), len, reg, loops) is Err,
    ensures
        c_args(s, len, reg, loops) == c_args(s.take(k), len, reg, loops),
    decreases s.len() - k,
{
    if k < s.len() {
        assert(s.take(k + 1).drop_last() =~= s.take(k));
        lemma_args_err(s, k + 1, len, reg, loops);
    } else {
        assert(s.take(k) =~= s);
    }
}

proof fn lemma_h_stmts_take(s: Seq<HIRStatement>, k: int)
    requires
        0 <= k <= s.len(),
    ensures
        h_stmts(s.take(k)) <= h_stmts(s),
    decreases s.len() - k,
{
    if k < s.len() {
        lemma_h_stmts_take(s, k + 1);
        assert(s.take(k + 1).drop_last() =~= s.take(k));
    } else {
        assert(s.take(k) =~= s);
    }
}

proof fn lemma_h_args_take(s: Seq<HIRExpression>, k: int)
    requires
        0 <= k <= s.len(),
    ensures
        h_args(s.take(k)) <= h_args(s),
    decreases s.len() - k,
{
    if k < s.len() {
        lemma_h_args_take(s, k + 1);
        assert(s.take(k + 1).drop_last() =~= s.take(k));
    } else {
        assert(s.take(k) =~= s);
    }
}

/// A comparison is compiled as an arithmetic operation on the same operands is: the same code
/// for the operands, left first, and then one instruction that takes the left operand's
/// register as its left input and the right operand's as its right input, and puts the result
/// in the same new register.
pub proof fn law_comparison_operands(
    op: ComparisonOperator,
    b: BinaryOperator,
    lhs: HIRExpression,
    rhs: HIRExpression,
    len: int,
    reg: int,
    loops: Seq<int>,
)
    ensures
        ({
            let cmp = c_expr(HIRExpression::CmpOp { op, lhs: Box::new(lhs), rhs: Box::new(rhs) }, len, reg, loops);
            let bin = c_expr(HIRExpression::BinOp { op: b, lhs: Box::new(lhs), rhs: Box::new(rhs) }, len, reg, loops);
            &&& (cmp is Ok <==> bin is Ok)
            &&& cmp matches Ok((c1, v1, n1)) ==> bin matches Ok((c2, v2, n2)) && c1.len() == c2.len() && c1.drop_last()
                == c2.drop_last() && v1 == v2 && n1 == n2 && c1.len() > 0 && (c1.last() matches InstrView::Cmp {
                dst: d1,
                op: o,
                lhs: l1,
                rhs: r1,
            } && c2.last() matches InstrView::BinOp { dst: d2, lhs: l2, rhs: r2, .. } && d1 == d2 && l1 == l2 && r1 == r2
                && o == op)
            &&& cmp matches Ok((c1, _, _)) ==> c_expr(lhs, len, reg, loops) matches Ok((cl, lv, r_l)) && c_expr(
                rhs,
                len + cl.len(),
                r_l,
                loops,
            ) matches Ok((_, rv, _)) && c1.last() matches InstrView::Cmp { lhs: l1, rhs: r1, .. } && l1 == lv && r1 == rv
        }),
{
}

} // verus!
