//! The module validator: one forward sweep over the instruction stream that
//! checks declaration-section ordering, basic-block structure, identifier
//! definition and use rules with their permitted forward references, and the
//! configured universal limits.  The outcome is pinned to the fold
//! `val_module`, so validation is deterministic and identical on replay.

use vstd::prelude::*;

use crate::inst::{Diagnostic, ErrorKind, InstV, Instruction, Module, ModuleV, OperandV, Severity};
use crate::schema::{
    schema_of, OP_ACCESS_CHAIN, OP_BRANCH, OP_BRANCH_CONDITIONAL, OP_CAPABILITY, OP_DECORATE,
    OP_ENTRY_POINT, OP_EXECUTION_MODE, OP_EXT_INST_IMPORT, OP_FUNCTION, OP_FUNCTION_CALL,
    OP_FUNCTION_END, OP_FUNCTION_PARAMETER, OP_LABEL, OP_LOOP_MERGE, OP_MEMBER_DECORATE,
    OP_MEMBER_NAME, OP_MEMORY_MODEL, OP_NAME, OP_PHI, OP_RETURN, OP_RETURN_VALUE,
    OP_LOAD, OP_SELECTION_MERGE, OP_SOURCE, OP_TYPE_FORWARD_POINTER, OP_TYPE_FUNCTION,
    OP_TYPE_STRUCT, OP_UNREACHABLE, OP_VARIABLE,
};

verus! {

/// The validator's options: the universal limits, and the layout-relaxation
/// switches recorded for completeness (the structural checks here do not
/// depend on them).
#[derive(Clone, Copy, PartialEq, Eq, Structural, Debug)]
pub struct Limits {
    pub max_struct_members: u32,
    pub max_function_args: u32,
    pub max_access_chain_indexes: u32,
    pub max_global_variables: u32,
    pub max_local_variables: u32,
    pub max_id_bound: u32,
}

/// The sweep's running state.
#[verifier::ext_equal]
pub struct ValSt {
    /// Identifiers defined so far.
    pub defined: Seq<u32>,
    /// Identifiers used under a module-level forward-reference permission,
    /// owed a definition by the end of the module.
    pub pending: Seq<u32>,
    /// Labels defined in the current function.
    pub labels: Seq<u32>,
    /// Branch targets referenced in the current function, owed a label
    /// definition by the function's end.
    pub pending_labels: Seq<u32>,
    /// The highest declaration-section rank seen.
    pub section: u32,
    /// Whether the sweep stands inside a function, and inside a block.
    pub in_function: bool,
    pub in_block: bool,
    /// Whether the functions section has begun: it is terminal, so no new
    /// module-scope declaration may follow the first function.
    pub seen_function: bool,
    /// Whether the current function has begun its first block.
    pub seen_block: bool,
    /// Global and current-function variable counts, against the limits.
    pub global_vars: u32,
    pub local_vars: u32,
}

/// The initial state.
pub open spec fn val_init() -> ValSt {
    ValSt {
        defined: seq![],
        pending: seq![],
        labels: seq![],
        pending_labels: seq![],
        section: 0,
        in_function: false,
        in_block: false,
        seen_function: false,
        seen_block: false,
        global_vars: 0,
        local_vars: 0,
    }
}

/// The declaration-section rank of a module-scope opcode, zero for a
/// function-body opcode.
pub open spec fn section_rank(op: u16) -> u32 {
    if op == OP_CAPABILITY {
        1
    } else if op == OP_EXT_INST_IMPORT {
        2
    } else if op == OP_MEMORY_MODEL {
        3
    } else if op == OP_ENTRY_POINT {
        4
    } else if op == OP_EXECUTION_MODE {
        5
    } else if op == OP_SOURCE {
        6
    } else if op == OP_NAME || op == OP_MEMBER_NAME {
        7
    } else if op == OP_DECORATE || op == OP_MEMBER_DECORATE {
        8
    } else {
        9
    }
}

/// Whether an instruction is a global declaration (a type, constant, or a
/// variable outside the function storage class).
pub open spec fn is_global_decl(i: InstV) -> bool {
    (crate::schema::OP_TYPE_VOID <= i.opcode <= crate::schema::OP_CONSTANT_COMPOSITE) || (i.opcode
        == OP_VARIABLE && !(i.operands.len() > 0 && i.operands[0] == (OperandV::Enumerated {
        kind: crate::schema::EnumKind::StorageClass,
        value: 7,
    })))
}

/// Whether an opcode ends a basic block.
pub open spec fn is_terminator(op: u16) -> bool {
    op == OP_BRANCH || op == OP_BRANCH_CONDITIONAL || op == OP_RETURN || op == OP_RETURN_VALUE
        || op == OP_UNREACHABLE
}

/// Whether operand `j` of `op` may refer forward to a definition later in
/// the module: debug names, decorations, entry points and execution modes,
/// forward type pointers, function callees, and value sources of phis.
pub open spec fn forward_allowed(op: u16, j: int) -> bool {
    if op == OP_NAME || op == OP_MEMBER_NAME || op == OP_DECORATE || op == OP_MEMBER_DECORATE
        || op == OP_EXECUTION_MODE || op == OP_TYPE_FORWARD_POINTER {
        j == 0
    } else if op == OP_ENTRY_POINT || op == OP_PHI {
        true
    } else if op == OP_FUNCTION_CALL {
        j == 0
    } else {
        false
    }
}

/// Whether operand `j` of `op` names a branch target: a label of the same
/// function, defined by the function's end.
pub open spec fn is_label_ref(op: u16, j: int) -> bool {
    if op == OP_BRANCH {
        j == 0
    } else if op == OP_BRANCH_CONDITIONAL {
        j == 1 || j == 2
    } else if op == OP_LOOP_MERGE {
        j == 0 || j == 1
    } else if op == OP_SELECTION_MERGE {
        j == 0
    } else {
        false
    }
}

/// Check one identifier use against the bound and the defined set, under a
/// possible forward permission.
pub open spec fn check_use(st: ValSt, x: u32, bound: u32, fwd: bool, label: bool) -> Result<
    ValSt,
    ErrorKind,
> {
    if x == 0 {
        Err(ErrorKind::UndefinedIdUse)
    } else if x >= bound {
        Err(ErrorKind::IdBoundExceeded)
    } else if label {
        Ok(ValSt { pending_labels: st.pending_labels.push(x), ..st })
    } else if st.defined.contains(x) {
        Ok(st)
    } else if fwd {
        Ok(ValSt { pending: st.pending.push(x), ..st })
    } else {
        Err(ErrorKind::UndefinedIdUse)
    }
}

/// Check the identifier operands of an instruction, left to right from
/// operand `j`.
pub open spec fn check_uses(st: ValSt, i: InstV, j: int, bound: u32) -> Result<ValSt, ErrorKind>
    decreases i.operands.len() - j
        when 0 <= j
{
    if j >= i.operands.len() {
        Ok(st)
    } else {
        match i.operands[j] {
            OperandV::Id(x) => match check_use(
                st,
                x,
                bound,
                forward_allowed(i.opcode, j),
                is_label_ref(i.opcode, j),
            ) {
                Err(e) => Err(e),
                Ok(st2) => check_uses(st2, i, j + 1, bound),
            },
            _ => check_uses(st, i, j + 1, bound),
        }
    }
}

/// Whether every element of `need` occurs in `have`.
pub open spec fn all_found(need: Seq<u32>, have: Seq<u32>) -> bool {
    forall|j: int| 0 <= j < need.len() ==> have.contains(#[trigger] need[j])
}

/// One step of the sweep: the structural placement checks, the identifier
/// checks, and the limit checks for one instruction.
pub open spec fn val_step(st: ValSt, i: InstV, bound: u32, lim: Limits) -> Result<
    ValSt,
    ErrorKind,
> {
    if schema_of(i.opcode) is None {
        // an opcode outside the table is the decoder's concern; permissive
        // streams pass it through unexamined
        Ok(st)
    } else {
        // placement
        let placed: Result<ValSt, ErrorKind> = if i.opcode == OP_FUNCTION {
            if st.in_function {
                Err(ErrorKind::UnterminatedBlock)
            } else {
                Ok(
                    ValSt {
                        in_function: true,
                        in_block: false,
                        seen_function: true,
                        seen_block: false,
                        labels: seq![],
                        pending_labels: seq![],
                        local_vars: 0,
                        section: 9,
                        ..st
                    },
                )
            }
        } else if i.opcode == OP_FUNCTION_PARAMETER {
            if st.in_function && !st.seen_block && !st.in_block {
                Ok(st)
            } else {
                Err(ErrorKind::StructuralOrderViolation)
            }
        } else if i.opcode == OP_LABEL {
            if !st.in_function {
                Err(ErrorKind::StructuralOrderViolation)
            } else if st.in_block {
                Err(ErrorKind::UnterminatedBlock)
            } else {
                Ok(ValSt { in_block: true, seen_block: true, ..st })
            }
        } else if i.opcode == OP_FUNCTION_END {
            if !st.in_function {
                Err(ErrorKind::StructuralOrderViolation)
            } else if st.in_block {
                Err(ErrorKind::UnterminatedBlock)
            } else if !all_found(st.pending_labels, st.labels) {
                Err(ErrorKind::UndefinedIdUse)
            } else {
                Ok(ValSt { in_function: false, in_block: false, seen_block: false, ..st })
            }
        } else if is_terminator(i.opcode) {
            if st.in_function && st.in_block {
                Ok(ValSt { in_block: false, ..st })
            } else {
                Err(ErrorKind::StructuralOrderViolation)
            }
        } else if st.in_function {
            // inside a function everything else is a block instruction
            if is_global_decl(i) {
                Err(ErrorKind::StructuralOrderViolation)
            } else if st.in_block {
                Ok(st)
            } else {
                Err(ErrorKind::StructuralOrderViolation)
            }
        } else {
            // module scope: sections never step backwards, nothing module
            // scoped may follow the first function, and a body instruction
            // never stands at module scope
            let r = section_rank(i.opcode);
            if !(is_global_decl(i) || section_rank(i.opcode) < 9) {
                Err(ErrorKind::StructuralOrderViolation)
            } else if st.seen_function {
                Err(ErrorKind::StructuralOrderViolation)
            } else if r < st.section {
                Err(ErrorKind::StructuralOrderViolation)
            } else {
                Ok(ValSt { section: r, ..st })
            }
        };
        match placed {
            Err(e) => Err(e),
            Ok(st1) => {
                // the result type is always a strictly earlier definition
                let rt_checked: Result<ValSt, ErrorKind> = match i.result_type_id {
                    Some(rt) => check_use(st1, rt, bound, false, false),
                    None => Ok(st1),
                };
                match rt_checked {
                    Err(e) => Err(e),
                    Ok(st2) => match check_uses(st2, i, 0, bound) {
                        Err(e) => Err(e),
                        Ok(st3) => val_step_finish(st3, i, bound, lim),
                    },
                }
            },
        }
    }
}

/// The sweep over the instruction stream from index `k` on.  An error
/// carries the index of the offending instruction.
pub open spec fn val_insts(st: ValSt, insts: Seq<InstV>, k: int, bound: u32, lim: Limits) -> Result<
    ValSt,
    (ErrorKind, int),
>
    decreases insts.len() - k
        when 0 <= k
{
    if k >= insts.len() {
        Ok(st)
    } else {
        match val_step(st, insts[k], bound, lim) {
            Err(e) => Err((e, k)),
            Ok(st2) => val_insts(st2, insts, k + 1, bound, lim),
        }
    }
}

/// The whole-module result: the identifier bound against its limit, the
/// sweep, an open function at the stream's end, and the module-level
/// forward references owed a definition.
pub open spec fn val_module(m: ModuleV, lim: Limits) -> Result<(), (ErrorKind, int)> {
    if m.header.id_bound > lim.max_id_bound {
        Err((ErrorKind::IdBoundExceeded, 0))
    } else {
        match val_insts(val_init(), m.instructions, 0, m.header.id_bound, lim) {
            Err(e) => Err(e),
            Ok(st) => {
                if st.in_function {
                    Err((ErrorKind::UnterminatedBlock, m.instructions.len() as int))
                } else if !all_found(st.pending, st.defined) {
                    Err((ErrorKind::UndefinedIdUse, m.instructions.len() as int))
                } else {
                    Ok(())
                }
            },
        }
    }
}


/// A growable set of identifiers.
pub struct IdSeq {
    pub items: Vec<u32>,
}

impl View for IdSeq {
    type V = Seq<u32>;

    open spec fn view(&self) -> Seq<u32> {
        self.items@
    }
}

impl IdSeq {
    fn new() -> (r: IdSeq)
        ensures
            r@ == Seq::<u32>::empty(),
    {
        IdSeq { items: Vec::new() }
    }

    fn clear(&mut self)
        ensures
            final(self)@ == Seq::<u32>::empty(),
    {
        self.items.clear();
    }

    fn push(&mut self, x: u32)
        ensures
            final(self)@ == old(self)@.push(x),
    {
        self.items.push(x);
    }

    #[verifier::loop_isolation(false)]
    fn contains(&self, x: u32) -> (r: bool)
        ensures
            r == self@.contains(x),
    {
        let mut j: usize = 0;
        while j < self.items.len()
            invariant
                j <= self.items@.len(),
                forall|t: int| 0 <= t < j ==> self.items@[t] != x,
            decreases self.items@.len() - j,
        {
            if self.items[j] == x {
                return true;
            }
            j += 1;
        }
        false
    }

    /// Whether every element of `other` occurs in this set.
    #[verifier::loop_isolation(false)]
    fn contains_all(&self, other: &IdSeq) -> (r: bool)
        ensures
            r == all_found(other@, self@),
    {
        let mut j: usize = 0;
        while j < other.items.len()
            invariant
                j <= other.items@.len(),
                forall|t: int| 0 <= t < j ==> self.items@.contains(#[trigger] other.items@[t]),
            decreases other.items@.len() - j,
        {
            if !self.contains(other.items[j]) {
                return false;
            }
            j += 1;
        }
        true
    }
}

/// The executable sweep state.
pub struct Validator {
    pub defined: IdSeq,
    pub pending: IdSeq,
    pub labels: IdSeq,
    pub pending_labels: IdSeq,
    pub section: u32,
    pub in_function: bool,
    pub in_block: bool,
    pub seen_function: bool,
    pub seen_block: bool,
    pub global_vars: u32,
    pub local_vars: u32,
}

impl View for Validator {
    type V = ValSt;

    open spec fn view(&self) -> ValSt {
        ValSt {
            defined: self.defined@,
            pending: self.pending@,
            labels: self.labels@,
            pending_labels: self.pending_labels@,
            section: self.section,
            in_function: self.in_function,
            in_block: self.in_block,
            seen_function: self.seen_function,
            seen_block: self.seen_block,
            global_vars: self.global_vars,
            local_vars: self.local_vars,
        }
    }
}

impl Validator {
    /// Check one identifier use.
    fn check_use_exec(&mut self, x: u32, bound: u32, fwd: bool, label: bool) -> (r: Result<
        (),
        ErrorKind,
    >)
        ensures
            match r {
                Ok(()) => check_use(old(self)@, x, bound, fwd, label) == Ok::<ValSt, ErrorKind>(
                    final(self)@,
                ),
                Err(e) => check_use(old(self)@, x, bound, fwd, label) == Err::<ValSt, ErrorKind>(e)
                    && final(self)@ == old(self)@,
            },
    {
        if x == 0 {
            return Err(ErrorKind::UndefinedIdUse);
        }
        if x >= bound {
            return Err(ErrorKind::IdBoundExceeded);
        }
        if label {
            self.pending_labels.push(x);
            proof {
                assert(self@ =~= (ValSt { pending_labels: old(self)@.pending_labels.push(x), ..old(self)@ }));
            }
            return Ok(());
        }
        if self.defined.contains(x) {
            return Ok(());
        }
        if fwd {
            self.pending.push(x);
            proof {
                assert(self@ =~= (ValSt { pending: old(self)@.pending.push(x), ..old(self)@ }));
            }
            return Ok(());
        }
        Err(ErrorKind::UndefinedIdUse)
    }

    /// Check the identifier operands of one instruction.
    #[verifier::loop_isolation(false)]
    fn check_uses_exec(&mut self, i: &Instruction, bound: u32) -> (r: Result<(), ErrorKind>)
        ensures
            match r {
                Ok(()) => check_uses(old(self)@, i@, 0, bound) == Ok::<ValSt, ErrorKind>(
                    final(self)@,
                ),
                Err(e) => check_uses(old(self)@, i@, 0, bound) == Err::<ValSt, ErrorKind>(e),
            },
    {
        let ghost target = check_uses(self@, i@, 0, bound);
        let mut j: usize = 0;
        while j < i.operands.len()
            invariant
                j <= i@.operands.len(),
                check_uses(self@, i@, j as int, bound) == target,
            decreases i@.operands.len() - j,
        {
            proof {
                assert(i@.operands[j as int] == i.operands@[j as int]@);
            }
            match &i.operands[j] {
                crate::inst::Operand::Id(x) => {
                    let fwd = forward_allowed_exec(i.opcode, j);
                    let label = is_label_ref_exec(i.opcode, j);
                    match self.check_use_exec(*x, bound, fwd, label) {
                        Err(e) => {
                            return Err(e);
                        },
                        Ok(()) => {},
                    }
                },
                _ => {},
            }
            j += 1;
        }
        Ok(())
    }
}

/// Executable form of `forward_allowed`.
fn forward_allowed_exec(op: u16, j: usize) -> (r: bool)
    ensures
        r == forward_allowed(op, j as int),
{
    if op == OP_NAME || op == OP_MEMBER_NAME || op == OP_DECORATE || op == OP_MEMBER_DECORATE
        || op == OP_EXECUTION_MODE || op == OP_TYPE_FORWARD_POINTER {
        j == 0
    } else if op == OP_ENTRY_POINT || op == OP_PHI {
        true
    } else if op == OP_FUNCTION_CALL {
        j == 0
    } else {
        false
    }
}

/// Executable form of `is_label_ref`.
fn is_label_ref_exec(op: u16, j: usize) -> (r: bool)
    ensures
        r == is_label_ref(op, j as int),
{
    if op == OP_BRANCH {
        j == 0
    } else if op == OP_BRANCH_CONDITIONAL {
        j == 1 || j == 2
    } else if op == OP_LOOP_MERGE {
        j == 0 || j == 1
    } else if op == OP_SELECTION_MERGE {
        j == 0
    } else {
        false
    }
}

/// Executable form of `section_rank`.
fn section_rank_exec(op: u16) -> (r: u32)
    ensures
        r == section_rank(op),
{
    if op == OP_CAPABILITY {
        1
    } else if op == OP_EXT_INST_IMPORT {
        2
    } else if op == OP_MEMORY_MODEL {
        3
    } else if op == OP_ENTRY_POINT {
        4
    } else if op == OP_EXECUTION_MODE {
        5
    } else if op == OP_SOURCE {
        6
    } else if op == OP_NAME || op == OP_MEMBER_NAME {
        7
    } else if op == OP_DECORATE || op == OP_MEMBER_DECORATE {
        8
    } else {
        9
    }
}

/// Executable form of `is_terminator`.
fn is_terminator_exec(op: u16) -> (r: bool)
    ensures
        r == is_terminator(op),
{
    op == OP_BRANCH || op == OP_BRANCH_CONDITIONAL || op == OP_RETURN || op == OP_RETURN_VALUE
        || op == OP_UNREACHABLE
}

/// Executable form of `is_global_decl`.
fn is_global_decl_exec(i: &Instruction) -> (r: bool)
    ensures
        r == is_global_decl(i@),
{
    if crate::schema::OP_TYPE_VOID <= i.opcode && i.opcode <= crate::schema::OP_CONSTANT_COMPOSITE {
        return true;
    }
    if i.opcode != OP_VARIABLE {
        return false;
    }
    if i.operands.len() > 0 {
        proof {
            assert(i@.operands[0] == i.operands@[0]@);
        }
        match &i.operands[0] {
            crate::inst::Operand::Enumerated { kind, value } => {
                if *kind == crate::schema::EnumKind::StorageClass && *value == 7 {
                    return false;
                }
            },
            _ => {},
        }
    }
    true
}


impl Validator {
    /// One step of the sweep over one instruction.
    #[verifier::loop_isolation(false)]
    #[verifier::rlimit(100)]
    fn step(&mut self, i: &Instruction, bound: u32, lim: Limits) -> (r: Result<(), ErrorKind>)
        ensures
            match r {
                Ok(()) => val_step(old(self)@, i@, bound, lim) == Ok::<ValSt, ErrorKind>(
                    final(self)@,
                ),
                Err(e) => val_step(old(self)@, i@, bound, lim) == Err::<ValSt, ErrorKind>(e),
            },
    {
        if crate::schema::schema_for(i.opcode).is_none() {
            return Ok(());
        }
        // placement
        if i.opcode == OP_FUNCTION {
            if self.in_function {
                return Err(ErrorKind::UnterminatedBlock);
            }
            self.in_function = true;
            self.in_block = false;
            self.seen_function = true;
            self.seen_block = false;
            self.labels.clear();
            self.pending_labels.clear();
            self.local_vars = 0;
            self.section = 9;
        } else if i.opcode == OP_FUNCTION_PARAMETER {
            if !(self.in_function && !self.seen_block && !self.in_block) {
                return Err(ErrorKind::StructuralOrderViolation);
            }
        } else if i.opcode == OP_LABEL {
            if !self.in_function {
                return Err(ErrorKind::StructuralOrderViolation);
            }
            if self.in_block {
                return Err(ErrorKind::UnterminatedBlock);
            }
            self.in_block = true;
            self.seen_block = true;
        } else if i.opcode == OP_FUNCTION_END {
            if !self.in_function {
                return Err(ErrorKind::StructuralOrderViolation);
            }
            if self.in_block {
                return Err(ErrorKind::UnterminatedBlock);
            }
            if !self.labels.contains_all(&self.pending_labels) {
                return Err(ErrorKind::UndefinedIdUse);
            }
            self.in_function = false;
            self.in_block = false;
            self.seen_block = false;
        } else if is_terminator_exec(i.opcode) {
            if !(self.in_function && self.in_block) {
                return Err(ErrorKind::StructuralOrderViolation);
            }
            self.in_block = false;
        } else if self.in_function {
            if is_global_decl_exec(i) {
                return Err(ErrorKind::StructuralOrderViolation);
            }
            if !self.in_block {
                return Err(ErrorKind::StructuralOrderViolation);
            }
        } else {
            let r = section_rank_exec(i.opcode);
            if !(is_global_decl_exec(i) || r < 9) {
                return Err(ErrorKind::StructuralOrderViolation);
            }
            if self.seen_function {
                return Err(ErrorKind::StructuralOrderViolation);
            }
            if r < self.section {
                return Err(ErrorKind::StructuralOrderViolation);
            }
            self.section = r;
        }
        let ghost st1 = self@;
        proof {
            assert(val_step(old(self)@, i@, bound, lim) == (match (match i@.result_type_id {
                Some(rt) => check_use(st1, rt, bound, false, false),
                None => Ok::<ValSt, ErrorKind>(st1),
            }) {
                Err(e) => Err::<ValSt, ErrorKind>(e),
                Ok(st2) => match check_uses(st2, i@, 0, bound) {
                    Err(e) => Err(e),
                    Ok(st3) => val_step_finish(st3, i@, bound, lim),
                },
            }));
        }
        // result type
        if let Some(rt) = i.result_type_id {
            match self.check_use_exec(rt, bound, false, false) {
                Err(e) => {
                    return Err(e);
                },
                Ok(()) => {},
            }
        }
        // identifier operands
        match self.check_uses_exec(i, bound) {
            Err(e) => {
                return Err(e);
            },
            Ok(()) => {},
        }
        // definition
        if let Some(rid) = i.result_id {
            if rid == 0 {
                return Err(ErrorKind::UndefinedIdUse);
            }
            if rid >= bound {
                return Err(ErrorKind::IdBoundExceeded);
            }
            if self.defined.contains(rid) {
                return Err(ErrorKind::DuplicateIdDefinition);
            }
            self.defined.push(rid);
            if i.opcode == OP_LABEL {
                self.labels.push(rid);
            }
        }
        // limits
        if i.opcode == OP_TYPE_STRUCT && i.operands.len() > lim.max_struct_members as usize {
            return Err(ErrorKind::LimitExceeded);
        }
        if i.opcode == OP_TYPE_FUNCTION && i.operands.len() >= 1 && i.operands.len() - 1
            > lim.max_function_args as usize {
            return Err(ErrorKind::LimitExceeded);
        }
        if i.opcode == OP_ACCESS_CHAIN && i.operands.len() >= 1 && i.operands.len() - 1
            > lim.max_access_chain_indexes as usize {
            return Err(ErrorKind::LimitExceeded);
        }
        if i.opcode == OP_VARIABLE && !self.in_function {
            if self.global_vars as u64 + 1 > lim.max_global_variables as u64 {
                return Err(ErrorKind::LimitExceeded);
            }
            self.global_vars = self.global_vars + 1;
        } else if i.opcode == OP_VARIABLE && self.in_function {
            if self.local_vars as u64 + 1 > lim.max_local_variables as u64 {
                return Err(ErrorKind::LimitExceeded);
            }
            self.local_vars = self.local_vars + 1;
        }
        Ok(())
    }
}

/// The tail of `val_step` after the placement and use checks: definition and
/// limits.
pub open spec fn val_step_finish(st3: ValSt, i: InstV, bound: u32, lim: Limits) -> Result<
    ValSt,
    ErrorKind,
> {
    let defined: Result<ValSt, ErrorKind> = match i.result_id {
        Some(rid) => {
            if rid == 0 {
                Err(ErrorKind::UndefinedIdUse)
            } else if rid >= bound {
                Err(ErrorKind::IdBoundExceeded)
            } else if st3.defined.contains(rid) {
                Err(ErrorKind::DuplicateIdDefinition)
            } else if i.opcode == OP_LABEL {
                Ok(ValSt { defined: st3.defined.push(rid), labels: st3.labels.push(rid), ..st3 })
            } else {
                Ok(ValSt { defined: st3.defined.push(rid), ..st3 })
            }
        },
        None => Ok(st3),
    };
    match defined {
        Err(e) => Err(e),
        Ok(st4) => {
            if i.opcode == OP_TYPE_STRUCT && i.operands.len() > lim.max_struct_members {
                Err(ErrorKind::LimitExceeded)
            } else if i.opcode == OP_TYPE_FUNCTION && i.operands.len() - 1 > lim.max_function_args {
                Err(ErrorKind::LimitExceeded)
            } else if i.opcode == OP_ACCESS_CHAIN && i.operands.len() - 1
                > lim.max_access_chain_indexes {
                Err(ErrorKind::LimitExceeded)
            } else if i.opcode == OP_VARIABLE && !st4.in_function {
                if st4.global_vars + 1 > lim.max_global_variables {
                    Err(ErrorKind::LimitExceeded)
                } else {
                    Ok(ValSt { global_vars: (st4.global_vars + 1) as u32, ..st4 })
                }
            } else if i.opcode == OP_VARIABLE && st4.in_function {
                if st4.local_vars + 1 > lim.max_local_variables {
                    Err(ErrorKind::LimitExceeded)
                } else {
                    Ok(ValSt { local_vars: (st4.local_vars + 1) as u32, ..st4 })
                }
            } else {
                Ok(st4)
            }
        },
    }
}

/// Validate a whole module against the given limits.  The outcome equals
/// `val_module`; a failure carries the index of the offending instruction
/// (one past the last for a fault only visible at the stream's end).
#[verifier::loop_isolation(false)]
pub fn validate_module(m: &Module, lim: Limits) -> (r: Result<(), (ErrorKind, usize)>)
    ensures
        match r {
            Ok(()) => val_module(m@, lim) == Ok::<(), (ErrorKind, int)>(()),
            Err((e, k)) => val_module(m@, lim) == Err::<(), (ErrorKind, int)>((e, k as int)),
        },
{
    if m.header.id_bound > lim.max_id_bound {
        return Err((ErrorKind::IdBoundExceeded, 0));
    }
    let bound = m.header.id_bound;
    let mut st = Validator {
        defined: IdSeq::new(),
        pending: IdSeq::new(),
        labels: IdSeq::new(),
        pending_labels: IdSeq::new(),
        section: 0,
        in_function: false,
        in_block: false,
        seen_function: false,
        seen_block: false,
        global_vars: 0,
        local_vars: 0,
    };
    proof {
        assert(st@ =~= val_init());
    }
    let ghost target = val_insts(val_init(), m@.instructions, 0, bound, lim);
    let mut k: usize = 0;
    while k < m.instructions.len()
        invariant
            k <= m@.instructions.len(),
            val_insts(st@, m@.instructions, k as int, bound, lim) == target,
        decreases m@.instructions.len() - k,
    {
        proof {
            assert(m@.instructions[k as int] == m.instructions@[k as int]@);
        }
        match st.step(&m.instructions[k], bound, lim) {
            Err(e) => {
                return Err((e, k));
            },
            Ok(()) => {},
        }
        k += 1;
    }
    if st.in_function {
        return Err((ErrorKind::UnterminatedBlock, m.instructions.len()));
    }
    if !st.defined.contains_all(&st.pending) {
        return Err((ErrorKind::UndefinedIdUse, m.instructions.len()));
    }
    Ok(())
}


/// The exhaustive sweep: every violation is recorded with its instruction
/// index, the offending instruction is then skipped, and the pass goes on,
/// so one pass reports every violation.
pub open spec fn val_insts_all(
    st: ValSt,
    insts: Seq<InstV>,
    k: int,
    bound: u32,
    lim: Limits,
) -> (ValSt, Seq<(ErrorKind, int)>)
    decreases insts.len() - k
        when 0 <= k
{
    if k >= insts.len() {
        (st, seq![])
    } else {
        match val_step(st, insts[k], bound, lim) {
            Ok(st2) => val_insts_all(st2, insts, k + 1, bound, lim),
            Err(e) => {
                let r = val_insts_all(st, insts, k + 1, bound, lim);
                (r.0, seq![(e, k)] + r.1)
            },
        }
    }
}

/// Every violation of a module, in one pass and in module order; the
/// stream's-end faults carry the index one past the last instruction.
pub open spec fn val_module_all(m: ModuleV, lim: Limits) -> Seq<(ErrorKind, int)> {
    let head: Seq<(ErrorKind, int)> = if m.header.id_bound > lim.max_id_bound {
        seq![(ErrorKind::IdBoundExceeded, 0int)]
    } else {
        seq![]
    };
    let r = val_insts_all(val_init(), m.instructions, 0, m.header.id_bound, lim);
    let tail1: Seq<(ErrorKind, int)> = if r.0.in_function {
        seq![(ErrorKind::UnterminatedBlock, m.instructions.len() as int)]
    } else {
        seq![]
    };
    let tail2: Seq<(ErrorKind, int)> = if !all_found(r.0.pending, r.0.defined) {
        seq![(ErrorKind::UndefinedIdUse, m.instructions.len() as int)]
    } else {
        seq![]
    };
    head + r.1 + tail1 + tail2
}

proof fn lemma_val_insts_modes(st: ValSt, insts: Seq<InstV>, k: int, bound: u32, lim: Limits)
    requires
        0 <= k,
    ensures
        val_insts(st, insts, k, bound, lim) is Ok <==> val_insts_all(
            st,
            insts,
            k,
            bound,
            lim,
        ).1.len() == 0,
        val_insts(st, insts, k, bound, lim) matches Ok(stf) ==> val_insts_all(
            st,
            insts,
            k,
            bound,
            lim,
        ).0 == stf,
    decreases insts.len() - k,
{
    if k < insts.len() {
        match val_step(st, insts[k], bound, lim) {
            Ok(st2) => {
                lemma_val_insts_modes(st2, insts, k + 1, bound, lim);
            },
            Err(e) => {
                lemma_val_insts_modes(st, insts, k + 1, bound, lim);
            },
        }
    }
}

/// The two validation modes agree: the fail-fast sweep accepts a module
/// exactly when the exhaustive sweep reports nothing.
pub proof fn lemma_validation_modes_agree(m: ModuleV, lim: Limits)
    ensures
        val_module(m, lim) is Ok <==> val_module_all(m, lim).len() == 0,
{
    lemma_val_insts_modes(val_init(), m.instructions, 0, m.header.id_bound, lim);
}

impl IdSeq {
    /// A copy with the same contents.
    #[verifier::loop_isolation(false)]
    fn duplicate(&self) -> (r: IdSeq)
        ensures
            r@ == self@,
    {
        let mut items: Vec<u32> = Vec::new();
        let mut j: usize = 0;
        while j < self.items.len()
            invariant
                j <= self.items@.len(),
                items@ == self.items@.take(j as int),
            decreases self.items@.len() - j,
        {
            items.push(self.items[j]);
            proof {
                assert(items@ =~= self.items@.take(j + 1));
            }
            j += 1;
        }
        proof {
            assert(self.items@.take(self.items@.len() as int) =~= self.items@);
        }
        IdSeq { items }
    }
}

impl Validator {
    /// A copy of the whole sweep state.
    fn duplicate(&self) -> (r: Validator)
        ensures
            r@ == self@,
    {
        let r = Validator {
            defined: self.defined.duplicate(),
            pending: self.pending.duplicate(),
            labels: self.labels.duplicate(),
            pending_labels: self.pending_labels.duplicate(),
            section: self.section,
            in_function: self.in_function,
            in_block: self.in_block,
            seen_function: self.seen_function,
            seen_block: self.seen_block,
            global_vars: self.global_vars,
            local_vars: self.local_vars,
        };
        proof {
            assert(r@ =~= self@);
        }
        r
    }
}

/// The views of collected diagnostics, as kind and index pairs.
pub open spec fn diags_view(ds: Seq<Diagnostic>) -> Seq<(ErrorKind, int)> {
    Seq::new(ds.len(), |j: int| (ds[j].kind, ds[j].position.word_index as int))
}

/// Validate a whole module in exhaustive mode: every violation of the sweep
/// is reported in one pass, in module order, each as a diagnostic at its
/// instruction's index.
#[verifier::loop_isolation(false)]
pub fn validate_module_exhaustive(m: &Module, lim: Limits) -> (r: Vec<Diagnostic>)
    ensures
        diags_view(r@) == val_module_all(m@, lim),
        forall|j: int|
            0 <= j < r@.len() ==> (#[trigger] r@[j]).severity == Severity::Error
                && r@[j].position.line == 0 && r@[j].position.column == 0,
{
    let bound = m.header.id_bound;
    let mut out: Vec<Diagnostic> = Vec::new();
    if m.header.id_bound > lim.max_id_bound {
        out.push(Diagnostic::at_word(ErrorKind::IdBoundExceeded, 0));
    }
    let ghost head = diags_view(out@);
    let ghost target = val_insts_all(val_init(), m@.instructions, 0, bound, lim);
    let mut st = Validator {
        defined: IdSeq::new(),
        pending: IdSeq::new(),
        labels: IdSeq::new(),
        pending_labels: IdSeq::new(),
        section: 0,
        in_function: false,
        in_block: false,
        seen_function: false,
        seen_block: false,
        global_vars: 0,
        local_vars: 0,
    };
    proof {
        assert(st@ =~= val_init());
        assert(head + val_insts_all(st@, m@.instructions, 0, bound, lim).1 =~= head + target.1);
    }
    let mut k: usize = 0;
    while k < m.instructions.len()
        invariant
            k <= m@.instructions.len(),
            val_insts_all(st@, m@.instructions, k as int, bound, lim).0 == target.0,
            diags_view(out@) + val_insts_all(st@, m@.instructions, k as int, bound, lim).1 == head
                + target.1,
            forall|j: int|
                0 <= j < out@.len() ==> (#[trigger] out@[j]).severity == Severity::Error
                    && out@[j].position.line == 0 && out@[j].position.column == 0,
        decreases m@.instructions.len() - k,
    {
        proof {
            assert(m@.instructions[k as int] == m.instructions@[k as int]@);
        }
        let backup = st.duplicate();
        let ghost st0 = st@;
        match st.step(&m.instructions[k], bound, lim) {
            Ok(()) => {},
            Err(e) => {
                st = backup;
                out.push(Diagnostic::at_word(e, k));
                proof {
                    assert(val_insts_all(st0, m@.instructions, k as int, bound, lim).1 == seq![
                        (e, k as int),
                    ] + val_insts_all(st0, m@.instructions, k + 1, bound, lim).1);
                    assert(diags_view(out@) =~= diags_view(out@.take(out@.len() - 1)).push(
                        (e, k as int),
                    ));
                    assert(diags_view(out@.take(out@.len() - 1)) =~= Seq::new(
                        (out@.len() - 1) as nat,
                        |j: int| (out@[j].kind, out@[j].position.word_index as int),
                    ));
                    assert(diags_view(out@) + val_insts_all(
                        st@,
                        m@.instructions,
                        k + 1,
                        bound,
                        lim,
                    ).1 =~= head + target.1);
                }
            },
        }
        k += 1;
    }
    let ghost stf = st@;
    let ghost nlen = m@.instructions.len() as int;
    proof {
        assert(val_insts_all(stf, m@.instructions, nlen, bound, lim).1 =~= Seq::<
            (ErrorKind, int),
        >::empty());
        assert(val_insts_all(stf, m@.instructions, nlen, bound, lim).0 == stf);
        assert(stf == target.0);
        assert(diags_view(out@) =~= head + target.1);
    }
    let ghost tail1: Seq<(ErrorKind, int)> = if target.0.in_function {
        seq![(ErrorKind::UnterminatedBlock, nlen)]
    } else {
        seq![]
    };
    if st.in_function {
        out.push(Diagnostic::at_word(ErrorKind::UnterminatedBlock, m.instructions.len()));
    }
    proof {
        assert(diags_view(out@) =~= head + target.1 + tail1);
    }
    let ghost tail2: Seq<(ErrorKind, int)> = if !all_found(target.0.pending, target.0.defined) {
        seq![(ErrorKind::UndefinedIdUse, nlen)]
    } else {
        seq![]
    };
    if !st.defined.contains_all(&st.pending) {
        out.push(Diagnostic::at_word(ErrorKind::UndefinedIdUse, m.instructions.len()));
    }
    proof {
        assert(diags_view(out@) =~= head + target.1 + tail1 + tail2);
        assert(val_module_all(m@, lim) == head + target.1 + tail1 + tail2);
    }
    out
}


/// The forward-reference rule, permitted side: an identifier used under a
/// module-level forward permission never fails for being undefined, whatever
/// the sweep has seen — it is owed a definition only by the module's end.
/// A function call's callee carries that permission.
pub proof fn lemma_forward_reference_permitted(st: ValSt, x: u32, bound: u32)
    requires
        x != 0,
        x < bound,
    ensures
        check_use(st, x, bound, true, false) is Ok,
        forward_allowed(OP_FUNCTION_CALL, 0),
{
}

/// The forward-reference rule, forbidden side: an identifier used without a
/// forward permission and not yet defined is an undefined use, whatever
/// comes later.  A load's pointer operand carries no permission.
pub proof fn lemma_backward_use_required(st: ValSt, x: u32, bound: u32)
    requires
        x != 0,
        x < bound,
        !st.defined.contains(x),
    ensures
        check_use(st, x, bound, false, false) == Err::<ValSt, ErrorKind>(
            ErrorKind::UndefinedIdUse,
        ),
        !forward_allowed(OP_LOAD, 0),
{
}

} // verus!
