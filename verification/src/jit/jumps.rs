//! The control transfers that end a compiled block, executed against the console.
use vstd::prelude::*;
use crate::common::{get_rs, get_rt, get_rd, get_imm16, get_imm26, get_primary_field, get_secondary_field, primary_field, secondary_field, rs_field, rt_field, rd_field, imm16_field, imm26_field};
use crate::register::{signed, wrap32, sign_extend_16, to_signed};
use crate::console::Console;
use crate::console::Name;
use crate::console::MaybeSet;
use crate::console::cop0::Cop0;
use crate::console::cop0::Cop0Exception;
use crate::interpreter::{jump_target, relative_target};
use crate::interpreter::spec::{gpr_of, set_gpr, modified_by, zero_branch_taken, branch_target, decodable, executes};
use crate::interpreter::Executed;
use crate::console::DelayedWrite;
use crate::console::gte::GTE;

verus! {

/// The instructions that end a block: JR, JALR and SYSCALL, the single-register
/// branches (BLTZ, BGEZ, BLEZ, BGTZ), J, JAL, BEQ and BNE.
pub open spec fn ends_block(op: u32) -> bool {
    let p = primary_field(op);
    let f = secondary_field(op);
    let t = rt_field(op);
    ||| p == 0 && (f == 0x08 || f == 0x09 || f == 0x0c)
    ||| p == 1 && (t == 0 || t == 1)
    ||| 2 <= p <= 7
}

/// Every instruction that can move the program counter elsewhere ends a block: when
/// the interpreter executes an instruction (other than a coprocessor one) and it
/// names a next program counter, the instruction is one that ends a block. SYSCALL,
/// which moves to the exception handler, ends one too.
pub proof fn lemma_transfers_end_blocks(
    op: u32,
    regs: Seq<u32>,
    queue: Seq<DelayedWrite>,
    cop0: Cop0,
    gte: GTE,
    post: Console,
    r: Executed,
)
    requires
        decodable(op),
        primary_field(op) != 0x10 && primary_field(op) != 0x12,
        executes(op, regs, queue, cop0, gte, post, r),
    ensures
        r.next_pc is Some ==> ends_block(op),
        primary_field(op) == 0 && secondary_field(op) == 0x0c ==> ends_block(op),
{
}

/// Whether `op` ends a block.
pub fn is_block_end(op: u32) -> (r: bool)
    ensures
        r == ends_block(op),
{
    let p = get_primary_field(op);
    let f = get_secondary_field(op);
    let t = get_rt(op);
    (p == 0 && (f == 0x08 || f == 0x09 || f == 0x0c)) || (p == 1 && (t == 0 || t == 1)) || (2 <= p
        && p <= 7)
}

/// The register values for which the jump computes its target without overflow: a
/// taken single-register branch multiplies its offset as a 16-bit number.
pub open spec fn jump_no_panic(op: u32, regs: Seq<u32>) -> bool {
    let p = primary_field(op);
    let rs = gpr_of(regs, rs_field(op));
    let off = signed(sign_extend_16(imm16_field(op)));
    (p == 1 || p == 6 || p == 7) && zero_branch_taken(op, rs) ==> -0x2000 <= off < 0x2000
}

/// A jump to the address in a register: a misaligned target raises an address error
/// (the program counter then holds the handler) and does not transfer.
pub open spec fn register_jump(
    target: u32,
    regs: Seq<u32>,
    pre: Console,
    post: Console,
    r: Option<u32>,
) -> bool {
    if target % 4 != 0 {
        &&& post.r3000@ == regs.update(32, pre.cop0.exception_vector_spec())
        &&& post.cop0.epc() == regs[32]
        &&& post.cop0.cause() == Cop0::cause_after(pre.cop0.cause(), Cop0Exception::LoadAddress)
        &&& post.cop0.sr() == Cop0::sr_after_exception(pre.cop0.sr())
        &&& r is None
    } else {
        &&& post.r3000@ == regs
        &&& post.cop0 == pre.cop0
        &&& r == Some(target)
    }
}

/// Executing the block-ending instruction `op` takes the console `pre` to `post` and
/// gives `r`, the address to continue at after the delay slot (none when the branch
/// is not taken or the jump faulted).
pub open spec fn jumps_as(op: u32, pre: Console, post: Console, r: Option<u32>) -> bool {
    let p = primary_field(op);
    let f = secondary_field(op);
    let regs = pre.r3000@;
    let pc = regs[32];
    let rs = gpr_of(regs, rs_field(op));
    let rt = gpr_of(regs, rt_field(op));
    let imm = imm16_field(op);
    &&& post.gpu == pre.gpu
    &&& post.gte == pre.gte
    &&& post.cd == pre.cd
    &&& post.next_pc == pre.next_pc
    &&& post.delayed_writes@ == pre.delayed_writes@
    &&& post.overwritten@ == pre.overwritten@
    &&& post.i == pre.i
    &&& if p == 0 && f == 0x08 {
        &&& register_jump(rs, regs, pre, post, r)
        &&& post.modified_register == pre.modified_register
    } else if p == 0 && f == 0x09 {
        let linked = set_gpr(regs, rd_field(op), wrap32(pc + 4));
        &&& register_jump(gpr_of(linked, rs_field(op)), linked, pre, post, r)
        &&& post.modified_register == modified_by(rd_field(op))
    } else if p == 0 {
        &&& post.r3000@ == regs
        &&& post.cop0.epc() == pc
        &&& post.cop0.cause() == Cop0::cause_after(pre.cop0.cause(), Cop0Exception::Syscall)
        &&& post.cop0.sr() == Cop0::sr_after_exception(pre.cop0.sr())
        &&& post.modified_register == pre.modified_register
        &&& r == Some(pre.cop0.exception_vector_spec())
    } else if p == 0x02 || p == 0x03 {
        &&& post.r3000@ == (if p == 0x03 {
            regs.update(31, wrap32(pc + 4))
        } else {
            regs
        })
        &&& post.cop0 == pre.cop0
        &&& post.modified_register == (if p == 0x03 {
            Some(Name::Rn(31))
        } else {
            pre.modified_register
        })
        &&& r == Some(((pc & 0xf000_0000) + imm26_field(op) * 4) as u32)
    } else {
        let taken = if p == 0x04 {
            rs == rt
        } else if p == 0x05 {
            rs != rt
        } else {
            zero_branch_taken(op, rs)
        };
        &&& post.r3000@ == regs
        &&& post.cop0 == pre.cop0
        &&& post.modified_register == pre.modified_register
        &&& r == (if taken {
            Some(branch_target(pc, imm))
        } else {
            None
        })
    }
}

/// Jumps to the address held in general purpose register `idx`, or raises an address
/// error when it is not word aligned.
fn jump_to_register(console: &mut Console, idx: u32) -> (r: Option<u32>)
    requires
        idx < 32,
        old(console).r3000@.len() == 35,
    ensures
        register_jump(
            gpr_of(old(console).r3000@, idx),
            old(console).r3000@,
            *old(console),
            *final(console),
            r,
        ),
        final(console).gpu == old(console).gpu,
        final(console).gte == old(console).gte,
        final(console).cd == old(console).cd,
        final(console).next_pc == old(console).next_pc,
        final(console).delayed_writes@ == old(console).delayed_writes@,
        final(console).overwritten@ == old(console).overwritten@,
        final(console).i == old(console).i,
        final(console).modified_register == old(console).modified_register,
{
    let target = console.r3000.nth_reg(idx);
    assert(target & 3 == target % 4) by (bit_vector);
    if target & 0x0000_0003 != 0 {
        let pc = console.r3000.pc();
        let vector = console.generate_exception(Cop0Exception::LoadAddress, pc);
        *console.r3000.pc_mut() = vector;
        None
    } else {
        Some(target)
    }
}

/// Executes the block-ending instruction `op` and returns the address to continue at
/// after the delay slot, if it transfers control.
pub fn compile_jump_internal(console: &mut Console, op: u32) -> (r: Option<u32>)
    requires
        ends_block(op),
        old(console).r3000@.len() == 35,
        jump_no_panic(op, old(console).r3000@),
    ensures
        jumps_as(op, *old(console), *final(console), r),
{
    let primary = get_primary_field(op);
    let pc = console.r3000.pc();
    if primary == 0x00 {
        let funct = get_secondary_field(op);
        if funct == 0x08 {
            jump_to_register(console, get_rs(op))
        } else if funct == 0x09 {
            let result = pc.wrapping_add(4);
            let rd = get_rd(op);
            console.modified_register = console.r3000.nth_reg_mut(rd).maybe_set(result);
            jump_to_register(console, get_rs(op))
        } else {
            Some(console.generate_exception(Cop0Exception::Syscall, pc))
        }
    } else if primary == 0x02 || primary == 0x03 {
        if primary == 0x03 {
            let ret = pc.wrapping_add(4);
            console.modified_register = console.r3000.ra_mut().maybe_set(ret);
        }
        Some(jump_target(pc, get_imm26(op)))
    } else {
        let rs = console.r3000.nth_reg(get_rs(op));
        let rt = console.r3000.nth_reg(get_rt(op));
        let taken = if primary == 0x04 {
            rs == rt
        } else if primary == 0x05 {
            rs != rt
        } else {
            let value = to_signed(rs);
            if primary == 0x06 {
                value <= 0
            } else if primary == 0x07 {
                value > 0
            } else if get_rt(op) == 0x00 {
                value < 0
            } else {
                value >= 0
            }
        };
        if taken {
            Some(relative_target(pc, get_imm16(op)))
        } else {
            None
        }
    }
}

/// Executes the block-ending instruction `op` and records where execution continues
/// after the delay slot: the jump target, or the instruction after the current
/// program counter when there is none.
pub fn compile_jump(console: &mut Console, op: u32)
    requires
        ends_block(op),
        old(console).r3000@.len() == 35,
        jump_no_panic(op, old(console).r3000@),
    ensures
        exists|mid: Console, r: Option<u32>|
            {
                &&& #[trigger] jumps_as(op, *old(console), mid, r)
                &&& final(console).r3000 == mid.r3000
                &&& final(console).cop0 == mid.cop0
                &&& final(console).gpu == mid.gpu
                &&& final(console).gte == mid.gte
                &&& final(console).cd == mid.cd
                &&& final(console).modified_register == mid.modified_register
                &&& final(console).delayed_writes@ == mid.delayed_writes@
                &&& final(console).overwritten@ == mid.overwritten@
                &&& final(console).i == mid.i
                &&& final(console).next_pc == Some(
                    match r {
                        Some(target) => target,
                        None => wrap32(mid.r3000@[32] + 4),
                    },
                )
            },
{
    let ghost pre = *console;
    let r = compile_jump_internal(console, op);
    let ghost mid = *console;
    let next = match r {
        Some(target) => target,
        None => console.r3000.pc().wrapping_add(4),
    };
    console.next_pc = Some(next);
    assert(jumps_as(op, pre, mid, r));
}

} // verus!
