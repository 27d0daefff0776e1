//! Causal chains: a process that another one starts inherits its chain, so
//! that the flows of both are found to belong together.

use vstd::prelude::*;
use crate::kread::read_u32_ne;
use crate::maps::CausalCtx;
use crate::tcp_lifecycle::{new_row, Opener};
use crate::wire::le32;

verus! {

/// Distance of the process id from the start of the kernel's task, for Linux
/// 5.8 to 6.x.
pub const TASK_PID_OFFSET: usize = 0x560;

/// What a hook ends with that was handed no task.
pub const NO_TASK: i64 = -1;

/// The context of a task that starts another one: its own, or that of a chain
/// which begins now.
pub open spec fn parent_context(
    pid_tgid: u64,
    known: Option<CausalCtx>,
    chain_now: u64,
    origin_now: u64,
) -> CausalCtx {
    match known {
        Some(ctx) => ctx,
        None => CausalCtx {
            chain_id: chain_now,
            parent_chain_id: 0,
            depth: 0,
            origin_pid: (pid_tgid / 0x1_0000_0000) as u32,
            origin_ts_ns: origin_now,
        },
    }
}

/// The context that a task inherits: the chain of its parent, one level
/// deeper. The depth counts modulo 2^32.
pub open spec fn child_context(parent: CausalCtx) -> CausalCtx {
    CausalCtx {
        chain_id: parent.chain_id,
        parent_chain_id: parent.chain_id,
        depth: ((parent.depth + 1) % 0x1_0000_0000) as u32,
        origin_pid: parent.origin_pid,
        origin_ts_ns: parent.origin_ts_ns,
    }
}

/// The process id that a read gave, 0 if it failed.
pub open spec fn child_pid_of(read: Result<[u8; 4], i64>) -> u32 {
    match read {
        Ok(b) => le32(b@, 0) as u32,
        Err(_) => 0,
    }
}

/// The key of a process's first thread in the causal table.
pub open spec fn thread_key(pid: u32) -> u64 {
    (pid * 0x1_0000_0000 + pid) as u64
}

/// A task that was started, and the contexts to keep.
#[derive(Debug, Clone, Copy)]
pub struct NewTask {
    /// The key of the new task.
    pub pid_tgid: u64,
    /// The context of the new task.
    pub ctx: CausalCtx,
    /// The key and context of the task that started it, if it had none before.
    pub parent: Option<(u64, CausalCtx)>,
}

/// What to keep when a task starts another one.
pub open spec fn new_task(
    parent_pid_tgid: u64,
    parent: Option<CausalCtx>,
    chain_now: u64,
    origin_now: u64,
    child_pid: u32,
) -> NewTask {
    let ctx = parent_context(parent_pid_tgid, parent, chain_now, origin_now);
    NewTask {
        pid_tgid: thread_key(child_pid),
        ctx: child_context(ctx),
        parent: if parent is None {
            Some((parent_pid_tgid, ctx))
        } else {
            None
        },
    }
}

/// What [`handle_new_task`] gives.
pub open spec fn task_started(
    parent_pid_tgid: u64,
    parent: Option<CausalCtx>,
    chain_now: u64,
    origin_now: u64,
    child_pid: Option<Result<[u8; 4], i64>>,
) -> Result<NewTask, i64> {
    match child_pid {
        None => Err(NO_TASK),
        Some(read) => Ok(
            new_task(parent_pid_tgid, parent, chain_now, origin_now, child_pid_of(read)),
        ),
    }
}

/// A task starts another one, which inherits its causal chain. If it has no
/// chain yet, one begins with it.
///
/// `child_pid` is what reading the new task's process id gave, if the hook was
/// handed the task.
pub fn handle_new_task(
    parent_pid_tgid: u64,
    parent: Option<CausalCtx>,
    chain_now: u64,
    origin_now: u64,
    child_pid: Option<Result<[u8; 4], i64>>,
) -> (r: Result<NewTask, i64>)
    ensures
        r == task_started(parent_pid_tgid, parent, chain_now, origin_now, child_pid),
{
    let read = match child_pid {
        Some(read) => read,
        None => {
            return Err(NO_TASK);
        },
    };
    let pid: u32 = match read_u32_ne(read) {
        Ok(pid) => pid,
        Err(_) => 0,
    };
    let (ctx, started) = match parent {
        Some(ctx) => (ctx, None),
        None => {
            let ctx = CausalCtx {
                chain_id: chain_now,
                parent_chain_id: 0,
                depth: 0,
                origin_pid: (parent_pid_tgid / 0x1_0000_0000) as u32,
                origin_ts_ns: origin_now,
            };
            (ctx, Some((parent_pid_tgid, ctx)))
        },
    };
    Ok(
        NewTask {
            pid_tgid: (pid as u64) * 0x1_0000_0000 + (pid as u64),
            ctx: CausalCtx {
                chain_id: ctx.chain_id,
                parent_chain_id: ctx.chain_id,
                depth: ctx.depth.wrapping_add(1),
                origin_pid: ctx.origin_pid,
                origin_ts_ns: ctx.origin_ts_ns,
            },
            parent: started,
        },
    )
}

/// The causal table after these contexts are put into it, the starting task's
/// before the new one's.
pub open spec fn kept(table: Map<u64, CausalCtx>, task: NewTask) -> Map<u64, CausalCtx> {
    match task.parent {
        Some((key, ctx)) => table.insert(key, ctx),
        None => table,
    }.insert(task.pid_tgid, task.ctx)
}

/// The causal context that a table has for a key, if it has one.
pub open spec fn known(table: Map<u64, CausalCtx>, key: u64) -> Option<CausalCtx> {
    if table.contains_key(key) {
        Some(table[key])
    } else {
        None
    }
}

/// The context `n` generations below `ctx`.
pub open spec fn descendant(ctx: CausalCtx, n: nat) -> CausalCtx
    decreases n,
{
    if n == 0 {
        ctx
    } else {
        child_context(descendant(ctx, (n - 1) as nat))
    }
}

/// A chain reaches every generation: id and origin stay, and the depth counts
/// the generations as long as it fits.
pub proof fn chain_reaches_every_generation(ctx: CausalCtx, n: nat)
    ensures
        descendant(ctx, n).chain_id == ctx.chain_id,
        descendant(ctx, n).origin_pid == ctx.origin_pid,
        descendant(ctx, n).origin_ts_ns == ctx.origin_ts_ns,
        n > 0 ==> descendant(ctx, n).parent_chain_id == ctx.chain_id,
        ctx.depth + n <= u32::MAX ==> descendant(ctx, n).depth == ctx.depth + n,
    decreases n,
{
    if n > 0 {
        chain_reaches_every_generation(ctx, (n - 1) as nat);
    }
}

/// The flows of a process and those of the processes that descend from it, in
/// any generation, share a chain id.
pub proof fn descendants_share_a_chain(
    ctx: CausalCtx,
    n: nat,
    parent_direction: u8,
    parent: Opener,
    child_direction: u8,
    child: Opener,
)
    requires
        parent.causal == Some(ctx),
        child.causal == Some(descendant(ctx, n)),
    ensures
        new_row(child_direction, child).chain_id == new_row(parent_direction, parent).chain_id,
        n > 0 ==> new_row(child_direction, child).parent_chain_id == new_row(
            parent_direction,
            parent,
        ).chain_id,
{
    chain_reaches_every_generation(ctx, n);
}

/// Once a process has started another one, the flows of both share a chain id,
/// whether or not the process had a causal context before.
pub proof fn related_flows_share_a_chain(
    table: Map<u64, CausalCtx>,
    parent_pid_tgid: u64,
    chain_now: u64,
    origin_now: u64,
    child_pid: u32,
    parent_direction: u8,
    parent: Opener,
    child_direction: u8,
    child: Opener,
)
    requires
        ({
            let task = new_task(
                parent_pid_tgid,
                known(table, parent_pid_tgid),
                chain_now,
                origin_now,
                child_pid,
            );
            &&& parent.causal == known(kept(table, task), parent_pid_tgid)
            &&& child.causal == known(kept(table, task), thread_key(child_pid))
        }),
    ensures
        new_row(child_direction, child).chain_id == new_row(parent_direction, parent).chain_id,
{
}

/// The context of a new task is found again by the key of its first thread,
/// and by no other process.
pub proof fn thread_keys_differ(a: u32, b: u32)
    ensures
        thread_key(a) == thread_key(b) ==> a == b,
        thread_key(a) / 0x1_0000_0000 == a,
        thread_key(a) % 0x1_0000_0000 == a,
{
}

} // verus!
