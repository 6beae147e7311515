//! Delivering pending signals on the way back to user mode: which signal is taken, what
//! its action asks for, and where the handler's frame goes on the user stack.
use vstd::prelude::*;
use crate::errno::Errno;
use crate::signals::{
    kill_mask, lemma_add_then_holds, lemma_high_signum_held, sig_bit, SAFlags, SigAction, SigMask, SigSet,
    MAX_SIGNUM, SIGMASK_ALL, SIG_DFL, SIG_IGN,
};

verus! {

/// What the kernel does about the pending signals of a task.
#[derive(Copy, Clone, PartialEq, Eq, Debug, Structural)]
pub enum SignalDecision {
    /// Nothing more: return to user mode as the task was.
    Return,
    /// End the task with this exit code.
    Exit(i32),
    /// Run the handler at `handler` for signal `signum`; `old_mask` is the mask to restore
    /// when the handler returns.
    Handle { signum: u32, handler: usize, old_mask: SigMask },
}

/// The mask while the handler of `signum` runs: the action's mask, the signal itself unless
/// the action has `SA_NODEFER`, and the mask `m` in force.
pub open spec fn handler_mask(a: SigAction, signum: u32, m: u64) -> u64 {
    (a.sa_mask.bits | (if a.sa_flags.bits & SAFlags::SA_NODEFER == SAFlags::SA_NODEFER {
        0u64
    } else {
        sig_bit(signum)
    })) | m
}

/// What is done about pending set `p` under mask `m` with actions `acts`, looking at the
/// signal numbers from `k` on, in increasing order: the first pending signal that the mask
/// lets through is taken out of the pending set; an ignored one is passed over; one with
/// the default action ends the task when it is `SIGKILL` or `SIGSEGV` and else is dropped;
/// one with a handler is handled. Number 34 names no signal and is taken when no signal is
/// left. The result is the decision, the pending set after and the mask after.
pub open spec fn deliver_from(p: u64, m: u64, acts: Seq<SigAction>, k: u32) -> (SignalDecision, u64, u64)
    decreases 34 - k,
{
    if k < 34 && !(SigMask { bits: p & !m }).holds(k) {
        deliver_from(p, m, acts, (k + 1) as u32)
    } else {
        let s: u32 = if k < 34 {
            k
        } else {
            34
        };
        let p2 = p & !sig_bit(s);
        let a = acts[s as int];
        if a.sa_handler == SIG_IGN {
            if k < 34 {
                deliver_from(p2, m, acts, (k + 1) as u32)
            } else {
                (SignalDecision::Return, p2, m)
            }
        } else if a.sa_handler == SIG_DFL {
            (
                if s == 9 || s == 11 {
                    SignalDecision::Exit(-(s as int) as i32)
                } else {
                    SignalDecision::Return
                },
                p2,
                m,
            )
        } else {
            (SignalDecision::Handle { signum: s, handler: a.sa_handler, old_mask: SigMask { bits: m } }, p2, handler_mask(a, s, m))
        }
    }
}

/// Passing over the numbers that are not pending changes nothing.
proof fn lemma_skip(p: u64, m: u64, acts: Seq<SigAction>, k: u32, s: u32)
    requires
        1 <= k <= s <= 34,
        forall|t: u32| k <= t < s ==> !(SigMask { bits: p & !m }).holds(t),
    ensures
        deliver_from(p, m, acts, k) == deliver_from(p, m, acts, s),
    decreases s - k,
{
    if k < s {
        lemma_skip(p, m, acts, (k + 1) as u32, s);
    }
}

/// Whether taking the pending signals from number `k` on (as `deliver_from` does) stops at a
/// signal below 34 whose action is not to ignore it, before the numbers run out.
pub open spec fn stops_before_end(p: u64, m: u64, acts: Seq<SigAction>, k: u32) -> bool
    decreases 34 - k,
{
    if k >= 34 {
        false
    } else if !(SigMask { bits: p & !m }).holds(k) {
        stops_before_end(p, m, acts, (k + 1) as u32)
    } else if acts[k as int].sa_handler == SIG_IGN {
        stops_before_end(p & !sig_bit(k), m, acts, (k + 1) as u32)
    } else {
        true
    }
}

/// Passing over the numbers that are not pending does not change where taking the signals
/// stops.
proof fn lemma_skip_stops(p: u64, m: u64, acts: Seq<SigAction>, k: u32, s: u32)
    requires
        1 <= k <= s <= 34,
        forall|t: u32| k <= t < s ==> !(SigMask { bits: p & !m }).holds(t),
    ensures
        stops_before_end(p, m, acts, k) == stops_before_end(p, m, acts, s),
    decreases s - k,
{
    if k < s {
        lemma_skip_stops(p, m, acts, (k + 1) as u32, s);
    }
}

/// Taking a signal out of the pending set does not make another one pending.
proof fn lemma_sub_keeps_out(p: u64, m: u64, s: u32, t: u32)
    requires
        !(SigMask { bits: p & !m }).holds(t),
    ensures
        !(SigMask { bits: (p & !sig_bit(s)) & !m }).holds(t),
{
    let bs = sig_bit(s);
    let bt = sig_bit(t);
    assert(((p & !m) & bt) != bt ==> (((p & !bs) & !m) & bt) != bt) by (bit_vector);
}

/// Taking pending signal `s` out of the pending set leaves it not pending.
proof fn lemma_sub_takes_out(p: u64, m: u64, s: u32)
    requires
        1 <= s <= 33,
    ensures
        !(SigMask { bits: (p & !sig_bit(s)) & !m }).holds(s),
{
    let bs = sig_bit(s);
    lemma_add_then_holds(SigMask { bits: p & !m }, s);
    assert(bs != 0 ==> (((p & !bs) & !m) & bs) != bs) by (bit_vector);
}


/// What the default action of the first signal to deliver does: when `s` is the lowest
/// pending signal that the mask lets through and its action is the default, the task is
/// ended with exit code `-s` when `s` is `SIGKILL` (9) or `SIGSEGV` (11), and returns to
/// user mode otherwise; when its action is a handler, that handler is run for `s`; either
/// way `s` is no longer pending.
pub proof fn law_first_signal_action(p: u64, m: u64, acts: Seq<SigAction>, s: u32)
    requires
        1 <= s <= 33,
        (SigMask { bits: p & !m }).holds(s),
        forall|t: u32| 1 <= t < s ==> !(SigMask { bits: p & !m }).holds(t),
        acts[s as int].sa_handler != SIG_IGN,
    ensures
        ({
            let (d, p1, _m1) = deliver_from(p, m, acts, 1);
            &&& acts[s as int].sa_handler == SIG_DFL && (s == 9 || s == 11) ==> d == SignalDecision::Exit(-(s as int) as i32)
            &&& acts[s as int].sa_handler == SIG_DFL && !(s == 9 || s == 11) ==> d == SignalDecision::Return
            &&& acts[s as int].sa_handler != SIG_DFL ==> (d matches SignalDecision::Handle { signum, handler, old_mask: _ }
                && signum == s && handler == acts[s as int].sa_handler)
            &&& !(SigMask { bits: p1 }).holds(s)
        }),
{
    lemma_skip(p, m, acts, 1, s);
    let bs = sig_bit(s);
    assert(((p & !bs) & bs) != bs || bs == 0) by (bit_vector);
    lemma_add_then_holds(SigMask { bits: p & !m }, s);
}

/// A signal whose handler is run was pending and let through by the mask, and it is no
/// longer pending after; a task is ended only by `SIGKILL` or `SIGSEGV`, with the negated
/// number as exit code.
pub proof fn law_delivered_was_pending(p: u64, m: u64, acts: Seq<SigAction>, k: u32)
    requires
        1 <= k <= 34,
    ensures
        ({
            let (d, p1, _m1) = deliver_from(p, m, acts, k);
            match d {
                SignalDecision::Handle { signum, handler: _, old_mask: _ } => k <= signum <= 34 && (signum <= 33
                    ==> (SigMask { bits: p & !m }).holds(signum) && !(SigMask { bits: p1 }).holds(signum)),
                SignalDecision::Exit(code) => code == -9 || code == -11,
                SignalDecision::Return => true,
            }
        }),
    decreases 34 - k,
{
    if k < 34 && !(SigMask { bits: p & !m }).holds(k) {
        law_delivered_was_pending(p, m, acts, (k + 1) as u32);
    } else if k < 34 {
        let bk = sig_bit(k);
        let p2 = p & !bk;
        lemma_add_then_holds(SigMask { bits: p }, k);
        if acts[k as int].sa_handler == SIG_IGN {
            law_delivered_was_pending(p2, m, acts, (k + 1) as u32);
            let (d, p1, _m1) = deliver_from(p2, m, acts, (k + 1) as u32);
            match d {
                SignalDecision::Handle { signum, handler: _, old_mask: _ } => {
                    if signum <= 33 {
                        let bt = sig_bit(signum);
                        assert((((p & !bk) & !m) & bt) == bt ==> ((p & !m) & bt) == bt) by (bit_vector);
                    }
                },
                _ => {},
            }
        } else {
            assert(bk != 0 ==> ((p & !bk) & bk) != bk) by (bit_vector);
        }
    }
}

/// Takes the pending signals of a task in increasing order, as `deliver_from` from number 1
/// says (nothing at all when none is pending), updating its pending set and, when a handler
/// is to run, its mask. It is a fatal error (it loops forever) when the action of number 34 is to
/// ignore and the pending signals run out before one that is not ignored.
pub fn exec_signal_handlers(pending: &mut SigSet, sigmask: &mut SigMask, sigactions: &Vec<SigAction>) -> (r:
    SignalDecision)
    requires
        sigactions@.len() == MAX_SIGNUM,
        old(pending).bits != 0 && sigactions@[34].sa_handler == SIG_IGN ==> stops_before_end(
            old(pending).bits,
            old(sigmask).bits,
            sigactions@,
            1,
        ),
    ensures
        old(pending).bits == 0 ==> r == SignalDecision::Return && *final(pending) == *old(pending)
            && *final(sigmask) == *old(sigmask),
        old(pending).bits != 0 ==> (r, final(pending).bits, final(sigmask).bits) == deliver_from(
            old(pending).bits,
            old(sigmask).bits,
            sigactions@,
            1,
        ),
{
    if pending.bits == 0 {
        return SignalDecision::Return;
    }
    let ghost p0 = pending.bits;
    let ghost m = sigmask.bits;
    let ghost acts = sigactions@;
    let ghost mut k: u32 = 1;
    loop
        invariant
            sigactions@ == acts,
            acts.len() == MAX_SIGNUM,
            acts[34].sa_handler == SIG_IGN ==> stops_before_end(pending.bits, m, acts, k),
            sigmask.bits == m,
            *sigmask == *old(sigmask),
            p0 == old(pending).bits,
            p0 != 0,
            1 <= k <= 34,
            forall|t: u32| 1 <= t < k ==> !(SigMask { bits: pending.bits & !m }).holds(t),
            deliver_from(pending.bits, m, acts, k) == deliver_from(p0, m, acts, 1),
        decreases 34 - k,
    {
        let mut ready = pending.difference(*sigmask);
        let signum = match ready.fetch() {
            Some(s) => s,
            None => 34,
        };
        proof {
            if signum > 34 {
                lemma_high_signum_held(SigMask { bits: pending.bits & !m }, 34);
            }
            assert(signum <= 34);
            assert(k <= signum) by {
                if signum < k {
                    assert(!(SigMask { bits: pending.bits & !m }).holds(signum));
                }
            }
            lemma_skip(pending.bits, m, acts, k, signum);
            lemma_skip_stops(pending.bits, m, acts, k, signum);
            lemma_high_signum_held(SigMask { bits: pending.bits & !m }, 34);
        }
        let ghost p1 = pending.bits;
        pending.sub(signum);
        let action = sigactions[signum as usize];
        if action.sa_handler == SIG_IGN {
            proof {
                assert(signum < 34);
                assert(acts[34].sa_handler == SIG_IGN ==> stops_before_end(pending.bits, m, acts, (signum + 1) as u32));
                assert forall|t: u32| 1 <= t < signum + 1 implies !(SigMask { bits: pending.bits & !m }).holds(t) by {
                    if t < signum {
                        if t < k {
                        } else {
                            assert(!(SigMask { bits: p1 & !m }).holds(t));
                        }
                        lemma_sub_keeps_out(p1, m, signum, t);
                    } else {
                        lemma_sub_takes_out(p1, m, signum);
                    }
                }
                k = (signum + 1) as u32;
            }
            continue;
        }
        if action.sa_handler == SIG_DFL {
            if signum == 9 || signum == 11 {
                return SignalDecision::Exit(-(signum as i32));
            }
            return SignalDecision::Return;
        }
        let mut mask = action.sa_mask;
        if !action.sa_flags.contains(SAFlags::SA_NODEFER) {
            mask.add(signum);
        }
        proof {
            let b = action.sa_mask.bits;
            assert(b | 0u64 == b) by (bit_vector);
            assert(deliver_from(p1, m, acts, k) == deliver_from(p1, m, acts, signum));
        }
        let old_mask = *sigmask;
        mask.add_other(old_mask);
        *sigmask = mask;
        return SignalDecision::Handle { signum, handler: action.sa_handler, old_mask };
    }
}

/// Where a handler's frame goes on the user stack.
#[derive(Copy, Clone, PartialEq, Eq, Debug, Structural)]
pub struct SignalFrame {
    /// The user context, handed to the handler as its third argument.
    pub ucontext_ptr: u64,
    /// The signal information, handed to the handler as its second argument.
    pub siginfo_ptr: u64,
    /// The saved trap context and mask, where the stack pointer is left.
    pub sigcontext_ptr: u64,
}

/// The frame of a handler below stack pointer `sp`: the user context (`ucontext_size`
/// bytes), then the signal information (`siginfo_size`), then the saved context
/// (`sigcontext_size`), each below the previous one. `None` when it does not fit above
/// address 0.
pub fn signal_frame(sp: u64, ucontext_size: u64, siginfo_size: u64, sigcontext_size: u64) -> (r: Option<SignalFrame>)
    ensures
        r is Some <==> ucontext_size + siginfo_size + sigcontext_size <= sp,
        r matches Some(f) ==> {
            &&& f.ucontext_ptr == sp - ucontext_size
            &&& f.siginfo_ptr == sp - ucontext_size - siginfo_size
            &&& f.sigcontext_ptr == sp - ucontext_size - siginfo_size - sigcontext_size
        },
{
    if ucontext_size > sp {
        return None;
    }
    let ucontext_ptr = sp - ucontext_size;
    if siginfo_size > ucontext_ptr {
        return None;
    }
    let siginfo_ptr = ucontext_ptr - siginfo_size;
    if sigcontext_size > siginfo_ptr {
        return None;
    }
    Some(SignalFrame { ucontext_ptr, siginfo_ptr, sigcontext_ptr: siginfo_ptr - sigcontext_size })
}

/// Where `sigreturn` finds the frame of the handler that returns, its stack pointer `sp`
/// being where the saved context lies: the signal information above it, then the user
/// context (whose saved program counter is where the task goes on).
pub fn sigreturn_frame(sp: u64, ucontext_size: u64, siginfo_size: u64, sigcontext_size: u64) -> (r: SignalFrame)
    requires
        sp + sigcontext_size + siginfo_size <= u64::MAX,
    ensures
        r.sigcontext_ptr == sp,
        r.siginfo_ptr == sp + sigcontext_size,
        r.ucontext_ptr == sp + sigcontext_size + siginfo_size,
{
    let sigcontext_ptr = sp;
    let siginfo_ptr = sigcontext_ptr + sigcontext_size;
    let ucontext_ptr = siginfo_ptr + siginfo_size;
    SignalFrame { ucontext_ptr, siginfo_ptr, sigcontext_ptr }
}

/// `sigreturn` finds the frame that signal delivery laid out: from the stack pointer that
/// delivery leaves, it finds the saved context, the signal information and the user
/// context where delivery put them.
pub proof fn law_sigreturn_finds_the_frame(sp: u64, ucontext_size: u64, siginfo_size: u64, sigcontext_size: u64)
    requires
        ucontext_size + siginfo_size + sigcontext_size <= sp,
    ensures
        ({
            let f = SignalFrame {
                ucontext_ptr: (sp - ucontext_size) as u64,
                siginfo_ptr: (sp - ucontext_size - siginfo_size) as u64,
                sigcontext_ptr: (sp - ucontext_size - siginfo_size - sigcontext_size) as u64,
            };
            &&& f.sigcontext_ptr + sigcontext_size + siginfo_size <= u64::MAX
            &&& f.siginfo_ptr == f.sigcontext_ptr + sigcontext_size
            &&& f.ucontext_ptr == f.sigcontext_ptr + sigcontext_size + siginfo_size
            &&& f.ucontext_ptr + ucontext_size == sp
        }),
{
}


/// The action that `sigaction` records from `act`: its mask without `SIGKILL`, `SIGSTOP`,
/// `SIGILL` and `SIGSEGV`, which can never be blocked.
pub open spec fn recorded_action(act: SigAction) -> SigAction {
    SigAction {
        sa_mask: SigMask { bits: act.sa_mask.bits & !sig_bit(9) & !sig_bit(19) & !sig_bit(4) & !sig_bit(11) },
        ..act
    }
}

/// `sigaction(signum, act)` on the actions of a task: `EINVAL` for a number above 64 (taken
/// as a `u32`) or for `SIGKILL` and `SIGSTOP`; else, when an action is given, it replaces
/// the action of `signum` (see `recorded_action`), and the action it replaces is returned
/// for the caller to copy out. Number 64 is a fatal error
/// (it reads past the actions).
pub fn sys_sigaction(sigactions: &mut Vec<SigAction>, signum: isize, act: Option<SigAction>) -> (r: Result<
    Option<SigAction>,
    Errno,
>)
    requires
        old(sigactions)@.len() == MAX_SIGNUM,
        act is Some ==> signum as u32 != 64,
    ensures
        final(sigactions)@.len() == MAX_SIGNUM,
        ({
            let s = signum as u32;
            if s > MAX_SIGNUM || s == 9 || s == 19 {
                r == Err::<Option<SigAction>, Errno>(Errno::EINVAL) && final(sigactions)@ == old(sigactions)@
            } else {
                match act {
                    None => r == Ok::<Option<SigAction>, Errno>(None) && final(sigactions)@ == old(sigactions)@,
                    Some(a) => r == Ok::<Option<SigAction>, Errno>(Some(old(sigactions)@[s as int]))
                        && final(sigactions)@ == old(sigactions)@.update(s as int, recorded_action(a)),
                }
            }
        }),
{
    let s = signum as u32;
    if s > MAX_SIGNUM || s == 9 || s == 19 {
        return Err(Errno::EINVAL);
    }
    match act {
        None => Ok(None),
        Some(a) => {
            let old_action = sigactions[s as usize];
            let mut sa = a;
            sa.sa_mask.sub(9);
            sa.sa_mask.sub(19);
            sa.sa_mask.sub(4);
            sa.sa_mask.sub(11);
            sigactions.set(s as usize, sa);
            Ok(Some(old_action))
        },
    }
}

/// What `kill(pid, signal)` and `tkill(tid, signal)` do once the target is looked up
/// (`found`): nothing for signal 0; else add the signal to the pending set of the target,
/// `EINVAL` when its bit names no signal; for a missing target `kill` succeeds without
/// effect while `tkill` gives `ESRCH`. It is a fatal error (the shift overflows) on a signal
/// above 64.
pub fn kill_decision(signal: u32, found: bool, is_tkill: bool) -> (r: Result<Option<SigMask>, Errno>)
    requires
        signal <= 64,
    ensures
        signal == 0 ==> r == Ok::<Option<SigMask>, Errno>(None),
        signal != 0 && !found ==> r == (if is_tkill {
            Err::<Option<SigMask>, Errno>(Errno::ESRCH)
        } else {
            Ok::<Option<SigMask>, Errno>(None)
        }),
        signal != 0 && found ==> r == (if (1u64 << ((signal - 1) as u32)) & !SIGMASK_ALL == 0 {
            Ok::<Option<SigMask>, Errno>(Some(SigMask { bits: 1u64 << ((signal - 1) as u32) }))
        } else {
            Err::<Option<SigMask>, Errno>(Errno::EINVAL)
        }),
{
    if signal == 0 {
        return Ok(None);
    }
    if !found {
        return if is_tkill {
            Err(Errno::ESRCH)
        } else {
            Ok(None)
        };
    }
    match kill_mask(signal) {
        Some(m) => Ok(Some(m)),
        None => Err(Errno::EINVAL),
    }
}

} // verus!
