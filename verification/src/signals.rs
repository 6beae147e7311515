//! Signal numbers, signal sets and signal actions.
use vstd::prelude::*;

verus! {

/// Number of signal numbers, `0..MAX_SIGNUM`.
pub const MAX_SIGNUM: u32 = 64;

/// Handler value that asks for the default action.
pub const SIG_DFL: usize = 0;

/// Handler value that asks for the signal to be ignored.
pub const SIG_IGN: usize = 1;

/// The bits of a signal set that name a signal: bits 1 to 33.
pub const SIGMASK_ALL: u64 = 0x3_ffff_fffe;

/// The signals.
#[derive(PartialEq, Eq, Copy, Clone, Debug, Structural)]
pub enum Signal {
    EMPTY,
    SIGHUP,
    SIGINT,
    SIGQUIT,
    SIGILL,
    SIGTRAP,
    SIGABRT,
    SIGBUS,
    SIGFPE,
    SIGKILL,
    SIGUSR1,
    SIGSEGV,
    SIGUSR2,
    SIGPIPE,
    SIGALRM,
    SIGTERM,
    SIGSTKFLT,
    SIGCHLD,
    SIGCONT,
    SIGSTOP,
    SIGTSTP,
    SIGTTIN,
    SIGTTOU,
    SIGURG,
    SIGXCPU,
    SIGXFSZ,
    SIGVTALRM,
    SIGPROF,
    SIGWINCH,
    SIGIO,
    SIGPWR,
    SIGSYS,
    SIGUND1,
    SIGUND2,
}

impl Signal {
    /// The signal number 0, which names no signal.
    pub fn empty() -> (r: Signal)
        ensures
            r == Signal::EMPTY,
    {
        Signal::EMPTY
    }

    /// The number of the signal, in declaration order from 0 (`EMPTY`) to 33 (`SIGUND2`).
    pub fn number(&self) -> (r: u32)
        ensures
            r <= 33,
            *self == Signal::EMPTY <==> r == 0,
            *self == Signal::SIGILL <==> r == 4,
            *self == Signal::SIGKILL <==> r == 9,
            *self == Signal::SIGSEGV <==> r == 11,
            *self == Signal::SIGALRM <==> r == 14,
            *self == Signal::SIGSTOP <==> r == 19,
    {
        match self {
            Signal::EMPTY => 0,
            Signal::SIGHUP => 1,
            Signal::SIGINT => 2,
            Signal::SIGQUIT => 3,
            Signal::SIGILL => 4,
            Signal::SIGTRAP => 5,
            Signal::SIGABRT => 6,
            Signal::SIGBUS => 7,
            Signal::SIGFPE => 8,
            Signal::SIGKILL => 9,
            Signal::SIGUSR1 => 10,
            Signal::SIGSEGV => 11,
            Signal::SIGUSR2 => 12,
            Signal::SIGPIPE => 13,
            Signal::SIGALRM => 14,
            Signal::SIGTERM => 15,
            Signal::SIGSTKFLT => 16,
            Signal::SIGCHLD => 17,
            Signal::SIGCONT => 18,
            Signal::SIGSTOP => 19,
            Signal::SIGTSTP => 20,
            Signal::SIGTTIN => 21,
            Signal::SIGTTOU => 22,
            Signal::SIGURG => 23,
            Signal::SIGXCPU => 24,
            Signal::SIGXFSZ => 25,
            Signal::SIGVTALRM => 26,
            Signal::SIGPROF => 27,
            Signal::SIGWINCH => 28,
            Signal::SIGIO => 29,
            Signal::SIGPWR => 30,
            Signal::SIGSYS => 31,
            Signal::SIGUND1 => 32,
            Signal::SIGUND2 => 33,
        }
    }
}

/// The set bit of signal `signum` in a signal set, or 0 when `signum` names no signal.
pub open spec fn sig_bit(signum: u32) -> u64 {
    (1u64 << signum) & SIGMASK_ALL
}

/// A set of signals, one bit per signal number (bit `n` for signal `n`, from 1 to 33).
#[derive(PartialEq, Eq, Copy, Clone, Debug, Structural)]
pub struct SigMask {
    pub bits: u64,
}

/// A set of pending signals.
pub type SigSet = SigMask;

impl SigMask {
    /// The empty set.
    pub fn empty() -> (r: SigMask)
        ensures
            r.bits == 0,
    {
        SigMask { bits: 0 }
    }

    /// The set whose bits are `bits`, or `None` when a bit names no signal.
    pub fn from_bits(bits: u64) -> (r: Option<SigMask>)
        ensures
            r == (if bits & !SIGMASK_ALL == 0 {
                Some(SigMask { bits })
            } else {
                None
            }),
    {
        if bits & !SIGMASK_ALL == 0 {
            Some(SigMask { bits })
        } else {
            None
        }
    }

    /// The set of the bits of `bits` that name a signal.
    pub fn from_bits_truncate(bits: u64) -> (r: SigMask)
        ensures
            r.bits == bits & SIGMASK_ALL,
    {
        SigMask { bits: bits & SIGMASK_ALL }
    }

    /// Whether the set is empty.
    pub fn is_empty(&self) -> (r: bool)
        ensures
            r == (self.bits == 0),
    {
        self.bits == 0
    }

    /// Whether every signal of `other` is in the set.
    pub fn contains(&self, other: SigMask) -> (r: bool)
        ensures
            r == (self.bits & other.bits == other.bits),
    {
        self.bits & other.bits == other.bits
    }

    /// Adds signal `signum`; a number above 33 adds nothing. It is a fatal error on a
    /// number of 64 or more.
    pub fn add(&mut self, signum: u32)
        requires
            signum < MAX_SIGNUM,
        ensures
            final(self).bits == old(self).bits | sig_bit(signum),
    {
        let bit = SigMask::from_bits_truncate(1u64 << signum);
        self.bits = self.bits | bit.bits;
    }

    /// Removes signal `signum`; a number above 33 removes nothing. It is a fatal error on a
    /// number of 64 or more.
    pub fn sub(&mut self, signum: u32)
        requires
            signum < MAX_SIGNUM,
        ensures
            final(self).bits == old(self).bits & !sig_bit(signum),
    {
        let bit = SigMask::from_bits_truncate(1u64 << signum);
        self.bits = self.bits & !bit.bits;
    }

    /// Adds every signal of `other`.
    pub fn add_other(&mut self, other: SigMask)
        ensures
            final(self).bits == old(self).bits | other.bits,
    {
        self.bits = self.bits | other.bits;
    }

    /// Removes every signal of `other`.
    pub fn sub_other(&mut self, other: SigMask)
        ensures
            final(self).bits == old(self).bits & !other.bits,
    {
        self.bits = self.bits & !other.bits;
    }

    /// The signals of the set that are not in `other`.
    pub fn difference(&self, other: SigMask) -> (r: SigMask)
        ensures
            r.bits == self.bits & !other.bits,
    {
        SigMask { bits: self.bits & !other.bits }
    }

    /// Whether the set holds signal `signum`; a number above 33 names no signal and is held
    /// by every set. It is a fatal error (the shift overflows) on a number of 64 or more.
    pub fn if_contains(&self, signum: u32) -> (r: bool)
        requires
            signum < MAX_SIGNUM,
        ensures
            r == self.holds(signum),
    {
        self.contains(SigMask::from_bits_truncate(1u64 << signum))
    }

    /// Whether the set holds signal `signum`, as [`Self::if_contains`] answers.
    pub open spec fn holds(&self, signum: u32) -> bool {
        self.bits & sig_bit(signum) == sig_bit(signum)
    }

    /// The lowest signal number from 1 on that the set holds, as [`Self::if_contains`]
    /// answers. Since numbers above 33 are held by every set, the answer is never `None`:
    /// it is 34 when the set holds none of the signals 1 to 33.
    pub fn fetch(&mut self) -> (r: Option<u32>)
        ensures
            *final(self) == *old(self),
            r matches Some(s) ==> 1 <= s < MAX_SIGNUM && old(self).holds(s) && forall|t: u32|
                1 <= t < s ==> !old(self).holds(t),
            r is None ==> forall|t: u32| 1 <= t < MAX_SIGNUM ==> !old(self).holds(t),
            r is Some,
    {
        let mut signum: u32 = 1;
        while signum < MAX_SIGNUM
            invariant
                1 <= signum <= MAX_SIGNUM,
                forall|t: u32| 1 <= t < signum ==> !self.holds(t),
            decreases MAX_SIGNUM - signum,
        {
            if self.if_contains(signum) {
                return Some(signum);
            }
            signum = signum + 1;
        }
        proof {
            lemma_high_signum_held(*self, 34);
        }
        None
    }
}

/// Numbers above 33 name no signal, so every set holds them.
pub proof fn lemma_high_signum_held(m: SigMask, signum: u32)
    requires
        34 <= signum < MAX_SIGNUM,
    ensures
        sig_bit(signum) == 0,
        m.holds(signum),
{
    let b = m.bits;
    assert((34 <= signum < 64 ==> (1u64 << signum) & 0x3_ffff_fffeu64 == 0) && b & 0u64 == 0u64) by (bit_vector);
}

/// Adding a signal and then asking for it finds it; removing it and asking does not.
pub proof fn lemma_add_then_holds(m: SigMask, signum: u32)
    requires
        1 <= signum <= 33,
    ensures
        (SigMask { bits: m.bits | sig_bit(signum) }).holds(signum),
        !(SigMask { bits: m.bits & !sig_bit(signum) }).holds(signum),
        sig_bit(signum) != 0,
{
    let b = m.bits;
    assert(1 <= signum <= 33 ==> (1u64 << signum) & 0x3_ffff_fffeu64 != 0 && ((b | ((1u64 << signum)
        & 0x3_ffff_fffeu64)) & ((1u64 << signum) & 0x3_ffff_fffeu64)) == ((1u64 << signum) & 0x3_ffff_fffeu64)
        && ((b & !((1u64 << signum) & 0x3_ffff_fffeu64)) & ((1u64 << signum) & 0x3_ffff_fffeu64)) != ((1u64
        << signum) & 0x3_ffff_fffeu64)) by (bit_vector);
}

/// How `sigprocmask` changes the blocked signals.
#[derive(PartialEq, Eq, Copy, Clone, Debug, Structural)]
pub enum MaskFlags {
    SIG_BLOCK,
    SIG_UNBLOCK,
    SIG_SETMASK,
    UNKNOWN,
}

impl MaskFlags {
    /// The change named by `how`: 0 blocks, 1 unblocks, 2 sets; any other value is unknown.
    pub fn from_how(how: usize) -> (r: MaskFlags)
        ensures
            r == (if how == 0 {
                MaskFlags::SIG_BLOCK
            } else if how == 1 {
                MaskFlags::SIG_UNBLOCK
            } else if how == 2 {
                MaskFlags::SIG_SETMASK
            } else {
                MaskFlags::UNKNOWN
            }),
    {
        match how {
            0 => MaskFlags::SIG_BLOCK,
            1 => MaskFlags::SIG_UNBLOCK,
            2 => MaskFlags::SIG_SETMASK,
            _ => MaskFlags::UNKNOWN,
        }
    }
}

/// Flags of a signal action.
#[derive(PartialEq, Eq, Copy, Clone, Debug, Structural)]
pub struct SAFlags {
    pub bits: i64,
}

impl SAFlags {
    /// Do not send `SIGCHLD` when children stop.
    pub const SA_NOCLDSTOP: i64 = 1;
    /// Do not create a zombie on child death.
    pub const SA_NOCLDWAIT: i64 = 2;
    /// Call the handler with three arguments.
    pub const SA_SIGINFO: i64 = 4;
    /// Use the signal stack.
    pub const SA_ONSTACK: i64 = 0x0800_0000;
    /// Restart the system call on signal return.
    pub const SA_RESTART: i64 = 0x1000_0000;
    /// Do not block the signal while its handler runs.
    pub const SA_NODEFER: i64 = 0x4000_0000;
    /// Reset to the default action on entry to the handler.
    pub const SA_RESETHAND: i64 = 0x8000_0000;

    /// No flag.
    pub fn empty() -> (r: SAFlags)
        ensures
            r.bits == 0,
    {
        SAFlags { bits: 0 }
    }

    /// Whether no flag is set.
    pub fn is_empty(&self) -> (r: bool)
        ensures
            r == (self.bits == 0),
    {
        self.bits == 0
    }

    /// Whether every flag of `bits` is set.
    pub fn contains(&self, bits: i64) -> (r: bool)
        ensures
            r == (self.bits & bits == bits),
    {
        self.bits & bits == bits
    }
}

/// What a process does on a signal.
#[derive(Copy, Clone, Debug)]
pub struct SigAction {
    pub sa_handler: usize,
    pub sa_sigaction: usize,
    pub sa_mask: SigMask,
    pub sa_flags: SAFlags,
    pub _sa_restorer: usize,
}

impl SigAction {
    /// The default action, blocking nothing.
    pub fn new() -> (r: SigAction)
        ensures
            r.sa_handler == SIG_DFL,
            r.sa_sigaction == SIG_DFL,
            r.sa_mask.bits == 0,
            r.sa_flags.bits == 0,
            r._sa_restorer == 0,
    {
        SigAction {
            sa_handler: SIG_DFL,
            sa_sigaction: SIG_DFL,
            sa_mask: SigMask::empty(),
            sa_flags: SAFlags::empty(),
            _sa_restorer: 0,
        }
    }

    /// Whether this is the default action with nothing blocked and no flag.
    pub fn is_empty(&self) -> (r: bool)
        ensures
            r == (self.sa_handler == SIG_DFL && self.sa_sigaction == SIG_DFL && self.sa_mask.bits
                == 0 && self.sa_flags.bits == 0),
    {
        self.sa_handler == SIG_DFL && self.sa_sigaction == SIG_DFL && self.sa_mask.is_empty()
            && self.sa_flags.is_empty()
    }

    /// Blocks signal `signum` while the handler runs.
    pub fn mask_block(&mut self, signum: u32)
        requires
            signum < MAX_SIGNUM,
        ensures
            final(self).sa_mask.bits == old(self).sa_mask.bits | sig_bit(signum),
            final(self).sa_handler == old(self).sa_handler,
            final(self).sa_sigaction == old(self).sa_sigaction,
            final(self).sa_flags == old(self).sa_flags,
            final(self)._sa_restorer == old(self)._sa_restorer,
    {
        self.sa_mask.add(signum);
    }

    /// Stops blocking signal `signum` while the handler runs.
    pub fn mask_unblock(&mut self, signum: u32)
        requires
            signum < MAX_SIGNUM,
        ensures
            final(self).sa_mask.bits == old(self).sa_mask.bits & !sig_bit(signum),
            final(self).sa_handler == old(self).sa_handler,
            final(self).sa_sigaction == old(self).sa_sigaction,
            final(self).sa_flags == old(self).sa_flags,
            final(self)._sa_restorer == old(self)._sa_restorer,
    {
        self.sa_mask.sub(signum);
    }

    /// Whether signal `signum` is blocked while the handler runs.
    pub fn mask_contains(&self, signum: u32) -> (r: bool)
        requires
            signum < MAX_SIGNUM,
        ensures
            r == self.sa_mask.holds(signum),
    {
        self.sa_mask.if_contains(signum)
    }
}

/// Whether `signum` is a valid signal number.
pub fn is_signal_valid(signum: u32) -> (r: bool)
    ensures
        r == (signum < MAX_SIGNUM),
{
    signum < MAX_SIGNUM
}

/// The signals that can never be blocked or handled: `SIGKILL`, `SIGSTOP`, `SIGILL` and
/// `SIGSEGV`, taken out of `set`.
pub fn without_unblockable(set: SigMask) -> (r: SigMask)
    ensures
        r.bits == set.bits & !sig_bit(9) & !sig_bit(19) & !sig_bit(4) & !sig_bit(11),
{
    let mut s = set;
    s.sub(9);
    s.sub(19);
    s.sub(4);
    s.sub(11);
    s
}

/// The blocked signals after `sigprocmask(how, set)` with `old` blocked: `set` without the
/// signals that can never be blocked, added (0), removed (1) or put in place (2).
pub open spec fn mask_after(old: u64, how: usize, set: u64) -> u64 {
    let n = set & !sig_bit(9) & !sig_bit(19) & !sig_bit(4) & !sig_bit(11);
    if how == 0 {
        old | n
    } else if how == 1 {
        old & !n
    } else {
        n
    }
}

/// Blocking a set of signals and then unblocking it gives back the mask when none of them
/// was blocked before; setting a mask never blocks `SIGKILL`, `SIGSTOP`, `SIGILL` or
/// `SIGSEGV`, and blocking or unblocking leaves them as they were.
pub proof fn law_block_then_unblock(old: u64, set: u64)
    requires
        old & set == 0,
    ensures
        mask_after(mask_after(old, 0, set), 1, set) == old,
        forall|how: usize|
            #![trigger mask_after(old, how, set)]
            how <= 2 ==> (mask_after(old, how, set) & 0x8_0a10u64) == (if how == 2 {
                0
            } else {
                old & 0x8_0a10u64
            }),
{
    assert(sig_bit(9) == 0x200u64 && sig_bit(19) == 0x8_0000u64 && sig_bit(4) == 0x10u64 && sig_bit(11) == 0x800u64)
        by (bit_vector);
    let n = set & !0x200u64 & !0x8_0000u64 & !0x10u64 & !0x800u64;
    assert((old & set == 0 ==> ((old | n) & !n) == old) && ((old | n) & 0x8_0a10u64) == old & 0x8_0a10u64 && ((old
        & !n) & 0x8_0a10u64) == old & 0x8_0a10u64 && (n & 0x8_0a10u64) == 0) by (bit_vector)
        requires
            n == set & !0x200u64 & !0x8_0000u64 & !0x10u64 & !0x800u64,
    ;
}

/// The blocked signals after `sigprocmask(how, set)`: the signals that can never be blocked
/// are first taken out of `set`, which is then added to, removed from, or put in place of
/// the blocked signals. It is a fatal error on an unknown `how`.
pub fn sigprocmask_apply(old_mask: SigMask, how: usize, set: SigMask) -> (r: SigMask)
    requires
        how <= 2,
    ensures
        r.bits == mask_after(old_mask.bits, how, set.bits),
{
    let new_set = without_unblockable(set);
    let mut mask = old_mask;
    match MaskFlags::from_how(how) {
        MaskFlags::SIG_BLOCK => mask.add_other(new_set),
        MaskFlags::SIG_UNBLOCK => mask.sub_other(new_set),
        MaskFlags::SIG_SETMASK => mask = new_set,
        MaskFlags::UNKNOWN => {
            assert(false);
        },
    }
    mask
}

/// The set that `kill` and `tkill` add to the pending signals of the target for signal
/// number `signal` (not 0): the bit `signal - 1`, or `None` when that bit names no signal.
/// It is a fatal error (the shift overflows) on a number above 64.
pub fn kill_mask(signal: u32) -> (r: Option<SigMask>)
    requires
        1 <= signal <= 64,
    ensures
        r == (if (1u64 << ((signal - 1) as u32)) & !SIGMASK_ALL == 0 {
            Some(SigMask { bits: 1u64 << ((signal - 1) as u32) })
        } else {
            None
        }),
{
    SigMask::from_bits(1u64 << (signal - 1))
}

} // verus!
