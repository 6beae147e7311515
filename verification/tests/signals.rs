use kernel::signals::{
    is_signal_valid, kill_mask, sigprocmask_apply, without_unblockable, MaskFlags, SAFlags,
    SigAction, SigMask, Signal, MAX_SIGNUM, SIGMASK_ALL,
};

#[test]
fn signal_numbers_follow_declaration_order() {
    assert_eq!(Signal::empty().number(), 0);
    assert_eq!(Signal::SIGKILL.number(), 9);
    assert_eq!(Signal::SIGCHLD.number(), 17);
    assert_eq!(Signal::SIGUND2.number(), 33);
}

#[test]
fn add_then_contains_then_sub() {
    let mut m = SigMask::empty();
    assert!(m.is_empty());
    m.add(10);
    assert!(m.if_contains(10));
    assert!(!m.if_contains(11));
    m.sub(10);
    assert!(!m.if_contains(10));
    assert!(m.is_empty());
}

#[test]
fn numbers_above_33_are_held_by_every_set() {
    let m = SigMask::empty();
    assert!(m.if_contains(40));
    let mut e = SigMask::empty();
    // none of 1..=33 is held, so the first number held is 34
    assert_eq!(e.fetch(), Some(34));
}

#[test]
fn fetch_returns_lowest_pending() {
    let mut m = SigMask::empty();
    m.add(17);
    m.add(5);
    assert_eq!(m.fetch(), Some(5));
    // fetching does not take the signal out
    assert!(m.if_contains(5));
}

#[test]
fn mask_bits_are_checked() {
    assert_eq!(SigMask::from_bits(1), None);
    assert_eq!(SigMask::from_bits(0b110).map(|m| m.bits), Some(0b110));
    assert_eq!(SigMask::from_bits_truncate(u64::MAX).bits, SIGMASK_ALL);
    let a = SigMask { bits: 0b1110 };
    let b = SigMask { bits: 0b0110 };
    assert!(a.contains(b));
    assert!(!b.contains(a));
    assert_eq!(a.difference(b).bits, 0b1000);
    let mut c = b;
    c.add_other(SigMask { bits: 0b1_0000 });
    assert_eq!(c.bits, 0b1_0110);
    c.sub_other(b);
    assert_eq!(c.bits, 0b1_0000);
}

#[test]
fn sigprocmask_keeps_unblockable_signals_out() {
    let mut set = SigMask::empty();
    set.add(9);
    set.add(19);
    set.add(2);
    let cleaned = without_unblockable(set);
    assert!(!cleaned.if_contains(9));
    assert!(!cleaned.if_contains(19));
    assert!(cleaned.if_contains(2));
    let mut old = SigMask::empty();
    old.add(3);
    let blocked = sigprocmask_apply(old, 0, set);
    assert!(blocked.if_contains(2) && blocked.if_contains(3) && !blocked.if_contains(9));
    let unblocked = sigprocmask_apply(blocked, 1, set);
    assert!(!unblocked.if_contains(2) && unblocked.if_contains(3));
    let replaced = sigprocmask_apply(old, 2, set);
    assert!(replaced.if_contains(2) && !replaced.if_contains(3));
    assert_eq!(MaskFlags::from_how(0), MaskFlags::SIG_BLOCK);
    assert_eq!(MaskFlags::from_how(2), MaskFlags::SIG_SETMASK);
    assert_eq!(MaskFlags::from_how(7), MaskFlags::UNKNOWN);
}

#[test]
fn kill_sets_bit_below_the_number() {
    assert_eq!(kill_mask(2).map(|m| m.bits), Some(0b10));
    // bit 0 names no signal
    assert_eq!(kill_mask(1), None);
    assert_eq!(kill_mask(64), None);
    assert!(is_signal_valid(63));
    assert!(!is_signal_valid(MAX_SIGNUM));
}

#[test]
fn sigaction_masks() {
    let mut act = SigAction::new();
    assert!(act.is_empty());
    act.mask_block(12);
    assert!(act.mask_contains(12));
    act.mask_unblock(12);
    assert!(!act.mask_contains(12));
    assert!(SAFlags::empty().is_empty());
    assert!(SAFlags { bits: SAFlags::SA_SIGINFO | SAFlags::SA_RESTART }.contains(SAFlags::SA_RESTART));
}
