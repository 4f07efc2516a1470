use vstd::prelude::*;
use crate::user::{User, UserModel};

verus! {

/// Minimum time, in milliseconds, between two messages that earn experience.
pub const COOLDOWN_MS: i64 = 60000;

/// Experience earned by one eligible message.
pub const XP_PER_MESSAGE: i32 = 10;

/// Level `l` starts at `LEVEL_STEP * l * l` experience.
pub const LEVEL_STEP: u64 = 10;

/// The experience at which level `l` starts.
pub open spec fn level_threshold(l: nat) -> int {
    LEVEL_STEP * l * l
}

/// `l` is the level of `xp`: the last level whose threshold `xp` has reached.
pub open spec fn is_level_of(xp: int, l: nat) -> bool {
    level_threshold(l) <= xp < level_threshold(l + 1)
}

/// A message at `now` earns experience when the cooldown since `last` has elapsed.
pub open spec fn cooldown_elapsed(last: int, now: int) -> bool {
    now - last >= COOLDOWN_MS
}

/// `v + d`, held at the largest `i32`.
pub open spec fn capped_add(v: int, d: int) -> int {
    if v + d > i32::MAX {
        i32::MAX as int
    } else {
        v + d
    }
}

/// The record after a message at `now`.
pub open spec fn award_spec(u: UserModel, now: int) -> UserModel {
    if cooldown_elapsed(u.last_message, now) {
        UserModel {
            xp: capped_add(u.xp, XP_PER_MESSAGE as int),
            messages_sent: capped_add(u.messages_sent, 1),
            last_message: now,
            ..u
        }
    } else {
        u
    }
}

proof fn lemma_threshold_monotone(a: nat, b: nat)
    requires
        a <= b,
    ensures
        level_threshold(a) <= level_threshold(b),
{
    assert(LEVEL_STEP * a * a <= LEVEL_STEP * b * b) by (nonlinear_arith)
        requires
            a <= b,
    ;
}

/// The level of an experience total: the largest `l` with
/// `LEVEL_STEP * l * l <= xp`.
pub fn level_of(xp: i32) -> (r: u32)
    requires
        xp >= 0,
    ensures
        is_level_of(xp as int, r as nat),
{
    let mut l: u64 = 0;
    loop
        invariant
            l <= 15000,
            level_threshold(l as nat) <= xp,
        decreases 15000 - l,
    {
        let n: u64 = l + 1;
        assert(LEVEL_STEP * n * n <= 10 * 15001 * 15001) by (nonlinear_arith)
            requires
                n <= 15001,
        ;
        if LEVEL_STEP * n * n > xp as u64 {
            return l as u32;
        }
        assert(n < 15000) by (nonlinear_arith)
            requires
                LEVEL_STEP * n * n <= xp,
                xp <= i32::MAX,
        ;
        l = n;
    }
}

/// Each experience total has exactly one level, so the level that
/// `level_of` returns is the only one.
pub proof fn lemma_level_unique(xp: int, l1: nat, l2: nat)
    requires
        is_level_of(xp, l1),
        is_level_of(xp, l2),
    ensures
        l1 == l2,
{
    if l1 < l2 {
        lemma_threshold_monotone(l1 + 1, l2);
    } else if l2 < l1 {
        lemma_threshold_monotone(l2 + 1, l1);
    }
}

/// The level never goes down as experience grows, and no experience means
/// level zero.
pub proof fn lemma_level_monotone(xp1: int, xp2: int, l1: nat, l2: nat)
    requires
        0 <= xp1 <= xp2,
        is_level_of(xp1, l1),
        is_level_of(xp2, l2),
    ensures
        l1 <= l2,
        xp1 == 0 ==> l1 == 0,
{
    if l1 > l2 {
        lemma_threshold_monotone(l2 + 1, l1);
    }
    if xp1 == 0 && l1 > 0 {
        lemma_threshold_monotone(1, l1);
    }
}

/// A second message inside the cooldown window earns nothing; a message
/// after the window has elapsed again raises experience and the message
/// count (while neither is at its largest value).
pub proof fn lemma_cooldown_throttles(u: UserModel, t1: int, t2: int, t3: int)
    requires
        cooldown_elapsed(u.last_message, t1),
        t2 - t1 < COOLDOWN_MS,
        t3 - t1 >= COOLDOWN_MS,
        0 <= u.xp,
        0 <= u.messages_sent,
    ensures
        award_spec(award_spec(u, t1), t2) == award_spec(u, t1),
        award_spec(award_spec(u, t1), t3).xp >= award_spec(u, t1).xp,
        award_spec(award_spec(u, t1), t3).messages_sent >= award_spec(u, t1).messages_sent,
        award_spec(u, t1).xp + XP_PER_MESSAGE <= i32::MAX ==> award_spec(award_spec(u, t1), t3).xp
            > award_spec(u, t1).xp,
        award_spec(u, t1).messages_sent < i32::MAX ==> award_spec(
            award_spec(u, t1),
            t3,
        ).messages_sent > award_spec(u, t1).messages_sent,
{
}

impl User {
    /// Credits one message sent at `now` (epoch milliseconds). When the
    /// cooldown since the last credited message has elapsed, experience
    /// grows by `XP_PER_MESSAGE`, the message count by one (both held at the
    /// largest `i32`), and `now` becomes the last credited time; otherwise
    /// nothing changes. Returns whether the message was credited.
    pub fn award_message_xp(&mut self, now: i64) -> (r: bool)
        ensures
            final(self)@ == award_spec(old(self)@, now as int),
            r == cooldown_elapsed(old(self).last_message as int, now as int),
            old(self)@.wf() ==> final(self)@.wf(),
    {
        if (now as i128) - (self.last_message as i128) >= COOLDOWN_MS as i128 {
            self.xp = if self.xp > i32::MAX - XP_PER_MESSAGE {
                i32::MAX
            } else {
                self.xp + XP_PER_MESSAGE
            };
            self.messages_sent = if self.messages_sent == i32::MAX {
                i32::MAX
            } else {
                self.messages_sent + 1
            };
            self.last_message = now;
            true
        } else {
            false
        }
    }

    /// The level derived from this record's experience.
    pub fn level(&self) -> (r: u32)
        requires
            self@.wf(),
        ensures
            is_level_of(self.xp as int, r as nat),
    {
        level_of(self.xp)
    }
}

} // verus!
