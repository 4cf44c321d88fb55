//! The status LED: a steady blink whose rate shows the node's state, and
//! short bursts of flashes for events.
use vstd::prelude::*;

verus! {

pub const LED_BLINK_IDLE: u32 = 2000;
pub const LED_BLINK_ACTIVE: u32 = 500;
pub const LED_BLINK_ERROR: u32 = 100;
pub const LED_FLASH_INTERVAL: u32 = 100;

#[derive(Debug, Clone, Copy, PartialEq, Eq, Structural)]
pub struct LedController {
    pub is_on: bool,
    pub last_toggle: u32,
    pub interval_ms: u32,
    pub blink_count: u8,
    pub remaining: u8,
}

/// Milliseconds from `then` to `now` on a clock that wraps at 2^32.
pub open spec fn elapsed_ms(now: u32, then: u32) -> int {
    if now >= then { now - then } else { now + 0x1_0000_0000 - then }
}

/// The LED after `update(now)`, and whether it toggled: nothing happens
/// before an interval has passed; then a steady blink toggles, a burst
/// toggles while toggles remain, and a finished burst returns to the idle
/// blink.
pub open spec fn led_update(l: LedController, now: u32) -> (LedController, bool) {
    if elapsed_ms(now, l.last_toggle) < l.interval_ms {
        (l, false)
    } else if l.blink_count > 0 {
        if l.remaining > 0 {
            (LedController { last_toggle: now, remaining: (l.remaining - 1) as u8, is_on: !l.is_on, ..l }, true)
        } else {
            (LedController { last_toggle: now, interval_ms: LED_BLINK_IDLE, blink_count: 0, ..l }, false)
        }
    } else {
        (LedController { last_toggle: now, is_on: !l.is_on, ..l }, true)
    }
}

/// The LED after `flash(count)`.
pub open spec fn led_flash(l: LedController, count: u8) -> LedController {
    LedController { blink_count: count, remaining: (count * 2) as u8, interval_ms: LED_FLASH_INTERVAL, ..l }
}

/// The LED after `k` updates, each at least an interval after the last.
pub open spec fn led_after_due_updates(l: LedController, times: Seq<u32>) -> LedController
    decreases times.len(),
{
    if times.len() == 0 {
        l
    } else {
        led_after_due_updates(led_update(l, times[0]).0, times.skip(1))
    }
}

impl LedController {
    /// Off, blinking at the idle rate.
    pub fn new() -> (l: Self)
        ensures
            l == (LedController { is_on: false, last_toggle: 0, interval_ms: LED_BLINK_IDLE, blink_count: 0, remaining: 0 }),
    {
        Self { is_on: false, last_toggle: 0, interval_ms: LED_BLINK_IDLE, blink_count: 0, remaining: 0 }
    }

    /// Blink slowly.
    pub fn set_idle(&mut self)
        ensures
            *final(self) == (LedController { interval_ms: LED_BLINK_IDLE, blink_count: 0, ..*old(self) }),
    {
        self.interval_ms = LED_BLINK_IDLE;
        self.blink_count = 0;
    }

    /// Blink at the active rate.
    pub fn set_active(&mut self)
        ensures
            *final(self) == (LedController { interval_ms: LED_BLINK_ACTIVE, blink_count: 0, ..*old(self) }),
    {
        self.interval_ms = LED_BLINK_ACTIVE;
        self.blink_count = 0;
    }

    /// Blink fast.
    pub fn set_error(&mut self)
        ensures
            *final(self) == (LedController { interval_ms: LED_BLINK_ERROR, blink_count: 0, ..*old(self) }),
    {
        self.interval_ms = LED_BLINK_ERROR;
        self.blink_count = 0;
    }

    /// A burst of `count` flashes (two toggles each), every 100 ms.
    pub fn flash(&mut self, count: u8)
        requires
            count <= 127,
        ensures
            *final(self) == led_flash(*old(self), count),
    {
        self.blink_count = count;
        self.remaining = count * 2;
        self.interval_ms = LED_FLASH_INTERVAL;
    }

    /// Advances the LED to time `now`; true when it toggled.
    pub fn update(&mut self, current_time: u32) -> (toggled: bool)
        ensures
            (*final(self), toggled) == led_update(*old(self), current_time),
    {
        if current_time.wrapping_sub(self.last_toggle) >= self.interval_ms {
            self.last_toggle = current_time;
            if self.blink_count > 0 {
                if self.remaining > 0 {
                    self.remaining = self.remaining - 1;
                    self.is_on = !self.is_on;
                    return true;
                } else {
                    self.set_idle();
                }
            } else {
                self.is_on = !self.is_on;
                return true;
            }
        }
        false
    }
}

/// Each time in `times` comes at least one flash interval after the one
/// before it (the first after `prev`).
pub open spec fn flash_due(times: Seq<u32>, prev: u32) -> bool
    decreases times.len(),
{
    times.len() == 0 || (elapsed_ms(times[0], prev) >= LED_FLASH_INTERVAL && flash_due(times.skip(1), times[0]))
}

/// Law: a burst of flashes, once all its toggles are done, leaves the LED
/// as it found it, and the next due update returns it to the idle blink.
pub proof fn law_flash_restores(l: LedController, count: u8, times: Seq<u32>, last: u32)
    requires
        1 <= count <= 127,
        times.len() == 2 * count,
        flash_due(times, l.last_toggle),
        elapsed_ms(last, times[times.len() - 1]) >= LED_FLASH_INTERVAL,
    ensures
        led_after_due_updates(led_flash(l, count), times).is_on == l.is_on,
        led_update(led_after_due_updates(led_flash(l, count), times), last).0.interval_ms == LED_BLINK_IDLE,
        led_update(led_after_due_updates(led_flash(l, count), times), last).0.blink_count == 0,
        led_update(led_after_due_updates(led_flash(l, count), times), last).0.is_on == l.is_on,
{
    let f = led_flash(l, count);
    lemma_burst(f, times, (2 * count) as nat);
}

/// During a burst, each due update spends one toggle.
proof fn lemma_burst(l: LedController, times: Seq<u32>, k: nat)
    requires
        l.blink_count > 0,
        l.interval_ms == LED_FLASH_INTERVAL,
        l.remaining == k,
        times.len() == k,
        flash_due(times, l.last_toggle),
    ensures
        led_after_due_updates(l, times).is_on == (if k % 2 == 0 { l.is_on } else { !l.is_on }),
        led_after_due_updates(l, times).remaining == 0,
        led_after_due_updates(l, times).blink_count == l.blink_count,
        led_after_due_updates(l, times).interval_ms == LED_FLASH_INTERVAL,
        k > 0 ==> led_after_due_updates(l, times).last_toggle == times[k - 1],
    decreases k,
{
    if k > 0 {
        let l1 = led_update(l, times[0]).0;
        assert(l1 == (LedController { last_toggle: times[0], remaining: (k - 1) as u8, is_on: !l.is_on, ..l }));
        let rest = times.skip(1);
        lemma_burst(l1, rest, (k - 1) as nat);
        assert(led_after_due_updates(l, times) == led_after_due_updates(l1, rest));
        if k > 1 {
            assert(rest[k - 2] == times[k - 1]);
        }
    }
}

} // verus!
