//! Shared state: interrupt generations, and the slot of the sentence that is
//! playing.
use vstd::prelude::*;

verus! {

/// A counter that numbers interrupts, plays or animations. Whoever captured its
/// value earlier can tell that it has moved on since.
pub struct Generation {
    n: u64,
}

impl View for Generation {
    type V = u64;

    closed spec fn view(&self) -> u64 {
        self.n
    }
}

/// The value after one more step. It starts over behind the last of 64 bits.
pub open spec fn next(g: u64) -> u64 {
    if g == u64::MAX {
        0
    } else {
        (g + 1) as u64
    }
}

/// The value after `n` more steps.
pub open spec fn later(g: u64, n: nat) -> u64
    decreases n,
{
    if n == 0 {
        g
    } else {
        next(later(g, (n - 1) as nat))
    }
}

impl Generation {
    pub fn new() -> (r: Self)
        ensures
            r@ == 0,
    {
        Generation { n: 0 }
    }

    /// The value to capture.
    pub fn current(&self) -> (r: u64)
        ensures
            r == self@,
    {
        self.n
    }

    /// Moves on, and hands out the new value.
    pub fn bump(&mut self) -> (r: u64)
        ensures
            final(self)@ == next(old(self)@),
            r == final(self)@,
    {
        if self.n == u64::MAX {
            self.n = 0;
        } else {
            self.n = self.n + 1;
        }
        self.n
    }

    /// Whether the counter has moved on since `captured`.
    pub fn superseded(&self, captured: u64) -> (r: bool)
        ensures
            r == (self@ != captured),
    {
        self.n != captured
    }
}

proof fn lemma_later(g: u64, n: nat)
    ensures
        later(g, n) == (g + n) % 0x1_0000_0000_0000_0000,
    decreases n,
{
    if n > 0 {
        lemma_later(g, (n - 1) as nat);
        let m = g + n - 1;
        assert((m + 1) % 0x1_0000_0000_0000_0000 == (if m % 0x1_0000_0000_0000_0000
            == 0xffff_ffff_ffff_ffff {
            0
        } else {
            m % 0x1_0000_0000_0000_0000 + 1
        }));
    }
}

/// An interrupt is for good: whatever captured the generation before stays
/// superseded, however many interrupts follow (short of all the values of 64
/// bits), so no later turn can bring a killed session back.
pub proof fn law_interrupt_is_for_good(captured: u64, n: nat)
    requires
        0 < n < 0x1_0000_0000_0000_0000,
    ensures
        later(captured, n) != captured,
{
    lemma_later(captured, n);
    assert((captured + n) % 0x1_0000_0000_0000_0000 != captured);
}

// ── The sentence that is playing ─────────────────────────────────────────────

/// The play number of the sentence that is playing, with what tells its waiter
/// that it is done.
pub struct AudioSlot<T> {
    playing: Option<(u64, T)>,
}

impl<T> View for AudioSlot<T> {
    type V = Option<(u64, T)>;

    closed spec fn view(&self) -> Option<(u64, T)> {
        self.playing
    }
}

/// What an acknowledgement of play `id` takes out of the slot, and what it
/// leaves: only the sentence that is playing can be acknowledged.
pub open spec fn acknowledged<T>(slot: Option<(u64, T)>, id: u64) -> (Option<(u64, T)>, Option<T>) {
    match slot {
        Some((current, waiter)) if current == id => (None, Some(waiter)),
        _ => (slot, None),
    }
}

impl<T> AudioSlot<T> {
    pub fn new() -> (r: Self)
        ensures
            r@ == None::<(u64, T)>,
    {
        AudioSlot { playing: None }
    }

    /// A sentence begins to play.
    pub fn begin(&mut self, id: u64, waiter: T)
        ensures
            final(self)@ == Some((id, waiter)),
    {
        self.playing = Some((id, waiter));
    }

    /// The renderer reports that play `id` is over.
    pub fn acknowledge(&mut self, id: u64) -> (r: Option<T>)
        ensures
            (final(self)@, r) == acknowledged(old(self)@, id),
    {
        let matches = match &self.playing {
            Some(p) => p.0 == id,
            None => false,
        };
        if matches {
            match self.playing.take() {
                Some(p) => Some(p.1),
                None => None,
            }
        } else {
            None
        }
    }

    /// Empties the slot, whatever is playing.
    pub fn release(&mut self) -> (r: Option<T>)
        ensures
            final(self)@ == None::<(u64, T)>,
            r == (match old(self)@ {
                Some(p) => Some(p.1),
                None => None,
            }),
    {
        match self.playing.take() {
            Some(p) => Some(p.1),
            None => None,
        }
    }
}

/// A sentence may be acknowledged twice. The second acknowledgement finds nothing,
/// and it leaves alone whatever sentence is playing by then.
pub proof fn law_stale_acknowledgement_is_ignored<T>(id: u64, waiter: T, next_id: u64, next_waiter: T)
    requires
        id != next_id,
    ensures
        acknowledged(acknowledged(Some((id, waiter)), id).0, id) == (
            None::<(u64, T)>,
            None::<T>,
        ),
        acknowledged(Some((next_id, next_waiter)), id) == (
            Some((next_id, next_waiter)),
            None::<T>,
        ),
{
}

/// Only the sentence that is playing can be acknowledged: an acknowledgement of it empties the
/// slot and hands its waiter out, and any other leaves the slot as it is.
pub proof fn law_an_acknowledgement_is_for_its_sentence<T>(id: u64, other: u64, waiter: T)
    ensures
        acknowledged(Some((id, waiter)), id) == (None::<(u64, T)>, Some(waiter)),
        other != id ==> acknowledged(Some((id, waiter)), other) == (
            Some((id, waiter)),
            None::<T>,
        ),
        acknowledged(None::<(u64, T)>, id) == (None::<(u64, T)>, None::<T>),
{
}

/// An interrupt is noticed by whoever captured the generation before it, and by nobody who
/// captured it after.
pub proof fn law_an_interrupt_is_noticed(
    g: &mut Generation,
    bumped: u64,
    after: &Generation,
    stale: bool,
    fresh: bool,
    captured: u64,
)
    requires
        call_ensures(Generation::bump, (g,), bumped),
        after@ == final(g)@,
        captured == old(g)@,
        call_ensures(Generation::superseded, (after, captured), stale),
        call_ensures(Generation::superseded, (after, bumped), fresh),
    ensures
        stale,
        !fresh,
{
    law_interrupt_is_for_good(captured, 1);
    reveal_with_fuel(later, 2);
}

/// A sentence that begins to play is the one that can be acknowledged; its acknowledgement hands
/// its waiter out once, and one of another sentence hands nothing out and takes nothing away.
pub proof fn law_a_sentence_is_acknowledged_once<T>(
    slot: &mut AudioSlot<T>,
    id: u64,
    waiter: T,
    other: &mut AudioSlot<T>,
    acked: u64,
    r: Option<T>,
    third: &mut AudioSlot<T>,
    released: Option<T>,
)
    requires
        call_ensures(AudioSlot::<T>::begin, (slot, id, waiter), ()),
        old(other)@ == Some((id, waiter)),
        call_ensures(AudioSlot::<T>::acknowledge, (other, acked), r),
        old(third)@ == Some((id, waiter)),
        call_ensures(AudioSlot::<T>::release, (third,), released),
    ensures
        final(slot)@ == Some((id, waiter)),
        acked == id ==> r == Some(waiter) && final(other)@ is None,
        acked != id ==> r is None && final(other)@ == Some((id, waiter)),
        released == Some(waiter),
        final(third)@ is None,
{
    law_an_acknowledgement_is_for_its_sentence(id, acked, waiter);
}

} // verus!
