use vstd::prelude::*;

use crate::keys::KEY_COUNT;

verus! {

/// One slot per possible pitch value.
pub const PITCH_COUNT: usize = 256;

/// The ghost shape of a tracker: a reference count per key, and for each
/// pitch the key its last note-on pressed, if it is still held.
pub ghost struct TrackerState {
    pub counts: Seq<u64>,
    pub held: Seq<Option<u8>>,
}

/// What every tracker state satisfies.
pub open spec fn state_wf(s: TrackerState) -> bool {
    &&& s.counts.len() == KEY_COUNT
    &&& s.held.len() == PITCH_COUNT
    &&& forall|i: int| 0 <= i < PITCH_COUNT ==> ((#[trigger] s.held[i]) matches Some(k) ==> k < KEY_COUNT)
}

/// A note-on for `note` resolved to `key`: remember the key for the note,
/// raise the key's count; the press goes out only on the 0-to-1 step.
pub open spec fn on_state(s: TrackerState, note: int, key: int) -> TrackerState {
    TrackerState {
        counts: s.counts.update(key, (s.counts[key] + 1) as u64),
        held: s.held.update(note, Some(key as u8)),
    }
}

/// Whether the note-on's press goes out.
pub open spec fn on_presses(s: TrackerState, key: int) -> bool {
    s.counts[key] == 0
}

/// A note-off for `note`: forget the remembered key and lower its count if
/// it is positive; without a remembered key nothing happens.
pub open spec fn off_state(s: TrackerState, note: int) -> TrackerState {
    match s.held[note] {
        None => s,
        Some(k) => TrackerState {
            counts: if s.counts[k as int] > 0 {
                s.counts.update(k as int, (s.counts[k as int] - 1) as u64)
            } else {
                s.counts
            },
            held: s.held.update(note, None),
        },
    }
}

/// The key whose release goes out on this note-off, if any: the
/// remembered key, exactly when its count steps from 1 to 0.
pub open spec fn off_releases(s: TrackerState, note: int) -> Option<usize> {
    match s.held[note] {
        None => None,
        Some(k) => if s.counts[k as int] == 1 {
            Some(k as usize)
        } else {
            None
        },
    }
}

/// The keys with a positive count as of state `c`, ascending, one entry
/// each: the keys that are physically down.
pub open spec fn pressed_list(c: Seq<u64>, n: int) -> Seq<usize>
    decreases n,
{
    if n <= 0 {
        Seq::<usize>::empty()
    } else {
        pressed_list(c, n - 1) + (if c[n - 1] > 0 {
            seq![(n - 1) as usize]
        } else {
            Seq::<usize>::empty()
        })
    }
}

/// Every entry of the pressed list names a key among the first `n` whose
/// count is positive.
pub proof fn lemma_pressed_list_sound(c: Seq<u64>, n: int, j: int)
    requires
        n <= usize::MAX,
        0 <= j < pressed_list(c, n).len(),
    ensures
        0 <= pressed_list(c, n)[j] < n,
        c[pressed_list(c, n)[j] as int] > 0,
    decreases n,
{
    if n > 0 {
        let pre = pressed_list(c, n - 1);
        if c[n - 1] > 0 {
            assert(pressed_list(c, n) == pre + seq![(n - 1) as usize]);
            if j < pre.len() {
                lemma_pressed_list_sound(c, n - 1, j);
                assert((pre + seq![(n - 1) as usize])[j] == pre[j]);
            } else {
                assert((pre + seq![(n - 1) as usize])[j] == (n - 1) as usize);
            }
        } else {
            assert(pressed_list(c, n) == pre + Seq::<usize>::empty());
            assert(pre + Seq::<usize>::empty() =~= pre);
            lemma_pressed_list_sound(c, n - 1, j);
        }
    }
}

/// Every key among the first `n` whose count is positive is on the
/// pressed list.
pub proof fn lemma_pressed_list_complete(c: Seq<u64>, n: int, k: int)
    requires
        n <= usize::MAX,
        0 <= k < n,
        c[k] > 0,
    ensures
        pressed_list(c, n).contains(k as usize),
    decreases n,
{
    let pre = pressed_list(c, n - 1);
    if k == n - 1 {
        assert(pressed_list(c, n) == pre + seq![(n - 1) as usize]);
        assert((pre + seq![(n - 1) as usize])[pre.len() as int] == k as usize);
    } else {
        lemma_pressed_list_complete(c, n - 1, k);
        let j = choose|j: int|
            0 <= j < pre.len() && #[trigger] pre[j] == k as usize;
        if c[n - 1] > 0 {
            assert(pressed_list(c, n) == pre + seq![(n - 1) as usize]);
            assert((pre + seq![(n - 1) as usize])[j] == k as usize);
        } else {
            assert(pressed_list(c, n) == pre + Seq::<usize>::empty());
            assert((pre + Seq::<usize>::empty())[j] == k as usize);
        }
    }
}

/// Per-pass bookkeeping: which key each sounding note pressed, and how
/// many sounding notes hold each key down.  A key goes down on the first
/// note that needs it and comes up when the last one ends.
pub struct KeyTracker {
    pub counts: Vec<u64>,
    pub held: Vec<Option<u8>>,
}

impl KeyTracker {
    /// The ghost state of this tracker.
    pub open spec fn view_state(self) -> TrackerState {
        TrackerState { counts: self.counts@, held: self.held@ }
    }

    pub open spec fn wf(self) -> bool {
        state_wf(self.view_state())
    }

    /// A fresh pass: no key held, nothing remembered.
    pub fn new() -> (r: KeyTracker)
        ensures
            r.wf(),
            forall|k: int| 0 <= k < KEY_COUNT ==> r.view_state().counts[k] == 0,
            forall|i: int| 0 <= i < PITCH_COUNT ==> r.view_state().held[i] is None,
    {
        let mut counts: Vec<u64> = Vec::new();
        let mut i: usize = 0;
        while i < KEY_COUNT
            invariant
                i <= KEY_COUNT,
                counts@.len() == i,
                forall|k: int| 0 <= k < i ==> counts@[k] == 0,
            decreases KEY_COUNT - i,
        {
            counts.push(0);
            i = i + 1;
        }
        let mut held: Vec<Option<u8>> = Vec::new();
        let mut j: usize = 0;
        while j < PITCH_COUNT
            invariant
                j <= PITCH_COUNT,
                held@.len() == j,
                forall|i2: int| 0 <= i2 < j ==> held@[i2] is None,
            decreases PITCH_COUNT - j,
        {
            held.push(None);
            j = j + 1;
        }
        KeyTracker { counts, held }
    }

    /// Record a note-on resolved to `key`; true means the key must now be
    /// pressed (its count stepped from 0 to 1).
    pub fn note_on(&mut self, note: u8, key: usize) -> (r: bool)
        requires
            old(self).wf(),
            key < KEY_COUNT,
            old(self).view_state().counts[key as int] < u64::MAX,
        ensures
            final(self).wf(),
            final(self).view_state() == on_state(old(self).view_state(), note as int, key as int),
            r == on_presses(old(self).view_state(), key as int),
    {
        self.held[note as usize] = Some(key as u8);
        let c = self.counts[key];
        self.counts[key] = c + 1;
        c == 0
    }

    /// Record a note-off; `Some(k)` means key `k` must now be released
    /// (its count stepped from 1 to 0).
    pub fn note_off(&mut self, note: u8) -> (r: Option<usize>)
        requires
            old(self).wf(),
        ensures
            final(self).wf(),
            final(self).view_state() == off_state(old(self).view_state(), note as int),
            r == off_releases(old(self).view_state(), note as int),
    {
        match self.held[note as usize] {
            None => None,
            Some(k) => {
                self.held[note as usize] = None;
                let c = self.counts[k as usize];
                if c > 0 {
                    self.counts[k as usize] = c - 1;
                    if c == 1 {
                        Some(k as usize)
                    } else {
                        None
                    }
                } else {
                    None
                }
            },
        }
    }

    /// The keys currently held down, ascending: exactly those whose
    /// reference count is positive.
    pub fn pressed_keys(&self) -> (r: Vec<usize>)
        requires
            self.wf(),
        ensures
            r@ == pressed_list(self.view_state().counts, KEY_COUNT as int),
    {
        let mut out: Vec<usize> = Vec::new();
        let mut k: usize = 0;
        while k < KEY_COUNT
            invariant
                k <= KEY_COUNT,
                self.wf(),
                out@ == pressed_list(self.view_state().counts, k as int),
            decreases KEY_COUNT - k,
        {
            if self.counts[k] > 0 {
                proof {
                    assert(out@ + seq![k as usize] =~= pressed_list(
                        self.view_state().counts,
                        k as int,
                    ) + seq![k as usize]);
                }
                out.push(k);
            } else {
                proof {
                    assert(out@ + Seq::<usize>::empty() =~= out@);
                }
            }
            k = k + 1;
        }
        out
    }
}

/// Two overlapping note-ons that resolve to the same key press it exactly
/// once, and after both their note-offs it is released exactly once: the
/// second note-on finds the count already positive, the first note-off
/// only lowers the count, and the second note-off takes it to zero.
pub proof fn lemma_overlap_one_press_one_release(
    s0: TrackerState,
    n1: int,
    n2: int,
    key: int,
)
    requires
        state_wf(s0),
        0 <= n1 < PITCH_COUNT,
        0 <= n2 < PITCH_COUNT,
        n1 != n2,
        0 <= key < KEY_COUNT,
        s0.counts[key] == 0,
    ensures
        on_presses(s0, key),
        !on_presses(on_state(s0, n1, key), key),
        off_releases(on_state(on_state(s0, n1, key), n2, key), n1) is None,
        off_releases(off_state(on_state(on_state(s0, n1, key), n2, key), n1), n2) == Some(
            key as usize,
        ),
        off_state(off_state(on_state(on_state(s0, n1, key), n2, key), n1), n2).counts[key] == 0,
{
    let s1 = on_state(s0, n1, key);
    let s2 = on_state(s1, n2, key);
    assert(s2.counts[key] == 2);
    assert(s2.held[n1] == Some(key as u8));
    assert(s2.held[n2] == Some(key as u8));
    let s3 = off_state(s2, n1);
    assert(s3.counts[key] == 1);
    assert(s3.held[n2] == Some(key as u8));
}

} // verus!
