use vstd::prelude::*;

verus! {

/// The keys the trigger chord is made of; every other key is `Other`.
#[derive(Clone, Copy, Debug, PartialEq, Eq, Structural)]
pub enum Key {
    S,
    LControl,
    LAlt,
    LOption,
    Other,
}

/// The chord is held: S, left Control, and left Alt or left Option.
pub open spec fn chord_held(keys: Seq<Key>) -> bool {
    &&& keys.contains(Key::S)
    &&& keys.contains(Key::LControl)
    &&& (keys.contains(Key::LAlt) || keys.contains(Key::LOption))
}

/// One poll: from whether the chord was held at the last poll and whether it
/// is held now, whether it is held after this poll and whether an event fires.
pub open spec fn chord_step(armed: bool, held: bool) -> (bool, bool) {
    (held, held && !armed)
}

/// Events raised over a run of polls from the given state, with the state after it.
pub open spec fn run_polls(armed: bool, held: Seq<bool>) -> (bool, nat)
    decreases held.len(),
{
    if held.len() == 0 {
        (armed, 0)
    } else {
        let (a, n) = run_polls(armed, held.drop_last());
        let (a2, fired) = chord_step(a, held.last());
        (a2, if fired { n + 1 } else { n })
    }
}

/// Whether `k` is among `keys`.
pub fn holds_key(keys: &[Key], k: Key) -> (r: bool)
    ensures
        r == keys@.contains(k),
{
    let mut i: usize = 0;
    while i < keys.len()
        invariant
            i <= keys@.len(),
            forall|j: int| 0 <= j < i ==> keys@[j] != k,
        decreases keys@.len() - i,
    {
        if keys[i] == k {
            return true;
        }
        i = i + 1;
    }
    false
}

/// Whether the set of held keys completes the chord.
pub fn is_chord_held(keys: &[Key]) -> (r: bool)
    ensures
        r == chord_held(keys@),
{
    holds_key(keys, Key::S) && holds_key(keys, Key::LControl) && (holds_key(keys, Key::LAlt)
        || holds_key(keys, Key::LOption))
}

/// Edge detector for the chord: `Idle` until the chord is fully held, then
/// `Armed` until any of its keys is released.
pub struct TriggerMonitor {
    armed: bool,
}

impl TriggerMonitor {
    /// Whether the monitor is `Armed`.
    pub closed spec fn is_armed(&self) -> bool {
        self.armed
    }

    /// A monitor in the `Idle` state.
    pub fn new() -> (r: TriggerMonitor)
        ensures
            !r.is_armed(),
    {
        TriggerMonitor { armed: false }
    }

    /// Whether the monitor is `Armed`.
    pub fn armed(&self) -> (r: bool)
        ensures
            r == self.is_armed(),
    {
        self.armed
    }

    /// Takes one snapshot of the held keys; true where it raises a trigger
    /// event, which happens only on the move from `Idle` to `Armed`.
    pub fn poll(&mut self, keys: &[Key]) -> (fired: bool)
        ensures
            (final(self).is_armed(), fired) == chord_step(old(self).is_armed(), chord_held(keys@)),
    {
        let held = is_chord_held(keys);
        let fired = held && !self.armed;
        self.armed = held;
        fired
    }
}

proof fn lemma_hold_run(armed: bool, n: nat)
    ensures
        run_polls(armed, Seq::new(n, |i: int| true)) == (if n == 0 {
            (armed, 0nat)
        } else {
            (true, if armed { 0nat } else { 1nat })
        }),
    decreases n,
{
    let h = Seq::new(n, |i: int| true);
    if n > 0 {
        assert(h.drop_last() =~= Seq::new((n - 1) as nat, |i: int| true));
        lemma_hold_run(armed, (n - 1) as nat);
    }
}

proof fn lemma_run_append(armed: bool, a: Seq<bool>, b: Seq<bool>)
    ensures
        run_polls(armed, a + b) == ({
            let (s, n) = run_polls(armed, a);
            let (t, m) = run_polls(s, b);
            (t, n + m)
        }),
    decreases b.len(),
{
    if b.len() == 0 {
        assert(a + b =~= a);
    } else {
        assert((a + b).drop_last() =~= a + b.drop_last());
        lemma_run_append(armed, a, b.drop_last());
    }
}

/// Edge-trigger law: holding the chord for any number `n > 0` of consecutive
/// polls from `Idle` raises exactly one event; releasing it for one poll and
/// holding it again for `m > 0` polls raises exactly one more.
pub proof fn lemma_hold_fires_once(n: nat, m: nat)
    requires
        n > 0,
        m > 0,
    ensures
        run_polls(false, Seq::new(n, |i: int| true)).1 == 1,
        run_polls(false, Seq::new(n, |i: int| true) + seq![false] + Seq::new(m, |i: int| true)).1 == 2,
{
    let hn = Seq::new(n, |i: int| true);
    let hm = Seq::new(m, |i: int| true);
    lemma_hold_run(false, n);
    lemma_run_append(false, hn, seq![false]);
    assert(seq![false].drop_last() =~= Seq::<bool>::empty());
    assert(run_polls(true, Seq::<bool>::empty()) == (true, 0nat));
    assert(run_polls(true, seq![false]) == (false, 0nat));
    assert(run_polls(false, hn + seq![false]) == (false, 1nat));
    lemma_run_append(false, hn + seq![false], hm);
    lemma_hold_run(false, m);
}

} // verus!
