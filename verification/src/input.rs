use vstd::prelude::*;

verus! {

/// The number of keys on the pad.
pub const NUMBER_OF_INPUTS: usize = 16;

/// Where a request for the next key press stands.
#[derive(Debug, Clone, Copy, PartialEq, Eq, Structural)]
pub enum NewestKeyState {
    /// No request is open.
    Finished,
    /// A request is open and no key has been pressed since.
    Requested,
    /// A key was pressed for the open request and is still held.
    Held,
    /// The key pressed for the open request has been released.
    Sent,
}

/// The pad as data: which keys are down, where the key request stands, and
/// the key last pressed for a request.
pub ghost struct PadState {
    pub keys: Seq<bool>,
    pub wait: NewestKeyState,
    pub newest: u8,
}

/// The pad after the events of key `i`: a press sets the key down and, if a
/// request is open, makes it the requested key; otherwise a release sets it
/// up and, if the requested key is held, sends it.
pub open spec fn key_event(p: PadState, i: int, pressed: bool, released: bool) -> PadState {
    if pressed {
        PadState {
            keys: p.keys.update(i, true),
            wait: if p.wait == NewestKeyState::Requested {
                NewestKeyState::Held
            } else {
                p.wait
            },
            newest: if p.wait == NewestKeyState::Requested {
                i as u8
            } else {
                p.newest
            },
        }
    } else if released {
        PadState {
            keys: p.keys.update(i, false),
            wait: if p.wait == NewestKeyState::Held {
                NewestKeyState::Sent
            } else {
                p.wait
            },
            newest: p.newest,
        }
    } else {
        p
    }
}

/// The pad after the events of keys `0` to `n - 1`, in that order.
pub open spec fn events_upto(p: PadState, pressed: Seq<bool>, released: Seq<bool>, n: nat) -> PadState
    decreases n,
{
    if n == 0 {
        p
    } else {
        key_event(
            events_upto(p, pressed, released, (n - 1) as nat),
            n - 1,
            pressed[n - 1],
            released[n - 1],
        )
    }
}


/// Whether key `i` only goes up in a round (a press of it in the same round
/// comes first and wins).
pub open spec fn released_only(pressed: Seq<bool>, released: Seq<bool>, i: int) -> bool {
    !pressed[i] && released[i]
}

/// Whether some key after `k` and before `n` only goes up.
pub open spec fn released_after(pressed: Seq<bool>, released: Seq<bool>, k: int, n: int) -> bool {
    exists|j: int| k < j < n && #[trigger] released_only(pressed, released, j)
}

/// The lowest of keys `0` to `n - 1` pressed in a round, or `n` if none is.
pub open spec fn first_pressed(pressed: Seq<bool>, n: nat) -> nat
    decreases n,
{
    if n == 0 {
        0
    } else {
        let f = first_pressed(pressed, (n - 1) as nat);
        if f < n - 1 {
            f
        } else if pressed[n - 1] {
            (n - 1) as nat
        } else {
            n
        }
    }
}

/// `first_pressed` is the lowest pressed key, or `n` where none is pressed.
pub proof fn lemma_first_pressed(pressed: Seq<bool>, n: nat)
    requires
        n <= pressed.len(),
    ensures
        first_pressed(pressed, n) <= n,
        first_pressed(pressed, n) < n ==> pressed[first_pressed(pressed, n) as int],
        forall|i: int| 0 <= i < first_pressed(pressed, n) ==> !pressed[i],
    decreases n,
{
    if n > 0 {
        lemma_first_pressed(pressed, (n - 1) as nat);
    }
}

proof fn lemma_released_after_step(pressed: Seq<bool>, released: Seq<bool>, k: int, n: int)
    ensures
        released_after(pressed, released, k, n + 1) == (released_after(pressed, released, k, n)
            || (k < n && released_only(pressed, released, n))),
{
    if released_after(pressed, released, k, n + 1) {
        let j = choose|j: int| k < j < n + 1 && #[trigger] released_only(pressed, released, j);
        if j < n {
            assert(k < j < n && released_only(pressed, released, j));
        }
    }
    if released_after(pressed, released, k, n) {
        let j = choose|j: int| k < j < n && #[trigger] released_only(pressed, released, j);
        assert(k < j < n + 1 && released_only(pressed, released, j));
    }
    if k < n && released_only(pressed, released, n) {
        assert(k < n < n + 1 && released_only(pressed, released, n));
    }
}

/// The pad after the events of keys `0` to `n - 1` of one round; see
/// `lemma_round`.
pub proof fn lemma_round_prefix(p: PadState, pressed: Seq<bool>, released: Seq<bool>, n: nat)
    requires
        p.keys.len() == 16,
        pressed.len() == 16,
        released.len() == 16,
        n <= 16,
    ensures
        ({
            let q = events_upto(p, pressed, released, n);
            let f = first_pressed(pressed, n);
            &&& q.keys == Seq::new(
                16,
                |i: int|
                    if i < n && pressed[i] {
                        true
                    } else if i < n && released[i] {
                        false
                    } else {
                        p.keys[i]
                    },
            )
            &&& (p.wait == NewestKeyState::Finished || p.wait == NewestKeyState::Sent) ==> q.wait
                == p.wait && q.newest == p.newest
            &&& p.wait == NewestKeyState::Held ==> q.newest == p.newest && q.wait == (if released_after(
                pressed,
                released,
                -1,
                n as int,
            ) {
                NewestKeyState::Sent
            } else {
                NewestKeyState::Held
            })
            &&& p.wait == NewestKeyState::Requested ==> if f == n {
                q.wait == NewestKeyState::Requested && q.newest == p.newest
            } else {
                &&& q.newest == f
                &&& q.wait == (if released_after(pressed, released, f as int, n as int) {
                    NewestKeyState::Sent
                } else {
                    NewestKeyState::Held
                })
            }
        }),
    decreases n,
{
    if n > 0 {
        let m = (n - 1) as nat;
        lemma_round_prefix(p, pressed, released, m);
        lemma_first_pressed(pressed, m);
        let prev = events_upto(p, pressed, released, m);
        let q = events_upto(p, pressed, released, n);
        lemma_released_after_step(pressed, released, -1, m as int);
        lemma_released_after_step(pressed, released, first_pressed(pressed, m) as int, m as int);
        assert(q.keys =~= Seq::new(
            16,
            |i: int|
                if i < n && pressed[i] {
                    true
                } else if i < n && released[i] {
                    false
                } else {
                    p.keys[i]
                },
        ));
        if p.wait == NewestKeyState::Requested && first_pressed(pressed, m) == m && pressed[m as int] {
            assert(!released_after(pressed, released, m as int, n as int));
        }
    } else {
        assert(p.keys =~= Seq::new(
            16,
            |i: int|
                if i < 0 && pressed[i] {
                    true
                } else if i < 0 && released[i] {
                    false
                } else {
                    p.keys[i]
                },
        ));
    }
}

/// One round of key events: each key pressed is down and each key only
/// released is up. With a request open, the lowest key pressed in the round
/// becomes the requested key and is held, and is sent if a higher key is only
/// released in the same round; a held key is sent on any key that is only
/// released; with no request open (or one already sent), the request and the
/// requested key stay as they were, as they do where no matching event came.
pub proof fn lemma_round(p: PadState, pressed: Seq<bool>, released: Seq<bool>)
    requires
        p.keys.len() == 16,
        pressed.len() == 16,
        released.len() == 16,
    ensures
        ({
            let q = events_upto(p, pressed, released, 16);
            let k = first_pressed(pressed, 16);
            let any_pressed = exists|i: int| 0 <= i < 16 && #[trigger] pressed[i];
            &&& forall|i: int| 0 <= i < 16 && pressed[i] ==> q.keys[i]
            &&& forall|i: int| 0 <= i < 16 && released_only(pressed, released, i) ==> !q.keys[i]
            &&& forall|i: int| 0 <= i < 16 && !pressed[i] && !released[i] ==> q.keys[i] == p.keys[i]
            &&& any_pressed ==> k < 16 && pressed[k as int] && forall|i: int|
                0 <= i < k ==> !pressed[i]
            &&& (p.wait == NewestKeyState::Requested && any_pressed) ==> {
                &&& q.newest == k
                &&& q.wait == (if released_after(pressed, released, k as int, 16) {
                    NewestKeyState::Sent
                } else {
                    NewestKeyState::Held
                })
            }
            &&& (p.wait == NewestKeyState::Requested && !any_pressed) ==> q.wait
                == NewestKeyState::Requested && q.newest == p.newest
            &&& p.wait == NewestKeyState::Held ==> {
                &&& q.newest == p.newest
                &&& q.wait == (if released_after(pressed, released, -1, 16) {
                    NewestKeyState::Sent
                } else {
                    NewestKeyState::Held
                })
            }
            &&& (p.wait == NewestKeyState::Finished || p.wait == NewestKeyState::Sent) ==> q.wait
                == p.wait && q.newest == p.newest
        }),
{
    lemma_round_prefix(p, pressed, released, 16);
    lemma_first_pressed(pressed, 16);
    let k = first_pressed(pressed, 16);
    if exists|i: int| 0 <= i < 16 && #[trigger] pressed[i] {
        let i = choose|i: int| 0 <= i < 16 && #[trigger] pressed[i];
        assert(k <= i);
    } else {
        if k < 16 {
            assert(pressed[k as int]);
        }
    }
}

/// A round of events in which only key `k` has any is that key's event.
pub proof fn lemma_single_key_round(
    p: PadState,
    pressed: Seq<bool>,
    released: Seq<bool>,
    k: int,
    n: nat,
)
    requires
        pressed.len() == 16,
        released.len() == 16,
        n <= 16,
        0 <= k < 16,
        forall|i: int| 0 <= i < 16 && i != k ==> !pressed[i] && !released[i],
    ensures
        events_upto(p, pressed, released, n) == (if k < n {
            key_event(p, k, pressed[k], released[k])
        } else {
            p
        }),
    decreases n,
{
    if n > 0 {
        lemma_single_key_round(p, pressed, released, k, (n - 1) as nat);
    }
}

/// A program waiting for a key gets the key that is pressed and then
/// released: after a request, a round that presses only key `k` and a round
/// that releases only key `k` leave the request answered with `k`.
pub proof fn lemma_key_handover(p: PadState, k: int)
    requires
        p.keys.len() == 16,
        p.wait == NewestKeyState::Requested,
        0 <= k < 16,
    ensures
        ({
            let only_k = Seq::new(16, |i: int| i == k);
            let none = Seq::new(16, |i: int| false);
            let p1 = events_upto(p, only_k, none, 16);
            let p2 = events_upto(p1, none, only_k, 16);
            &&& p1.keys[k]
            &&& p1.wait == NewestKeyState::Held
            &&& p2.wait == NewestKeyState::Sent
            &&& p2.newest == k
            &&& !p2.keys[k]
        }),
{
    let only_k = Seq::new(16, |i: int| i == k);
    let none = Seq::new(16, |i: int| false);
    lemma_single_key_round(p, only_k, none, k, 16);
    let p1 = events_upto(p, only_k, none, 16);
    lemma_single_key_round(p1, none, only_k, k, 16);
}

/// The sixteen-key pad, and the hand-over of one key press to a program that
/// waits for it.
pub struct KeyPad {
    key_states: Vec<bool>,
    newest_key_state: NewestKeyState,
    newest_key: u8,
}

impl View for KeyPad {
    type V = PadState;

    closed spec fn view(&self) -> PadState {
        PadState { keys: self.key_states@, wait: self.newest_key_state, newest: self.newest_key }
    }
}

impl KeyPad {
    /// The pad's invariant.
    pub closed spec fn wf(&self) -> bool {
        self.key_states@.len() == NUMBER_OF_INPUTS
    }

    /// What every pad satisfies.
    pub proof fn lemma_wf_facts(&self)
        requires
            self.wf(),
        ensures
            self@.keys.len() == NUMBER_OF_INPUTS,
    {
    }

    /// A pad with every key up and no request open.
    pub fn new() -> (r: KeyPad)
        ensures
            r.wf(),
            r@ == (PadState {
                keys: Seq::new(16, |i: int| false),
                wait: NewestKeyState::Finished,
                newest: 0,
            }),
    {
        let mut key_states: Vec<bool> = Vec::new();
        let mut i: usize = 0;
        while i < NUMBER_OF_INPUTS
            invariant
                i <= NUMBER_OF_INPUTS,
                key_states@.len() == i,
                forall|j: int| 0 <= j < i ==> !key_states@[j],
            decreases NUMBER_OF_INPUTS - i,
        {
            key_states.push(false);
            i = i + 1;
        }
        assert(key_states@ =~= Seq::new(16, |i: int| false));
        KeyPad { key_states, newest_key_state: NewestKeyState::Finished, newest_key: 0 }
    }

    /// Applies one round of key events: `pressed[i]` and `released[i]` say
    /// whether key `i` went down or up since the last round. Keys are taken
    /// in order from 0 to 15.
    pub fn update_input(&mut self, pressed: &[bool], released: &[bool])
        requires
            old(self).wf(),
            pressed@.len() == NUMBER_OF_INPUTS,
            released@.len() == NUMBER_OF_INPUTS,
        ensures
            final(self).wf(),
            final(self)@ == events_upto(old(self)@, pressed@, released@, 16),
    {
        let mut i: usize = 0;
        while i < NUMBER_OF_INPUTS
            invariant
                self.wf(),
                i <= NUMBER_OF_INPUTS,
                pressed@.len() == NUMBER_OF_INPUTS,
                released@.len() == NUMBER_OF_INPUTS,
                self@ == events_upto(old(self)@, pressed@, released@, i as nat),
            decreases NUMBER_OF_INPUTS - i,
        {
            if pressed[i] {
                self.key_states.set(i, true);
                if self.newest_key_state == NewestKeyState::Requested {
                    self.newest_key = i as u8;
                    self.newest_key_state = NewestKeyState::Held;
                }
            } else if released[i] {
                self.key_states.set(i, false);
                if self.newest_key_state == NewestKeyState::Held {
                    self.newest_key_state = NewestKeyState::Sent;
                }
            }
            i = i + 1;
        }
    }

    /// Whether key `key_index` is down.
    pub fn get_key_state(&self, key_index: u8) -> (r: bool)
        requires
            self.wf(),
            key_index < 16,
        ensures
            r == self@.keys[key_index as int],
    {
        self.key_states[key_index as usize]
    }

    /// Where the key request stands.
    pub fn get_newest_key_state(&self) -> (r: NewestKeyState)
        ensures
            r == self@.wait,
    {
        self.newest_key_state
    }

    /// Opens a request for the next key press.
    pub fn request_key(&mut self)
        requires
            old(self).wf(),
        ensures
            final(self).wf(),
            final(self)@ == (PadState { wait: NewestKeyState::Requested, ..old(self)@ }),
    {
        self.newest_key_state = NewestKeyState::Requested;
    }

    /// Closes the request and hands over the key last pressed for one.
    pub fn finish_request(&mut self) -> (r: u8)
        requires
            old(self).wf(),
        ensures
            final(self).wf(),
            r == old(self)@.newest,
            final(self)@ == (PadState { wait: NewestKeyState::Finished, ..old(self)@ }),
    {
        self.newest_key_state = NewestKeyState::Finished;
        self.newest_key
    }
}

} // verus!
