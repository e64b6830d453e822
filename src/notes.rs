//! Monophonic note priority with sustain-pedal handling.
use vstd::prelude::*;

verus! {

/// Most notes that can be held at the same time.
pub const NOTE_CAPACITY: usize = 16;

#[verifier::external_type_specification]
#[verifier::external_body]
#[verifier::reject_recursive_types(T)]
pub struct ExHeaplessVec<T, const N: usize>(heapless::Vec<T, N>);

/// The notes that a fixed-capacity note list holds, in order.
pub uninterp spec fn note_list(v: heapless::Vec<u8, 16>) -> Seq<u8>;

/// Relies on heapless::Vec::new: a new vector is empty.
#[verifier::external_body]
fn list_new() -> (r: heapless::Vec<u8, 16>)
    ensures
        note_list(r) == Seq::<u8>::empty(),
{
    heapless::Vec::new()
}

/// Relies on heapless::Vec::as_slice: the slice holds the elements in order,
/// and `push` never lets the length pass the capacity.
#[verifier::external_body]
fn list_slice(v: &heapless::Vec<u8, 16>) -> (r: &[u8])
    ensures
        r@ == note_list(*v),
        r@.len() <= 16,
{
    v.as_slice()
}

/// Relies on heapless::Vec::push: it appends when the length is under the
/// capacity, and hands the item back unchanged otherwise.
#[verifier::external_body]
fn list_push(v: &mut heapless::Vec<u8, 16>, x: u8) -> (ok: bool)
    ensures
        ok == (note_list(*old(v)).len() < 16),
        ok ==> note_list(*final(v)) == note_list(*old(v)).push(x),
        !ok ==> note_list(*final(v)) == note_list(*old(v)),
{
    v.push(x).is_ok()
}

/// Relies on heapless::Vec::remove: the element at `i` leaves and the rest
/// keep their order; it panics when `i` is out of bounds.
#[verifier::external_body]
fn list_remove(v: &mut heapless::Vec<u8, 16>, i: usize) -> (r: u8)
    requires
        i < note_list(*old(v)).len(),
    ensures
        r == note_list(*old(v))[i as int],
        note_list(*final(v)) == note_list(*old(v)).remove(i as int),
{
    v.remove(i)
}

/// Relies on heapless::Vec::clear: the vector becomes empty.
#[verifier::external_body]
fn list_clear(v: &mut heapless::Vec<u8, 16>)
    ensures
        note_list(*final(v)) == Seq::<u8>::empty(),
{
    v.clear()
}

/// Abstract state of a [`NoteStack`].
pub struct NoteModel {
    pub held: Seq<u8>,
    pub pending: Seq<u8>,
    pub sustain: bool,
}

/// Position of the first `n` in `s`, if any.
pub open spec fn find(s: Seq<u8>, n: u8) -> Option<int>
    decreases s.len(),
{
    if s.len() == 0 {
        None
    } else if s[0] == n {
        Some(0)
    } else {
        match find(s.drop_first(), n) {
            Some(i) => Some(i + 1),
            None => None,
        }
    }
}

/// `s` with its first `n` taken out.
pub open spec fn without(s: Seq<u8>, n: u8) -> Seq<u8> {
    match find(s, n) {
        Some(i) => s.remove(i),
        None => s,
    }
}

/// `s` with `n` appended, unless it is there already or `s` is full.
pub open spec fn with_note(s: Seq<u8>, n: u8) -> Seq<u8> {
    if s.contains(n) || s.len() >= NOTE_CAPACITY {
        s
    } else {
        s.push(n)
    }
}

/// `held` with every note of `released` taken out, one after the other.
pub open spec fn release_all(held: Seq<u8>, released: Seq<u8>) -> Seq<u8>
    decreases released.len(),
{
    if released.len() == 0 {
        held
    } else {
        without(release_all(held, released.drop_last()), released.last())
    }
}

/// The state after a note-on of `n`.
pub open spec fn model_note_on(m: NoteModel, n: u8) -> NoteModel {
    NoteModel { held: with_note(m.held, n), pending: without(m.pending, n), sustain: m.sustain }
}

/// The state after a note-off of `n`.
pub open spec fn model_note_off(m: NoteModel, n: u8) -> NoteModel {
    if m.sustain {
        NoteModel {
            held: m.held,
            pending: if m.held.contains(n) {
                with_note(m.pending, n)
            } else {
                m.pending
            },
            sustain: true,
        }
    } else {
        NoteModel { held: without(m.held, n), pending: m.pending, sustain: false }
    }
}

/// The state after the sustain pedal is set to `active`.
pub open spec fn model_sustain(m: NoteModel, active: bool) -> NoteModel {
    if active {
        NoteModel { held: m.held, pending: m.pending, sustain: true }
    } else {
        NoteModel { held: release_all(m.held, m.pending), pending: Seq::empty(), sustain: false }
    }
}

/// The state with nothing held and the pedal up.
pub open spec fn model_empty() -> NoteModel {
    NoteModel { held: Seq::empty(), pending: Seq::empty(), sustain: false }
}

/// The sounding note: the last one still held.
pub open spec fn model_active(m: NoteModel) -> Option<u8> {
    if m.held.len() == 0 {
        None
    } else {
        Some(m.held.last())
    }
}

/// Tracks held notes, in the order they were pressed, and the notes whose
/// release waits for the sustain pedal.
pub struct NoteStack {
    notes: heapless::Vec<u8, 16>,
    pending_off: heapless::Vec<u8, 16>,
    sustain_active: bool,
}

impl View for NoteStack {
    type V = NoteModel;

    closed spec fn view(&self) -> NoteModel {
        NoteModel {
            held: note_list(self.notes),
            pending: note_list(self.pending_off),
            sustain: self.sustain_active,
        }
    }
}

/// Index of the first `n` in `s`, found by a scan.
fn position(s: &[u8], n: u8) -> (r: Option<usize>)
    ensures
        match r {
            Some(i) => find(s@, n) == Some(i as int),
            None => find(s@, n) == None::<int>,
        },
{
    let mut i: usize = 0;
    while i < s.len()
        invariant
            i <= s@.len(),
            forall|j: int| 0 <= j < i ==> s@[j] != n,
        decreases s.len() - i,
    {
        if s[i] == n {
            proof {
                lemma_find_first(s@, n, i as int);
            }
            return Some(i);
        }
        i = i + 1;
    }
    proof {
        lemma_find_absent(s@, n);
    }
    None
}

proof fn lemma_find_first(s: Seq<u8>, n: u8, i: int)
    requires
        0 <= i < s.len(),
        s[i] == n,
        forall|j: int| 0 <= j < i ==> s[j] != n,
    ensures
        find(s, n) == Some(i),
    decreases s.len(),
{
    if i > 0 {
        lemma_find_first(s.drop_first(), n, i - 1);
    }
}

proof fn lemma_find_absent(s: Seq<u8>, n: u8)
    requires
        forall|j: int| 0 <= j < s.len() ==> s[j] != n,
    ensures
        find(s, n) == None::<int>,
    decreases s.len(),
{
    if s.len() > 0 {
        lemma_find_absent(s.drop_first(), n);
    }
}

/// What `find` returns: the index of the first occurrence, or none when absent.
pub proof fn lemma_find(s: Seq<u8>, n: u8)
    ensures
        match find(s, n) {
            Some(i) => 0 <= i < s.len() && s[i] == n && forall|j: int| 0 <= j < i ==> s[j] != n,
            None => !s.contains(n),
        },
    decreases s.len(),
{
    if s.len() > 0 {
        lemma_find(s.drop_first(), n);
        if s[0] != n {
            match find(s.drop_first(), n) {
                Some(i) => {
                    assert forall|j: int| 0 <= j < i + 1 implies s[j] != n by {
                        if j > 0 {
                            assert(s[j] == s.drop_first()[j - 1]);
                        }
                    }
                },
                None => {
                    assert forall|j: int| 0 <= j < s.len() implies s[j] != n by {
                        if j > 0 {
                            assert(s[j] == s.drop_first()[j - 1]);
                        }
                    }
                },
            }
        }
    }
}

impl NoteStack {
    /// An empty stack with the pedal up.
    pub fn new() -> (r: Self)
        ensures
            r@ == model_empty(),
    {
        NoteStack { notes: list_new(), pending_off: list_new(), sustain_active: false }
    }

    /// Removes the first `n` from `v`, if it is there.
    fn remove_note(v: &mut heapless::Vec<u8, 16>, n: u8)
        ensures
            note_list(*final(v)) == without(note_list(*old(v)), n),
    {
        let pos = position(list_slice(v), n);
        if let Some(i) = pos {
            proof {
                lemma_find(note_list(*v), n);
            }
            list_remove(v, i);
        }
    }

    /// Whether `n` is in `v`.
    fn has_note(v: &heapless::Vec<u8, 16>, n: u8) -> (r: bool)
        ensures
            r == note_list(*v).contains(n),
    {
        proof {
            lemma_find(note_list(*v), n);
        }
        position(list_slice(v), n).is_some()
    }

    /// A key goes down: the note leaves the pending releases and joins the
    /// held notes at the top, unless it is held already or the stack is full.
    pub fn note_on(&mut self, note: u8)
        ensures
            final(self)@ == model_note_on(old(self)@, note),
    {
        Self::remove_note(&mut self.pending_off, note);
        if !Self::has_note(&self.notes, note) {
            list_push(&mut self.notes, note);
        }
    }

    /// A key comes up: with the pedal down the release waits, else the note
    /// leaves the held notes.
    pub fn note_off(&mut self, note: u8)
        ensures
            final(self)@ == model_note_off(old(self)@, note),
    {
        if self.sustain_active {
            if Self::has_note(&self.notes, note) && !Self::has_note(&self.pending_off, note) {
                list_push(&mut self.pending_off, note);
            }
        } else {
            Self::remove_note(&mut self.notes, note);
        }
    }

    /// The pedal goes down or up. Going up, every release that waited is
    /// carried out, in the order the keys came up.
    pub fn set_sustain(&mut self, active: bool)
        ensures
            final(self)@ == model_sustain(old(self)@, active),
    {
        self.sustain_active = active;
        if !active {
            let pending = list_slice(&self.pending_off);
            let ghost held0 = note_list(self.notes);
            let mut i: usize = 0;
            while i < pending.len()
                invariant
                    i <= pending@.len(),
                    pending@ == note_list(self.pending_off),
                    self.sustain_active == active,
                    note_list(self.notes) == release_all(held0, pending@.take(i as int)),
                decreases pending.len() - i,
            {
                proof {
                    assert(pending@.take(i + 1).drop_last() =~= pending@.take(i as int));
                }
                Self::remove_note(&mut self.notes, pending[i]);
                i = i + 1;
            }
            proof {
                assert(pending@.take(i as int) =~= pending@);
            }
            list_clear(&mut self.pending_off);
        }
    }

    /// All notes off: nothing held, nothing pending, pedal up.
    pub fn clear(&mut self)
        ensures
            final(self)@ == model_empty(),
    {
        list_clear(&mut self.notes);
        list_clear(&mut self.pending_off);
        self.sustain_active = false;
    }

    /// The note that sounds: the most recent one still held.
    pub fn active_note(&self) -> (r: Option<u8>)
        ensures
            r == model_active(self@),
    {
        let held = list_slice(&self.notes);
        if held.len() == 0 {
            None
        } else {
            Some(held[held.len() - 1])
        }
    }
}

/// One performance event on the note stack: a key down, a key up, the
/// pedal, or all notes off.
#[derive(Clone, Copy, PartialEq, Eq, Debug)]
pub enum NoteEvent {
    On(u8),
    Off(u8),
    Sustain(bool),
    Clear,
}

/// The state after one event.
pub open spec fn model_apply(m: NoteModel, e: NoteEvent) -> NoteModel {
    match e {
        NoteEvent::On(n) => model_note_on(m, n),
        NoteEvent::Off(n) => model_note_off(m, n),
        NoteEvent::Sustain(a) => model_sustain(m, a),
        NoteEvent::Clear => model_empty(),
    }
}

/// The state after a sequence of events, starting from an empty stack.
pub open spec fn model_run(events: Seq<NoteEvent>) -> NoteModel
    decreases events.len(),
{
    if events.len() == 0 {
        model_empty()
    } else {
        model_apply(model_run(events.drop_last()), events.last())
    }
}

/// Whether a key-down of `n` occurs among `events`.
pub open spec fn pressed(events: Seq<NoteEvent>, n: u8) -> bool {
    exists|i: int| 0 <= i < events.len() && events[i] == NoteEvent::On(n)
}

/// Well-formed state: no note twice, pending releases only of held notes and
/// only while the pedal is down, no more held notes than the capacity.
pub open spec fn model_wf(m: NoteModel) -> bool {
    &&& m.held.no_duplicates()
    &&& m.pending.no_duplicates()
    &&& forall|x: u8| m.pending.contains(x) ==> m.held.contains(x)
    &&& !m.sustain ==> m.pending.len() == 0
    &&& m.held.len() <= NOTE_CAPACITY
}

/// What taking the first `n` out of a sequence does.
proof fn lemma_without(s: Seq<u8>, n: u8)
    ensures
        without(s, n).len() <= s.len(),
        s.contains(n) ==> without(s, n).len() == s.len() - 1,
        forall|x: u8| #[trigger] without(s, n).contains(x) ==> s.contains(x),
        forall|x: u8| x != n && s.contains(x) ==> #[trigger] without(s, n).contains(x),
        s.no_duplicates() ==> without(s, n).no_duplicates() && !without(s, n).contains(n),
{
    lemma_find(s, n);
    match find(s, n) {
        Some(i) => {
            let r = s.remove(i);
            assert forall|j: int| 0 <= j < r.len() implies r[j] == s[if j < i { j } else { j + 1 }] by {}
            assert forall|x: u8| #[trigger] r.contains(x) implies s.contains(x) by {
                let j = choose|j: int| 0 <= j < r.len() && r[j] == x;
                assert(s[if j < i { j } else { j + 1 }] == x);
            }
            assert forall|x: u8| x != n && s.contains(x) implies #[trigger] r.contains(x) by {
                let k = choose|k: int| 0 <= k < s.len() && s[k] == x;
                if k < i {
                    assert(r[k] == x);
                } else {
                    assert(k != i);
                    assert(r[k - 1] == x);
                }
            }
            if s.no_duplicates() {
                assert forall|a: int, b: int| 0 <= a < r.len() && 0 <= b < r.len() && a != b implies r[a]
                    != r[b] by {
                    assert(r[a] == s[if a < i { a } else { a + 1 }]);
                    assert(r[b] == s[if b < i { b } else { b + 1 }]);
                }
                if r.contains(n) {
                    let j = choose|j: int| 0 <= j < r.len() && r[j] == n;
                    assert(s[if j < i { j } else { j + 1 }] == n);
                }
            }
        },
        None => {},
    }
}

/// What releasing a list of notes does.
proof fn lemma_release_all(held: Seq<u8>, released: Seq<u8>)
    ensures
        release_all(held, released).len() <= held.len(),
        forall|x: u8| #[trigger] release_all(held, released).contains(x) ==> held.contains(x),
        forall|x: u8| held.contains(x) && !released.contains(x) ==> #[trigger] release_all(held, released).contains(x),
        held.no_duplicates() ==> release_all(held, released).no_duplicates(),
        held.no_duplicates() ==> forall|x: u8| released.contains(x) ==> !#[trigger] release_all(held, released).contains(x),
    decreases released.len(),
{
    if released.len() > 0 {
        let prev = release_all(held, released.drop_last());
        lemma_release_all(held, released.drop_last());
        lemma_without(prev, released.last());
        assert forall|x: u8| held.contains(x) && !released.contains(x) implies #[trigger] release_all(held, released).contains(x) by {
            if released.drop_last().contains(x) {
                let k = choose|k: int| 0 <= k < released.drop_last().len() && released.drop_last()[k] == x;
                assert(released[k] == x);
            }
        }
        if held.no_duplicates() {
            assert forall|x: u8| released.contains(x) implies !#[trigger] release_all(held, released).contains(x) by {
                let k = choose|k: int| 0 <= k < released.len() && released[k] == x;
                if k < released.len() - 1 {
                    assert(released.drop_last()[k] == x);
                }
            }
        }
    }
}

/// One event keeps the state well formed, and does what the note priority
/// asks: a newly held note sounds at once, a key that comes up with the pedal
/// released stops sounding, a key that comes up under the pedal keeps sounding
/// until the pedal comes up, and releasing the pedal stops every note whose
/// key came up meanwhile.
pub proof fn lemma_event(m: NoteModel, e: NoteEvent)
    requires
        model_wf(m),
    ensures
        model_wf(model_apply(m, e)),
        forall|x: u8| #[trigger] model_apply(m, e).held.contains(x) ==> m.held.contains(x) || e == NoteEvent::On(x),
        e matches NoteEvent::On(n) ==> (!m.held.contains(n) && m.held.len() < NOTE_CAPACITY ==> model_active(model_apply(m, e)) == Some(n)),
        e matches NoteEvent::On(n) ==> (m.held.contains(n) || m.held.len() < NOTE_CAPACITY ==> model_apply(m, e).held.contains(n)),
        e matches NoteEvent::Off(n) ==> (!m.sustain ==> !model_apply(m, e).held.contains(n)),
        e matches NoteEvent::Off(n) ==> (m.sustain ==> model_apply(m, e).held == m.held),
        e matches NoteEvent::Sustain(a) ==> (!a ==> forall|x: u8| #[trigger] m.pending.contains(x) ==> !model_apply(m, e).held.contains(x)),
{
    match e {
        NoteEvent::On(n) => {
            lemma_without(m.pending, n);
            let h2 = with_note(m.held, n);
            if !(m.held.contains(n) || m.held.len() >= NOTE_CAPACITY) {
                assert forall|a: int, b: int| 0 <= a < h2.len() && 0 <= b < h2.len() && a != b implies h2[a] != h2[b] by {
                    if a == m.held.len() {
                        assert(m.held.contains(h2[b]) || b == a);
                    }
                    if b == m.held.len() {
                        assert(m.held.contains(h2[a]) || b == a);
                    }
                }
                assert forall|x: u8| #[trigger] h2.contains(x) implies m.held.contains(x) || x == n by {
                    let k = choose|k: int| 0 <= k < h2.len() && h2[k] == x;
                    if k < m.held.len() {
                        assert(m.held[k] == x);
                    }
                }
                assert forall|x: u8| m.held.contains(x) implies #[trigger] h2.contains(x) by {
                    let k = choose|k: int| 0 <= k < m.held.len() && m.held[k] == x;
                    assert(h2[k] == x);
                }
                assert(h2[h2.len() - 1] == n);
            }
        },
        NoteEvent::Off(n) => {
            if m.sustain {
                if m.held.contains(n) && !(m.pending.contains(n) || m.pending.len() >= NOTE_CAPACITY) {
                    let p2 = m.pending.push(n);
                    assert forall|a: int, b: int| 0 <= a < p2.len() && 0 <= b < p2.len() && a != b implies p2[a] != p2[b] by {
                        if a == m.pending.len() {
                            assert(m.pending.contains(p2[b]) || b == a);
                        }
                        if b == m.pending.len() {
                            assert(m.pending.contains(p2[a]) || b == a);
                        }
                    }
                    assert forall|x: u8| p2.contains(x) implies m.held.contains(x) by {
                        let k = choose|k: int| 0 <= k < p2.len() && p2[k] == x;
                        if k < m.pending.len() {
                            assert(m.pending[k] == x);
                        }
                    }
                }
            } else {
                lemma_without(m.held, n);
            }
        },
        NoteEvent::Sustain(a) => {
            if !a {
                lemma_release_all(m.held, m.pending);
            }
        },
        NoteEvent::Clear => {},
    }
}

/// Over any sequence of events the state stays well formed, and the note that
/// sounds is held and was pressed: never a note that no key played.
pub proof fn lemma_note_priority(events: Seq<NoteEvent>)
    ensures
        model_wf(model_run(events)),
        forall|x: u8| #[trigger] model_run(events).held.contains(x) ==> pressed(events, x),
        model_active(model_run(events)) matches Some(n) ==> model_run(events).held.contains(n) && pressed(events, n),
    decreases events.len(),
{
    if events.len() > 0 {
        let prev = events.drop_last();
        lemma_note_priority(prev);
        lemma_event(model_run(prev), events.last());
        let m = model_run(events);
        assert forall|x: u8| #[trigger] m.held.contains(x) implies pressed(events, x) by {
            if model_run(prev).held.contains(x) {
                let i = choose|i: int| 0 <= i < prev.len() && prev[i] == NoteEvent::On(x);
                assert(events[i] == NoteEvent::On(x));
            } else {
                assert(events[events.len() - 1] == NoteEvent::On(x));
            }
        }
    }
    let m = model_run(events);
    if m.held.len() > 0 {
        assert(m.held.contains(m.held.last()));
    }
}

/// Index of the last key-down of `n` among `events`, or -1 when there is none.
pub open spec fn last_press(events: Seq<NoteEvent>, n: u8) -> int
    decreases events.len(),
{
    if events.len() == 0 {
        -1
    } else if events.last() == NoteEvent::On(n) {
        events.len() - 1
    } else {
        last_press(events.drop_last(), n)
    }
}

/// No key goes down while its note is still held.
pub open spec fn no_repress(events: Seq<NoteEvent>) -> bool {
    forall|i: int|
        0 <= i < events.len() ==> (#[trigger] events[i] matches NoteEvent::On(n) ==> !model_run(
            events.take(i),
        ).held.contains(n))
}

/// `s` is strictly increasing by `key`.
pub open spec fn increasing_by(s: Seq<u8>, key: spec_fn(u8) -> int) -> bool {
    forall|a: int, b: int| 0 <= a < b < s.len() ==> key(#[trigger] s[a]) < key(#[trigger] s[b])
}

proof fn lemma_without_increasing(s: Seq<u8>, n: u8, key: spec_fn(u8) -> int)
    requires
        increasing_by(s, key),
    ensures
        increasing_by(without(s, n), key),
{
    lemma_find(s, n);
    match find(s, n) {
        Some(i) => {
            let r = s.remove(i);
            assert forall|a: int, b: int| 0 <= a < b < r.len() implies key(#[trigger] r[a]) < key(#[trigger] r[b]) by {
                let a2 = if a < i { a } else { a + 1 };
                let b2 = if b < i { b } else { b + 1 };
                assert(r[a] == s[a2] && r[b] == s[b2] && a2 < b2);
            }
        },
        None => {},
    }
}

proof fn lemma_release_all_increasing(held: Seq<u8>, released: Seq<u8>, key: spec_fn(u8) -> int)
    requires
        increasing_by(held, key),
    ensures
        increasing_by(release_all(held, released), key),
    decreases released.len(),
{
    if released.len() > 0 {
        lemma_release_all_increasing(held, released.drop_last(), key);
        lemma_without_increasing(release_all(held, released.drop_last()), released.last(), key);
    }
}

/// Where no key goes down while its note is still held, the held notes stay
/// in the order their keys last went down, so the note that sounds is the
/// most recently pressed of the notes still held.
pub proof fn lemma_latest_press_sounds(events: Seq<NoteEvent>)
    requires
        no_repress(events),
    ensures
        increasing_by(model_run(events).held, |x: u8| last_press(events, x)),
        forall|x: u8| #[trigger] model_run(events).held.contains(x) ==> 0 <= last_press(events, x) < events.len(),
        model_active(model_run(events)) matches Some(n) ==> forall|x: u8|
            #[trigger] model_run(events).held.contains(x) && x != n ==> last_press(events, x) < last_press(events, n),
    decreases events.len(),
{
    let m = model_run(events);
    let key = |x: u8| last_press(events, x);
    if events.len() > 0 {
        let prev = events.drop_last();
        let k = prev.len() as int;
        assert forall|i: int| 0 <= i < prev.len() implies (#[trigger] prev[i] matches NoteEvent::On(n) ==> !model_run(
            prev.take(i),
        ).held.contains(n)) by {
            assert(prev.take(i) =~= events.take(i));
            assert(events[i] == prev[i]);
        }
        lemma_latest_press_sounds(prev);
        lemma_note_priority(prev);
        let pm = model_run(prev);
        let pkey = |x: u8| last_press(prev, x);
        let e = events.last();
        lemma_event(pm, e);
        assert(events.take(k) =~= prev);
        match e {
            NoteEvent::On(n) => {
                assert(events[k] == e);
                assert(!pm.held.contains(n));
                assert forall|x: u8| x != n implies last_press(events, x) == last_press(prev, x) by {}
                assert(last_press(events, n) == k);
                if pm.held.len() < NOTE_CAPACITY {
                    assert(m.held == pm.held.push(n));
                    assert forall|a: int, b: int| 0 <= a < b < m.held.len() implies key(#[trigger] m.held[a]) < key(#[trigger] m.held[b]) by {
                        assert(pm.held.contains(m.held[a]));
                        if b < pm.held.len() {
                            assert(pm.held.contains(m.held[b]));
                            assert(pkey(pm.held[a]) < pkey(pm.held[b]));
                        }
                    }
                    assert forall|x: u8| #[trigger] m.held.contains(x) implies 0 <= last_press(events, x) < events.len() by {
                        if x != n {
                            let j = choose|j: int| 0 <= j < m.held.len() && m.held[j] == x;
                            assert(pm.held[j] == x);
                        }
                    }
                } else {
                    assert(m.held == pm.held);
                    assert forall|a: int, b: int| 0 <= a < b < m.held.len() implies key(#[trigger] m.held[a]) < key(#[trigger] m.held[b]) by {
                        assert(pm.held.contains(m.held[a]) && pm.held.contains(m.held[b]));
                        assert(pkey(pm.held[a]) < pkey(pm.held[b]));
                    }
                }
            },
            NoteEvent::Off(n) => {
                assert forall|x: u8| last_press(events, x) == last_press(prev, x) by {}
                assert(increasing_by(pm.held, key)) by {
                    assert forall|a: int, b: int| 0 <= a < b < pm.held.len() implies key(#[trigger] pm.held[a]) < key(#[trigger] pm.held[b]) by {
                        assert(pkey(pm.held[a]) < pkey(pm.held[b]));
                    }
                }
                if !pm.sustain {
                    lemma_without_increasing(pm.held, n, key);
                }
            },
            NoteEvent::Sustain(a) => {
                assert forall|x: u8| last_press(events, x) == last_press(prev, x) by {}
                assert(increasing_by(pm.held, key)) by {
                    assert forall|i: int, j: int| 0 <= i < j < pm.held.len() implies key(#[trigger] pm.held[i]) < key(#[trigger] pm.held[j]) by {
                        assert(pkey(pm.held[i]) < pkey(pm.held[j]));
                    }
                }
                if !a {
                    lemma_release_all_increasing(pm.held, pm.pending, key);
                }
            },
            NoteEvent::Clear => {},
        }
    }
    if m.held.len() > 0 {
        let n = m.held.last();
        assert forall|x: u8| #[trigger] m.held.contains(x) && x != n implies last_press(events, x) < last_press(events, n) by {
            let j = choose|j: int| 0 <= j < m.held.len() && m.held[j] == x;
            assert(j != m.held.len() - 1);
            assert(key(m.held[j]) < key(m.held[m.held.len() - 1]));
        }
    }
}

impl NoteStack {
    /// Carries out one event.
    pub fn apply(&mut self, e: NoteEvent)
        ensures
            final(self)@ == model_apply(old(self)@, e),
    {
        match e {
            NoteEvent::On(n) => self.note_on(n),
            NoteEvent::Off(n) => self.note_off(n),
            NoteEvent::Sustain(a) => self.set_sustain(a),
            NoteEvent::Clear => self.clear(),
        }
    }

    /// A new stack after `events`, one after the other: its state, and so its
    /// active note, is that of the model run over the same events.
    pub fn run(events: &[NoteEvent]) -> (r: NoteStack)
        ensures
            r@ == model_run(events@),
    {
        let mut s = NoteStack::new();
        let mut i: usize = 0;
        while i < events.len()
            invariant
                i <= events@.len(),
                s@ == model_run(events@.take(i as int)),
            decreases events.len() - i,
        {
            proof {
                assert(events@.take(i + 1).drop_last() =~= events@.take(i as int));
            }
            s.apply(events[i]);
            i = i + 1;
        }
        assert(events@.take(i as int) =~= events@);
        s
    }
}

/// A list without repeats whose notes all occur in `b` is no longer than `b`.
proof fn lemma_subset_len(a: Seq<u8>, b: Seq<u8>)
    requires
        a.no_duplicates(),
        forall|x: u8| a.contains(x) ==> b.contains(x),
    ensures
        a.len() <= b.len(),
    decreases a.len(),
{
    if a.len() > 0 {
        let x = a.last();
        let a2 = a.drop_last();
        assert(a.contains(x));
        lemma_without(b, x);
        assert forall|y: u8| a2.contains(y) implies without(b, x).contains(y) by {
            let j = choose|j: int| 0 <= j < a2.len() && a2[j] == y;
            assert(a[j] == y);
            assert(a.contains(y));
            assert(y != x);
        }
        assert forall|i: int, j: int| 0 <= i < a2.len() && 0 <= j < a2.len() && i != j implies a2[i] != a2[j] by {
            assert(a2[i] == a[i] && a2[j] == a[j]);
        }
        lemma_subset_len(a2, without(b, x));
    }
}

/// Index of the last all-notes-off among `events`, or -1 when there is none.
pub open spec fn last_clear(events: Seq<NoteEvent>) -> int
    decreases events.len(),
{
    if events.len() == 0 {
        -1
    } else if events.last() == NoteEvent::Clear {
        events.len() - 1
    } else {
        last_clear(events.drop_last())
    }
}

/// Whether the pedal is down just before event `j`.
pub open spec fn sustain_before(events: Seq<NoteEvent>, j: int) -> bool {
    model_run(events.take(j)).sustain
}

/// Whether a key-up of `n` after event `i` released it: one made with the
/// pedal up, or one made with the pedal down that a later pedal release flushed.
pub open spec fn released_after(events: Seq<NoteEvent>, n: u8, i: int) -> bool {
    exists|j: int|
        i < j < events.len() && #[trigger] events[j] == NoteEvent::Off(n) && (!sustain_before(events, j)
            || exists|k: int| j < k < events.len() && #[trigger] events[k] == NoteEvent::Sustain(false))
}

/// What holds of every note `x` held after `events`: pressed since the last
/// all-notes-off; every key-up of it since its last press made under a pedal
/// not released since; and such a key-up leaves it pending.
spec fn release_inv(events: Seq<NoteEvent>, m: NoteModel, x: u8) -> bool {
    &&& last_clear(events) < last_press(events, x)
    &&& 0 <= last_press(events, x) < events.len()
    &&& forall|j: int|
        last_press(events, x) < j < events.len() && #[trigger] events[j] == NoteEvent::Off(x) ==> {
            &&& sustain_before(events, j)
            &&& forall|k: int| j < k < events.len() ==> #[trigger] events[k] != NoteEvent::Sustain(false)
        }
    &&& (exists|j: int| last_press(events, x) < j < events.len() && #[trigger] events[j] == NoteEvent::Off(x))
        ==> m.pending.contains(x)
}

proof fn lemma_last_bounds(events: Seq<NoteEvent>, x: u8)
    ensures
        -1 <= last_clear(events) < events.len(),
        -1 <= last_press(events, x) < events.len(),
        last_press(events, x) >= 0 ==> events[last_press(events, x)] == NoteEvent::On(x),
    decreases events.len(),
{
    if events.len() > 0 {
        lemma_last_bounds(events.drop_last(), x);
    }
}

proof fn lemma_release_inv(events: Seq<NoteEvent>)
    ensures
        model_wf(model_run(events)),
        forall|x: u8| #[trigger] model_run(events).held.contains(x) ==> release_inv(events, model_run(events), x),
    decreases events.len(),
{
    lemma_note_priority(events);
    if events.len() > 0 {
        let prev = events.drop_last();
        let k = prev.len() as int;
        let e = events.last();
        let pm = model_run(prev);
        let m = model_run(events);
        lemma_release_inv(prev);
        lemma_event(pm, e);
        assert(events.take(k) =~= prev);
        assert forall|j: int| 0 <= j < k implies #[trigger] sustain_before(events, j) == sustain_before(prev, j) by {
            assert(events.take(j) =~= prev.take(j));
        }
        assert(sustain_before(events, k) == pm.sustain);
        assert forall|x: u8| #[trigger] m.held.contains(x) implies release_inv(events, m, x) by {
            lemma_last_bounds(prev, x);
            lemma_last_bounds(events, x);
            assert(forall|j: int| 0 <= j < k ==> #[trigger] events[j] == prev[j]);
            assert(events[k] == e);
            if e == NoteEvent::On(x) {
                assert(last_press(events, x) == k);
            } else {
                assert(pm.held.contains(x));
                assert(release_inv(prev, pm, x));
                assert(last_press(events, x) == last_press(prev, x));
                let lp = last_press(prev, x);
                match e {
                    NoteEvent::On(n) => {
                        lemma_without(pm.pending, n);
                        assert forall|j: int| lp < j < events.len() && #[trigger] events[j] == NoteEvent::Off(x) implies {
                            &&& sustain_before(events, j)
                            &&& forall|q: int| j < q < events.len() ==> #[trigger] events[q] != NoteEvent::Sustain(false)
                        } by {
                            assert(j < k);
                            assert(prev[j] == NoteEvent::Off(x));
                            assert forall|q: int| j < q < events.len() implies #[trigger] events[q] != NoteEvent::Sustain(false) by {
                                if q < k {
                                    assert(prev[q] != NoteEvent::Sustain(false));
                                }
                            }
                        }
                        if exists|j: int| lp < j < events.len() && #[trigger] events[j] == NoteEvent::Off(x) {
                            let j = choose|j: int| lp < j < events.len() && #[trigger] events[j] == NoteEvent::Off(x);
                            assert(prev[j] == NoteEvent::Off(x));
                        }
                    },
                    NoteEvent::Off(n) => {
                        if !pm.sustain {
                            lemma_without(pm.held, n);
                            assert(x != n);
                        }
                        assert forall|j: int| lp < j < events.len() && #[trigger] events[j] == NoteEvent::Off(x) implies {
                            &&& sustain_before(events, j)
                            &&& forall|q: int| j < q < events.len() ==> #[trigger] events[q] != NoteEvent::Sustain(false)
                        } by {
                            if j < k {
                                assert(prev[j] == NoteEvent::Off(x));
                                assert forall|q: int| j < q < events.len() implies #[trigger] events[q] != NoteEvent::Sustain(false) by {
                                    if q < k {
                                        assert(prev[q] != NoteEvent::Sustain(false));
                                    }
                                }
                            }
                        }
                        if pm.sustain && x == n {
                            if !pm.pending.contains(n) {
                                assert forall|y: u8| pm.pending.contains(y) implies without(pm.held, n).contains(y) by {
                                    lemma_without(pm.held, n);
                                }
                                lemma_without(pm.held, n);
                                lemma_subset_len(pm.pending, without(pm.held, n));
                                assert(pm.pending.len() < NOTE_CAPACITY);
                                assert(m.pending == pm.pending.push(n));
                                assert(m.pending[m.pending.len() - 1] == n);
                            }
                            assert(m.pending.contains(n));
                        } else if exists|j: int| lp < j < events.len() && #[trigger] events[j] == NoteEvent::Off(x) {
                            let j = choose|j: int| lp < j < events.len() && #[trigger] events[j] == NoteEvent::Off(x);
                            assert(j < k);
                            assert(prev[j] == NoteEvent::Off(x));
                            assert(pm.pending.contains(x));
                            if pm.sustain && pm.held.contains(n) && !pm.pending.contains(n) && pm.pending.len() < NOTE_CAPACITY {
                                let k2 = choose|i: int| 0 <= i < pm.pending.len() && pm.pending[i] == x;
                                assert(m.pending[k2] == x);
                            }
                        }
                    },
                    NoteEvent::Sustain(a) => {
                        if !a {
                            lemma_release_all(pm.held, pm.pending);
                            assert(!pm.pending.contains(x));
                            assert forall|j: int| lp < j < events.len() implies #[trigger] events[j] != NoteEvent::Off(x) by {
                                if j < k {
                                    if events[j] == NoteEvent::Off(x) {
                                        assert(prev[j] == NoteEvent::Off(x));
                                    }
                                }
                            }
                        } else {
                            assert forall|j: int| lp < j < events.len() && #[trigger] events[j] == NoteEvent::Off(x) implies {
                                &&& sustain_before(events, j)
                                &&& forall|q: int| j < q < events.len() ==> #[trigger] events[q] != NoteEvent::Sustain(false)
                            } by {
                                assert(prev[j] == NoteEvent::Off(x));
                                assert forall|q: int| j < q < events.len() implies #[trigger] events[q] != NoteEvent::Sustain(false) by {
                                    if q < k {
                                        assert(prev[q] != NoteEvent::Sustain(false));
                                    }
                                }
                            }
                            if exists|j: int| lp < j < events.len() && #[trigger] events[j] == NoteEvent::Off(x) {
                                let j = choose|j: int| lp < j < events.len() && #[trigger] events[j] == NoteEvent::Off(x);
                                assert(prev[j] == NoteEvent::Off(x));
                            }
                        }
                    },
                    NoteEvent::Clear => {},
                }
            }
        }
    }
}

/// Every held note, and so the note that sounds, was pressed since the last
/// all-notes-off, and since its last press it was neither released with the
/// pedal up nor released under the pedal and then flushed by the pedal coming
/// up.
pub proof fn lemma_sounding_note_not_released(events: Seq<NoteEvent>)
    ensures
        forall|n: u8| #[trigger] model_run(events).held.contains(n) ==> last_clear(events) < last_press(events, n)
            && !released_after(events, n, last_press(events, n)),
        model_active(model_run(events)) matches Some(n) ==> last_clear(events) < last_press(events, n)
            && !released_after(events, n, last_press(events, n)),
{
    lemma_release_inv(events);
    let m = model_run(events);
    assert forall|n: u8| #[trigger] m.held.contains(n) implies last_clear(events) < last_press(events, n)
        && !released_after(events, n, last_press(events, n)) by {
        assert(release_inv(events, m, n));
        let lp = last_press(events, n);
        if released_after(events, n, lp) {
            let j = choose|j: int|
                lp < j < events.len() && #[trigger] events[j] == NoteEvent::Off(n) && (!sustain_before(events, j)
                    || exists|k: int| j < k < events.len() && #[trigger] events[k] == NoteEvent::Sustain(false));
            assert(sustain_before(events, j));
        }
    }
    if m.held.len() > 0 {
        assert(m.held.contains(m.held.last()));
    }
}

} // verus!
