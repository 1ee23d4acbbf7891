//! The play queue: the tracks handed to the player, the order in which they
//! play (sequential or shuffled), and the entry that is playing now.
//!
//! Removed entries leave the play order but stay in the track list, so the
//! play order is the real queue. The queue is generic over the track type.

use rand::seq::SliceRandom;
use vstd::prelude::*;

verus! {

broadcast use vstd::seq_lib::group_to_multiset_ensures;

/// The abstract state of a [`PlayQueue`].
pub struct QueueView<T> {
    /// Every track ever handed to the queue, in insertion order.
    pub tracks: Seq<T>,
    /// The play order: indices into `tracks`.
    pub order: Seq<usize>,
    /// The current position in `order`.
    pub position: Option<usize>,
    pub shuffle: bool,
    /// The playing entry was removed while later entries remained: `position`
    /// already names the following entry, so the next advance stays put.
    pub stay_on_next: bool,
}

/// The value behind an optional reference.
pub open spec fn opt_val<T>(o: Option<&T>) -> Option<T> {
    match o {
        Some(t) => Some(*t),
        None => None,
    }
}

/// The play order `0, 1, .., n - 1`.
pub open spec fn identity_order(n: nat) -> Seq<usize> {
    Seq::new(n, |i: int| i as usize)
}

/// Every element is smaller than the next.
pub open spec fn strictly_increasing(s: Seq<usize>) -> bool {
    forall|i: int, j: int| 0 <= i < j < s.len() ==> s[i] < s[j]
}

impl<T> QueueView<T> {
    /// The queue's invariant: the order names existing tracks, each at most
    /// once, and the position lies inside the order (or is 0 in an emptied
    /// order after a restart).
    pub open spec fn wf(self) -> bool {
        &&& forall|k: int|
            0 <= k < self.order.len() ==> (#[trigger] self.order[k] as int) < self.tracks.len()
        &&& self.order.no_duplicates()
        &&& self.position matches Some(p) ==> (p < self.order.len() || (p == 0
            && self.order.len() == 0))
    }

    /// The track at position `k` of the play order.
    pub open spec fn entry(self, k: int) -> T {
        self.tracks[self.order[k] as int]
    }

    /// The track that is playing now.
    pub open spec fn current(self) -> Option<T> {
        match self.position {
            Some(p) => if p < self.order.len() {
                Some(self.entry(p as int))
            } else {
                None
            },
            None => None,
        }
    }

    /// State after `next`.
    pub open spec fn after_next(self) -> Self {
        if self.tracks.len() == 0 {
            self
        } else if self.stay_on_next {
            QueueView { stay_on_next: false, ..self }
        } else {
            match self.position {
                Some(p) => if p + 1 < self.order.len() {
                    QueueView { position: Some((p + 1) as usize), ..self }
                } else {
                    self
                },
                None => self,
            }
        }
    }

    /// Track returned by `next`.
    pub open spec fn next_result(self) -> Option<T> {
        if self.tracks.len() == 0 {
            None
        } else if self.stay_on_next {
            self.current()
        } else {
            match self.position {
                Some(p) => if p + 1 < self.order.len() {
                    Some(self.entry(p + 1))
                } else {
                    None
                },
                None => None,
            }
        }
    }

    /// State after `prev`.
    pub open spec fn after_prev(self) -> Self {
        if self.tracks.len() == 0 {
            self
        } else {
            match self.position {
                Some(p) => if p > 0 {
                    QueueView { position: Some((p - 1) as usize), stay_on_next: false, ..self }
                } else {
                    QueueView { stay_on_next: false, ..self }
                },
                None => QueueView { stay_on_next: false, ..self },
            }
        }
    }

    /// Track returned by `prev`.
    pub open spec fn prev_result(self) -> Option<T> {
        if self.tracks.len() == 0 {
            None
        } else {
            match self.position {
                Some(p) => if p > 0 {
                    self.after_prev().current()
                } else {
                    None
                },
                None => None,
            }
        }
    }

    /// State after `skip_to(k)`.
    pub open spec fn after_skip_to(self, k: usize) -> Self {
        if k < self.order.len() {
            QueueView { position: Some(k), stay_on_next: false, ..self }
        } else {
            self
        }
    }

    /// State after `restart`.
    pub open spec fn after_restart(self) -> Self {
        if self.tracks.len() == 0 {
            self
        } else {
            QueueView { position: Some(0), stay_on_next: false, ..self }
        }
    }

    /// Track returned by `peek_next(wrap)`.
    pub open spec fn peek_next_result(self, wrap: bool) -> Option<T> {
        if self.stay_on_next {
            self.current()
        } else {
            match self.position {
                Some(p) => if p + 1 < self.order.len() {
                    Some(self.entry(p + 1))
                } else if wrap && self.tracks.len() > 0 && self.order.len() > 0 {
                    Some(self.entry(0))
                } else {
                    None
                },
                None => None,
            }
        }
    }

    /// State after `move_in_queue(from, to)`.
    pub open spec fn after_move(self, from: usize, to: usize) -> Self {
        if from >= self.order.len() || to >= self.order.len() || from == to {
            self
        } else {
            let order = self.order.remove(from as int).insert(to as int, self.order[from as int]);
            let position = match self.position {
                Some(p) => if from == p {
                    Some(to)
                } else if from < p && to >= p {
                    Some((p - 1) as usize)
                } else if from > p && to <= p {
                    Some((p + 1) as usize)
                } else {
                    Some(p)
                },
                None => None,
            };
            QueueView { order, position, ..self }
        }
    }

    /// State after `remove_at_order_index(k)`.
    pub open spec fn after_remove(self, k: usize) -> Self {
        if k >= self.order.len() {
            self
        } else {
            let order = self.order.remove(k as int);
            match self.position {
                Some(p) => if k < p {
                    QueueView { order, position: Some((p - 1) as usize), ..self }
                } else if k == p {
                    if p >= order.len() {
                        QueueView {
                            order,
                            position: if order.len() == 0 {
                                None
                            } else {
                                Some((order.len() - 1) as usize)
                            },
                            ..self
                        }
                    } else {
                        QueueView { order, stay_on_next: true, ..self }
                    }
                } else {
                    QueueView { order, ..self }
                },
                None => QueueView { order, ..self },
            }
        }
    }

    /// `self` is `old` with shuffle turned on: the played entries and the
    /// current one keep their places, the upcoming ones are permuted.
    pub open spec fn shuffled_from(self, old: Self) -> bool {
        let start = match old.position {
            Some(p) => p + 1,
            None => 0,
        };
        &&& self.tracks == old.tracks
        &&& self.position == old.position
        &&& self.stay_on_next == old.stay_on_next
        &&& self.shuffle
        &&& self.order.len() == old.order.len()
        &&& start <= old.order.len() ==> {
            &&& self.order.subrange(0, start) == old.order.subrange(0, start)
            &&& self.order.subrange(start, self.order.len() as int).to_multiset()
                == old.order.subrange(start, old.order.len() as int).to_multiset()
        }
        &&& start > old.order.len() ==> self.order == old.order
    }

    /// `self` is `old` with shuffle turned off: the order is back in
    /// insertion order (ascending track index), holding the same entries,
    /// and the current track stays current.
    pub open spec fn unshuffled_from(self, old: Self) -> bool {
        &&& self.tracks == old.tracks
        &&& self.stay_on_next == old.stay_on_next
        &&& !self.shuffle
        &&& self.order.to_multiset() == old.order.to_multiset()
        &&& strictly_increasing(self.order)
        &&& match old.position {
            Some(p) => if p < old.order.len() {
                self.position matches Some(q) && q < self.order.len() && self.order[q as int]
                    == old.order[p as int]
            } else {
                self.position == old.position
            },
            None => self.position is None,
        }
    }
}

/// The play queue.
pub struct PlayQueue<T> {
    tracks: Vec<T>,
    order: Vec<usize>,
    position: Option<usize>,
    shuffle: bool,
    stay_on_next: bool,
}

impl<T> View for PlayQueue<T> {
    type V = QueueView<T>;

    closed spec fn view(&self) -> QueueView<T> {
        QueueView {
            tracks: self.tracks@,
            order: self.order@,
            position: self.position,
            shuffle: self.shuffle,
            stay_on_next: self.stay_on_next,
        }
    }
}

/// Permutes `order[start..]` at random (`SliceRandom::shuffle` with the
/// thread-local generator). Claimed: the length and `order[..start]` are
/// unchanged and `order[start..]` holds the same entries; which permutation
/// comes out is left open.
#[verifier::external_body]
fn shuffle_tail(order: &mut Vec<usize>, start: usize)
    requires
        start <= old(order)@.len(),
    ensures
        final(order)@.len() == old(order)@.len(),
        final(order)@.subrange(0, start as int) == old(order)@.subrange(0, start as int),
        final(order)@.subrange(start as int, final(order)@.len() as int).to_multiset() == old(
            order,
        )@.subrange(start as int, old(order)@.len() as int).to_multiset(),
{
    let mut rng = rand::thread_rng();
    order[start..].shuffle(&mut rng);
}

/// Sorts indices ascending (`slice::sort_unstable`). Claimed: the result is
/// ascending and holds the same entries.
#[verifier::external_body]
fn sort_indices(order: &mut Vec<usize>)
    ensures
        final(order)@.to_multiset() == old(order)@.to_multiset(),
        forall|i: int, j: int|
            0 <= i <= j < final(order)@.len() ==> final(order)@[i] <= final(order)@[j],
{
    order.sort_unstable();
}

/// Equal multisets of sequences without duplicates keep that property.
proof fn lemma_same_entries_no_duplicates(a: Seq<usize>, b: Seq<usize>)
    requires
        a.no_duplicates(),
        a.to_multiset() == b.to_multiset(),
    ensures
        b.no_duplicates(),
{
    a.lemma_multiset_has_no_duplicates();
    b.lemma_multiset_has_no_duplicates_conv();
}

/// Two strictly increasing sequences with the same elements are equal.
pub proof fn lemma_strictly_increasing_unique(a: Seq<usize>, b: Seq<usize>)
    requires
        strictly_increasing(a),
        strictly_increasing(b),
        a.len() == b.len(),
        forall|x: usize| a.contains(x) <==> b.contains(x),
    ensures
        a == b,
    decreases a.len(),
{
    if a.len() > 0 {
        assert(a.contains(a[0]));
        assert(b.contains(b[0]));
        let i = choose|i: int| 0 <= i < b.len() && b[i] == a[0];
        let j = choose|j: int| 0 <= j < a.len() && a[j] == b[0];
        assert(a[0] == b[0]) by {
            if i > 0 {
                assert(b[0] < b[i]);
            }
            if j > 0 {
                assert(a[0] < a[j]);
            }
        }
        let a1 = a.drop_first();
        let b1 = b.drop_first();
        assert forall|x: usize| a1.contains(x) <==> b1.contains(x) by {
            if a1.contains(x) {
                let k = choose|k: int| 0 <= k < a1.len() && a1[k] == x;
                assert(a[k + 1] == x);
                assert(x > a[0]);
                assert(b.contains(x));
                let m = choose|m: int| 0 <= m < b.len() && b[m] == x;
                assert(m > 0);
                assert(b1[m - 1] == x);
            }
            if b1.contains(x) {
                let k = choose|k: int| 0 <= k < b1.len() && b1[k] == x;
                assert(b[k + 1] == x);
                assert(x > b[0]);
                assert(a.contains(x));
                let m = choose|m: int| 0 <= m < a.len() && a[m] == x;
                assert(m > 0);
                assert(a1[m - 1] == x);
            }
        }
        lemma_strictly_increasing_unique(a1, b1);
        assert(a =~= seq![a[0]] + a1);
        assert(b =~= seq![b[0]] + b1);
    } else {
        assert(a =~= b);
    }
}

impl<T> PlayQueue<T> {
    /// An empty queue, shuffle off.
    pub fn new() -> (q: Self)
        ensures
            q@.wf(),
            q@.tracks.len() == 0,
            q@.order.len() == 0,
            q@.position is None,
            !q@.shuffle,
            !q@.stay_on_next,
    {
        PlayQueue {
            tracks: Vec::new(),
            order: Vec::new(),
            position: None,
            shuffle: false,
            stay_on_next: false,
        }
    }

    /// The play order `0..len`, permuted at random when shuffle is on.
    fn rebuild_order(&mut self)
        ensures
            final(self)@.tracks == old(self)@.tracks,
            final(self)@.position == old(self)@.position,
            final(self)@.shuffle == old(self)@.shuffle,
            final(self)@.stay_on_next == old(self)@.stay_on_next,
            final(self)@.order.to_multiset() == identity_order(old(self)@.tracks.len()).to_multiset(),
            !old(self)@.shuffle ==> final(self)@.order == identity_order(old(self)@.tracks.len()),
    {
        let len = self.tracks.len();
        let mut order: Vec<usize> = Vec::new();
        let mut i: usize = 0;
        while i < len
            invariant
                i <= len,
                order@ == identity_order(i as nat),
            decreases len - i,
        {
            order.push(i);
            i = i + 1;
            assert(order@ =~= identity_order(i as nat));
        }
        if self.shuffle {
            let ghost before = order@;
            shuffle_tail(&mut order, 0);
            assert(order@.subrange(0, order@.len() as int) =~= order@);
            assert(before.subrange(0, before.len() as int) =~= before);
        }
        self.order = order;
    }

    /// Replaces the queue's tracks and starts at `start_index` (clamped to the
    /// last track), wherever that track landed in the play order.
    pub fn set_tracks(&mut self, tracks: Vec<T>, start_index: usize)
        ensures
            final(self)@.wf(),
            final(self)@.tracks == tracks@,
            final(self)@.shuffle == old(self)@.shuffle,
            !final(self)@.stay_on_next,
            final(self)@.order.to_multiset() == identity_order(tracks@.len()).to_multiset(),
            !old(self)@.shuffle ==> final(self)@.order == identity_order(tracks@.len()),
            tracks@.len() == 0 ==> final(self)@.position is None,
            tracks@.len() > 0 ==> (final(self)@.position matches Some(p) && p < final(self)@.order.len()
                && final(self)@.order[p as int] == (if start_index < tracks@.len() {
                start_index
            } else {
                (tracks@.len() - 1) as usize
            })),
    {
        let len = tracks.len();
        self.tracks = tracks;
        self.stay_on_next = false;
        self.rebuild_order();
        let ghost ident = identity_order(len as nat);
        proof {
            assert(ident.no_duplicates());
            lemma_same_entries_no_duplicates(ident, self.order@);
            assert forall|k: int| 0 <= k < self.order@.len() implies (#[trigger] self.order@[k]
                as int) < len by {
                let x = self.order@[k];
                assert(self.order@.contains(x));
                assert(self.order@.to_multiset().count(x) > 0);
                assert(ident.to_multiset().count(x) > 0);
                assert(ident.contains(x));
            }
        }
        let clamped = if len > 0 {
            if start_index < len {
                start_index
            } else {
                len - 1
            }
        } else {
            0
        };
        if len > 0 {
            proof {
                assert(ident[clamped as int] == clamped);
                assert(ident.contains(clamped));
                assert(ident.to_multiset().count(clamped) > 0);
                assert(self.order@.to_multiset().count(clamped) > 0);
                assert(self.order@.contains(clamped));
            }
            let mut k: usize = 0;
            while k < self.order.len() && self.order[k] != clamped
                invariant
                    k <= self.order@.len(),
                    forall|j: int| 0 <= j < k ==> self.order@[j] != clamped,
                decreases self.order@.len() - k,
            {
                k = k + 1;
            }
            if k < self.order.len() {
                self.position = Some(k);
            } else {
                self.position = Some(0);
            }
        } else {
            self.position = None;
        }
    }
}

impl<T> PlayQueue<T> {
    /// Appends a track to the end of the play order.
    pub fn add_track(&mut self, track: T)
        requires
            old(self)@.wf(),
            old(self)@.tracks.len() < usize::MAX,
        ensures
            final(self)@.wf(),
            final(self)@ == (QueueView {
                tracks: old(self)@.tracks.push(track),
                order: old(self)@.order.push(old(self)@.tracks.len() as usize),
                ..old(self)@
            }),
    {
        let idx = self.tracks.len();
        self.tracks.push(track);
        self.order.push(idx);
        assert(self.order@.no_duplicates()) by {
            assert forall|i: int, j: int|
                0 <= i < self.order@.len() && 0 <= j < self.order@.len() && i != j implies self.order@[i]
                != self.order@[j] by {
                if i < self.order@.len() - 1 && j < self.order@.len() - 1 {
                    assert(old(self)@.order[i] == self.order@[i]);
                    assert(old(self)@.order[j] == self.order@[j]);
                } else if i < self.order@.len() - 1 {
                    assert((old(self)@.order[i] as int) < old(self)@.tracks.len());
                } else if j < self.order@.len() - 1 {
                    assert((old(self)@.order[j] as int) < old(self)@.tracks.len());
                }
            }
        }
    }

    /// Inserts a track right after the current position (at the front when
    /// nothing is playing).
    pub fn add_next(&mut self, track: T)
        requires
            old(self)@.wf(),
            old(self)@.tracks.len() < usize::MAX,
            old(self)@.position matches Some(p) ==> p < old(self)@.order.len(),
        ensures
            final(self)@.wf(),
            final(self)@ == (QueueView {
                tracks: old(self)@.tracks.push(track),
                order: old(self)@.order.insert(
                    match old(self)@.position {
                        Some(p) => p + 1,
                        None => 0,
                    },
                    old(self)@.tracks.len() as usize,
                ),
                ..old(self)@
            }),
    {
        let idx = self.tracks.len();
        let n = self.order.len();
        self.tracks.push(track);
        let insert_pos = match self.position {
            Some(p) => p + 1,
            None => 0,
        };
        let ghost old_order = self.order@;
        self.order.insert(insert_pos, idx);
        assert(self.order@.no_duplicates()) by {
            assert forall|i: int, j: int|
                0 <= i < self.order@.len() && 0 <= j < self.order@.len() && i != j implies self.order@[i]
                != self.order@[j] by {
                let ip = insert_pos as int;
                let oi = if i < ip { i } else { i - 1 };
                let oj = if j < ip { j } else { j - 1 };
                if i != ip && j != ip {
                    assert(self.order@[i] == old_order[oi]);
                    assert(self.order@[j] == old_order[oj]);
                } else if i != ip {
                    assert(self.order@[i] == old_order[oi]);
                    assert((old_order[oi] as int) < old(self)@.tracks.len());
                } else if j != ip {
                    assert(self.order@[j] == old_order[oj]);
                    assert((old_order[oj] as int) < old(self)@.tracks.len());
                }
            }
        }
        assert forall|k: int| 0 <= k < self.order@.len() implies (#[trigger] self.order@[k] as int)
            < self.tracks@.len() by {
            if k < insert_pos {
                assert(self.order@[k] == old_order[k]);
            } else if k > insert_pos {
                assert(self.order@[k] == old_order[k - 1]);
            }
        }
    }

    /// The track playing now.
    pub fn current(&self) -> (r: Option<&T>)
        requires
            self@.wf(),
        ensures
            opt_val(r) == self@.current(),
    {
        match self.position {
            Some(pos) => {
                if pos < self.order.len() {
                    let idx = self.order[pos];
                    Some(&self.tracks[idx])
                } else {
                    None
                }
            },
            None => None,
        }
    }

    /// Advances to the next entry of the play order. At the end it stays
    /// put and returns `None` (the caller decides about repeating). Right
    /// after the playing entry was removed it stays on the entry that took
    /// its place.
    pub fn next(&mut self) -> (r: Option<&T>)
        requires
            old(self)@.wf(),
        ensures
            final(self)@.wf(),
            final(self)@ == old(self)@.after_next(),
            opt_val(r) == old(self)@.next_result(),
    {
        if self.tracks.len() == 0 {
            return None;
        }
        if self.stay_on_next {
            self.stay_on_next = false;
            return self.current();
        }
        match self.position {
            Some(pos) => {
                if pos < self.order.len() && pos + 1 < self.order.len() {
                    self.position = Some(pos + 1);
                } else {
                    return None;
                }
            },
            None => {
                return None;
            },
        }
        self.current()
    }

    /// Steps back one entry; at the start it stays put and returns `None`.
    pub fn prev(&mut self) -> (r: Option<&T>)
        requires
            old(self)@.wf(),
        ensures
            final(self)@.wf(),
            final(self)@ == old(self)@.after_prev(),
            opt_val(r) == old(self)@.prev_result(),
    {
        if self.tracks.len() == 0 {
            return None;
        }
        self.stay_on_next = false;
        match self.position {
            Some(pos) => {
                if pos > 0 {
                    self.position = Some(pos - 1);
                } else {
                    return None;
                }
            },
            None => {
                return None;
            },
        }
        self.current()
    }

    /// Jumps to a position of the play order.
    pub fn skip_to(&mut self, order_index: usize) -> (r: Option<&T>)
        requires
            old(self)@.wf(),
        ensures
            final(self)@.wf(),
            final(self)@ == old(self)@.after_skip_to(order_index),
            opt_val(r) == (if order_index < old(self)@.order.len() {
                Some(old(self)@.entry(order_index as int))
            } else {
                None
            }),
    {
        if order_index < self.order.len() {
            self.stay_on_next = false;
            self.position = Some(order_index);
            self.current()
        } else {
            None
        }
    }

    /// Goes back to the first entry of the play order (repeat-all).
    pub fn restart(&mut self) -> (r: Option<&T>)
        requires
            old(self)@.wf(),
        ensures
            final(self)@.wf(),
            final(self)@ == old(self)@.after_restart(),
            opt_val(r) == (if old(self)@.tracks.len() == 0 {
                None
            } else {
                old(self)@.after_restart().current()
            }),
    {
        if self.tracks.len() == 0 {
            return None;
        }
        self.stay_on_next = false;
        self.position = Some(0);
        self.current()
    }

    /// Empties the queue (shuffle stays as it was).
    pub fn clear(&mut self)
        ensures
            final(self)@ == (QueueView::<T> {
                tracks: Seq::empty(),
                order: Seq::empty(),
                position: None,
                stay_on_next: false,
                ..old(self)@
            }),
            final(self)@.wf(),
    {
        self.tracks.clear();
        self.order.clear();
        self.position = None;
        self.stay_on_next = false;
    }

    /// Number of entries in the play order.
    pub fn len(&self) -> (n: usize)
        ensures
            n == self@.order.len(),
    {
        self.order.len()
    }

    /// The current position in the play order.
    pub fn position(&self) -> (p: Option<usize>)
        ensures
            p == self@.position,
    {
        self.position
    }

    /// Peeks at the entry `next` would play, without moving. With `wrap`, at
    /// the end of the order it names the first entry (repeat-all).
    pub fn peek_next(&self, wrap: bool) -> (r: Option<&T>)
        requires
            self@.wf(),
        ensures
            opt_val(r) == self@.peek_next_result(wrap),
    {
        if self.stay_on_next {
            return self.current();
        }
        match self.position {
            Some(pos) => {
                if pos < self.order.len() && pos + 1 < self.order.len() {
                    let idx = self.order[pos + 1];
                    Some(&self.tracks[idx])
                } else if wrap && self.tracks.len() > 0 {
                    if self.order.len() > 0 {
                        let idx = self.order[0];
                        Some(&self.tracks[idx])
                    } else {
                        None
                    }
                } else {
                    None
                }
            },
            None => None,
        }
    }

    /// Moves the entry at `from` to `to`, keeping the playing entry current.
    pub fn move_in_queue(&mut self, from: usize, to: usize)
        requires
            old(self)@.wf(),
        ensures
            final(self)@.wf(),
            final(self)@ == old(self)@.after_move(from, to),
    {
        if from >= self.order.len() || to >= self.order.len() || from == to {
            return;
        }
        let ghost old_order = self.order@;
        let item = self.order.remove(from);
        self.order.insert(to, item);
        proof {
            let mid = old_order.remove(from as int);
            assert(self.order@ =~= mid.insert(to as int, old_order[from as int]));
            assert forall|k: int| 0 <= k < self.order@.len() implies exists|m: int|
                0 <= m < old_order.len() && #[trigger] self.order@[k] == old_order[m] by {
                if k == to {
                    assert(self.order@[k] == old_order[from as int]);
                } else {
                    let k1 = if k < to { k } else { k - 1 };
                    let m = if k1 < from { k1 } else { k1 + 1 };
                    assert(self.order@[k] == old_order[m]);
                }
            }
            assert forall|i: int, j: int|
                0 <= i < self.order@.len() && 0 <= j < self.order@.len() && i != j implies self.order@[i]
                != self.order@[j] by {
                let i1 = if i == to { -1 } else if i < to { i } else { i - 1 };
                let j1 = if j == to { -1 } else if j < to { j } else { j - 1 };
                let mi = if i == to { from as int } else if i1 < from { i1 } else { i1 + 1 };
                let mj = if j == to { from as int } else if j1 < from { j1 } else { j1 + 1 };
                assert(self.order@[i] == old_order[mi]);
                assert(self.order@[j] == old_order[mj]);
                assert(mi != mj);
            }
            assert forall|k: int| 0 <= k < self.order@.len() implies (#[trigger] self.order@[k]
                as int) < self.tracks@.len() by {
                let m = choose|m: int| 0 <= m < old_order.len() && self.order@[k] == old_order[m];
                assert((old_order[m] as int) < self.tracks@.len());
            }
        }
        if let Some(pos) = self.position {
            if from == pos {
                self.position = Some(to);
            } else if from < pos && to >= pos {
                self.position = Some(pos - 1);
            } else if from > pos && to <= pos {
                self.position = Some(pos + 1);
            }
        }
    }

    /// Removes the entry at a position of the play order (its track stays in
    /// the track list). Removing the playing entry makes the following entry
    /// the one `next` plays; removing the last entry while it plays steps
    /// back to the new last one.
    pub fn remove_at_order_index(&mut self, order_idx: usize)
        requires
            old(self)@.wf(),
        ensures
            final(self)@.wf(),
            final(self)@ == old(self)@.after_remove(order_idx),
    {
        if order_idx >= self.order.len() {
            return;
        }
        let ghost old_order = self.order@;
        self.order.remove(order_idx);
        proof {
            assert forall|k: int| 0 <= k < self.order@.len() implies #[trigger] self.order@[k]
                == old_order[if k < order_idx { k } else { k + 1 }] by {}
            assert forall|i: int, j: int|
                0 <= i < self.order@.len() && 0 <= j < self.order@.len() && i != j implies self.order@[i]
                != self.order@[j] by {
                assert(self.order@[i] == old_order[if i < order_idx { i } else { i + 1 }]);
                assert(self.order@[j] == old_order[if j < order_idx { j } else { j + 1 }]);
            }
            assert forall|k: int| 0 <= k < self.order@.len() implies (#[trigger] self.order@[k]
                as int) < self.tracks@.len() by {
                assert(self.order@[k] == old_order[if k < order_idx { k } else { k + 1 }]);
            }
        }
        if let Some(pos) = self.position {
            if order_idx < pos {
                self.position = Some(pos - 1);
            } else if order_idx == pos {
                if pos >= self.order.len() {
                    self.position = if self.order.len() == 0 {
                        None
                    } else {
                        Some(self.order.len() - 1)
                    };
                } else {
                    self.stay_on_next = true;
                }
            }
        }
    }
}

impl<T> PlayQueue<T> {
    /// Turns shuffle on or off. Turning it on permutes only the upcoming
    /// entries; turning it off puts the remaining entries back in insertion
    /// order (removed entries stay removed) and keeps the playing track.
    pub fn set_shuffle(&mut self, shuffle: bool)
        requires
            old(self)@.wf(),
        ensures
            final(self)@.wf(),
            shuffle == old(self)@.shuffle ==> final(self)@ == old(self)@,
            shuffle != old(self)@.shuffle && shuffle ==> final(self)@.shuffled_from(old(self)@),
            shuffle != old(self)@.shuffle && !shuffle ==> final(self)@.unshuffled_from(old(self)@),
    {
        if self.shuffle == shuffle {
            return;
        }
        self.shuffle = shuffle;
        let ghost old_order = self.order@;
        if self.order.len() == 0 {
            assert(self.order@.subrange(0, 0) =~= self.order@);
            return;
        }
        if shuffle {
            let n = self.order.len();
            let start = match self.position {
                Some(p) => p + 1,
                None => 0,
            };
            if start < self.order.len() {
                shuffle_tail(&mut self.order, start);
                proof {
                    let s0 = old_order.subrange(0, start as int);
                    let s1 = old_order.subrange(start as int, old_order.len() as int);
                    let t0 = self.order@.subrange(0, start as int);
                    let t1 = self.order@.subrange(start as int, self.order@.len() as int);
                    assert(old_order =~= s0 + s1);
                    assert(self.order@ =~= t0 + t1);
                    vstd::seq_lib::lemma_multiset_commutative(s0, s1);
                    vstd::seq_lib::lemma_multiset_commutative(t0, t1);
                    lemma_same_entries_no_duplicates(old_order, self.order@);
                    assert forall|k: int| 0 <= k < self.order@.len() implies (
                    #[trigger] self.order@[k] as int) < self.tracks@.len() by {
                        let x = self.order@[k];
                        assert(self.order@.contains(x));
                        assert(self.order@.to_multiset().count(x) > 0);
                        assert(old_order.to_multiset().count(x) > 0);
                        assert(old_order.contains(x));
                    }
                }
            } else {
                assert(self.order@.subrange(0, self.order@.len() as int) =~= self.order@);
            }
        } else {
            let cur = match self.position {
                Some(p) => if p < self.order.len() {
                    Some(self.order[p])
                } else {
                    None
                },
                None => None,
            };
            sort_indices(&mut self.order);
            proof {
                lemma_same_entries_no_duplicates(old_order, self.order@);
                assert forall|k: int| 0 <= k < self.order@.len() implies (#[trigger] self.order@[k]
                    as int) < self.tracks@.len() by {
                    let x = self.order@[k];
                    assert(self.order@.contains(x));
                    assert(self.order@.to_multiset().count(x) > 0);
                    assert(old_order.to_multiset().count(x) > 0);
                    assert(old_order.contains(x));
                }
                assert forall|i: int, j: int|
                    0 <= i < j < self.order@.len() implies self.order@[i] < self.order@[j] by {
                    assert(self.order@[i] <= self.order@[j]);
                    assert(self.order@[i] != self.order@[j]);
                }
            }
            if let Some(idx) = cur {
                proof {
                    assert(old_order.contains(idx));
                    assert(old_order.to_multiset().count(idx) > 0);
                    assert(self.order@.to_multiset().count(idx) > 0);
                    assert(self.order@.contains(idx));
                }
                let mut k: usize = 0;
                while k < self.order.len() && self.order[k] != idx
                    invariant
                        k <= self.order@.len(),
                        forall|j: int| 0 <= j < k ==> self.order@[j] != idx,
                    decreases self.order@.len() - k,
                {
                    k = k + 1;
                }
                self.position = if k < self.order.len() {
                    Some(k)
                } else {
                    None
                };
            }
        }
    }
}

impl<T: Clone> PlayQueue<T> {
    /// All entries in play order (copies of the tracks).
    pub fn get_ordered_tracks(&self) -> (r: Vec<T>)
        requires
            self@.wf(),
        ensures
            r@.len() == self@.order.len(),
            forall|k: int| 0 <= k < r@.len() ==> cloned(self@.entry(k), #[trigger] r@[k]),
    {
        let mut r: Vec<T> = Vec::new();
        let mut k: usize = 0;
        while k < self.order.len()
            invariant
                self@.wf(),
                k <= self@.order.len(),
                r@.len() == k,
                forall|m: int| 0 <= m < k ==> cloned(self@.entry(m), #[trigger] r@[m]),
            decreases self@.order.len() - k,
        {
            let idx = self.order[k];
            let t = self.tracks[idx].clone();
            r.push(t);
            k = k + 1;
        }
        r
    }
}

/// "Previous" steps back one entry and "next" steps forward one, so each
/// undoes the other in the middle of the queue: from entry `p`, previous
/// plays entry `p - 1` and next then returns to entry `p`; next plays
/// entry `p + 1` and previous then returns to entry `p`.
pub proof fn law_prev_and_next_undo_each_other<T>(q: QueueView<T>, p: usize)
    requires
        q.wf(),
        q.tracks.len() > 0,
        q.position == Some(p),
        p < q.order.len(),
        q.order.len() <= usize::MAX,
    ensures
        p > 0 ==> q.prev_result() == Some(q.entry(p - 1)),
        p > 0 ==> q.after_prev().after_next().position == Some(p),
        !q.stay_on_next && p + 1 < q.order.len() ==> q.next_result() == Some(q.entry(p + 1)),
        !q.stay_on_next && p + 1 < q.order.len() ==> q.after_next().after_prev().position == Some(p),
        p == 0 ==> q.prev_result() is None,
{
}

/// Removing the playing entry while later entries remain does not skip a
/// track: the next advance plays the entry that followed it, and the one
/// after that comes next.
pub proof fn law_removing_playing_entry_plays_following<T>(q: QueueView<T>, p: usize)
    requires
        q.wf(),
        q.tracks.len() > 0,
        q.position == Some(p),
        p + 1 < q.order.len(),
    ensures
        q.after_remove(p).next_result() == Some(q.entry(p + 1)),
        q.after_remove(p).after_next().current() == Some(q.entry(p + 1)),
        q.after_remove(p).after_next().next_result() == (if p + 2 < q.order.len() {
            Some(q.entry(p + 2))
        } else {
            None
        }),
{
    let r = q.after_remove(p);
    assert(r.order[p as int] == q.order[p + 1]);
    if p + 2 < q.order.len() {
        assert(r.order[p + 1] == q.order[p + 2]);
    }
}

/// Removing an entry before the playing one keeps the same track playing.
pub proof fn law_removing_earlier_entry_keeps_current<T>(q: QueueView<T>, k: usize)
    requires
        q.wf(),
        q.position matches Some(p) && p < q.order.len() && k < p,
    ensures
        q.after_remove(k).current() == q.current(),
{
    let p = q.position->0;
    assert(q.after_remove(k).order[p - 1] == q.order[p as int]);
}

/// Removing the last entry while it plays steps back to the new last entry,
/// and there is nothing after it.
pub proof fn law_removing_playing_last_entry_steps_back<T>(q: QueueView<T>, p: usize)
    requires
        q.wf(),
        q.tracks.len() > 0,
        !q.stay_on_next,
        p >= 1,
        p + 1 == q.order.len(),
        q.position == Some(p),
    ensures
        q.after_remove(p).current() == Some(q.entry(p - 1)),
        q.after_remove(p).next_result() is None,
{
    let r = q.after_remove(p);
    assert(r.order[p - 1] == q.order[p - 1]);
}

/// An explicit jump cancels the pending stay-in-place after a removal: the
/// following advance moves on from the chosen entry.
pub proof fn law_skip_clears_stay<T>(q: QueueView<T>, k: usize)
    requires
        q.wf(),
        q.tracks.len() > 0,
        k < q.order.len(),
    ensures
        !q.after_skip_to(k).stay_on_next,
        q.after_skip_to(k).current() == Some(q.entry(k as int)),
        q.after_skip_to(k).next_result() == (if k + 1 < q.order.len() {
            Some(q.entry(k + 1))
        } else {
            None
        }),
{
}

/// Turning shuffle on leaves the played entries and the playing one where
/// they are, keeps the same entries, and keeps the current track.
pub proof fn law_shuffle_keeps_played_entries<T>(old: QueueView<T>, new: QueueView<T>)
    requires
        old.wf(),
        new.shuffled_from(old),
        old.position matches Some(p) && p < old.order.len(),
    ensures
        forall|i: int| 0 <= i <= old.position->0 ==> new.order[i] == old.order[i],
        new.order.to_multiset() == old.order.to_multiset(),
        new.current() == old.current(),
{
    let p = old.position->0;
    let start = p + 1;
    assert forall|i: int| 0 <= i <= p implies new.order[i] == old.order[i] by {
        assert(new.order.subrange(0, start as int)[i] == old.order.subrange(0, start as int)[i]);
    }
    lemma_shuffled_same_entries(old, new);
}

proof fn lemma_shuffled_same_entries<T>(old: QueueView<T>, new: QueueView<T>)
    requires
        new.shuffled_from(old),
    ensures
        new.order.to_multiset() == old.order.to_multiset(),
{
    let start = match old.position {
        Some(p) => p + 1,
        None => 0,
    };
    if start <= old.order.len() {
        let s0 = old.order.subrange(0, start as int);
        let s1 = old.order.subrange(start as int, old.order.len() as int);
        let t0 = new.order.subrange(0, start as int);
        let t1 = new.order.subrange(start as int, new.order.len() as int);
        assert(old.order =~= s0 + s1);
        assert(new.order =~= t0 + t1);
        vstd::seq_lib::lemma_multiset_commutative(s0, s1);
        vstd::seq_lib::lemma_multiset_commutative(t0, t1);
    }
}

/// Turning shuffle on and then off again gives back the insertion order
/// the queue had, with the same track playing.
pub proof fn law_unshuffle_restores_order<T>(
    q0: QueueView<T>,
    q1: QueueView<T>,
    q2: QueueView<T>,
)
    requires
        q0.wf(),
        strictly_increasing(q0.order),
        q1.shuffled_from(q0),
        q2.unshuffled_from(q1),
    ensures
        q2.order == q0.order,
        q2.current() == q0.current(),
{
    lemma_shuffled_same_entries(q0, q1);
    assert(q2.order.to_multiset() == q0.order.to_multiset());
    assert forall|x: usize| q2.order.contains(x) <==> q0.order.contains(x) by {
        assert(q2.order.contains(x) <==> q2.order.to_multiset().count(x) > 0);
        assert(q0.order.contains(x) <==> q0.order.to_multiset().count(x) > 0);
    }
    assert(q2.order.len() == q2.order.to_multiset().len());
    assert(q0.order.len() == q0.order.to_multiset().len());
    lemma_strictly_increasing_unique(q2.order, q0.order);
    if let Some(p) = q0.position {
        if p < q0.order.len() {
            assert(q1.order.subrange(0, p + 1)[p as int] == q0.order.subrange(0, p + 1)[p as int]);
            let q = q2.position->0;
            assert(q2.order[q as int] == q0.order[p as int]);
            assert(q0.order.no_duplicates());
            assert(q == p);
        }
    }
}

/// Turning shuffle off never brings back removed entries: the queue keeps
/// its length.
pub proof fn law_unshuffle_keeps_length<T>(old: QueueView<T>, new: QueueView<T>)
    requires
        new.unshuffled_from(old),
    ensures
        new.order.len() == old.order.len(),
{
    assert(new.order.len() == new.order.to_multiset().len());
    assert(old.order.len() == old.order.to_multiset().len());
}

/// Removing an entry shortens the queue by one.
pub proof fn law_remove_shortens_queue<T>(q: QueueView<T>, k: usize)
    requires
        q.wf(),
        k < q.order.len(),
    ensures
        q.after_remove(k).order.len() == q.order.len() - 1,
{
}

/// Moving an entry keeps the playing track current.
pub proof fn law_move_keeps_current<T>(q: QueueView<T>, from: usize, to: usize)
    requires
        q.wf(),
        q.position matches Some(p) && p < q.order.len(),
    ensures
        q.after_move(from, to).current() == q.current(),
{
    let p = q.position->0;
    if !(from >= q.order.len() || to >= q.order.len() || from == to) {
        let mid = q.order.remove(from as int);
        let r = q.after_move(from, to);
        let np = r.position->0;
        if from == p {
            assert(r.order[to as int] == q.order[from as int]);
        } else if from < p && to >= p {
            assert(mid[p - 1] == q.order[p as int]);
            assert(r.order[p - 1] == mid[p - 1]);
        } else if from > p && to <= p {
            assert(mid[p as int] == q.order[p as int]);
            assert(r.order[p + 1] == mid[p as int]);
        } else if from < p {
            assert(mid[p - 1] == q.order[p as int]);
            assert(r.order[p as int] == mid[p - 1]);
        } else {
            assert(mid[p as int] == q.order[p as int]);
            assert(r.order[p as int] == mid[p as int]);
        }
    }
}

} // verus!
