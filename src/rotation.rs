//! The map rotation cursor: hands out map names one at a time, and reshuffles
//! the list once a full cycle has been shown.
use vstd::prelude::*;

verus! {

broadcast use {vstd::seq_lib::group_to_multiset_ensures, vstd::multiset::group_multiset_properties};

/// Why a rotation cursor cannot be built.
#[derive(Debug, Clone, Copy, PartialEq, Eq, Structural)]
pub enum ConfigError {
    /// The map list has no names.
    EmptyMapList,
}

/// The names that a list of strings holds.
pub open spec fn views(s: Seq<String>) -> Seq<Seq<char>> {
    s.map_values(|x: String| x@)
}

/// The index that step `i` of a shuffle of `n` items swaps with: `i` plus
/// the `i`-th random number modulo the `n - i` items not yet placed, or `i`
/// itself when there is no `i`-th random number.
pub open spec fn swap_target(n: int, draws: Seq<u64>, i: int) -> int {
    if i < draws.len() {
        i + (draws[i] as int) % (n - i)
    } else {
        i
    }
}

/// Step `i` of a shuffle: the items at `i` and at its swap target trade places.
pub open spec fn swap_step<A>(s: Seq<A>, draws: Seq<u64>, i: int) -> Seq<A> {
    let j = swap_target(s.len() as int, draws, i);
    s.update(i, s[j]).update(j, s[i])
}

/// The first `k` steps of a shuffle of `s` driven by `draws`.
pub open spec fn shuffle_steps<A>(s: Seq<A>, draws: Seq<u64>, k: nat) -> Seq<A>
    decreases k,
{
    if k == 0 {
        s
    } else {
        swap_step(shuffle_steps(s, draws, (k - 1) as nat), draws, k - 1)
    }
}

/// The shuffle of `s` driven by `draws` (Fisher-Yates: one step per item).
pub open spec fn shuffled<A>(s: Seq<A>, draws: Seq<u64>) -> Seq<A> {
    shuffle_steps(s, draws, s.len())
}

/// A shuffle only reorders: the length and the multiset of items are kept.
pub proof fn lemma_shuffle_steps_permutes<A>(s: Seq<A>, draws: Seq<u64>, k: nat)
    requires
        k <= s.len(),
    ensures
        shuffle_steps(s, draws, k).len() == s.len(),
        shuffle_steps(s, draws, k).to_multiset() == s.to_multiset(),
    decreases k,
{
    if k > 0 {
        lemma_shuffle_steps_permutes(s, draws, (k - 1) as nat);
        let p = shuffle_steps(s, draws, (k - 1) as nat);
        let i = k - 1;
        let j = swap_target(p.len() as int, draws, i);
        assert(i <= j < p.len());
        let p1 = p.update(i, p[j]);
        vstd::seq_lib::to_multiset_update(p, i, p[j]);
        vstd::seq_lib::to_multiset_update(p1, j, p[i]);
        assert(p1[j] == p[j]);
        assert(p1.update(j, p[i]).to_multiset() =~= p.to_multiset());
    }
}

/// The mathematical value of a `RotationCursor`.
pub struct CursorView {
    pub maps: Seq<Seq<char>>,
    pub position: nat,
}

impl CursorView {
    /// The map list is not empty.
    pub open spec fn wf(self) -> bool {
        self.maps.len() > 0
    }

    /// A full cycle has been shown: a reshuffle is due before the next read.
    pub open spec fn exhausted(self) -> bool {
        self.position >= self.maps.len()
    }

    /// The name at `position` modulo the length of the list.
    pub open spec fn shown(self) -> Seq<char> {
        self.maps[(self.position as int) % (self.maps.len() as int)]
    }

    /// The cursor after `k` advances.
    pub open spec fn advanced_by(self, k: nat) -> CursorView {
        CursorView { maps: self.maps, position: self.position + k }
    }

    /// The names shown at the first `len` positions from this one, in order.
    pub open spec fn cycle_names(self) -> Seq<Seq<char>> {
        Seq::new(self.maps.len(), |k: int| self.advanced_by(k as nat).shown())
    }

    /// What a read does: when a cycle is exhausted the list is shuffled with
    /// `draws` and the position reset to 0, otherwise nothing changes; the
    /// name returned is the one shown afterwards.
    pub open spec fn current_post(self, draws: Seq<u64>, after: CursorView, r: Seq<char>) -> bool {
        &&& if self.exhausted() {
            after == CursorView { maps: shuffled(self.maps, draws), position: 0 }
        } else {
            after == self
        }
        &&& r == after.shown()
    }
}

/// The rotation over a list of map names, with its position counter.
#[derive(Debug)]
pub struct RotationCursor {
    maps: Vec<String>,
    position: usize,
}

impl View for RotationCursor {
    type V = CursorView;

    closed spec fn view(&self) -> CursorView {
        CursorView { maps: views(self.maps@), position: self.position as nat }
    }
}

/// Shuffles `maps` in place with the random numbers `draws`: step `i` swaps
/// the item at `i` with the one at `i + draws[i] % (len - i)`.
fn shuffle(maps: &mut Vec<String>, draws: &Vec<u64>)
    ensures
        views(final(maps)@) == shuffled(views(old(maps)@), draws@),
{
    let ghost orig = views(maps@);
    let n = maps.len();
    let mut i: usize = 0;
    while i < n
        invariant
            n == maps@.len(),
            n == orig.len(),
            i <= n,
            views(maps@) == shuffle_steps(orig, draws@, i as nat),
        decreases n - i,
    {
        let j: usize = if i < draws.len() {
            i + (draws[i] % ((n - i) as u64)) as usize
        } else {
            i
        };
        proof {
            lemma_shuffle_steps_permutes(orig, draws@, i as nat);
            assert(j == swap_target(n as int, draws@, i as int));
        }
        let ghost prev = maps@;
        let a = maps[i].clone();
        let b = maps[j].clone();
        maps.set(i, b);
        maps.set(j, a);
        proof {
            let pv = views(prev);
            assert(views(maps@) =~= pv.update(i as int, pv[j as int]).update(j as int, pv[i as int]));
        }
        i = i + 1;
    }
}

impl RotationCursor {
    /// A fresh cursor over `maps`, at position 0. Fails on an empty list.
    pub fn new(maps: Vec<String>) -> (r: Result<RotationCursor, ConfigError>)
        ensures
            match r {
                Ok(c) => maps@.len() > 0 && c@ == CursorView { maps: views(maps@), position: 0 },
                Err(e) => maps@.len() == 0 && e == ConfigError::EmptyMapList,
            },
    {
        if maps.len() == 0 {
            Err(ConfigError::EmptyMapList)
        } else {
            Ok(RotationCursor { maps, position: 0 })
        }
    }

    /// The position counter.
    pub fn position(&self) -> (r: usize)
        ensures
            r == self@.position,
    {
        self.position
    }

    /// The number of map names.
    pub fn len(&self) -> (r: usize)
        ensures
            r == self@.maps.len(),
    {
        self.maps.len()
    }

    /// The map list in its present order.
    pub fn maps(&self) -> (r: &Vec<String>)
        ensures
            views(r@) == self@.maps,
    {
        &self.maps
    }

    /// The map to show. When a full cycle has been shown, first shuffles the
    /// list with the random numbers `draws` and resets the position to 0.
    pub fn current(&mut self, draws: &Vec<u64>) -> (r: String)
        requires
            old(self)@.wf(),
        ensures
            final(self)@.wf(),
            old(self)@.current_post(draws@, final(self)@, r@),
            !old(self)@.exhausted() ==> r@ == old(self)@.maps[old(self)@.position as int],
            old(self)@.exhausted() ==> r@ == final(self)@.maps[0],
    {
        if self.position >= self.maps.len() {
            proof {
                lemma_shuffle_steps_permutes(self@.maps, draws@, self@.maps.len());
            }
            shuffle(&mut self.maps, draws);
            self.position = 0;
        }
        let n = self.maps.len();
        proof {
            vstd::arithmetic::div_mod::lemma_small_mod(self.position as nat, n as nat);
        }
        self.maps[self.position % n].clone()
    }

    /// Moves to the next map: the position grows by one.
    pub fn advance(&mut self)
        requires
            old(self)@.wf(),
            old(self)@.position < usize::MAX,
        ensures
            final(self)@ == old(self)@.advanced_by(1),
    {
        self.position = self.position + 1;
    }
}

/// Reading twice with no advance in between returns the same name, and the
/// second read leaves the cursor as the first one left it.
pub proof fn lemma_current_is_idempotent(
    v: CursorView,
    first_draws: Seq<u64>,
    second_draws: Seq<u64>,
    after_first: CursorView,
    after_second: CursorView,
    first: Seq<char>,
    second: Seq<char>,
)
    requires
        v.wf(),
        v.current_post(first_draws, after_first, first),
        after_first.current_post(second_draws, after_second, second),
    ensures
        after_second == after_first,
        second == first,
{
    if v.exhausted() {
        lemma_shuffle_steps_permutes(v.maps, first_draws, v.maps.len());
    }
}

/// Over a list of distinct names, a fresh cursor read and advanced once per
/// name shows every name exactly once, in list order, and never reshuffles
/// on the way; then a reshuffle is due, and the next read performs it: the
/// position is back to 0 and the list holds the same names.
pub proof fn lemma_full_cycle_shows_each_name_once(v: CursorView)
    requires
        v.wf(),
        v.position == 0,
        v.maps.no_duplicates(),
    ensures
        forall|k: nat, draws: Seq<u64>, after: CursorView, r: Seq<char>|
            k < v.maps.len() && #[trigger] v.advanced_by(k).current_post(draws, after, r)
                ==> after == v.advanced_by(k) && r == v.maps[k as int],
        v.cycle_names() == v.maps,
        v.cycle_names().no_duplicates(),
        forall|name: Seq<char>| v.maps.contains(name) <==> #[trigger] v.cycle_names().contains(name),
        v.advanced_by(v.maps.len()).exhausted(),
        forall|draws: Seq<u64>, after: CursorView, r: Seq<char>|
            #[trigger] v.advanced_by(v.maps.len()).current_post(draws, after, r) ==> {
                &&& after.position == 0
                &&& !after.exhausted()
                &&& after.maps.to_multiset() == v.maps.to_multiset()
            },
{
    let n = v.maps.len();
    assert forall|k: nat| k < n implies (#[trigger] v.advanced_by(k)).shown() == v.maps[k as int] by {
        assert((k as int) % (n as int) == k as int) by (nonlinear_arith)
            requires k < n;
    }
    assert(v.cycle_names() =~= v.maps);
    assert forall|draws: Seq<u64>, after: CursorView, r: Seq<char>|
        #[trigger] v.advanced_by(n).current_post(draws, after, r) implies {
            &&& after.position == 0
            &&& !after.exhausted()
            &&& after.maps.to_multiset() == v.maps.to_multiset()
        } by {
        lemma_shuffle_steps_permutes(v.maps, draws, n);
    }
}

} // verus!
