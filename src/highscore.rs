//! The table of the nine best distinct scores.

use vstd::prelude::*;

verus! {

/// Number of slots in the table.
pub const SLOTS: usize = 9;

/// A table of nine scores in non-increasing order, where every nonzero
/// score appears once; zeros are empty slots and trail the scores.
pub open spec fn valid_table(s: Seq<u32>) -> bool {
    &&& s.len() == SLOTS
    &&& forall|i: int, j: int|
        0 <= i < j < SLOTS ==> s[i] >= s[j] && (s[j] != 0 ==> s[i] > s[j])
}

/// How many leading entries of `s` are greater than `v`.
pub open spec fn insert_pos(s: Seq<u32>, v: u32) -> int
    decreases s.len(),
{
    if s.len() > 0 && s[0] > v {
        1 + insert_pos(s.drop_first(), v)
    } else {
        0
    }
}

/// The table `s` after `v` is offered to it: a zero, a score already
/// present or one below every slot leaves it as it is; any other score
/// takes its place in order and the last slot falls off.
pub open spec fn with_score(s: Seq<u32>, v: u32) -> Seq<u32> {
    let k = insert_pos(s, v);
    if v == 0 || s.contains(v) || k >= SLOTS {
        s
    } else {
        s.take(k).push(v) + s.subrange(k, SLOTS - 1)
    }
}

proof fn lemma_insert_pos(s: Seq<u32>, v: u32, i: int)
    requires
        0 <= i <= s.len(),
        forall|j: int| 0 <= j < i ==> s[j] > v,
        i < s.len() ==> s[i] <= v,
    ensures
        insert_pos(s, v) == i,
    decreases s.len(),
{
    if i > 0 {
        lemma_insert_pos(s.drop_first(), v, i - 1);
    }
}

proof fn lemma_insert_pos_facts(s: Seq<u32>, v: u32)
    ensures
        0 <= insert_pos(s, v) <= s.len(),
        forall|j: int| 0 <= j < insert_pos(s, v) ==> s[j] > v,
        insert_pos(s, v) < s.len() ==> s[insert_pos(s, v)] <= v,
    decreases s.len(),
{
    if s.len() > 0 && s[0] > v {
        lemma_insert_pos_facts(s.drop_first(), v);
        assert forall|j: int| 0 <= j < insert_pos(s, v) implies s[j] > v by {
            if j > 0 {
                assert(s[j] == s.drop_first()[j - 1]);
            }
        }
    }
}

/// Offering a score that the table already holds changes nothing.
pub proof fn lemma_present_score_is_kept(s: Seq<u32>, v: u32)
    requires
        s.contains(v),
    ensures
        with_score(s, v) == s,
{
}

/// Offering any score to a valid table leaves a valid table.
pub proof fn lemma_offer_keeps_valid(s: Seq<u32>, v: u32)
    requires
        valid_table(s),
    ensures
        valid_table(with_score(s, v)),
{
    let k = insert_pos(s, v);
    if !(v == 0 || s.contains(v) || k >= SLOTS) {
        lemma_insert_pos_facts(s, v);
        let r = with_score(s, v);
        assert(r.len() == SLOTS);
        assert forall|a: int, b: int| 0 <= a < b < SLOTS implies r[a] >= r[b] && (r[b] != 0
            ==> r[a] > r[b]) by {
            if b > k && k < SLOTS && s[k] == v {
                assert(s.contains(v));
            }
            if a == k && b > k {
                assert(s[b - 1] != v) by {
                    if s[b - 1] == v {
                        assert(s.contains(v));
                    }
                }
            }
        }
    }
}

/// The best scores, best first.
pub struct Highscore {
    scores: [u32; 9],
}

impl View for Highscore {
    type V = Seq<u32>;

    closed spec fn view(&self) -> Seq<u32> {
        self.scores@
    }
}

impl Highscore {
    /// The table is in order and without repeated scores.
    pub open spec fn wf(&self) -> bool {
        valid_table(self@)
    }

    /// An empty table: nine zeros.
    pub fn new() -> (r: Highscore)
        ensures
            r.wf(),
            r@ == Seq::new(SLOTS as nat, |i: int| 0u32),
    {
        let r = Highscore { scores: [0u32; 9] };
        assert(r@ =~= Seq::new(SLOTS as nat, |i: int| 0u32));
        r
    }

    /// Whether some slot holds `score`; with an empty slot left, zero is
    /// held.
    pub fn score_exist(&self, score: u32) -> (r: bool)
        ensures
            self@.len() == SLOTS,
            r == self@.contains(score),
    {
        let mut i: usize = 0;
        while i < SLOTS
            invariant
                self@.len() == SLOTS,
                i <= SLOTS,
                forall|j: int| 0 <= j < i ==> self@[j] != score,
            decreases SLOTS - i,
        {
            if self.scores[i] == score {
                return true;
            }
            i = i + 1;
        }
        false
    }

    /// Offers `score` to the table. Walking the slots in order with the
    /// offered score in hand, a greater score in hand is swapped with the
    /// slot, an equal one stops the walk, and what is in hand after the
    /// last slot is dropped.
    pub fn add_score(&mut self, score: u32)
        requires
            old(self).wf(),
        ensures
            final(self).wf(),
            final(self)@ == with_score(old(self)@, score),
    {
        let ghost s = self@;
        let ghost mut k: int = SLOTS as int;
        let mut carry = score;
        let mut i: usize = 0;
        while i < SLOTS
            invariant
                s == old(self)@,
                valid_table(s),
                self@.len() == SLOTS,
                0 <= i <= SLOTS,
                0 <= k <= SLOTS,
                k == SLOTS ==> carry == score && self@ == s && forall|j: int|
                    0 <= j < i ==> s[j] > score,
                k < SLOTS ==> {
                    &&& k < i
                    &&& forall|j: int| 0 <= j < k ==> s[j] > score
                    &&& s[k] < score
                    &&& carry == s[i - 1]
                    &&& self@ == s.take(k).push(score) + s.subrange(k, i - 1) + s.subrange(
                        i as int,
                        SLOTS as int,
                    )
                },
            decreases SLOTS - i,
        {
            let slot = self.scores[i];
            if carry > slot {
                self.scores[i] = carry;
                carry = slot;
                proof {
                    if k == SLOTS {
                        k = i as int;
                    }
                    assert(self@ =~= s.take(k).push(score) + s.subrange(k, i as int) + s.subrange(
                        i + 1,
                        SLOTS as int,
                    ));
                }
            } else if carry == slot {
                proof {
                    if k == SLOTS {
                        assert(s.contains(score));
                    } else {
                        assert(s[i as int] == 0);
                        assert forall|j: int| i - 1 <= j < SLOTS implies s[j] == 0 by {
                            if j > i {
                                assert(s[i as int] >= s[j]);
                            }
                        }
                        lemma_insert_pos(s, score, k);
                        assert(!s.contains(score)) by {
                            if s.contains(score) {
                                let j = choose|j: int| 0 <= j < s.len() && s[j] == score;
                                if j > k {
                                    assert(s[k] >= s[j]);
                                }
                            }
                        }
                        assert(self@ =~= with_score(s, score));
                    }
                }
                return;
            }
            i = i + 1;
        }
        proof {
            if k == SLOTS {
                lemma_insert_pos(s, score, SLOTS as int);
            } else {
                lemma_insert_pos(s, score, k);
                assert(!s.contains(score)) by {
                    if s.contains(score) {
                        let j = choose|j: int| 0 <= j < s.len() && s[j] == score;
                        if j > k {
                            assert(s[k] >= s[j]);
                        }
                    }
                }
                assert(self@ =~= with_score(s, score));
            }
            lemma_offer_keeps_valid(s, score);
        }
    }

    /// The nine slots, best first.
    pub fn scores(&self) -> (r: [u32; 9])
        ensures
            self@.len() == SLOTS,
            r@ == self@,
    {
        self.scores
    }

    /// The slots as a vector, best first.
    pub fn to_vec(&self) -> (r: Vec<u32>)
        ensures
            self@.len() == SLOTS,
            r@ == self@,
    {
        let mut r: Vec<u32> = Vec::new();
        let mut i: usize = 0;
        while i < SLOTS
            invariant
                self@.len() == SLOTS,
                i <= SLOTS,
                r@ == self@.take(i as int),
            decreases SLOTS - i,
        {
            r.push(self.scores[i]);
            i = i + 1;
            assert(r@ =~= self@.take(i as int));
        }
        assert(self@.take(9) =~= self@);
        r
    }

    /// A table with the given slots, when they form a valid table.
    pub fn from_scores(v: &Vec<u32>) -> (r: Option<Highscore>)
        ensures
            r is Some <==> valid_table(v@),
            r matches Some(t) ==> t@ == v@,
    {
        if v.len() != SLOTS {
            return None;
        }
        let mut t = Highscore::new();
        let mut i: usize = 0;
        while i < SLOTS
            invariant
                v@.len() == SLOTS,
                t@.len() == SLOTS,
                i <= SLOTS,
                t@.take(i as int) == v@.take(i as int),
                forall|a: int, b: int|
                    0 <= a < b < i ==> v@[a] >= v@[b] && (v@[b] != 0 ==> v@[a] > v@[b]),
            decreases SLOTS - i,
        {
            let x = v[i];
            let mut j: usize = 0;
            while j < i
                invariant
                    v@.len() == SLOTS,
                    t@.len() == SLOTS,
                    j <= i < SLOTS,
                    x == v@[i as int],
                    t@.take(i as int) == v@.take(i as int),
                    forall|a: int| 0 <= a < j ==> v@[a] >= x && (x != 0 ==> v@[a] > x),
                decreases i - j,
            {
                assert(t@[j as int] == t@.take(i as int)[j as int]);
                let y = t.scores[j];
                if y < x || (x != 0 && y == x) {
                    return None;
                }
                j = j + 1;
            }
            t.scores[i] = x;
            i = i + 1;
            assert(t@.take(i as int) =~= v@.take(i as int));
        }
        assert(t@ =~= t@.take(9));
        assert(v@ =~= v@.take(9));
        Some(t)
    }
}

} // verus!
