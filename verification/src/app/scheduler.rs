use vstd::prelude::*;
use crate::text::chars::chars_of;
use crate::text::order::{
    chars_less, chars_less_exec, lemma_chars_less_irreflexive, lemma_chars_less_total,
    lemma_chars_less_transitive,
};

verus! {

/// A freeze that waits until `due_at_ms`.
#[derive(Debug, Clone, PartialEq, Eq)]
pub struct PendingFreeze {
    pub package_name: String,
    pub uid: u32,
    pub due_at_ms: u128,
}

/// The identity a pending freeze is kept under: package name and uid.
pub open spec fn freeze_key(p: PendingFreeze) -> (Seq<char>, u32) {
    (p.package_name@, p.uid)
}

/// The order of identities: by package name, then by uid.
pub open spec fn key_less(a: (Seq<char>, u32), b: (Seq<char>, u32)) -> bool {
    chars_less(a.0, b.0) || (a.0 == b.0 && a.1 < b.1)
}

/// No identity is below itself.
pub proof fn lemma_key_less_irreflexive(a: (Seq<char>, u32))
    ensures
        !key_less(a, a),
{
    lemma_chars_less_irreflexive(a.0);
}

/// The order of identities is transitive.
pub proof fn lemma_key_less_transitive(a: (Seq<char>, u32), b: (Seq<char>, u32), c: (Seq<char>, u32))
    requires
        key_less(a, b),
        key_less(b, c),
    ensures
        key_less(a, c),
{
    if chars_less(a.0, b.0) && chars_less(b.0, c.0) {
        lemma_chars_less_transitive(a.0, b.0, c.0);
    }
}

/// Two different identities are ordered one way or the other.
pub proof fn lemma_key_less_total(a: (Seq<char>, u32), b: (Seq<char>, u32))
    requires
        a != b,
    ensures
        key_less(a, b) || key_less(b, a),
{
    if a.0 != b.0 {
        lemma_chars_less_total(a.0, b.0);
    }
}

/// Whether the freezes are in strictly increasing identity order.
pub open spec fn sorted_by_key(s: Seq<PendingFreeze>) -> bool {
    forall|i: int, j: int| 0 <= i < j < s.len() ==> key_less(freeze_key(s[i]), freeze_key(s[j]))
}

/// The due time of each identity among the freezes.
pub open spec fn pending_view(s: Seq<PendingFreeze>) -> Map<(Seq<char>, u32), u128> {
    Map::new(
        |k: (Seq<char>, u32)| exists|i: int| 0 <= i < s.len() && freeze_key(s[i]) == k,
        |k: (Seq<char>, u32)|
            s[choose|i: int| 0 <= i < s.len() && freeze_key(s[i]) == k].due_at_ms,
    )
}

proof fn lemma_sorted_distinct(s: Seq<PendingFreeze>)
    requires
        sorted_by_key(s),
    ensures
        forall|i: int, j: int|
            0 <= i < s.len() && 0 <= j < s.len() && i != j ==> freeze_key(s[i]) != freeze_key(
                s[j],
            ),
{
    assert forall|i: int, j: int|
        0 <= i < s.len() && 0 <= j < s.len() && i != j implies freeze_key(s[i]) != freeze_key(
        s[j],
    ) by {
        if i < j {
            lemma_key_less_irreflexive(freeze_key(s[i]));
        } else {
            lemma_key_less_irreflexive(freeze_key(s[j]));
        }
    }
}

proof fn lemma_view_at(s: Seq<PendingFreeze>, i: int)
    requires
        sorted_by_key(s),
        0 <= i < s.len(),
    ensures
        pending_view(s).contains_key(freeze_key(s[i])),
        pending_view(s)[freeze_key(s[i])] == s[i].due_at_ms,
{
    let k = freeze_key(s[i]);
    assert(pending_view(s).dom().contains(k));
    lemma_sorted_distinct(s);
}

proof fn lemma_view_insert(s: Seq<PendingFreeze>, i: int, e: PendingFreeze)
    requires
        0 <= i <= s.len(),
        sorted_by_key(s.insert(i, e)),
    ensures
        sorted_by_key(s),
        pending_view(s.insert(i, e)) == pending_view(s).insert(freeze_key(e), e.due_at_ms),
{
    let t = s.insert(i, e);
    assert forall|a: int, b: int| 0 <= a < b < s.len() implies key_less(
        freeze_key(s[a]),
        freeze_key(s[b]),
    ) by {
        let ta = if a < i { a } else { a + 1 };
        let tb = if b < i { b } else { b + 1 };
        assert(t[ta] == s[a]);
        assert(t[tb] == s[b]);
    }
    lemma_sorted_distinct(t);
    let tv = pending_view(t);
    let sv = pending_view(s).insert(freeze_key(e), e.due_at_ms);
    assert forall|x: (Seq<char>, u32)| #[trigger] tv.contains_key(x) implies sv.contains_key(x)
        && tv[x] == sv[x] by {
        let j = choose|j: int| 0 <= j < t.len() && freeze_key(t[j]) == x;
        lemma_view_at(t, j);
        if j < i {
            assert(t[j] == s[j]);
            assert(freeze_key(t[j]) != freeze_key(t[i]));
            lemma_view_at(s, j);
        } else if j > i {
            assert(t[j] == s[j - 1]);
            assert(freeze_key(t[j]) != freeze_key(t[i]));
            lemma_view_at(s, j - 1);
        }
    }
    assert forall|x: (Seq<char>, u32)| #[trigger] sv.contains_key(x) implies tv.contains_key(x) by {
        if x == freeze_key(e) {
            assert(freeze_key(t[i]) == x);
        } else {
            let j = choose|j: int| 0 <= j < s.len() && freeze_key(s[j]) == x;
            if j < i {
                assert(t[j] == s[j]);
            } else {
                assert(t[j + 1] == s[j]);
            }
        }
    }
    assert(tv =~= sv);
}

proof fn lemma_view_update(s: Seq<PendingFreeze>, i: int, e: PendingFreeze)
    requires
        sorted_by_key(s),
        0 <= i < s.len(),
        freeze_key(s[i]) == freeze_key(e),
    ensures
        sorted_by_key(s.update(i, e)),
        pending_view(s.update(i, e)) == pending_view(s).insert(freeze_key(e), e.due_at_ms),
{
    let t = s.update(i, e);
    assert forall|a: int, b: int| 0 <= a < b < t.len() implies key_less(
        freeze_key(t[a]),
        freeze_key(t[b]),
    ) by {
        assert(freeze_key(t[a]) == freeze_key(s[a]));
        assert(freeze_key(t[b]) == freeze_key(s[b]));
    }
    lemma_sorted_distinct(s);
    let tv = pending_view(t);
    let sv = pending_view(s).insert(freeze_key(e), e.due_at_ms);
    assert forall|x: (Seq<char>, u32)| #[trigger] tv.contains_key(x) implies sv.contains_key(x)
        && tv[x] == sv[x] by {
        let j = choose|j: int| 0 <= j < t.len() && freeze_key(t[j]) == x;
        lemma_view_at(t, j);
        if j != i {
            assert(freeze_key(s[j]) != freeze_key(s[i]));
            lemma_view_at(s, j);
        }
    }
    assert forall|x: (Seq<char>, u32)| #[trigger] sv.contains_key(x) implies tv.contains_key(x) by {
        if x == freeze_key(e) {
            assert(freeze_key(t[i]) == x);
        } else {
            let j = choose|j: int| 0 <= j < s.len() && freeze_key(s[j]) == x;
            assert(freeze_key(t[j]) == x);
        }
    }
    assert(tv =~= sv);
}

proof fn lemma_view_remove(s: Seq<PendingFreeze>, i: int)
    requires
        sorted_by_key(s),
        0 <= i < s.len(),
    ensures
        sorted_by_key(s.remove(i)),
        pending_view(s.remove(i)) == pending_view(s).remove(freeze_key(s[i])),
{
    let t = s.remove(i);
    assert forall|a: int, b: int| 0 <= a < b < t.len() implies key_less(
        freeze_key(t[a]),
        freeze_key(t[b]),
    ) by {
        let sa = if a < i { a } else { a + 1 };
        let sb = if b < i { b } else { b + 1 };
        assert(t[a] == s[sa]);
        assert(t[b] == s[sb]);
    }
    lemma_sorted_distinct(s);
    let k = freeze_key(s[i]);
    let tv = pending_view(t);
    let sv = pending_view(s).remove(k);
    assert forall|x: (Seq<char>, u32)| #[trigger] tv.contains_key(x) implies sv.contains_key(x)
        && tv[x] == sv[x] by {
        let j = choose|j: int| 0 <= j < t.len() && freeze_key(t[j]) == x;
        lemma_view_at(t, j);
        let sj = if j < i { j } else { j + 1 };
        assert(t[j] == s[sj]);
        assert(freeze_key(s[sj]) != k);
        lemma_view_at(s, sj);
    }
    assert forall|x: (Seq<char>, u32)| #[trigger] sv.contains_key(x) implies tv.contains_key(x) by {
        let j = choose|j: int| 0 <= j < s.len() && freeze_key(s[j]) == x;
        assert(j != i);
        let tj = if j < i { j } else { j - 1 };
        assert(t[tj] == s[j]);
    }
    assert(tv =~= sv);
}

} // verus!

verus! {

/// Whether the key of `p` comes before the identity `(name, uid)`.
fn entry_less(p: &PendingFreeze, name: &[char], uid: u32) -> (r: bool)
    ensures
        r == key_less(freeze_key(*p), (name@, uid)),
{
    let own = chars_of(p.package_name.as_str());
    if chars_less_exec(own.as_slice(), name) {
        return true;
    }
    if chars_less_exec(name, own.as_slice()) {
        return false;
    }
    proof {
        if own@ != name@ {
            lemma_chars_less_total(own@, name@);
        }
    }
    p.uid < uid
}

/// Whether the identity `(name, uid)` comes before the key of `p`.
fn entry_greater(p: &PendingFreeze, name: &[char], uid: u32) -> (r: bool)
    ensures
        r == key_less((name@, uid), freeze_key(*p)),
{
    let own = chars_of(p.package_name.as_str());
    if chars_less_exec(name, own.as_slice()) {
        return true;
    }
    if chars_less_exec(own.as_slice(), name) {
        return false;
    }
    proof {
        if own@ != name@ {
            lemma_chars_less_total(own@, name@);
        }
    }
    uid < p.uid
}

/// The freezes waiting for their delay, one per identity, kept in identity
/// order.
#[derive(Debug)]
pub struct FreezeScheduler {
    pending: Vec<PendingFreeze>,
}

impl View for FreezeScheduler {
    type V = Map<(Seq<char>, u32), u128>;

    /// The due time of each pending identity.
    closed spec fn view(&self) -> Map<(Seq<char>, u32), u128> {
        pending_view(self.pending@)
    }
}

impl FreezeScheduler {
    #[verifier::type_invariant]
    spec fn ordered(self) -> bool {
        sorted_by_key(self.pending@)
    }

    /// Schedules a freeze of the app at `now_ms + delay_ms`, replacing one
    /// that was already scheduled for it.
    pub fn schedule_background(&mut self, package_name: &str, uid: u32, now_ms: u128, delay_ms: u64)
        requires
            now_ms + delay_ms <= u128::MAX,
        ensures
            final(self)@ == old(self)@.insert((package_name@, uid), (now_ms + delay_ms) as u128),
    {
        proof {
            use_type_invariant(&*self);
        }
        let name = chars_of(package_name);
        let mut pending: Vec<PendingFreeze> = Vec::new();
        std::mem::swap(&mut pending, &mut self.pending);
        let ghost k = (package_name@, uid);
        let mut i: usize = 0;
        while i < pending.len()
            invariant_except_break
                i <= pending@.len(),
                name@ == package_name@,
                k == (package_name@, uid),
                forall|j: int| 0 <= j < i ==> key_less(freeze_key(#[trigger] pending@[j]), k),
            ensures
                i <= pending@.len(),
                forall|j: int| 0 <= j < i ==> key_less(freeze_key(#[trigger] pending@[j]), k),
                i < pending@.len() ==> !key_less(freeze_key(pending@[i as int]), k),
            decreases pending@.len() - i,
        {
            if !entry_less(&pending[i], name.as_slice(), uid) {
                break;
            }
            i = i + 1;
        }
        let entry = PendingFreeze {
            package_name: package_name.to_owned(),
            uid,
            due_at_ms: now_ms + delay_ms as u128,
        };
        if i < pending.len() && !entry_greater(&pending[i], name.as_slice(), uid) {
            proof {
                if freeze_key(pending@[i as int]) != k {
                    lemma_key_less_total(freeze_key(pending@[i as int]), k);
                }
                lemma_view_update(pending@, i as int, entry);
            }
            pending.set(i, entry);
        } else {
            proof {
                let s = pending@;
                let t = s.insert(i as int, entry);
                if i < s.len() {
                    if freeze_key(s[i as int]) != k {
                        lemma_key_less_total(freeze_key(s[i as int]), k);
                    }
                }
                assert forall|a: int, b: int| 0 <= a < b < t.len() implies key_less(
                    freeze_key(t[a]),
                    freeze_key(t[b]),
                ) by {
                    if b < i {
                        assert(t[a] == s[a] && t[b] == s[b]);
                    } else if b == i {
                        assert(t[a] == s[a]);
                    } else if a < i {
                        assert(t[a] == s[a] && t[b] == s[b - 1]);
                        if b - 1 > i {
                            lemma_key_less_transitive(k, freeze_key(s[i as int]), freeze_key(s[b - 1]));
                        }
                        lemma_key_less_transitive(freeze_key(s[a]), k, freeze_key(s[b - 1]));
                    } else if a == i {
                        assert(t[b] == s[b - 1]);
                        if b - 1 > i {
                            lemma_key_less_transitive(k, freeze_key(s[i as int]), freeze_key(s[b - 1]));
                        }
                    } else {
                        assert(t[a] == s[a - 1] && t[b] == s[b - 1]);
                    }
                }
                lemma_view_insert(s, i as int, entry);
            }
            pending.insert(i, entry);
        }
        self.pending = pending;
    }

    /// Cancels the pending freeze of the app, if any, and returns it.
    pub fn cancel_foreground(&mut self, package_name: &str, uid: u32) -> (r: Option<PendingFreeze>)
        ensures
            final(self)@ == old(self)@.remove((package_name@, uid)),
            r is Some <==> old(self)@.contains_key((package_name@, uid)),
            r matches Some(p) ==> freeze_key(p) == (package_name@, uid) && p.due_at_ms == old(
                self,
            )@[(package_name@, uid)],
    {
        proof {
            use_type_invariant(&*self);
        }
        let name = package_name.to_owned();
        let mut pending: Vec<PendingFreeze> = Vec::new();
        std::mem::swap(&mut pending, &mut self.pending);
        let ghost k = (package_name@, uid);
        let mut i: usize = 0;
        while i < pending.len()
            invariant
                i <= pending@.len(),
                pending@ == old(self).pending@,
                sorted_by_key(pending@),
                name@ == package_name@,
                k == (package_name@, uid),
                forall|j: int| 0 <= j < i ==> freeze_key(#[trigger] pending@[j]) != k,
            decreases pending@.len() - i,
        {
            if pending[i].uid == uid && pending[i].package_name == name {
                proof {
                    lemma_view_at(pending@, i as int);
                    lemma_view_remove(pending@, i as int);
                }
                let removed = pending.remove(i);
                self.pending = pending;
                return Some(removed);
            }
            i = i + 1;
        }
        proof {
            assert(!pending_view(pending@).contains_key(k));
            assert(pending_view(pending@).remove(k) =~= pending_view(pending@));
        }
        self.pending = pending;
        None
    }

    /// The pending freezes due at `now_ms`, in identity order.
    pub fn due_at(&self, now_ms: u128) -> (r: Vec<PendingFreeze>)
        ensures
            sorted_by_key(r@),
            forall|i: int|
                0 <= i < r@.len() ==> self@.contains_key(freeze_key(#[trigger] r@[i]))
                    && r@[i].due_at_ms == self@[freeze_key(r@[i])] && r@[i].due_at_ms <= now_ms,
            forall|k: (Seq<char>, u32)|
                #[trigger] self@.contains_key(k) && self@[k] <= now_ms ==> exists|i: int|
                    0 <= i < r@.len() && freeze_key(r@[i]) == k,
    {
        proof {
            use_type_invariant(self);
        }
        let ghost s = self.pending@;
        let mut out: Vec<PendingFreeze> = Vec::new();
        let mut i: usize = 0;
        while i < self.pending.len()
            invariant
                i <= s.len(),
                s == self.pending@,
                sorted_by_key(s),
                sorted_by_key(out@),
                forall|a: int|
                    0 <= a < out@.len() ==> exists|j: int|
                        0 <= j < i && freeze_key(#[trigger] out@[a]) == freeze_key(s[j])
                            && out@[a].due_at_ms == s[j].due_at_ms,
                forall|a: int| 0 <= a < out@.len() ==> (#[trigger] out@[a]).due_at_ms <= now_ms,
                forall|j: int|
                    0 <= j < i && (#[trigger] s[j]).due_at_ms <= now_ms ==> exists|a: int|
                        0 <= a < out@.len() && freeze_key(out@[a]) == freeze_key(s[j]),
            decreases s.len() - i,
        {
            let p = &self.pending[i];
            if p.due_at_ms <= now_ms {
                let copy = PendingFreeze {
                    package_name: p.package_name.clone(),
                    uid: p.uid,
                    due_at_ms: p.due_at_ms,
                };
                let ghost before = out@;
                out.push(copy);
                proof {
                    assert forall|a: int, b: int| 0 <= a < b < out@.len() implies key_less(
                        freeze_key(out@[a]),
                        freeze_key(out@[b]),
                    ) by {
                        if b == before.len() {
                            assert(out@[a] == before[a]);
                            let j = choose|j: int|
                                0 <= j < i && freeze_key(before[a]) == freeze_key(s[j])
                                    && before[a].due_at_ms == s[j].due_at_ms;
                        } else {
                            assert(out@[a] == before[a] && out@[b] == before[b]);
                        }
                    }
                    assert forall|a: int| 0 <= a < out@.len() implies exists|j: int|
                        0 <= j < i + 1 && freeze_key(#[trigger] out@[a]) == freeze_key(s[j])
                            && out@[a].due_at_ms == s[j].due_at_ms by {
                        if a < before.len() {
                            assert(out@[a] == before[a]);
                        } else {
                            assert(freeze_key(out@[a]) == freeze_key(s[i as int]));
                        }
                    }
                    assert forall|j: int|
                        0 <= j < i + 1 && (#[trigger] s[j]).due_at_ms <= now_ms implies exists|a: int|
                        0 <= a < out@.len() && freeze_key(out@[a]) == freeze_key(s[j]) by {
                        if j < i {
                            let a = choose|a: int|
                                0 <= a < before.len() && freeze_key(before[a]) == freeze_key(s[j]);
                            assert(out@[a] == before[a]);
                        } else {
                            assert(freeze_key(out@[before.len() as int]) == freeze_key(s[j]));
                        }
                    }
                }
            }
            i = i + 1;
        }
        proof {
            assert forall|a: int| 0 <= a < out@.len() implies self@.contains_key(
                freeze_key(#[trigger] out@[a]),
            ) && out@[a].due_at_ms == self@[freeze_key(out@[a])] && out@[a].due_at_ms
                <= now_ms by {
                let j = choose|j: int|
                    0 <= j < s.len() && freeze_key(out@[a]) == freeze_key(s[j])
                        && out@[a].due_at_ms == s[j].due_at_ms;
                lemma_view_at(s, j);
            }
            assert forall|k: (Seq<char>, u32)| #[trigger]
                self@.contains_key(k) && self@[k] <= now_ms implies exists|a: int|
                0 <= a < out@.len() && freeze_key(out@[a]) == k by {
                let j = choose|j: int| 0 <= j < s.len() && freeze_key(s[j]) == k;
                lemma_view_at(s, j);
            }
        }
        out
    }
}

impl Default for FreezeScheduler {
    /// A scheduler with nothing pending.
    fn default() -> (s: Self)
        ensures
            s@ == Map::<(Seq<char>, u32), u128>::empty(),
    {
        let s = FreezeScheduler { pending: Vec::new() };
        assert(s@ =~= Map::<(Seq<char>, u32), u128>::empty());
        s
    }
}

} // verus!

verus! {

/// A freeze scheduled at `now_ms` with `delay_ms` is pending for its app
/// and falls due exactly from `now_ms + delay_ms` on.
pub proof fn lemma_scheduled_freeze_falls_due_after_delay(
    pending: Map<(Seq<char>, u32), u128>,
    key: (Seq<char>, u32),
    now_ms: u128,
    delay_ms: u64,
    t: u128,
)
    requires
        now_ms + delay_ms <= u128::MAX,
    ensures
        pending.insert(key, (now_ms + delay_ms) as u128).contains_key(key),
        pending.insert(key, (now_ms + delay_ms) as u128)[key] <= t <==> now_ms + delay_ms <= t,
{
}

/// Cancelling a freeze that was just scheduled for an app that had none
/// leaves the scheduler as it was; scheduling again for the same app
/// replaces the earlier due time.
pub proof fn lemma_cancel_undoes_schedule(
    pending: Map<(Seq<char>, u32), u128>,
    key: (Seq<char>, u32),
    due: u128,
    later_due: u128,
)
    ensures
        !pending.contains_key(key) ==> pending.insert(key, due).remove(key) == pending,
        pending.insert(key, due).insert(key, later_due) == pending.insert(key, later_due),
{
    assert(!pending.contains_key(key) ==> pending.insert(key, due).remove(key) =~= pending);
    assert(pending.insert(key, due).insert(key, later_due) =~= pending.insert(key, later_due));
}

} // verus!
