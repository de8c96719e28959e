//! The paced schedule of a run: setter calls spaced by equal pauses, a hold
//! between two phases, and a runner that hands the actions out one at a time
//! and stops at the first failed setter call.

use vstd::prelude::*;

verus! {

/// One thing a run does, with durations in nanoseconds.
#[derive(Clone, Copy, Debug)]
pub enum Action<T> {
    /// Apply a value through the setter.
    Apply(T),
    /// The pause that follows each setter call of a paced phase.
    Pause(u128),
    /// The pause between the two phases of an in-and-out run.
    Hold(u128),
}

/// A paced phase: each value is set, then followed by a pause of `interval`.
pub open spec fn paced<T>(values: Seq<T>, interval: u128) -> Seq<Action<T>>
    decreases values.len(),
{
    if values.len() == 0 {
        Seq::empty()
    } else {
        seq![Action::Apply(values[0]), Action::Pause(interval)] + paced(values.drop_first(), interval)
    }
}

/// The pause between two setter calls when `steps` calls share `total`.
pub open spec fn interval_of(total: u128, steps: nat) -> u128 {
    (total as nat / steps) as u128
}

/// A one-phase run: `values` paced over `total`.
pub open spec fn single_phase<T>(values: Seq<T>, total: u128) -> Seq<Action<T>> {
    paced(values, interval_of(total, values.len()))
}

/// An in-and-out run: the first phase, the hold, then the second phase, each
/// phase paced over `total`.
pub open spec fn two_phase<T>(first: Seq<T>, second: Seq<T>, total: u128, hold: u128) -> Seq<
    Action<T>,
> {
    single_phase(first, total) + seq![Action::Hold(hold)] + single_phase(second, total)
}

/// The values that the setter calls of `s` apply, in order.
pub open spec fn set_values<T>(s: Seq<Action<T>>) -> Seq<T>
    decreases s.len(),
{
    if s.len() == 0 {
        Seq::empty()
    } else {
        match s[0] {
            Action::Apply(v) => seq![v] + set_values(s.drop_first()),
            _ => set_values(s.drop_first()),
        }
    }
}

/// The sum of the pauses (not holds) of `s`.
pub open spec fn pause_total<T>(s: Seq<Action<T>>) -> int
    decreases s.len(),
{
    if s.len() == 0 {
        0
    } else {
        match s[0] {
            Action::Pause(d) => d + pause_total(s.drop_first()),
            _ => pause_total(s.drop_first()),
        }
    }
}

/// Whether `s` holds a hold.
pub open spec fn has_hold<T>(s: Seq<Action<T>>) -> bool {
    exists|i: int| 0 <= i < s.len() && #[trigger] s[i] is Hold
}

/// The actions of `s` up to and including its `k`-th setter call (counting
/// from 1): what a run does when that call fails.
pub open spec fn through_set<T>(s: Seq<Action<T>>, k: nat) -> Seq<Action<T>>
    decreases s.len(),
{
    if s.len() == 0 || k == 0 {
        Seq::empty()
    } else if s[0] is Apply && k == 1 {
        seq![s[0]]
    } else if s[0] is Apply {
        seq![s[0]] + through_set(s.drop_first(), (k - 1) as nat)
    } else {
        seq![s[0]] + through_set(s.drop_first(), k)
    }
}

proof fn lemma_paced_push<T>(v: Seq<T>, x: T, interval: u128)
    ensures
        paced(v.push(x), interval) == paced(v, interval) + seq![
            Action::Apply(x),
            Action::Pause(interval),
        ],
    decreases v.len(),
{
    if v.len() == 0 {
        assert(v.push(x).drop_first() =~= Seq::<T>::empty());
        assert(paced(Seq::<T>::empty(), interval) =~= Seq::empty());
        assert(paced(v, interval) =~= Seq::empty());
        assert(paced(v.push(x), interval) =~= paced(v, interval) + seq![
            Action::Apply(x),
            Action::Pause(interval),
        ]);
    } else {
        assert(v.push(x).drop_first() =~= v.drop_first().push(x));
        lemma_paced_push(v.drop_first(), x, interval);
        assert(paced(v.push(x), interval) =~= paced(v, interval) + seq![
            Action::Apply(x),
            Action::Pause(interval),
        ]);
    }
}

proof fn lemma_set_values_concat<T>(a: Seq<Action<T>>, b: Seq<Action<T>>)
    ensures
        set_values(a + b) == set_values(a) + set_values(b),
    decreases a.len(),
{
    if a.len() == 0 {
        assert(a + b =~= b);
        assert(set_values(a) + set_values(b) =~= set_values(b));
    } else {
        assert((a + b).drop_first() =~= a.drop_first() + b);
        lemma_set_values_concat(a.drop_first(), b);
        assert(set_values(a + b) =~= set_values(a) + set_values(b));
    }
}

proof fn lemma_pause_total_concat<T>(a: Seq<Action<T>>, b: Seq<Action<T>>)
    ensures
        pause_total(a + b) == pause_total(a) + pause_total(b),
    decreases a.len(),
{
    if a.len() == 0 {
        assert(a + b =~= b);
    } else {
        assert((a + b).drop_first() =~= a.drop_first() + b);
        lemma_pause_total_concat(a.drop_first(), b);
    }
}

proof fn lemma_pair<T>(x: T, interval: u128)
    ensures
        set_values(seq![Action::Apply(x), Action::Pause(interval)]) == seq![x],
        pause_total(seq![Action::Apply(x), Action::Pause(interval)]) == interval,
        set_values(seq![Action::Apply(x)]) == seq![x],
        pause_total(seq![Action::Apply(x)]) == 0,
{
    let s = seq![Action::Apply(x), Action::Pause(interval)];
    let u = s.drop_first();
    let e = Seq::<Action<T>>::empty();
    assert(u =~= seq![Action::Pause(interval)]);
    assert(u.drop_first() =~= e);
    assert(set_values(e) =~= Seq::<T>::empty());
    assert(pause_total(e) == 0);
    assert(u[0] == Action::<T>::Pause(interval));
    assert(set_values(u) == set_values(u.drop_first()));
    assert(pause_total(u) == interval + pause_total(u.drop_first()));
    assert(s[0] == Action::<T>::Apply(x));
    assert(set_values(s) =~= seq![x]);
    assert(pause_total(s) == pause_total(u));
    let t = seq![Action::Apply(x)];
    assert(t.drop_first() =~= e);
    assert(set_values(t) =~= seq![x]);
}

proof fn lemma_paced_facts<T>(v: Seq<T>, interval: u128)
    ensures
        set_values(paced(v, interval)) == v,
        pause_total(paced(v, interval)) == v.len() * interval,
        forall|i: int|
            0 <= i < paced(v, interval).len() ==> !(#[trigger] paced(v, interval)[i] is Hold),
    decreases v.len(),
{
    if v.len() == 0 {
        assert(set_values(paced(v, interval)) =~= v);
    } else {
        let head = seq![Action::Apply(v[0]), Action::Pause(interval)];
        let rest = paced(v.drop_first(), interval);
        lemma_paced_facts(v.drop_first(), interval);
        lemma_set_values_concat(head, rest);
        lemma_pause_total_concat(head, rest);
        lemma_pair(v[0], interval);
        assert(seq![v[0]] + v.drop_first() =~= v);
        assert(pause_total(paced(v, interval)) == interval + (v.len() - 1) * interval);
        assert(interval + (v.len() - 1) * interval == v.len() * interval) by (nonlinear_arith);
        assert forall|i: int| 0 <= i < paced(v, interval).len() implies !(#[trigger] paced(
            v,
            interval,
        )[i] is Hold) by {
            if i >= 2 {
                assert(paced(v, interval)[i] == rest[i - 2]);
            }
        }
    }
}

proof fn lemma_paced_through_set<T>(v: Seq<T>, interval: u128, k: nat)
    requires
        1 <= k <= v.len(),
    ensures
        through_set(paced(v, interval), k) == paced(v.take(k - 1), interval).push(
            Action::Apply(v[k - 1]),
        ),
    decreases v.len(),
{
    let s = paced(v, interval);
    let rest = paced(v.drop_first(), interval);
    assert(s[0] == Action::<T>::Apply(v[0]));
    if k == 1 {
        assert(v.take(0) =~= Seq::<T>::empty());
        assert(paced(v.take(0), interval) =~= Seq::empty());
        assert(through_set(s, k) =~= paced(v.take(k - 1), interval).push(Action::Apply(v[k - 1])));
    } else {
        let s1 = s.drop_first();
        assert(s1 =~= seq![Action::Pause(interval)] + rest);
        assert(s1.drop_first() =~= rest);
        lemma_paced_through_set(v.drop_first(), interval, (k - 1) as nat);
        let w = v.take(k - 1);
        assert(w.drop_first() =~= v.drop_first().take(k - 2));
        assert(w[0] == v[0]);
        assert(v.drop_first()[k - 2] == v[k - 1]);
        assert(s1[0] == Action::<T>::Pause(interval));
        let tail = through_set(rest, (k - 1) as nat);
        assert(through_set(s1, (k - 1) as nat) == seq![s1[0]] + tail);
        assert(through_set(s, k) == seq![s[0]] + through_set(s1, (k - 1) as nat));
        assert(paced(w, interval) == seq![Action::Apply(v[0]), Action::Pause(interval)] + paced(
            w.drop_first(),
            interval,
        ));
        assert(through_set(s, k) =~= paced(w, interval).push(Action::Apply(v[k - 1])));
    }
}

proof fn lemma_through_set_concat<T>(a: Seq<Action<T>>, b: Seq<Action<T>>, k: nat)
    requires
        k <= set_values(a).len(),
    ensures
        through_set(a + b, k) == through_set(a, k),
    decreases a.len(),
{
    if a.len() == 0 || k == 0 {
    } else {
        assert((a + b).drop_first() =~= a.drop_first() + b);
        assert((a + b)[0] == a[0]);
        if a[0] is Apply {
            if k > 1 {
                lemma_through_set_concat(a.drop_first(), b, (k - 1) as nat);
            }
        } else {
            lemma_through_set_concat(a.drop_first(), b, k);
        }
    }
}

/// A paced phase applies its values through the setter exactly once each,
/// in order, with no hold, and its pauses add up to `total` less the
/// remainder of `total` divided by the number of values: more than
/// `total - n` and at most `total` nanoseconds.
pub proof fn lemma_paced_run<T>(values: Seq<T>, total: u128)
    requires
        values.len() > 0,
    ensures
        set_values(single_phase(values, total)) == values,
        !has_hold(single_phase(values, total)),
        pause_total(single_phase(values, total)) == values.len() * interval_of(total, values.len()),
        total - values.len() < pause_total(single_phase(values, total)) <= total,
{
    let n = values.len();
    let iv = interval_of(total, n);
    lemma_paced_facts(values, iv);
    let t = total as int;
    assert(iv == t / (n as int));
    assert(t - n < n * (t / (n as int)) <= t) by (nonlinear_arith)
        requires
            n > 0,
            t >= 0,
    {
        assert(t == n * (t / (n as int)) + t % (n as int));
    }
}

/// When the setter fails on its `k`-th call of a paced phase, the run has
/// made exactly `k` setter calls, with the first `k` values in order, and
/// makes no pause after the failed call.
pub proof fn lemma_paced_failure<T>(values: Seq<T>, total: u128, k: nat)
    requires
        1 <= k <= values.len(),
    ensures
        set_values(through_set(single_phase(values, total), k)) == values.take(k as int),
        through_set(single_phase(values, total), k).last() == Action::Apply(values[k - 1]),
{
    let iv = interval_of(total, values.len());
    let w = values.take(k - 1);
    lemma_paced_through_set(values, iv, k);
    lemma_paced_facts(w, iv);
    lemma_set_values_concat(paced(w, iv), seq![Action::Apply(values[k - 1])]);
    lemma_pair(values[k - 1], iv);
    assert(paced(w, iv).push(Action::Apply(values[k - 1])) =~= paced(w, iv) + seq![
        Action::Apply(values[k - 1]),
    ]);
    assert(w.push(values[k - 1]) =~= values.take(k as int));
}

/// When the setter fails during the first phase of an in-and-out run, the
/// hold never happens and no value of the second phase is applied.
pub proof fn lemma_first_phase_failure<T>(
    first: Seq<T>,
    second: Seq<T>,
    total: u128,
    hold: u128,
    k: nat,
)
    requires
        1 <= k <= first.len(),
        second.len() > 0,
    ensures
        through_set(two_phase(first, second, total, hold), k) == through_set(
            single_phase(first, total),
            k,
        ),
        !has_hold(through_set(two_phase(first, second, total, hold), k)),
        set_values(through_set(two_phase(first, second, total, hold), k)) == first.take(k as int),
{
    let a = single_phase(first, total);
    let b = seq![Action::Hold(hold)] + single_phase(second, total);
    let iv = interval_of(total, first.len());
    lemma_paced_facts(first, iv);
    assert(two_phase(first, second, total, hold) =~= a + b);
    lemma_through_set_concat(a, b, k);
    lemma_paced_through_set(first, iv, k);
    lemma_paced_failure(first, total, k);
    let w = first.take(k - 1);
    lemma_paced_facts(w, iv);
    let t = through_set(a, k);
    assert forall|i: int| 0 <= i < t.len() implies !(#[trigger] t[i] is Hold) by {
        if i < paced(w, iv).len() {
            assert(t[i] == paced(w, iv)[i]);
        }
    }
}

/// An in-and-out run in which every setter call succeeds applies the
/// values of the first phase, then those of the second, and holds exactly
/// once, right after the last pause of the first phase.
pub proof fn lemma_two_phase_run<T>(first: Seq<T>, second: Seq<T>, total: u128, hold: u128)
    requires
        first.len() > 0,
        second.len() > 0,
    ensures
        set_values(two_phase(first, second, total, hold)) == first + second,
        two_phase(first, second, total, hold)[2 * first.len() as int] == Action::<T>::Hold(hold),
        forall|i: int|
            0 <= i < two_phase(first, second, total, hold).len() && i != 2 * first.len() ==> !(
            #[trigger] two_phase(first, second, total, hold)[i] is Hold),
{
    let a = single_phase(first, total);
    let h = seq![Action::<T>::Hold(hold)];
    let b = single_phase(second, total);
    lemma_paced_facts(first, interval_of(total, first.len()));
    lemma_paced_facts(second, interval_of(total, second.len()));
    lemma_set_values_concat(a, h);
    lemma_set_values_concat(a + h, b);
    assert(h.drop_first() =~= Seq::<Action<T>>::empty());
    assert(set_values(Seq::<Action<T>>::empty()) =~= Seq::<T>::empty());
    assert(h[0] is Hold);
    assert(set_values(h) == set_values(h.drop_first()));
    assert(set_values(h) =~= Seq::<T>::empty());
    assert(set_values(two_phase(first, second, total, hold)) =~= first + second);
    assert(a.len() == 2 * first.len()) by {
        lemma_paced_len(first, interval_of(total, first.len()));
    }
    let s = two_phase(first, second, total, hold);
    assert forall|i: int| 0 <= i < s.len() && i != 2 * first.len() implies !(#[trigger] s[i] is Hold) by {
        if i < a.len() {
            assert(s[i] == a[i]);
        } else {
            assert(s[i] == b[i - a.len() - 1]);
        }
    }
}

proof fn lemma_paced_len<T>(v: Seq<T>, interval: u128)
    ensures
        paced(v, interval).len() == 2 * v.len(),
    decreases v.len(),
{
    if v.len() > 0 {
        lemma_paced_len(v.drop_first(), interval);
    }
}

/// Builds the actions of one paced phase: every value set in order, each
/// followed by a pause of `total / values.len()` nanoseconds.
pub fn paced_script<T: Copy>(values: &Vec<T>, total: u128) -> (r: Vec<Action<T>>)
    requires
        values.len() > 0,
    ensures
        r@ == single_phase(values@, total),
{
    let interval: u128 = total / (values.len() as u128);
    let mut r: Vec<Action<T>> = Vec::new();
    let mut i: usize = 0;
    while i < values.len()
        invariant
            i <= values.len(),
            interval == interval_of(total, values@.len()),
            r@ == paced(values@.subrange(0, i as int), interval),
        decreases values.len() - i,
    {
        proof {
            lemma_paced_push(values@.subrange(0, i as int), values@[i as int], interval);
            assert(values@.subrange(0, i as int).push(values@[i as int]) =~= values@.subrange(
                0,
                i + 1,
            ));
        }
        r.push(Action::Apply(values[i]));
        r.push(Action::Pause(interval));
        i = i + 1;
        proof {
            assert(r@ =~= paced(values@.subrange(0, i as int), interval));
        }
    }
    assert(values@.subrange(0, values.len() as int) =~= values@);
    r
}

/// Builds the actions of an in-and-out run: `first` paced over `total`, a
/// hold of `hold` nanoseconds, then `second` paced over `total`.
pub fn two_phase_script<T: Copy>(first: &Vec<T>, second: &Vec<T>, total: u128, hold: u128) -> (r:
    Vec<Action<T>>)
    requires
        first.len() > 0,
        second.len() > 0,
    ensures
        r@ == two_phase(first@, second@, total, hold),
{
    let mut r = paced_script(first, total);
    r.push(Action::Hold(hold));
    let mut rest = paced_script(second, total);
    r.append(&mut rest);
    r
}

/// Where a run stands.
#[derive(Clone, Copy, Debug, PartialEq, Eq, Structural)]
pub enum RunStatus {
    Running,
    Finished,
    Aborted,
}

/// What a runner asks for next.
#[derive(Debug)]
pub enum Next<T> {
    /// Perform this action, then report whether it succeeded.
    Do(Action<T>),
    /// Every action has been performed.
    Finished,
    /// A setter call failed: the run stops here.
    Aborted,
}

/// Hands out the actions of a script one at a time, in order, and stops at
/// the first action reported as failed.
pub struct Runner<T> {
    script: Vec<Action<T>>,
    pos: usize,
    status: RunStatus,
}

impl<T: Copy> Runner<T> {
    /// The actions of the run.
    pub closed spec fn script(&self) -> Seq<Action<T>> {
        self.script@
    }

    /// How many actions have been handed out.
    pub closed spec fn done(&self) -> nat {
        self.pos as nat
    }

    pub closed spec fn status(&self) -> RunStatus {
        self.status
    }

    pub closed spec fn wf(&self) -> bool {
        &&& self.pos <= self.script@.len()
        &&& self.status is Finished ==> self.pos == self.script@.len()
    }

    /// A runner at the start of `script`.
    pub fn new(script: Vec<Action<T>>) -> (r: Self)
        ensures
            r.wf(),
            r.script() == script@,
            r.done() == 0,
            r.status() == RunStatus::Running,
    {
        Runner { script, pos: 0, status: RunStatus::Running }
    }

    /// Takes whether the action handed out last succeeded (`true` before the
    /// first one), and says what to do next.
    pub fn next(&mut self, ok: bool) -> (r: Next<T>)
        requires
            old(self).wf(),
        ensures
            final(self).wf(),
            final(self).script() == old(self).script(),
            old(self).status() != RunStatus::Running ==> final(self).status() == old(self).status()
                && final(self).done() == old(self).done(),
            old(self).status() == RunStatus::Aborted ==> r is Aborted,
            old(self).status() == RunStatus::Finished ==> r is Finished,
            old(self).status() == RunStatus::Running && !ok ==> r is Aborted && final(self).status()
                == RunStatus::Aborted && final(self).done() == old(self).done(),
            old(self).status() == RunStatus::Running && ok && old(self).done() == old(
                self,
            ).script().len() ==> r is Finished && final(self).status() == RunStatus::Finished
                && final(self).done() == old(self).done(),
            old(self).status() == RunStatus::Running && ok && old(self).done() < old(
                self,
            ).script().len() ==> r == Next::Do(old(self).script()[old(self).done() as int])
                && final(self).status() == RunStatus::Running && final(self).done() == old(
                self,
            ).done() + 1,
    {
        match self.status {
            RunStatus::Aborted => Next::Aborted,
            RunStatus::Finished => Next::Finished,
            RunStatus::Running => {
                if !ok {
                    self.status = RunStatus::Aborted;
                    Next::Aborted
                } else if self.pos == self.script.len() {
                    self.status = RunStatus::Finished;
                    Next::Finished
                } else {
                    let a = self.script[self.pos];
                    self.pos = self.pos + 1;
                    Next::Do(a)
                }
            },
        }
    }
}

/// When a run stops right after a setter call, what it has done is the
/// script up to and including its `k`-th setter call, `k` being the number
/// of setter calls made.
pub proof fn lemma_stopped_after_call<T>(s: Seq<Action<T>>, p: nat)
    requires
        1 <= p <= s.len(),
        s[p - 1] is Apply,
    ensures
        s.take(p as int) == through_set(s, set_values(s.take(p as int)).len()),
        set_values(s.take(p as int)).len() >= 1,
    decreases p,
{
    let t = s.take(p as int);
    let rest = s.drop_first();
    assert(t =~= seq![s[0]] + rest.take(p - 1));
    lemma_set_values_concat(seq![s[0]], rest.take(p - 1));
    let one = seq![s[0]];
    assert(one.drop_first() =~= Seq::<Action<T>>::empty());
    assert(set_values(Seq::<Action<T>>::empty()) =~= Seq::<T>::empty());
    if p == 1 {
        assert(rest.take(0) =~= Seq::<Action<T>>::empty());
        assert(set_values(one) =~= seq![s[0]->Apply_0]);
        assert(t =~= seq![s[0]]);
    } else {
        lemma_stopped_after_call(rest, (p - 1) as nat);
        if s[0] is Apply {
            assert(set_values(one) =~= seq![s[0]->Apply_0]);
        } else {
            assert(set_values(one) =~= Seq::<T>::empty());
        }
        assert(t =~= through_set(s, set_values(t).len()));
    }
}

} // verus!
