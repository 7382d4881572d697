//! Gathering the results of downloads run side by side.
//!
//! Spawned tasks are joined in the order they were spawned; a task that
//! panicked or was cancelled yields no result and is reported apart, so
//! the results that remain keep the order of their inputs. Batch runs are
//! summed up as a byte total and a count of failures.

use vstd::prelude::*;

verus! {

/// The values of the `Ok` entries, in order.
pub open spec fn oks<T, E>(s: Seq<Result<T, E>>) -> Seq<T>
    decreases s.len(),
{
    if s.len() == 0 {
        Seq::empty()
    } else {
        let rest = oks(s.drop_last());
        match s.last() {
            Ok(v) => rest.push(v),
            Err(_) => rest,
        }
    }
}

/// The errors of the `Err` entries, in order.
pub open spec fn errs<T, E>(s: Seq<Result<T, E>>) -> Seq<E>
    decreases s.len(),
{
    if s.len() == 0 {
        Seq::empty()
    } else {
        let rest = errs(s.drop_last());
        match s.last() {
            Ok(_) => rest,
            Err(e) => rest.push(e),
        }
    }
}

/// Split joined task outcomes into the values of the tasks that finished
/// and the errors of those that did not, each in the order of the outcomes.
pub fn split_joined<T, E>(outcomes: Vec<Result<T, E>>) -> (res: (Vec<T>, Vec<E>))
    ensures
        res.0@ == oks(outcomes@),
        res.1@ == errs(outcomes@),
{
    let ghost all = outcomes@;
    let mut finished: Vec<T> = Vec::new();
    let mut failed: Vec<E> = Vec::new();
    for r in it: outcomes
        invariant
            all == it.seq(),
            finished@ == oks(all.take(it.index() as int)),
            failed@ == errs(all.take(it.index() as int)),
    {
        assert(all.take(it.index() + 1).drop_last() =~= all.take(it.index() as int));
        match r {
            Ok(v) => finished.push(v),
            Err(e) => failed.push(e),
        }
    }
    assert(all.take(all.len() as int) =~= all);
    (finished, failed)
}

/// The values that finished tasks delivered are exactly the `Ok` outcomes,
/// kept in input order and unwrapped; the failures are exactly the `Err`
/// outcomes in input order.
pub proof fn split_is_ordered_filter<T, E>(s: Seq<Result<T, E>>)
    ensures
        oks(s) == s.filter(|r: Result<T, E>| r is Ok).map_values(|r: Result<T, E>| r->Ok_0),
        errs(s) == s.filter(|r: Result<T, E>| r is Err).map_values(|r: Result<T, E>| r->Err_0),
    decreases s.len(),
{
    let pok = |r: Result<T, E>| r is Ok;
    let perr = |r: Result<T, E>| r is Err;
    let fok = |r: Result<T, E>| r->Ok_0;
    let ferr = |r: Result<T, E>| r->Err_0;
    if s.len() == 0 {
        reveal(Seq::filter);
        assert(s.filter(pok) =~= Seq::empty());
        assert(s.filter(perr) =~= Seq::empty());
        assert(s.filter(pok).map_values(fok) =~= Seq::empty());
        assert(s.filter(perr).map_values(ferr) =~= Seq::empty());
    } else {
        let p = s.drop_last();
        let x = s.last();
        split_is_ordered_filter(p);
        assert(p.push(x) =~= s);
        p.lemma_filter_push(x, pok);
        p.lemma_filter_push(x, perr);
        if x is Ok {
            assert(p.filter(pok).push(x).map_values(fok) =~= p.filter(pok).map_values(fok).push(
                fok(x),
            ));
        } else {
            assert(p.filter(perr).push(x).map_values(ferr) =~= p.filter(perr).map_values(
                ferr,
            ).push(ferr(x)));
        }
    }
}

/// Position by position: the value of the task at input index `i`, if it
/// finished, is found in the finished list right after the values of the
/// finished tasks that come before it.
pub proof fn finished_value_sits_after_earlier_ones<T, E>(s: Seq<Result<T, E>>, i: int)
    requires
        0 <= i < s.len(),
        s[i] is Ok,
    ensures
        s.take(i).filter(|r: Result<T, E>| r is Ok).len() < oks(s).len(),
        oks(s)[s.take(i).filter(|r: Result<T, E>| r is Ok).len() as int] == s[i]->Ok_0,
    decreases s.len(),
{
    let pok = |r: Result<T, E>| r is Ok;
    let p = s.drop_last();
    split_is_ordered_filter(s);
    split_is_ordered_filter(p);
    assert(p.push(s.last()) =~= s);
    p.lemma_filter_push(s.last(), pok);
    if i == s.len() - 1 {
        assert(s.take(i) =~= p);
    } else {
        assert(s.take(i) =~= p.take(i));
        finished_value_sits_after_earlier_ones(p, i);
    }
}

/// Every joined outcome lands in exactly one of the two lists.
pub proof fn split_accounts_for_every_outcome<T, E>(s: Seq<Result<T, E>>)
    ensures
        oks(s).len() + errs(s).len() == s.len(),
    decreases s.len(),
{
    if s.len() > 0 {
        split_accounts_for_every_outcome(s.drop_last());
    }
}

/// When no task fails, there is one value per input, in input order.
pub proof fn all_finished_keeps_one_per_input<T, E>(s: Seq<Result<T, E>>)
    requires
        forall|i: int| 0 <= i < s.len() ==> #[trigger] s[i] is Ok,
    ensures
        oks(s).len() == s.len(),
        forall|i: int| 0 <= i < s.len() ==> #[trigger] oks(s)[i] == s[i]->Ok_0,
        errs(s).len() == 0,
    decreases s.len(),
{
    if s.len() > 0 {
        let p = s.drop_last();
        assert forall|i: int| 0 <= i < p.len() implies #[trigger] p[i] is Ok by {
            assert(p[i] == s[i]);
        }
        all_finished_keeps_one_per_input(p);
        assert(s[s.len() - 1] is Ok);
        assert forall|i: int| 0 <= i < s.len() implies #[trigger] oks(s)[i] == s[i]->Ok_0 by {
            if i < s.len() - 1 {
                assert(oks(p)[i] == p[i]->Ok_0);
            }
        }
    }
}

/// The number of entries whose result is `Ok`.
pub open spec fn count_ok<K, T, E>(s: Seq<(K, Result<T, E>)>) -> nat
    decreases s.len(),
{
    if s.len() == 0 {
        0
    } else {
        count_ok(s.drop_last()) + if s.last().1 is Ok {
            1nat
        } else {
            0nat
        }
    }
}

proof fn lemma_count_ok_le_len<K, T, E>(s: Seq<(K, Result<T, E>)>)
    ensures
        count_ok(s) <= s.len(),
    decreases s.len(),
{
    if s.len() > 0 {
        lemma_count_ok_le_len(s.drop_last());
    }
}

/// The count of successes is the number of entries whose result is `Ok`.
pub proof fn count_ok_is_number_of_successes<K, T, E>(s: Seq<(K, Result<T, E>)>)
    ensures
        count_ok(s) == s.filter(|e: (K, Result<T, E>)| e.1 is Ok).len(),
    decreases s.len(),
{
    let pok = |e: (K, Result<T, E>)| e.1 is Ok;
    if s.len() == 0 {
        reveal(Seq::filter);
    } else {
        let p = s.drop_last();
        count_ok_is_number_of_successes(p);
        assert(p.push(s.last()) =~= s);
        p.lemma_filter_push(s.last(), pok);
    }
}

/// How many of the labelled results succeeded.
pub fn count_successes<K, T, E>(results: &[(K, Result<T, E>)]) -> (n: usize)
    ensures
        n == count_ok(results@),
{
    let mut n: usize = 0;
    let mut i: usize = 0;
    while i < results.len()
        invariant
            0 <= i <= results.len(),
            n == count_ok(results@.take(i as int)),
        decreases results.len() - i,
    {
        assert(results@.take(i + 1).drop_last() =~= results@.take(i as int));
        proof {
            lemma_count_ok_le_len(results@.take(i as int));
        }
        if results[i].1.is_ok() {
            n = n + 1;
        }
        i += 1;
    }
    assert(results@.take(results.len() as int) =~= results@);
    n
}

/// Running totals of a batch of downloads: bytes received and failures.
pub struct DownloadTally {
    pub total_bytes: usize,
    pub errors: usize,
}

impl DownloadTally {
    /// Nothing counted yet.
    pub fn new() -> (t: DownloadTally)
        ensures
            t.total_bytes == 0,
            t.errors == 0,
    {
        DownloadTally { total_bytes: 0, errors: 0 }
    }

    /// Whether a download of `size` bytes can be added to the total.
    pub fn can_add(&self, size: usize) -> (b: bool)
        ensures
            b == (self.total_bytes + size <= usize::MAX),
    {
        size <= usize::MAX - self.total_bytes
    }

    /// Count a download that delivered `size` bytes.
    pub fn add_success(&mut self, size: usize)
        requires
            old(self).total_bytes + size <= usize::MAX,
        ensures
            final(self).total_bytes == old(self).total_bytes + size,
            final(self).errors == old(self).errors,
    {
        self.total_bytes = self.total_bytes + size;
    }

    /// Count a download that failed.
    pub fn add_failure(&mut self)
        requires
            old(self).errors < usize::MAX,
        ensures
            final(self).total_bytes == old(self).total_bytes,
            final(self).errors == old(self).errors + 1,
    {
        self.errors = self.errors + 1;
    }
}

} // verus!
