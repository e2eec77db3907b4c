use crate::challenge::lemma_index_at;
use crate::challenge::CaptchaChallenge;
use crate::challenge::CHALLENGE_COUNT;
use crate::errors::Error;
use crate::prediction::Outcome;
use crate::prediction::Prediction;
use std::collections::HashMap;
use std::sync::Mutex;
use std::sync::MutexGuard;
use vstd::prelude::*;

verus! {

broadcast use vstd::std_specs::hash::group_hash_axioms;

/// The standard library's mutual-exclusion lock. What it guards can change
/// while the lock is shared, so the proofs see nothing inside it.
#[verifier::external_type_specification]
#[verifier::external_body]
#[verifier::reject_recursive_types(T)]
pub struct ExMutex<T: ?Sized>(Mutex<T>);

/// The standard library's proof of holding a `Mutex`; dropping it releases
/// the lock, on every path out of the scope that holds it.
#[verifier::external_type_specification]
#[verifier::external_body]
#[verifier::reject_recursive_types(T)]
pub struct ExMutexGuard<'a, T: ?Sized + 'a>(MutexGuard<'a, T>);

/// `Mutex::new` wraps a value in a fresh, unlocked lock. Nothing is claimed
/// of the result.
pub assume_specification<T>[ Mutex::<T>::new ](t: T) -> (m: Mutex<T>);

/// `Mutex::lock` blocks until the lock is free and then hands out its guard,
/// or reports that the lock is poisoned. Nothing is claimed of which. A
/// thread that holds the guard already must not ask again: the call would
/// never return, or panic. No clause can say who holds a lock, so this is
/// left to the callers of `CaptchaRegistry::predict`.
pub assume_specification<'a, T: ?Sized>[ Mutex::<T>::lock ](m: &'a Mutex<T>) -> (r:
    std::sync::LockResult<MutexGuard<'a, T>>);

/// `DerefMut::deref_mut` of a guard: exclusive access to what the lock
/// guards, for as long as the guard is borrowed. Nothing is claimed of the
/// value found there.
#[verifier::external_body]
fn guarded<'g, 'a, T>(guard: &'g mut MutexGuard<'a, T>) -> (r: &'g mut T) {
    &mut *guard
}

/// One entry of the models directory, as the file system reported it.
pub struct ModelDirectory {
    /// The entry's file name; `None` where the name is not valid UTF-8.
    pub name: Option<String>,
    /// Whether the entry holds a serialized model.
    pub has_saved_model: bool,
}

impl ModelDirectory {
    /// The challenge that the entry is named after, if it is named after one.
    pub open spec fn challenge(self) -> Option<CaptchaChallenge> {
        match self.name {
            Some(name) => CaptchaChallenge::parse(name@),
            None => None,
        }
    }

    /// Whether the entry is named after a challenge of the catalog.
    pub fn is_model_directory(&self) -> (valid: bool)
        ensures
            valid == self.challenge().is_some(),
    {
        match &self.name {
            Some(name) => CaptchaChallenge::is_valid_challenge_os_str(Some(name.as_str())),
            None => CaptchaChallenge::is_valid_challenge_os_str(None),
        }
    }
}

/// The challenges that the entries of a directory are named after.
pub open spec fn selected(entries: Seq<ModelDirectory>) -> Set<CaptchaChallenge> {
    Set::new(
        |c: CaptchaChallenge|
            exists|i: int| 0 <= i < entries.len() && (#[trigger] entries[i]).challenge() == Some(c),
    )
}

/// Whether every entry that is named after a challenge holds a model.
pub open spec fn complete(entries: Seq<ModelDirectory>) -> bool {
    forall|i: int|
        0 <= i < entries.len() && (#[trigger] entries[i]).challenge().is_some()
            ==> entries[i].has_saved_model
}

/// Whether loading may fail with `e` at entry `i`: every entry before it that
/// is named after a challenge holds a model, and entry `i`, named after a
/// challenge too, either holds none or holds one that `load` may reject with
/// the status code that `e` carries.
pub open spec fn fails_at<M, F: Fn(CaptchaChallenge) -> Result<M, u32>>(
    entries: Seq<ModelDirectory>,
    load: F,
    i: int,
    e: Error,
) -> bool {
    &&& 0 <= i < entries.len()
    &&& complete(entries.take(i))
    &&& entries[i].challenge() matches Some(c)
    &&& if entries[i].has_saved_model {
        exists|code: u32| load.ensures((c,), Err(code)) && e == Error::TensorflowError(code)
    } else {
        e == Error::ModelLoad(c)
    }
}

/// Whether `load` never rejects a model.
pub open spec fn never_rejects<M, F: Fn(CaptchaChallenge) -> Result<M, u32>>(load: F) -> bool {
    forall|c: CaptchaChallenge, code: u32| !load.ensures((c,), Err(code))
}

/// The loaded models, one per challenge, each behind a lock of its own.
#[verifier::reject_recursive_types(M)]
pub struct CaptchaRegistry<M> {
    items: HashMap<u64, Mutex<M>>,
}

impl<M> CaptchaRegistry<M> {
    /// The lock of each challenge that a model is loaded for. A lock stands
    /// for itself here: what it guards changes with every run of the model.
    pub closed spec fn locks(&self) -> Map<CaptchaChallenge, Mutex<M>> {
        Map::new(
            |c: CaptchaChallenge| self.items@.contains_key(c.index() as u64),
            |c: CaptchaChallenge| self.items@[c.index() as u64],
        )
    }

    /// The challenges that a model is loaded for.
    pub open spec fn loaded(&self) -> Set<CaptchaChallenge> {
        self.locks().dom()
    }

    /// Whether `r` is what loading the entries of a directory with `load` may
    /// give: a registry of exactly the challenges that entries are named
    /// after, each with a model that `load` may have returned, or the error of
    /// the first entry that fails.
    pub open spec fn loads<F: Fn(CaptchaChallenge) -> Result<M, u32>>(
        entries: Seq<ModelDirectory>,
        load: F,
        r: Result<Self, Error>,
    ) -> bool {
        match r {
            Ok(registry) => {
                &&& complete(entries)
                &&& registry.loaded() == selected(entries)
                &&& forall|c: CaptchaChallenge| #[trigger]
                    selected(entries).contains(c) ==> exists|m: M| load.ensures((c,), Ok(m))
            },
            Err(e) => exists|i: int| fails_at(entries, load, i, e),
        }
    }

    /// Whether `r` is what asking for a prediction may give: an error where
    /// no model is loaded for the challenge; else what `run` may return for
    /// the image, or the error of a poisoned lock.
    pub open spec fn predicts<F: FnOnce(&mut M, Vec<u8>) -> Outcome>(
        &self,
        challenge: CaptchaChallenge,
        image: Vec<u8>,
        run: F,
        r: Result<Prediction, Error>,
    ) -> bool {
        if self.loaded().contains(challenge) {
            r == Err::<Prediction, Error>(Error::MutexError) || exists|
                model: &mut M,
                outcome: Outcome,
            |
                run.ensures((model, image), outcome) && r == Prediction::of_outcome(outcome)
        } else {
            r == Err::<Prediction, Error>(Error::CategoryNotLoaded(challenge))
        }
    }

    /// A registry without models.
    pub fn new() -> (registry: Self)
        ensures
            registry.locks() == Map::<CaptchaChallenge, Mutex<M>>::empty(),
            registry.loaded() == Set::<CaptchaChallenge>::empty(),
    {
        let registry = CaptchaRegistry { items: HashMap::new() };
        assert(registry.locks() =~= Map::<CaptchaChallenge, Mutex<M>>::empty());
        registry
    }

    /// Whether a model is loaded for `challenge`.
    pub fn is_loaded(&self, challenge: &CaptchaChallenge) -> (found: bool)
        ensures
            found == self.loaded().contains(*challenge),
    {
        let key = challenge.ordinal();
        self.items.contains_key(&key)
    }

    /// Puts `model` behind a fresh lock and registers it for `challenge`,
    /// in place of any model registered for it before.
    pub fn insert(&mut self, challenge: CaptchaChallenge, model: M)
        ensures
            final(self).loaded() == old(self).loaded().insert(challenge),
            final(self).locks().remove(challenge) == old(self).locks().remove(challenge),
    {
        let key = challenge.ordinal();
        let _ = self.items.insert(key, Mutex::new(model));
        proof {
            assert forall|c: CaptchaChallenge|
                final(self).loaded().contains(c) == old(self).loaded().insert(challenge).contains(
                    c,
                ) by {
                lemma_index_at(c);
                lemma_index_at(challenge);
            }
            assert(final(self).loaded() =~= old(self).loaded().insert(challenge));
            assert forall|c: CaptchaChallenge| c != challenge implies c.index()
                != challenge.index() by {
                lemma_index_at(c);
                lemma_index_at(challenge);
            }
            assert(final(self).locks().remove(challenge) =~= old(self).locks().remove(challenge));
        }
    }

    /// Loads the model of one directory entry and registers it: one step of
    /// loading a directory, which may run on any thread and in any order.
    ///
    /// An entry that is not named after a challenge is an error here; callers
    /// pass only entries for which `is_model_directory` holds. An entry
    /// without a serialized model fails before `load` is called. Whatever
    /// fails, the registry stays as it was.
    pub fn load_entry<F: Fn(CaptchaChallenge) -> Result<M, u32>>(
        &mut self,
        entry: &ModelDirectory,
        load: &F,
    ) -> (r: Result<(), Error>)
        requires
            forall|c: CaptchaChallenge| load.requires((c,)),
        ensures
            r is Err ==> *final(self) == *old(self),
            match entry.challenge() {
                None => r == Err::<(), Error>(Error::StrumParseError),
                Some(c) => if !entry.has_saved_model {
                    r == Err::<(), Error>(Error::ModelLoad(c))
                } else {
                    match r {
                        Ok(_) => {
                            &&& final(self).loaded() == old(self).loaded().insert(c)
                            &&& final(self).locks().remove(c) == old(self).locks().remove(c)
                            &&& exists|m: M| load.ensures((c,), Ok(m))
                        },
                        Err(e) => exists|code: u32|
                            load.ensures((c,), Err(code)) && e == Error::TensorflowError(code),
                    }
                },
            },
    {
        let challenge = match &entry.name {
            Some(name) => CaptchaChallenge::from_str(name.as_str())?,
            None => { return Err(Error::StrumParseError); },
        };
        if !entry.has_saved_model {
            return Err(Error::ModelLoad(challenge));
        }
        match load(challenge) {
            Ok(model) => {
                self.insert(challenge, model);
                Ok(())
            },
            Err(code) => Err(Error::TensorflowError(code)),
        }
    }

    /// Moves every model of `other`, with its lock, into this registry. Where
    /// both hold a model for a challenge, the one of `other` stays.
    pub fn merge(&mut self, other: Self)
        ensures
            final(self).locks() == old(self).locks().union_prefer_right(other.locks()),
            final(self).loaded() == old(self).loaded().union(other.loaded()),
    {
        let mut rest = other;
        let ghost mine = self.items@;
        let ghost theirs = rest.items@;
        let mut key: u64 = 0;
        while key < CHALLENGE_COUNT
            invariant
                key <= CHALLENGE_COUNT,
                forall|k: u64|
                    k < key ==> (self.items@.contains_key(k) <==> mine.contains_key(k)
                        || theirs.contains_key(k)),
                forall|k: u64|
                    k < key && self.items@.contains_key(k) ==> self.items@[k] == (if theirs.contains_key(
                        k,
                    ) {
                        theirs[k]
                    } else {
                        mine[k]
                    }),
                forall|k: u64|
                    k >= key ==> (self.items@.contains_key(k) <==> mine.contains_key(k)),
                forall|k: u64| k >= key && mine.contains_key(k) ==> self.items@[k] == mine[k],
                forall|k: u64|
                    k >= key ==> (rest.items@.contains_key(k) <==> theirs.contains_key(k)),
                forall|k: u64| k >= key && theirs.contains_key(k) ==> rest.items@[k] == theirs[k],
            decreases CHALLENGE_COUNT - key,
        {
            if let Some(lock) = rest.items.remove(&key) {
                let _ = self.items.insert(key, lock);
            }
            key += 1;
        }
        proof {
            assert forall|c: CaptchaChallenge|
                final(self).loaded().contains(c) == old(self).loaded().union(
                    other.loaded(),
                ).contains(c) by {
                lemma_index_at(c);
            }
            assert(final(self).loaded() =~= old(self).loaded().union(other.loaded()));
            assert(final(self).locks() =~= old(self).locks().union_prefer_right(other.locks()));
        }
    }

    /// Loads a model for every entry of a models directory that is named
    /// after a challenge, and registers each behind a lock of its own.
    ///
    /// Entries with other names are passed over. The entries are taken in
    /// order, and the first that holds no serialized model, or whose model
    /// `load` rejects, fails the whole load: no registry is returned.
    pub fn load_from_models_dir<F: Fn(CaptchaChallenge) -> Result<M, u32>>(
        entries: &Vec<ModelDirectory>,
        load: F,
    ) -> (r: Result<Self, Error>)
        requires
            forall|c: CaptchaChallenge| load.requires((c,)),
        ensures
            Self::loads(entries@, load, r),
            !complete(entries@) ==> r is Err,
            complete(entries@) && never_rejects(load) ==> r is Ok,
    {
        let mut registry = Self::new();
        let mut i: usize = 0;
        while i < entries.len()
            invariant
                i <= entries.len(),
                forall|c: CaptchaChallenge| load.requires((c,)),
                complete(entries@.take(i as int)),
                registry.loaded() == selected(entries@.take(i as int)),
                forall|c: CaptchaChallenge| #[trigger]
                    selected(entries@.take(i as int)).contains(c) ==> exists|m: M|
                        load.ensures((c,), Ok(m)),
            decreases entries.len() - i,
        {
            let entry = &entries[i];
            let ghost before = entries@.take(i as int);
            let ghost after = entries@.take(i + 1);
            assert(after == before.push(*entry));
            if entry.is_model_directory() {
                match registry.load_entry(entry, &load) {
                    Ok(_) => {},
                    Err(e) => {
                        assert(fails_at(entries@, load, i as int, e));
                        return Err(e);
                    },
                }
            }
            proof {
                assert forall|j: int|
                    0 <= j < after.len() && (#[trigger] after[j]).challenge().is_some()
                        implies after[j].has_saved_model by {
                    if j < i {
                        assert(before[j].challenge().is_some());
                    }
                }
                assert forall|c: CaptchaChallenge|
                    selected(after).contains(c) == (selected(before).contains(c)
                        || entry.challenge() == Some(c)) by {
                    if selected(after).contains(c) {
                        let j = choose|j: int|
                            0 <= j < after.len() && (#[trigger] after[j]).challenge() == Some(c);
                        if j < i {
                            assert(before[j].challenge() == Some(c));
                        }
                    }
                    if selected(before).contains(c) {
                        let j = choose|j: int|
                            0 <= j < before.len() && (#[trigger] before[j]).challenge() == Some(c);
                        assert(after[j].challenge() == Some(c));
                    }
                    if entry.challenge() == Some(c) {
                        assert(after[i as int].challenge() == Some(c));
                    }
                }
                assert(registry.loaded() =~= selected(after));
            }
            i += 1;
        }
        assert(entries@.take(i as int) == entries@);
        Ok(registry)
    }

    /// Runs the model of `challenge` on `image`, holding the model's lock
    /// for the length of the run and no longer.
    ///
    /// A challenge without a model is an error, and `run` is not called. A
    /// lock that an earlier panic poisoned is an error too. Otherwise the
    /// result is what `run` gave, as `Prediction::from_outcome` reads it.
    ///
    /// Requests for one challenge run one at a time; requests for different
    /// challenges do not wait for each other. `run` itself must not ask this
    /// registry for a prediction of the same challenge.
    pub fn predict<F: FnOnce(&mut M, Vec<u8>) -> Outcome>(
        &self,
        challenge: &CaptchaChallenge,
        image: Vec<u8>,
        run: F,
    ) -> (r: Result<Prediction, Error>)
        requires
            forall|model: &mut M| run.requires((model, image)),
        ensures
            self.predicts(*challenge, image, run, r),
    {
        let key = challenge.ordinal();
        let lock = match self.items.get(&key) {
            Some(lock) => lock,
            None => { return Err(Error::CategoryNotLoaded(*challenge)); },
        };
        let mut guard = match lock.lock() {
            Ok(guard) => guard,
            Err(poisoned) => { return Err(Error::from(poisoned)); },
        };
        let outcome = run(guarded(&mut guard), image);
        Prediction::from_outcome(outcome)
    }
}

/// The challenges selected from two listings put together are those selected
/// from either, and the whole is complete exactly when both parts are: a
/// directory may be split among workers at any point.
pub proof fn lemma_selected_concat(a: Seq<ModelDirectory>, b: Seq<ModelDirectory>)
    ensures
        selected(a + b) == selected(a).union(selected(b)),
        complete(a + b) == (complete(a) && complete(b)),
{
    let ab = a + b;
    assert forall|c: CaptchaChallenge|
        selected(ab).contains(c) == selected(a).union(selected(b)).contains(c) by {
        if selected(ab).contains(c) {
            let i = choose|i: int| 0 <= i < ab.len() && (#[trigger] ab[i]).challenge() == Some(c);
            if i < a.len() {
                assert(a[i].challenge() == Some(c));
            } else {
                assert(b[i - a.len()].challenge() == Some(c));
            }
        }
        if selected(a).contains(c) {
            let i = choose|i: int| 0 <= i < a.len() && (#[trigger] a[i]).challenge() == Some(c);
            assert(ab[i].challenge() == Some(c));
        }
        if selected(b).contains(c) {
            let i = choose|i: int| 0 <= i < b.len() && (#[trigger] b[i]).challenge() == Some(c);
            assert(ab[i + a.len()].challenge() == Some(c));
        }
    }
    assert(selected(ab) =~= selected(a).union(selected(b)));
    if complete(ab) {
        assert forall|i: int|
            0 <= i < a.len() && (#[trigger] a[i]).challenge().is_some()
                implies a[i].has_saved_model by {
            assert(ab[i].challenge().is_some());
        }
        assert forall|i: int|
            0 <= i < b.len() && (#[trigger] b[i]).challenge().is_some()
                implies b[i].has_saved_model by {
            assert(ab[i + a.len()].challenge().is_some());
        }
    }
    if complete(a) && complete(b) {
        assert forall|i: int|
            0 <= i < ab.len() && (#[trigger] ab[i]).challenge().is_some()
                implies ab[i].has_saved_model by {
            if i < a.len() {
                assert(a[i].challenge().is_some());
            } else {
                assert(b[i - a.len()].challenge().is_some());
            }
        }
    }
}

/// Merging registries is a union of what they have loaded, so partial
/// results may be merged in any order and any grouping.
pub proof fn lemma_merge_order_is_irrelevant(
    a: Set<CaptchaChallenge>,
    b: Set<CaptchaChallenge>,
    c: Set<CaptchaChallenge>,
)
    ensures
        a.union(b) == b.union(a),
        a.union(b).union(c) == a.union(b.union(c)),
        a.union(Set::empty()) == a,
{
    assert(a.union(b) =~= b.union(a));
    assert(a.union(b).union(c) =~= a.union(b.union(c)));
    assert(a.union(Set::empty()) =~= a);
}

/// Load completeness: where every entry that is named after a challenge
/// holds a model and `load` rejects none, loading succeeds, and the registry
/// has loaded exactly the challenges that entries are named after.
pub proof fn lemma_load_completeness<M, F: Fn(CaptchaChallenge) -> Result<M, u32>>(
    entries: Seq<ModelDirectory>,
    load: F,
    r: Result<CaptchaRegistry<M>, Error>,
)
    requires
        CaptchaRegistry::loads(entries, load, r),
        complete(entries),
        never_rejects(load),
    ensures
        r matches Ok(registry) && registry.loaded() == selected(entries),
{
    if let Err(e) = r {
        let i = choose|i: int| fails_at(entries, load, i, e);
        assert(entries[i].challenge().is_some());
    }
}

/// Load atomicity: where an entry that is named after a challenge holds no
/// model, loading fails and no registry comes back. Where `load` rejects no
/// model either, the error names the challenge of the first such entry.
pub proof fn lemma_load_atomicity<M, F: Fn(CaptchaChallenge) -> Result<M, u32>>(
    entries: Seq<ModelDirectory>,
    load: F,
    r: Result<CaptchaRegistry<M>, Error>,
)
    requires
        CaptchaRegistry::loads(entries, load, r),
        !complete(entries),
    ensures
        r is Err,
        never_rejects(load) ==> exists|i: int|
            {
                &&& 0 <= i < entries.len()
                &&& complete(entries.take(i))
                &&& !entries[i].has_saved_model
                &&& #[trigger] entries[i].challenge() matches Some(c)
                &&& r == Err::<CaptchaRegistry<M>, Error>(Error::ModelLoad(c))
            },
{
    if never_rejects(load) {
        let e = r->Err_0;
        let i = choose|i: int| fails_at(entries, load, i, e);
        assert(entries[i].challenge().is_some());
    }
}

/// Directory filtering: an entry that is not named after a challenge changes
/// nothing, wherever it stands in the listing and whatever it holds. Loading
/// with it may give exactly what loading without it may give.
pub proof fn lemma_load_ignores_strays<M, F: Fn(CaptchaChallenge) -> Result<M, u32>>(
    before: Seq<ModelDirectory>,
    stray: ModelDirectory,
    after: Seq<ModelDirectory>,
    load: F,
    r: Result<CaptchaRegistry<M>, Error>,
)
    requires
        stray.challenge().is_none(),
    ensures
        selected(before + seq![stray] + after) == selected(before + after),
        complete(before + seq![stray] + after) == complete(before + after),
        CaptchaRegistry::loads(before + seq![stray] + after, load, r) == CaptchaRegistry::loads(
            before + after,
            load,
            r,
        ),
{
    let one = seq![stray];
    let with = before + one + after;
    let without = before + after;
    let n = before.len() as int;
    lemma_stray_alone(stray);
    lemma_selected_concat(before, one);
    lemma_selected_concat(before + one, after);
    lemma_selected_concat(before, after);
    assert(selected(with) =~= selected(without));
    if let Err(e) = r {
        if CaptchaRegistry::loads(with, load, r) {
            let i = choose|i: int| fails_at(with, load, i, e);
            assert(i != n);
            if i < n {
                assert(with.take(i) =~= without.take(i));
                assert(with[i] == without[i]);
                assert(fails_at(without, load, i, e));
            } else {
                assert(with.take(i) =~= before + one + after.take(i - n - 1));
                assert(without.take(i - 1) =~= before + after.take(i - n - 1));
                lemma_selected_concat(before + one, after.take(i - n - 1));
                lemma_selected_concat(before, after.take(i - n - 1));
                assert(with[i] == without[i - 1]);
                assert(fails_at(without, load, i - 1, e));
            }
        }
        if CaptchaRegistry::loads(without, load, r) {
            let i = choose|i: int| fails_at(without, load, i, e);
            if i < n {
                assert(with.take(i) =~= without.take(i));
                assert(with[i] == without[i]);
                assert(fails_at(with, load, i, e));
            } else {
                assert(with.take(i + 1) =~= before + one + after.take(i - n));
                assert(without.take(i) =~= before + after.take(i - n));
                lemma_selected_concat(before + one, after.take(i - n));
                lemma_selected_concat(before, after.take(i - n));
                assert(with[i + 1] == without[i]);
                assert(fails_at(with, load, i + 1, e));
            }
        }
    }
}

proof fn lemma_stray_alone(stray: ModelDirectory)
    requires
        stray.challenge().is_none(),
    ensures
        selected(seq![stray]) == Set::<CaptchaChallenge>::empty(),
        complete(seq![stray]),
{
    assert(selected(seq![stray]) =~= Set::<CaptchaChallenge>::empty());
}

/// Prediction determinism: where the model's answer depends on the image
/// alone, two requests for the same challenge and image that both get past
/// the lock get the same result.
pub proof fn lemma_predict_is_deterministic<M, F: FnOnce(&mut M, Vec<u8>) -> Outcome>(
    registry: CaptchaRegistry<M>,
    challenge: CaptchaChallenge,
    image: Vec<u8>,
    run: F,
    first: Result<Prediction, Error>,
    second: Result<Prediction, Error>,
)
    requires
        registry.predicts(challenge, image, run, first),
        registry.predicts(challenge, image, run, second),
        first != Err::<Prediction, Error>(Error::MutexError),
        second != Err::<Prediction, Error>(Error::MutexError),
        forall|m1: &mut M, m2: &mut M, o1: Outcome, o2: Outcome|
            run.ensures((m1, image), o1) && run.ensures((m2, image), o2) ==> o1 == o2,
    ensures
        first == second,
{
}

} // verus!
