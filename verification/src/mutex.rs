use vstd::prelude::*;

verus! {

/// An exclusive lock that never blocks: an acquisition attempt either
/// succeeds at once or is refused at once.
///
/// The whole state machine of the exclusive lock is one boolean flag:
/// `false` means unlocked, `true` means a guard is out. While a guard
/// is out, the protected value lives in the guard, so well-formedness
/// ties the flag to the presence of the value in the cell.
#[derive(Debug)]
pub struct Mutex<T> {
    state: bool,
    value: Option<T>,
}

/// A handle produced by a successful acquisition of a [`Mutex`].
///
/// The guard owns the protected value while the lock is held; giving
/// the guard back through [`Mutex::unlock_exclusive`] returns the value
/// to the cell and clears the flag.
pub struct MutexGuard<T> {
    value: T,
}

impl<T> MutexGuard<T> {
    /// The value the guard protects.
    pub closed spec fn contents(self) -> T {
        self.value
    }

    /// Read the protected value through the guard.
    pub fn get(&self) -> (r: &T)
        ensures
            *r == self.contents(),
    {
        &self.value
    }

    /// Write the protected value through the guard.
    pub fn get_mut(&mut self) -> (r: &mut T)
        ensures
            *r == old(self).contents(),
            final(self).contents() == *final(r),
    {
        &mut self.value
    }
}

impl<T> Mutex<T> {
    /// Whether the lock is currently held.
    pub closed spec fn locked(self) -> bool {
        self.state
    }

    /// The value stored in the cell; meaningful only while the lock is
    /// not held (a held lock's value lives in its guard).
    pub closed spec fn contents(self) -> T {
        self.value->0
    }

    /// Well-formedness: the flag is set exactly while the value is out
    /// in a guard.
    pub closed spec fn wf(self) -> bool {
        self.state <==> self.value is None
    }

    /// An acquisition attempt succeeds exactly on an unlocked cell.
    pub open spec fn can_lock(self) -> bool {
        !self.locked()
    }

    /// One successful acquisition step: `post` is `pre` with the flag
    /// raised, and the guard carries the protected value away.
    pub open spec fn acquired(pre: Self, post: Self, g: MutexGuard<T>) -> bool {
        &&& pre.wf() && post.wf()
        &&& pre.can_lock()
        &&& post.locked()
        &&& g.contents() == pre.contents()
    }

    /// One release step: `post` is `pre` with the flag cleared and the
    /// guard's value put back.
    pub open spec fn released(pre: Self, post: Self, g: MutexGuard<T>) -> bool {
        &&& pre.wf() && post.wf()
        &&& pre.locked()
        &&& !post.locked()
        &&& post.contents() == g.contents()
    }

    /// Create a new `Mutex`.
    pub fn new(val: T) -> (m: Self)
        ensures
            m.wf(),
            !m.locked(),
            m.contents() == val,
    {
        Mutex { state: false, value: Some(val) }
    }

    /// Consume the `Mutex`, returning the inner value.
    pub fn into_inner(self) -> (r: T)
        requires
            self.wf(),
            !self.locked(),
        ensures
            r == self.contents(),
    {
        self.value.unwrap()
    }

    /// Get a mutable reference to the inner value. Holding a mutable
    /// reference to the whole lock rules out any live guard, so the
    /// flag is bypassed.
    pub fn get_mut(&mut self) -> (r: &mut T)
        requires
            old(self).wf(),
            !old(self).locked(),
        ensures
            *r == old(self).contents(),
            final(self).wf(),
            !final(self).locked(),
            final(self).contents() == *final(r),
    {
        match &mut self.value {
            Some(v) => v,
            None => vstd::pervasive::unreached(),
        }
    }

    /// Try to lock the `Mutex`. Returns `None` exactly when the lock is
    /// already held; on success the guard carries the protected value.
    pub fn try_lock(&mut self) -> (r: Option<MutexGuard<T>>)
        requires
            old(self).wf(),
        ensures
            final(self).wf(),
            r is Some <==> old(self).can_lock(),
            r matches Some(g) ==> Self::acquired(*old(self), *final(self), g),
            r is None ==> *final(self) == *old(self),
    {
        if self.state {
            None
        } else {
            self.state = true;
            let v = self.value.take();
            Some(MutexGuard { value: v.unwrap() })
        }
    }

    /// Lock the `Mutex`. The checked state machine treats contention on
    /// this entry point as a programming error, so a caller must hold
    /// the lock free.
    pub fn lock(&mut self) -> (g: MutexGuard<T>)
        requires
            old(self).wf(),
            old(self).can_lock(),
        ensures
            final(self).wf(),
            Self::acquired(*old(self), *final(self), g),
    {
        self.try_lock().unwrap()
    }

    /// Release the lock, consuming the guard: the reverse transition of
    /// the acquisition step.
    pub fn unlock_exclusive(&mut self, guard: MutexGuard<T>)
        requires
            old(self).wf(),
            old(self).locked(),
        ensures
            final(self).wf(),
            Self::released(*old(self), *final(self), guard),
    {
        self.state = false;
        self.value = Some(guard.value);
    }

    /// Mutual exclusion: once an acquisition has succeeded, no further
    /// acquisition can succeed until the guard is given back.
    pub proof fn lemma_mutual_exclusion(pre: Self, post: Self, g: MutexGuard<T>)
        requires
            Self::acquired(pre, post, g),
        ensures
            !post.can_lock(),
    {
    }

    /// Release enables re-acquisition: after a guard is given back, an
    /// acquisition attempt on the same cell succeeds again.
    pub proof fn lemma_release_enables_reacquisition(pre: Self, post: Self, g: MutexGuard<T>)
        requires
            Self::released(pre, post, g),
        ensures
            post.can_lock(),
    {
    }

    /// Acquiring and then releasing with the guard that the acquisition
    /// produced restores the cell exactly as it began.
    pub proof fn lemma_acquire_release_round_trip(s0: Self, s1: Self, s2: Self, g: MutexGuard<T>)
        requires
            Self::acquired(s0, s1, g),
            Self::released(s1, s2, g),
        ensures
            s2 == s0,
    {
    }
}

impl<T> From<T> for Mutex<T> {
    /// Wrap a value in a fresh, unlocked `Mutex`.
    fn from(val: T) -> (m: Mutex<T>)
        ensures
            m.wf(),
            !m.locked(),
            m.contents() == val,
    {
        Mutex::new(val)
    }
}

impl<T> vstd::std_specs::convert::FromSpecImpl<T> for Mutex<T> {
    open spec fn obeys_from_spec() -> bool {
        true
    }

    closed spec fn from_spec(val: T) -> Mutex<T> {
        Mutex { state: false, value: Some(val) }
    }
}

impl<T: Default> Default for Mutex<T> {
    /// A fresh, unlocked `Mutex` around the default value of the
    /// protected type.
    fn default() -> (m: Mutex<T>)
        ensures
            m.wf(),
            !m.locked(),
    {
        Mutex::new(T::default())
    }
}

} // verus!
