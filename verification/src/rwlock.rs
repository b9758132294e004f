use vstd::prelude::*;
use vstd::arithmetic::div_mod::lemma_div_multiples_vanish;
use vstd::arithmetic::div_mod::lemma_fundamental_div_mod;
use vstd::arithmetic::div_mod::lemma_mod_bound;
use vstd::arithmetic::div_mod::lemma_mod_multiples_basic;

verus! {

/// The bit of the state word that records an exclusive (writer) holder.
pub const WRITER_BIT: usize = 0b1000;

/// The quantum the state word grows by for each shared (reader) holder:
/// the reader count occupies the bits above the writer bit.
pub const ONE_READER: usize = 0b10000;

/// The largest number of shared holders the state word can record; one
/// more would overflow the word.
pub open spec fn max_readers() -> int {
    usize::MAX as int / ONE_READER as int
}

/// A reader/writer lock that never blocks: an acquisition attempt
/// either succeeds at once or is refused at once.
///
/// The whole state machine is one unsigned word: zero means unlocked,
/// [`WRITER_BIT`] alone means exclusively locked, and a multiple of
/// [`ONE_READER`] means that many shared holders. While a writer is
/// out, the protected value lives in the write guard, so
/// well-formedness ties the word to the presence of the value.
#[derive(Debug)]
pub struct RwLock<T> {
    state: usize,
    value: Option<T>,
}

/// A handle produced by a successful exclusive acquisition of a
/// [`RwLock`]. The guard owns the protected value while the lock is
/// held; giving it back through [`RwLock::unlock_exclusive`] returns
/// the value to the cell and clears the writer bit.
pub struct RwLockWriteGuard<T> {
    value: T,
}

/// A handle produced by a successful shared acquisition of a
/// [`RwLock`]. It witnesses one unit of the reader count; the value is
/// read through [`RwLock::read_ref`], and the guard is given back
/// through [`RwLock::unlock_shared`].
pub struct RwLockReadGuard {
    token: (),
}

impl<T> RwLockWriteGuard<T> {
    /// The value the guard protects.
    pub closed spec fn contents(self) -> T {
        self.value
    }

    /// Read the protected value through the guard.
    pub fn get(&self) -> (r: &T)
        ensures
            *r == self.contents(),
    {
        &self.value
    }

    /// Write the protected value through the guard.
    pub fn get_mut(&mut self) -> (r: &mut T)
        ensures
            *r == old(self).contents(),
            final(self).contents() == *final(r),
    {
        &mut self.value
    }
}

impl<T> RwLock<T> {
    /// The packed state word: writer bit plus reader count.
    pub closed spec fn state_word(self) -> usize {
        self.state
    }

    /// Whether an exclusive holder is present.
    pub closed spec fn writer_locked(self) -> bool {
        self.state == WRITER_BIT
    }

    /// The number of shared holders.
    pub closed spec fn readers(self) -> int {
        self.state as int / ONE_READER as int
    }

    /// The value stored in the cell; meaningful only while no exclusive
    /// holder is present (a writer's value lives in its guard).
    pub closed spec fn contents(self) -> T {
        self.value->0
    }

    /// Well-formedness: the word is either exactly the writer bit or a
    /// whole number of reader increments, and the value is out in a
    /// guard exactly while the writer bit is set.
    pub closed spec fn wf(self) -> bool {
        &&& (self.state == WRITER_BIT || self.state as int % ONE_READER as int == 0)
        &&& (self.value is None <==> self.state == WRITER_BIT)
    }

    /// An exclusive acquisition succeeds exactly on an entirely idle
    /// lock: no writer and no reader.
    pub open spec fn can_write(self) -> bool {
        !self.writer_locked() && self.readers() == 0
    }

    /// A shared acquisition succeeds exactly while no writer is
    /// present; existing readers do not hinder it.
    pub open spec fn can_read(self) -> bool {
        !self.writer_locked()
    }

    /// One successful exclusive acquisition step: `post` is `pre` with
    /// the writer bit raised, and the guard carries the protected value
    /// away.
    pub open spec fn write_acquired(pre: Self, post: Self, g: RwLockWriteGuard<T>) -> bool {
        &&& pre.wf() && post.wf()
        &&& pre.can_write()
        &&& post.writer_locked()
        &&& g.contents() == pre.contents()
    }

    /// One exclusive release step: `post` is `pre` with the writer bit
    /// cleared and the guard's value put back.
    pub open spec fn write_released(pre: Self, post: Self, g: RwLockWriteGuard<T>) -> bool {
        &&& pre.wf() && post.wf()
        &&& pre.writer_locked()
        &&& !post.writer_locked()
        &&& post.readers() == 0
        &&& post.contents() == g.contents()
    }

    /// One successful shared acquisition step: the state word grows by
    /// one reader increment and the protected value stays in place.
    pub open spec fn read_acquired(pre: Self, post: Self) -> bool {
        &&& pre.wf() && post.wf()
        &&& pre.can_read()
        &&& post.state_word() == pre.state_word() + ONE_READER
        &&& post.contents() == pre.contents()
    }

    /// One shared release step: the state word shrinks by one reader
    /// increment and the protected value stays in place.
    pub open spec fn read_released(pre: Self, post: Self) -> bool {
        &&& pre.wf() && post.wf()
        &&& pre.readers() >= 1
        &&& post.state_word() == pre.state_word() - ONE_READER
        &&& post.contents() == pre.contents()
    }

    /// Create a new `RwLock`.
    pub fn new(val: T) -> (s: Self)
        ensures
            s.wf(),
            !s.writer_locked(),
            s.readers() == 0,
            s.state_word() == 0,
            s.contents() == val,
    {
        RwLock { state: 0, value: Some(val) }
    }

    /// Consume the `RwLock`, returning the inner value.
    pub fn into_inner(self) -> (r: T)
        requires
            self.wf(),
            !self.writer_locked(),
        ensures
            r == self.contents(),
    {
        self.value.unwrap()
    }

    /// Get a mutable reference to the inner value. Holding a mutable
    /// reference to the whole lock rules out any live guard, so the
    /// state word is bypassed.
    pub fn get_mut(&mut self) -> (r: &mut T)
        requires
            old(self).wf(),
            !old(self).writer_locked(),
        ensures
            *r == old(self).contents(),
            final(self).wf(),
            final(self).state_word() == old(self).state_word(),
            final(self).readers() == old(self).readers(),
            !final(self).writer_locked(),
            final(self).contents() == *final(r),
    {
        match &mut self.value {
            Some(v) => v,
            None => vstd::pervasive::unreached(),
        }
    }

    /// Try to write-lock the `RwLock`: a single compare of the whole
    /// word against zero. Returns `None` exactly when a writer or any
    /// reader is present; on success the guard carries the protected
    /// value.
    pub fn try_write(&mut self) -> (r: Option<RwLockWriteGuard<T>>)
        requires
            old(self).wf(),
        ensures
            final(self).wf(),
            r is Some <==> old(self).can_write(),
            r matches Some(g) ==> Self::write_acquired(*old(self), *final(self), g),
            r is None ==> *final(self) == *old(self),
    {
        if self.state == 0 {
            self.state = WRITER_BIT;
            let v = self.value.take();
            Some(RwLockWriteGuard { value: v.unwrap() })
        } else {
            proof {
                if old(self).state != WRITER_BIT {
                    // a nonzero multiple of the reader increment means at least one reader
                    let s = old(self).state as int;
                    lemma_fundamental_div_mod(s, ONE_READER as int);
                    assert(s == ONE_READER * (s / ONE_READER as int));
                    assert(old(self).readers() >= 1);
                }
            }
            None
        }
    }

    /// Write-lock the `RwLock`. The checked state machine treats
    /// contention on this entry point as a programming error, so a
    /// caller must hold the lock idle.
    pub fn write(&mut self) -> (g: RwLockWriteGuard<T>)
        requires
            old(self).wf(),
            old(self).can_write(),
        ensures
            final(self).wf(),
            Self::write_acquired(*old(self), *final(self), g),
    {
        self.try_write().unwrap()
    }

    /// Release the exclusive lock, consuming the write guard: the word
    /// returns to all-zero and the guard's value goes back in the cell.
    pub fn unlock_exclusive(&mut self, guard: RwLockWriteGuard<T>)
        requires
            old(self).wf(),
            old(self).writer_locked(),
        ensures
            final(self).wf(),
            Self::write_released(*old(self), *final(self), guard),
            final(self).state_word() == 0,
            final(self).can_write(),
            final(self).can_read(),
    {
        self.state = 0;
        self.value = Some(guard.value);
    }

    /// Try to read-lock the `RwLock`. A set writer bit refuses the
    /// attempt outright; otherwise the word grows by one reader
    /// increment. A full reader field cannot take one more reader, so a
    /// caller must keep below [`max_readers`].
    pub fn try_read(&mut self) -> (r: Option<RwLockReadGuard>)
        requires
            old(self).wf(),
            old(self).readers() < max_readers(),
        ensures
            final(self).wf(),
            r is Some <==> old(self).can_read(),
            r is Some ==> Self::read_acquired(*old(self), *final(self)),
            r is Some ==> final(self).readers() == old(self).readers() + 1,
            r is Some ==> final(self).can_read(),
            r is None ==> *final(self) == *old(self),
    {
        let s = self.state;
        if s & WRITER_BIT != 0 {
            proof {
                // under well-formedness, only the writer word has the writer bit set
                if s != WRITER_BIT {
                    assert(s & 0b1000usize == 0usize) by (bit_vector)
                        requires
                            s % 0b10000usize == 0usize,
                    ;
                }
            }
            None
        } else {
            proof {
                assert(s != WRITER_BIT) by {
                    assert(0b1000usize & 0b1000usize == 0b1000usize) by (bit_vector);
                }
                let si = s as int;
                let one = ONE_READER as int;
                let k = si / one;
                lemma_fundamental_div_mod(si, one);
                assert(si == one * k);
                // the reader field has room, so the increment cannot overflow the word
                let m = usize::MAX as int;
                lemma_fundamental_div_mod(m, one);
                lemma_mod_bound(m, one);
                assert(si + one <= m);
                // the grown word is the next multiple of the increment
                lemma_div_multiples_vanish(k + 1, one);
                lemma_mod_multiples_basic(k + 1, one);
                assert((si + one) / one == k + 1);
                assert((si + one) % one == 0);
            }
            let ns = s + ONE_READER;
            self.state = ns;
            Some(RwLockReadGuard { token: () })
        }
    }

    /// Read-lock the `RwLock`. The checked state machine treats a
    /// present writer as a programming error on this entry point, so a
    /// caller must hold the writer bit clear.
    pub fn read(&mut self) -> (g: RwLockReadGuard)
        requires
            old(self).wf(),
            old(self).can_read(),
            old(self).readers() < max_readers(),
        ensures
            final(self).wf(),
            Self::read_acquired(*old(self), *final(self)),
            final(self).readers() == old(self).readers() + 1,
            final(self).can_read(),
    {
        self.try_read().unwrap()
    }

    /// Read the protected value through a read guard.
    pub fn read_ref(&self, guard: &RwLockReadGuard) -> (r: &T)
        requires
            self.wf(),
            self.readers() >= 1,
        ensures
            *r == self.contents(),
    {
        match &self.value {
            Some(v) => v,
            None => vstd::pervasive::unreached(),
        }
    }

    /// Release one shared hold, consuming the read guard: the word
    /// shrinks by one reader increment.
    pub fn unlock_shared(&mut self, guard: RwLockReadGuard)
        requires
            old(self).wf(),
            old(self).readers() >= 1,
        ensures
            final(self).wf(),
            Self::read_released(*old(self), *final(self)),
            final(self).readers() == old(self).readers() - 1,
            final(self).can_read(),
    {
        proof {
            let s = old(self).state as int;
            let one = ONE_READER as int;
            let k = s / one;
            lemma_fundamental_div_mod(s, one);
            assert(s == one * k);
            // a full increment can leave the word without underflow
            assert(s >= one);
            // the shrunken word is the previous multiple of the increment
            lemma_div_multiples_vanish(k - 1, one);
            lemma_mod_multiples_basic(k - 1, one);
            assert((s - one) / one == k - 1);
            assert((s - one) % one == 0);
        }
        self.state = self.state - ONE_READER;
    }

    /// A well-formed lock whose word is not the writer word holds no
    /// writer and records a non-negative whole number of readers.
    proof fn lemma_reader_word(self)
        requires
            self.wf(),
            !self.writer_locked(),
        ensures
            self.state_word() == ONE_READER * self.readers(),
            self.readers() >= 0,
    {
        lemma_fundamental_div_mod(self.state_word() as int, ONE_READER as int);
    }

    /// Two well-formed locks with the same non-writer word and the same
    /// contents are the same lock state.
    proof fn lemma_word_determines_state(a: Self, b: Self)
        requires
            a.wf(),
            b.wf(),
            !a.writer_locked(),
            a.state_word() == b.state_word(),
            a.contents() == b.contents(),
        ensures
            a == b,
    {
        assert(a.value == Some(a.contents()));
        assert(b.value == Some(b.contents()));
    }

    /// Mutual exclusion of the writer: once an exclusive acquisition
    /// has succeeded, neither a further exclusive nor a shared
    /// acquisition can succeed until the write guard is given back.
    pub proof fn lemma_write_excludes_all(pre: Self, post: Self, g: RwLockWriteGuard<T>)
        requires
            Self::write_acquired(pre, post, g),
        ensures
            !post.can_write(),
            !post.can_read(),
    {
    }

    /// A live reader excludes the writer but admits further readers:
    /// after one successful shared acquisition, an exclusive attempt
    /// cannot succeed, while another shared attempt still can.
    pub proof fn lemma_read_excludes_write(pre: Self, post: Self)
        requires
            Self::read_acquired(pre, post),
        ensures
            !post.can_write(),
            post.can_read(),
            post.readers() == pre.readers() + 1,
            post.readers() >= 1,
    {
        pre.lemma_reader_word();
        let one = ONE_READER as int;
        lemma_div_multiples_vanish(pre.readers() + 1, one);
        lemma_mod_multiples_basic(pre.readers() + 1, one);
    }

    /// Releasing the writer reopens the lock for both kinds of
    /// acquisition.
    pub proof fn lemma_write_release_enables_reacquisition(
        pre: Self,
        post: Self,
        g: RwLockWriteGuard<T>,
    )
        requires
            Self::write_released(pre, post, g),
        ensures
            post.can_write(),
            post.can_read(),
    {
    }

    /// Releasing the last reader reopens the lock for the writer.
    pub proof fn lemma_last_read_release_enables_write(pre: Self, post: Self)
        requires
            Self::read_released(pre, post),
            pre.readers() == 1,
        ensures
            post.can_write(),
            post.can_read(),
            post.state_word() == 0,
    {
        pre.lemma_reader_word();
    }

    /// Shared holders coexist: after two successful shared acquisitions
    /// on the same lock, giving back one of the two guards still leaves
    /// the other's hold recorded, and further readers stay welcome.
    pub proof fn lemma_shared_shared_compatible(s0: Self, s1: Self, s2: Self, s3: Self)
        requires
            Self::read_acquired(s0, s1),
            Self::read_acquired(s1, s2),
            Self::read_released(s2, s3),
        ensures
            s3.readers() == s0.readers() + 1,
            s3.readers() >= 1,
            s3.can_read(),
            s3.contents() == s0.contents(),
    {
        Self::lemma_read_excludes_write(s0, s1);
        Self::lemma_read_excludes_write(s1, s2);
        s0.lemma_reader_word();
        let one = ONE_READER as int;
        lemma_div_multiples_vanish(s0.readers() + 1, one);
        lemma_mod_multiples_basic(s0.readers() + 1, one);
    }

    /// Acquiring and then releasing the exclusive lock with the guard
    /// the acquisition produced restores the cell exactly as it began.
    pub proof fn lemma_write_release_round_trip(
        s0: Self,
        s1: Self,
        s2: Self,
        g: RwLockWriteGuard<T>,
    )
        requires
            Self::write_acquired(s0, s1, g),
            Self::write_released(s1, s2, g),
        ensures
            s2 == s0,
    {
        s0.lemma_reader_word();
        s2.lemma_reader_word();
        Self::lemma_word_determines_state(s0, s2);
    }

    /// A run of consecutive successful shared acquisitions.
    pub open spec fn read_acquire_chain(tr: Seq<Self>) -> bool {
        forall|i: int|
            0 <= i < tr.len() - 1 ==> #[trigger] Self::read_acquired(tr[i], tr[i + 1])
    }

    /// A run of consecutive shared releases.
    pub open spec fn read_release_chain(tr: Seq<Self>) -> bool {
        forall|i: int|
            0 <= i < tr.len() - 1 ==> #[trigger] Self::read_released(tr[i], tr[i + 1])
    }

    proof fn lemma_acquire_chain_effect(tr: Seq<Self>)
        requires
            tr.len() >= 1,
            Self::read_acquire_chain(tr),
        ensures
            tr.last().state_word() == tr[0].state_word() + (tr.len() - 1) * (ONE_READER as int),
            tr.last().contents() == tr[0].contents(),
            tr.len() >= 2 ==> tr.last().wf(),
        decreases tr.len(),
    {
        if tr.len() >= 2 {
            let prefix = tr.drop_last();
            assert(Self::read_acquire_chain(prefix)) by {
                assert forall|i: int|
                    0 <= i < prefix.len() - 1 implies #[trigger] Self::read_acquired(
                    prefix[i],
                    prefix[i + 1],
                ) by {
                    assert(Self::read_acquired(tr[i], tr[i + 1]));
                }
            }
            Self::lemma_acquire_chain_effect(prefix);
            let i = tr.len() as int - 2;
            assert(Self::read_acquired(tr[i], tr[i + 1]));
            assert(tr[i + 1] == tr.last());
            assert(tr[i] == prefix.last());
        }
    }

    proof fn lemma_release_chain_effect(tr: Seq<Self>)
        requires
            tr.len() >= 1,
            Self::read_release_chain(tr),
        ensures
            tr.last().state_word() == tr[0].state_word() - (tr.len() - 1) * (ONE_READER as int),
            tr.last().contents() == tr[0].contents(),
            tr.len() >= 2 ==> tr.last().wf(),
        decreases tr.len(),
    {
        if tr.len() >= 2 {
            let prefix = tr.drop_last();
            assert(Self::read_release_chain(prefix)) by {
                assert forall|i: int|
                    0 <= i < prefix.len() - 1 implies #[trigger] Self::read_released(
                    prefix[i],
                    prefix[i + 1],
                ) by {
                    assert(Self::read_released(tr[i], tr[i + 1]));
                }
            }
            Self::lemma_release_chain_effect(prefix);
            let i = tr.len() as int - 2;
            assert(Self::read_released(tr[i], tr[i + 1]));
            assert(tr[i + 1] == tr.last());
            assert(tr[i] == prefix.last());
        }
    }

    /// Reader accounting balances: for any number N of successful
    /// shared acquisitions followed by N shared releases, the lock
    /// returns to exactly the state it began in; in particular, started
    /// with the all-zero word, it ends with the all-zero word.
    ///
    /// `up` is the run of states through the acquisitions, `down` the
    /// run through the releases, picking up where `up` ended.
    pub proof fn lemma_shared_balance(up: Seq<Self>, down: Seq<Self>)
        requires
            up.len() >= 1,
            down.len() == up.len(),
            up[0].wf(),
            Self::read_acquire_chain(up),
            Self::read_release_chain(down),
            down[0] == up.last(),
        ensures
            down.last() == up[0],
    {
        if up.len() == 1 {
            assert(down.last() == down[0]);
        } else {
            Self::lemma_acquire_chain_effect(up);
            Self::lemma_release_chain_effect(down);
            let j: int = 0;
            assert(Self::read_acquired(up[j], up[j + 1]));
            Self::lemma_word_determines_state(up[0], down.last());
        }
    }
}

impl<T> From<T> for RwLock<T> {
    /// Wrap a value in a fresh, idle `RwLock`.
    fn from(val: T) -> (s: RwLock<T>)
        ensures
            s.wf(),
            s.state_word() == 0,
            s.contents() == val,
    {
        RwLock::new(val)
    }
}

impl<T> vstd::std_specs::convert::FromSpecImpl<T> for RwLock<T> {
    open spec fn obeys_from_spec() -> bool {
        true
    }

    closed spec fn from_spec(val: T) -> RwLock<T> {
        RwLock { state: 0, value: Some(val) }
    }
}

impl<T: Default> Default for RwLock<T> {
    /// A fresh, idle `RwLock` around the default value of the
    /// protected type.
    fn default() -> (s: RwLock<T>)
        ensures
            s.wf(),
            s.state_word() == 0,
    {
        RwLock::new(T::default())
    }
}

} // verus!
