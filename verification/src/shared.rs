//! A byte buffer of fixed length behind a reader-writer lock.
//!
//! The lock never leaves this module, and its guards hand out slices only, so
//! nothing can change how many bytes the buffer has.

use parking_lot::{RawRwLock, RwLock, RwLockReadGuard, RwLockWriteGuard};
use vstd::prelude::*;

use crate::error::DynamicImageError;

verus! {

/// Declares `parking_lot::RawRwLock`, the lock under a `parking_lot::RwLock`.
#[verifier::external_type_specification]
#[verifier::external_body]
pub struct ExRawRwLock(RawRwLock);

/// Declares the lock that `parking_lot::RwLock` abbreviates.
#[verifier::external_type_specification]
#[verifier::external_body]
#[verifier::reject_recursive_types(R)]
#[verifier::reject_recursive_types(T)]
pub struct ExRwLock<R, T: ?Sized>(parking_lot::lock_api::RwLock<R, T>);

/// Shared access to a locked vector, held until the value is dropped.
#[verifier::external_body]
pub struct ReadGuard<'a> {
    guard: RwLockReadGuard<'a, Vec<u8>>,
}

/// Exclusive access to a locked vector, held until the value is dropped.
#[verifier::external_body]
pub struct WriteGuard<'a> {
    guard: RwLockWriteGuard<'a, Vec<u8>>,
}

/// What the vector under a lock holds while nobody has exclusive access, in the
/// life of the lock: first what the lock was made with, then what each exclusive
/// access leaves, in the order in which they end.
pub uninterp spec fn lock_history(lock: RwLock<Vec<u8>>) -> Seq<Seq<u8>>;

/// The length of the vector that a lock was made with.
pub uninterp spec fn lock_len(lock: RwLock<Vec<u8>>) -> nat;

/// What the locked vector holds while shared access lasts.
pub uninterp spec fn read_bytes(guard: ReadGuard) -> Seq<u8>;

/// How many exclusive accesses had ended when shared access was given.
pub uninterp spec fn read_turn(guard: ReadGuard) -> nat;

/// What the locked vector holds under exclusive access.
pub uninterp spec fn write_bytes(guard: WriteGuard) -> Seq<u8>;

/// How many exclusive accesses had ended when this one was given.
pub uninterp spec fn write_turn(guard: WriteGuard) -> nat;

/// The history of the lock that gave exclusive access.
pub uninterp spec fn write_history(guard: WriteGuard) -> Seq<Seq<u8>>;

/// `parking_lot::RwLock::new`: makes an unlocked lock around the vector. Its history
/// begins with the vector's bytes, and their number is the length it was made with.
#[verifier::external_body]
fn make_lock(data: Vec<u8>) -> (r: RwLock<Vec<u8>>)
    ensures
        lock_history(r).len() > 0,
        lock_history(r)[0] == data@,
        lock_len(r) == data@.len(),
{
    RwLock::new(data)
}

/// `parking_lot::RwLock::read`: waits until no thread has exclusive access and
/// gives shared access, under which the vector stays as the last exclusive access
/// left it. Which one that was depends on the threads that wrote before. The number
/// of bytes is that with which the lock was made, for no guard of this module can
/// change it. A thread that has access already may wait forever.
#[verifier::external_body]
fn lock_read<'a>(lock: &'a RwLock<Vec<u8>>) -> (r: ReadGuard<'a>)
    ensures
        read_turn(r) < lock_history(*lock).len(),
        read_bytes(r) == lock_history(*lock)[read_turn(r) as int],
        read_bytes(r).len() == lock_len(*lock),
{
    ReadGuard { guard: lock.read() }
}

/// `parking_lot::RwLock::write`: waits until no other thread has access and gives
/// exclusive access to the vector as the last exclusive access left it. Which one
/// that was depends on the threads that wrote before. The number of bytes is that
/// with which the lock was made, for no guard of this module can change it. A thread
/// that has access already waits forever.
#[verifier::external_body]
fn lock_write<'a>(lock: &'a RwLock<Vec<u8>>) -> (r: WriteGuard<'a>)
    ensures
        write_turn(r) < lock_history(*lock).len(),
        write_bytes(r) == lock_history(*lock)[write_turn(r) as int],
        write_bytes(r).len() == lock_len(*lock),
        write_history(r) == lock_history(*lock),
{
    WriteGuard { guard: lock.write() }
}

/// `parking_lot::RwLockWriteGuard::rwlock`, after which the guard is dropped: ends
/// exclusive access and gives back the lock. What the vector holds then is what the
/// access leaves, the next entry of the lock's history.
#[verifier::external_body]
fn release<'a>(guard: WriteGuard<'a>) -> (r: &'a RwLock<Vec<u8>>)
    ensures
        lock_history(*r) == write_history(guard),
        write_turn(guard) + 1 < lock_history(*r).len(),
        lock_history(*r)[write_turn(guard) as int + 1] == write_bytes(guard),
{
    RwLockWriteGuard::rwlock(&guard.guard)
}

/// `Deref` of `parking_lot::RwLockReadGuard`: the bytes under shared access.
#[verifier::external_body]
fn read_slice<'a>(guard: &'a ReadGuard<'_>) -> (r: &'a [u8])
    ensures
        r@ == read_bytes(*guard),
{
    guard.guard.as_slice()
}

/// `DerefMut` of `parking_lot::RwLockWriteGuard`: the bytes under exclusive
/// access. It is the same access to the same lock when the borrow ends.
#[verifier::external_body]
fn write_slice<'a>(guard: &'a mut WriteGuard<'_>) -> (r: &'a mut [u8])
    ensures
        r@ == write_bytes(*old(guard)),
        final(r)@ == write_bytes(*final(guard)),
        write_turn(*final(guard)) == write_turn(*old(guard)),
        write_history(*final(guard)) == write_history(*old(guard)),
{
    guard.guard.as_mut_slice()
}

impl<'a> View for ReadGuard<'a> {
    type V = Seq<u8>;

    open spec fn view(&self) -> Seq<u8> {
        read_bytes(*self)
    }
}

impl<'a> ReadGuard<'a> {
    /// How many updates had ended when the bytes were read.
    pub open spec fn turn(&self) -> nat {
        read_turn(*self)
    }

    /// The bytes of the buffer.
    pub fn as_slice(&self) -> (r: &[u8])
        ensures
            r@ == self@,
    {
        read_slice(self)
    }
}

impl<'a> WriteGuard<'a> {
    /// Overwrites the bytes under exclusive access, if the new ones are as many.
    /// Otherwise they are left as they are, and the error gives both lengths.
    pub fn overwrite(&mut self, new_data: &[u8]) -> (r: Result<(), DynamicImageError>)
        ensures
            r == overwrite_result(write_bytes(*old(self)).len(), new_data@),
            r is Ok <==> write_bytes(*old(self)).len() == new_data@.len(),
            r is Ok ==> write_bytes(*final(self)) == new_data@,
            r is Err ==> write_bytes(*final(self)) == write_bytes(*old(self)),
            write_turn(*final(self)) == write_turn(*old(self)),
            write_history(*final(self)) == write_history(*old(self)),
    {
        overwrite(write_slice(self), new_data)
    }
}

/// A buffer whose bytes can be replaced while it is shared, but not their number.
#[derive(Debug)]
pub struct SharedBuffer {
    lock: RwLock<Vec<u8>>,
}

impl SharedBuffer {
    /// How many bytes the buffer has.
    pub closed spec fn spec_len(&self) -> nat {
        lock_len(self.lock)
    }

    /// What the buffer holds between updates in its life: first the bytes that it
    /// was made with, then what each update leaves, in order.
    pub closed spec fn history(&self) -> Seq<Seq<u8>> {
        lock_history(self.lock)
    }

    /// A buffer with these bytes.
    pub fn new(data: Vec<u8>) -> (r: Self)
        ensures
            r.spec_len() == data@.len(),
            r.history().len() > 0,
            r.history()[0] == data@,
    {
        SharedBuffer { lock: make_lock(data) }
    }

    /// Reads the bytes that the buffer holds now; they stay until the guard is
    /// dropped.
    pub fn read(&self) -> (r: ReadGuard<'_>)
        ensures
            r.turn() < self.history().len(),
            r@ == self.history()[r.turn() as int],
            r@.len() == self.spec_len(),
    {
        lock_read(&self.lock)
    }

    /// Replaces the bytes of the buffer, if the new ones are as many. Otherwise the
    /// buffer is left as it is found.
    pub fn replace(&self, new_data: &[u8]) -> (r: Result<(), DynamicImageError>)
        ensures
            r == overwrite_result(self.spec_len(), new_data@),
            r is Ok <==> self.spec_len() == new_data@.len(),
            exists|turn: int| is_update(self.spec_len(), self.history(), turn, new_data@),
    {
        let mut guard = lock_write(&self.lock);
        let ghost turn = write_turn(guard) as int;
        let result = guard.overwrite(new_data);
        release(guard);
        assert(is_update(self.spec_len(), self.history(), turn, new_data@));
        result
    }
}

/// Whether the update at `turn` in the history of a buffer of `len` bytes is one
/// with `new_data`: it finds what the one before it left, and leaves the new bytes
/// if they are as many, or else what it found.
pub open spec fn is_update(
    len: nat,
    history: Seq<Seq<u8>>,
    turn: int,
    new_data: Seq<u8>,
) -> bool {
    &&& 0 <= turn && turn + 1 < history.len()
    &&& history[turn].len() == len
    &&& history[turn + 1] == if new_data.len() == len {
        new_data
    } else {
        history[turn]
    }
}

/// What comes of overwriting a buffer of `len` bytes with `new_data`.
pub open spec fn overwrite_result(len: nat, new_data: Seq<u8>) -> Result<(), DynamicImageError> {
    if len == new_data.len() {
        Ok(())
    } else {
        Err(DynamicImageError::SizeMismatch { expected: len as usize, actual: new_data.len() as usize })
    }
}

/// Bytes replace others exactly when they are as many, and else both numbers are
/// told, each under its name.
pub proof fn law_only_equal_lengths_are_replaced(len: usize, new_data: Seq<u8>)
    requires
        new_data.len() <= usize::MAX,
    ensures
        overwrite_result(len as nat, new_data) is Ok <==> new_data.len() == len,
        overwrite_result(len as nat, new_data) matches Err(error) ==> {
            &&& error is SizeMismatch
            &&& error->expected == len
            &&& error->actual == new_data.len()
        },
{
}

/// Overwrites a buffer with `new_data`. A buffer of another length is left as it
/// is, and the error gives both lengths.
pub fn overwrite(buffer: &mut [u8], new_data: &[u8]) -> (r: Result<(), DynamicImageError>)
    ensures
        r == overwrite_result(old(buffer)@.len(), new_data@),
        r is Ok <==> old(buffer)@.len() == new_data@.len(),
        r is Ok ==> final(buffer)@ == new_data@,
        r is Err ==> final(buffer)@ == old(buffer)@,
{
    if buffer.len() != new_data.len() {
        return Err(
            DynamicImageError::SizeMismatch { expected: buffer.len(), actual: new_data.len() },
        );
    }
    let mut i: usize = 0;
    while i < new_data.len()
        invariant
            i <= new_data@.len(),
            buffer@.len() == new_data@.len(),
            forall|k: int| 0 <= k < i ==> buffer@[k] == new_data@[k],
        decreases new_data@.len() - i,
    {
        buffer[i] = new_data[i];
        i += 1;
    }
    assert(buffer@ =~= new_data@);
    Ok(())
}

} // verus!
