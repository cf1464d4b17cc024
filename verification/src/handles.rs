use vstd::prelude::*;

use crate::errors::{ProtocolError, SignalJniError};

verus! {

/// An opaque handle passed across the boundary in place of a native
/// reference; `0` is the reserved null sentinel and never denotes an object.
pub type ObjectHandle = i64;

/// An owning registry of native objects keyed by opaque handles. A handle is
/// the successor of the slot it was allocated in, so it is never `0`, and a
/// slot is never reallocated once its object has been destroyed.
pub struct HandleRegistry<T> {
    slots: Vec<Option<T>>,
}

impl<T> View for HandleRegistry<T> {
    type V = Map<int, T>;

    /// The registry as the map from each live handle to the object it owns.
    closed spec fn view(&self) -> Map<int, T> {
        Map::new(
            |h: int| 1 <= h <= self.slots@.len() && self.slots@[h - 1] is Some,
            |h: int| self.slots@[h - 1]->0,
        )
    }
}

impl<T> HandleRegistry<T> {
    /// How many handles were ever created; a machine bound on further creation.
    pub closed spec fn slot_count(&self) -> nat {
        self.slots@.len()
    }

    pub fn new() -> (r: Self)
        ensures
            r@ == Map::<int, T>::empty(),
            r.slot_count() == 0,
    {
        let r = HandleRegistry { slots: Vec::new() };
        proof {
            assert(r@ =~= Map::<int, T>::empty());
        }
        r
    }

    /// Whether another object can still be registered without exhausting the
    /// handle space.
    pub fn has_capacity(&self) -> (r: bool)
        ensures
            r == (self.slot_count() < 0x7fff_ffff_ffff_ffff),
    {
        (self.slots.len() as u64) < 0x7fff_ffff_ffff_ffffu64
    }

    /// Moves ownership of a freshly constructed object into the registry and
    /// returns the new, non-zero handle that now denotes it.
    pub fn create_handle(&mut self, obj: T) -> (h: ObjectHandle)
        requires
            old(self).slot_count() < 0x7fff_ffff_ffff_ffff,
        ensures
            h != 0,
            !old(self)@.contains_key(h as int),
            final(self)@ == old(self)@.insert(h as int, obj),
            final(self).slot_count() == old(self).slot_count() + 1,
    {
        self.slots.push(Some(obj));
        let h = self.slots.len() as i64;
        proof {
            assert(self@ =~= old(self)@.insert(h as int, obj));
        }
        h
    }

    /// Registers the object of a successful native construction and returns
    /// its handle; a delegated failure passes through unchanged and the
    /// registry is untouched.
    pub fn box_object(&mut self, t: Result<T, ProtocolError>) -> (r: Result<
        ObjectHandle,
        SignalJniError,
    >)
        requires
            old(self).slot_count() < 0x7fff_ffff_ffff_ffff,
        ensures
            t matches Ok(obj) ==> (r matches Ok(h) && h != 0 && !old(self)@.contains_key(h as int)
                && final(self)@ == old(self)@.insert(h as int, obj)),
            t matches Err(e) ==> (r == Err::<ObjectHandle, SignalJniError>(
                SignalJniError::Signal(e),
            ) && *final(self) == *old(self)),
            final(self).slot_count() <= old(self).slot_count() + 1,
    {
        match t {
            Ok(obj) => Ok(self.create_handle(obj)),
            Err(e) => Err(SignalJniError::Signal(e)),
        }
    }

    /// Registers an optional construction result: absence is a first-class
    /// outcome and yields the null handle rather than an error.
    pub fn box_optional_object(&mut self, t: Result<Option<T>, ProtocolError>) -> (r: Result<
        ObjectHandle,
        SignalJniError,
    >)
        requires
            old(self).slot_count() < 0x7fff_ffff_ffff_ffff,
        ensures
            t matches Ok(Some(obj)) ==> (r matches Ok(h) && h != 0 && !old(
                self,
            )@.contains_key(h as int) && final(self)@ == old(self)@.insert(h as int, obj)),
            t matches Ok(None) ==> (r == Ok::<ObjectHandle, SignalJniError>(0) && *final(self)
                == *old(self)),
            t matches Err(e) ==> (r == Err::<ObjectHandle, SignalJniError>(
                SignalJniError::Signal(e),
            ) && *final(self) == *old(self)),
    {
        match t {
            Ok(Some(obj)) => Ok(self.create_handle(obj)),
            Ok(None) => Ok(0),
            Err(e) => Err(SignalJniError::Signal(e)),
        }
    }

    /// Whether a handle currently denotes a live object of this registry.
    pub fn is_live(&self, handle: ObjectHandle) -> (r: bool)
        ensures
            r == (handle != 0 && self@.contains_key(handle as int)),
    {
        if handle < 1 {
            return false;
        }
        if ((handle - 1) as u64) >= (self.slots.len() as u64) {
            return false;
        }
        proof {
            vstd::std_specs::vec::axiom_spec_len(&self.slots);
        }
        let idx = (handle - 1) as usize;
        self.slots[idx].is_some()
    }

    /// Resolves a handle to the object it denotes. The null handle is
    /// rejected with `NullHandle`; any other handle must be a live one,
    /// which is the caller's obligation.
    pub fn native_handle_cast(&self, handle: ObjectHandle) -> (r: Result<&T, SignalJniError>)
        requires
            handle == 0 || self@.contains_key(handle as int),
        ensures
            handle == 0 ==> (r matches Err(e) && e == SignalJniError::NullHandle),
            handle != 0 ==> (r matches Ok(obj) && *obj == self@[handle as int]),
    {
        if handle == 0 {
            return Err(SignalJniError::NullHandle);
        }
        proof {
            vstd::std_specs::vec::axiom_spec_len(&self.slots);
            assert(self@.dom().contains(handle as int));
            assert(1 <= handle as int && handle as int <= self.slots@.len());
            assert(self.slots@[handle as int - 1] is Some);
        }
        let idx = (handle - 1) as usize;
        if let Some(t) = &self.slots[idx] {
            Ok(t)
        } else {
            proof {
                assert(false);
            }
            Err(SignalJniError::NullHandle)
        }
    }

    /// Resolves a handle where absence is a valid domain state: the null
    /// handle yields "no object" rather than an error, and never raises.
    pub fn native_handle_cast_optional(&self, handle: ObjectHandle) -> (r: Result<
        Option<&T>,
        SignalJniError,
    >)
        requires
            handle == 0 || self@.contains_key(handle as int),
        ensures
            handle == 0 ==> (r matches Ok(o) && o is None),
            handle != 0 ==> (r matches Ok(o) && o matches Some(obj) && *obj == self@[handle as int]),
    {
        if handle == 0 {
            return Ok(None);
        }
        proof {
            vstd::std_specs::vec::axiom_spec_len(&self.slots);
            assert(self@.dom().contains(handle as int));
            assert(1 <= handle as int && handle as int <= self.slots@.len());
            assert(self.slots@[handle as int - 1] is Some);
        }
        let idx = (handle - 1) as usize;
        if let Some(t) = &self.slots[idx] {
            Ok(Some(t))
        } else {
            proof {
                assert(false);
            }
            Ok(None)
        }
    }

    /// Reclaims the object a handle denotes; a no-op on the null handle.
    /// The handle's slot is never handed out again.
    pub fn destroy_handle(&mut self, handle: ObjectHandle)
        requires
            handle == 0 || old(self)@.contains_key(handle as int),
        ensures
            handle == 0 ==> final(self)@ == old(self)@,
            handle != 0 ==> final(self)@ == old(self)@.remove(handle as int),
            final(self).slot_count() == old(self).slot_count(),
    {
        if handle != 0 {
            proof {
                vstd::std_specs::vec::axiom_spec_len(&self.slots);
                assert(old(self)@.dom().contains(handle as int));
                assert(1 <= handle as int && handle as int <= self.slots@.len());
            }
            let idx = (handle - 1) as usize;
            self.slots[idx] = None;
            proof {
                assert(self@ =~= old(self)@.remove(handle as int));
            }
        }
    }
}

/// A live handle resolves to the same object until it is destroyed:
/// registering another object under a fresh handle, or destroying a
/// different handle, leaves its entry intact.
pub proof fn lemma_handle_stable<T>(m: Map<int, T>, h: int, other: int, obj: T)
    requires
        m.contains_key(h),
        other != h,
    ensures
        m.insert(other, obj).contains_key(h),
        m.insert(other, obj)[h] == m[h],
        m.remove(other).contains_key(h),
        m.remove(other)[h] == m[h],
{
}

} // verus!
