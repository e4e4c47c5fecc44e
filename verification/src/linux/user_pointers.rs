//! Pointers that programs hand over. Memory is accessed through those of the platform only.
use crate::platform::{RawConstPointer, RawMutPointer};
use core::marker::PhantomData;
use vstd::prelude::*;

verus! {

/// A pointer of a program, to be read through.
#[verifier::reject_recursive_types(T)]
pub struct UserPtr<T> {
    addr: usize,
    _phantom: PhantomData<T>,
}

impl<T> Clone for UserPtr<T> {
    fn clone(&self) -> (r: Self)
        ensures
            r == *self,
    {
        *self
    }
}

impl<T> Copy for UserPtr<T> {

}

impl<T> UserPtr<T> {
    /// The address.
    pub closed spec fn address(&self) -> usize {
        self.addr
    }

    /// A pointer to an address.
    pub fn from_usize(addr: usize) -> (r: Self)
        ensures
            r.address() == addr,
    {
        UserPtr { addr, _phantom: PhantomData }
    }

    /// The address.
    pub fn as_usize(&self) -> (r: usize)
        ensures
            r == self.address(),
    {
        self.addr
    }

    /// Whether the pointer points nowhere.
    pub fn is_null(&self) -> (r: bool)
        ensures
            r == (self.address() == 0),
    {
        self.addr == 0
    }

    /// The same address, as a pointer to something else.
    pub fn cast<U>(self) -> (r: UserPtr<U>)
        ensures
            r.address() == self.address(),
    {
        UserPtr::from_usize(self.addr)
    }
}

/// A pointer of a program, to be read and written through.
#[verifier::reject_recursive_types(T)]
pub struct UserPtrMut<T> {
    addr: usize,
    _phantom: PhantomData<T>,
}

impl<T> Clone for UserPtrMut<T> {
    fn clone(&self) -> (r: Self)
        ensures
            r == *self,
    {
        *self
    }
}

impl<T> Copy for UserPtrMut<T> {

}

impl<T> UserPtrMut<T> {
    /// The address.
    pub closed spec fn address(&self) -> usize {
        self.addr
    }

    /// A pointer to an address.
    pub fn from_usize(addr: usize) -> (r: Self)
        ensures
            r.address() == addr,
    {
        UserPtrMut { addr, _phantom: PhantomData }
    }

    /// The address.
    pub fn as_usize(&self) -> (r: usize)
        ensures
            r == self.address(),
    {
        self.addr
    }

    /// Whether the pointer points nowhere.
    pub fn is_null(&self) -> (r: bool)
        ensures
            r == (self.address() == 0),
    {
        self.addr == 0
    }

    /// The same address, as a pointer to something else.
    pub fn cast<U>(self) -> (r: UserPtrMut<U>)
        ensures
            r.address() == self.address(),
    {
        UserPtrMut::from_usize(self.addr)
    }
}

impl<T> UserPtr<T> {
    /// The address of a pointer of the platform.
    pub fn from_platform_ptr<P: RawConstPointer<T>>(ptr: &P) -> (r: Self)
        ensures
            ptr.stands_for(r.address()),
    {
        Self::from_usize(ptr.as_usize())
    }

    /// The pointer as the platform has it, through which memory can actually be accessed.
    pub fn to_platform_ptr<P: RawConstPointer<T>>(self) -> (r: P)
        ensures
            r.stands_for(self.address()),
    {
        P::from_usize(self.addr)
    }

    /// Read the value `count` values away. There is none where reading it faults.
    pub fn read_at_offset<P: RawConstPointer<T>>(self, count: isize) -> (r: Option<T>)
        ensures
            exists|p: P| #[trigger] p.stands_for(self.address()) && p.read_outcome(count, r),
    {
        let p = self.to_platform_ptr::<P>();
        assert(p.stands_for(self.address()));
        p.read_at_offset(count)
    }

    /// Read `len` values. There are none where reading them faults.
    pub fn to_owned_slice<P: RawConstPointer<T>>(self, len: usize) -> (r: Option<Vec<T>>)
        ensures
            r is Some ==> r->Some_0@.len() == len,
            exists|p: P| #[trigger] p.stands_for(self.address()) && p.slice_outcome(len, r),
    {
        let p = self.to_platform_ptr::<P>();
        assert(p.stands_for(self.address()));
        p.to_owned_slice(len)
    }
}

impl UserPtr<i8> {
    /// Read the bytes of a string that ends before its first zero byte. There are none where
    /// reading them faults.
    pub fn to_cstring<P: RawConstPointer<i8>>(self) -> (r: Option<Vec<u8>>)
        ensures
            exists|p: P| #[trigger] p.stands_for(self.address()) && p.string_outcome(r),
            r is Some ==> !r->Some_0@.contains(0),
    {
        let p = self.to_platform_ptr::<P>();
        assert(p.stands_for(self.address()));
        p.to_cstring()
    }
}

impl<T> UserPtrMut<T> {
    /// The address of a pointer of the platform.
    pub fn from_platform_ptr<P: RawMutPointer<T>>(ptr: &P) -> (r: Self)
        ensures
            ptr.stands_for(r.address()),
    {
        Self::from_usize(ptr.as_usize())
    }

    /// The pointer as the platform has it, through which memory can actually be accessed.
    pub fn to_platform_ptr<P: RawMutPointer<T>>(self) -> (r: P)
        ensures
            r.stands_for(self.address()),
    {
        P::from_usize(self.addr)
    }

    /// Read the value `count` values away. There is none where reading it faults.
    pub fn read_at_offset<P: RawMutPointer<T>>(self, count: isize) -> (r: Option<T>)
        ensures
            exists|p: P| #[trigger] p.stands_for(self.address()) && p.read_outcome(count, r),
    {
        let p = self.to_platform_ptr::<P>();
        assert(p.stands_for(self.address()));
        p.read_at_offset(count)
    }

    /// Read `len` values. There are none where reading them faults.
    pub fn to_owned_slice<P: RawMutPointer<T>>(self, len: usize) -> (r: Option<Vec<T>>)
        ensures
            r is Some ==> r->Some_0@.len() == len,
            exists|p: P| #[trigger] p.stands_for(self.address()) && p.slice_outcome(len, r),
    {
        let p = self.to_platform_ptr::<P>();
        assert(p.stands_for(self.address()));
        p.to_owned_slice(len)
    }

    /// Write the value `count` values away. There is no result where writing it faults.
    #[must_use]
    pub fn write_at_offset<P: RawMutPointer<T>>(self, count: isize, value: T) -> (r: Option<()>)
        ensures
            exists|p: P| #[trigger]
                p.stands_for(self.address()) && p.write_outcome(count, seq![value], r),
    {
        let p = self.to_platform_ptr::<P>();
        assert(p.stands_for(self.address()));
        p.write_at_offset(count, value)
    }

    /// Write values from `count` values away on. There is no result where writing them faults.
    #[must_use]
    pub fn write_slice_at_offset<P: RawMutPointer<T>>(self, count: isize, values: &[T]) -> (r: Option<()>)
        ensures
            exists|p: P| #[trigger]
                p.stands_for(self.address()) && p.write_outcome(count, values@, r),
    {
        let p = self.to_platform_ptr::<P>();
        assert(p.stands_for(self.address()));
        p.write_slice_at_offset(count, values)
    }

    /// Copy values to where the pointer points, from `start_offset` values on. There is no result
    /// where writing them faults.
    #[must_use]
    pub fn copy_from_slice<P: RawMutPointer<T>>(self, start_offset: usize, buf: &[T]) -> (r: Option<
        (),
    >)
        ensures
            exists|p: P| #[trigger]
                p.stands_for(self.address()) && p.copy_outcome(start_offset, buf@, r),
    {
        let p = self.to_platform_ptr::<P>();
        assert(p.stands_for(self.address()));
        p.copy_from_slice(start_offset, buf)
    }
}

} // verus!
