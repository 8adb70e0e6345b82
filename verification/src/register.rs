//! Registration of long-lived resources with the executor.
//!
//! Registration is an optional optimization hook: the rest of the crate
//! works identically whether or not anything is registered. The model
//! records what is registered; the ring's behaviour does not depend on it.

use vstd::prelude::*;

verus! {

/// Why a registration call was refused.
#[derive(Clone, Copy, PartialEq, Eq, Structural, Debug)]
pub enum RegisterError {
    /// A set of this kind is already registered; unregister it first.
    AlreadyRegistered,
    /// No set of this kind is registered.
    NotRegistered,
    /// An empty set cannot be registered.
    EmptySet,
}

/// Records which long-lived resources are registered with the executor.
pub struct Registrar {
    /// How many fixed buffers are registered, if any set is.
    pub buffers: Option<usize>,
    /// The registered file handles, if any set is.
    pub files: Option<Vec<i32>>,
}

impl Registrar {
    /// A registrar with nothing registered.
    pub fn new() -> (r: Registrar)
        ensures
            r.buffers is None,
            r.files is None,
    {
        Registrar { buffers: None, files: None }
    }

    /// Register a set of `n_vecs` fixed buffers. At most one set may be
    /// registered at a time, and it may not be empty.
    pub fn register_buffers(&mut self, n_vecs: usize) -> (r: Result<(), RegisterError>)
        ensures
            r is Ok <==> (old(self).buffers is None && n_vecs > 0),
            old(self).buffers is Some ==> r == Result::<(), RegisterError>::Err(
                RegisterError::AlreadyRegistered,
            ),
            old(self).buffers is None && n_vecs == 0 ==> r == Result::<(), RegisterError>::Err(
                RegisterError::EmptySet,
            ),
            r is Ok ==> final(self).buffers == Some(n_vecs),
            r is Err ==> final(self).buffers == old(self).buffers,
            final(self).files == old(self).files,
    {
        if self.buffers.is_some() {
            Err(RegisterError::AlreadyRegistered)
        } else if n_vecs == 0 {
            Err(RegisterError::EmptySet)
        } else {
            self.buffers = Some(n_vecs);
            Ok(())
        }
    }

    /// Unregister the currently registered buffer set.
    pub fn unregister_buffers(&mut self) -> (r: Result<(), RegisterError>)
        ensures
            r is Ok <==> old(self).buffers is Some,
            r is Err ==> r == Result::<(), RegisterError>::Err(RegisterError::NotRegistered),
            final(self).buffers is None,
            final(self).files == old(self).files,
    {
        if self.buffers.is_some() {
            self.buffers = None;
            Ok(())
        } else {
            Err(RegisterError::NotRegistered)
        }
    }

    /// Register a set of file handles for fixed-file operations. At most
    /// one set may be registered at a time, and it may not be empty.
    pub fn register_files(&mut self, files: &Vec<i32>) -> (r: Result<(), RegisterError>)
        ensures
            r is Ok <==> (old(self).files is None && files@.len() > 0),
            old(self).files is Some ==> r == Result::<(), RegisterError>::Err(
                RegisterError::AlreadyRegistered,
            ),
            old(self).files is None && files@.len() == 0 ==> r == Result::<(), RegisterError>::Err(
                RegisterError::EmptySet,
            ),
            r is Ok ==> (final(self).files matches Some(f) && f@ == files@),
            r is Err ==> final(self).files == old(self).files,
            final(self).buffers == old(self).buffers,
    {
        if self.files.is_some() {
            Err(RegisterError::AlreadyRegistered)
        } else if files.len() == 0 {
            Err(RegisterError::EmptySet)
        } else {
            let mut copy: Vec<i32> = Vec::new();
            let mut i: usize = 0;
            while i < files.len()
                invariant
                    i <= files@.len(),
                    copy@ == files@.take(i as int),
                decreases files@.len() - i,
            {
                copy.push(files[i]);
                proof {
                    assert(copy@ =~= files@.take(i + 1));
                }
                i = i + 1;
            }
            proof {
                assert(copy@ =~= files@);
            }
            self.files = Some(copy);
            Ok(())
        }
    }

    /// Unregister the currently registered file set.
    pub fn unregister_files(&mut self) -> (r: Result<(), RegisterError>)
        ensures
            r is Ok <==> old(self).files is Some,
            r is Err ==> r == Result::<(), RegisterError>::Err(RegisterError::NotRegistered),
            final(self).files is None,
            final(self).buffers == old(self).buffers,
    {
        if self.files.is_some() {
            self.files = None;
            Ok(())
        } else {
            Err(RegisterError::NotRegistered)
        }
    }
}

} // verus!
