//! The lazily-opened handle to one on-disk file.
//!
//! A file is opened at most once: whichever caller wins the load race moves it
//! from `Unloaded` to `Loaded` or `Missing`, and a loaded value is never
//! replaced, only retained as `Garbage` when the file disappears from disk
//! while some live handle still requires stable identifiers.

use vstd::prelude::*;

verus! {

/// Why the opener for one file failed.
#[derive(Clone, Copy, PartialEq, Eq, Structural, Debug)]
pub enum LoadError {
    /// The file does not exist; a terminal, retry-free outcome.
    NotFound,
    /// Any other I/O failure; the file stays `Unloaded` and may be retried.
    Other,
}

/// Lifecycle of one on-disk file's contents.
#[derive(Clone)]
pub enum OnDiskFileState<T> {
    /// The file is believed to be on disk and can be loaded from there.
    Unloaded,
    /// The file's contents are in memory.
    Loaded(T),
    /// The file was loaded, then disappeared from disk during a rescan, but is
    /// kept because a live handle required stable pack identifiers.
    Garbage(T),
    /// A load was attempted and the file does not exist on disk.
    Missing,
}

/// A lazily-opened handle to one on-disk file: its last known path plus the
/// state of its contents.
#[derive(Clone)]
pub struct OnDiskFile<T> {
    /// The last known path of the file.
    pub path: Vec<u8>,
    /// Whether the contents were loaded yet, are missing, or are retained.
    pub state: OnDiskFileState<T>,
}

impl<T> OnDiskFile<T> {
    /// True when a value is held in memory, whether current or retained.
    pub open spec fn is_loaded_spec(&self) -> bool {
        self.state is Loaded || self.state is Garbage
    }

    /// The value held in memory, if any.
    pub open spec fn loaded_spec(&self) -> Option<T> {
        match self.state {
            OnDiskFileState::Loaded(v) => Some(v),
            OnDiskFileState::Garbage(v) => Some(v),
            _ => None,
        }
    }

    /// A fresh, not yet loaded file at `path`.
    pub fn new_unloaded(path: Vec<u8>) -> (r: Self)
        ensures
            r.path == path,
            r.state is Unloaded,
    {
        OnDiskFile { path, state: OnDiskFileState::Unloaded }
    }

    /// Return true if we hold the file's contents in memory already.
    pub fn is_loaded(&self) -> (r: bool)
        ensures
            r == self.is_loaded_spec(),
    {
        match &self.state {
            OnDiskFileState::Loaded(_) => true,
            OnDiskFileState::Garbage(_) => true,
            _ => false,
        }
    }

    /// Retire this file: a loaded value is retained as `Garbage`, anything
    /// not loaded becomes `Missing`. Used when the file vanished from disk
    /// but a live handle still requires stable identifiers.
    pub fn retire_to_garbage(self) -> (r: Self)
        ensures
            r.path == self.path,
            self.state matches OnDiskFileState::Loaded(v)
                ==> r.state == OnDiskFileState::Garbage(v),
            self.state matches OnDiskFileState::Garbage(v)
                ==> r.state == OnDiskFileState::Garbage(v),
            (self.state is Unloaded || self.state is Missing) ==> r.state is Missing,
            r.loaded_spec() == self.loaded_spec(),
    {
        let OnDiskFile { path, state } = self;
        let retired = match state {
            OnDiskFileState::Loaded(v) => OnDiskFileState::Garbage(v),
            OnDiskFileState::Garbage(v) => OnDiskFileState::Garbage(v),
            OnDiskFileState::Unloaded => OnDiskFileState::Missing,
            OnDiskFileState::Missing => OnDiskFileState::Missing,
        };
        OnDiskFile { path, state: retired }
    }
}

impl<T> OnDiskFile<T> {
    /// The value held in memory, if any.
    pub fn loaded(&self) -> (r: Option<&T>)
        ensures
            match r {
                Some(v) => self.loaded_spec() == Some(*v),
                None => self.loaded_spec() is None,
            },
    {
        match &self.state {
            OnDiskFileState::Loaded(v) => Some(v),
            OnDiskFileState::Garbage(v) => Some(v),
            _ => None,
        }
    }

    /// Perform the one-time load of this file through `load`, the external
    /// opener for its format.
    ///
    /// Callers must check `is_loaded` first: loading an already loaded file is
    /// a contract violation, not a recoverable error. A `Missing` file is
    /// reported as absent without touching disk again. Otherwise the opener
    /// runs once: success moves the file to `Loaded`, a `NotFound` failure to
    /// `Missing`, and any other failure leaves it `Unloaded` so that a later
    /// caller may retry.
    pub fn do_load<F: FnOnce(&Vec<u8>) -> Result<T, LoadError>>(
        &mut self,
        load: F,
    ) -> (r: Result<Option<&T>, LoadError>)
        requires
            !old(self).is_loaded_spec(),
            forall|p: &Vec<u8>| call_requires(load, (p,)),
        ensures
            final(self).path == old(self).path,
            old(self).state is Missing ==> (r matches Ok(o) && o is None
                && final(self).state is Missing),
            old(self).state is Unloaded ==> match r {
                Ok(Some(v)) => final(self).state == OnDiskFileState::Loaded(*v)
                    && call_ensures(load, (&old(self).path,), Result::<T, LoadError>::Ok(*v)),
                Ok(None) => final(self).state is Missing
                    && call_ensures(
                        load,
                        (&old(self).path,),
                        Result::<T, LoadError>::Err(LoadError::NotFound),
                    ),
                Err(e) => final(self).state is Unloaded && e == LoadError::Other
                    && call_ensures(load, (&old(self).path,), Result::<T, LoadError>::Err(e)),
            },
            r is Err ==> (r matches Err(e) && e == LoadError::Other),
    {
        match &self.state {
            OnDiskFileState::Missing => Ok(None),
            _ => {
                match load(&self.path) {
                    Ok(v) => {
                        self.state = OnDiskFileState::Loaded(v);
                        match &self.state {
                            OnDiskFileState::Loaded(w) => Ok(Some(w)),
                            _ => Ok(None),
                        }
                    }
                    Err(LoadError::NotFound) => {
                        self.state = OnDiskFileState::Missing;
                        Ok(None)
                    }
                    Err(LoadError::Other) => Err(LoadError::Other),
                }
            }
        }
    }
}

} // verus!
