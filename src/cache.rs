//! The store shared between handles: one mapping behind a single
//! reader-writer lock. Reads take the lock shared, writes take it exclusive.
use std::sync::Arc;
use vstd::prelude::*;
use vstd::rwlock::{RwLock, RwLockPredicate};

use crate::error::RustdisError;
use crate::protocol::{
    answer_query, apply, dispatched, executed, opt_view, reads_only, Command, CommandModel, Response,
    ResponseModel,
};
use crate::store::{views_of, Store};

verus! {

/// What the lock guarantees of the store it protects.
pub struct StoreIsWellFormed;

impl RwLockPredicate<Store> for StoreIsWellFormed {
    open spec fn inv(self, v: Store) -> bool {
        v.wf()
    }
}

/// A handle on a shared store. Clones of a handle share one store, so what
/// one of them writes the others read.
///
/// The lock cannot be poisoned: no holder panics while holding it, so every
/// operation acquires it and succeeds.
#[derive(Clone)]
pub struct RustdisCache {
    data: Arc<RwLock<Store, StoreIsWellFormed>>,
}

impl RustdisCache {
    /// Creates a handle on a new, empty store.
    pub fn new() -> (r: RustdisCache) {
        RustdisCache { data: Arc::new(RwLock::new(Store::new(), Ghost(StoreIsWellFormed))) }
    }

    /// The value under `key` at the moment of the call, if any.
    pub fn get(&self, key: &str) -> (r: Result<Option<String>, RustdisError>)
        ensures
            r matches Ok(v) && executed(
                CommandModel::Get(key@),
                ResponseModel::OptionalText(opt_view(v)),
            ),
    {
        let handle = self.data.acquire_read();
        let store = handle.borrow();
        proof {
            store.lemma_finite();
        }
        let v = store.get(key);
        assert(dispatched(
            CommandModel::Get(key@),
            store@,
            store@,
            ResponseModel::OptionalText(opt_view(v)),
        ));
        handle.release_read();
        Ok(v)
    }

    /// Stores `value` under `key`, replacing any earlier value.
    pub fn set(&self, key: String, value: String) -> (r: Result<(), RustdisError>)
        ensures
            r is Ok,
            executed(CommandModel::Put(key@, value@), ResponseModel::Acknowledged),
    {
        let (mut store, handle) = self.data.acquire_write();
        let ghost before = store@;
        let ghost (k, v) = (key@, value@);
        proof {
            store.lemma_finite();
        }
        store.set(key, value);
        assert(dispatched(CommandModel::Put(k, v), before, store@, ResponseModel::Acknowledged));
        handle.release_write(store);
        Ok(())
    }

    /// Removes `key`; `Ok(true)` when it had a value.
    pub fn del(&self, key: &str) -> (r: Result<bool, RustdisError>)
        ensures
            r matches Ok(b) && executed(CommandModel::Del(key@), ResponseModel::Flag(b)),
    {
        let (mut store, handle) = self.data.acquire_write();
        let ghost before = store@;
        proof {
            store.lemma_finite();
        }
        let removed = store.del(key);
        assert(dispatched(CommandModel::Del(key@), before, store@, ResponseModel::Flag(removed)));
        handle.release_write(store);
        Ok(removed)
    }

    /// Whether `key` has a value at the moment of the call.
    pub fn key_exists(&self, key: &str) -> (r: Result<bool, RustdisError>)
        ensures
            r matches Ok(b) && executed(CommandModel::Exists(key@), ResponseModel::Flag(b)),
    {
        let handle = self.data.acquire_read();
        let store = handle.borrow();
        proof {
            store.lemma_finite();
        }
        let found = store.contains_key(key);
        assert(dispatched(CommandModel::Exists(key@), store@, store@, ResponseModel::Flag(found)));
        handle.release_read();
        Ok(found)
    }

    /// A snapshot of the keys: each key present at the moment of the call,
    /// once, in no particular order.
    pub fn keys(&self) -> (r: Result<Vec<String>, RustdisError>)
        ensures
            r matches Ok(ks) && views_of(ks@).no_duplicates() && executed(
                CommandModel::Keys,
                ResponseModel::TextList(views_of(ks@)),
            ),
    {
        let handle = self.data.acquire_read();
        let store = handle.borrow();
        proof {
            store.lemma_finite();
        }
        let ks = store.keys();
        assert(dispatched(CommandModel::Keys, store@, store@, ResponseModel::TextList(views_of(ks@))));
        handle.release_read();
        Ok(ks)
    }

    /// Removes every entry.
    pub fn flush(&self) -> (r: Result<(), RustdisError>)
        ensures
            r is Ok,
            executed(CommandModel::Flush, ResponseModel::Acknowledged),
    {
        let (mut store, handle) = self.data.acquire_write();
        let ghost before = store@;
        proof {
            store.lemma_finite();
        }
        store.flush();
        assert(dispatched(CommandModel::Flush, before, store@, ResponseModel::Acknowledged));
        handle.release_write(store);
        Ok(())
    }

    /// The number of keys at the moment of the call.
    pub fn size(&self) -> (r: Result<usize, RustdisError>)
        ensures
            r matches Ok(n) && executed(CommandModel::Size, ResponseModel::Count(n as nat)),
    {
        let handle = self.data.acquire_read();
        let store = handle.borrow();
        proof {
            store.lemma_finite();
        }
        let n = store.size();
        assert(dispatched(CommandModel::Size, store@, store@, ResponseModel::Count(n as nat)));
        handle.release_read();
        Ok(n)
    }

    /// Runs `command` on the store: a command that only reads takes the lock
    /// shared, any other takes it exclusive. The answer is what the command
    /// gives on the store as it stood while the lock was held.
    pub fn execute(&self, command: Command) -> (r: Response)
        ensures
            executed(command@, r@),
    {
        if reads_only(&command) {
            let handle = self.data.acquire_read();
            let store = handle.borrow();
            let ghost c = command@;
            proof {
                store.lemma_finite();
            }
            let r = answer_query(store, command);
            assert(dispatched(c, store@, store@, r@));
            handle.release_read();
            r
        } else {
            let (mut store, handle) = self.data.acquire_write();
            let ghost before = store@;
            let ghost c = command@;
            proof {
                store.lemma_finite();
            }
            let r = apply(&mut store, command);
            assert(dispatched(c, before, store@, r@));
            handle.release_write(store);
            r
        }
    }
}

impl Default for RustdisCache {
    fn default() -> (r: RustdisCache) {
        RustdisCache::new()
    }
}

} // verus!
