//! The key/value store under the builder and the runtime, with one typed
//! collection per namespace.
use vstd::prelude::*;
use vstd::string::StringExecFns;

use crate::lifecycle::{same_record, OciStatus, StoreError};
use crate::runtime_config::RuntimeConfig;
use crate::shim::StdioTriple;
use crate::table::Table;

verus! {

/// What `m` holds under `k`.
pub open spec fn lookup<V>(m: Map<Seq<u8>, V>, k: Seq<u8>) -> Option<V> {
    if m.contains_key(k) {
        Some(m[k])
    } else {
        None
    }
}

/// `m` after storing `v` under `k`, or removing `k` when `v` is `None`.
pub open spec fn store<V>(m: Map<Seq<u8>, V>, k: Seq<u8>, v: Option<V>) -> Map<Seq<u8>, V> {
    match v {
        Some(v) => m.insert(k, v),
        None => m.remove(k),
    }
}

pub open spec fn same_opt(a: Option<OciStatus>, b: Option<OciStatus>) -> bool {
    match (a, b) {
        (Some(x), Some(y)) => same_record(x, y),
        (None, None) => true,
        _ => false,
    }
}

/// The store: runtime configurations by container id and process records
/// by `<container-id>/<exec-id>`.
pub struct Storage {
    pub folder: String,
    pub container_config: Table<RuntimeConfig>,
    pub container_processes: Table<OciStatus>,
    pub container_stdio: Table<StdioTriple>,
    pub container_pty: Table<(i32, i32)>,
}

impl Storage {
    pub open spec fn wf(&self) -> bool {
        self.container_config.wf() && self.container_processes.wf() && self.container_stdio.wf()
            && self.container_pty.wf()
    }

    pub closed spec fn folder_view(&self) -> Seq<char> {
        self.folder@
    }

    pub open spec fn processes(&self) -> Map<Seq<u8>, OciStatus> {
        self.container_processes.view()
    }

    pub open spec fn configs(&self) -> Map<Seq<u8>, RuntimeConfig> {
        self.container_config.view()
    }

    /// An empty store kept under `folder`.
    pub fn new(folder: &str) -> (s: Storage)
        ensures
            s.wf(),
            s.folder_view() == folder@,
            s.processes() == Map::<Seq<u8>, OciStatus>::empty(),
            s.configs() == Map::<Seq<u8>, RuntimeConfig>::empty(),
            s.container_stdio.view() == Map::<Seq<u8>, StdioTriple>::empty(),
            s.container_pty.view() == Map::<Seq<u8>, (i32, i32)>::empty(),
    {
        Storage {
            folder: String::from_str(folder),
            container_config: Table::new(),
            container_processes: Table::new(),
            container_stdio: Table::new(),
            container_pty: Table::new(),
        }
    }

    /// The directory the store lives in.
    pub fn folder(&self) -> (r: &String)
        ensures
            r@ == self.folder_view(),
    {
        &self.folder
    }

    /// Replaces the record under `key` by `new` if and only if what is
    /// stored there is `expected` (`None`: nothing).
    pub fn compare_and_swap(
        &mut self,
        key: &[u8],
        expected: Option<OciStatus>,
        new: Option<OciStatus>,
    ) -> (r: Result<(), StoreError>)
        requires
            old(self).wf(),
        ensures
            final(self).wf(),
            final(self).container_config == old(self).container_config,
            final(self).container_stdio == old(self).container_stdio,
            final(self).container_pty == old(self).container_pty,
            final(self).folder_view() == old(self).folder_view(),
            same_opt(lookup(old(self).processes(), key@), expected) ==> r is Ok
                && final(self).processes() == store(old(self).processes(), key@, new),
            !same_opt(lookup(old(self).processes(), key@), expected) ==> r
                == Err::<(), StoreError>(StoreError::Conflict)
                && final(self).processes() == old(self).processes(),
    {
        let matches = match (self.container_processes.get(key), &expected) {
            (Some(cur), Some(exp)) => cur.same_as(exp),
            (None, None) => true,
            _ => false,
        };
        if !matches {
            return Err(StoreError::Conflict);
        }
        match new {
            Some(v) => self.container_processes.insert(key, v),
            None => self.container_processes.remove(key),
        }
        Ok(())
    }
}

} // verus!
