use vstd::prelude::*;

use crate::envelope::{Envelope, EnvelopeView, Kind};
use crate::json::JsonValue;
use crate::manifest::{ExecPlan, PluginManifest, PluginStatus, exec_plan, plan_of};
use crate::session::{CallError, Phase, PluginSession, call_refusal};
use crate::json::Json;
use crate::text::{owned, same_text};

verus! {

/// The host's record of one discovered plugin.
pub struct PluginHandle<T> {
    pub manifest: PluginManifest,
    /// The directory that holds the plugin's manifest.
    pub dir: String,
    pub session: PluginSession<T>,
}

impl<T> PluginHandle<T> {
    /// A plugin found in `dir`, not started yet.
    pub fn new(manifest: PluginManifest, dir: String) -> (r: Self)
        ensures
            r.manifest == manifest,
            r.dir == dir,
            r.session.wf(),
            r.session.phase() == Phase::Spawned,
            r.session.sent() == Seq::<EnvelopeView>::empty(),
            r.session.pending() == Map::<Seq<char>, T>::empty(),
            r.session.subscriptions() == Set::<Seq<char>>::empty(),
            r.session.stored() == Map::<Seq<char>, Json>::empty(),
    {
        PluginHandle { manifest, dir, session: PluginSession::new() }
    }

    pub fn status(&self) -> (r: PluginStatus)
        ensures
            r == (match self.session.phase() {
                Phase::Running => PluginStatus::Running,
                Phase::Stopped => PluginStatus::Stopped,
                _ => PluginStatus::Discovered,
            }),
    {
        self.session.status()
    }
}

/// Why discovery failed.
#[derive(Debug, PartialEq, Eq)]
pub enum DiscoveryError {
    /// A manifest could not be read or parsed; the text says which and why.
    ManifestParse(String),
    /// Two manifests declare the same plugin id.
    DuplicateId(String),
}

/// Whether no two handles carry the same plugin id.
pub open spec fn ids_unique<T>(hs: Seq<PluginHandle<T>>) -> bool {
    forall|i: int, j: int| 0 <= i < j < hs.len() ==> hs[i].manifest.id@ != hs[j].manifest.id@
}

/// Whether two of the found manifests declare the same id.
pub open spec fn has_duplicate_id(found: Seq<(String, PluginManifest)>) -> bool {
    exists|i: int, j: int| 0 <= i < j < found.len() && found[i].1.id@ == found[j].1.id@
}

/// Relies on `uuid::Uuid::new_v4` and its `Display`: a random version-4 UUID, written in its
/// hyphenated form of 36 characters.
#[verifier::external_body]
fn new_request_id() -> (r: String)
    ensures
        r@.len() == 36,
{
    uuid::Uuid::new_v4().to_string()
}

/// All plugins known to the host, keyed by their ids, and the workspace root against which
/// their executables are found.
pub struct PluginManager<T> {
    workspace_root: String,
    plugins: Vec<PluginHandle<T>>,
}

impl<T> PluginManager<T> {
    pub closed spec fn root(&self) -> Seq<char> {
        self.workspace_root@
    }

    /// The plugins, in discovery order.
    pub closed spec fn handles(&self) -> Seq<PluginHandle<T>> {
        self.plugins@
    }

    pub open spec fn wf(&self) -> bool {
        &&& ids_unique(self.handles())
        &&& forall|i: int| 0 <= i < self.handles().len() ==> (#[trigger] self.handles()[i]).session.wf()
    }

    /// Whether plugin `i` has id `id`.
    pub open spec fn has_id(&self, i: int, id: Seq<char>) -> bool {
        0 <= i < self.handles().len() && self.handles()[i].manifest.id@ == id
    }

    /// Builds the manager from the manifests found under the plugins directory, each with its
    /// directory. Two manifests with the same id are refused.
    pub fn discover(workspace_root: String, found: Vec<(String, PluginManifest)>) -> (r: Result<
        Self,
        DiscoveryError,
    >)
        ensures
            match r {
                Ok(m) => {
                    &&& !has_duplicate_id(found@)
                    &&& m.wf()
                    &&& m.root() == workspace_root@
                    &&& m.handles().len() == found@.len()
                    &&& forall|i: int|
                        0 <= i < found@.len() ==> (#[trigger] m.handles()[i]).manifest == found@[i].1
                            && m.handles()[i].dir == found@[i].0 && m.handles()[i].session.phase()
                            == Phase::Spawned
                },
                Err(DiscoveryError::DuplicateId(id)) => has_duplicate_id(found@) && exists|
                    i: int,
                | 0 <= i < found@.len() && found@[i].1.id@ == id@,
                Err(DiscoveryError::ManifestParse(_)) => false,
            },
    {
        let mut plugins: Vec<PluginHandle<T>> = Vec::new();
        let ghost all = found@;
        let mut rest = found;
        let n = rest.len();
        let mut i: usize = 0;
        while i < n
            invariant
                all == found@,
                n == all.len(),
                i <= n,
                plugins@.len() == i,
                rest@ == all.skip(i as int),
                forall|a: int, b: int| 0 <= a < b < i ==> all[a].1.id@ != all[b].1.id@,
                forall|j: int|
                    0 <= j < i ==> (#[trigger] plugins@[j]).manifest == all[j].1 && plugins@[j].dir
                        == all[j].0 && plugins@[j].session.wf() && plugins@[j].session.phase()
                        == Phase::Spawned,
            decreases n - i,
        {
            let (dir, manifest) = rest.remove(0);
            assert(manifest == all[i as int].1 && dir == all[i as int].0);
            assert(rest@ =~= all.skip(i + 1));
            let mut k: usize = 0;
            while k < i
                invariant
                    all == found@,
                    k <= i,
                    i < n,
                    n == all.len(),
                    plugins@.len() == i,
                    manifest == all[i as int].1,
                    forall|j: int| 0 <= j < i ==> (#[trigger] plugins@[j]).manifest == all[j].1,
                    forall|j: int| 0 <= j < k ==> all[j].1.id@ != all[i as int].1.id@,
                decreases i - k,
            {
                if same_text(plugins[k].manifest.id.as_str(), manifest.id.as_str()) {
                    assert(all[k as int].1.id@ == all[i as int].1.id@);
                    assert(has_duplicate_id(all));
                    assert(all[i as int].1.id@ == manifest.id@);
                    return Err(DiscoveryError::DuplicateId(manifest.id));
                }
                k = k + 1;
            }
            plugins.push(PluginHandle::new(manifest, dir));
            i = i + 1;
        }
        assert(!has_duplicate_id(all));
        Ok(PluginManager { workspace_root, plugins })
    }

    /// The number of plugins.
    pub fn len(&self) -> (r: usize)
        ensures
            r == self.handles().len(),
    {
        self.plugins.len()
    }

    /// The position of the plugin with id `id`.
    pub fn find(&self, id: &str) -> (r: Option<usize>)
        requires
            self.wf(),
        ensures
            match r {
                Some(i) => self.has_id(i as int, id@),
                None => forall|i: int| 0 <= i < self.handles().len() ==> !self.has_id(i, id@),
            },
    {
        let mut i: usize = 0;
        while i < self.plugins.len()
            invariant
                i <= self.plugins@.len(),
                forall|j: int| 0 <= j < i ==> !self.has_id(j, id@),
            decreases self.plugins.len() - i,
        {
            if same_text(self.plugins[i].manifest.id.as_str(), id) {
                return Some(i);
            }
            i = i + 1;
        }
        None
    }

    /// A snapshot of every plugin: its manifest, its status and its directory, in discovery
    /// order.
    pub fn list(&self) -> (r: Vec<(PluginManifest, PluginStatus, String)>)
        ensures
            r@.len() == self.handles().len(),
            forall|i: int|
                0 <= i < r@.len() ==> (#[trigger] r@[i]).0@ == self.handles()[i].manifest@
                    && r@[i].1 == (match self.handles()[i].session.phase() {
                    Phase::Running => PluginStatus::Running,
                    Phase::Stopped => PluginStatus::Stopped,
                    _ => PluginStatus::Discovered,
                }) && r@[i].2@ == self.handles()[i].dir@,
    {
        let mut out: Vec<(PluginManifest, PluginStatus, String)> = Vec::new();
        let mut i: usize = 0;
        while i < self.plugins.len()
            invariant
                i <= self.plugins@.len(),
                out@.len() == i,
                forall|j: int|
                    0 <= j < i ==> (#[trigger] out@[j]).0@ == self.plugins@[j].manifest@
                        && out@[j].1 == (match self.plugins@[j].session.phase() {
                        Phase::Running => PluginStatus::Running,
                        Phase::Stopped => PluginStatus::Stopped,
                        _ => PluginStatus::Discovered,
                    }) && out@[j].2@ == self.plugins@[j].dir@,
            decreases self.plugins.len() - i,
        {
            let h = &self.plugins[i];
            out.push((h.manifest.copy(), h.status(), owned(h.dir.as_str())));
            i = i + 1;
        }
        out
    }

    /// The plugin at position `i`.
    pub fn handle(&self, i: usize) -> (r: &PluginHandle<T>)
        requires
            i < self.handles().len(),
        ensures
            *r == self.handles()[i as int],
    {
        &self.plugins[i]
    }

    /// The session of the plugin at position `i`, to be driven through its own methods.
    pub fn session_mut(&mut self, i: usize) -> (r: &mut PluginSession<T>)
        requires
            i < old(self).handles().len(),
        ensures
            *r == old(self).handles()[i as int].session,
            final(self).root() == old(self).root(),
            final(self).handles().len() == old(self).handles().len(),
            forall|j: int|
                0 <= j < old(self).handles().len() && j != i ==> #[trigger] final(self).handles()[j]
                    == old(self).handles()[j],
            final(self).handles()[i as int].manifest == old(self).handles()[i as int].manifest,
            final(self).handles()[i as int].dir == old(self).handles()[i as int].dir,
            final(self).handles()[i as int].session == *final(r),
    {
        &mut self.plugins[i].session
    }

    /// Where to find the executable of the plugin at position `i`.
    pub fn exec_plan(&self, i: usize, exe_suffix: &str) -> (r: ExecPlan)
        requires
            i < self.handles().len(),
        ensures
            plan_of(
                self.handles()[i as int].manifest.executable@,
                self.handles()[i as int].dir@,
                self.root(),
                exe_suffix@,
                r,
            ),
    {
        let h = &self.plugins[i];
        exec_plan(h.manifest.executable.as_str(), h.dir.as_str(), self.workspace_root.as_str(), exe_suffix)
    }

    /// Starts a call to plugin `plugin_id` under request id `call_id`: the plugin must exist
    /// and run, and no other call may await a response under the same id. Gives the request to
    /// write; the slot is handed back when the call cannot be made.
    pub fn begin_call_with_id(
        &mut self,
        plugin_id: &str,
        call_id: String,
        method: String,
        params: JsonValue,
        slot: T,
    ) -> (r: Result<Envelope, (CallError, T)>)
        requires
            old(self).wf(),
        ensures
            final(self).wf(),
            final(self).root() == old(self).root(),
            final(self).handles().len() == old(self).handles().len(),
            (forall|i: int| 0 <= i < old(self).handles().len() ==> !old(self).has_id(i, plugin_id@))
                ==> r is Err && r->Err_0.0 == CallError::PluginNotFound,
            forall|i: int|
                #[trigger] old(self).has_id(i, plugin_id@) ==> match call_refusal(
                    old(self).handles()[i].session,
                    call_id@,
                ) {
                    Some(e) => r is Err && r->Err_0.0 == e,
                    None => r is Ok,
                },
            match r {
                Ok(req) => exists|i: int|
                    old(self).has_id(i, plugin_id@) && {
                        let (before, after) = (
                            old(self).handles()[i].session,
                            final(self).handles()[i].session,
                        );
                        &&& before.phase() == Phase::Running
                        &&& !before.pending().contains_key(call_id@)
                        &&& after.pending() == before.pending().insert(call_id@, slot)
                        &&& after.sent() == before.sent().push(req@)
                        &&& after.phase() == Phase::Running
                        &&& after.subscriptions() == before.subscriptions()
                        &&& after.stored() == before.stored()
                        &&& final(self).handles()[i].manifest == old(self).handles()[i].manifest
                        &&& final(self).handles()[i].dir == old(self).handles()[i].dir
                        &&& forall|j: int|
                            0 <= j < old(self).handles().len() && j != i ==> #[trigger] final(self).handles()[j] == old(self).handles()[j]
                        &&& req@ == (EnvelopeView {
                            id: Some(call_id@),
                            kind: Kind::Request,
                            method: Some(method@),
                            params: Some(params@),
                            result: None,
                            error: None,
                            topic: None,
                            payload: None,
                        })
                    },
                Err((x, back)) => back == slot && final(self).handles() == old(self).handles(),
            },
    {
        let i = match self.find(plugin_id) {
            None => {
                return Err((CallError::PluginNotFound, slot));
            },
            Some(i) => i,
        };
        let ghost before = self.plugins@;
        assert(before[i as int].session.wf());
        let r = self.plugins[i].session.begin_call(call_id, method, params, slot);
        assert forall|j: int| 0 <= j < self.plugins@.len() implies (
        #[trigger] self.plugins@[j]).session.wf() by {
            if j != i {
                assert(self.plugins@[j] == before[j]);
            }
        }
        assert forall|a: int, b: int| 0 <= a < b < self.plugins@.len() implies self.plugins@[a].manifest.id@
            != self.plugins@[b].manifest.id@ by {
            assert(self.plugins@[a].manifest == before[a].manifest);
            assert(self.plugins@[b].manifest == before[b].manifest);
        }
        match r {
            Ok(req) => Ok(req),
            Err((x, back)) => {
                assert(self.plugins@ =~= before);
                Err((x, back))
            },
        }
    }

    /// Starts a call to plugin `plugin_id` under a fresh random request id, and gives that id
    /// with the request to write.
    pub fn begin_call(&mut self, plugin_id: &str, method: String, params: JsonValue, slot: T) -> (r:
        Result<(String, Envelope), (CallError, T)>)
        requires
            old(self).wf(),
        ensures
            final(self).wf(),
            final(self).root() == old(self).root(),
            final(self).handles().len() == old(self).handles().len(),
            (forall|i: int| 0 <= i < old(self).handles().len() ==> !old(self).has_id(i, plugin_id@))
                ==> r is Err && r->Err_0.0 == CallError::PluginNotFound,
            forall|i: int|
                #[trigger] old(self).has_id(i, plugin_id@) ==> {
                    let phase = old(self).handles()[i].session.phase();
                    &&& phase == Phase::Stopped ==> r is Err && r->Err_0.0 == CallError::ClosedPipe
                    &&& phase != Phase::Stopped && phase != Phase::Running ==> r is Err
                        && r->Err_0.0 == CallError::PluginNotRunning
                    &&& phase == Phase::Running ==> r is Ok || (r is Err && r->Err_0.0
                        == CallError::DuplicateId)
                },
            match r {
                Ok((call_id, req)) => call_id@.len() == 36 && exists|i: int|
                    old(self).has_id(i, plugin_id@) && {
                        let (before, after) = (
                            old(self).handles()[i].session,
                            final(self).handles()[i].session,
                        );
                        &&& before.phase() == Phase::Running
                        &&& !before.pending().contains_key(call_id@)
                        &&& after.pending() == before.pending().insert(call_id@, slot)
                        &&& after.sent() == before.sent().push(req@)
                        &&& req@ == (EnvelopeView {
                            id: Some(call_id@),
                            kind: Kind::Request,
                            method: Some(method@),
                            params: Some(params@),
                            result: None,
                            error: None,
                            topic: None,
                            payload: None,
                        })
                    },
                Err((x, back)) => back == slot && final(self).handles() == old(self).handles(),
            },
    {
        let call_id = new_request_id();
        let key = owned(call_id.as_str());
        match self.begin_call_with_id(plugin_id, key, method, params, slot) {
            Ok(req) => Ok((call_id, req)),
            Err(e) => Err(e),
        }
    }
}

} // verus!
