use crate::error::Error;
use vstd::prelude::*;

verus! {

/// What the registry keeps of one live server: its operating-system process
/// id, used only to signal it, and the write end of its stdin.
#[derive(Debug)]
pub struct ManagedProcess<H> {
    pub pid: u32,
    pub stdin: H,
}

/// The registry's record of one live server.
pub ghost struct ServerRecord<H> {
    pub name: Option<Seq<char>>,
    pub process: ManagedProcess<H>,
}

pub open spec fn name_view(name: Option<String>) -> Option<Seq<char>> {
    match name {
        Some(n) => Some(n@),
        None => None,
    }
}

/// Whether some server of `servers` carries `name`.
pub open spec fn carries_name<H>(servers: Map<Seq<char>, ServerRecord<H>>, name: Seq<char>) -> bool {
    exists|k: Seq<char>|
        #![trigger servers[k]]
        servers.contains_key(k) && servers[k].name == Some(name)
}

/// Whether `name` is taken, given the live `servers` and the names
/// `reserved` by starts in progress.
pub open spec fn name_held<H>(
    servers: Map<Seq<char>, ServerRecord<H>>,
    reserved: Set<Seq<char>>,
    name: Seq<char>,
) -> bool {
    reserved.contains(name) || carries_name(servers, name)
}

spec fn reserved_wf(reserved: Seq<String>, model: Set<Seq<char>>) -> bool {
    &&& forall|i: int| 0 <= i < reserved.len() ==> model.contains(#[trigger] reserved[i]@)
    &&& forall|n: Seq<char>|
        #[trigger] model.contains(n) ==> exists|i: int|
            0 <= i < reserved.len() && #[trigger] reserved[i]@ == n
}

struct Server<H> {
    id: String,
    name: Option<String>,
    process: ManagedProcess<H>,
}

impl<H> Server<H> {
    spec fn record(&self) -> ServerRecord<H> {
        ServerRecord { name: name_view(self.name), process: self.process }
    }
}

/// The table of live servers, keyed by server id, together with the names
/// reserved by starts that have not yet registered their server.
pub struct Registry<H> {
    servers: Vec<Server<H>>,
    reserved: Vec<String>,
    model: Ghost<Map<Seq<char>, ServerRecord<H>>>,
    reserved_model: Ghost<Set<Seq<char>>>,
}

impl<H> Registry<H> {
    /// The live servers by id.
    pub closed spec fn servers(&self) -> Map<Seq<char>, ServerRecord<H>> {
        self.model@
    }

    /// The names held for starts in progress.
    pub closed spec fn reserved(&self) -> Set<Seq<char>> {
        self.reserved_model@
    }

    /// Whether some live server carries `name`.
    pub open spec fn names_live_server(&self, name: Seq<char>) -> bool {
        carries_name(self.servers(), name)
    }

    /// A name is taken while a live server carries it or a start holds it.
    pub open spec fn name_taken(&self, name: Seq<char>) -> bool {
        name_held(self.servers(), self.reserved(), name)
    }

    pub closed spec fn wf(&self) -> bool {
        &&& forall|i: int, j: int|
            0 <= i < j < self.servers@.len() ==> #[trigger] self.servers@[i].id@
                != #[trigger] self.servers@[j].id@
        &&& forall|i: int|
            0 <= i < self.servers@.len() ==> {
                &&& self.model@.contains_key(#[trigger] self.servers@[i].id@)
                &&& self.model@[self.servers@[i].id@] == self.servers@[i].record()
            }
        &&& forall|k: Seq<char>|
            #[trigger] self.model@.contains_key(k) ==> exists|i: int|
                0 <= i < self.servers@.len() && #[trigger] self.servers@[i].id@ == k
        &&& self.model@.dom().finite()
        &&& reserved_wf(self.reserved@, self.reserved_model@)
    }

    /// An empty registry.
    pub fn new() -> (r: Self)
        ensures
            r.wf(),
            r.servers() == Map::<Seq<char>, ServerRecord<H>>::empty(),
            r.reserved() == Set::<Seq<char>>::empty(),
    {
        Registry {
            servers: Vec::new(),
            reserved: Vec::new(),
            model: Ghost(Map::empty()),
            reserved_model: Ghost(Set::empty()),
        }
    }

    fn find(&self, id: &String) -> (r: Option<usize>)
        requires
            self.wf(),
        ensures
            match r {
                Some(i) => i < self.servers@.len() && self.servers@[i as int].id@ == id@,
                None => !self.servers().contains_key(id@),
            },
    {
        let mut i: usize = 0;
        while i < self.servers.len()
            invariant
                i <= self.servers@.len(),
                forall|j: int| 0 <= j < i ==> self.servers@[j].id@ != id@,
            decreases self.servers@.len() - i,
        {
            if self.servers[i].id == *id {
                return Some(i);
            }
            i = i + 1;
        }
        proof {
            if self.model@.contains_key(id@) {
                let w = choose|j: int| 0 <= j < self.servers@.len() && self.servers@[j].id@ == id@;
                assert(self.servers@[w].id@ == id@);
            }
        }
        None
    }

    /// Whether a live server is registered under `id`.
    pub fn contains(&self, id: &String) -> (r: bool)
        requires
            self.wf(),
        ensures
            r == self.servers().contains_key(id@),
    {
        match self.find(id) {
            Some(i) => {
                assert(self.model@.contains_key(self.servers@[i as int].id@));
                true
            },
            None => false,
        }
    }

    /// The live server registered under `id`, or `ServerNotFound`.
    pub fn get(&self, id: &String) -> (r: Result<&ManagedProcess<H>, Error>)
        requires
            self.wf(),
        ensures
            match r {
                Ok(p) => self.servers().contains_key(id@) && *p == self.servers()[id@].process,
                Err(e) => !self.servers().contains_key(id@) && e.is_not_found(id@),
            },
    {
        match self.find(id) {
            Some(i) => {
                assert(self.model@.contains_key(self.servers@[i as int].id@));
                Ok(&self.servers[i].process)
            },
            None => Err(Error::ServerNotFound(id.clone())),
        }
    }

    /// Takes the live server `id` out of the registry; `ServerNotFound` when
    /// there is none, which leaves the registry as it was.
    pub fn remove(&mut self, id: &String) -> (r: Result<ManagedProcess<H>, Error>)
        requires
            old(self).wf(),
        ensures
            final(self).wf(),
            final(self).reserved() == old(self).reserved(),
            match r {
                Ok(p) => {
                    &&& old(self).servers().contains_key(id@)
                    &&& p == old(self).servers()[id@].process
                    &&& final(self).servers() == old(self).servers().remove(id@)
                },
                Err(e) => {
                    &&& !old(self).servers().contains_key(id@)
                    &&& final(self).servers() == old(self).servers()
                    &&& e.is_not_found(id@)
                },
            },
    {
        match self.find(id) {
            None => Err(Error::ServerNotFound(id.clone())),
            Some(i) => {
                let ghost before = self.servers@;
                assert(self.model@.contains_key(before[i as int].id@));
                let server = self.servers.remove(i);
                self.model = Ghost(self.model@.remove(id@));
                assert(self.servers@ == before.remove(i as int));
                assert forall|k: Seq<char>| #[trigger] self.model@.contains_key(k) implies exists|
                    j: int,
                | 0 <= j < self.servers@.len() && #[trigger] self.servers@[j].id@ == k by {
                    let w = choose|j: int| 0 <= j < before.len() && before[j].id@ == k;
                    if w < i {
                        assert(self.servers@[w].id@ == k);
                    } else {
                        assert(self.servers@[w - 1].id@ == k);
                    }
                }
                assert forall|a: int|
                    0 <= a < self.servers@.len() implies self.servers@[a].id@ != id@ by {
                    if a < i {
                        assert(before[a].id@ != before[i as int].id@);
                    } else {
                        assert(before[a + 1].id@ != before[i as int].id@);
                    }
                }
                assert forall|a: int, b: int|
                    0 <= a < b < self.servers@.len() implies #[trigger] self.servers@[a].id@
                    != #[trigger] self.servers@[b].id@ by {
                    let a0 = if a < i { a } else { a + 1 };
                    let b0 = if b < i { b } else { b + 1 };
                    assert(before[a0].id@ != before[b0].id@);
                }
                assert forall|a: int| 0 <= a < self.servers@.len() implies {
                    &&& self.model@.contains_key(#[trigger] self.servers@[a].id@)
                    &&& self.model@[self.servers@[a].id@] == self.servers@[a].record()
                } by {
                    let a0 = if a < i { a } else { a + 1 };
                    assert(self.servers@[a] == before[a0]);
                }
                Ok(server.process)
            },
        }
    }

    /// Registers `process` under the fresh id `id`, carrying `name` (whose
    /// reservation, if any, ends here); `ServerIdExists` when `id` is live,
    /// which leaves the registry as it was.
    pub fn insert(&mut self, id: String, name: Option<String>, process: ManagedProcess<H>) -> (r:
        Result<(), Error>)
        requires
            old(self).wf(),
        ensures
            final(self).wf(),
            match r {
                Ok(_) => {
                    &&& !old(self).servers().contains_key(id@)
                    &&& final(self).servers() == old(self).servers().insert(
                        id@,
                        ServerRecord { name: name_view(name), process },
                    )
                    &&& final(self).reserved() == match name {
                        Some(n) => old(self).reserved().remove(n@),
                        None => old(self).reserved(),
                    }
                },
                Err(e) => {
                    &&& old(self).servers().contains_key(id@)
                    &&& final(self).servers() == old(self).servers()
                    &&& final(self).reserved() == old(self).reserved()
                    &&& e.is_id_taken(id@)
                },
            },
    {
        if self.contains(&id) {
            return Err(Error::ServerIdExists(id));
        }
        if let Some(n) = &name {
            self.release_name(n);
        }
        let ghost before = self.servers@;
        let ghost record = ServerRecord { name: name_view(name), process };
        let server = Server { id, name, process };
        assert(server.record() == record);
        self.servers.push(server);
        self.model = Ghost(self.model@.insert(server.id@, record));
        assert(forall|j: int| 0 <= j < before.len() ==> self.servers@[j] == before[j]);
        assert(self.servers@[before.len() as int] == server);
        assert forall|j: int| 0 <= j < before.len() implies before[j].id@ != server.id@ by {
            assert(self.model@.contains_key(before[j].id@));
        }
        assert forall|k: Seq<char>| #[trigger] self.model@.contains_key(k) implies exists|j: int|
            0 <= j < self.servers@.len() && #[trigger] self.servers@[j].id@ == k by {
            if k != server.id@ {
                let w = choose|j: int| 0 <= j < before.len() && before[j].id@ == k;
                assert(self.servers@[w].id@ == k);
            } else {
                assert(self.servers@[before.len() as int].id@ == k);
            }
        }
        Ok(())
    }

    fn name_in_use(&self, name: &String) -> (r: bool)
        requires
            self.wf(),
        ensures
            r == self.name_taken(name@),
    {
        let mut i: usize = 0;
        while i < self.reserved.len()
            invariant
                self.wf(),
                i <= self.reserved@.len(),
                forall|j: int| 0 <= j < i ==> self.reserved@[j]@ != name@,
            decreases self.reserved@.len() - i,
        {
            if self.reserved[i] == *name {
                assert(self.reserved_model@.contains(self.reserved@[i as int]@));
                return true;
            }
            i = i + 1;
        }
        assert(!self.reserved_model@.contains(name@)) by {
            if self.reserved_model@.contains(name@) {
                let w = choose|j: int| 0 <= j < self.reserved@.len() && self.reserved@[j]@ == name@;
                assert(self.reserved@[w]@ == name@);
            }
        }
        let mut i: usize = 0;
        while i < self.servers.len()
            invariant
                self.wf(),
                !self.reserved().contains(name@),
                i <= self.servers@.len(),
                forall|j: int| 0 <= j < i ==> name_view(self.servers@[j].name) != Some(name@),
            decreases self.servers@.len() - i,
        {
            if let Some(n) = &self.servers[i].name {
                if *n == *name {
                    let ghost k = self.servers@[i as int].id@;
                    assert(self.model@.contains_key(k));
                    assert(self.servers()[k].name == Some(name@));
                    return true;
                }
            }
            i = i + 1;
        }
        assert(!self.names_live_server(name@)) by {
            if self.names_live_server(name@) {
                let k = choose|k: Seq<char>|
                    #![trigger self.servers()[k]]
                    self.servers().contains_key(k) && self.servers()[k].name == Some(name@);
                assert(self.model@.contains_key(k));
                let w = choose|j: int| 0 <= j < self.servers@.len() && self.servers@[j].id@ == k;
                assert(self.servers@[w].id@ == k);
            }
        }
        false
    }

    /// Holds `name` for a start in progress; `ServerNameExists` when a live
    /// server carries it or another start holds it, which leaves the
    /// registry as it was.
    pub fn reserve_name(&mut self, name: String) -> (r: Result<(), Error>)
        requires
            old(self).wf(),
        ensures
            final(self).wf(),
            final(self).servers() == old(self).servers(),
            match r {
                Ok(_) => {
                    &&& !old(self).name_taken(name@)
                    &&& final(self).reserved() == old(self).reserved().insert(name@)
                },
                Err(e) => {
                    &&& old(self).name_taken(name@)
                    &&& final(self).reserved() == old(self).reserved()
                    &&& e.is_name_taken(name@)
                },
            },
    {
        if self.name_in_use(&name) {
            return Err(Error::ServerNameExists(name));
        }
        let ghost before = self.reserved@;
        self.reserved.push(name);
        self.reserved_model = Ghost(self.reserved_model@.insert(name@));
        assert(forall|j: int| 0 <= j < before.len() ==> self.reserved@[j] == before[j]);
        assert(self.reserved@[before.len() as int]@ == name@);
        assert forall|n: Seq<char>| #[trigger] self.reserved_model@.contains(n) implies exists|
            j: int,
        | 0 <= j < self.reserved@.len() && #[trigger] self.reserved@[j]@ == n by {
            if n != name@ {
                let w = choose|j: int| 0 <= j < before.len() && before[j]@ == n;
                assert(self.reserved@[w]@ == n);
            } else {
                assert(self.reserved@[before.len() as int]@ == n);
            }
        }
        Ok(())
    }

    /// Gives up the hold on `name` taken by a start that did not register.
    pub fn release_name(&mut self, name: &String)
        requires
            old(self).wf(),
        ensures
            final(self).wf(),
            final(self).servers() == old(self).servers(),
            final(self).reserved() == old(self).reserved().remove(name@),
    {
        let mut kept: Vec<String> = Vec::new();
        let mut i: usize = 0;
        while i < self.reserved.len()
            invariant
                self.wf(),
                i <= self.reserved@.len(),
                forall|j: int|
                    0 <= j < kept@.len() ==> #[trigger] kept@[j]@ != name@
                        && self.reserved_model@.contains(kept@[j]@),
                forall|j: int|
                    0 <= j < i && #[trigger] self.reserved@[j]@ != name@ ==> exists|m: int|
                        0 <= m < kept@.len() && #[trigger] kept@[m]@ == self.reserved@[j]@,
            decreases self.reserved@.len() - i,
        {
            if self.reserved[i] != *name {
                let ghost prev = kept@;
                kept.push(self.reserved[i].clone());
                assert(kept@[prev.len() as int]@ == self.reserved@[i as int]@);
                assert(self.reserved_model@.contains(self.reserved@[i as int]@));
                assert forall|j: int|
                    0 <= j <= i && #[trigger] self.reserved@[j]@ != name@ implies exists|m: int|
                    0 <= m < kept@.len() && #[trigger] kept@[m]@ == self.reserved@[j]@ by {
                    if j < i {
                        let w = choose|m: int|
                            0 <= m < prev.len() && #[trigger] prev[m]@ == self.reserved@[j]@;
                        assert(kept@[w] == prev[w]);
                    } else {
                        assert(kept@[prev.len() as int]@ == self.reserved@[j]@);
                    }
                }
            }
            i = i + 1;
        }
        let ghost old_model = self.reserved_model@;
        let ghost old_reserved = self.reserved@;
        self.reserved = kept;
        self.reserved_model = Ghost(old_model.remove(name@));
        assert forall|n: Seq<char>| #[trigger] self.reserved_model@.contains(n) implies exists|
            m: int,
        | 0 <= m < self.reserved@.len() && #[trigger] self.reserved@[m]@ == n by {
            let w = choose|j: int| 0 <= j < old_reserved.len() && old_reserved[j]@ == n;
            assert(old_reserved[w]@ != name@);
            let m = choose|m: int| 0 <= m < kept@.len() && #[trigger] kept@[m]@ == old_reserved[w]@;
            assert(self.reserved@[m]@ == n);
        }
    }

    /// Forgets the server `id` once its process has exited. Whether it was
    /// still registered or had already been taken out by a kill, it is absent
    /// afterwards; `r` tells whether this call took it out.
    pub fn discard(&mut self, id: &String) -> (r: bool)
        requires
            old(self).wf(),
        ensures
            final(self).wf(),
            final(self).reserved() == old(self).reserved(),
            final(self).servers() == old(self).servers().remove(id@),
            r == old(self).servers().contains_key(id@),
    {
        match self.remove(id) {
            Ok(_) => true,
            Err(_) => {
                assert(self.servers() =~= self.servers().remove(id@));
                false
            },
        }
    }

    /// Takes every live server out of the registry, as at shutdown, when
    /// each of them is to be killed.
    pub fn drain(&mut self) -> (r: Vec<(String, ManagedProcess<H>)>)
        requires
            old(self).wf(),
        ensures
            final(self).wf(),
            final(self).servers() == Map::<Seq<char>, ServerRecord<H>>::empty(),
            final(self).reserved() == old(self).reserved(),
            r@.len() == old(self).servers().dom().len(),
            forall|i: int|
                0 <= i < r@.len() ==> {
                    &&& old(self).servers().contains_key(#[trigger] r@[i].0@)
                    &&& old(self).servers()[r@[i].0@].process == r@[i].1
                },
            forall|k: Seq<char>|
                #[trigger] old(self).servers().contains_key(k) ==> exists|i: int|
                    0 <= i < r@.len() && #[trigger] r@[i].0@ == k,
    {
        let mut out: Vec<(String, ManagedProcess<H>)> = Vec::new();
        let ghost start = self.model@;
        while self.servers.len() > 0
            invariant
                self.wf(),
                self.reserved_model == old(self).reserved_model,
                self.reserved@ == old(self).reserved@,
                start == old(self).servers(),
                self.model@.dom().finite(),
                self.model@.dom().len() + out@.len() == start.dom().len(),
                self.model@ <= start,
                forall|i: int|
                    0 <= i < out@.len() ==> {
                        &&& start.contains_key(#[trigger] out@[i].0@)
                        &&& !self.model@.contains_key(out@[i].0@)
                        &&& start[out@[i].0@].process == out@[i].1
                    },
                forall|k: Seq<char>|
                    #[trigger] start.contains_key(k) ==> self.model@.contains_key(k) || exists|
                        i: int,
                    | 0 <= i < out@.len() && #[trigger] out@[i].0@ == k,
            decreases self.servers@.len(),
        {
            let ghost before = self.servers@;
            let ghost last = (self.servers@.len() - 1) as int;
            let ghost prev_out = out@;
            assert(self.model@.contains_key(before[last].id@));
            let server = self.servers.pop().unwrap();
            let ghost key = server.id@;
            self.model = Ghost(self.model@.remove(key));
            assert(self.servers@ =~= before.drop_last());
            assert forall|k: Seq<char>| #[trigger] self.model@.contains_key(k) implies exists|
                j: int,
            | 0 <= j < self.servers@.len() && #[trigger] self.servers@[j].id@ == k by {
                let w = choose|j: int| 0 <= j < before.len() && before[j].id@ == k;
                assert(w != last);
                assert(self.servers@[w].id@ == k);
            }
            assert forall|a: int| 0 <= a < self.servers@.len() implies {
                &&& self.model@.contains_key(#[trigger] self.servers@[a].id@)
                &&& self.model@[self.servers@[a].id@] == self.servers@[a].record()
            } by {
                assert(before[a].id@ != before[last].id@);
            }
            out.push((server.id, server.process));
            assert(out@[prev_out.len() as int].0@ == key);
            assert forall|k: Seq<char>| #[trigger] start.contains_key(k) implies self.model@.contains_key(k)
                || exists|i: int| 0 <= i < out@.len() && #[trigger] out@[i].0@ == k by {
                if !self.model@.contains_key(k) {
                    if k == key {
                        assert(out@[prev_out.len() as int].0@ == k);
                    } else {
                        let w = choose|i: int| 0 <= i < prev_out.len() && #[trigger] prev_out[i].0@ == k;
                        assert(out@[w] == prev_out[w]);
                    }
                }
            }
            assert forall|i: int| 0 <= i < out@.len() implies {
                &&& start.contains_key(#[trigger] out@[i].0@)
                &&& !self.model@.contains_key(out@[i].0@)
                &&& start[out@[i].0@].process == out@[i].1
            } by {
                if i < prev_out.len() {
                    assert(out@[i] == prev_out[i]);
                }
            }
        }
        proof {
            if self.model@.dom().len() > 0 {
                let k = self.model@.dom().choose();
                assert(self.model@.contains_key(k));
            }
            assert(self.model@ =~= Map::empty());
        }
        out
    }
}

/// Starts under pairwise distinct names, none of them taken when they begin,
/// all obtain their names: each reservation leaves the live servers as they
/// are and adds its name to the reserved ones, and the `i`-th name is still
/// free once the names before it are reserved.
pub proof fn lemma_distinct_names_all_reserve<H>(
    servers: Map<Seq<char>, ServerRecord<H>>,
    reserved: Set<Seq<char>>,
    names: Seq<Seq<char>>,
)
    requires
        forall|i: int, j: int| 0 <= i < j < names.len() ==> names[i] != names[j],
        forall|i: int| 0 <= i < names.len() ==> !name_held(servers, reserved, #[trigger] names[i]),
    ensures
        forall|i: int|
            0 <= i < names.len() ==> !name_held(
                servers,
                reserved.union(names.take(i).to_set()),
                #[trigger] names[i],
            ),
{
    assert forall|i: int| 0 <= i < names.len() implies !name_held(
        servers,
        reserved.union(names.take(i).to_set()),
        #[trigger] names[i],
    ) by {
        assert(!name_held(servers, reserved, names[i]));
        if names.take(i).to_set().contains(names[i]) {
            let j = choose|j: int| 0 <= j < names.take(i).len() && names.take(i)[j] == names[i];
            assert(names[j] == names[i]);
        }
    }
}

/// A start whose name is taken is refused whatever else holds the name: a
/// name carried by a live server is taken.
pub proof fn lemma_live_name_is_taken<H>(
    servers: Map<Seq<char>, ServerRecord<H>>,
    reserved: Set<Seq<char>>,
    id: Seq<char>,
    name: Seq<char>,
)
    requires
        servers.contains_key(id),
        servers[id].name == Some(name),
    ensures
        name_held(servers, reserved, name),
{
    assert(servers.contains_key(id) && servers[id].name == Some(name));
}

/// Registered servers have distinct ids: a server registered while another
/// is live gets an id of its own, and both are live afterwards.
pub proof fn lemma_registered_ids_distinct<H>(
    servers: Map<Seq<char>, ServerRecord<H>>,
    live: Seq<char>,
    id: Seq<char>,
    record: ServerRecord<H>,
)
    requires
        servers.contains_key(live),
        !servers.contains_key(id),
    ensures
        id != live,
        servers.insert(id, record).contains_key(live),
        servers.insert(id, record).contains_key(id),
{
}

/// Once a server has been taken out of the registry, by a kill or when its
/// exit is reconciled, its id is unknown: a send or a second kill finds
/// nothing, and nothing can bring it back but a new registration under it.
pub proof fn lemma_removed_id_not_found<H>(servers: Map<Seq<char>, ServerRecord<H>>, id: Seq<char>)
    ensures
        !servers.remove(id).contains_key(id),
        servers.remove(id).remove(id) == servers.remove(id),
{
    assert(servers.remove(id).remove(id) =~= servers.remove(id));
}

} // verus!
