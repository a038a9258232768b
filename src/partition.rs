//! The partition set: one session handle per configured partition, grouped
//! by role, handed out by role and index.
use vstd::prelude::*;

verus! {

/// The role of a partition handle.
#[derive(Debug, Clone, Copy, PartialEq, Eq, Structural)]
pub enum Role {
    /// The write (primary) partition.
    Write,
    /// Read replicas.
    Read,
    /// The system (admin) partition.
    System,
}

/// Why a partition handle could not be had.
#[derive(Debug)]
pub enum DbError {
    /// No handle is configured for the role.
    PartitionUnavailable(Role),
    ConnectionError(String),
    OtherError(String),
}

/// Handles of type `H`, by role. Handles are shared read-only once set up.
pub struct DatabaseCluster<H> {
    pub main_nodes: Vec<H>,
    pub read_nodes: Vec<H>,
    pub system_nodes: Vec<H>,
}

impl<H> DatabaseCluster<H> {
    /// The handles of a role, in the order they were added.
    pub open spec fn handles(&self, role: Role) -> Seq<H> {
        match role {
            Role::Write => self.main_nodes@,
            Role::Read => self.read_nodes@,
            Role::System => self.system_nodes@,
        }
    }

    /// A set with no handle for any role.
    pub fn empty() -> (r: Self)
        ensures
            forall|role: Role| (#[trigger] r.handles(role)).len() == 0,
    {
        DatabaseCluster { main_nodes: Vec::new(), read_nodes: Vec::new(), system_nodes: Vec::new() }
    }

    /// A set with one write handle and one system handle.
    pub fn new(main: H, system: H) -> (r: Self)
        ensures
            r.handles(Role::Write) == seq![main],
            r.handles(Role::Read).len() == 0,
            r.handles(Role::System) == seq![system],
    {
        let mut main_nodes: Vec<H> = Vec::new();
        main_nodes.push(main);
        let mut system_nodes: Vec<H> = Vec::new();
        system_nodes.push(system);
        assert(main_nodes@ =~= seq![main]);
        assert(system_nodes@ =~= seq![system]);
        DatabaseCluster { main_nodes, read_nodes: Vec::new(), system_nodes }
    }

    /// Adds a handle for `role`.
    pub fn add(&mut self, role: Role, handle: H)
        ensures
            final(self).handles(role) == old(self).handles(role).push(handle),
            forall|other: Role|
                other != role ==> #[trigger] final(self).handles(other) == old(self).handles(other),
    {
        match role {
            Role::Write => self.main_nodes.push(handle),
            Role::Read => self.read_nodes.push(handle),
            Role::System => self.system_nodes.push(handle),
        }
    }

    /// The handle of `role` at `index`, counted round-robin over that role's
    /// handles; `PartitionUnavailable` if the role has none.
    pub fn get(&self, role: Role, index: usize) -> (r: Result<&H, DbError>)
        ensures
            self.handles(role).len() == 0 ==> (r matches Err(DbError::PartitionUnavailable(x))
                && x == role),
            self.handles(role).len() > 0 ==> (r matches Ok(h) && *h == self.handles(role)[(index as int)
                % (self.handles(role).len() as int)]),
    {
        let nodes = match role {
            Role::Write => &self.main_nodes,
            Role::Read => &self.read_nodes,
            Role::System => &self.system_nodes,
        };
        if nodes.len() == 0 {
            Err(DbError::PartitionUnavailable(role))
        } else {
            Ok(&nodes[index % nodes.len()])
        }
    }

    /// The first write handle.
    pub fn get_main_db(&self) -> (r: Result<&H, DbError>)
        ensures
            self.handles(Role::Write).len() == 0 ==> r matches Err(
                DbError::PartitionUnavailable(Role::Write),
            ),
            self.handles(Role::Write).len() > 0 ==> (r matches Ok(h) && *h == self.handles(
                Role::Write,
            )[0]),
    {
        self.get(Role::Write, 0)
    }

    /// The first system handle.
    pub fn get_system_db(&self) -> (r: Result<&H, DbError>)
        ensures
            self.handles(Role::System).len() == 0 ==> r matches Err(
                DbError::PartitionUnavailable(Role::System),
            ),
            self.handles(Role::System).len() > 0 ==> (r matches Ok(h) && *h == self.handles(
                Role::System,
            )[0]),
    {
        self.get(Role::System, 0)
    }
}

} // verus!
