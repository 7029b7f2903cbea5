//! Records of the Coolify hosting provider and the lookups applied to them.

use vstd::prelude::*;

use crate::util::str_eq;

verus! {

/// A project as the provider reports it.
#[derive(Debug, Clone)]
pub struct Project {
    pub id: u64,
    pub uuid: String,
    pub name: String,
    pub description: String,
    pub environments: Vec<Environment>,
}

/// An environment of a project.
#[derive(Debug, Clone)]
pub struct Environment {
    pub id: u64,
    pub name: String,
    pub project_id: u64,
}

/// A server as the provider reports it.
#[derive(Debug, Clone)]
pub struct Server {
    pub name: String,
    pub uuid: String,
}

/// The project and server every resource of one application is created on.
#[derive(Debug, Clone)]
pub struct ResourceCreator {
    pub project: Project,
    pub server: Server,
}

/// A database as the provider reports it.
#[derive(Debug, Clone)]
pub struct DatabaseInfo {
    pub uuid: String,
    pub name: String,
    pub config_hash: Option<String>,
    pub custom_docker_run_options: Option<String>,
    pub database_type: String,
    pub image: String,
    pub is_public: bool,
    pub last_online_at: Option<String>,
    pub public_port: Option<u16>,
    pub detail: DbDetail,
}

/// The kind-specific part of a database record.
#[derive(Debug, Clone)]
pub enum DbDetail {
    Postgres(PostgresDetail),
    Redis(RedisDetail),
}

/// The Postgres-specific part of a database record.
#[derive(Debug, Clone)]
pub struct PostgresDetail {
    pub postgres_user: String,
    pub postgres_db: String,
}

/// The Redis-specific part of a database record; nothing to report.
#[derive(Debug, Clone)]
pub struct RedisDetail {}

/// The first project carrying exactly the given name, if any.
pub fn find_project_by_name(projects: &Vec<Project>, name: &str) -> (r: Option<usize>)
    ensures
        match r {
            Some(i) => 0 <= i < projects@.len() && (#[trigger] projects@[i as int]).name@
                == name@ && forall|j: int| 0 <= j < i ==> (#[trigger] projects@[j].name)@
                != name@,
            None => forall|j: int|
                0 <= j < projects@.len() ==> (#[trigger] projects@[j].name)@ != name@,
        },
{
    let mut i: usize = 0;
    while i < projects.len()
        invariant
            i <= projects@.len(),
            forall|j: int| 0 <= j < i ==> (#[trigger] projects@[j].name)@ != name@,
        decreases projects@.len() - i,
    {
        if str_eq(projects[i].name.as_str(), name) {
            return Some(i);
        }
        i = i + 1;
    }
    None
}

/// The first server carrying exactly the given name, if any.
pub fn find_server_by_name(servers: &Vec<Server>, name: &str) -> (r: Option<usize>)
    ensures
        match r {
            Some(i) => 0 <= i < servers@.len() && (#[trigger] servers@[i as int]).name@ == name@
                && forall|j: int| 0 <= j < i ==> (#[trigger] servers@[j].name)@ != name@,
            None => forall|j: int|
                0 <= j < servers@.len() ==> (#[trigger] servers@[j].name)@ != name@,
        },
{
    let mut i: usize = 0;
    while i < servers.len()
        invariant
            i <= servers@.len(),
            forall|j: int| 0 <= j < i ==> (#[trigger] servers@[j].name)@ != name@,
        decreases servers@.len() - i,
    {
        if str_eq(servers[i].name.as_str(), name) {
            return Some(i);
        }
        i = i + 1;
    }
    None
}

/// The first database carrying exactly the given name, if any.
pub fn find_database_by_name(databases: &Vec<DatabaseInfo>, name: &str) -> (r: Option<usize>)
    ensures
        match r {
            Some(i) => 0 <= i < databases@.len() && (#[trigger] databases@[i as int]).name@
                == name@ && forall|j: int| 0 <= j < i ==> (#[trigger] databases@[j].name)@
                != name@,
            None => forall|j: int|
                0 <= j < databases@.len() ==> (#[trigger] databases@[j].name)@ != name@,
        },
{
    let mut i: usize = 0;
    while i < databases.len()
        invariant
            i <= databases@.len(),
            forall|j: int| 0 <= j < i ==> (#[trigger] databases@[j].name)@ != name@,
        decreases databases@.len() - i,
    {
        if str_eq(databases[i].name.as_str(), name) {
            return Some(i);
        }
        i = i + 1;
    }
    None
}

} // verus!
