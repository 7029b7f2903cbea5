//! The application specification read from a project's configuration file.
//!
//! Plain data: which application is described, where it runs in development,
//! and which providers supply secrets, authentication, database and cache.

use vstd::prelude::*;

use crate::nextjs::NextJsApp;

verus! {

/// One application's full specification.
#[derive(Debug, Clone)]
pub struct AppSpec {
    pub name: String,
    /// The fully qualified domain name of the app.
    pub domain: String,
    pub dev: DevConfig,
    pub app: AppDetails,
    pub secrets: AppSecretsConfig,
    pub auth: Option<AppAuthConfig>,
    pub db: Option<DatabaseConfig>,
    pub redis: Option<RedisConfig>,
}

/// What kind of application is described.
#[derive(Debug, Clone)]
pub enum AppDetails {
    NextJsApp(NextJsApp),
    NodeJsApiServer(NodeJsApiServer),
}

/// A plain Node.js API server; nothing to configure.
#[derive(Debug, Clone)]
pub struct NodeJsApiServer {}

/// Configuration for the development environment.
#[derive(Debug, Clone)]
pub struct DevConfig {
    pub port: u16,
}

/// Which provider stores the application's secrets.
#[derive(Debug, Clone)]
pub enum AppSecretsConfig {
    Vercel(VercelSecretsConfig),
}

/// Where the application lives on the secrets provider.
#[derive(Debug, Clone)]
pub struct VercelSecretsConfig {
    pub org: String,
    pub project: String,
}

/// Which provider authenticates the application's users.
#[derive(Debug, Clone)]
pub enum AppAuthConfig {
    Logto(LogtoAuthConfig),
}

/// Configuration for the Logto authentication provider.
///
/// The callback URLs are derived from the domain and the development port.
#[derive(Debug, Clone)]
pub struct LogtoAuthConfig {
    pub app_name: String,
}

/// Which provider hosts the application's database.
#[derive(Debug, Clone)]
pub enum DatabaseConfig {
    Neon(NeonDatabaseConfig),
    Coolify(CoolifyDatabaseConfig),
}

/// Configuration for the Neon database provider.
#[derive(Debug, Clone)]
pub struct NeonDatabaseConfig {
    pub project_name: String,
}

/// Configuration for the Coolify database provider.
#[derive(Debug, Clone)]
pub struct CoolifyDatabaseConfig {
    pub project_name: String,
    pub server_name: String,
}

/// Which provider hosts the application's cache.
#[derive(Debug, Clone)]
pub enum RedisConfig {
    Coolify(CoolifyRedisConfig),
}

/// Configuration for the Coolify cache provider.
#[derive(Debug, Clone)]
pub struct CoolifyRedisConfig {
    pub project_name: String,
    pub server_name: String,
}

} // verus!
