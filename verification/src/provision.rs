//! The provisioning plan: which environment variables and resources each
//! application gets, per deployment stage.
//!
//! Everything here is a pure decision on parsed data. Performing the plan
//! against the providers is the embedding's work.

use vstd::prelude::*;
use vstd::string::*;
use vstd::utf8::*;

use crate::app_spec::AppDetails;
use crate::app_spec::AppSpec;
use crate::util::dec_rep;
use crate::util::dec_string;
use crate::util::lemma_encode_utf8_concat;
use crate::vendors::logto::App;

verus! {

/// A deployment stage.
#[derive(Debug, Copy, Clone, PartialEq, Eq, PartialOrd, Ord, Hash, Structural)]
pub enum Stage {
    Development,
    Production,
}

/// The name a stage carries in provider configuration.
pub open spec fn stage_name(s: Stage) -> Seq<char> {
    if s == Stage::Development {
        "development"@
    } else {
        "production"@
    }
}

impl Stage {
    /// Every stage, in a fixed order.
    pub fn all() -> (r: Vec<Stage>)
        ensures
            r@ == seq![Stage::Development, Stage::Production],
    {
        let mut v: Vec<Stage> = Vec::new();
        v.push(Stage::Development);
        v.push(Stage::Production);
        proof {
            assert(v@ =~= seq![Stage::Development, Stage::Production]);
        }
        v
    }

    /// The name this stage carries in provider configuration.
    pub fn env_name(&self) -> (r: &str)
        ensures
            r@ == stage_name(*self),
    {
        match self {
            Stage::Development => "development",
            Stage::Production => "production",
        }
    }
}

/// One environment variable of the provisioning plan.
#[derive(Debug, Clone)]
pub struct EnvVar {
    pub key: String,
    pub value: String,
    pub secret: bool,
    /// When true, the variable is not updated where it already exists.
    pub no_update: bool,
    /// The stage the variable belongs to; `None` provisions it for all stages.
    pub stage: Option<Stage>,
}

/// The collected output of provisioning steps.
#[derive(Debug, Clone)]
pub struct ProvisionOutput {
    pub env_vars: Vec<EnvVar>,
}

impl ProvisionOutput {
    /// Appends another step's variables after this one's.
    pub fn merge(&mut self, other: ProvisionOutput)
        ensures
            final(self).env_vars@ == old(self).env_vars@ + other.env_vars@,
    {
        let mut other = other;
        self.env_vars.append(&mut other.env_vars);
    }
}

impl Default for ProvisionOutput {
    /// An empty plan.
    fn default() -> (r: ProvisionOutput)
        ensures
            r.env_vars@ == Seq::<EnvVar>::empty(),
    {
        let r = ProvisionOutput { env_vars: Vec::new() };
        proof {
            assert(r.env_vars@ =~= Seq::<EnvVar>::empty());
        }
        r
    }
}

/// The application-kind variables: a Next.js app gets its own URL for each
/// stage, the local address in development and the domain in production; a
/// plain API server gets nothing.
pub fn app_details_env_vars(config: &AppSpec) -> (r: Vec<EnvVar>)
    ensures
        match config.app {
            AppDetails::NodeJsApiServer(..) => r@.len() == 0,
            AppDetails::NextJsApp(..) => {
                &&& r@.len() == 2
                &&& r@[0].key@ == "APP_URL"@
                &&& encode_utf8(r@[0].value@) == encode_utf8("http://localhost:"@) + dec_rep(
                    config.dev.port as nat,
                )
                &&& r@[0].secret == false
                &&& r@[0].no_update == false
                &&& r@[0].stage == Some(Stage::Development)
                &&& r@[1].key@ == "APP_URL"@
                &&& r@[1].value@ == "https://"@ + config.domain@
                &&& r@[1].secret == false
                &&& r@[1].no_update == false
                &&& r@[1].stage == Some(Stage::Production)
            },
        },
{
    let mut out: Vec<EnvVar> = Vec::new();
    match &config.app {
        AppDetails::NextJsApp(..) => {
            let mut dev_url = String::from_str("http://localhost:");
            let digits = dec_string(config.dev.port as u64);
            dev_url.append(digits.as_str());
            proof {
                lemma_encode_utf8_concat("http://localhost:"@, digits@);
            }
            out.push(
                EnvVar {
                    key: String::from_str("APP_URL"),
                    value: dev_url,
                    secret: false,
                    no_update: false,
                    stage: Some(Stage::Development),
                },
            );
            let mut prod_url = String::from_str("https://");
            prod_url.append(config.domain.as_str());
            out.push(
                EnvVar {
                    key: String::from_str("APP_URL"),
                    value: prod_url,
                    secret: false,
                    no_update: false,
                    stage: Some(Stage::Production),
                },
            );
        },
        AppDetails::NodeJsApiServer(..) => {},
    }
    out
}

/// The authentication variables: where the provider is reached, the
/// application's client ID and secret, and one freshly drawn cookie secret
/// per stage. The cookie secrets come from the embedding's randomness; this
/// function decides only where each one goes.
pub fn logto_env_vars(endpoint: &str, app: &App, cookie_secrets: Vec<String>) -> (r: Vec<
    EnvVar,
>)
    requires
        cookie_secrets@.len() == 2,
    ensures
        r@.len() == 5,
        r@[0].key@ == "LOGTO_ENDPOINT"@ && r@[0].value@ == endpoint@ && !r@[0].secret
            && r@[0].stage is None,
        r@[1].key@ == "LOGTO_APP_ID"@ && r@[1].value@ == app.id@ && !r@[1].secret
            && r@[1].stage is None,
        r@[2].key@ == "LOGTO_APP_SECRET"@ && r@[2].value@ == app.secret@ && r@[2].secret
            && r@[2].stage is None,
        r@[3].key@ == "LOGTO_COOKIE_SECRET"@ && r@[3].value == cookie_secrets@[0]
            && r@[3].secret && r@[3].no_update && r@[3].stage == Some(Stage::Development),
        r@[4].key@ == "LOGTO_COOKIE_SECRET"@ && r@[4].value == cookie_secrets@[1]
            && r@[4].secret && r@[4].no_update && r@[4].stage == Some(Stage::Production),
{
    let mut out: Vec<EnvVar> = Vec::new();
    out.push(
        EnvVar {
            key: String::from_str("LOGTO_ENDPOINT"),
            value: endpoint.to_owned(),
            secret: false,
            no_update: false,
            stage: None,
        },
    );
    out.push(
        EnvVar {
            key: String::from_str("LOGTO_APP_ID"),
            value: app.id.clone(),
            secret: false,
            no_update: false,
            stage: None,
        },
    );
    out.push(
        EnvVar {
            key: String::from_str("LOGTO_APP_SECRET"),
            value: app.secret.clone(),
            secret: true,
            no_update: false,
            stage: None,
        },
    );
    let mut secrets = cookie_secrets;
    let second = secrets.pop().unwrap();
    let first = secrets.pop().unwrap();
    out.push(
        EnvVar {
            key: String::from_str("LOGTO_COOKIE_SECRET"),
            value: first,
            secret: true,
            no_update: true,
            stage: Some(Stage::Development),
        },
    );
    out.push(
        EnvVar {
            key: String::from_str("LOGTO_COOKIE_SECRET"),
            value: second,
            secret: true,
            no_update: true,
            stage: Some(Stage::Production),
        },
    );
    out
}

/// The name of the database resource created for an application at a stage.
pub fn postgres_db_name(app_name: &str, stage: Stage) -> (r: String)
    ensures
        r@ == app_name@ + "-postgres-"@ + stage_name(stage),
{
    let mut name = app_name.to_owned();
    name.append("-postgres-");
    name.append(stage.env_name());
    name
}

/// The name of the cache resource created for an application at a stage.
pub fn redis_name(app_name: &str, stage: Stage) -> (r: String)
    ensures
        r@ == app_name@ + "-redis-"@ + stage_name(stage),
{
    let mut name = app_name.to_owned();
    name.append("-redis-");
    name.append(stage.env_name());
    name
}

/// Prefixes the key of every non-secret variable with `NEXT_PUBLIC_` for a
/// Next.js application, which only exposes such variables to the client; for
/// any other application kind the plan is returned unchanged.
pub fn prefix_public_env_keys(app: &AppDetails, vars: Vec<EnvVar>) -> (r: Vec<EnvVar>)
    ensures
        r@.len() == vars@.len(),
        forall|i: int|
            0 <= i < vars@.len() ==> {
                let v = #[trigger] vars@[i];
                let w = r@[i];
                &&& (match app {
                    AppDetails::NextJsApp(..) => !v.secret ==> w.key@ == "NEXT_PUBLIC_"@
                        + v.key@,
                    AppDetails::NodeJsApiServer(..) => w.key == v.key,
                })
                &&& (v.secret ==> w.key == v.key)
                &&& w.value == v.value
                &&& w.secret == v.secret
                &&& w.no_update == v.no_update
                &&& w.stage == v.stage
            },
{
    let is_next = match app {
        AppDetails::NextJsApp(..) => true,
        AppDetails::NodeJsApiServer(..) => false,
    };
    let mut vars = vars;
    let mut out: Vec<EnvVar> = Vec::new();
    let ghost orig = vars@;
    let mut i: usize = 0;
    while i < vars.len()
        invariant
            vars@ == orig,
            i <= orig.len(),
            out@.len() == i,
            is_next == (app matches AppDetails::NextJsApp(..)),
            forall|k: int|
                0 <= k < i ==> {
                    let v = #[trigger] orig[k];
                    let w = out@[k];
                    &&& (is_next && !v.secret ==> w.key@ == "NEXT_PUBLIC_"@ + v.key@)
                    &&& (!is_next || v.secret ==> w.key == v.key)
                    &&& w.value == v.value
                    &&& w.secret == v.secret
                    &&& w.no_update == v.no_update
                    &&& w.stage == v.stage
                },
        decreases orig.len() - i,
    {
        let v = &vars[i];
        let key = if is_next && !v.secret {
            let mut k = String::from_str("NEXT_PUBLIC_");
            k.append(v.key.as_str());
            k
        } else {
            v.key.clone()
        };
        out.push(
            EnvVar {
                key,
                value: v.value.clone(),
                secret: v.secret,
                no_update: v.no_update,
                stage: v.stage,
            },
        );
        i = i + 1;
    }
    out
}

} // verus!
