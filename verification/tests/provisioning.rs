//! Tests of the provisioning plan, the provider models, the compact string
//! representation and the hash.

use hstr::app_spec::AppDetails;
use hstr::app_spec::AppSecretsConfig;
use hstr::app_spec::AppSpec;
use hstr::app_spec::DevConfig;
use hstr::app_spec::NodeJsApiServer;
use hstr::app_spec::VercelSecretsConfig;
use hstr::hash::hash_bytes;
use hstr::nextjs::NextJsApp;
use hstr::provision::app_details_env_vars;
use hstr::provision::logto_env_vars;
use hstr::provision::postgres_db_name;
use hstr::provision::prefix_public_env_keys;
use hstr::provision::redis_name;
use hstr::provision::EnvVar;
use hstr::provision::ProvisionOutput;
use hstr::provision::Stage;
use hstr::repr::heap::HeapStr;
use hstr::repr::inline::InlineBuffer;
use hstr::repr::static_ref::StaticStr;
use hstr::repr::Repr;
use hstr::repr::KIND_HEAP;
use hstr::repr::KIND_INLINED;
use hstr::repr::KIND_STATIC;
use hstr::shrink::ShrinkToFit;
use hstr::util::dec_string;
use hstr::vendors::coolify::find_server_by_name;
use hstr::vendors::coolify::Server;
use hstr::vendors::logto::find_app_by_name;
use hstr::vendors::logto::redirect_uris;
use hstr::vendors::logto::App;
use hstr::vendors::vercel::env_var_kind;
use hstr::vendors::vercel::stage_targets;

fn next_js_spec() -> AppSpec {
    AppSpec {
        name: "demo".to_string(),
        domain: "demo.example.com".to_string(),
        dev: DevConfig { port: 3000 },
        app: AppDetails::NextJsApp(NextJsApp { translation: None }),
        secrets: AppSecretsConfig::Vercel(VercelSecretsConfig {
            org: "org".to_string(),
            project: "demo".to_string(),
        }),
        auth: None,
        db: None,
        redis: None,
    }
}

#[test]
fn stage_env_names() {
    assert_eq!(Stage::Development.env_name(), "development");
    assert_eq!(Stage::Production.env_name(), "production");
    assert_eq!(Stage::all(), vec![Stage::Development, Stage::Production]);
}

#[test]
fn app_url_variables() {
    let vars = app_details_env_vars(&next_js_spec());
    assert_eq!(vars.len(), 2);
    assert_eq!(vars[0].key, "APP_URL");
    assert_eq!(vars[0].value, "http://localhost:3000");
    assert_eq!(vars[0].stage, Some(Stage::Development));
    assert!(!vars[0].secret);
    assert_eq!(vars[1].key, "APP_URL");
    assert_eq!(vars[1].value, "https://demo.example.com");
    assert_eq!(vars[1].stage, Some(Stage::Production));

    let mut api = next_js_spec();
    api.app = AppDetails::NodeJsApiServer(NodeJsApiServer {});
    assert_eq!(app_details_env_vars(&api).len(), 0);
}

#[test]
fn public_prefix_for_next_js() {
    let spec = next_js_spec();
    let vars = vec![
        EnvVar {
            key: "LOGTO_ENDPOINT".to_string(),
            value: "https://auth.example.com".to_string(),
            secret: false,
            no_update: false,
            stage: None,
        },
        EnvVar {
            key: "LOGTO_APP_SECRET".to_string(),
            value: "SECRET-REDACTED".to_string(),
            secret: true,
            no_update: false,
            stage: None,
        },
    ];
    let out = prefix_public_env_keys(&spec.app, vars.clone());
    assert_eq!(out[0].key, "NEXT_PUBLIC_LOGTO_ENDPOINT");
    assert_eq!(out[1].key, "LOGTO_APP_SECRET");

    let api = AppDetails::NodeJsApiServer(NodeJsApiServer {});
    let out = prefix_public_env_keys(&api, vars);
    assert_eq!(out[0].key, "LOGTO_ENDPOINT");
    assert_eq!(out[1].key, "LOGTO_APP_SECRET");
}

#[test]
fn logto_variables() {
    let app = App {
        id: "client-id".to_string(),
        name: "demo".to_string(),
        secret: "SECRET-REDACTED".to_string(),
    };
    let vars = logto_env_vars(
        "https://auth.example.com",
        &app,
        vec!["c1".to_string(), "c2".to_string()],
    );
    assert_eq!(vars.len(), 5);
    assert_eq!(vars[0].key, "LOGTO_ENDPOINT");
    assert_eq!(vars[0].value, "https://auth.example.com");
    assert_eq!(vars[1].key, "LOGTO_APP_ID");
    assert_eq!(vars[1].value, "client-id");
    assert_eq!(vars[2].key, "LOGTO_APP_SECRET");
    assert!(vars[2].secret);
    assert_eq!(vars[3].value, "c1");
    assert_eq!(vars[3].stage, Some(Stage::Development));
    assert!(vars[3].no_update);
    assert_eq!(vars[4].value, "c2");
    assert_eq!(vars[4].stage, Some(Stage::Production));
}

#[test]
fn resource_names() {
    assert_eq!(
        postgres_db_name("demo", Stage::Development),
        "demo-postgres-development"
    );
    assert_eq!(postgres_db_name("demo", Stage::Production), "demo-postgres-production");
    assert_eq!(redis_name("demo", Stage::Development), "demo-redis-development");
}

#[test]
fn merge_concatenates_plans() {
    let mut a = ProvisionOutput::default();
    a.env_vars.push(EnvVar {
        key: "A".to_string(),
        value: "1".to_string(),
        secret: false,
        no_update: false,
        stage: None,
    });
    let mut b = ProvisionOutput::default();
    b.env_vars.push(EnvVar {
        key: "B".to_string(),
        value: "2".to_string(),
        secret: false,
        no_update: false,
        stage: None,
    });
    a.merge(b);
    assert_eq!(a.env_vars.len(), 2);
    assert_eq!(a.env_vars[0].key, "A");
    assert_eq!(a.env_vars[1].key, "B");
}

#[test]
fn vercel_decisions() {
    assert_eq!(stage_targets(None), vec!["production", "development"]);
    assert_eq!(stage_targets(Some(Stage::Development)), vec!["development"]);
    assert_eq!(env_var_kind(true), "encrypted");
    assert_eq!(env_var_kind(false), "plain");
}

#[test]
fn callback_urls() {
    let uris = redirect_uris("demo.example.com", 3000);
    assert_eq!(
        uris,
        vec![
            "https://demo.example.com/api/auth/callback".to_string(),
            "http://localhost:3000/api/auth/callback".to_string(),
        ]
    );
}

#[test]
fn provider_lookups() {
    let servers = vec![
        Server { name: "one".to_string(), uuid: "u1".to_string() },
        Server { name: "two".to_string(), uuid: "u2".to_string() },
    ];
    assert_eq!(find_server_by_name(&servers, "two"), Some(1));
    assert_eq!(find_server_by_name(&servers, "three"), None);

    let apps = vec![App {
        id: "i".to_string(),
        name: "demo".to_string(),
        secret: "SECRET-REDACTED".to_string(),
    }];
    assert_eq!(find_app_by_name(&apps, "demo"), Some(0));
    assert_eq!(find_app_by_name(&apps, "other"), None);
}

#[test]
fn repr_kinds_and_round_trip() {
    let empty = Repr::new_dynamic("");
    assert_eq!(empty.kind(), KIND_STATIC);
    assert_eq!(empty.as_str(), "");
    assert_eq!(empty.len(), 0);

    let short = Repr::new_dynamic("short string!!!");
    assert_eq!(short.kind(), KIND_INLINED);
    assert_eq!(short.as_str(), "short string!!!");
    assert_eq!(short.len(), 15);

    let long = Repr::new_dynamic("a longer string.");
    assert_eq!(long.kind(), KIND_HEAP);
    assert_eq!(long.as_str(), "a longer string.");
    assert_eq!(long.len(), 16);

    let stat = Repr::new_static("static");
    assert_eq!(stat.kind(), KIND_STATIC);
    assert_eq!(stat.as_str(), "static");
}

#[test]
fn heap_repr_dealloc() {
    let mut h = HeapStr::new("a very long string indeed");
    assert_eq!(h.as_str(), "a very long string indeed");
    assert_eq!(h.len(), 25);
    h.dealloc();
    assert_eq!(h.as_str(), "");
    assert_eq!(h.len(), 0);
}

#[test]
fn repr_parts_round_trip() {
    let inline = InlineBuffer::new("packed");
    assert_eq!(inline.as_str(), "packed");
    assert_eq!(inline.len(), 6);
    let stat = StaticStr::new("fixed text");
    assert_eq!(stat.as_str(), "fixed text");
    assert_eq!(stat.len(), 10);
}

#[test]
fn fnv_hash_values() {
    // 64-bit FNV-1a of the empty input is the offset basis.
    assert_eq!(hash_bytes(b""), 0xcbf2_9ce4_8422_2325);
    // One known single-byte value.
    assert_eq!(hash_bytes(b"a"), 0xaf63_dc4c_8601_ec8c);
    assert_eq!(hash_bytes(b"hello"), hash_bytes(b"hello"));
    assert_ne!(hash_bytes(b"hello"), hash_bytes(b"world"));
}

#[test]
fn decimal_strings() {
    assert_eq!(dec_string(0), "0");
    assert_eq!(dec_string(7), "7");
    assert_eq!(dec_string(65535), "65535");
    assert_eq!(dec_string(3000), "3000");
}

#[test]
fn shrinking_keeps_contents() {
    let mut s = String::with_capacity(100);
    s.push_str("contents");
    ShrinkToFit::shrink_to_fit(&mut s);
    assert_eq!(s, "contents");
    assert_eq!(s.capacity(), 8);

    let mut v: Vec<u8> = Vec::with_capacity(100);
    v.push(1);
    v.push(2);
    ShrinkToFit::shrink_to_fit(&mut v);
    assert_eq!(v, vec![1, 2]);
    assert_eq!(v.capacity(), 2);
}
