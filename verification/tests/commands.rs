use devkit::router::{apply_login, plan_request, render_response};
use devkit::{
    ApiClient, AppsCommands, CliConfig, CliError, Commands, ConfigCommands, Method,
    SecretsCommands,
};

fn secrets(c: SecretsCommands) -> Commands {
    Commands::Secrets { command: c }
}

fn apps(c: AppsCommands) -> Commands {
    Commands::Apps { command: c }
}

fn config(c: ConfigCommands) -> Commands {
    Commands::Config { command: c }
}

#[test]
fn login_scenario_updates_store_and_file() {
    let mut cfg = CliConfig::load(None).unwrap();
    let msg = apply_login(
        &mut cfg,
        "default",
        "https://api.example.com/".to_string(),
        "k1".to_string(),
    );
    assert_eq!(msg, "Saved profile 'default'");
    assert_eq!(cfg.profiles.len(), 1);
    assert_eq!(cfg.profiles[0].name, "default");
    assert_eq!(cfg.profiles[0].base_url, "https://api.example.com");
    assert_eq!(cfg.profiles[0].api_key, "k1");
    let text = cfg.save();
    let back = CliConfig::load(Some(&text)).unwrap();
    assert_eq!(back, cfg);
}

#[test]
fn login_plans_no_request() {
    let cmd = Commands::Login { url: "https://x/".to_string(), api_key: "k".to_string() };
    assert!(plan_request(&cmd).is_none());
}

#[test]
fn client_builds_bearer_url_from_trimmed_base() {
    let client = ApiClient::new("https://api.example.com/".to_string(), "k1".to_string());
    assert_eq!(client.base_url, "https://api.example.com");
    assert_eq!(client.api_key, "k1");
    let url = client.request_url("/api/v1/secrets/s1/decrypt");
    assert_eq!(url, "https://api.example.com/api/v1/secrets/s1/decrypt");
}

#[test]
fn secrets_get_plans_one_get_and_prints_bare_value() {
    let cmd = secrets(SecretsCommands::Get { id: "s1".to_string() });
    let plan = plan_request(&cmd).unwrap();
    assert_eq!(plan.method, Method::Get);
    assert_eq!(plan.path, "/api/v1/secrets/s1/decrypt");
    assert!(plan.body.is_none());
    let body = "{\"id\":\"s1\",\"key\":\"DB_PW\",\"decryptedValue\":\"p@ss\",\"applicationId\":\"a1\"}";
    let lines = render_response(&cmd, 200, body.to_string()).unwrap();
    assert_eq!(lines, vec!["p@ss".to_string()]);
}

#[test]
fn non_success_status_is_a_request_error_with_status_and_body() {
    let cmd = secrets(SecretsCommands::Get { id: "s1".to_string() });
    match render_response(&cmd, 404, "not found".to_string()) {
        Err(CliError::Request { status, body }) => {
            assert_eq!(status, 404);
            assert_eq!(body, "not found");
        }
        other => panic!("expected a request error, got {:?}", other),
    }
}

#[test]
fn success_with_missing_field_is_a_decode_error_not_a_request_error() {
    let cmd = secrets(SecretsCommands::Get { id: "s1".to_string() });
    let body = "{\"id\":\"s1\",\"key\":\"DB_PW\",\"applicationId\":\"a1\"}";
    match render_response(&cmd, 200, body.to_string()) {
        Err(CliError::Decode(_)) => {}
        other => panic!("expected a decode error, got {:?}", other),
    }
}

#[test]
fn apps_create_against_failing_server_reports_status_and_body() {
    let cmd = apps(AppsCommands::Create {
        name: "foo".to_string(),
        description: None,
        owner_email: "a@b.com".to_string(),
    });
    let plan = plan_request(&cmd).unwrap();
    assert_eq!(plan.method, Method::Post);
    assert_eq!(plan.path, "/api/v1/applications");
    assert_eq!(
        plan.body.as_deref(),
        Some("{\"name\":\"foo\",\"description\":null,\"ownerEmail\":\"a@b.com\"}")
    );
    let err = render_response(&cmd, 500, "internal error".to_string()).unwrap_err();
    let msg = err.message();
    assert!(msg.contains("500"));
    assert!(msg.contains("internal error"));
}

#[test]
fn request_error_message_carries_status_and_body() {
    let e = CliError::Request { status: 404, body: "not found".to_string() };
    assert_eq!(e.message(), "Request failed: 404 - not found");
}

#[test]
fn apps_list_renders_tab_separated_rows() {
    let cmd = apps(AppsCommands::List);
    let body = "[{\"id\":\"a1\",\"name\":\"app one\",\"description\":\"d1\",\"ownerEmail\":\"o@x\",\"isActive\":true},{\"id\":\"a2\",\"name\":\"two\",\"description\":null,\"ownerEmail\":\"o@y\",\"isActive\":false}]";
    let lines = render_response(&cmd, 200, body.to_string()).unwrap();
    assert_eq!(lines, vec!["a1\tapp one\td1".to_string(), "a2\ttwo\t".to_string()]);
}

#[test]
fn apps_show_renders_one_line_with_activity() {
    let cmd = apps(AppsCommands::Show { id: "a1".to_string() });
    let body = "{\"id\":\"a1\",\"name\":\"app\",\"description\":null,\"ownerEmail\":\"a@b.com\",\"isActive\":true}";
    let lines = render_response(&cmd, 200, body.to_string()).unwrap();
    assert_eq!(lines, vec!["a1\tapp\ta@b.com\ttrue".to_string()]);
}

#[test]
fn config_get_prints_the_bare_value() {
    let cmd = config(ConfigCommands::Get {
        environment: "prod".to_string(),
        key: "DB_URL".to_string(),
    });
    let plan = plan_request(&cmd).unwrap();
    assert_eq!(plan.path, "/api/v1/configurations/environment/prod/key/DB_URL");
    let body = "{\"id\":\"c1\",\"key\":\"DB_URL\",\"value\":\"postgres://h\",\"type\":\"STRING\",\"isSecret\":false,\"environmentId\":\"prod\"}";
    let lines = render_response(&cmd, 200, body.to_string()).unwrap();
    assert_eq!(lines, vec!["postgres://h".to_string()]);
}

#[test]
fn config_set_posts_the_documented_body() {
    let cmd = config(ConfigCommands::SetValue {
        environment: "prod".to_string(),
        key: "K".to_string(),
        value: "V".to_string(),
        config_type: "STRING".to_string(),
        secret: true,
    });
    let plan = plan_request(&cmd).unwrap();
    assert_eq!(plan.method, Method::Post);
    assert_eq!(plan.path, "/api/v1/configurations");
    assert_eq!(
        plan.body.as_deref(),
        Some(
            "{\"key\":\"K\",\"value\":\"V\",\"type\":\"STRING\",\"description\":null,\"isSecret\":true,\"environmentId\":\"prod\"}"
        )
    );
    let lines = render_response(&cmd, 201, "{\"id\":\"c9\"}".to_string()).unwrap();
    assert_eq!(lines, vec!["Configuration saved".to_string()]);
}

#[test]
fn config_delete_checks_only_the_status() {
    let cmd = config(ConfigCommands::Delete { id: "c1".to_string() });
    let plan = plan_request(&cmd).unwrap();
    assert_eq!(plan.method, Method::Delete);
    assert_eq!(plan.path, "/api/v1/configurations/c1");
    assert!(plan.body.is_none());
    let lines = render_response(&cmd, 204, "".to_string()).unwrap();
    assert_eq!(lines, vec!["Configuration deleted".to_string()]);
}

#[test]
fn secrets_list_paths_with_and_without_environment() {
    let with_env = secrets(SecretsCommands::List {
        application: "a1".to_string(),
        environment: Some("prod".to_string()),
    });
    assert_eq!(
        plan_request(&with_env).unwrap().path,
        "/api/v1/secrets/application/a1/environment/prod"
    );
    let without = secrets(SecretsCommands::List {
        application: "a1".to_string(),
        environment: None,
    });
    assert_eq!(plan_request(&without).unwrap().path, "/api/v1/secrets/application/a1");
}

#[test]
fn secrets_create_sends_all_documented_fields() {
    let cmd = secrets(SecretsCommands::Create {
        key: "DB_PW".to_string(),
        encrypted_value: "enc".to_string(),
        description: Some("d".to_string()),
        application: "a1".to_string(),
        environment: None,
        rotation_policy: "MANUAL".to_string(),
    });
    let plan = plan_request(&cmd).unwrap();
    assert_eq!(plan.method, Method::Post);
    assert_eq!(plan.path, "/api/v1/secrets");
    assert_eq!(
        plan.body.as_deref(),
        Some(
            "{\"key\":\"DB_PW\",\"encryptedValue\":\"enc\",\"description\":\"d\",\"applicationId\":\"a1\",\"environmentId\":null,\"rotationPolicy\":\"MANUAL\"}"
        )
    );
}

#[test]
fn secrets_rotate_and_deactivate_plans() {
    let rot = secrets(SecretsCommands::Rotate {
        id: "s1".to_string(),
        new_encrypted_value: "n".to_string(),
        rotated_by: "me".to_string(),
    });
    let plan = plan_request(&rot).unwrap();
    assert_eq!(plan.path, "/api/v1/secrets/s1/rotate");
    assert_eq!(
        plan.body.as_deref(),
        Some("{\"newEncryptedValue\":\"n\",\"rotatedBy\":\"me\"}")
    );
    let deact = secrets(SecretsCommands::Deactivate { id: "s1".to_string() });
    let plan = plan_request(&deact).unwrap();
    assert_eq!(plan.path, "/api/v1/secrets/s1/deactivate");
    assert_eq!(plan.body.as_deref(), Some("{}"));
}

#[test]
fn rotations_render_four_columns() {
    let cmd = secrets(SecretsCommands::Rotations { secret_id: "s1".to_string() });
    assert_eq!(plan_request(&cmd).unwrap().path, "/api/v1/secrets/s1/rotations");
    let body = "[{\"id\":\"r1\",\"secretId\":\"s1\",\"secretKey\":\"DB_PW\",\"applicationId\":\"a1\",\"rotatedBy\":\"me\",\"status\":\"SUCCESS\",\"reason\":\"manual\",\"rotationDate\":\"2024-01-01\"}]";
    let lines = render_response(&cmd, 200, body.to_string()).unwrap();
    assert_eq!(lines, vec!["r1\tDB_PW\tSUCCESS\t2024-01-01".to_string()]);
}

#[test]
fn recent_path_carries_the_day_count() {
    let cmd = secrets(SecretsCommands::Recent { days: 7 });
    assert_eq!(plan_request(&cmd).unwrap().path, "/api/v1/secrets/rotations/recent?days=7");
    let neg = secrets(SecretsCommands::Recent { days: -3 });
    assert_eq!(plan_request(&neg).unwrap().path, "/api/v1/secrets/rotations/recent?days=-3");
}

#[test]
fn validate_renders_counts_and_details() {
    let cmd = secrets(SecretsCommands::Validate { application: Some("a1".to_string()) });
    assert_eq!(
        plan_request(&cmd).unwrap().path,
        "/api/v1/secrets/validate?applicationId=a1"
    );
    let body = "{\"needsRotation\":[{\"id\":\"s1\"},{\"id\":\"s2\"}],\"expiringSoon\":[],\"details\":{\"checked\":5}}";
    let lines = render_response(&cmd, 200, body.to_string()).unwrap();
    assert_eq!(
        lines,
        vec![
            "needsRotation: 2".to_string(),
            "expiringSoon: 0".to_string(),
            "details: {\"checked\":5}".to_string(),
        ]
    );
}

#[test]
fn stats_render_all_counters_as_written() {
    let cmd = secrets(SecretsCommands::Stats { application: None });
    assert_eq!(plan_request(&cmd).unwrap().path, "/api/v1/secrets/stats");
    let body = "{\"totalRotations\":10,\"successfulRotations\":9,\"failedRotations\":1,\"manualRotations\":5,\"automaticRotations\":5,\"successRate\":90.5}";
    let lines = render_response(&cmd, 200, body.to_string()).unwrap();
    assert_eq!(
        lines,
        vec!["total=10 success=9 failed=1 manual=5 auto=5 rate=90.5".to_string()]
    );
}

#[test]
fn rotate_due_prints_the_response_value() {
    let cmd = secrets(SecretsCommands::RotateDue { application: None });
    let plan = plan_request(&cmd).unwrap();
    assert_eq!(plan.method, Method::Post);
    assert_eq!(plan.path, "/api/v1/secrets/rotate-due");
    assert_eq!(plan.body.as_deref(), Some("{}"));
    let lines = render_response(&cmd, 200, "{\"rotated\":2}".to_string()).unwrap();
    assert_eq!(lines, vec!["{\"rotated\":2}".to_string()]);
}

#[test]
fn garbage_success_body_is_a_decode_error() {
    let cmd = secrets(SecretsCommands::Create {
        key: "k".to_string(),
        encrypted_value: "e".to_string(),
        description: None,
        application: "a".to_string(),
        environment: None,
        rotation_policy: "MANUAL".to_string(),
    });
    match render_response(&cmd, 200, "}{ not a value".to_string()) {
        Err(CliError::Decode(_)) => {}
        other => panic!("expected a decode error, got {:?}", other),
    }
}

#[test]
fn whitespace_in_response_bodies_is_accepted() {
    let cmd = secrets(SecretsCommands::Get { id: "s1".to_string() });
    let body = " { \"id\" : \"s1\" , \"key\" : \"K\" , \"decryptedValue\" : \"v\" , \"applicationId\" : \"a1\" } ";
    let lines = render_response(&cmd, 200, body.to_string()).unwrap();
    assert_eq!(lines, vec!["v".to_string()]);
}

#[test]
fn each_error_variant_renders_its_message() {
    assert_eq!(
        CliError::Transport("dns failure".to_string()).message(),
        "Transport error: dns failure"
    );
    assert_eq!(
        CliError::Decode("bad shape".to_string()).message(),
        "Decode error: bad shape"
    );
    assert_eq!(
        CliError::Storage("disk full".to_string()).message(),
        "Storage error: disk full"
    );
    assert_eq!(
        CliError::Configuration("no home".to_string()).message(),
        "no home"
    );
}

#[test]
fn apps_update_sends_present_and_absent_fields() {
    let cmd = apps(AppsCommands::Update {
        id: "a1".to_string(),
        name: Some("new".to_string()),
        description: None,
    });
    let plan = plan_request(&cmd).unwrap();
    assert_eq!(plan.method, Method::Put);
    assert_eq!(plan.path, "/api/v1/applications/a1");
    assert_eq!(
        plan.body.as_deref(),
        Some("{\"name\":\"new\",\"description\":null}")
    );
    let lines = render_response(&cmd, 200, "{\"ok\":true}".to_string()).unwrap();
    assert_eq!(lines, vec!["Application updated".to_string()]);
}

#[test]
fn config_update_body_keeps_description() {
    let cmd = config(ConfigCommands::Update {
        id: "c1".to_string(),
        value: "v2".to_string(),
        config_type: "STRING".to_string(),
        description: Some("why".to_string()),
        secret: false,
    });
    let plan = plan_request(&cmd).unwrap();
    assert_eq!(plan.path, "/api/v1/configurations/c1");
    assert_eq!(
        plan.body.as_deref(),
        Some("{\"value\":\"v2\",\"type\":\"STRING\",\"description\":\"why\",\"isSecret\":false}")
    );
}

#[test]
fn body_strings_escape_quotes_and_backslashes() {
    let cmd = secrets(SecretsCommands::Rotate {
        id: "s1".to_string(),
        new_encrypted_value: "a\"b\\c".to_string(),
        rotated_by: "me".to_string(),
    });
    let plan = plan_request(&cmd).unwrap();
    assert_eq!(
        plan.body.as_deref(),
        Some("{\"newEncryptedValue\":\"a\\\"b\\\\c\",\"rotatedBy\":\"me\"}")
    );
}

#[test]
fn secrets_get_with_escaped_value_unescapes() {
    let cmd = secrets(SecretsCommands::Get { id: "s1".to_string() });
    let body = "{\"id\":\"s1\",\"key\":\"K\",\"decryptedValue\":\"line\\nnext \\\"q\\\"\",\"applicationId\":\"a1\"}";
    let lines = render_response(&cmd, 200, body.to_string()).unwrap();
    assert_eq!(lines, vec!["line\nnext \"q\"".to_string()]);
}

#[test]
fn empty_list_renders_no_lines() {
    let cmd = apps(AppsCommands::List);
    let lines = render_response(&cmd, 200, "[]".to_string()).unwrap();
    assert!(lines.is_empty());
}
