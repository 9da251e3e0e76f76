use testdrive::error::Error;
use testdrive::state::{
    catalog_data_dir, catalog_probe_path, kafka_config_settings, kinesis_delete_error,
    reset_materialized_statements, reset_statement_error, CatalogProbe, Config, ResetRun, State,
};
use testdrive::text::{format_u64, replace_text};

fn empty_state() -> State {
    State {
        seed: 1,
        temp_dir_path: "/tmp/td".to_string(),
        data_dir: None,
        materialized_addr: "localhost:6875".to_string(),
        schema_registry_url: "http://localhost:8081".to_string(),
        kafka_url: "plaintext://localhost:9092".to_string(),
        kafka_addr_resolved: "127.0.0.1:9092".to_string(),
        protobuf_descriptors: "".to_string(),
        protobuf_descriptors_file: "".to_string(),
        aws_region_name: "us-east-1".to_string(),
        aws_endpoint: "".to_string(),
        aws_account: "000000000000".to_string(),
        aws_access_key_id: "k".to_string(),
        aws_secret_access_key: "s".to_string(),
        aws_token: "".to_string(),
        kafka_topics: Vec::new(),
        kinesis_stream_names: Vec::new(),
    }
}

#[test]
fn default_config_points_at_local_services() {
    let c = Config::default();
    assert_eq!(c.kafka_url, "plaintext://localhost:9092");
    assert_eq!(c.schema_registry_url, "http://localhost:8081");
    assert_eq!(c.aws_account, "000000000000");
    assert_eq!(c.aws_access_key_id, "dummy-access-key-id");
    assert_eq!(c.aws_secret_access_key, "dummy-secret-access-key");
    assert_eq!(c.pg_host, "localhost");
    assert_eq!(c.pg_port, 6875);
    assert!(c.keystore_path.is_none());
    assert!(c.krb5_keytab_path.is_none());
    assert!(c.materialized_catalog_path.is_none());
}

#[test]
fn plain_config_yields_only_bootstrap_servers() {
    let c = Config::default();
    let settings = kafka_config_settings(&c);
    assert_eq!(
        settings,
        vec![("bootstrap.servers".to_string(), "plaintext://localhost:9092".to_string())]
    );
}

#[test]
fn keystore_selects_ssl() {
    let mut c = Config::default();
    c.keystore_path = Some("/certs/keystore.p12".to_string());
    c.keystore_pass = Some("hunter2".to_string());
    let settings = kafka_config_settings(&c);
    assert_eq!(
        settings,
        vec![
            ("bootstrap.servers".to_string(), "plaintext://localhost:9092".to_string()),
            ("security.protocol".to_string(), "ssl".to_string()),
            ("ssl.keystore.location".to_string(), "/certs/keystore.p12".to_string()),
            ("ssl.keystore.password".to_string(), "hunter2".to_string()),
        ]
    );
}

#[test]
fn keytab_selects_sasl_plaintext() {
    let mut c = Config::default();
    c.krb5_keytab_path = Some("/krb/client.keytab".to_string());
    c.krb5_service_name = Some("kafka".to_string());
    c.krb5_principal = Some("client@EXAMPLE.COM".to_string());
    let settings = kafka_config_settings(&c);
    assert_eq!(settings[1], ("security.protocol".to_string(), "sasl_plaintext".to_string()));
    assert_eq!(settings[2], ("sasl.kerberos.keytab".to_string(), "/krb/client.keytab".to_string()));
    assert_eq!(settings[3], ("sasl.kerberos.service.name".to_string(), "kafka".to_string()));
    assert_eq!(
        settings[4],
        ("sasl.kerberos.principal".to_string(), "client@EXAMPLE.COM".to_string())
    );
}

#[test]
fn reset_drops_each_database_then_recreates_default() {
    let stmts = reset_materialized_statements(&vec!["a".to_string(), "b".to_string()]);
    assert_eq!(
        stmts,
        vec![
            "DROP DATABASE a".to_string(),
            "DROP DATABASE b".to_string(),
            "CREATE DATABASE materialize".to_string(),
        ]
    );
}

#[test]
fn reset_run_stops_at_first_failure() {
    // dropping `a` fails: `b` is never dropped and the default database is
    // never recreated
    let stmts = reset_materialized_statements(&vec!["a".to_string(), "b".to_string()]);
    let mut run = ResetRun::new(stmts);
    assert_eq!(run.current().unwrap().as_str(), "DROP DATABASE a");
    run.record(false);
    assert!(run.current().is_none());
}

#[test]
fn reset_run_issues_all_statements_in_order_on_success() {
    let stmts = reset_materialized_statements(&vec!["a".to_string(), "b".to_string()]);
    let mut run = ResetRun::new(stmts);
    let mut issued: Vec<String> = Vec::new();
    while let Some(stmt) = run.current() {
        issued.push(stmt.clone());
        run.record(true);
    }
    assert_eq!(
        issued,
        vec![
            "DROP DATABASE a".to_string(),
            "DROP DATABASE b".to_string(),
            "CREATE DATABASE materialize".to_string(),
        ]
    );
}

#[test]
fn kinesis_reset_never_modifies_the_registry() {
    // deleting s2 fails: s1 was deleted on the service, s3 was never
    // asked for, and the registry still records all three streams
    let mut state = empty_state();
    state.record_kinesis_stream("s1".to_string());
    state.record_kinesis_stream("s2".to_string());
    state.record_kinesis_stream("s3".to_string());

    let mut deleted: Vec<String> = Vec::new();
    let mut failed: Option<String> = None;
    let mut k = 0;
    while let Some(name) = state.kinesis_stream_at(k) {
        if name.as_str() != "s2" {
            deleted.push(name.clone());
            k += 1;
        } else {
            failed = Some(name.clone());
            break;
        }
    }
    assert_eq!(deleted, vec!["s1".to_string()]);
    assert_eq!(failed.unwrap(), "s2");
    assert_eq!(
        state.kinesis_stream_names,
        vec!["s1".to_string(), "s2".to_string(), "s3".to_string()]
    );
}

#[test]
fn kinesis_reset_visits_every_stream_in_order() {
    let mut state = empty_state();
    state.record_kinesis_stream("s1".to_string());
    state.record_kinesis_stream("s2".to_string());
    let mut deleted: Vec<String> = Vec::new();
    let mut k = 0;
    while let Some(name) = state.kinesis_stream_at(k) {
        deleted.push(name.clone());
        k += 1;
    }
    assert_eq!(deleted, vec!["s1".to_string(), "s2".to_string()]);
    // a fully successful reset leaves the registry intact too
    assert_eq!(state.kinesis_stream_names, vec!["s1".to_string(), "s2".to_string()]);
}

#[test]
fn topic_registry_grows_in_order() {
    let mut state = empty_state();
    state.record_kafka_topic("t1".to_string(), 1);
    state.record_kafka_topic("t2".to_string(), 4);
    assert_eq!(state.kafka_topics, vec![("t1".to_string(), 1), ("t2".to_string(), 4)]);
}

#[test]
fn decimal_formatting() {
    assert_eq!(format_u64(0), "0");
    assert_eq!(format_u64(7), "7");
    assert_eq!(format_u64(12700), "12700");
    assert_eq!(format_u64(u64::MAX), "18446744073709551615");
}

#[test]
fn fixed_pattern_replacement() {
    assert_eq!(replace_text("SASL_PLAINTEXT://h", "SASL_PLAINTEXT", "SASL"), "SASL://h");
    assert_eq!(replace_text("aXbXc", "X", "--"), "a--b--c");
    assert_eq!(replace_text("nothing here", "X", "--"), "nothing here");
    assert_eq!(replace_text("XX", "XX", "X"), "X");
}

#[test]
fn catalog_path_gets_the_file_name_appended() {
    assert_eq!(catalog_probe_path(&"/mzdata".to_string()), "/mzdata/catalog");
    assert_eq!(catalog_probe_path(&"/mzdata/catalog".to_string()), "/mzdata/catalog");
    assert_eq!(catalog_probe_path(&"catalog".to_string()), "catalog");
}

#[test]
fn catalog_file_yields_its_directory() {
    let dir = catalog_data_dir(&"/mzdata".to_string(), &CatalogProbe::File).unwrap();
    assert_eq!(dir, "/mzdata");
    let dir = catalog_data_dir(&"/mzdata/catalog".to_string(), &CatalogProbe::File).unwrap();
    assert_eq!(dir, "/mzdata");
}

#[test]
fn catalog_non_file_is_rejected() {
    match catalog_data_dir(&"/mzdata".to_string(), &CatalogProbe::NotFile).unwrap_err() {
        Error::General { ctx, cause, hints } => {
            assert_eq!(ctx, "materialized catalog path is not a regular file");
            assert!(cause.is_none());
            assert!(hints.is_empty());
        }
        other => panic!("expected a general error, got {}", other.message()),
    }
}

#[test]
fn unreadable_catalog_reports_the_probed_path() {
    let probe = CatalogProbe::Missing { error: "no such file".to_string() };
    match catalog_data_dir(&"/mzdata".to_string(), &probe).unwrap_err() {
        Error::General { ctx, cause, hints } => {
            assert_eq!(ctx, "opening materialized catalog path");
            assert_eq!(cause.unwrap(), "no such file");
            assert_eq!(hints, vec!["is /mzdata/catalog accessible to testdrive?".to_string()]);
        }
        other => panic!("expected a general error, got {}", other.message()),
    }
}

#[test]
fn reset_errors_name_what_failed() {
    match reset_statement_error(&"DROP DATABASE a".to_string(), "oops".to_string()) {
        Error::General { ctx, cause, hints } => {
            assert_eq!(ctx, "resetting materialized state: DROP DATABASE a");
            assert_eq!(cause.unwrap(), "oops");
            assert!(hints.is_empty());
        }
        other => panic!("expected a general error, got {}", other.message()),
    }
    match kinesis_delete_error(&"s2".to_string(), "denied".to_string()) {
        Error::General { ctx, cause, hints } => {
            assert_eq!(ctx, "deleting Kinesis stream: s2");
            assert_eq!(cause.unwrap(), "denied");
            assert!(hints.is_empty());
        }
        other => panic!("expected a general error, got {}", other.message()),
    }
}

#[test]
fn input_errors_report_their_position() {
    let e = Error::Input { msg: "unknown variable: foo".to_string(), pos: 37 };
    assert_eq!(e.message(), "unknown variable: foo (at position 37)");
}

#[test]
fn error_messages_compose_context_cause_and_hints() {
    let e = Error::General {
        ctx: "opening SQL connection".to_string(),
        cause: Some("connection refused".to_string()),
        hints: vec![
            "connection string: postgres://localhost:6875".to_string(),
            "are you running the materialized server?".to_string(),
        ],
    };
    assert_eq!(
        e.message(),
        "opening SQL connection: connection refused\
         \nhint: connection string: postgres://localhost:6875\
         \nhint: are you running the materialized server?"
    );

    let plain = Error::General { ctx: "ctx only".to_string(), cause: None, hints: vec![] };
    assert_eq!(plain.message(), "ctx only");
}
