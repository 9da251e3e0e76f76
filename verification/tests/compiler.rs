use testdrive::compile::{
    build, Action, BuiltinCommand, BuiltinKind, Command, FailSqlCommand, PosCommand, SqlCommand,
    SqlExpectedResult,
};
use testdrive::error::Error;
use testdrive::state::State;
use testdrive::DEFAULT_SQL_TIMEOUT_MS;

fn test_state() -> State {
    State {
        seed: 42,
        temp_dir_path: "/tmp/testdrive".to_string(),
        data_dir: None,
        materialized_addr: "localhost:6875".to_string(),
        schema_registry_url: "http://localhost:8081".to_string(),
        kafka_url: "plaintext://localhost:9092".to_string(),
        kafka_addr_resolved: "127.0.0.1:9092".to_string(),
        protobuf_descriptors: "\\x0a".to_string(),
        protobuf_descriptors_file: "/tmp/testdrive/protobuf-descriptors".to_string(),
        aws_region_name: "us-east-1".to_string(),
        aws_endpoint: "".to_string(),
        aws_account: "000000000000".to_string(),
        aws_access_key_id: "dummy-access-key-id".to_string(),
        aws_secret_access_key: "dummy-secret-access-key".to_string(),
        aws_token: "".to_string(),
        kafka_topics: Vec::new(),
        kinesis_stream_names: Vec::new(),
    }
}

fn builtin(pos: usize, name: &str, args: &[(&str, &str)], input: &[&str]) -> PosCommand {
    PosCommand {
        pos,
        command: Command::Builtin(BuiltinCommand {
            name: name.to_string(),
            args: args.iter().map(|(k, v)| (k.to_string(), v.to_string())).collect(),
            input: input.iter().map(|l| l.to_string()).collect(),
        }),
    }
}

fn sql(pos: usize, query: &str) -> PosCommand {
    PosCommand {
        pos,
        command: Command::Sql(SqlCommand {
            query: query.to_string(),
            expected_result: SqlExpectedResult::Any,
        }),
    }
}

#[test]
fn preserves_source_order() {
    let state = test_state();
    let cmds = vec![
        builtin(1, "kafka-create-topic", &[("topic", "t")], &[]),
        sql(5, "SELECT 1"),
        builtin(7, "set", &[("foo", "bar")], &[]),
        PosCommand {
            pos: 9,
            command: Command::FailSql(FailSqlCommand {
                query: "SELECT oops".to_string(),
                expected_error: "boom".to_string(),
            }),
        },
    ];
    let actions = build(cmds, &state).unwrap();
    let positions: Vec<usize> = actions.iter().map(|a| a.pos).collect();
    assert_eq!(positions, vec![1, 5, 9]);
}

#[test]
fn timeout_binds_only_later_commands() {
    let state = test_state();
    let cmds = vec![
        sql(1, "SELECT 'before'"),
        builtin(2, "set-sql-timeout", &[("duration", "30s")], &[]),
        sql(3, "SELECT 'after'"),
        builtin(4, "set-sql-timeout", &[("duration", "default")], &[]),
        sql(5, "SELECT 'reset'"),
    ];
    let actions = build(cmds, &state).unwrap();
    assert_eq!(actions.len(), 3);
    match &actions[0].action {
        Action::Sql { timeout_ms, .. } => assert_eq!(*timeout_ms, DEFAULT_SQL_TIMEOUT_MS),
        _ => panic!("expected a SQL action"),
    }
    match &actions[1].action {
        Action::Sql { timeout_ms, .. } => assert_eq!(*timeout_ms, 30_000),
        _ => panic!("expected a SQL action"),
    }
    match &actions[2].action {
        Action::Sql { timeout_ms, .. } => assert_eq!(*timeout_ms, DEFAULT_SQL_TIMEOUT_MS),
        _ => panic!("expected a SQL action"),
    }
}

#[test]
fn default_token_ignores_ascii_case() {
    let state = test_state();
    let cmds = vec![
        builtin(1, "set-sql-timeout", &[("duration", "1m")], &[]),
        builtin(2, "set-sql-timeout", &[("duration", "DeFaUlT")], &[]),
        sql(3, "SELECT 1"),
    ];
    let actions = build(cmds, &state).unwrap();
    match &actions[0].action {
        Action::Sql { timeout_ms, .. } => assert_eq!(*timeout_ms, DEFAULT_SQL_TIMEOUT_MS),
        _ => panic!("expected a SQL action"),
    }
}

#[test]
fn unknown_builtin_is_named_with_position() {
    let state = test_state();
    let cmds = vec![builtin(42, "bogus-command", &[], &[])];
    match build(cmds, &state).unwrap_err() {
        Error::Input { msg, pos } => {
            assert_eq!(msg, "unknown built-in command bogus-command");
            assert_eq!(pos, 42);
        }
        other => panic!("expected an input error, got {}", other.message()),
    }
}

#[test]
fn missing_variable_aborts_batch_with_position() {
    let state = test_state();
    let cmds = vec![sql(3, "SELECT 1"), sql(8, "SELECT ${nope}")];
    match build(cmds, &state).unwrap_err() {
        Error::Input { msg, pos } => {
            assert_eq!(msg, "unknown variable: nope");
            assert_eq!(pos, 8);
        }
        other => panic!("expected an input error, got {}", other.message()),
    }
}

#[test]
fn set_extends_environment_for_later_commands() {
    let state = test_state();
    let cmds = vec![
        builtin(1, "set", &[("schema", "public")], &[]),
        sql(2, "SELECT * FROM ${schema}.t"),
    ];
    let actions = build(cmds, &state).unwrap();
    assert_eq!(actions.len(), 1);
    match &actions[0].action {
        Action::Sql { cmd, .. } => assert_eq!(cmd.query, "SELECT * FROM public.t"),
        _ => panic!("expected a SQL action"),
    }
}

#[test]
fn reserved_variables_are_seeded() {
    let state = test_state();
    let cmds = vec![sql(
        1,
        "SELECT '${testdrive.kafka-addr}', '${testdrive.seed}', '${testdrive.aws-region}'",
    )];
    let actions = build(cmds, &state).unwrap();
    match &actions[0].action {
        Action::Sql { cmd, .. } => {
            assert_eq!(cmd.query, "SELECT 'localhost:9092', '42', 'us-east-1'")
        }
        _ => panic!("expected a SQL action"),
    }
}

#[test]
fn kerberos_scheme_is_smoothed_before_parsing() {
    let mut state = test_state();
    state.kafka_url = "SASL_PLAINTEXT://kafka:9092".to_string();
    let cmds = vec![sql(1, "SELECT '${testdrive.kafka-addr}'")];
    let actions = build(cmds, &state).unwrap();
    match &actions[0].action {
        Action::Sql { cmd, .. } => assert_eq!(cmd.query, "SELECT 'kafka:9092'"),
        _ => panic!("expected a SQL action"),
    }
}

#[test]
fn unparseable_broker_url_is_reported_with_hint() {
    let mut state = test_state();
    state.kafka_url = "%%%".to_string();
    match build(vec![], &state).unwrap_err() {
        Error::General { ctx, cause, hints } => {
            assert_eq!(ctx, "reading Kafka broker URL");
            assert!(cause.is_some());
            assert_eq!(
                hints,
                vec!["is %%% a valid URL? e.g. plaintext://localhost:9092".to_string()]
            );
        }
        other => panic!("expected a general error, got {}", other.message()),
    }
}

#[test]
fn hostless_broker_url_is_a_usage_error() {
    let mut state = test_state();
    state.kafka_url = "unix:/run/broker.socket".to_string();
    match build(vec![], &state).unwrap_err() {
        Error::Usage { details, requested } => {
            assert_eq!(details, "invalid Kafka URL unix:/run/broker.socket; need a hostname");
            assert!(!requested);
        }
        other => panic!("expected a usage error, got {}", other.message()),
    }
}

#[test]
fn bad_duration_carries_the_parsers_message() {
    let state = test_state();
    let cmds = vec![builtin(6, "set-sql-timeout", &[("duration", "not-a-duration")], &[])];
    let expected = parse_duration::parse("not-a-duration").unwrap_err().to_string();
    match build(cmds, &state).unwrap_err() {
        Error::Input { msg, pos } => {
            assert_eq!(msg, expected);
            assert_eq!(pos, 6);
        }
        other => panic!("expected an input error, got {}", other.message()),
    }
}

#[test]
fn missing_duration_argument_is_an_input_error() {
    let state = test_state();
    let cmds = vec![builtin(6, "set-sql-timeout", &[], &[])];
    match build(cmds, &state).unwrap_err() {
        Error::Input { msg, pos } => {
            assert_eq!(msg, "missing duration argument");
            assert_eq!(pos, 6);
        }
        other => panic!("expected an input error, got {}", other.message()),
    }
}

#[test]
fn builtin_arguments_and_input_are_substituted() {
    let state = test_state();
    let cmds = vec![builtin(
        1,
        "kafka-ingest",
        &[("topic", "t-${testdrive.seed}")],
        &["{\"seed\": ${testdrive.seed}}"],
    )];
    let actions = build(cmds, &state).unwrap();
    match &actions[0].action {
        Action::Builtin { kind, cmd } => {
            assert_eq!(*kind, BuiltinKind::KafkaIngest);
            assert_eq!(cmd.args, vec![("topic".to_string(), "t-42".to_string())]);
            assert_eq!(cmd.input, vec!["{\"seed\": 42}".to_string()]);
        }
        _ => panic!("expected a builtin action"),
    }
}

#[test]
fn expected_rows_are_substituted() {
    let state = test_state();
    let cmds = vec![
        builtin(1, "set", &[("want", "1")], &[]),
        PosCommand {
            pos: 2,
            command: Command::Sql(SqlCommand {
                query: "SELECT 1".to_string(),
                expected_result: SqlExpectedResult::Full {
                    expected_rows: vec![vec!["${want}".to_string()]],
                },
            }),
        },
    ];
    let actions = build(cmds, &state).unwrap();
    match &actions[0].action {
        Action::Sql { cmd, .. } => match &cmd.expected_result {
            SqlExpectedResult::Full { expected_rows } => {
                assert_eq!(expected_rows, &vec![vec!["1".to_string()]])
            }
            _ => panic!("expected full row matching"),
        },
        _ => panic!("expected a SQL action"),
    }
}

#[test]
fn pseudo_commands_produce_no_action() {
    let state = test_state();
    let cmds = vec![
        builtin(1, "set", &[("a", "b")], &[]),
        builtin(2, "set-execution-count", &[("count", "3")], &[]),
        builtin(3, "set-sql-timeout", &[("duration", "1s")], &[]),
        builtin(4, "random-sleep", &[("duration", "1s")], &[]),
    ];
    let actions = build(cmds, &state).unwrap();
    assert_eq!(actions.len(), 1);
    assert_eq!(actions[0].pos, 4);
    match &actions[0].action {
        Action::Builtin { kind, .. } => assert_eq!(*kind, BuiltinKind::RandomSleep),
        _ => panic!("expected a builtin action"),
    }
}

#[test]
fn extending_a_batch_never_changes_earlier_actions() {
    let state = test_state();
    let prefix_cmds = || {
        vec![
            sql(1, "SELECT '${testdrive.seed}'"),
            builtin(2, "set", &[("x", "y")], &[]),
            sql(3, "SELECT '${x}'"),
        ]
    };
    let mut extended = prefix_cmds();
    extended.push(builtin(4, "set-sql-timeout", &[("duration", "45s")], &[]));
    extended.push(sql(5, "SELECT 'later'"));

    let short = build(prefix_cmds(), &state).unwrap();
    let long = build(extended, &state).unwrap();
    assert!(short.len() <= long.len());
    for (a, b) in short.iter().zip(long.iter()) {
        assert_eq!(format!("{:?}", a), format!("{:?}", b));
    }
}

#[test]
fn every_dispatch_table_entry_compiles() {
    let state = test_state();
    let names = [
        "avro-ocf-write",
        "avro-ocf-append",
        "avro-ocf-verify",
        "file-append",
        "file-delete",
        "kafka-add-partitions",
        "kafka-create-topic",
        "kafka-ingest",
        "kafka-verify",
        "kinesis-create-stream",
        "kinesis-update-shards",
        "kinesis-ingest",
        "kinesis-verify",
        "random-sleep",
    ];
    let cmds = names
        .iter()
        .enumerate()
        .map(|(i, n)| builtin(i, n, &[], &[]))
        .collect::<Vec<_>>();
    let actions = build(cmds, &state).unwrap();
    assert_eq!(actions.len(), names.len());
}
