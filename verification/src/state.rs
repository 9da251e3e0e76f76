//! The run-scoped session state the compiler and the reset operations read:
//! session-derived facts as plain values, and the two registries that grow
//! while actions execute — topics created on the broker and streams created
//! on the streaming-log service. The live connection handles themselves sit
//! outside this crate; the logic here decides what they are asked to do.

use vstd::prelude::*;

use crate::error::Error;
use crate::text::string_views;

verus! {

/// User-settable configuration parameters.
pub struct Config {
    pub kafka_url: String,
    pub schema_registry_url: String,
    pub keystore_path: Option<String>,
    pub keystore_pass: Option<String>,
    pub root_cert_path: Option<String>,
    pub krb5_keytab_path: Option<String>,
    pub krb5_service_name: Option<String>,
    pub krb5_principal: Option<String>,
    pub aws_region_name: String,
    pub aws_endpoint: String,
    pub aws_account: String,
    pub aws_access_key_id: String,
    pub aws_secret_access_key: String,
    pub aws_token: String,
    pub pg_host: String,
    pub pg_port: u16,
    pub materialized_catalog_path: Option<String>,
}

impl Default for Config {
    /// Points every connection at a local development setup, with dummy
    /// cloud credentials.
    fn default() -> (r: Config)
        ensures
            r.kafka_url@ == "plaintext://localhost:9092"@,
            r.schema_registry_url@ == "http://localhost:8081"@,
            r.keystore_path is None,
            r.keystore_pass is None,
            r.root_cert_path is None,
            r.krb5_keytab_path is None,
            r.krb5_service_name is None,
            r.krb5_principal is None,
            r.aws_region_name@ == "us-east-1"@,
            r.aws_endpoint@ == Seq::<char>::empty(),
            r.aws_account@ == "000000000000"@,
            r.aws_access_key_id@ == "dummy-access-key-id"@,
            r.aws_secret_access_key@ == "dummy-secret-access-key"@,
            r.aws_token@ == Seq::<char>::empty(),
            r.pg_host@ == "localhost"@,
            r.pg_port == 6875,
            r.materialized_catalog_path is None,
    {
        proof {
            reveal_strlit("");
        }
        Config {
            kafka_url: "plaintext://localhost:9092".to_owned(),
            schema_registry_url: "http://localhost:8081".to_owned(),
            keystore_path: None,
            keystore_pass: None,
            root_cert_path: None,
            krb5_keytab_path: None,
            krb5_service_name: None,
            krb5_principal: None,
            aws_region_name: "us-east-1".to_owned(),
            aws_endpoint: "".to_owned(),
            aws_account: "000000000000".to_owned(),
            aws_access_key_id: "dummy-access-key-id".to_owned(),
            aws_secret_access_key: "dummy-secret-access-key".to_owned(),
            aws_token: "".to_owned(),
            pg_host: "localhost".to_owned(),
            pg_port: 6875,
            materialized_catalog_path: None,
        }
    }
}

/// The broker client settings `config` calls for, in the order they are
/// set: the bootstrap servers; TLS settings exactly where a keystore is
/// given; Kerberos settings exactly where a keytab is given. A later
/// setting of the same key overrides an earlier one, so a keytab's
/// `sasl_plaintext` security protocol wins over a keystore's `ssl`.
pub open spec fn kafka_settings_spec(c: Config) -> Seq<(Seq<char>, Seq<char>)> {
    seq![("bootstrap.servers"@, c.kafka_url@)] + (match c.keystore_path {
        Some(kp) => seq![("security.protocol"@, "ssl"@), ("ssl.keystore.location"@, kp@)] + (
        match c.keystore_pass {
            Some(pass) => seq![("ssl.keystore.password"@, pass@)],
            None => Seq::empty(),
        }) + (match c.root_cert_path {
            Some(root) => seq![("ssl.ca.location"@, root@)],
            None => Seq::empty(),
        }),
        None => Seq::empty(),
    }) + (match c.krb5_keytab_path {
        Some(kt) => seq![
            ("security.protocol"@, "sasl_plaintext"@),
            ("sasl.kerberos.keytab"@, kt@),
        ] + (match c.krb5_service_name {
            Some(sn) => seq![("sasl.kerberos.service.name"@, sn@)],
            None => Seq::empty(),
        }) + (match c.krb5_principal {
            Some(pr) => seq![("sasl.kerberos.principal"@, pr@)],
            None => Seq::empty(),
        }),
        None => Seq::empty(),
    })
}

/// Builds the broker client settings `config` calls for; see
/// [`kafka_settings_spec`].
pub fn kafka_config_settings(config: &Config) -> (r: Vec<(String, String)>)
    ensures
        r@.map_values(|p: (String, String)| (p.0@, p.1@)) == kafka_settings_spec(*config),
{
    let mut out: Vec<(String, String)> = Vec::new();
    out.push(("bootstrap.servers".to_owned(), config.kafka_url.clone()));
    match &config.keystore_path {
        Some(keystore_path) => {
            out.push(("security.protocol".to_owned(), "ssl".to_owned()));
            out.push(("ssl.keystore.location".to_owned(), keystore_path.clone()));
            match &config.keystore_pass {
                Some(keystore_pass) => {
                    out.push(("ssl.keystore.password".to_owned(), keystore_pass.clone()));
                },
                None => {},
            }
            match &config.root_cert_path {
                Some(root_cert_path) => {
                    out.push(("ssl.ca.location".to_owned(), root_cert_path.clone()));
                },
                None => {},
            }
        },
        None => {},
    }
    match &config.krb5_keytab_path {
        Some(krb5_keytab_path) => {
            out.push(("security.protocol".to_owned(), "sasl_plaintext".to_owned()));
            out.push(("sasl.kerberos.keytab".to_owned(), krb5_keytab_path.clone()));
            match &config.krb5_service_name {
                Some(krb5_service_name) => {
                    out.push(
                        ("sasl.kerberos.service.name".to_owned(), krb5_service_name.clone()),
                    );
                },
                None => {},
            }
            match &config.krb5_principal {
                Some(krb5_principal) => {
                    out.push(("sasl.kerberos.principal".to_owned(), krb5_principal.clone()));
                },
                None => {},
            }
        },
        None => {},
    }
    proof {
        assert(out@.map_values(|p: (String, String)| (p.0@, p.1@)) =~= kafka_settings_spec(
            *config,
        ));
    }
    out
}

/// The session: session-derived facts the compiler reads, and the two
/// registries that grow during execution and feed the reset operations.
pub struct State {
    pub seed: u32,
    pub temp_dir_path: String,
    pub data_dir: Option<String>,
    pub materialized_addr: String,
    pub schema_registry_url: String,
    pub kafka_url: String,
    pub kafka_addr_resolved: String,
    pub protobuf_descriptors: String,
    pub protobuf_descriptors_file: String,
    pub aws_region_name: String,
    pub aws_endpoint: String,
    pub aws_account: String,
    pub aws_access_key_id: String,
    pub aws_secret_access_key: String,
    pub aws_token: String,
    pub kafka_topics: Vec<(String, i32)>,
    pub kinesis_stream_names: Vec<String>,
}

impl State {
    /// Records a topic created through the broker admin interface; the
    /// registry only grows.
    pub fn record_kafka_topic(&mut self, name: String, partitions: i32)
        ensures
            final(self).kafka_topics@ == old(self).kafka_topics@.push((name, partitions)),
            final(self).kinesis_stream_names == old(self).kinesis_stream_names,
            *final(self) == (State { kafka_topics: final(self).kafka_topics, ..*old(self) }),
    {
        self.kafka_topics.push((name, partitions));
    }

    /// Records a stream created on the streaming-log service; the registry
    /// only grows.
    pub fn record_kinesis_stream(&mut self, name: String)
        ensures
            final(self).kinesis_stream_names@ == old(self).kinesis_stream_names@.push(name),
            final(self).kafka_topics == old(self).kafka_topics,
            *final(self) == (State {
                kinesis_stream_names: final(self).kinesis_stream_names,
                ..*old(self)
            }),
    {
        self.kinesis_stream_names.push(name);
    }

    /// The stream a streaming-log reset deletes at step `k`, in registry
    /// order. The reset never modifies the registry — it is the exact
    /// record of what the run created, whether each deletion succeeded or
    /// not — so this takes the state immutably and a reset walks a cursor
    /// over it, stopping at the first failure.
    pub fn kinesis_stream_at(&self, k: usize) -> (r: Option<&String>)
        ensures
            match r {
                Some(s) => k < self.kinesis_stream_names@.len() && s@
                    == self.kinesis_stream_names@[k as int]@,
                None => k >= self.kinesis_stream_names@.len(),
            },
    {
        if k < self.kinesis_stream_names.len() {
            Some(&self.kinesis_stream_names[k])
        } else {
            None
        }
    }
}

/// The statement that drops one database.
pub open spec fn drop_statement(db: Seq<char>) -> Seq<char> {
    "DROP DATABASE "@ + db
}

/// The statement that recreates the canonical default database.
pub open spec fn create_default_statement() -> Seq<char> {
    "CREATE DATABASE materialize"@
}

/// One drop statement per database, in listing order.
pub open spec fn drop_statements(dbs: Seq<Seq<char>>) -> Seq<Seq<char>> {
    dbs.map_values(|d: Seq<char>| drop_statement(d))
}

/// The statements a full reset issues: one drop per listed database, in
/// listing order, then the recreation of the default database.
pub open spec fn reset_statements(dbs: Seq<Seq<char>>) -> Seq<Seq<char>> {
    drop_statements(dbs).push(create_default_statement())
}

/// Builds the statement list a reset of the SQL service runs: `dbs` is what
/// introspection listed, in listing order.
pub fn reset_materialized_statements(dbs: &Vec<String>) -> (r: Vec<String>)
    ensures
        string_views(r@) == reset_statements(string_views(dbs@)),
{
    let ghost gdbs = string_views(dbs@);
    let mut out: Vec<String> = Vec::new();
    let mut i: usize = 0;
    proof {
        assert(string_views(out@) =~= drop_statements(gdbs.take(0int)));
    }
    while i < dbs.len()
        invariant
            0 <= i <= dbs.len(),
            gdbs == string_views(dbs@),
            string_views(out@) == drop_statements(gdbs.take(i as int)),
        decreases dbs.len() - i,
    {
        let mut stmt = "DROP DATABASE ".to_owned();
        stmt.append(dbs[i].as_str());
        proof {
            assert(stmt@ == drop_statement(gdbs[i as int]));
        }
        let ghost prev = out@;
        out.push(stmt);
        proof {
            assert(gdbs.len() == dbs@.len());
            assert(string_views(prev).len() == prev.len());
            assert(drop_statements(gdbs.take(i as int)).len() == i);
            assert(prev.len() == i);
            assert(out@.len() == i + 1);
            assert forall|k: int| 0 <= k < i + 1 implies string_views(out@)[k] == drop_statements(
                gdbs.take(i + 1),
            )[k] by {
                if k < i {
                    assert(out@[k] == prev[k]);
                    assert(string_views(prev)[k] == drop_statements(gdbs.take(i as int))[k]);
                } else {
                    assert(out@[k] == stmt);
                }
            }
            assert(string_views(out@) =~= drop_statements(gdbs.take(i + 1)));
        }
        i = i + 1;
    }
    out.push("CREATE DATABASE materialize".to_owned());
    proof {
        assert(gdbs.take(dbs@.len() as int) =~= gdbs);
        assert(string_views(out@) =~= reset_statements(gdbs));
    }
    out
}

/// A fail-fast run over a statement list: statements are issued in order,
/// and the first failure stops the run — nothing after it is issued.
pub struct ResetRun {
    pub statements: Vec<String>,
    pub next: usize,
    pub failed: bool,
}

impl ResetRun {
    pub fn new(statements: Vec<String>) -> (r: ResetRun)
        ensures
            r.statements == statements,
            r.next == 0,
            !r.failed,
    {
        ResetRun { statements, next: 0, failed: false }
    }

    /// The statement to issue now; `None` once the run failed or finished,
    /// so a failed run never issues anything further.
    pub fn current(&self) -> (r: Option<&String>)
        ensures
            match r {
                Some(s) => !self.failed && self.next < self.statements@.len() && s@
                    == self.statements@[self.next as int]@,
                None => self.failed || self.next >= self.statements@.len(),
            },
    {
        if self.failed || self.next >= self.statements.len() {
            None
        } else {
            Some(&self.statements[self.next])
        }
    }

    /// Records the outcome of the current statement: success moves on,
    /// failure latches the run.
    pub fn record(&mut self, ok: bool)
        requires
            !old(self).failed,
            old(self).next < old(self).statements@.len(),
        ensures
            final(self).statements == old(self).statements,
            ok ==> final(self).next == old(self).next + 1 && !final(self).failed,
            !ok ==> final(self).failed && final(self).next == old(self).next,
    {
        if ok {
            let n = self.statements.len();
            proof {
                assert(self.next < n);
            }
            self.next = self.next + 1;
        } else {
            self.failed = true;
        }
    }
}

/// What the filesystem probe of the catalog candidate path showed.
pub enum CatalogProbe {
    /// The candidate exists and is a regular file.
    File,
    /// The candidate exists but is not a regular file.
    NotFile,
    /// The candidate could not be read; carries the probe's message.
    Missing { error: String },
}

/// The configured catalog path already names the catalog file itself as
/// its last `/`-separated component.
pub open spec fn ends_with_catalog(p: Seq<char>) -> bool {
    p == "catalog"@ || (p.len() >= 8 && p.subrange(p.len() - 8, p.len() as int) == "/catalog"@)
}

/// The path the filesystem probe looks at: the configured path, with the
/// catalog file name appended where it is not already the last component.
pub open spec fn catalog_candidate(p: Seq<char>) -> Seq<char> {
    if ends_with_catalog(p) {
        p
    } else {
        p + "/catalog"@
    }
}

/// The data directory a valid catalog path denotes: the candidate without
/// its last component.
pub open spec fn catalog_parent(p: Seq<char>) -> Seq<char> {
    if ends_with_catalog(p) {
        if p == "catalog"@ {
            Seq::empty()
        } else {
            p.subrange(0, p.len() - 8)
        }
    } else {
        p
    }
}

fn ends_with_catalog_exec(path: &String) -> (r: bool)
    ensures
        r == ends_with_catalog(path@),
{
    if *path == "catalog".to_owned() {
        return true;
    }
    let s = path.as_str();
    let n = s.unicode_len();
    if n >= 8 {
        let tail = s.substring_char(n - 8, n).to_owned();
        tail == "/catalog".to_owned()
    } else {
        false
    }
}

/// The path session creation probes for the catalog file.
pub fn catalog_probe_path(path: &String) -> (r: String)
    ensures
        r@ == catalog_candidate(path@),
{
    if ends_with_catalog_exec(path) {
        path.clone()
    } else {
        let mut c = path.clone();
        c.append("/catalog");
        c
    }
}

/// Decides what a configured catalog path means from what the filesystem
/// probe of [`catalog_probe_path`] showed: the data directory holding the
/// catalog, or the error the session reports.
pub fn catalog_data_dir(path: &String, probe: &CatalogProbe) -> (r: Result<String, Error>)
    ensures
        match *probe {
            CatalogProbe::File => (r matches Ok(d) && d@ == catalog_parent(path@)),
            CatalogProbe::NotFile => (r matches Err(e) && e matches Error::General {
                ctx,
                cause,
                hints,
            } && ctx@ == "materialized catalog path is not a regular file"@ && cause is None
                && hints@.len() == 0),
            CatalogProbe::Missing { error } => (r matches Err(e) && e matches Error::General {
                ctx,
                cause,
                hints,
            } && ctx@ == "opening materialized catalog path"@ && (cause matches Some(c) && c@
                == error@) && hints@.len() == 1 && hints@[0]@ == "is "@ + catalog_candidate(path@)
                + " accessible to testdrive?"@),
        },
{
    match probe {
        CatalogProbe::File => {
            if *path == "catalog".to_owned() {
                Ok(String::new())
            } else if ends_with_catalog_exec(path) {
                let s = path.as_str();
                let n = s.unicode_len();
                Ok(s.substring_char(0, n - 8).to_owned())
            } else {
                Ok(path.clone())
            }
        },
        CatalogProbe::NotFile => Err(
            Error::General {
                ctx: "materialized catalog path is not a regular file".to_owned(),
                cause: None,
                hints: Vec::new(),
            },
        ),
        CatalogProbe::Missing { error } => {
            let mut hint = "is ".to_owned();
            hint.append(catalog_probe_path(path).as_str());
            hint.append(" accessible to testdrive?");
            Err(
                Error::General {
                    ctx: "opening materialized catalog path".to_owned(),
                    cause: Some(error.clone()),
                    hints: vec![hint],
                },
            )
        },
    }
}

/// The error a failed statement of the SQL reset reports: the statement
/// named in the context, the underlying cause attached, no hints.
pub fn reset_statement_error(stmt: &String, cause: String) -> (r: Error)
    ensures
        (r matches Error::General { ctx, cause: c, hints } && ctx@
            == "resetting materialized state: "@ + stmt@ && (c matches Some(cc) && cc@ == cause@)
            && hints@.len() == 0),
{
    let mut ctx = "resetting materialized state: ".to_owned();
    ctx.append(stmt.as_str());
    Error::General { ctx, cause: Some(cause), hints: Vec::new() }
}

/// The error a failed stream deletion of the streaming-log reset reports:
/// the stream named in the context, the underlying cause attached, no
/// hints.
pub fn kinesis_delete_error(stream_name: &String, cause: String) -> (r: Error)
    ensures
        (r matches Error::General { ctx, cause: c, hints } && ctx@
            == "deleting Kinesis stream: "@ + stream_name@ && (c matches Some(cc) && cc@ == cause@)
            && hints@.len() == 0),
{
    let mut ctx = "deleting Kinesis stream: ".to_owned();
    ctx.append(stream_name.as_str());
    Error::General { ctx, cause: Some(cause), hints: Vec::new() }
}

} // verus!
