//! The action compiler: consumes the parsed command sequence together with
//! the variable environment and an evolving build context (the current SQL
//! timeout), and produces the ordered list of position-tagged actions.
//! Compilation is all-or-nothing: the first command that fails to compile
//! aborts the whole batch.

use vstd::prelude::*;

use crate::error::Error;
use crate::ext;
use crate::state::State;
use crate::subst::{scan, substitute, SubstError};
use crate::text;
use crate::text::{pair_views, row_views, string_views};
use crate::vars::{merged, Environment};
use crate::DEFAULT_SQL_TIMEOUT_MS;

verus! {

/// A named, non-SQL script instruction with string-keyed arguments and an
/// optional multi-line input body.
#[derive(Debug)]
pub struct BuiltinCommand {
    pub name: String,
    pub args: Vec<(String, String)>,
    pub input: Vec<String>,
}

/// What a successful query is expected to return: the full expected rows,
/// or anything.
#[derive(Debug)]
pub enum SqlExpectedResult {
    Full { expected_rows: Vec<Vec<String>> },
    Any,
}

/// A query expected to succeed.
#[derive(Debug)]
pub struct SqlCommand {
    pub query: String,
    pub expected_result: SqlExpectedResult,
}

/// A query expected to fail with a matching error.
#[derive(Debug)]
pub struct FailSqlCommand {
    pub query: String,
    pub expected_error: String,
}

#[derive(Debug)]
pub enum Command {
    Builtin(BuiltinCommand),
    Sql(SqlCommand),
    FailSql(FailSqlCommand),
}

/// A command together with its source position.
#[derive(Debug)]
pub struct PosCommand {
    pub pos: usize,
    pub command: Command,
}

/// The builtin operations that compile to an action, one constructor per
/// supported name.
#[derive(Clone, Copy, Debug, PartialEq, Eq, Structural)]
pub enum BuiltinKind {
    AvroOcfWrite,
    AvroOcfAppend,
    AvroOcfVerify,
    FileAppend,
    FileDelete,
    KafkaAddPartitions,
    KafkaCreateTopic,
    KafkaIngest,
    KafkaVerify,
    KinesisCreateStream,
    KinesisUpdateShards,
    KinesisIngest,
    KinesisVerify,
    RandomSleep,
}

/// A compiled, executable and reversible unit: a builtin operation with its
/// substituted command, or a query action bound to the timeout in force
/// when it was compiled.
#[derive(Debug)]
pub enum Action {
    Builtin { kind: BuiltinKind, cmd: BuiltinCommand },
    Sql { cmd: SqlCommand, timeout_ms: u128 },
    FailSql { cmd: FailSqlCommand, timeout_ms: u128 },
}

/// A compiled action paired with the source position of the command it came
/// from.
#[derive(Debug)]
pub struct PosAction {
    pub pos: usize,
    pub action: Action,
}

pub ghost struct GBuiltin {
    pub name: Seq<char>,
    pub args: Seq<(Seq<char>, Seq<char>)>,
    pub input: Seq<Seq<char>>,
}

pub ghost enum GSqlExpect {
    Full { rows: Seq<Seq<Seq<char>>> },
    Any,
}

pub ghost struct GSql {
    pub query: Seq<char>,
    pub expected: GSqlExpect,
}

pub ghost struct GFailSql {
    pub query: Seq<char>,
    pub expected_error: Seq<char>,
}

pub ghost enum GAction {
    Builtin { kind: BuiltinKind, cmd: GBuiltin },
    Sql { cmd: GSql, timeout_ms: u128 },
    FailSql { cmd: GFailSql, timeout_ms: u128 },
}

pub ghost struct GPosAction {
    pub pos: int,
    pub action: GAction,
}

impl View for BuiltinCommand {
    type V = GBuiltin;

    open spec fn view(&self) -> GBuiltin {
        GBuiltin { name: self.name@, args: pair_views(self.args@), input: string_views(self.input@) }
    }
}

impl View for SqlCommand {
    type V = GSql;

    open spec fn view(&self) -> GSql {
        GSql {
            query: self.query@,
            expected: match self.expected_result {
                SqlExpectedResult::Full { expected_rows } => GSqlExpect::Full {
                    rows: row_views(expected_rows@),
                },
                SqlExpectedResult::Any => GSqlExpect::Any,
            },
        }
    }
}

impl View for FailSqlCommand {
    type V = GFailSql;

    open spec fn view(&self) -> GFailSql {
        GFailSql { query: self.query@, expected_error: self.expected_error@ }
    }
}

impl View for Action {
    type V = GAction;

    open spec fn view(&self) -> GAction {
        match self {
            Action::Builtin { kind, cmd } => GAction::Builtin { kind: *kind, cmd: cmd@ },
            Action::Sql { cmd, timeout_ms } => GAction::Sql { cmd: cmd@, timeout_ms: *timeout_ms },
            Action::FailSql { cmd, timeout_ms } => GAction::FailSql {
                cmd: cmd@,
                timeout_ms: *timeout_ms,
            },
        }
    }
}

impl View for PosAction {
    type V = GPosAction;

    open spec fn view(&self) -> GPosAction {
        GPosAction { pos: self.pos as int, action: self.action@ }
    }
}

/// The views of a list of positioned actions.
pub open spec fn pos_action_views(v: Seq<PosAction>) -> Seq<GPosAction> {
    v.map_values(|a: PosAction| a@)
}

/// Why a batch failed to compile, in structural form; [`err_matches`] says
/// how each case renders as an [`Error`].
pub ghost enum GBuildError {
    /// The broker URL did not parse.
    UrlUnparseable { url: Seq<char> },
    /// The broker URL parsed but names no host.
    UrlNoHost { url: Seq<char> },
    /// A substituted field referenced this unbound variable.
    MissingVar { name: Seq<char>, pos: int },
    /// A builtin name outside the dispatch table.
    UnknownBuiltin { name: Seq<char>, pos: int },
    /// `set-sql-timeout` without a `duration` argument.
    MissingDuration { pos: int },
    /// `set-sql-timeout` with a duration the parser rejects; the message
    /// is the duration parser's own.
    BadDuration { message: Seq<char>, pos: int },
}

/// How a structural compile error renders as an [`Error`] value.
pub open spec fn err_matches(e: Error, g: GBuildError) -> bool {
    match g {
        GBuildError::UrlUnparseable { url } => e matches Error::General { ctx, cause, hints }
            && ctx@ == "reading Kafka broker URL"@ && cause is Some && hints@.len() == 1
            && hints@[0]@ == "is "@ + url + " a valid URL? e.g. plaintext://localhost:9092"@,
        GBuildError::UrlNoHost { url } => e matches Error::Usage { details, requested }
            && details@ == "invalid Kafka URL "@ + url + "; need a hostname"@ && !requested,
        GBuildError::MissingVar { name, pos } => e matches Error::Input { msg, pos: p } && msg@
            == "unknown variable: "@ + name && p as int == pos,
        GBuildError::UnknownBuiltin { name, pos } => e matches Error::Input { msg, pos: p } && msg@
            == "unknown built-in command "@ + name && p as int == pos,
        GBuildError::MissingDuration { pos } => e matches Error::Input { msg, pos: p } && msg@
            == "missing duration argument"@ && p as int == pos,
        GBuildError::BadDuration { message, pos } => e matches Error::Input { msg, pos: p } && msg@
            == message && p as int == pos,
    }
}

/// Substitution over a list of texts, in order; the first text whose
/// substitution fails decides the reported name.
pub open spec fn subst_all(items: Seq<Seq<char>>, env: Map<Seq<char>, Seq<char>>) -> Result<
    Seq<Seq<char>>,
    Seq<char>,
>
    decreases items.len(),
{
    if items.len() == 0 {
        Ok(Seq::empty())
    } else {
        let s0 = scan(items[0], env, 0);
        if s0.missing is Some {
            Err(s0.missing->Some_0)
        } else {
            match subst_all(items.drop_first(), env) {
                Ok(rest) => Ok(seq![s0.out] + rest),
                Err(e) => Err(e),
            }
        }
    }
}

/// Substitution over the values of an argument mapping, keys kept.
pub open spec fn subst_args(
    args: Seq<(Seq<char>, Seq<char>)>,
    env: Map<Seq<char>, Seq<char>>,
) -> Result<Seq<(Seq<char>, Seq<char>)>, Seq<char>>
    decreases args.len(),
{
    if args.len() == 0 {
        Ok(Seq::empty())
    } else {
        let s0 = scan(args[0].1, env, 0);
        if s0.missing is Some {
            Err(s0.missing->Some_0)
        } else {
            match subst_args(args.drop_first(), env) {
                Ok(rest) => Ok(seq![(args[0].0, s0.out)] + rest),
                Err(e) => Err(e),
            }
        }
    }
}

/// Substitution over every column of every expected row.
pub open spec fn subst_rows(
    rows: Seq<Seq<Seq<char>>>,
    env: Map<Seq<char>, Seq<char>>,
) -> Result<Seq<Seq<Seq<char>>>, Seq<char>>
    decreases rows.len(),
{
    if rows.len() == 0 {
        Ok(Seq::empty())
    } else {
        match subst_all(rows[0], env) {
            Err(e) => Err(e),
            Ok(r0) => match subst_rows(rows.drop_first(), env) {
                Ok(rest) => Ok(seq![r0] + rest),
                Err(e) => Err(e),
            },
        }
    }
}

/// The value of the named argument; a later entry for the same key wins.
pub open spec fn arg_get(args: Seq<(Seq<char>, Seq<char>)>, name: Seq<char>) -> Option<Seq<char>>
    decreases args.len(),
{
    if args.len() == 0 {
        None
    } else if args.last().0 == name {
        Some(args.last().1)
    } else {
        arg_get(args.drop_last(), name)
    }
}

/// The builtin dispatch table: which names compile to which action kinds.
/// The pseudo-commands `set-sql-timeout`, `set-execution-count` and `set`
/// are not here: they produce no action.
pub open spec fn builtin_kind_of(name: Seq<char>) -> Option<BuiltinKind> {
    if name == "avro-ocf-write"@ {
        Some(BuiltinKind::AvroOcfWrite)
    } else if name == "avro-ocf-append"@ {
        Some(BuiltinKind::AvroOcfAppend)
    } else if name == "avro-ocf-verify"@ {
        Some(BuiltinKind::AvroOcfVerify)
    } else if name == "file-append"@ {
        Some(BuiltinKind::FileAppend)
    } else if name == "file-delete"@ {
        Some(BuiltinKind::FileDelete)
    } else if name == "kafka-add-partitions"@ {
        Some(BuiltinKind::KafkaAddPartitions)
    } else if name == "kafka-create-topic"@ {
        Some(BuiltinKind::KafkaCreateTopic)
    } else if name == "kafka-ingest"@ {
        Some(BuiltinKind::KafkaIngest)
    } else if name == "kafka-verify"@ {
        Some(BuiltinKind::KafkaVerify)
    } else if name == "kinesis-create-stream"@ {
        Some(BuiltinKind::KinesisCreateStream)
    } else if name == "kinesis-update-shards"@ {
        Some(BuiltinKind::KinesisUpdateShards)
    } else if name == "kinesis-ingest"@ {
        Some(BuiltinKind::KinesisIngest)
    } else if name == "kinesis-verify"@ {
        Some(BuiltinKind::KinesisVerify)
    } else if name == "random-sleep"@ {
        Some(BuiltinKind::RandomSleep)
    } else {
        None
    }
}

/// The literal token `default`, compared without regard to ASCII case.
pub open spec fn is_default_token(s: Seq<char>) -> bool {
    s.len() == 7 && (s[0] == 'd' || s[0] == 'D') && (s[1] == 'e' || s[1] == 'E') && (s[2] == 'f'
        || s[2] == 'F') && (s[3] == 'a' || s[3] == 'A') && (s[4] == 'u' || s[4] == 'U') && (s[5]
        == 'l' || s[5] == 'L') && (s[6] == 't' || s[6] == 'T')
}

fn str_is(s: &String, lit: &str) -> (r: bool)
    ensures
        r == (s@ == lit@),
{
    *s == lit.to_owned()
}

fn is_default_token_exec(s: &String) -> (r: bool)
    ensures
        r == is_default_token(s@),
{
    let st = s.as_str();
    let n = st.unicode_len();
    if n != 7 {
        return false;
    }
    (st.get_char(0) == 'd' || st.get_char(0) == 'D') && (st.get_char(1) == 'e' || st.get_char(1)
        == 'E') && (st.get_char(2) == 'f' || st.get_char(2) == 'F') && (st.get_char(3) == 'a'
        || st.get_char(3) == 'A') && (st.get_char(4) == 'u' || st.get_char(4) == 'U') && (
    st.get_char(5) == 'l' || st.get_char(5) == 'L') && (st.get_char(6) == 't' || st.get_char(6)
        == 'T')
}

fn builtin_kind(name: &String) -> (r: Option<BuiltinKind>)
    ensures
        r == builtin_kind_of(name@),
{
    if str_is(name, "avro-ocf-write") {
        Some(BuiltinKind::AvroOcfWrite)
    } else if str_is(name, "avro-ocf-append") {
        Some(BuiltinKind::AvroOcfAppend)
    } else if str_is(name, "avro-ocf-verify") {
        Some(BuiltinKind::AvroOcfVerify)
    } else if str_is(name, "file-append") {
        Some(BuiltinKind::FileAppend)
    } else if str_is(name, "file-delete") {
        Some(BuiltinKind::FileDelete)
    } else if str_is(name, "kafka-add-partitions") {
        Some(BuiltinKind::KafkaAddPartitions)
    } else if str_is(name, "kafka-create-topic") {
        Some(BuiltinKind::KafkaCreateTopic)
    } else if str_is(name, "kafka-ingest") {
        Some(BuiltinKind::KafkaIngest)
    } else if str_is(name, "kafka-verify") {
        Some(BuiltinKind::KafkaVerify)
    } else if str_is(name, "kinesis-create-stream") {
        Some(BuiltinKind::KinesisCreateStream)
    } else if str_is(name, "kinesis-update-shards") {
        Some(BuiltinKind::KinesisUpdateShards)
    } else if str_is(name, "kinesis-ingest") {
        Some(BuiltinKind::KinesisIngest)
    } else if str_is(name, "kinesis-verify") {
        Some(BuiltinKind::KinesisVerify)
    } else if str_is(name, "random-sleep") {
        Some(BuiltinKind::RandomSleep)
    } else {
        None
    }
}

fn subst_strings(items: &Vec<String>, env: &Environment) -> (r: Result<Vec<String>, SubstError>)
    ensures
        match r {
            Ok(out) => subst_all(string_views(items@), env@) == Ok::<Seq<Seq<char>>, Seq<char>>(
                string_views(out@),
            ),
            Err(e) => subst_all(string_views(items@), env@) == Err::<Seq<Seq<char>>, Seq<char>>(
                e.name@,
            ),
        },
{
    let ghost gitems = string_views(items@);
    let mut out: Vec<String> = Vec::new();
    let mut i: usize = 0;
    proof {
        assert(gitems.len() == items@.len());
        assert(gitems.skip(0int) =~= gitems);
        assert(string_views(out@) =~= Seq::<Seq<char>>::empty());
    }
    while i < items.len()
        invariant
            i <= items.len(),
            gitems == string_views(items@),
            gitems.len() == items@.len(),
            subst_all(gitems, env@) == (match subst_all(gitems.skip(i as int), env@) {
                Ok(rest) => Ok::<Seq<Seq<char>>, Seq<char>>(string_views(out@) + rest),
                Err(e) => Err::<Seq<Seq<char>>, Seq<char>>(e),
            }),
        decreases items.len() - i,
    {
        proof {
            assert(gitems.skip(i as int)[0] == gitems[i as int]);
            assert(gitems[i as int] == items@[i as int]@);
            assert(gitems.skip(i as int).drop_first() =~= gitems.skip(i + 1));
        }
        match substitute(items[i].as_str(), env) {
            Ok(s) => {
                let ghost prev = out@;
                out.push(s);
                proof {
                    assert(string_views(out@) =~= string_views(prev).push(
                        scan(gitems[i as int], env@, 0).out,
                    ));
                    if subst_all(gitems.skip(i + 1), env@) is Ok {
                        assert(string_views(prev) + (seq![scan(gitems[i as int], env@, 0).out]
                            + subst_all(gitems.skip(i + 1), env@)->Ok_0) =~= string_views(out@)
                            + subst_all(gitems.skip(i + 1), env@)->Ok_0);
                    }
                }
                i = i + 1;
            },
            Err(e) => {
                return Err(e);
            },
        }
    }
    proof {
        assert(gitems.skip(gitems.len() as int) =~= Seq::<Seq<char>>::empty());
        assert(string_views(out@) + Seq::<Seq<char>>::empty() =~= string_views(out@));
    }
    Ok(out)
}

fn subst_pairs(args: &Vec<(String, String)>, env: &Environment) -> (r: Result<
    Vec<(String, String)>,
    SubstError,
>)
    ensures
        match r {
            Ok(out) => subst_args(pair_views(args@), env@) == Ok::<
                Seq<(Seq<char>, Seq<char>)>,
                Seq<char>,
            >(pair_views(out@)),
            Err(e) => subst_args(pair_views(args@), env@) == Err::<
                Seq<(Seq<char>, Seq<char>)>,
                Seq<char>,
            >(e.name@),
        },
{
    let ghost gargs = pair_views(args@);
    let mut out: Vec<(String, String)> = Vec::new();
    let mut i: usize = 0;
    proof {
        assert(gargs.len() == args@.len());
        assert(gargs.skip(0int) =~= gargs);
        assert(pair_views(out@) =~= Seq::<(Seq<char>, Seq<char>)>::empty());
    }
    while i < args.len()
        invariant
            i <= args.len(),
            gargs == pair_views(args@),
            gargs.len() == args@.len(),
            subst_args(gargs, env@) == (match subst_args(gargs.skip(i as int), env@) {
                Ok(rest) => Ok::<Seq<(Seq<char>, Seq<char>)>, Seq<char>>(pair_views(out@) + rest),
                Err(e) => Err::<Seq<(Seq<char>, Seq<char>)>, Seq<char>>(e),
            }),
        decreases args.len() - i,
    {
        proof {
            assert(gargs.skip(i as int)[0] == gargs[i as int]);
            assert(gargs[i as int] == (args@[i as int].0@, args@[i as int].1@));
            assert(gargs.skip(i as int).drop_first() =~= gargs.skip(i + 1));
        }
        match substitute(args[i].1.as_str(), env) {
            Ok(s) => {
                let ghost prev = out@;
                let key = args[i].0.clone();
                out.push((key, s));
                proof {
                    assert(pair_views(out@) =~= pair_views(prev).push(
                        (gargs[i as int].0, scan(gargs[i as int].1, env@, 0).out),
                    ));
                    if subst_args(gargs.skip(i + 1), env@) is Ok {
                        assert(pair_views(prev) + (seq![
                            (gargs[i as int].0, scan(gargs[i as int].1, env@, 0).out),
                        ] + subst_args(gargs.skip(i + 1), env@)->Ok_0) =~= pair_views(out@)
                            + subst_args(gargs.skip(i + 1), env@)->Ok_0);
                    }
                }
                i = i + 1;
            },
            Err(e) => {
                return Err(e);
            },
        }
    }
    proof {
        assert(gargs.skip(gargs.len() as int) =~= Seq::<(Seq<char>, Seq<char>)>::empty());
        assert(pair_views(out@) + Seq::<(Seq<char>, Seq<char>)>::empty() =~= pair_views(out@));
    }
    Ok(out)
}

fn subst_rows_exec(rows: &Vec<Vec<String>>, env: &Environment) -> (r: Result<
    Vec<Vec<String>>,
    SubstError,
>)
    ensures
        match r {
            Ok(out) => subst_rows(row_views(rows@), env@) == Ok::<Seq<Seq<Seq<char>>>, Seq<char>>(
                row_views(out@),
            ),
            Err(e) => subst_rows(row_views(rows@), env@) == Err::<Seq<Seq<Seq<char>>>, Seq<char>>(
                e.name@,
            ),
        },
{
    let ghost grows = row_views(rows@);
    let mut out: Vec<Vec<String>> = Vec::new();
    let mut i: usize = 0;
    proof {
        assert(grows.len() == rows@.len());
        assert(grows.skip(0int) =~= grows);
        assert(row_views(out@) =~= Seq::<Seq<Seq<char>>>::empty());
    }
    while i < rows.len()
        invariant
            i <= rows.len(),
            grows == row_views(rows@),
            grows.len() == rows@.len(),
            subst_rows(grows, env@) == (match subst_rows(grows.skip(i as int), env@) {
                Ok(rest) => Ok::<Seq<Seq<Seq<char>>>, Seq<char>>(row_views(out@) + rest),
                Err(e) => Err::<Seq<Seq<Seq<char>>>, Seq<char>>(e),
            }),
        decreases rows.len() - i,
    {
        proof {
            assert(grows.skip(i as int)[0] == grows[i as int]);
            assert(grows[i as int] == string_views(rows@[i as int]@));
            assert(grows.skip(i as int).drop_first() =~= grows.skip(i + 1));
        }
        match subst_strings(&rows[i], env) {
            Ok(row) => {
                let ghost prev = out@;
                let ghost grow = string_views(row@);
                out.push(row);
                proof {
                    assert(row_views(out@) =~= row_views(prev).push(grow));
                    if subst_rows(grows.skip(i + 1), env@) is Ok {
                        assert(row_views(prev) + (seq![grow] + subst_rows(
                            grows.skip(i + 1),
                            env@,
                        )->Ok_0) =~= row_views(out@) + subst_rows(grows.skip(i + 1), env@)->Ok_0);
                    }
                }
                i = i + 1;
            },
            Err(e) => {
                return Err(e);
            },
        }
    }
    proof {
        assert(grows.skip(grows.len() as int) =~= Seq::<Seq<Seq<char>>>::empty());
        assert(row_views(out@) + Seq::<Seq<Seq<char>>>::empty() =~= row_views(out@));
    }
    Ok(out)
}

fn arg_get_exec(args: &Vec<(String, String)>, name: &str) -> (r: Option<String>)
    ensures
        match r {
            Some(v) => arg_get(pair_views(args@), name@) == Some(v@),
            None => arg_get(pair_views(args@), name@) is None,
        },
{
    let ghost gargs = pair_views(args@);
    let mut k: usize = args.len();
    proof {
        assert(gargs.len() == args@.len());
        assert(gargs.take(k as int) =~= gargs);
    }
    while k > 0
        invariant
            k <= args.len(),
            gargs == pair_views(args@),
            gargs.len() == args@.len(),
            arg_get(gargs, name@) == arg_get(gargs.take(k as int), name@),
        decreases k,
    {
        proof {
            assert(gargs.take(k as int).drop_last() =~= gargs.take(k - 1));
            assert(gargs.take(k as int).last() == gargs[k - 1]);
            assert(gargs[k - 1] == (args@[k - 1].0@, args@[k - 1].1@));
        }
        let lookup = name.to_owned();
        let e = &args[k - 1];
        if e.0 == lookup {
            return Some(e.1.clone());
        }
        k = k - 1;
    }
    proof {
        assert(gargs.take(0int) =~= Seq::<(Seq<char>, Seq<char>)>::empty());
    }
    None
}

/// One compilation step's outcome: the action it produced, if any, and the
/// variable environment and build context every later command sees.
pub ghost struct GStep {
    pub action: Option<GAction>,
    pub vars: Map<Seq<char>, Seq<char>>,
    pub timeout_ms: u128,
}

/// Compiles one builtin command: substitute every argument value and input
/// line, then dispatch on the name. The three pseudo-commands update the
/// environment or the build context and produce no action.
pub open spec fn compile_builtin(
    pos: int,
    b: GBuiltin,
    vars: Map<Seq<char>, Seq<char>>,
    timeout_ms: u128,
) -> Result<GStep, GBuildError> {
    match subst_args(b.args, vars) {
        Err(n) => Err(GBuildError::MissingVar { name: n, pos }),
        Ok(args) => match subst_all(b.input, vars) {
            Err(n) => Err(GBuildError::MissingVar { name: n, pos }),
            Ok(input) => if b.name == "set-sql-timeout"@ {
                match arg_get(args, "duration"@) {
                    None => Err(GBuildError::MissingDuration { pos }),
                    Some(d) => if is_default_token(d) {
                        Ok(GStep { action: None, vars, timeout_ms: DEFAULT_SQL_TIMEOUT_MS })
                    } else {
                        match ext::duration_millis_of(d) {
                            Some(ms) => Ok(GStep { action: None, vars, timeout_ms: ms }),
                            None => Err(
                                GBuildError::BadDuration {
                                    message: ext::duration_error_of(d),
                                    pos,
                                },
                            ),
                        }
                    },
                }
            } else if b.name == "set-execution-count"@ {
                Ok(GStep { action: None, vars, timeout_ms })
            } else if b.name == "set"@ {
                Ok(GStep { action: None, vars: merged(vars, args), timeout_ms })
            } else {
                match builtin_kind_of(b.name) {
                    Some(kind) => Ok(
                        GStep {
                            action: Some(
                                GAction::Builtin { kind, cmd: GBuiltin { name: b.name, args, input } },
                            ),
                            vars,
                            timeout_ms,
                        },
                    ),
                    None => Err(GBuildError::UnknownBuiltin { name: b.name, pos }),
                }
            },
        },
    }
}

/// Compiles a query expected to succeed: substitute the query text and the
/// expected rows, and bind the current timeout.
pub open spec fn compile_sql(
    pos: int,
    s: GSql,
    vars: Map<Seq<char>, Seq<char>>,
    timeout_ms: u128,
) -> Result<GStep, GBuildError> {
    let q = scan(s.query, vars, 0);
    if q.missing is Some {
        Err(GBuildError::MissingVar { name: q.missing->Some_0, pos })
    } else {
        match s.expected {
            GSqlExpect::Full { rows } => match subst_rows(rows, vars) {
                Err(n) => Err(GBuildError::MissingVar { name: n, pos }),
                Ok(rs) => Ok(
                    GStep {
                        action: Some(
                            GAction::Sql {
                                cmd: GSql { query: q.out, expected: GSqlExpect::Full { rows: rs } },
                                timeout_ms,
                            },
                        ),
                        vars,
                        timeout_ms,
                    },
                ),
            },
            GSqlExpect::Any => Ok(
                GStep {
                    action: Some(
                        GAction::Sql {
                            cmd: GSql { query: q.out, expected: GSqlExpect::Any },
                            timeout_ms,
                        },
                    ),
                    vars,
                    timeout_ms,
                },
            ),
        }
    }
}

/// Compiles a query expected to fail: substitute the query text and the
/// expected error text, and bind the current timeout.
pub open spec fn compile_fail_sql(
    pos: int,
    f: GFailSql,
    vars: Map<Seq<char>, Seq<char>>,
    timeout_ms: u128,
) -> Result<GStep, GBuildError> {
    let q = scan(f.query, vars, 0);
    if q.missing is Some {
        Err(GBuildError::MissingVar { name: q.missing->Some_0, pos })
    } else {
        let e = scan(f.expected_error, vars, 0);
        if e.missing is Some {
            Err(GBuildError::MissingVar { name: e.missing->Some_0, pos })
        } else {
            Ok(
                GStep {
                    action: Some(
                        GAction::FailSql {
                            cmd: GFailSql { query: q.out, expected_error: e.out },
                            timeout_ms,
                        },
                    ),
                    vars,
                    timeout_ms,
                },
            )
        }
    }
}

/// Compiles one command under the current environment and build context.
pub open spec fn compile_one(
    cmd: PosCommand,
    vars: Map<Seq<char>, Seq<char>>,
    timeout_ms: u128,
) -> Result<GStep, GBuildError> {
    match cmd.command {
        Command::Builtin(b) => compile_builtin(cmd.pos as int, b@, vars, timeout_ms),
        Command::Sql(s) => compile_sql(cmd.pos as int, s@, vars, timeout_ms),
        Command::FailSql(f) => compile_fail_sql(cmd.pos as int, f@, vars, timeout_ms),
    }
}

/// Compiles the commands from position `i` on, threading the environment
/// and the build context, and prepending each produced action in source
/// order. Any failure aborts the whole batch.
pub open spec fn compile_from(
    cmds: Seq<PosCommand>,
    i: int,
    vars: Map<Seq<char>, Seq<char>>,
    timeout_ms: u128,
) -> Result<Seq<GPosAction>, GBuildError>
    decreases cmds.len() - i,
    when 0 <= i <= cmds.len()
{
    if i >= cmds.len() {
        Ok(Seq::empty())
    } else {
        match compile_one(cmds[i], vars, timeout_ms) {
            Err(e) => Err(e),
            Ok(step) => match compile_from(cmds, i + 1, step.vars, step.timeout_ms) {
                Err(e) => Err(e),
                Ok(rest) => Ok(
                    match step.action {
                        Some(a) => seq![GPosAction { pos: cmds[i].pos as int, action: a }] + rest,
                        None => rest,
                    },
                ),
            },
        }
    }
}

/// The broker URL with the ill-formed Kerberos scheme smoothed into
/// something the URL parser takes.
pub open spec fn smoothed(s: Seq<char>) -> Seq<char> {
    text::replace_from(s, "SASL_PLAINTEXT"@, "SASL"@, 0)
}

/// The broker address variable: the host, with the port if one is given.
pub open spec fn kafka_addr_of(host: Seq<char>, port: Option<u16>) -> Seq<char> {
    match port {
        Some(p) => host + ":"@ + text::dec_rep(p as int),
        None => host,
    }
}

/// The reserved variables, computed once per run from the session.
pub open spec fn seed_vars(state: State, addr: Seq<char>) -> Map<Seq<char>, Seq<char>> {
    Map::empty().insert("testdrive.kafka-addr"@, addr).insert(
        "testdrive.kafka-addr-resolved"@,
        state.kafka_addr_resolved@,
    ).insert("testdrive.schema-registry-url"@, state.schema_registry_url@).insert(
        "testdrive.seed"@,
        text::dec_rep(state.seed as int),
    ).insert("testdrive.temp-dir"@, state.temp_dir_path@).insert(
        "testdrive.protobuf-descriptors"@,
        state.protobuf_descriptors@,
    ).insert("testdrive.protobuf-descriptors-file"@, state.protobuf_descriptors_file@).insert(
        "testdrive.aws-region"@,
        state.aws_region_name@,
    ).insert("testdrive.aws-account"@, state.aws_account@).insert(
        "testdrive.aws-access-key-id"@,
        state.aws_access_key_id@,
    ).insert("testdrive.aws-secret-access-key"@, state.aws_secret_access_key@).insert(
        "testdrive.aws-token"@,
        state.aws_token@,
    ).insert("testdrive.aws-endpoint"@, state.aws_endpoint@)
}

/// What compiling a batch against a session yields: the ordered actions, or
/// the first error.
pub open spec fn build_spec(cmds: Seq<PosCommand>, state: State) -> Result<
    Seq<GPosAction>,
    GBuildError,
> {
    let sm = smoothed(state.kafka_url@);
    if !ext::url_parses(sm) {
        Err(GBuildError::UrlUnparseable { url: state.kafka_url@ })
    } else {
        match ext::url_host_of(sm) {
            None => Err(GBuildError::UrlNoHost { url: state.kafka_url@ }),
            Some(h) => compile_from(
                cmds,
                0,
                seed_vars(state, kafka_addr_of(h, ext::url_port_of(sm))),
                DEFAULT_SQL_TIMEOUT_MS,
            ),
        }
    }
}

pub open spec fn opt_action_view(opt: Option<Action>) -> Option<GAction> {
    match opt {
        Some(a) => Some(a@),
        None => None,
    }
}

/// Compiles one command: substitutes its fields against the current
/// environment and either produces an action or updates the environment or
/// build context.
fn compile_one_exec(cmd: &PosCommand, env: &mut Environment, timeout_ms: &mut u128) -> (r: Result<
    Option<Action>,
    Error,
>)
    ensures
        ({
            let sr = compile_one(*cmd, old(env)@, *old(timeout_ms));
            match r {
                Ok(opt) => sr is Ok && final(env)@ == sr->Ok_0.vars && *final(timeout_ms)
                    == sr->Ok_0.timeout_ms && opt_action_view(opt) == sr->Ok_0.action,
                Err(e) => sr is Err && err_matches(e, sr->Err_0),
            }
        }),
{
    match &cmd.command {
        Command::Builtin(b) => {
            let new_args = match subst_pairs(&b.args, &*env) {
                Ok(a) => a,
                Err(e) => {
                    return Err(Error::Input { msg: e.message(), pos: cmd.pos });
                },
            };
            let new_input = match subst_strings(&b.input, &*env) {
                Ok(a) => a,
                Err(e) => {
                    return Err(Error::Input { msg: e.message(), pos: cmd.pos });
                },
            };
            if str_is(&b.name, "set-sql-timeout") {
                match arg_get_exec(&new_args, "duration") {
                    None => Err(
                        Error::Input { msg: "missing duration argument".to_owned(), pos: cmd.pos },
                    ),
                    Some(d) => {
                        if is_default_token_exec(&d) {
                            *timeout_ms = DEFAULT_SQL_TIMEOUT_MS;
                            Ok(None)
                        } else {
                            match ext::parse_duration_millis(d.as_str()) {
                                Ok(ms) => {
                                    *timeout_ms = ms;
                                    Ok(None)
                                },
                                Err(m) => Err(Error::Input { msg: m, pos: cmd.pos }),
                            }
                        }
                    },
                }
            } else if str_is(&b.name, "set-execution-count") {
                Ok(None)
            } else if str_is(&b.name, "set") {
                env.merge(&new_args);
                Ok(None)
            } else {
                match builtin_kind(&b.name) {
                    Some(kind) => Ok(
                        Some(
                            Action::Builtin {
                                kind,
                                cmd: BuiltinCommand {
                                    name: b.name.clone(),
                                    args: new_args,
                                    input: new_input,
                                },
                            },
                        ),
                    ),
                    None => {
                        let mut m = "unknown built-in command ".to_owned();
                        m.append(b.name.as_str());
                        Err(Error::Input { msg: m, pos: cmd.pos })
                    },
                }
            }
        },
        Command::Sql(s) => {
            let query = match substitute(s.query.as_str(), &*env) {
                Ok(q) => q,
                Err(e) => {
                    return Err(Error::Input { msg: e.message(), pos: cmd.pos });
                },
            };
            match &s.expected_result {
                SqlExpectedResult::Full { expected_rows } => {
                    match subst_rows_exec(expected_rows, &*env) {
                        Ok(rs) => Ok(
                            Some(
                                Action::Sql {
                                    cmd: SqlCommand {
                                        query,
                                        expected_result: SqlExpectedResult::Full {
                                            expected_rows: rs,
                                        },
                                    },
                                    timeout_ms: *timeout_ms,
                                },
                            ),
                        ),
                        Err(e) => Err(Error::Input { msg: e.message(), pos: cmd.pos }),
                    }
                },
                SqlExpectedResult::Any => Ok(
                    Some(
                        Action::Sql {
                            cmd: SqlCommand { query, expected_result: SqlExpectedResult::Any },
                            timeout_ms: *timeout_ms,
                        },
                    ),
                ),
            }
        },
        Command::FailSql(f) => {
            let query = match substitute(f.query.as_str(), &*env) {
                Ok(q) => q,
                Err(e) => {
                    return Err(Error::Input { msg: e.message(), pos: cmd.pos });
                },
            };
            let expected_error = match substitute(f.expected_error.as_str(), &*env) {
                Ok(q) => q,
                Err(e) => {
                    return Err(Error::Input { msg: e.message(), pos: cmd.pos });
                },
            };
            Ok(
                Some(
                    Action::FailSql {
                        cmd: FailSqlCommand { query, expected_error },
                        timeout_ms: *timeout_ms,
                    },
                ),
            )
        },
    }
}

/// Compiles the whole batch against the session: seeds the reserved
/// variables, then compiles each command in source order, all-or-nothing.
pub fn build(cmds: Vec<PosCommand>, state: &State) -> (r: Result<Vec<PosAction>, Error>)
    ensures
        ({
            let sr = build_spec(cmds@, *state);
            match r {
                Ok(acts) => sr is Ok && pos_action_views(acts@) == sr->Ok_0,
                Err(e) => sr is Err && err_matches(e, sr->Err_0),
            }
        }),
{
    proof {
        reveal_strlit("SASL_PLAINTEXT");
    }
    let smoothed_url = text::replace_text(state.kafka_url.as_str(), "SASL_PLAINTEXT", "SASL");
    let hp = match ext::parse_url_host_port(smoothed_url.as_str()) {
        Ok(hp) => hp,
        Err(ext::UrlHostError::Unparseable(cause)) => {
            let mut hint = "is ".to_owned();
            hint.append(state.kafka_url.as_str());
            hint.append(" a valid URL? e.g. plaintext://localhost:9092");
            return Err(
                Error::General {
                    ctx: "reading Kafka broker URL".to_owned(),
                    cause: Some(cause),
                    hints: vec![hint],
                },
            );
        },
        Err(ext::UrlHostError::NoHost) => {
            let mut details = "invalid Kafka URL ".to_owned();
            details.append(state.kafka_url.as_str());
            details.append("; need a hostname");
            return Err(Error::Usage { details, requested: false });
        },
    };
    let mut addr = hp.0;
    match hp.1 {
        Some(p) => {
            addr.append(":");
            addr.append(text::format_u64(p as u64).as_str());
        },
        None => {},
    }
    let ghost gaddr = addr@;
    proof {
        assert(gaddr == kafka_addr_of(
            ext::url_host_of(smoothed(state.kafka_url@))->Some_0,
            ext::url_port_of(smoothed(state.kafka_url@)),
        ));
    }
    let mut env = Environment::new();
    env.set("testdrive.kafka-addr".to_owned(), addr);
    env.set("testdrive.kafka-addr-resolved".to_owned(), state.kafka_addr_resolved.clone());
    env.set("testdrive.schema-registry-url".to_owned(), state.schema_registry_url.clone());
    env.set("testdrive.seed".to_owned(), text::format_u64(state.seed as u64));
    env.set("testdrive.temp-dir".to_owned(), state.temp_dir_path.clone());
    env.set("testdrive.protobuf-descriptors".to_owned(), state.protobuf_descriptors.clone());
    env.set(
        "testdrive.protobuf-descriptors-file".to_owned(),
        state.protobuf_descriptors_file.clone(),
    );
    env.set("testdrive.aws-region".to_owned(), state.aws_region_name.clone());
    env.set("testdrive.aws-account".to_owned(), state.aws_account.clone());
    env.set("testdrive.aws-access-key-id".to_owned(), state.aws_access_key_id.clone());
    env.set("testdrive.aws-secret-access-key".to_owned(), state.aws_secret_access_key.clone());
    env.set("testdrive.aws-token".to_owned(), state.aws_token.clone());
    env.set("testdrive.aws-endpoint".to_owned(), state.aws_endpoint.clone());
    proof {
        assert(env@ =~= seed_vars(*state, gaddr));
    }
    let ghost vars0 = env@;
    let mut timeout_ms: u128 = DEFAULT_SQL_TIMEOUT_MS;
    let mut out: Vec<PosAction> = Vec::new();
    let mut i: usize = 0;
    proof {
        assert(pos_action_views(out@) =~= Seq::<GPosAction>::empty());
        if compile_from(cmds@, 0int, vars0, DEFAULT_SQL_TIMEOUT_MS) is Ok {
            assert(pos_action_views(out@) + compile_from(
                cmds@,
                0int,
                vars0,
                DEFAULT_SQL_TIMEOUT_MS,
            )->Ok_0 =~= compile_from(cmds@, 0int, vars0, DEFAULT_SQL_TIMEOUT_MS)->Ok_0);
        }
    }
    while i < cmds.len()
        invariant
            i <= cmds.len(),
            build_spec(cmds@, *state) == compile_from(cmds@, 0int, vars0, DEFAULT_SQL_TIMEOUT_MS),
            compile_from(cmds@, 0int, vars0, DEFAULT_SQL_TIMEOUT_MS) == (match compile_from(
                cmds@,
                i as int,
                env@,
                timeout_ms,
            ) {
                Ok(rest) => Ok::<Seq<GPosAction>, GBuildError>(pos_action_views(out@) + rest),
                Err(e) => Err::<Seq<GPosAction>, GBuildError>(e),
            }),
        decreases cmds.len() - i,
    {
        let ghost pre_vars = env@;
        let ghost pre_timeout = timeout_ms;
        let ghost pre_out = out@;
        match compile_one_exec(&cmds[i], &mut env, &mut timeout_ms) {
            Err(e) => {
                proof {
                    assert(compile_one(cmds@[i as int], pre_vars, pre_timeout) is Err);
                    assert(compile_from(cmds@, i as int, pre_vars, pre_timeout) == Err::<
                        Seq<GPosAction>,
                        GBuildError,
                    >(compile_one(cmds@[i as int], pre_vars, pre_timeout)->Err_0));
                    assert(compile_from(cmds@, 0int, vars0, DEFAULT_SQL_TIMEOUT_MS) == Err::<
                        Seq<GPosAction>,
                        GBuildError,
                    >(compile_one(cmds@[i as int], pre_vars, pre_timeout)->Err_0));
                }
                return Err(e);
            },
            Ok(opt) => {
                let ghost step = compile_one(cmds@[i as int], pre_vars, pre_timeout)->Ok_0;
                match opt {
                    Some(action) => {
                        out.push(PosAction { pos: cmds[i].pos, action });
                        proof {
                            assert(pos_action_views(out@) =~= pos_action_views(pre_out).push(
                                GPosAction {
                                    pos: cmds@[i as int].pos as int,
                                    action: step.action->Some_0,
                                },
                            ));
                            if compile_from(cmds@, i + 1, step.vars, step.timeout_ms) is Ok {
                                assert(pre_out.map_values(|a: PosAction| a@) + (seq![
                                    GPosAction {
                                        pos: cmds@[i as int].pos as int,
                                        action: step.action->Some_0,
                                    },
                                ] + compile_from(cmds@, i + 1, step.vars, step.timeout_ms)->Ok_0)
                                    =~= pos_action_views(out@) + compile_from(
                                    cmds@,
                                    i + 1,
                                    step.vars,
                                    step.timeout_ms,
                                )->Ok_0);
                            }
                        }
                    },
                    None => {},
                }
                i = i + 1;
            },
        }
    }
    proof {
        assert(compile_from(cmds@, cmds@.len() as int, env@, timeout_ms) == Ok::<
            Seq<GPosAction>,
            GBuildError,
        >(Seq::empty()));
        assert(pos_action_views(out@) + Seq::<GPosAction>::empty() =~= pos_action_views(out@));
    }
    Ok(out)
}

/// The source positions of a compiled action list, in output order.
pub open spec fn action_positions(acts: Seq<GPosAction>) -> Seq<int> {
    acts.map_values(|a: GPosAction| a.pos)
}

/// The source positions of the commands from `i` on, in input order.
pub open spec fn command_positions_from(cmds: Seq<PosCommand>, i: int) -> Seq<int>
    decreases cmds.len() - i,
    when 0 <= i <= cmds.len()
{
    if i >= cmds.len() {
        Seq::empty()
    } else {
        seq![cmds[i].pos as int] + command_positions_from(cmds, i + 1)
    }
}

/// `xs` is `ys` with zero or more elements left out, order kept.
pub open spec fn is_subseq(xs: Seq<int>, ys: Seq<int>) -> bool
    decreases xs.len() + ys.len(),
{
    if xs.len() == 0 {
        true
    } else if ys.len() == 0 {
        false
    } else {
        (xs[0] == ys[0] && is_subseq(xs.drop_first(), ys.drop_first())) || is_subseq(
            xs,
            ys.drop_first(),
        )
    }
}

/// Positions never decrease along the sequence.
pub open spec fn nondecreasing(xs: Seq<int>) -> bool {
    forall|a: int, b: int| 0 <= a <= b < xs.len() ==> xs[a] <= xs[b]
}

/// A subsequence of a nondecreasing sequence is nondecreasing, and no
/// element of it sits below the head.
proof fn lemma_subseq_sorted(xs: Seq<int>, ys: Seq<int>)
    requires
        is_subseq(xs, ys),
        nondecreasing(ys),
    ensures
        nondecreasing(xs),
        forall|k: int| 0 <= k < xs.len() ==> ys.len() > 0 && ys[0] <= #[trigger] xs[k],
    decreases xs.len() + ys.len(),
{
    if xs.len() == 0 {
    } else {
        let dx = xs.drop_first();
        let dy = ys.drop_first();
        assert(nondecreasing(dy)) by {
            assert forall|a: int, b: int| 0 <= a <= b < dy.len() implies dy[a] <= dy[b] by {
                assert(dy[a] == ys[a + 1] && dy[b] == ys[b + 1]);
            }
        }
        if xs[0] == ys[0] && is_subseq(dx, dy) {
            lemma_subseq_sorted(dx, dy);
            assert forall|a: int, b: int| 0 <= a <= b < xs.len() implies xs[a] <= xs[b] by {
                if a == 0 {
                    if b > 0 {
                        assert(xs[b] == dx[b - 1]);
                        assert(dy[0] <= dx[b - 1]);
                        assert(dy[0] == ys[1]);
                        assert(ys[0] <= ys[1]);
                    }
                } else {
                    assert(xs[a] == dx[a - 1] && xs[b] == dx[b - 1]);
                }
            }
            assert forall|k: int| 0 <= k < xs.len() implies ys.len() > 0 && ys[0] <= xs[k] by {
                if k > 0 {
                    assert(xs[k] == dx[k - 1]);
                    assert(dy[0] <= dx[k - 1]);
                    assert(dy[0] == ys[1]);
                }
            }
        } else {
            lemma_subseq_sorted(xs, dy);
            assert forall|k: int| 0 <= k < xs.len() implies ys.len() > 0 && ys[0] <= xs[k] by {
                assert(dy[0] <= xs[k]);
                assert(dy[0] == ys[1]);
            }
        }
    }
}

/// The positions of what `compile_from` produces are a subsequence of the
/// positions of the commands it read.
proof fn lemma_compile_from_subseq(
    cmds: Seq<PosCommand>,
    i: int,
    vars: Map<Seq<char>, Seq<char>>,
    timeout_ms: u128,
)
    requires
        0 <= i <= cmds.len(),
        compile_from(cmds, i, vars, timeout_ms) is Ok,
    ensures
        is_subseq(
            action_positions(compile_from(cmds, i, vars, timeout_ms)->Ok_0),
            command_positions_from(cmds, i),
        ),
    decreases cmds.len() - i,
{
    let acts = compile_from(cmds, i, vars, timeout_ms)->Ok_0;
    if i >= cmds.len() {
        assert(action_positions(acts).len() == 0);
    } else {
        let step = compile_one(cmds[i], vars, timeout_ms)->Ok_0;
        lemma_compile_from_subseq(cmds, i + 1, step.vars, step.timeout_ms);
        let rest = compile_from(cmds, i + 1, step.vars, step.timeout_ms)->Ok_0;
        let cp = command_positions_from(cmds, i);
        assert(cp.drop_first() =~= command_positions_from(cmds, i + 1));
        match step.action {
            Some(a) => {
                assert(acts == seq![GPosAction { pos: cmds[i].pos as int, action: a }] + rest);
                assert(action_positions(acts) =~= seq![cmds[i].pos as int] + action_positions(
                    rest,
                ));
                assert(action_positions(acts).drop_first() =~= action_positions(rest));
                assert(action_positions(acts)[0] == cp[0]);
            },
            None => {
                assert(acts == rest);
                if action_positions(acts).len() > 0 {
                    assert(is_subseq(action_positions(acts), cp.drop_first()));
                }
            },
        }
    }
}

/// LAW: compiling a command sequence preserves order. The output action
/// list's positions are the input commands' positions with zero or more
/// left out, in the same relative order; where the input positions are
/// nondecreasing — source order — the output positions are nondecreasing
/// too.
/// LAW: the build context is never retroactive. Extending a batch with
/// further commands — a later `set-sql-timeout` among them — changes
/// nothing about what the earlier commands compile to: where the longer
/// batch compiles from some point on, the shorter one does too, and its
/// actions are exactly the first actions of the longer one's.
pub proof fn lemma_no_retroaction(
    cmds1: Seq<PosCommand>,
    cmds2: Seq<PosCommand>,
    i: int,
    vars: Map<Seq<char>, Seq<char>>,
    timeout_ms: u128,
)
    requires
        0 <= i <= cmds1.len(),
        cmds1.len() <= cmds2.len(),
        forall|k: int| i <= k < cmds1.len() ==> cmds1[k] == cmds2[k],
        compile_from(cmds2, i, vars, timeout_ms) is Ok,
    ensures
        compile_from(cmds1, i, vars, timeout_ms) is Ok,
        ({
            let a1 = compile_from(cmds1, i, vars, timeout_ms)->Ok_0;
            let a2 = compile_from(cmds2, i, vars, timeout_ms)->Ok_0;
            a1.len() <= a2.len() && a1 == a2.take(a1.len() as int)
        }),
    decreases cmds1.len() - i,
{
    if i >= cmds1.len() {
        let a2 = compile_from(cmds2, i, vars, timeout_ms)->Ok_0;
        assert(Seq::<GPosAction>::empty() =~= a2.take(0int));
    } else {
        assert(cmds1[i] == cmds2[i]);
        let st = compile_one(cmds2[i], vars, timeout_ms)->Ok_0;
        lemma_no_retroaction(cmds1, cmds2, i + 1, st.vars, st.timeout_ms);
        let r1 = compile_from(cmds1, i + 1, st.vars, st.timeout_ms)->Ok_0;
        let r2 = compile_from(cmds2, i + 1, st.vars, st.timeout_ms)->Ok_0;
        match st.action {
            Some(a) => {
                let g = GPosAction { pos: cmds1[i].pos as int, action: a };
                assert(seq![g] + r1 =~= (seq![g] + r2).take(1 + r1.len() as int));
            },
            None => {},
        }
    }
}

pub proof fn lemma_build_preserves_order(cmds: Seq<PosCommand>, state: State)
    requires
        build_spec(cmds, state) is Ok,
    ensures
        is_subseq(
            action_positions(build_spec(cmds, state)->Ok_0),
            command_positions_from(cmds, 0),
        ),
        nondecreasing(command_positions_from(cmds, 0)) ==> nondecreasing(
            action_positions(build_spec(cmds, state)->Ok_0),
        ),
{
    let sm = smoothed(state.kafka_url@);
    let h = ext::url_host_of(sm)->Some_0;
    let vars0 = seed_vars(state, kafka_addr_of(h, ext::url_port_of(sm)));
    lemma_compile_from_subseq(cmds, 0, vars0, DEFAULT_SQL_TIMEOUT_MS);
    if nondecreasing(command_positions_from(cmds, 0)) {
        lemma_subseq_sorted(
            action_positions(build_spec(cmds, state)->Ok_0),
            command_positions_from(cmds, 0),
        );
    }
}

} // verus!
