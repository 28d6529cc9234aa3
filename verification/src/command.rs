//! Runtime and chain-spec selection of the node command line.

use vstd::prelude::*;

verus! {

/// The runtime a chain spec belongs to, resolved from the chain spec's id.
#[derive(Debug, PartialEq, Eq, Structural, Clone, Copy)]
pub enum Runtime {
    /// The default runtime (based on rococo).
    Default,
    Kreivo,
    Virto,
    Seedling,
}

impl Default for Runtime {
    fn default() -> (r: Self)
        ensures
            r == Runtime::Default,
    {
        Runtime::Default
    }
}

/// `c` with an underscore written as a dash.
pub open spec fn dash(c: char) -> char {
    if c == '_' {
        '-'
    } else {
        c
    }
}

/// The id with every underscore replaced by a dash.
pub open spec fn normalize_id(id: Seq<char>) -> Seq<char> {
    id.map_values(|c: char| dash(c))
}

/// `s` begins with `p`.
pub open spec fn has_prefix(s: Seq<char>, p: Seq<char>) -> bool {
    p.len() <= s.len() && s.subrange(0, p.len() as int) == p
}

/// The runtime that a chain spec id selects: the first of the prefixes
/// `seedling`, `kreivo`, `virto` that the normalized id starts with, else
/// the default runtime.
pub open spec fn runtime_of(id: Seq<char>) -> Runtime {
    let n = normalize_id(id);
    if has_prefix(n, "seedling"@) {
        Runtime::Seedling
    } else if has_prefix(n, "kreivo"@) {
        Runtime::Kreivo
    } else if has_prefix(n, "virto"@) {
        Runtime::Virto
    } else {
        Runtime::Default
    }
}

/// The runtime of an id depends only on the id with its underscores read as
/// dashes: two ids that are equal up to underscores and dashes resolve to the
/// same runtime.
pub proof fn lemma_runtime_ignores_underscores(a: Seq<char>, b: Seq<char>)
    requires
        normalize_id(a) == normalize_id(b),
    ensures
        runtime_of(a) == runtime_of(b),
{
}

/// Which runtime an id selects, told by the prefixes themselves: with its
/// underscores read as dashes, an id that begins with `seedling` selects
/// Seedling, one that begins with `kreivo` selects Kreivo, one that begins
/// with `virto` selects Virto, and every other id selects the default runtime.
pub proof fn lemma_runtime_by_prefix(id: Seq<char>)
    ensures
        (runtime_of(id) == Runtime::Seedling) == (normalize_id(id).len() >= 8 && normalize_id(
            id,
        ).take(8) == "seedling"@),
        (runtime_of(id) == Runtime::Kreivo) == (normalize_id(id).len() >= 6 && normalize_id(
            id,
        ).take(6) == "kreivo"@),
        (runtime_of(id) == Runtime::Virto) == (normalize_id(id).len() >= 5 && normalize_id(
            id,
        ).take(5) == "virto"@),
        (runtime_of(id) == Runtime::Default) == !((normalize_id(id).len() >= 8 && normalize_id(
            id,
        ).take(8) == "seedling"@) || (normalize_id(id).len() >= 6 && normalize_id(id).take(6)
            == "kreivo"@) || (normalize_id(id).len() >= 5 && normalize_id(id).take(5)
            == "virto"@)),
{
    reveal_strlit("seedling");
    reveal_strlit("kreivo");
    reveal_strlit("virto");
    let n = normalize_id(id);
    let s = n.len() >= 8 && n.take(8) == "seedling"@;
    let k = n.len() >= 6 && n.take(6) == "kreivo"@;
    let v = n.len() >= 5 && n.take(5) == "virto"@;
    assert(has_prefix(n, "seedling"@) == s) by {
        if n.len() >= 8 {
            assert(n.subrange(0, 8) =~= n.take(8));
        }
    }
    assert(has_prefix(n, "kreivo"@) == k) by {
        if n.len() >= 6 {
            assert(n.subrange(0, 6) =~= n.take(6));
        }
    }
    assert(has_prefix(n, "virto"@) == v) by {
        if n.len() >= 5 {
            assert(n.subrange(0, 5) =~= n.take(5));
        }
    }
    // the three prefixes differ in their first character
    if s {
        assert(n[0] == n.take(8)[0]);
    }
    if k {
        assert(n[0] == n.take(6)[0]);
    }
    if v {
        assert(n[0] == n.take(5)[0]);
    }
    assert(!(s && k) && !(s && v) && !(k && v));
}

/// Whether `id`, with its underscores read as dashes, starts with `prefix`.
fn normalized_starts_with(id: &str, prefix: &str) -> (r: bool)
    ensures
        r == has_prefix(normalize_id(id@), prefix@),
{
    let n = id.unicode_len();
    let m = prefix.unicode_len();
    if m > n {
        return false;
    }
    let ghost norm = normalize_id(id@);
    let mut i: usize = 0;
    while i < m
        invariant
            m == prefix@.len(),
            n == id@.len(),
            m <= n,
            i <= m,
            norm == normalize_id(id@),
            forall|j: int| 0 <= j < i ==> norm[j] == prefix@[j],
        decreases m - i,
    {
        let c = id.get_char(i);
        let d = if c == '_' {
            '-'
        } else {
            c
        };
        if d != prefix.get_char(i) {
            assert(norm.subrange(0, m as int)[i as int] != prefix@[i as int]);
            return false;
        }
        i = i + 1;
    }
    assert(norm.subrange(0, m as int) =~= prefix@);
    true
}

/// Resolves the runtime of a chain spec from its id.
pub fn runtime(id: &str) -> (r: Runtime)
    ensures
        r == runtime_of(id@),
        (r == Runtime::Seedling) == (normalize_id(id@).len() >= 8 && normalize_id(id@).take(8)
            == "seedling"@),
        (r == Runtime::Kreivo) == (normalize_id(id@).len() >= 6 && normalize_id(id@).take(6)
            == "kreivo"@),
        (r == Runtime::Virto) == (normalize_id(id@).len() >= 5 && normalize_id(id@).take(5)
            == "virto"@),
{
    proof {
        lemma_runtime_by_prefix(id@);
    }
    if normalized_starts_with(id, "seedling") {
        Runtime::Seedling
    } else if normalized_starts_with(id, "kreivo") {
        Runtime::Kreivo
    } else if normalized_starts_with(id, "virto") {
        Runtime::Virto
    } else {
        Runtime::default()
    }
}

/// Whether two strings hold the same characters.
fn str_equal(a: &str, b: &str) -> (r: bool)
    ensures
        r == (a@ == b@),
{
    let n = a.unicode_len();
    if n != b.unicode_len() {
        return false;
    }
    let mut i: usize = 0;
    while i < n
        invariant
            n == a@.len(),
            n == b@.len(),
            i <= n,
            forall|j: int| 0 <= j < i ==> a@[j] == b@[j],
        decreases n - i,
    {
        if a.get_char(i) != b.get_char(i) {
            return false;
        }
        i = i + 1;
    }
    assert(a@ =~= b@);
    true
}

/// The native runtime (and chain spec type) that serves a resolved runtime.
#[derive(Debug, PartialEq, Eq, Structural, Clone, Copy)]
pub enum NativeRuntime {
    Kreivo,
    Virto,
    Seedling,
}

/// Where a chain spec comes from: one of the built-in specs, or a JSON file
/// at the path given as the id.
#[derive(Debug, PartialEq, Eq, Structural, Clone, Copy)]
pub enum ChainSpecSource {
    KreivoKusama,
    KreivoKusamaLocal,
    KreivoRococoLocal,
    VirtoPolkadot,
    VirtoPolkadotLocal,
    SeedlingRococo,
    SeedlingRococoLocal,
    SeedlingKusama,
    SeedlingKusamaLocal,
    /// The id is the path of a chain spec file.
    File,
}

/// The chain spec that an id names. The empty id falls back to the local
/// Kreivo (Kusama) spec; an id that names no built-in spec is a file path.
pub open spec fn chain_spec_source_of(id: Seq<char>) -> ChainSpecSource {
    if id == "kreivo"@ {
        ChainSpecSource::KreivoKusama
    } else if id == "kreivo-local"@ {
        ChainSpecSource::KreivoKusamaLocal
    } else if id == "kreivo-rococo-local"@ {
        ChainSpecSource::KreivoRococoLocal
    } else if id == "virto"@ {
        ChainSpecSource::VirtoPolkadot
    } else if id == "virto-local"@ {
        ChainSpecSource::VirtoPolkadotLocal
    } else if id == "seedling-rococo"@ {
        ChainSpecSource::SeedlingRococo
    } else if id == "seedling-rococo-local"@ {
        ChainSpecSource::SeedlingRococoLocal
    } else if id == "seedling-kusama"@ {
        ChainSpecSource::SeedlingKusama
    } else if id == "seedling-kusama-local"@ {
        ChainSpecSource::SeedlingKusamaLocal
    } else if id == ""@ {
        ChainSpecSource::KreivoKusamaLocal
    } else {
        ChainSpecSource::File
    }
}

/// Chooses the chain spec that an id names.
pub fn load_spec(id: &str) -> (r: ChainSpecSource)
    ensures
        r == chain_spec_source_of(id@),
{
    if str_equal(id, "kreivo") {
        ChainSpecSource::KreivoKusama
    } else if str_equal(id, "kreivo-local") {
        ChainSpecSource::KreivoKusamaLocal
    } else if str_equal(id, "kreivo-rococo-local") {
        ChainSpecSource::KreivoRococoLocal
    } else if str_equal(id, "virto") {
        ChainSpecSource::VirtoPolkadot
    } else if str_equal(id, "virto-local") {
        ChainSpecSource::VirtoPolkadotLocal
    } else if str_equal(id, "seedling-rococo") {
        ChainSpecSource::SeedlingRococo
    } else if str_equal(id, "seedling-rococo-local") {
        ChainSpecSource::SeedlingRococoLocal
    } else if str_equal(id, "seedling-kusama") {
        ChainSpecSource::SeedlingKusama
    } else if str_equal(id, "seedling-kusama-local") {
        ChainSpecSource::SeedlingKusamaLocal
    } else if str_equal(id, "") {
        ChainSpecSource::KreivoKusamaLocal
    } else {
        ChainSpecSource::File
    }
}

/// The native runtime that serves a runtime: the default runtime is served
/// by Virto's.
pub open spec fn native_runtime_of(r: Runtime) -> NativeRuntime {
    match r {
        Runtime::Kreivo => NativeRuntime::Kreivo,
        Runtime::Default | Runtime::Virto => NativeRuntime::Virto,
        Runtime::Seedling => NativeRuntime::Seedling,
    }
}

/// The chain spec type that reads a spec file of the given runtime.
pub fn chain_spec_for_file(runtime: Runtime) -> (r: NativeRuntime)
    ensures
        r == native_runtime_of(runtime),
{
    native_runtime_version(runtime)
}

/// The native runtime whose version a chain spec of the given runtime has;
/// the node also builds its service and runs its commands with it.
pub fn native_runtime_version(runtime: Runtime) -> (r: NativeRuntime)
    ensures
        r == native_runtime_of(runtime),
{
    match runtime {
        Runtime::Kreivo => NativeRuntime::Kreivo,
        Runtime::Default | Runtime::Virto => NativeRuntime::Virto,
        Runtime::Seedling => NativeRuntime::Seedling,
    }
}

/// A benchmark sub-command.
#[derive(Debug, PartialEq, Eq, Structural, Clone, Copy)]
pub enum BenchmarkCommand {
    Pallet,
    Block,
    Storage,
    Machine,
    /// A sub-command this node does not know.
    Other,
}

/// What a benchmark sub-command runs, and with which native runtime.
#[derive(Debug, PartialEq, Eq, Structural, Clone, Copy)]
pub enum BenchmarkPlan {
    Pallet(NativeRuntime),
    Block(NativeRuntime),
    Storage(NativeRuntime),
    Machine,
}

/// Why a command of the node cannot run.
#[derive(Debug, PartialEq, Eq, Structural, Clone, Copy)]
pub enum RunError {
    /// The node was built without runtime benchmarks.
    BenchmarkingNotEnabled,
    /// The chain's runtime cannot benchmark pallets.
    BenchmarkingUnsupportedChain(Runtime),
    /// The node was built without storage benchmarks.
    StorageBenchmarksNotEnabled,
    BenchmarkSubcommandUnsupported,
    /// The node was built without try-runtime.
    TryRuntimeNotEnabled,
    TryRuntimeUnsupportedChain,
}

/// What a benchmark sub-command does on a chain of the given runtime, on a
/// node built with or without runtime benchmarks: pallet benchmarks need
/// them and run on Kreivo and Virto only; block benchmarks run on the
/// chain's native runtime; storage benchmarks need them; machine benchmarks
/// always run.
pub open spec fn benchmark_plan_of(
    cmd: BenchmarkCommand,
    runtime: Runtime,
    runtime_benchmarks: bool,
) -> Result<BenchmarkPlan, RunError> {
    match cmd {
        BenchmarkCommand::Pallet => if !runtime_benchmarks {
            Err(RunError::BenchmarkingNotEnabled)
        } else {
            match runtime {
                Runtime::Kreivo => Ok(BenchmarkPlan::Pallet(NativeRuntime::Kreivo)),
                Runtime::Virto => Ok(BenchmarkPlan::Pallet(NativeRuntime::Virto)),
                _ => Err(RunError::BenchmarkingUnsupportedChain(runtime)),
            }
        },
        BenchmarkCommand::Block => Ok(BenchmarkPlan::Block(native_runtime_of(runtime))),
        BenchmarkCommand::Storage => if !runtime_benchmarks {
            Err(RunError::StorageBenchmarksNotEnabled)
        } else {
            Ok(BenchmarkPlan::Storage(native_runtime_of(runtime)))
        },
        BenchmarkCommand::Machine => Ok(BenchmarkPlan::Machine),
        BenchmarkCommand::Other => Err(RunError::BenchmarkSubcommandUnsupported),
    }
}

/// Benchmarks run with the chain's own native runtime, the one whose version
/// the chain reports: block benchmarks always, storage benchmarks on a node
/// built with runtime benchmarks, and pallet benchmarks wherever they run,
/// which is on Kreivo and Virto chains of a node built with them.
/// Distinct named runtimes are served by distinct native runtimes, and the
/// default runtime by Virto's.
pub proof fn lemma_benchmarks_use_native_runtime(runtime: Runtime, runtime_benchmarks: bool)
    ensures
        benchmark_plan_of(BenchmarkCommand::Block, runtime, runtime_benchmarks) == Ok::<
            BenchmarkPlan,
            RunError,
        >(BenchmarkPlan::Block(native_runtime_of(runtime))),
        runtime_benchmarks ==> benchmark_plan_of(BenchmarkCommand::Storage, runtime, true) == Ok::<
            BenchmarkPlan,
            RunError,
        >(BenchmarkPlan::Storage(native_runtime_of(runtime))),
        benchmark_plan_of(BenchmarkCommand::Pallet, runtime, runtime_benchmarks) matches Ok(
            BenchmarkPlan::Pallet(n),
        ) ==> n == native_runtime_of(runtime),
        benchmark_plan_of(BenchmarkCommand::Pallet, runtime, runtime_benchmarks) is Ok
            == (runtime_benchmarks && (runtime == Runtime::Kreivo || runtime == Runtime::Virto)),
        !runtime_benchmarks ==> benchmark_plan_of(BenchmarkCommand::Pallet, runtime, false)
            == Err::<BenchmarkPlan, RunError>(RunError::BenchmarkingNotEnabled),
        native_runtime_of(Runtime::Default) == native_runtime_of(Runtime::Virto),
        forall|a: Runtime, b: Runtime|
            a != Runtime::Default && b != Runtime::Default && a != b ==> #[trigger] native_runtime_of(
                a,
            ) != #[trigger] native_runtime_of(b),
{
}

/// Decides what a benchmark sub-command does.
pub fn benchmark_plan(cmd: BenchmarkCommand, runtime: Runtime, runtime_benchmarks: bool) -> (r:
    Result<BenchmarkPlan, RunError>)
    ensures
        r == benchmark_plan_of(cmd, runtime, runtime_benchmarks),
        cmd == BenchmarkCommand::Block ==> r == Ok::<BenchmarkPlan, RunError>(
            BenchmarkPlan::Block(native_runtime_of(runtime)),
        ),
        cmd == BenchmarkCommand::Storage && runtime_benchmarks ==> r == Ok::<
            BenchmarkPlan,
            RunError,
        >(BenchmarkPlan::Storage(native_runtime_of(runtime))),
        r matches Ok(BenchmarkPlan::Pallet(n)) ==> n == native_runtime_of(runtime),
{
    proof {
        lemma_benchmarks_use_native_runtime(runtime, runtime_benchmarks);
    }
    match cmd {
        BenchmarkCommand::Pallet => {
            if !runtime_benchmarks {
                Err(RunError::BenchmarkingNotEnabled)
            } else {
                match runtime {
                    Runtime::Kreivo => Ok(BenchmarkPlan::Pallet(NativeRuntime::Kreivo)),
                    Runtime::Virto => Ok(BenchmarkPlan::Pallet(NativeRuntime::Virto)),
                    _ => Err(RunError::BenchmarkingUnsupportedChain(runtime)),
                }
            }
        },
        BenchmarkCommand::Block => Ok(BenchmarkPlan::Block(native_runtime_version(runtime))),
        BenchmarkCommand::Storage => {
            if !runtime_benchmarks {
                Err(RunError::StorageBenchmarksNotEnabled)
            } else {
                Ok(BenchmarkPlan::Storage(native_runtime_version(runtime)))
            }
        },
        BenchmarkCommand::Machine => Ok(BenchmarkPlan::Machine),
        BenchmarkCommand::Other => Err(RunError::BenchmarkSubcommandUnsupported),
    }
}

/// The native runtime that try-runtime uses on a chain of the given runtime,
/// on a node built with or without try-runtime: the default runtime does not
/// support it.
pub fn try_runtime_plan(runtime: Runtime, try_runtime: bool) -> (r: Result<NativeRuntime, RunError>)
    ensures
        r matches Ok(n) ==> n == native_runtime_of(runtime),
        r == if !try_runtime {
            Err(RunError::TryRuntimeNotEnabled)
        } else {
            match runtime {
                Runtime::Kreivo => Ok(NativeRuntime::Kreivo),
                Runtime::Virto => Ok(NativeRuntime::Virto),
                Runtime::Seedling => Ok(NativeRuntime::Seedling),
                Runtime::Default => Err(RunError::TryRuntimeUnsupportedChain),
            }
        },
{
    if !try_runtime {
        return Err(RunError::TryRuntimeNotEnabled);
    }
    match runtime {
        Runtime::Kreivo => Ok(NativeRuntime::Kreivo),
        Runtime::Virto => Ok(NativeRuntime::Virto),
        Runtime::Seedling => Ok(NativeRuntime::Seedling),
        Runtime::Default => Err(RunError::TryRuntimeUnsupportedChain),
    }
}

impl Runtime {
    /// The name of the runtime as it is printed.
    pub fn name(&self) -> (r: &'static str)
        ensures
            r@ == match *self {
                Runtime::Default => "Default"@,
                Runtime::Kreivo => "Kreivo"@,
                Runtime::Virto => "Virto"@,
                Runtime::Seedling => "Seedling"@,
            },
    {
        match self {
            Runtime::Default => "Default",
            Runtime::Kreivo => "Kreivo",
            Runtime::Virto => "Virto",
            Runtime::Seedling => "Seedling",
        }
    }
}

impl RunError {
    /// The message the node reports for the error.
    pub fn message(&self) -> (r: String)
        ensures
            r@ == match *self {
                RunError::BenchmarkingNotEnabled => "Benchmarking wasn't enabled when building the node. You can enable it with `--features runtime-benchmarks`."@,
                RunError::BenchmarkingUnsupportedChain(rt) => "Chain '"@ + match rt {
                    Runtime::Default => "Default"@,
                    Runtime::Kreivo => "Kreivo"@,
                    Runtime::Virto => "Virto"@,
                    Runtime::Seedling => "Seedling"@,
                } + "' doesn't support benchmarking"@,
                RunError::StorageBenchmarksNotEnabled => "Compile with --features=runtime-benchmarks to enable storage benchmarks."@,
                RunError::BenchmarkSubcommandUnsupported => "Benchmarking sub-command unsupported"@,
                RunError::TryRuntimeNotEnabled => "Try-runtime was not enabled when building the node. You can enable it with `--features try-runtime`."@,
                RunError::TryRuntimeUnsupportedChain => "Chain doesn't support try-runtime"@,
            },
    {
        match self {
            RunError::BenchmarkingNotEnabled => owned(
                "Benchmarking wasn't enabled when building the node. You can enable it with `--features runtime-benchmarks`.",
            ),
            RunError::BenchmarkingUnsupportedChain(rt) => {
                let mut m = owned("Chain '");
                m.append(rt.name());
                m.append("' doesn't support benchmarking");
                m
            },
            RunError::StorageBenchmarksNotEnabled => owned(
                "Compile with --features=runtime-benchmarks to enable storage benchmarks.",
            ),
            RunError::BenchmarkSubcommandUnsupported => owned("Benchmarking sub-command unsupported"),
            RunError::TryRuntimeNotEnabled => owned(
                "Try-runtime was not enabled when building the node. You can enable it with `--features try-runtime`.",
            ),
            RunError::TryRuntimeUnsupportedChain => owned("Chain doesn't support try-runtime"),
        }
    }
}

/// The answer to "Is collating" in the node's start-up report.
pub fn collating_label(is_authority: bool) -> (r: &'static str)
    ensures
        is_authority ==> r@ == "yes"@,
        !is_authority ==> r@ == "no"@,
{
    if is_authority {
        "yes"
    } else {
        "no"
    }
}

/// Whether relay chain node arguments were given together with relay chain
/// RPC urls, in which case only their network subset is used.
pub fn relay_chain_args_partly_ignored(has_relay_chain_rpc_urls: bool, relay_chain_args: usize) -> (r:
    bool)
    ensures
        r == (has_relay_chain_rpc_urls && relay_chain_args > 0),
{
    has_relay_chain_rpc_urls && relay_chain_args > 0
}

/// The parachain id that the chain spec's parachain extension gives, or the
/// error the node stops with when the chain spec has no such extension.
pub fn para_id_from_extension(extension_para_id: Option<u32>) -> (r: Result<u32, &'static str>)
    ensures
        extension_para_id matches Some(id) ==> r == Ok::<u32, &'static str>(id),
        extension_para_id is None ==> (r matches Err(m) && m@
            == "Could not find parachain extension in chain-spec."@),
{
    match extension_para_id {
        Some(id) => Ok(id),
        None => Err("Could not find parachain extension in chain-spec."),
    }
}

/// Where the node gathers its hardware benchmark: at the database path,
/// unless hardware benchmarks are disabled or the database has no path.
pub fn hardware_benchmark_path<P>(no_hardware_benchmarks: bool, database_path: Option<P>) -> (r:
    Option<P>)
    ensures
        r == if no_hardware_benchmarks {
            None
        } else {
            database_path
        },
{
    if no_hardware_benchmarks {
        None
    } else {
        database_path
    }
}

/// The parachain command line.
pub struct Cli;

/// The relay chain command line that the parachain node passes on.
pub struct RelayChainCli;

/// `s` as an owned string.
fn owned(s: &str) -> (r: String)
    ensures
        r@ == s@,
{
    String::from_str(s)
}

impl Cli {
    pub fn impl_name() -> (r: String)
        ensures
            r@ == "Virto parachain"@,
    {
        owned("Virto parachain")
    }

    /// The description, naming the executable.
    pub fn description(executable_name: &str) -> (r: String)
        ensures
            r@ == "Virto parachain\n\nThe command-line arguments provided first will be passed to the parachain node, while the arguments provided after -- will be passed to the relaychain node.\n\n"@
                + executable_name@ + " [parachain-args] -- [relaychain-args]"@,
    {
        let mut d = owned(
            "Virto parachain\n\nThe command-line arguments provided first will be passed to the parachain node, while the arguments provided after -- will be passed to the relaychain node.\n\n",
        );
        d.append(executable_name);
        d.append(" [parachain-args] -- [relaychain-args]");
        d
    }

    pub fn support_url() -> (r: String)
        ensures
            r@ == "https://github.com/paritytech/cumulus/issues/new"@,
    {
        owned("https://github.com/paritytech/cumulus/issues/new")
    }

    pub fn copyright_start_year() -> (r: i32)
        ensures
            r == 2017,
    {
        2017
    }
}

impl RelayChainCli {
    pub fn impl_name() -> (r: String)
        ensures
            r@ == "Virto parachain"@,
    {
        owned("Virto parachain")
    }

    /// The description, naming the executable.
    pub fn description(executable_name: &str) -> (r: String)
        ensures
            r@ == "Virto parachain\n\nThe command-line arguments provided first will be passed to the parachain node, while the arguments provided after -- will be passed to the relay chain node.\n\n"@
                + executable_name@ + " [parachain-args] -- [relay_chain-args]"@,
    {
        let mut d = owned(
            "Virto parachain\n\nThe command-line arguments provided first will be passed to the parachain node, while the arguments provided after -- will be passed to the relay chain node.\n\n",
        );
        d.append(executable_name);
        d.append(" [parachain-args] -- [relay_chain-args]");
        d
    }

    pub fn support_url() -> (r: String)
        ensures
            r@ == "https://github.com/paritytech/cumulus/issues/new"@,
    {
        owned("https://github.com/paritytech/cumulus/issues/new")
    }

    pub fn copyright_start_year() -> (r: i32)
        ensures
            r == 2017,
    {
        2017
    }

    pub fn p2p_listen_port() -> (r: u16)
        ensures
            r == 30334,
    {
        30334
    }

    pub fn rpc_listen_port() -> (r: u16)
        ensures
            r == 9945,
    {
        9945
    }

    pub fn prometheus_listen_port() -> (r: u16)
        ensures
            r == 9616,
    {
        9616
    }

    /// The relay chain id: the one the relay chain arguments give, or when
    /// that is empty, the chain id of the relay chain command line, or empty.
    pub fn chain_id(base_chain_id: String, chain_id: Option<String>) -> (r: String)
        ensures
            base_chain_id@.len() == 0 ==> r@ == match chain_id {
                Some(c) => c@,
                None => Seq::<char>::empty(),
            },
            base_chain_id@.len() != 0 ==> r@ == base_chain_id@,
    {
        if base_chain_id.as_str().unicode_len() == 0 {
            match chain_id {
                Some(c) => c,
                None => String::new(),
            }
        } else {
            base_chain_id
        }
    }

    /// The base path: the one of the shared parameters, or else the relay
    /// chain command line's own.
    pub fn base_path<P>(shared_base_path: Option<P>, base_path: Option<P>) -> (r: Option<P>)
        ensures
            r == match shared_base_path {
                Some(p) => Some(p),
                None => base_path,
            },
    {
        match shared_base_path {
            Some(p) => Some(p),
            None => base_path,
        }
    }
}

} // verus!
