use kreivo::command::{
    benchmark_plan, chain_spec_for_file, collating_label, load_spec, native_runtime_version,
    relay_chain_args_partly_ignored, runtime, try_runtime_plan, para_id_from_extension,
    hardware_benchmark_path, BenchmarkCommand, BenchmarkPlan,
    ChainSpecSource, Cli, NativeRuntime, RelayChainCli, RunError, Runtime,
};

#[test]
fn runtime_by_prefix() {
    assert_eq!(runtime("seedling-rococo"), Runtime::Seedling);
    assert_eq!(runtime("kreivo"), Runtime::Kreivo);
    assert_eq!(runtime("kreivo-rococo-local"), Runtime::Kreivo);
    assert_eq!(runtime("virto-local"), Runtime::Virto);
}

#[test]
fn runtime_reads_underscores_as_dashes() {
    assert_eq!(runtime("kreivo_local"), Runtime::Kreivo);
    assert_eq!(runtime("seedling_kusama_local"), Runtime::Seedling);
    assert_eq!(runtime("virto_polkadot"), Runtime::Virto);
}

#[test]
fn runtime_falls_back_to_default() {
    assert_eq!(runtime(""), Runtime::Default);
    assert_eq!(runtime("rococo-local"), Runtime::Default);
    assert_eq!(runtime("Kreivo"), Runtime::Default);
    assert_eq!(runtime("kreiv"), Runtime::Default);
    assert_eq!(runtime("my-kreivo"), Runtime::Default);
    assert_eq!(Runtime::default(), Runtime::Default);
}

#[test]
fn runtime_prefix_order() {
    assert_eq!(runtime("seedlingkreivo"), Runtime::Seedling);
    assert_eq!(runtime("kreivovirto"), Runtime::Kreivo);
}

#[test]
fn load_spec_builtin_ids() {
    assert_eq!(load_spec("kreivo"), ChainSpecSource::KreivoKusama);
    assert_eq!(load_spec("kreivo-local"), ChainSpecSource::KreivoKusamaLocal);
    assert_eq!(load_spec("kreivo-rococo-local"), ChainSpecSource::KreivoRococoLocal);
    assert_eq!(load_spec("virto"), ChainSpecSource::VirtoPolkadot);
    assert_eq!(load_spec("virto-local"), ChainSpecSource::VirtoPolkadotLocal);
    assert_eq!(load_spec("seedling-rococo"), ChainSpecSource::SeedlingRococo);
    assert_eq!(load_spec("seedling-rococo-local"), ChainSpecSource::SeedlingRococoLocal);
    assert_eq!(load_spec("seedling-kusama"), ChainSpecSource::SeedlingKusama);
    assert_eq!(load_spec("seedling-kusama-local"), ChainSpecSource::SeedlingKusamaLocal);
}

#[test]
fn load_spec_empty_id_uses_local_kreivo() {
    assert_eq!(load_spec(""), ChainSpecSource::KreivoKusamaLocal);
}

#[test]
fn load_spec_other_ids_are_files() {
    assert_eq!(load_spec("./specs/kreivo.json"), ChainSpecSource::File);
    assert_eq!(load_spec("kreivo_local"), ChainSpecSource::File);
    assert_eq!(load_spec("kreivo-local "), ChainSpecSource::File);
}

#[test]
fn native_runtimes() {
    assert_eq!(native_runtime_version(Runtime::Kreivo), NativeRuntime::Kreivo);
    assert_eq!(native_runtime_version(Runtime::Virto), NativeRuntime::Virto);
    assert_eq!(native_runtime_version(Runtime::Default), NativeRuntime::Virto);
    assert_eq!(native_runtime_version(Runtime::Seedling), NativeRuntime::Seedling);
    assert_eq!(chain_spec_for_file(Runtime::Default), NativeRuntime::Virto);
    assert_eq!(chain_spec_for_file(Runtime::Kreivo), NativeRuntime::Kreivo);
    assert_eq!(chain_spec_for_file(Runtime::Seedling), NativeRuntime::Seedling);
}

#[test]
fn pallet_benchmarks() {
    assert_eq!(
        benchmark_plan(BenchmarkCommand::Pallet, Runtime::Kreivo, true),
        Ok(BenchmarkPlan::Pallet(NativeRuntime::Kreivo))
    );
    assert_eq!(
        benchmark_plan(BenchmarkCommand::Pallet, Runtime::Virto, true),
        Ok(BenchmarkPlan::Pallet(NativeRuntime::Virto))
    );
    let e = benchmark_plan(BenchmarkCommand::Pallet, Runtime::Seedling, true).unwrap_err();
    assert_eq!(e, RunError::BenchmarkingUnsupportedChain(Runtime::Seedling));
    assert_eq!(e.message(), "Chain 'Seedling' doesn't support benchmarking");
    let e = benchmark_plan(BenchmarkCommand::Pallet, Runtime::Kreivo, false).unwrap_err();
    assert_eq!(
        e.message(),
        "Benchmarking wasn't enabled when building the node. You can enable it with `--features runtime-benchmarks`."
    );
}

#[test]
fn other_benchmarks() {
    assert_eq!(
        benchmark_plan(BenchmarkCommand::Block, Runtime::Default, false),
        Ok(BenchmarkPlan::Block(NativeRuntime::Virto))
    );
    assert_eq!(
        benchmark_plan(BenchmarkCommand::Storage, Runtime::Seedling, true),
        Ok(BenchmarkPlan::Storage(NativeRuntime::Seedling))
    );
    assert_eq!(
        benchmark_plan(BenchmarkCommand::Storage, Runtime::Seedling, false).unwrap_err().message(),
        "Compile with --features=runtime-benchmarks to enable storage benchmarks."
    );
    assert_eq!(benchmark_plan(BenchmarkCommand::Machine, Runtime::Default, false), Ok(BenchmarkPlan::Machine));
    assert_eq!(
        benchmark_plan(BenchmarkCommand::Other, Runtime::Kreivo, true).unwrap_err().message(),
        "Benchmarking sub-command unsupported"
    );
}

#[test]
fn try_runtime() {
    assert_eq!(try_runtime_plan(Runtime::Seedling, true), Ok(NativeRuntime::Seedling));
    assert_eq!(try_runtime_plan(Runtime::Kreivo, true), Ok(NativeRuntime::Kreivo));
    assert_eq!(try_runtime_plan(Runtime::Virto, true), Ok(NativeRuntime::Virto));
    assert_eq!(
        try_runtime_plan(Runtime::Default, true).unwrap_err().message(),
        "Chain doesn't support try-runtime"
    );
    assert_eq!(
        try_runtime_plan(Runtime::Kreivo, false).unwrap_err().message(),
        "Try-runtime was not enabled when building the node. You can enable it with `--features try-runtime`."
    );
}

#[test]
fn start_up_report() {
    assert_eq!(collating_label(true), "yes");
    assert_eq!(collating_label(false), "no");
    assert!(relay_chain_args_partly_ignored(true, 2));
    assert!(!relay_chain_args_partly_ignored(true, 0));
    assert!(!relay_chain_args_partly_ignored(false, 3));
}

#[test]
fn cli_texts() {
    assert_eq!(Cli::impl_name(), "Virto parachain");
    assert_eq!(
        Cli::description("virto-node"),
        "Virto parachain\n\nThe command-line arguments provided first will be passed to the parachain node, while the arguments provided after -- will be passed to the relaychain node.\n\nvirto-node [parachain-args] -- [relaychain-args]"
    );
    assert_eq!(
        RelayChainCli::description("virto-node"),
        "Virto parachain\n\nThe command-line arguments provided first will be passed to the parachain node, while the arguments provided after -- will be passed to the relay chain node.\n\nvirto-node [parachain-args] -- [relay_chain-args]"
    );
    assert_eq!(Cli::support_url(), "https://github.com/paritytech/cumulus/issues/new");
    assert_eq!(RelayChainCli::support_url(), "https://github.com/paritytech/cumulus/issues/new");
    assert_eq!(Cli::copyright_start_year(), 2017);
    assert_eq!(RelayChainCli::copyright_start_year(), 2017);
    assert_eq!(RelayChainCli::impl_name(), "Virto parachain");
}

#[test]
fn relay_chain_defaults() {
    assert_eq!(RelayChainCli::p2p_listen_port(), 30334);
    assert_eq!(RelayChainCli::rpc_listen_port(), 9945);
    assert_eq!(RelayChainCli::prometheus_listen_port(), 9616);
}

#[test]
fn relay_chain_id() {
    assert_eq!(RelayChainCli::chain_id(String::new(), Some("kusama".to_string())), "kusama");
    assert_eq!(RelayChainCli::chain_id(String::new(), None), "");
    assert_eq!(
        RelayChainCli::chain_id("polkadot".to_string(), Some("kusama".to_string())),
        "polkadot"
    );
}

#[test]
fn relay_chain_base_path() {
    assert_eq!(RelayChainCli::base_path(Some(1u8), Some(2u8)), Some(1));
    assert_eq!(RelayChainCli::base_path(None, Some(2u8)), Some(2));
    assert_eq!(RelayChainCli::base_path::<u8>(None, None), None);
}

#[test]
fn runtime_same_up_to_underscores() {
    assert_eq!(runtime("seedling_rococo_local"), runtime("seedling-rococo-local"));
    assert_eq!(runtime("virto_"), runtime("virto-"));
}

#[test]
fn parachain_extension() {
    assert_eq!(para_id_from_extension(Some(2281)), Ok(2281));
    assert_eq!(para_id_from_extension(None), Err("Could not find parachain extension in chain-spec."));
}

#[test]
fn hardware_benchmark() {
    assert_eq!(hardware_benchmark_path(false, Some("/db")), Some("/db"));
    assert_eq!(hardware_benchmark_path(true, Some("/db")), None);
    assert_eq!(hardware_benchmark_path::<&str>(false, None), None);
}
