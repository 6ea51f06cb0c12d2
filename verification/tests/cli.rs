use pact::cli::{
    log_filter, run_build, run_check, run_fmt, run_repl, run_run, run_test, use_ansi, BuildCmd,
    CheckCmd, Cli, ColorChoice, Commands, FmtCmd, GlobalOpts, ReplCmd, RunCmd, Status, TestCmd,
};

fn opts(verbosity: u8, quiet: bool, color: ColorChoice) -> GlobalOpts {
    GlobalOpts { verbosity, quiet, color, target_dir: None }
}

#[test]
fn version_constant_is_nonempty() {
    assert!(!pact::VERSION.is_empty());
}

#[test]
fn log_filter_follows_verbosity() {
    assert_eq!(log_filter(&opts(0, false, ColorChoice::Auto)), "warn");
    assert_eq!(log_filter(&opts(1, false, ColorChoice::Auto)), "debug");
    assert_eq!(log_filter(&opts(2, false, ColorChoice::Auto)), "trace");
    assert_eq!(log_filter(&opts(3, false, ColorChoice::Auto)), "trace");
    assert_eq!(log_filter(&opts(255, false, ColorChoice::Auto)), "trace");
}

#[test]
fn log_filter_quiet_wins() {
    assert_eq!(log_filter(&opts(0, true, ColorChoice::Auto)), "error");
    assert_eq!(log_filter(&opts(2, true, ColorChoice::Auto)), "error");
}

#[test]
fn ansi_follows_color_choice() {
    for tty in [false, true] {
        assert!(use_ansi(&opts(0, false, ColorChoice::Always), tty));
        assert!(!use_ansi(&opts(0, false, ColorChoice::Never), tty));
    }
    assert!(use_ansi(&opts(0, false, ColorChoice::Auto), true));
    assert!(!use_ansi(&opts(0, false, ColorChoice::Auto), false));
}

#[test]
fn color_default_is_auto_value() {
    assert_eq!(ColorChoice::default(), ColorChoice::Auto);
}

#[test]
fn global_opts_copy_root_flags() {
    let cli = Cli {
        verbose: 2,
        quiet: true,
        color: ColorChoice::Never,
        target_dir: Some("/tmp/pact-test-out".to_string()),
        command: Commands::Build(BuildCmd { release: false }),
    };
    let g = cli.global_opts();
    assert_eq!(g.target_dir.as_deref(), Some("/tmp/pact-test-out"));
    assert_eq!(g.verbosity, 2);
    assert!(g.quiet);
    assert_eq!(g.color, ColorChoice::Never);
}

#[test]
fn subcommand_names() {
    assert_eq!(Commands::Build(BuildCmd { release: true }).name(), "build");
    assert_eq!(Commands::Run(RunCmd { release: false, passthrough: vec![] }).name(), "run");
    assert_eq!(Commands::Check(CheckCmd {}).name(), "check");
    assert_eq!(Commands::Repl(ReplCmd {}).name(), "repl");
    assert_eq!(Commands::Fmt(FmtCmd { check: false, paths: vec![] }).name(), "fmt");
    assert_eq!(Commands::Test(TestCmd { filter: None }).name(), "test");
}

#[test]
fn stub_subcommands_are_not_implemented() {
    let g = opts(0, false, ColorChoice::Auto);
    assert_eq!(run_build(&BuildCmd { release: true }, &g), Status::NotImplemented);
    assert_eq!(
        run_run(&RunCmd { release: false, passthrough: vec!["foo".to_string(), "--bar".to_string()] }, &g),
        Status::NotImplemented
    );
    assert_eq!(run_check(&CheckCmd {}, &g), Status::NotImplemented);
    assert_eq!(run_repl(&ReplCmd {}, &g), Status::NotImplemented);
    assert_eq!(run_fmt(&FmtCmd { check: true, paths: vec!["a.pact".to_string()] }, &g), Status::NotImplemented);
    assert_eq!(run_test(&TestCmd { filter: Some("my_filter".to_string()) }, &g), Status::NotImplemented);
}
