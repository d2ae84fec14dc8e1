//! Command pipelines, release steps and the task parameter builders.
use sabi::commands::{cargo_build, copy_as_artifact, strip, Action};
use sabi::multibyte::{multibyte_length, multibyte_tail, MultiByte, Text};
use sabi::runner::{no_op, program, EnvEntry};
use sabi::tasks::{BuildTarget, LinuxArmV7, LinuxX86, Task};
use sabi::terminal::{
    create_next_tag, extract_version, judge_listed_version, CargoToml, CargoTomlPackage,
    ReleaseTerminal, TaskError,
};

#[test]
fn runner_builds_the_command_line() {
    let runner = program("du".to_string())
        .args(&vec!["-ah".to_string(), ".".to_string()])
        .arg("--total");
    assert_eq!(runner.get_program(), "du");
    let summary = runner.create_summary();
    assert_eq!(summary.command(), "du -ah . --total");
    assert!(summary.env_entries().is_empty());
}

#[test]
fn runner_env_replaces_in_place() {
    let runner = program("env".to_string())
        .env("PATH_HINT", "/one")
        .env("MODE", "fast")
        .env("PATH_HINT", "/two");
    let summary = runner.create_summary();
    let env = summary.env_entries();
    assert_eq!(env.len(), 2);
    assert_eq!(env[0].0, "PATH_HINT");
    assert_eq!(env[0].1, "/two");
    assert_eq!(env[1].0, "MODE");
    assert_eq!(env[1].1, "fast");
}

#[test]
fn runner_env_entry_is_optional() {
    let with = program("x".to_string()).env_entry(Some(EnvEntry {
        key: "K".to_string(),
        value: "V".to_string(),
    }));
    assert_eq!(with.create_summary().env_entries().len(), 1);
    let without = program("x".to_string()).env_entry(None);
    assert!(without.create_summary().env_entries().is_empty());
}

#[test]
fn runner_push_arg_is_optional() {
    let with = program("cp".to_string()).push_arg(Some("--recursive"));
    assert_eq!(with.create_summary().command(), "cp --recursive");
    let without = program("cp".to_string()).push_arg(None);
    assert_eq!(without.create_summary().command(), "cp ");
}

#[test]
fn it_can_pipe_once() {
    let p1 = program("echo".to_string()).args(&vec!["11\n22\n33\n44\n55".to_string()]);
    let p2 = program("head".to_string()).args(&vec!["-n".to_string(), "3".to_string()]);
    let piped = p1.pipe(p2);
    assert_eq!(piped.get_program(), "echo");
    let second = piped.next().unwrap();
    assert_eq!(second.get_program(), "head");
    assert!(second.next().is_none());
}

#[test]
fn it_can_pipe_twice() {
    let p1 = program("echo".to_string()).args(&vec!["11\n22\n33\n44\n55".to_string()]);
    let p2 = program("sort".to_string()).args(&vec!["-r".to_string()]);
    let p3 = program("head".to_string()).args(&vec!["-n".to_string(), "3".to_string()]);
    let piped = p1.pipe(p2).pipe(p3);
    let second = piped.next().unwrap();
    let third = second.next().unwrap();
    assert_eq!(second.get_program(), "sort");
    assert_eq!(third.get_program(), "head");
    assert!(third.next().is_none());
}

#[test]
fn prepare_keeps_the_stages() {
    let prepared = program("git".to_string())
        .arg("status")
        .prepare(no_op::<TaskError>)
        .unwrap();
    assert_eq!(prepared.get_program(), "git");
    assert_eq!(prepared.create_summary().command(), "git status");
}

fn terminal() -> ReleaseTerminal {
    let toml = CargoToml {
        path: "./libs/env-extractor/Cargo.toml".to_string(),
        package: CargoTomlPackage {
            name: "env-extractor".to_string(),
            version: "0.1.2".to_string(),
        },
    };
    ReleaseTerminal::load(&toml).unwrap()
}

#[test]
fn next_tag_joins_name_and_version() {
    let package = CargoTomlPackage {
        name: "env-extractor".to_string(),
        version: "0.1.2".to_string(),
    };
    assert_eq!(create_next_tag(&package), "env-extractor-v0.1.2");
}

#[test]
fn publish_commands_carry_the_manifest_path() {
    let terminal = terminal();
    assert_eq!(
        terminal.cargo_publish().create_summary().command(),
        "cargo publish --manifest-path ./libs/env-extractor/Cargo.toml"
    );
    assert_eq!(
        terminal.cargo_publish_dry_run().create_summary().command(),
        "cargo publish --manifest-path ./libs/env-extractor/Cargo.toml --dry-run"
    );
}

#[test]
fn release_commands_carry_the_tag() {
    let terminal = terminal();
    assert_eq!(
        terminal.git_tag().create_summary().command(),
        "git tag -a env-extractor-v0.1.2 -m "
    );
    assert_eq!(
        terminal.git_push().create_summary().command(),
        "git push origin env-extractor-v0.1.2"
    );
    assert_eq!(
        terminal.gh_release_create().create_summary().command(),
        "gh release create env-extractor-v0.1.2 --notes "
    );
    let (email, name) = terminal.git_config();
    assert_eq!(
        email.create_summary().command(),
        "git config user.email 41898282+github-actions[bot]@users.noreply.github.com"
    );
    assert_eq!(name.create_summary().command(), "git config user.name github-actions[bot]");
    assert_eq!(
        terminal.cargo_search().create_summary().command(),
        "cargo search env-extractor"
    );
}

#[test]
fn asset_paths_follow_the_release_layout() {
    let terminal = terminal();
    let triples = vec![
        LinuxX86.as_triple().to_string(),
        LinuxArmV7.as_triple().to_string(),
    ];
    let paths = terminal.asset_paths(&triples);
    assert_eq!(paths, vec![
        "./dist/release/x86_64-unknown-linux-musl/env-extractor-v0.1.2-x86_64-unknown-linux-musl.tar.xz".to_string(),
        "./dist/release/armv7-unknown-linux-musleabihf/env-extractor-v0.1.2-armv7-unknown-linux-musleabihf.tar.xz".to_string(),
    ]);

    let uploads = terminal.upload_assets(&paths);
    assert_eq!(uploads.len(), 2);
    assert_eq!(
        uploads[0].create_summary().command(),
        format!("gh release upload env-extractor-v0.1.2 {}", paths[0])
    );
}

#[test]
fn all_assets_exist_reports_the_first_missing_path() {
    let terminal = terminal();
    let paths = vec!["a".to_string(), "b".to_string(), "c".to_string()];
    assert!(terminal.all_assets_exist(&paths, &vec![true, true, true]).is_ok());
    match terminal.all_assets_exist(&paths, &vec![true, false, false]) {
        Err(TaskError::AssetNotFound(path)) => assert_eq!(path, "b"),
        other => panic!("expected the missing-asset error, got {:?}", other),
    }
}

#[test]
fn extract_package_version() {
    let line = r#"env-extractor = "0.1.2"    # Modules to extract environment variables."#;
    let version = extract_version(line, "env-extractor");
    assert_eq!(version, Some("0.1.2".to_string()));
}

#[test]
fn search_judgement_covers_all_three_outcomes() {
    let package = CargoTomlPackage {
        name: "env-extractor".to_string(),
        version: "0.1.2".to_string(),
    };
    match judge_listed_version(&None, &package) {
        Err(TaskError::CrateVersionNotFound { name, version }) => {
            assert_eq!(name, "env-extractor");
            assert_eq!(version, "0.1.2");
        },
        other => panic!("expected the not-found error, got {:?}", other),
    }
    match judge_listed_version(&Some("0.1.2".to_string()), &package) {
        Err(TaskError::PackageAlreadyPublished { name, .. }) => {
            assert_eq!(name, "env-extractor");
        },
        other => panic!("expected the already-published error, got {:?}", other),
    }
    assert!(judge_listed_version(&Some("0.1.1".to_string()), &package).is_ok());
}

#[test]
fn search_judge_reads_the_captured_output() {
    let terminal = terminal();
    let listed = r#"env-extractor = "0.1.2"    # Modules to extract environment variables."#;
    assert!(matches!(
        terminal.cargo_search_judge(listed),
        Err(TaskError::PackageAlreadyPublished { .. })
    ));
    let older = r#"env-extractor = "0.1.1""#;
    assert!(terminal.cargo_search_judge(older).is_ok());
    assert!(matches!(
        terminal.cargo_search_judge("not toml at all ==="),
        Err(TaskError::CrateVersionNotFound { .. })
    ));
}

#[test]
fn size_report_runs_tree_over_the_artifacts_directory() {
    let runner = Task.runner("./dist");
    assert_eq!(
        runner.create_summary().command(),
        "tree -L 2 -A -c --du --si --dirsfirst ./dist"
    );
    let prepared = Task.prepare("./dist", no_op::<TaskError>).unwrap();
    assert_eq!(prepared.get_program(), "tree");
}

#[test]
fn action_pairs_target_with_derived_params() {
    let matches: Vec<String> = Vec::new();
    let (_action, params): (Action<LinuxArmV7, cargo_build::Params<LinuxArmV7>>, _) =
        Action::from(LinuxArmV7, &matches, |target, _matches: &Vec<String>| {
            cargo_build::Params::builder().target(target).build()
        });
    assert_eq!(params.target.as_triple(), "armv7-unknown-linux-musleabihf");
}

#[test]
fn cargo_build_params_take_a_target() {
    let params = cargo_build::Params::builder().target(LinuxArmV7).build();
    assert_eq!(params.target.as_triple(), "armv7-unknown-linux-musleabihf");
}

#[test]
fn strip_params_take_target_and_file() {
    let target = LinuxX86;
    let params = strip::Params::builder(&target).file_path("./dist/app").build();
    assert_eq!(params.file_path, "./dist/app");
    assert_eq!(params.target.as_triple(), "x86_64-unknown-linux-musl");
}

#[test]
fn copy_params_define_the_copy_command() {
    let target = LinuxArmV7;
    let params = copy_as_artifact::Params::builder(&target)
        .src("./build/pilot")
        .dst("./dist/wsb_pilot_tests")
        .build();
    assert_eq!(
        params.define(false).create_summary().command(),
        "cp --no-target-directory ./build/pilot ./dist/wsb_pilot_tests"
    );
    assert_eq!(
        params.define(true).create_summary().command(),
        "cp --no-target-directory --recursive ./build/pilot ./dist/wsb_pilot_tests"
    );
}

#[test]
fn multibyte_length_counts_characters() {
    assert_eq!(multibyte_length("abc"), 3);
    assert_eq!(multibyte_length("\u{3042}\u{3044}\u{3046}"), 3);
    assert_eq!(multibyte_length(""), 0);
}

#[test]
fn multibyte_tail_returns_the_last_characters() {
    assert_eq!(multibyte_tail("\u{3042}\u{3044}\u{3046}", 2), "\u{3044}\u{3046}");
    assert_eq!(multibyte_tail("abcdef", 3), "def");
    assert_eq!(multibyte_tail("abc", 3), "abc");
    assert_eq!(multibyte_tail("abc", 4), "");
    assert_eq!(multibyte_tail("abc", 0), "c");
    assert_eq!(multibyte_tail("", 0), "");
}

#[test]
fn text_implements_character_access() {
    let text = Text::new("\u{3042}b\u{3046}".to_string());
    assert_eq!(text.length(), 3);
    assert_eq!(text.tail(2), "b\u{3046}");
    assert_eq!(text.as_str(), "\u{3042}b\u{3046}");
}
