use std::collections::HashMap;

use fuzz_init::cli::{
    build_cli_hint, determine_minimal_mode, fuzzer_display_options, fuzzer_name_for_display,
    integration_display_options, options_with_default_first, plan_fuzzer_selection,
    plan_integration_selection, resolve_template_source, Args, IntegrationPlan, SelectionPlan,
    SourceError,
};
use fuzz_init::devmode::{
    classify_build_integration, count_successes, format_config_name,
    generate_test_configurations, test_project_name, validate_dev_mode_args, BuildKind,
    DevModeArgError, TestConfiguration, TestResult,
};
use fuzz_init::errors::ScaffoldError;
use fuzz_init::repo::{find_template_case_insensitive, parse_github_spec, validate_local_template};
use fuzz_init::types::{
    FileConventions, FuzzerConfig, FuzzerOption, HookConfig, IntegrationConfig,
    IntegrationOption, TemplateInfo, TemplateMetadata, TemplateSource,
};

fn bare_args() -> Args {
    Args {
        project_name_pos: None,
        project: None,
        language: None,
        integration: None,
        fuzzer: None,
        template: None,
        minimal: false,
        generate_docs: false,
        dev_mode: false,
        watch: None,
        dev_output: None,
    }
}

fn meta_with_integrations(supported: Vec<&str>) -> TemplateMetadata {
    TemplateMetadata {
        template: TemplateInfo {
            name: "t".to_string(),
            description: String::new(),
            version: "1".to_string(),
        },
        variables: HashMap::new(),
        files: vec![],
        directories: vec![],
        hooks: HookConfig { post_generate: None },
        fuzzers: None,
        integrations: Some(IntegrationConfig {
            supported: supported.iter().map(|s| s.to_string()).collect(),
            default: "make".to_string(),
            options: vec![],
        }),
        file_conventions: FileConventions {
            always_include: vec![],
            full_mode_only: vec![],
            template_extensions: vec![],
            executable_extensions: vec![],
            no_template_extensions: vec![],
        },
        validation: None,
    }
}

#[test]
fn finds_template_case_insensitively() {
    let available = vec!["rust".to_string(), "c".to_string()];
    assert_eq!(
        find_template_case_insensitive("RUST", &available),
        Some("rust".to_string())
    );
    assert_eq!(find_template_case_insensitive("C", &available), Some("c".to_string()));
    assert_eq!(find_template_case_insensitive("go", &available), None);
}

#[test]
fn resolves_language_to_local_source() {
    let available = vec!["c".to_string(), "rust".to_string()];
    let mut args = bare_args();
    args.language = Some("Rust".to_string());
    match resolve_template_source(&args, &available) {
        Ok(Some(TemplateSource::Local(name))) => assert_eq!(name, "rust"),
        other => panic!("unexpected resolution: {:?}", other),
    }
}

#[test]
fn unknown_language_is_an_error() {
    let available = vec!["c".to_string()];
    let mut args = bare_args();
    args.language = Some("fortran".to_string());
    assert_eq!(
        resolve_template_source(&args, &available),
        Err(SourceError::UnknownLanguage)
    );
}

#[test]
fn remote_template_forms_resolve_remote() {
    let available = vec!["c".to_string()];
    let mut args = bare_args();
    args.template = Some("github:org/repo".to_string());
    match resolve_template_source(&args, &available) {
        Ok(Some(TemplateSource::GitHubFull(s))) => assert_eq!(s, "github:org/repo"),
        other => panic!("unexpected resolution: {:?}", other),
    }
    args.template = Some("@org/repo".to_string());
    match resolve_template_source(&args, &available) {
        Ok(Some(TemplateSource::GitHubFull(s))) => assert_eq!(s, "@org/repo"),
        other => panic!("unexpected resolution: {:?}", other),
    }
}

#[test]
fn local_template_argument_falls_back_to_registry() {
    let available = vec!["c".to_string()];
    let mut args = bare_args();
    args.template = Some("C".to_string());
    match resolve_template_source(&args, &available) {
        Ok(Some(TemplateSource::Local(name))) => assert_eq!(name, "c"),
        other => panic!("unexpected resolution: {:?}", other),
    }
    args.template = Some("unknown".to_string());
    assert_eq!(
        resolve_template_source(&args, &available),
        Err(SourceError::UnknownTemplate)
    );
}

#[test]
fn both_language_and_template_refused() {
    let available = vec!["c".to_string()];
    let mut args = bare_args();
    args.language = Some("c".to_string());
    args.template = Some("c".to_string());
    assert_eq!(resolve_template_source(&args, &available), Err(SourceError::BothGiven));
}

#[test]
fn neither_language_nor_template_means_prompt() {
    let available = vec!["c".to_string()];
    let args = bare_args();
    assert_eq!(resolve_template_source(&args, &available), Ok(None));
}

#[test]
fn parses_github_spec_forms() {
    assert_eq!(
        parse_github_spec("github:org/repo"),
        Ok(("org".to_string(), "repo".to_string()))
    );
    assert_eq!(
        parse_github_spec("@org/repo/sub/dir"),
        Ok(("org".to_string(), "repo".to_string()))
    );
    assert_eq!(parse_github_spec("github:only"), Err(ScaffoldError::TemplateNotFound));
    assert_eq!(parse_github_spec("plain"), Err(ScaffoldError::TemplateNotFound));
}

#[test]
fn validates_local_template_name() {
    let available = vec!["c".to_string(), "rust".to_string()];
    assert_eq!(validate_local_template("rust", &available), Ok(()));
    let err = validate_local_template("go", &available).unwrap_err();
    assert_eq!(err, ScaffoldError::TemplateNotFound);
    assert_eq!(err.message(), "template not found");
}

fn fuzzers(supported: Vec<&str>) -> FuzzerConfig {
    FuzzerConfig {
        supported: supported.iter().map(|s| s.to_string()).collect(),
        default: "libfuzzer".to_string(),
        options: vec![
            FuzzerOption {
                name: "libfuzzer".to_string(),
                display_name: "libFuzzer".to_string(),
                description: "in-process".to_string(),
                needs: "clang".to_string(),
            },
            FuzzerOption {
                name: "afl".to_string(),
                display_name: "AFL".to_string(),
                description: "fork server".to_string(),
                needs: "afl".to_string(),
            },
        ],
    }
}

#[test]
fn explicit_fuzzer_is_validated() {
    let fc = fuzzers(vec!["libfuzzer", "afl"]);
    let requested = "afl".to_string();
    assert_eq!(
        plan_fuzzer_selection(Some(&requested), Some(&fc)),
        SelectionPlan::Chosen("afl".to_string())
    );
    let bad = "honggfuzz".to_string();
    assert_eq!(plan_fuzzer_selection(Some(&bad), Some(&fc)), SelectionPlan::Unsupported);
}

#[test]
fn single_fuzzer_is_taken_several_prompt() {
    let one = fuzzers(vec!["libfuzzer"]);
    assert_eq!(
        plan_fuzzer_selection(None, Some(&one)),
        SelectionPlan::Chosen("libfuzzer".to_string())
    );
    let two = fuzzers(vec!["libfuzzer", "afl"]);
    assert_eq!(plan_fuzzer_selection(None, Some(&two)), SelectionPlan::NeedPrompt);
    assert_eq!(
        plan_fuzzer_selection(None, None),
        SelectionPlan::Chosen("libfuzzer".to_string())
    );
}

#[test]
fn fuzzer_display_round_trip() {
    let fc = fuzzers(vec!["libfuzzer", "afl"]);
    let labels = fuzzer_display_options(&fc);
    assert_eq!(labels, vec![
        "libFuzzer - in-process".to_string(),
        "AFL - fork server".to_string(),
    ]);
    assert_eq!(fuzzer_name_for_display(&fc, "AFL"), "afl");
    assert_eq!(fuzzer_name_for_display(&fc, "unheard of"), "libfuzzer");
}

#[test]
fn integration_plans_cover_all_cases() {
    let meta = meta_with_integrations(vec!["make", "cmake"]);
    let one = meta_with_integrations(vec!["make"]);
    let none = {
        let mut m = meta_with_integrations(vec![]);
        m.integrations = None;
        m
    };
    let requested = "cmake".to_string();
    assert_eq!(
        plan_integration_selection(Some(&requested), Some(&meta)),
        IntegrationPlan::Chosen("cmake".to_string())
    );
    let bad = "bazel".to_string();
    assert_eq!(
        plan_integration_selection(Some(&bad), Some(&meta)),
        IntegrationPlan::Unsupported
    );
    assert_eq!(
        plan_integration_selection(None, Some(&one)),
        IntegrationPlan::Chosen("make".to_string())
    );
    assert_eq!(plan_integration_selection(None, Some(&meta)), IntegrationPlan::NeedPrompt);
    assert_eq!(plan_integration_selection(None, Some(&none)), IntegrationPlan::NoneDefined);
    assert_eq!(plan_integration_selection(None, None), IntegrationPlan::NoMetadata);
}

#[test]
fn default_integration_moves_to_front() {
    let options = vec![
        IntegrationOption { name: "make".to_string(), description: "m".to_string() },
        IntegrationOption { name: "cmake".to_string(), description: "c".to_string() },
        IntegrationOption { name: "standalone".to_string(), description: "s".to_string() },
    ];
    let reordered = options_with_default_first(&options, "cmake");
    let names: Vec<&str> = reordered.iter().map(|o| o.name.as_str()).collect();
    assert_eq!(names, vec!["cmake", "make", "standalone"]);
    let unchanged = options_with_default_first(&options, "bazel");
    let names2: Vec<&str> = unchanged.iter().map(|o| o.name.as_str()).collect();
    assert_eq!(names2, vec!["make", "cmake", "standalone"]);
}

#[test]
fn integration_labels_join_name_and_description() {
    let ic = IntegrationConfig {
        supported: vec![],
        default: String::new(),
        options: vec![IntegrationOption {
            name: "make".to_string(),
            description: "plain make".to_string(),
        }],
    };
    assert_eq!(integration_display_options(&ic), vec!["make - plain make".to_string()]);
}

#[test]
fn cli_hint_spells_out_the_run() {
    let hint = build_cli_hint(
        "proj",
        &TemplateSource::Local("c".to_string()),
        "libfuzzer",
        "make",
        true,
    );
    assert_eq!(hint, "fuzz-init proj --language c --fuzzer libfuzzer --integration make --minimal");
    let remote = build_cli_hint(
        "proj",
        &TemplateSource::GitHubFull("github:o/r".to_string()),
        "afl",
        "cmake",
        false,
    );
    assert_eq!(remote, "fuzz-init proj --fuzzer afl --integration cmake");
}

#[test]
fn minimal_mode_follows_flag() {
    let mut args = bare_args();
    let src = TemplateSource::Local("c".to_string());
    assert!(!determine_minimal_mode(&args, &src));
    args.minimal = true;
    assert!(determine_minimal_mode(&args, &src));
}

#[test]
fn dev_mode_argument_validation() {
    let mut args = bare_args();
    assert_eq!(validate_dev_mode_args(&args), Err(DevModeArgError::NotDevMode));
    args.dev_mode = true;
    assert_eq!(validate_dev_mode_args(&args), Err(DevModeArgError::MissingSource));
    args.language = Some("c".to_string());
    assert_eq!(validate_dev_mode_args(&args), Ok(()));
    args.project = Some("p".to_string());
    assert_eq!(validate_dev_mode_args(&args), Err(DevModeArgError::ProjectNameGiven));
}

#[test]
fn test_matrix_crosses_integrations_and_modes() {
    let mut args = bare_args();
    args.dev_mode = true;
    args.language = Some("c".to_string());
    let meta = meta_with_integrations(vec!["make", "cmake"]);
    let configs = generate_test_configurations("c", &args, Some(&meta));
    let as_tuples: Vec<(String, bool)> =
        configs.iter().map(|c| (c.integration.clone(), c.minimal)).collect();
    assert_eq!(as_tuples, vec![
        ("make".to_string(), false),
        ("make".to_string(), true),
        ("cmake".to_string(), false),
        ("cmake".to_string(), true),
    ]);
    assert!(configs.iter().all(|c| c.language == "c"));
}

#[test]
fn test_matrix_minimal_only_and_fallbacks() {
    let mut args = bare_args();
    args.dev_mode = true;
    args.language = Some("c".to_string());
    args.minimal = true;
    let configs = generate_test_configurations("c", &args, None);
    let as_tuples: Vec<(String, bool)> =
        configs.iter().map(|c| (c.integration.clone(), c.minimal)).collect();
    assert_eq!(as_tuples, vec![("script".to_string(), true)]);
    args.minimal = false;
    args.integration = Some("make".to_string());
    let forced = generate_test_configurations("c", &args, None);
    let as_tuples2: Vec<(String, bool)> =
        forced.iter().map(|c| (c.integration.clone(), c.minimal)).collect();
    assert_eq!(as_tuples2, vec![("make".to_string(), false), ("make".to_string(), true)]);
}

#[test]
fn config_labels_and_project_names() {
    let full = TestConfiguration {
        language: "c".to_string(),
        integration: "cmake".to_string(),
        minimal: false,
    };
    let min = TestConfiguration {
        language: "c".to_string(),
        integration: "make".to_string(),
        minimal: true,
    };
    assert_eq!(format_config_name(&full), "cmake  + full");
    assert_eq!(format_config_name(&min), "make  + minimal");
    assert_eq!(test_project_name(&min), "test-c-make-min");
    assert_eq!(test_project_name(&full), "test-c-cmake-full");
}

#[test]
fn classifies_build_integrations() {
    assert_eq!(classify_build_integration("standalone"), BuildKind::Standalone);
    assert_eq!(classify_build_integration("make"), BuildKind::Makefile);
    assert_eq!(classify_build_integration("cmake"), BuildKind::CMake);
    assert_eq!(classify_build_integration("bazel"), BuildKind::Unsupported);
}

#[test]
fn counts_successful_results() {
    let mk = |ok: bool| TestResult {
        config: TestConfiguration {
            language: "c".to_string(),
            integration: "make".to_string(),
            minimal: false,
        },
        success: ok,
        duration_ms: 10,
        error: None,
        build_log: String::new(),
    };
    let results = vec![mk(true), mk(false), mk(true)];
    assert_eq!(count_successes(&results), 2);
}
