use lisa::config::{
    default_config_toml, CommandsConfig, Config, GitConfig, LimitsConfig, ModelsConfig,
    PathsConfig, ProjectConfig, ReviewConfig, TerminalConfig,
};

fn config_named(name: &str) -> Config {
    Config {
        project: ProjectConfig {
            name: name.to_string(),
        },
        models: ModelsConfig::default(),
        limits: LimitsConfig::default(),
        review: ReviewConfig::default(),
        git: GitConfig::default(),
        terminal: TerminalConfig::default(),
        paths: PathsConfig::default(),
        commands: CommandsConfig::default(),
    }
}

#[test]
fn test_default_settings() {
    let config = config_named("test-project");
    assert_eq!(config.project.name, "test-project");
    assert_eq!(config.models.scope, "opus");
    assert_eq!(config.models.build, "sonnet");
    assert_eq!(config.limits.max_spiral_passes, 5);
    assert_eq!(config.limits.max_ralph_iterations, 50);
    assert_eq!(config.limits.stall_threshold, 2);
    assert_eq!(config.limits.budget_micro_usd, 0);
    assert_eq!(config.limits.budget_warn_pct, 80);
    assert!(config.review.pause);
    assert!(config.git.auto_commit);
    assert!(!config.git.auto_push);
    assert!(config.terminal.collapse_output);
    assert_eq!(config.paths.lisa_root, ".lisa");
    assert_eq!(config.paths.source, vec!["src"]);
    assert_eq!(config.paths.tests_ddv, "tests/ddv");
}

#[test]
fn test_source_dirs_display() {
    let config = config_named("test");
    assert_eq!(config.source_dirs_display(), "src");
    let mut multi = config_named("test");
    multi.paths.source = vec!["src".to_string(), "lib".to_string()];
    assert_eq!(multi.source_dirs_display(), "src, lib");
}

#[test]
fn test_lisa_root_path() {
    let config = config_named("test");
    assert_eq!(config.lisa_root("/work/project"), "/work/project/.lisa");
}

#[test]
fn test_default_config_toml_contents() {
    let text = default_config_toml("demo");
    assert!(text.starts_with("[project]\nname = \"demo\"\n"));
    assert!(text.contains("\n[models]\n"));
    assert!(text.contains("build = \"sonnet\"\n"));
    assert!(text.contains("max_spiral_passes = 5\n"));
    assert!(text.contains("lisa_root = \".lisa\"\n"));
    assert!(text.contains("\n[commands]\n"));
}
