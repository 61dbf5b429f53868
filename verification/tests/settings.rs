use bacon::action::{parse_action, Action};
use bacon::cli::args::Args;
use bacon::conf::keybindings::KeyBindings;
use bacon::conf::settings::{check_config, Config, ConfigError, Job, Settings, SettingsError};
use bacon::watches::add_existing_paths;

fn no_args() -> Args {
    Args {
        help: false,
        version: false,
        prefs: false,
        headless: false,
        summary: false,
        no_summary: false,
        wrap: false,
        no_wrap: false,
        reverse: false,
        no_reverse: false,
        help_line: false,
        no_help_line: false,
        list_jobs: false,
        completion_list_jobs: false,
        offline: false,
        init: false,
        listen: false,
        no_listen: false,
        send: None,
        job: None,
        no_default_features: false,
        features: None,
        all_features: false,
        export_locations: false,
        no_export_locations: false,
        watch: None,
        project: None,
        config_toml: None,
        generate_config_schema: false,
        args: Vec::new(),
        additional_job_args: Vec::new(),
    }
}

fn job(command: &[&str]) -> Job {
    Job {
        command: command.iter().map(|s| s.to_string()).collect(),
        watch: None,
        default_watch: None,
        on_change_strategy: None,
        analyzer: None,
    }
}

#[test]
fn test_default_files() {
    let mut settings = Settings::new();
    settings.apply_config(&Config::empty());
    settings.apply_config(&Config::default_package_config());
    settings.check().unwrap();
}

#[test]
fn config_test_default_files() {
    let mut settings = Settings::new();
    settings.apply_config(&Config::default_package_config());
    assert_eq!(settings.check(), Ok(()));
    assert_eq!(settings.initial_job(), "check");
    assert_eq!(settings.job("clippy").unwrap().command[1], "clippy");
}

#[test]
fn own_jobs_override() {
    let mut settings = Settings::new();
    settings.apply_config(&Config::default_package_config());
    let mut c = Config::empty();
    c.jobs.push(("check-win".to_string(), job(&["cargo", "check", "--target", "x86_64-pc-windows-gnu"])));
    c.jobs.push(("check".to_string(), job(&["cargo", "check", "--all-targets"])));
    c.default_job = Some("check-win".to_string());
    c.summary = Some(true);
    settings.apply_config(&c);
    assert_eq!(settings.job("check").unwrap().command[2], "--all-targets");
    assert_eq!(settings.job("check-win").unwrap().command[3], "x86_64-pc-windows-gnu");
    assert_eq!(settings.initial_job(), "check-win");
    assert!(settings.summary);
    let mut args = no_args();
    args.job = Some("clippy".to_string());
    args.no_summary = true;
    settings.apply_args(&args);
    assert_eq!(settings.initial_job(), "clippy");
    assert!(!settings.summary);
    assert_eq!(settings.check(), Ok(()));
}

#[test]
fn settings_errors() {
    let settings = Settings::new();
    assert_eq!(settings.check(), Err(SettingsError::NoJob));
    let mut settings = Settings::new();
    let mut c = Config::empty();
    c.jobs.push(("test".to_string(), job(&["cargo", "test"])));
    c.default_job = Some("nope".to_string());
    settings.apply_config(&c);
    assert_eq!(settings.check(), Err(SettingsError::DefaultJobNotFound("nope".to_string())));
    let mut c = Config::empty();
    c.jobs.push(("bad name!".to_string(), job(&["cargo", "test"])));
    assert_eq!(check_config(&c), Err(ConfigError::IllegalJobName("bad name!".to_string())));
    let mut c = Config::empty();
    c.jobs.push(("ok-name_2".to_string(), job(&[])));
    assert_eq!(check_config(&c), Err(ConfigError::EmptyCommand("ok-name_2".to_string())));
}

#[test]
fn key_bindings() {
    let mut settings = Settings::new();
    assert_eq!(settings.keybindings.get("c"), Some(&Action::Job("clippy".to_string())));
    assert_eq!(settings.keybindings.get("t"), Some(&Action::Job("test".to_string())));
    assert_eq!(settings.keybindings.get("f"), Some(&Action::ScopeToFailures));
    assert_eq!(settings.keybindings.get("Esc"), Some(&Action::Back));
    assert_eq!(settings.keybindings.get("g"), None);
    let mut c = Config::empty();
    c.vim_keys = Some(true);
    let mut k = KeyBindings::empty();
    k.set("c", parse_action("job:check-all").unwrap());
    c.keybindings = Some(k);
    settings.apply_config(&c);
    assert_eq!(settings.keybindings.get("c"), Some(&Action::Job("check-all".to_string())));
    assert_eq!(settings.keybindings.get("g"), Some(&Action::Scroll("scroll-to-top".to_string())));
}

#[test]
fn existing_paths() {
    let mut paths = vec!["/p/src".to_string()];
    let candidates = vec!["/p/src".to_string(), "/p/tests".to_string(), "/p/benches".to_string(), "/p/tests".to_string()];
    let exists = vec![true, true, false, true];
    add_existing_paths(&mut paths, &candidates, &exists);
    assert_eq!(paths, vec!["/p/src".to_string(), "/p/tests".to_string()]);
}
