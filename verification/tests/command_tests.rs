use redwood::cli::{Cli, Commands};
use redwood::command::{
    command_of, get_cache_path, has_ignored_component, merge_cache, parse_ignored_dirs,
    repo_passes_filter, surviving_paths, version_line, visit_allowed, CommandKind, Delete, New,
};
use redwood::conf::{Config, ConfigWriter, WorktreeConfig};
use redwood::context::Context;
use redwood::git::{Git, RepoMeta};
use redwood::tmux::{get_tmux_config_path, Tmux};
use redwood::RedwoodError;

fn strings(items: &[&str]) -> Vec<String> {
    items.iter().map(|s| String::from(*s)).collect()
}

#[test]
fn hidden_directories_are_never_visited() {
    assert!(!visit_allowed(true, false, "home/.hidden"));
    assert!(!visit_allowed(true, true, "home/linked"));
    assert!(!visit_allowed(false, false, "home/file"));
    assert!(visit_allowed(true, false, "home/projects"));
}

#[test]
fn ignored_names_come_from_the_environment_list() {
    assert_eq!(parse_ignored_dirs(""), vec!["worktrees"]);
    assert_eq!(parse_ignored_dirs("a,,b"), vec!["a", "b", "worktrees"]);
    assert_eq!(parse_ignored_dirs("node_modules"), vec!["node_modules", "worktrees"]);
}

#[test]
fn ignored_names_match_whole_components_only() {
    let ignored = strings(&["worktrees"]);
    assert!(has_ignored_component("/hub/worktrees/feature", &ignored));
    assert!(has_ignored_component("worktrees", &ignored));
    assert!(!has_ignored_component("/hub/feature", &ignored));

    // A name must equal the component; a directory merely beginning with an
    // ignored name stays visible.
    let ignored = strings(&["work"]);
    assert!(!has_ignored_component("/home/workshop/repo", &ignored));
    assert!(has_ignored_component("/home/work/repo", &ignored));
}

#[test]
fn vanished_cache_entries_are_dropped() {
    let cached = strings(&["a/b"]);
    let survivors = surviving_paths(cached, &vec![false]);
    let fresh = strings(&["c/d"]);
    let merged = merge_cache(survivors, &fresh);
    assert_eq!(merged, strings(&["c/d"]));
}

#[test]
fn merge_does_not_duplicate_existing_entries() {
    let cached = strings(&["a/b"]);
    let survivors = surviving_paths(cached, &vec![true]);
    let fresh = strings(&["a/b", "c/d"]);
    let merged = merge_cache(survivors, &fresh);
    assert_eq!(merged, strings(&["a/b", "c/d"]));
}

#[test]
fn merge_keeps_cache_order_first() {
    let survivors = strings(&["x", "y"]);
    let fresh = strings(&["z", "x", "z"]);
    let merged = merge_cache(survivors, &fresh);
    assert_eq!(merged, strings(&["x", "y", "z"]));
}

#[test]
fn filters_select_exactly_the_requested_kinds() {
    // Only bare: exactly the bare repositories.
    assert!(repo_passes_filter(true, false, true, false));
    assert!(!repo_passes_filter(false, false, true, false));
    // Only working trees: exactly the linked working trees.
    assert!(repo_passes_filter(false, true, false, true));
    assert!(!repo_passes_filter(false, false, false, true));
    // Both filters demand both properties at once, which no repository can
    // satisfy, so every combination short of both is rejected.
    assert!(!repo_passes_filter(true, false, true, true));
    assert!(!repo_passes_filter(false, true, true, true));
    assert!(!repo_passes_filter(false, false, true, true));
    // No filters: everything passes.
    assert!(repo_passes_filter(false, false, false, false));
}

#[test]
fn cache_path_lives_in_home() {
    assert_eq!(get_cache_path(Some("/home/u")), "/home/u/.redwood_cache.json");
    assert_eq!(get_cache_path(None), "./.redwood_cache.json");
}

#[test]
fn tmux_config_path_resolution() {
    assert_eq!(get_tmux_config_path(Some("/xdg"), None).unwrap(), "/xdg/tmux/.tmux.conf");
    assert_eq!(
        get_tmux_config_path(None, Some("/home/u")).unwrap(),
        "/home/u/.config/tmux/.tmux.conf"
    );
    assert!(matches!(
        get_tmux_config_path(None, None),
        Err(RedwoodError::ConfigPathUnresolvable)
    ));
}

#[test]
fn user_config_directory_resolution() {
    assert_eq!(
        redwood::user::get_user_config_directory(Some("/xdg"), Some("/h")).unwrap(),
        "/xdg"
    );
    assert_eq!(
        redwood::user::get_user_config_directory(None, Some("/h")).unwrap(),
        "/h/.config"
    );
    assert!(matches!(
        redwood::user::get_user_config_directory(None, None),
        Err(RedwoodError::ConfigPathUnresolvable)
    ));
}

#[test]
fn version_line_format() {
    assert_eq!(version_line("redwood", "1.2.3"), "redwood v1.2.3");
}

#[test]
fn cli_maps_onto_commands() {
    let cli = Cli {
        command: Commands::Open {
            path: String::from("/p"),
        },
    };
    match command_of(cli) {
        CommandKind::Open(open) => assert_eq!(open.path, "/p"),
        _ => panic!("wrong command"),
    }
    let cli = Cli {
        command: Commands::List {
            only_bare_repos: true,
            only_worktrees: false,
        },
    };
    match command_of(cli) {
        CommandKind::List(list) => {
            assert!(list.only_bare_repos);
            assert!(!list.only_worktrees);
        }
        _ => panic!("wrong command"),
    }
}

struct StubTmux;

impl Tmux for StubTmux {
    fn new_session(&self, _session_name: &str, _start_directory: &str) -> Result<(), RedwoodError> {
        Ok(())
    }
    fn kill_session(&self, _session_name: &str) -> Result<(), RedwoodError> {
        Ok(())
    }
    fn attach_to_session(&self, _session_name: &str) -> Result<(), RedwoodError> {
        Ok(())
    }
}

struct StubWriter;

impl ConfigWriter for StubWriter {
    fn write(&self, _cfg: &Config) -> Result<(), RedwoodError> {
        Ok(())
    }
}

struct StubGit {
    bare: bool,
}

impl Git for StubGit {
    fn create_worktree(&self, _repo_path: &str, _worktree_name: &str) -> Result<(), RedwoodError> {
        Ok(())
    }
    fn delete_worktree(&self, _worktree_path: &str) -> Result<(), RedwoodError> {
        Ok(())
    }
    fn get_repo_meta(&self, _repo_path: &str) -> Result<RepoMeta, RedwoodError> {
        Ok(RepoMeta::new(String::from("/hub"), self.bare))
    }
}

#[test]
fn new_command_refuses_non_bare_sources() {
    let ctx = Context::new(StubTmux, StubGit { bare: false });
    let mut cfg = Config::new();
    let cmd = New {
        repo_path: String::from("/hub"),
        worktree_name: String::from("feature"),
        tmux_session_name: None,
    };
    match cmd.execute(&ctx, &mut cfg, &StubWriter) {
        Err(RedwoodError::NotBareRepoError { repo_path }) => assert_eq!(repo_path, "/hub"),
        other => panic!("unexpected result: {:?}", other),
    }
    assert!(cfg.worktrees().is_empty());
}

#[test]
fn new_command_registers_the_workspace() {
    let ctx = Context::new(StubTmux, StubGit { bare: true });
    let mut cfg = Config::new();
    let cmd = New {
        repo_path: String::from("/hub"),
        worktree_name: String::from("feature"),
        tmux_session_name: Some(String::from("session")),
    };
    assert!(cmd.execute(&ctx, &mut cfg, &StubWriter).is_ok());
    assert_eq!(cfg.worktrees().len(), 1);
    assert_eq!(cfg.worktrees()[0].repo_path(), "/hub");
    assert_eq!(cfg.worktrees()[0].worktree_name(), "feature");
}

#[test]
fn new_command_refuses_a_registered_workspace() {
    let ctx = Context::new(StubTmux, StubGit { bare: true });
    let mut cfg = Config::new();
    cfg.add_worktree(WorktreeConfig::new("/hub", "feature")).unwrap();
    let cmd = New {
        repo_path: String::from("/hub"),
        worktree_name: String::from("feature"),
        tmux_session_name: None,
    };
    assert!(matches!(
        cmd.execute(&ctx, &mut cfg, &StubWriter),
        Err(RedwoodError::WorkTreeConfigAlreadyExists)
    ));
    assert_eq!(cfg.worktrees().len(), 1);
}

#[test]
fn open_command_attaches_to_a_session() {
    let ctx = Context::new(StubTmux, StubGit { bare: true });
    let cmd = redwood::command::Open {
        path: String::from("/hub/feature"),
    };
    assert!(cmd.execute("/hub/feature", &ctx).is_ok());
}

#[test]
fn delete_command_fails_on_unknown_identifiers() {
    let ctx = Context::new(StubTmux, StubGit { bare: true });
    let mut cfg = Config::new();
    cfg.add_worktree(WorktreeConfig::new("/hub", "feature")).unwrap();
    let cmd = Delete {
        path: String::from("missing"),
    };
    match cmd.execute(&ctx, &mut cfg, &StubWriter) {
        Err(RedwoodError::WorkTreeConfigNotFound { worktree_name }) => {
            assert_eq!(worktree_name, "missing");
        }
        other => panic!("unexpected result: {:?}", other),
    }
    assert_eq!(cfg.worktrees().len(), 1);
}

#[test]
fn delete_command_unregisters_the_workspace() {
    let ctx = Context::new(StubTmux, StubGit { bare: true });
    let mut cfg = Config::new();
    cfg.add_worktree(WorktreeConfig::new("/hub", "feature")).unwrap();
    let cmd = Delete {
        path: String::from("feature"),
    };
    assert!(cmd.execute(&ctx, &mut cfg, &StubWriter).is_ok());
    assert!(cfg.worktrees().is_empty());
}

#[test]
fn delete_then_new_with_the_same_name_succeeds() {
    let ctx = Context::new(StubTmux, StubGit { bare: true });
    let mut cfg = Config::new();
    let new_cmd = New {
        repo_path: String::from("/hub"),
        worktree_name: String::from("feature"),
        tmux_session_name: None,
    };
    assert!(new_cmd.execute(&ctx, &mut cfg, &StubWriter).is_ok());
    let delete_cmd = Delete {
        path: String::from("feature"),
    };
    assert!(delete_cmd.execute(&ctx, &mut cfg, &StubWriter).is_ok());
    assert!(new_cmd.execute(&ctx, &mut cfg, &StubWriter).is_ok());
    assert_eq!(cfg.worktrees().len(), 1);
}
