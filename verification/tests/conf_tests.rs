use redwood::conf::{get_config_path, Config, WorktreeConfig};
use redwood::RedwoodError;

#[test]
fn list() {
    let mut cfg = Config::new();
    let wts = vec![
        WorktreeConfig::new("b", "b"),
        WorktreeConfig::new("a/b/c", "a"),
        WorktreeConfig::new("a/b/c/d", "a"),
        WorktreeConfig::new("a/b", "b"),
        WorktreeConfig::new("a/b/a", "b"),
        WorktreeConfig::new("a/b/a/e", "b"),
        WorktreeConfig::new("a", "b"),
    ];

    for wt in wts {
        cfg.add_worktree(wt).unwrap();
    }

    let v = cfg.list();
    assert_eq!(v[0].repo_path(), "a");
    assert_eq!(v[1].repo_path(), "a/b");
    assert_eq!(v[2].repo_path(), "a/b/a");
    assert_eq!(v[3].repo_path(), "a/b/a/e");
    assert_eq!(v[4].repo_path(), "a/b/c");
    assert_eq!(v[5].repo_path(), "a/b/c/d");
    assert_eq!(v[6].repo_path(), "b");
}

#[test]
fn list_is_case_insensitive_and_idempotent() {
    let mut cfg = Config::new();
    cfg.add_worktree(WorktreeConfig::new("B/x", "one")).unwrap();
    cfg.add_worktree(WorktreeConfig::new("a/y", "two")).unwrap();
    cfg.add_worktree(WorktreeConfig::new("A/z", "three")).unwrap();

    let v = cfg.list();
    assert_eq!(v[0].repo_path(), "a/y");
    assert_eq!(v[1].repo_path(), "A/z");
    assert_eq!(v[2].repo_path(), "B/x");

    let mut sorted_cfg = Config::new();
    for wt in &v {
        sorted_cfg.add_worktree(wt.clone()).unwrap();
    }
    let again = sorted_cfg.list();
    for (x, y) in v.iter().zip(again.iter()) {
        assert_eq!(x.repo_path(), y.repo_path());
        assert_eq!(x.worktree_name(), y.worktree_name());
    }
}

#[test]
fn add_duplicate_pair_fails() {
    let mut cfg = Config::new();
    cfg.add_worktree(WorktreeConfig::new("repo", "wt")).unwrap();
    let r = cfg.add_worktree(WorktreeConfig::new("repo", "wt"));
    assert!(matches!(r, Err(RedwoodError::WorkTreeConfigAlreadyExists)));
    assert_eq!(cfg.worktrees().len(), 1);
}

#[test]
fn add_same_repo_other_name_succeeds() {
    let mut cfg = Config::new();
    cfg.add_worktree(WorktreeConfig::new("repo", "one")).unwrap();
    cfg.add_worktree(WorktreeConfig::new("repo", "two")).unwrap();
    cfg.add_worktree(WorktreeConfig::new("other", "one")).unwrap();
    assert_eq!(cfg.worktrees().len(), 3);
}

#[test]
fn find_matches_path_or_name_in_insertion_order() {
    let mut cfg = Config::new();
    cfg.add_worktree(WorktreeConfig::new("repo/a", "alpha")).unwrap();
    cfg.add_worktree(WorktreeConfig::new("repo/b", "beta")).unwrap();

    let (i, wt) = cfg.find("repo/b").unwrap();
    assert_eq!(i, 1);
    assert_eq!(wt.worktree_name(), "beta");

    let (i, wt) = cfg.find("alpha").unwrap();
    assert_eq!(i, 0);
    assert_eq!(wt.repo_path(), "repo/a");

    assert!(cfg.find("gamma").is_none());
}

#[test]
fn remove_unknown_identifier_fails_and_keeps_registry() {
    let mut cfg = Config::new();
    cfg.add_worktree(WorktreeConfig::new("a/b", "wt")).unwrap();
    let r = cfg.remove_worktree("missing");
    match r {
        Err(RedwoodError::WorkTreeConfigNotFound { worktree_name }) => {
            assert_eq!(worktree_name, "missing");
        }
        other => panic!("unexpected result: {:?}", other),
    }
    assert_eq!(cfg.worktrees().len(), 1);
    assert_eq!(cfg.worktrees()[0].repo_path(), "a/b");
}

#[test]
fn remove_then_add_same_pair_succeeds() {
    let mut cfg = Config::new();
    cfg.add_worktree(WorktreeConfig::new("hub", "feature")).unwrap();
    cfg.remove_worktree("feature").unwrap();
    assert!(cfg.add_worktree(WorktreeConfig::new("hub", "feature")).is_ok());
    assert_eq!(cfg.worktrees().len(), 1);
}

#[test]
fn config_path_prefers_xdg() {
    let p = get_config_path(Some("/xdg"), Some("/home/u")).unwrap();
    assert_eq!(p, "/xdg/redwood/conf.json");
}

#[test]
fn config_path_falls_back_to_home() {
    let p = get_config_path(None, Some("/home/u")).unwrap();
    assert_eq!(p, "/home/u/.config/redwood/conf.json");
}

#[test]
fn config_path_fails_without_environment() {
    let r = get_config_path(None, None);
    assert!(matches!(r, Err(RedwoodError::ConfigPathUnresolvable)));
}

#[test]
fn error_messages() {
    let e = RedwoodError::GitError {
        message: String::from("boom"),
    };
    assert_eq!(e.message(), "git failed: boom");
    let e = RedwoodError::NotBareRepoError {
        repo_path: String::from("/r"),
    };
    assert_eq!(e.message(), "repo at \"/r\" is not bare");
    let e = RedwoodError::WorkTreeConfigNotFound {
        worktree_name: String::from("wt"),
    };
    assert_eq!(e.message(), "worktree config not found: wt");
    let e = RedwoodError::CommandError {
        command: String::from("git worktree add"),
        message: String::from("denied"),
    };
    assert_eq!(
        e.message(),
        "failed to execute command \"git worktree add\": denied"
    );
    assert_eq!(
        RedwoodError::TmuxError(String::from("no server")).message(),
        "no server"
    );
    assert_eq!(
        RedwoodError::ConfigPathUnresolvable.message(),
        "could not resolve path to config variable (make sure $XDG_CONFIG_HOME or $HOME is set)"
    );
    assert_eq!(RedwoodError::ConfigNotFound.message(), "config not found");
    assert_eq!(
        RedwoodError::ConfigReadError(String::from("bad")).message(),
        "could not read config: bad"
    );
    assert_eq!(
        RedwoodError::ConfigWriteError(String::from("full")).message(),
        "could not write config: full"
    );
    assert_eq!(
        RedwoodError::WorkTreeConfigAlreadyExists.message(),
        "worktree config already exists"
    );
    let e = RedwoodError::PathError {
        path: String::from("/p"),
        msg: String::from("gone"),
    };
    assert_eq!(e.message(), "path error \"/p\": gone");
    let e = RedwoodError::EnvironmentVariableError {
        var: String::from("HOME"),
        msg: String::from("unset"),
    };
    assert_eq!(e.message(), "could not get environment variable HOME: unset");
    let e = RedwoodError::FSError {
        path: String::from("/d"),
        msg: String::from("io"),
    };
    assert_eq!(e.message(), "could not access path \"/d\": io");
}
