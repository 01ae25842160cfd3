//! The state directory.
use hushwarren::state_dir::{
    file_stem, init, join_path, resolve, told_state_dir, StateDirError, UsualPlace,
    FALLBACK_STATE_DIR, UNIX_STATE_DIR,
};

#[test]
fn explicit_wins_over_env() {
    let result =
        resolve(Some("/explicit/path"), Some("/env/path"), UNIX_STATE_DIR, UsualPlace::Reached);
    assert_eq!(result, "/explicit/path");
}

#[test]
fn env_wins_over_platform_default() {
    let result = resolve(None, Some("/env/state"), UNIX_STATE_DIR, UsualPlace::Reached);
    assert_eq!(result, "/env/state");
}

#[test]
fn empty_env_falls_through_to_default() {
    let result = resolve(None, Some(""), UNIX_STATE_DIR, UsualPlace::Reached);
    assert!(!result.is_empty());
    assert_eq!(result, UNIX_STATE_DIR);
}

#[test]
fn init_creates_subdirs() {
    let dirs = init("/s/state");
    assert_eq!(dirs[0], "/s/state");
    for sub in ["lists", "compiled"] {
        assert!(dirs.contains(&format!("/s/state/{sub}")), "{dirs:?}");
    }
}

#[test]
fn usual_place_that_is_denied() {
    assert_eq!(resolve(None, None, UNIX_STATE_DIR, UsualPlace::Denied), FALLBACK_STATE_DIR);
    assert_eq!(told_state_dir(None, None), None);
    assert_eq!(told_state_dir(None, Some("/e")).as_deref(), Some("/e"));
}

#[test]
fn paths_and_stems() {
    assert_eq!(join_path("/a", "b"), "/a/b");
    assert_eq!(join_path("/a/", "b"), "/a/b");
    assert_eq!(file_stem("work.toml", "toml").as_deref(), Some("work"));
    assert_eq!(file_stem("work.txt", "toml"), None);
    assert_eq!(file_stem("toml", "toml"), None);
}

#[test]
fn state_dir_error_message() {
    let e = StateDirError::Create { path: "/s".to_owned(), source: "denied".to_owned() };
    assert_eq!(e.message(), "failed to create state directory /s: denied");
}
