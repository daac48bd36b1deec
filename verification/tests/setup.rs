use postern_daemon::bootstrap::{
    init, key_in, master_key, InitAction, InitFile, KEYFILE_MODE, KEY_LEN, NONCE_LEN,
};
use postern_daemon::config::{parse_argv, runtime_base, DaemonConfig, Environment, Subcommand};
use postern_daemon::error::DaemonError;

fn bytes(s: &str) -> Vec<u8> {
    s.as_bytes().to_vec()
}

fn environment(runtime_dir: Option<&str>) -> Environment {
    Environment {
        runtime_dir: runtime_dir.map(bytes),
        db: None,
        vault: None,
        keyfile: None,
        control_sock: None,
        data_sock: None,
        data_group: None,
    }
}

#[test]
fn paths_below_the_runtime_directory() {
    let c = DaemonConfig::from_env(environment(Some("/run/user/7")));
    assert_eq!(c.db_path, bytes("/run/user/7/postern/policy.db"));
    assert_eq!(c.vault_path, bytes("/run/user/7/postern/vault.postern"));
    assert_eq!(c.keyfile_path, bytes("/run/user/7/postern/keyfile"));
    assert_eq!(c.control_sock, bytes("/run/user/7/postern/control.sock"));
    assert_eq!(c.data_sock, bytes("/run/user/7/postern/data.sock"));
    assert_eq!(c.data_sock_group, None);
}

#[test]
fn paths_without_a_runtime_directory() {
    assert_eq!(runtime_base(&None), bytes("/run/postern"));
    assert_eq!(runtime_base(&Some(bytes("/x/"))), bytes("/x/postern"));
    assert_eq!(runtime_base(&Some(bytes(""))), bytes("postern"));
    assert_eq!(DaemonConfig::from_env(environment(None)).db_path, bytes("/run/postern/policy.db"));
}

#[test]
fn configured_paths_win() {
    let mut env = environment(Some("/r"));
    env.db = Some(bytes("/a"));
    env.vault = Some(bytes("b"));
    env.keyfile = Some(bytes(""));
    env.control_sock = Some(bytes("/c"));
    env.data_sock = Some(bytes("/d"));
    env.data_group = Some("g".to_string());
    let c = DaemonConfig::from_env(env);
    assert_eq!(c.db_path, bytes("/a"));
    assert_eq!(c.vault_path, bytes("b"));
    assert_eq!(c.keyfile_path, bytes(""));
    assert_eq!(c.control_sock, bytes("/c"));
    assert_eq!(c.data_sock, bytes("/d"));
    assert_eq!(c.data_sock_group, Some("g".to_string()));
}

#[test]
fn paths_need_not_be_text() {
    let mut env = environment(None);
    env.runtime_dir = Some(vec![0x2f, 0xff]);
    env.db = Some(vec![0xfe]);
    let c = DaemonConfig::from_env(env);
    assert_eq!(c.db_path, vec![0xfe]);
    assert_eq!(c.keyfile_path, [&[0x2f, 0xff][..], b"/postern/keyfile"].concat());
}

#[test]
fn subcommands() {
    let args = |list: &[&str]| -> Vec<String> { list.iter().map(|s| s.to_string()).collect() };
    assert_eq!(parse_argv(&args(&["p", "init"])), Subcommand::Init);
    assert_eq!(parse_argv(&args(&["p", "init", "x"])), Subcommand::Init);
    assert_eq!(parse_argv(&args(&["p"])), Subcommand::Run);
    assert_eq!(parse_argv(&args(&[])), Subcommand::Run);
    assert_eq!(parse_argv(&args(&["init"])), Subcommand::Run);
    assert_eq!(parse_argv(&args(&["p", "run"])), Subcommand::Run);
}

#[test]
fn keys_are_made_of_two_draws() {
    let first: Vec<u8> = (0..NONCE_LEN as u8).collect();
    let second: Vec<u8> = (100..100 + NONCE_LEN as u8).collect();
    let key = master_key(&first, &second);
    assert_eq!(key.len(), KEY_LEN);
    assert_eq!(key[..NONCE_LEN], first[..]);
    assert_eq!(key[NONCE_LEN..], second[..8]);
    assert_eq!(key_in(key.clone()), Ok(key));
    assert_eq!(key_in(vec![0; 31]), Err(DaemonError::Boot));
    assert_eq!(key_in(vec![0; 33]), Err(DaemonError::Boot));
    assert_eq!(KEYFILE_MODE, 0o600);
}

#[test]
fn a_first_start_makes_three_files() {
    let mut run = init(false, false, false);
    let mut actions = vec![run.action];
    for _ in 0..5 {
        run.advance(true);
        actions.push(run.action);
    }
    assert_eq!(
        actions,
        vec![
            InitAction::CreateKeyfile,
            InitAction::FillKeyfile,
            InitAction::WriteVault,
            InitAction::OpenDb,
            InitAction::Migrate,
            InitAction::Finish,
        ]
    );
}

#[test]
fn nothing_is_overwritten() {
    for (k, v, d) in [(true, false, false), (false, true, false), (false, false, true)] {
        assert_eq!(init(k, v, d).action, InitAction::Fail(DaemonError::Boot));
    }
    let mut run = init(false, false, false);
    run.advance(false);
    assert_eq!(run.action, InitAction::Fail(DaemonError::Boot));
}

#[test]
fn a_failed_first_start_removes_what_it_made() {
    for n in 1..5 {
        let mut run = init(false, false, false);
        for _ in 0..n {
            run.advance(true);
        }
        run.advance(false);
        let mut removed = vec![];
        while let InitAction::Remove(file) = run.action {
            removed.push(file);
            run.advance(false);
        }
        assert_eq!(removed, vec![InitFile::Db, InitFile::Vault, InitFile::Keyfile]);
        assert_eq!(run.action, InitAction::Fail(DaemonError::Boot));
    }
}
