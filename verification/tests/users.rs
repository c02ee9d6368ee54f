use vpsguard::users::{
    authorized_keys, merge_keys, missing_keys, sudoers_content, sudoers_file, user_exists,
};

fn keys() -> Vec<String> {
    vec![
        "ssh-ed25519 AAAAkeyA user@a".into(),
        "ssh-ed25519 AAAAkeyB user@b".into(),
    ]
}

#[test]
fn missing_keys_counts_absent() {
    assert_eq!(missing_keys("", &keys()), 2);
    assert_eq!(missing_keys("ssh-ed25519 AAAAkeyA user@a\n", &keys()), 1);
    assert_eq!(
        missing_keys(
            "ssh-ed25519 AAAAkeyA user@a\nssh-ed25519 AAAAkeyB user@b\n",
            &keys()
        ),
        0
    );
}

#[test]
fn merge_appends_only_missing() {
    let merged = merge_keys("ssh-ed25519 AAAAkeyA user@a\n", &keys());
    assert_eq!(merged.matches("AAAAkeyA").count(), 1);
    assert_eq!(merged.matches("AAAAkeyB").count(), 1);
}

#[test]
fn merge_preserves_operator_keys() {
    let merged = merge_keys("ssh-rsa OPERATOR root@host\n", &keys());
    assert!(merged.contains("OPERATOR root@host"));
    assert!(merged.contains("AAAAkeyA"));
}

#[test]
fn merge_is_idempotent() {
    let once = merge_keys("", &keys());
    let twice = merge_keys(&once, &keys());
    assert_eq!(once, twice);
}

#[test]
fn merge_handles_missing_trailing_newline() {
    let merged = merge_keys("ssh-rsa OP root@h", &keys());
    assert!(merged.contains("OP root@h\nssh-ed25519 AAAAkeyA"));
}

#[test]
fn sudoers_content_is_stable() {
    assert_eq!(sudoers_content("deploy"), "deploy ALL=(ALL:ALL) ALL\n");
}

#[test]
fn merge_into_empty_is_the_keys_one_per_line() {
    assert_eq!(
        merge_keys("", &keys()),
        "ssh-ed25519 AAAAkeyA user@a\nssh-ed25519 AAAAkeyB user@b\n"
    );
}

#[test]
fn key_match_ignores_surrounding_whitespace() {
    assert_eq!(missing_keys("  ssh-ed25519 AAAAkeyA user@a  \r\n", &keys()), 1);
}

#[test]
fn user_paths() {
    assert_eq!(sudoers_file("deploy"), "/etc/sudoers.d/gli-deploy");
    assert_eq!(authorized_keys("deploy"), "/home/deploy/.ssh/authorized_keys");
}

#[test]
fn user_exists_reads_first_passwd_field() {
    let passwd = "root:x:0:0::/root:/bin/bash\ndeploy:x:1000:1000::/home/deploy:/bin/bash\n";
    assert!(user_exists(passwd, "deploy"));
    assert!(user_exists(passwd, "root"));
    assert!(!user_exists(passwd, "dep"));
    assert!(!user_exists("", "root"));
}
