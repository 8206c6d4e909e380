use ksec::config::{config_options_for_context, context_names, namespace_for, Kubeconfig, NamedContext};
use ksec::location::expand_tilde;
use ksec::secret::{data_keys, print_secret, print_value, select_value, SecretEntry, SecretError};
use ksec::zsh::{completion_fragment, join_kept_lines, keep_line, split_lines, zsh_completion_script};

fn ctx(name: &str, cluster: &str, user: &str) -> NamedContext {
    NamedContext { name: name.to_string(), cluster: cluster.to_string(), user: Some(user.to_string()) }
}

fn sample_config(current: Option<&str>) -> Kubeconfig {
    Kubeconfig {
        contexts: vec![ctx("dev", "dev-cluster", "dev-user"), ctx("prod", "prod-cluster", "prod-user")],
        current_context: current.map(|c| c.to_string()),
    }
}

fn entry(k: &str, v: &str) -> SecretEntry {
    SecretEntry { key: k.to_string(), value: v.as_bytes().to_vec() }
}

#[test]
fn override_selects_named_context() {
    let kc = sample_config(Some("dev"));
    let sel = config_options_for_context(&kc, &Some("prod".to_string())).unwrap();
    assert_eq!(sel.context, "prod");
    assert_eq!(sel.cluster, "prod-cluster");
    assert_eq!(sel.user, Some("prod-user".to_string()));
}

#[test]
fn override_ignores_missing_current_context() {
    let kc = sample_config(None);
    let sel = config_options_for_context(&kc, &Some("dev".to_string())).unwrap();
    assert_eq!(sel.cluster, "dev-cluster");
}

#[test]
fn first_of_duplicate_names_wins() {
    let kc = Kubeconfig {
        contexts: vec![ctx("a", "c1", "u1"), ctx("a", "c2", "u2")],
        current_context: None,
    };
    let sel = config_options_for_context(&kc, &Some("a".to_string())).unwrap();
    assert_eq!(sel.cluster, "c1");
    assert_eq!(sel.user, Some("u1".to_string()));
}

#[test]
fn no_override_uses_current_context() {
    let kc = sample_config(Some("prod"));
    let sel = config_options_for_context(&kc, &None).unwrap();
    assert_eq!(sel.context, "prod");
    assert_eq!(sel.cluster, "prod-cluster");
}

#[test]
fn no_override_no_current_context_resolves_nothing() {
    let kc = sample_config(None);
    assert!(config_options_for_context(&kc, &None).is_none());
}

#[test]
fn unknown_context_resolves_nothing() {
    let kc = sample_config(Some("dev"));
    assert!(config_options_for_context(&kc, &Some("staging".to_string())).is_none());
    let kc = sample_config(Some("staging"));
    assert!(config_options_for_context(&kc, &None).is_none());
}

#[test]
fn context_without_user_keeps_none() {
    let kc = Kubeconfig {
        contexts: vec![NamedContext { name: "x".to_string(), cluster: "c".to_string(), user: None }],
        current_context: Some("x".to_string()),
    };
    let sel = config_options_for_context(&kc, &None).unwrap();
    assert_eq!(sel.user, None);
}

#[test]
fn lists_context_names_in_order() {
    let kc = sample_config(None);
    assert_eq!(context_names(&kc), vec!["dev".to_string(), "prod".to_string()]);
    let empty = Kubeconfig { contexts: vec![], current_context: None };
    assert!(context_names(&empty).is_empty());
}

#[test]
fn namespace_override_or_default() {
    assert_eq!(namespace_for(&Some("kube-system".to_string()), "default"), "kube-system");
    assert_eq!(namespace_for(&None, "team-a"), "team-a");
}

#[test]
fn single_value_prints_with_newline() {
    let data = Some(vec![entry("token", "abc")]);
    assert_eq!(print_secret(&data, &None).ok().unwrap(), "abc\n");
}

#[test]
fn named_key_prints_its_value() {
    let data = Some(vec![entry("a", "1"), entry("b", "2")]);
    assert_eq!(print_secret(&data, &Some("b".to_string())).ok().unwrap(), "2\n");
}

#[test]
fn no_key_takes_first_entry() {
    let data = Some(vec![entry("a", "1"), entry("b", "2")]);
    assert_eq!(print_secret(&data, &None).ok().unwrap(), "1\n");
}

#[test]
fn missing_key_is_reported() {
    let data = Some(vec![entry("a", "1")]);
    let err = print_secret(&data, &Some("missing".to_string())).err().unwrap();
    assert!(matches!(err, SecretError::KeyNotFound(ref k) if k == "missing"));
    assert!(err.message().contains("No data found for key: missing"));
    assert_eq!(err.message(), "No data found for key: missing");
}

#[test]
fn absent_data_is_reported() {
    let err = print_secret(&None, &None).err().unwrap();
    assert!(matches!(err, SecretError::NoDataFound));
    assert!(err.message().contains("No data found in secret"));
    let err = print_secret(&None, &Some("a".to_string())).err().unwrap();
    assert!(matches!(err, SecretError::NoDataFound));
}

#[test]
fn empty_data_is_reported() {
    let err = print_secret(&Some(vec![]), &None).err().unwrap();
    assert!(matches!(err, SecretError::NoDataFound));
    let err = print_secret(&Some(vec![]), &Some("a".to_string())).err().unwrap();
    assert!(matches!(err, SecretError::NoDataFound));
}

#[test]
fn invalid_utf8_is_reported() {
    let data = Some(vec![SecretEntry { key: "bin".to_string(), value: vec![0xff, 0xfe] }]);
    let err = print_secret(&data, &None).err().unwrap();
    assert!(matches!(err, SecretError::InvalidUtf8));
    assert_eq!(err.message(), "Secret value is not valid UTF-8");
    assert!(matches!(print_value(vec![0xc3]), Err(SecretError::InvalidUtf8)));
}

#[test]
fn utf8_text_round_trips() {
    for text in ["", "hello", "päßwörd ✓ 🔑", "line1\nline2"] {
        let data = Some(vec![SecretEntry { key: "only".to_string(), value: text.as_bytes().to_vec() }]);
        assert_eq!(print_secret(&data, &None).ok().unwrap(), format!("{}\n", text));
    }
}

#[test]
fn decodes_multibyte_value() {
    assert_eq!(print_value(vec![0xc3, 0xa9]).ok().unwrap(), "é\n");
}

#[test]
fn select_value_returns_raw_bytes() {
    let data = Some(vec![SecretEntry { key: "k".to_string(), value: vec![0, 1, 255] }]);
    assert_eq!(select_value(&data, &Some("k".to_string())).ok().unwrap(), vec![0, 1, 255]);
}

#[test]
fn keys_are_listed_in_order() {
    let data = Some(vec![entry("a", "1"), entry("b", "2")]);
    assert_eq!(data_keys(&data), vec!["a".to_string(), "b".to_string()]);
    assert!(data_keys(&None).is_empty());
}

#[test]
fn tilde_is_expanded() {
    assert_eq!(expand_tilde("~/.kube/config", "/home/u"), "/home/u/.kube/config");
    assert_eq!(expand_tilde("~//x", "/home/u/"), "/home/u/x");
    assert_eq!(expand_tilde("~", "/home/u"), "/home/u/");
}

#[test]
fn other_paths_are_kept() {
    assert_eq!(expand_tilde("/etc/kube", "/home/u"), "/etc/kube");
    assert_eq!(expand_tilde("~user/x", "/home/u"), "~user/x");
    assert_eq!(expand_tilde("", "/home/u"), "");
}

#[test]
fn fragment_lines_are_filtered() {
    assert!(keep_line("case $state in"));
    assert!(!keep_line("#!/bin/zsh"));
    assert!(!keep_line("_ksec() { #trim"));
    assert!(keep_line(" #!x"));
}

#[test]
fn lines_are_split_like_str_lines() {
    for s in ["a\nb", "a\r\nb\n", "", "\n\nx", "a\r", "one"] {
        let expected: Vec<String> = s.lines().map(|l| l.to_string()).collect();
        assert_eq!(split_lines(s), expected);
    }
}

#[test]
fn kept_lines_are_joined() {
    let ls = vec!["#!/bin/zsh".to_string(), "a".to_string(), "x #trim".to_string(), "b".to_string()];
    assert_eq!(join_kept_lines(&ls), "a\nb");
    assert_eq!(completion_fragment("#!/bin/zsh\nfoo\nbar #trim\nbaz\n"), "&& ret=0\nfoo\nbaz\n");
}

#[test]
fn zsh_script_is_rewritten() {
    let generated = "'--context=[Kubectl context]:CONTEXT: ' \\\n':secret -- Name of the secret:' \\\n'::key -- Key in secret:' \\\n&& ret=0\n'-n+[Namespace]:NAMESPACE: '";
    let out = zsh_completion_script(generated, "#!/bin/zsh\necho hi\n");
    assert_eq!(
        out,
        "'--context=[Kubectl context]:CONTEXT:->contexts ' \\\n':secret -- Name of the secret:->secrets' \\\n'::key -- Key in secret:->keys' \\\n&& ret=0\necho hi\n'-n+[Namespace]:NAMESPACE:->namespaces '"
    );
}
