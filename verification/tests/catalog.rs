use multiplexer::catalog::{
    merge_models, open_external_program, parse_model_keys, parse_tailscale_dns,
    remotes_serve_note, slash_arg,
};

#[test]
fn parse_model_keys_skips_op_and_nested() {
    let toml = r#"
[model.grok]
name = "grok"
[model.ds-flash]
name = "flash"
api_key = "op://Vault/Item/field"
[models.extra]
id = "x"
[other.grok]
name = "nope"
[model.too.nested]
name = "no"
"#;
    let names = parse_model_keys(toml);
    assert!(names.contains(&"grok".into()));
    assert!(names.contains(&"extra".into()));
    assert!(!names.iter().any(|n| n == "ds-flash"));
    assert!(!names.iter().any(|n| n.contains("op://")));
    assert!(!names.iter().any(|n| n == "too"));
    assert!(parse_model_keys("not a table").is_empty());
    assert!(parse_model_keys("").is_empty());
}

#[test]
fn merge_models_config_then_rpc() {
    let merged = merge_models(
        &["grok".into(), "".into(), "op://x".into()],
        &["grok".into(), "fake".into(), "  ".into()],
    );
    assert_eq!(merged, vec!["grok".to_owned(), "fake".to_owned()]);
    assert!(merge_models(&[], &[]).is_empty());
}

#[test]
fn slash_arg_reads_second_token() {
    assert_eq!(slash_arg("/model grok-4.6").as_deref(), Some("grok-4.6"));
    assert_eq!(slash_arg("  /model   x  y").as_deref(), Some("x"));
    assert_eq!(slash_arg("/model"), None);
    assert_eq!(slash_arg("model grok"), None);
    assert_eq!(slash_arg("/files src"), Some("src".into()));
}

#[test]
fn tailscale_dns_and_open_external() {
    assert_eq!(
        parse_tailscale_dns(r#"{"Self":{"DNSName":"box.tailnet.ts.net."}}"#).as_deref(),
        Some("box.tailnet.ts.net")
    );
    assert_eq!(parse_tailscale_dns("{}"), None);
    assert_eq!(parse_tailscale_dns("nope"), None);
    assert_eq!(parse_tailscale_dns(r#"{"Self":{"DNSName":""}}"#), None);
    assert_eq!(open_external_program(Some("code"), Some("vim")), "code");
    assert_eq!(open_external_program(Some("  "), Some("vim")), "vim");
    assert_eq!(open_external_program(None, None), "start");
    assert_eq!(remotes_serve_note(), "Detect only. Tailscale Serve later.");
}
