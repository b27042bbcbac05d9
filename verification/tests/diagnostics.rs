use mojo_resolver::context::WorkspaceContext;
use mojo_resolver::resolver::resolve;

fn kv(k: &str, v: &str) -> (String, String) {
    (k.to_string(), v.to_string())
}

fn empty_ctx() -> WorkspaceContext {
    WorkspaceContext {
        shell_env: vec![],
        home: None,
        cwd: None,
        existing: vec![],
        readable: vec![],
        path_lookups: vec![],
    }
}

fn unwrap_err(r: Result<mojo_resolver::command::ResolvedCommand, String>) -> String {
    match r {
        Ok(c) => panic!("expected an error, got command: {}", c.command),
        Err(e) => e,
    }
}

#[test]
fn failure_message_exact_shape() {
    let mut ctx = empty_ctx();
    ctx.shell_env = vec![
        kv("VIRTUAL_ENV", "/venv"),
        kv("PATH", "/usr/bin:/bin"),
    ];
    ctx.cwd = Some("/work/project".to_string());
    let mut cached = None;
    let msg = unwrap_err(resolve(&ctx, &mut cached));
    let expected = "Mojo Language Server not found.\n\n\
        Checked:\n\
        - VIRTUAL_ENV: /venv\n\
        - Project .venv/venv roots\n\
        - PATH and Standard Modular locations\n\n\
        Debug Info:\n\
        - CWD Check: /work/project\n\
        - VENV Check: /venv\n\
        - PATH Check:\n- /usr/bin\n- /bin";
    assert_eq!(msg, expected);
}

#[test]
fn failure_message_names_venv_cwd_and_each_path_entry() {
    let mut ctx = empty_ctx();
    ctx.shell_env = vec![kv("PATH", "/opt/tools:/usr/local/bin:/usr/bin")];
    ctx.cwd = Some("/somewhere/else".to_string());
    let mut cached = None;
    let msg = unwrap_err(resolve(&ctx, &mut cached));
    assert!(msg.contains("VIRTUAL_ENV"));
    assert!(msg.contains("/somewhere/else"));
    assert!(msg.contains("\n- /opt/tools"));
    assert!(msg.contains("\n- /usr/local/bin"));
    assert!(msg.contains("\n- /usr/bin"));
}

#[test]
fn failure_message_unset_and_unknown_placeholders() {
    let ctx = empty_ctx();
    let mut cached = None;
    let msg = unwrap_err(resolve(&ctx, &mut cached));
    assert!(msg.contains("- VIRTUAL_ENV: Unset\n"));
    assert!(msg.contains("- CWD Check: Unknown\n"));
    assert!(msg.contains("- VENV Check: Unset\n"));
    assert!(msg.ends_with("- PATH Check:\n- Unset"));
}

#[test]
fn failure_keeps_empty_cache_empty() {
    let ctx = empty_ctx();
    let mut cached = None;
    assert!(resolve(&ctx, &mut cached).is_err());
    assert_eq!(cached, None);
}
