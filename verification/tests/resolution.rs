use mojo_resolver::command::ResolvedCommand;
use mojo_resolver::context::WorkspaceContext;
use mojo_resolver::resolver::{resolve, ResolverState};

fn kv(k: &str, v: &str) -> (String, String) {
    (k.to_string(), v.to_string())
}

fn strs(items: &[&str]) -> Vec<String> {
    items.iter().map(|s| s.to_string()).collect()
}

fn empty_ctx() -> WorkspaceContext {
    WorkspaceContext {
        shell_env: vec![],
        home: None,
        cwd: None,
        existing: vec![],
        readable: vec![],
        path_lookups: vec![],
    }
}

fn unwrap_ok(r: Result<ResolvedCommand, String>) -> ResolvedCommand {
    match r {
        Ok(c) => c,
        Err(e) => panic!("expected a command, got error: {}", e),
    }
}

#[test]
fn cache_hit_absolute_ignores_other_steps() {
    let mut ctx = empty_ctx();
    ctx.shell_env = vec![kv("VIRTUAL_ENV", "/venv")];
    ctx.existing = strs(&["/cached/mojo-lsp-server", "/venv/bin/mojo-lsp-server"]);
    ctx.path_lookups = vec![kv("mojo-lsp-server", "/usr/bin/mojo-lsp-server")];
    let mut cached = Some("/cached/mojo-lsp-server".to_string());
    let cmd = unwrap_ok(resolve(&ctx, &mut cached));
    assert_eq!(cmd.command, "/cached/mojo-lsp-server");
    assert_eq!(cmd.args, Vec::<String>::new());
    assert_eq!(cached, Some("/cached/mojo-lsp-server".to_string()));
}

#[test]
fn cache_hit_bare_tool_gets_server_flag() {
    let mut ctx = empty_ctx();
    ctx.existing = strs(&["/opt/bin/mojo"]);
    let mut cached = Some("/opt/bin/mojo".to_string());
    let cmd = unwrap_ok(resolve(&ctx, &mut cached));
    assert_eq!(cmd.command, "/opt/bin/mojo");
    assert_eq!(cmd.args, strs(&["lsp"]));
}

#[test]
fn stale_absolute_cache_is_cleared_and_search_runs() {
    let mut ctx = empty_ctx();
    ctx.path_lookups = vec![kv("mojo-lsp-server", "/usr/bin/mojo-lsp-server")];
    let mut cached = Some("/gone/mojo-lsp-server".to_string());
    let cmd = unwrap_ok(resolve(&ctx, &mut cached));
    assert_eq!(cmd.command, "/usr/bin/mojo-lsp-server");
    assert_eq!(cached, Some("/usr/bin/mojo-lsp-server".to_string()));
}

#[test]
fn stale_absolute_cache_ends_empty_on_total_failure() {
    let ctx = empty_ctx();
    let mut cached = Some("/gone/mojo".to_string());
    let r = resolve(&ctx, &mut cached);
    assert!(r.is_err());
    assert_eq!(cached, None);
}

#[test]
fn relative_cache_is_trusted_and_shell_wrapped() {
    let ctx = empty_ctx();
    let mut cached = Some(".venv/bin/mojo".to_string());
    let cmd = unwrap_ok(resolve(&ctx, &mut cached));
    assert_eq!(cmd.command, "/bin/sh");
    assert_eq!(cmd.args, strs(&["-c", "exec .venv/bin/mojo lsp"]));
    assert_eq!(cached, Some(".venv/bin/mojo".to_string()));
}

#[test]
fn relative_cache_server_name_has_empty_arg_tail() {
    let ctx = empty_ctx();
    let mut cached = Some("venv/bin/mojo-lsp-server".to_string());
    let cmd = unwrap_ok(resolve(&ctx, &mut cached));
    assert_eq!(cmd.command, "/bin/sh");
    assert_eq!(cmd.args, strs(&["-c", "exec venv/bin/mojo-lsp-server "]));
}

#[test]
fn venv_step_beats_path_step() {
    let mut ctx = empty_ctx();
    ctx.shell_env = vec![kv("VIRTUAL_ENV", "/venv")];
    ctx.existing = strs(&["/venv/bin/mojo"]);
    ctx.path_lookups = vec![kv("mojo-lsp-server", "/usr/bin/mojo-lsp-server")];
    let mut cached = None;
    let cmd = unwrap_ok(resolve(&ctx, &mut cached));
    assert_eq!(cmd.command, "/venv/bin/mojo");
    assert_eq!(cmd.args, strs(&["lsp"]));
    assert_eq!(cached, Some("/venv/bin/mojo".to_string()));
}

#[test]
fn venv_candidates_tried_in_fixed_order() {
    let mut ctx = empty_ctx();
    ctx.shell_env = vec![kv("VIRTUAL_ENV", "/venv")];
    ctx.existing = strs(&[
        "/venv/bin/mojo",
        "/venv/bin/mojo-lsp",
        "/venv/bin/mojo-lsp-server",
    ]);
    let mut cached = None;
    let cmd = unwrap_ok(resolve(&ctx, &mut cached));
    assert_eq!(cmd.command, "/venv/bin/mojo-lsp-server");

    let mut ctx2 = empty_ctx();
    ctx2.shell_env = vec![kv("VIRTUAL_ENV", "/venv")];
    ctx2.existing = strs(&["/venv/bin/mojo", "/venv/bin/mojo-lsp"]);
    let mut cached2 = None;
    let cmd2 = unwrap_ok(resolve(&ctx2, &mut cached2));
    assert_eq!(cmd2.command, "/venv/bin/mojo-lsp");
}

#[test]
fn empty_venv_variable_skips_the_venv_step() {
    let mut ctx = empty_ctx();
    ctx.shell_env = vec![kv("VIRTUAL_ENV", "")];
    ctx.existing = strs(&["/bin/mojo"]);
    let mut cached = None;
    assert!(resolve(&ctx, &mut cached).is_err());
}

#[test]
fn duplicate_env_keys_first_wins() {
    let mut ctx = empty_ctx();
    ctx.shell_env = vec![kv("VIRTUAL_ENV", "/first"), kv("VIRTUAL_ENV", "/second")];
    ctx.existing = strs(&["/first/bin/mojo-lsp", "/second/bin/mojo-lsp-server"]);
    let mut cached = None;
    let cmd = unwrap_ok(resolve(&ctx, &mut cached));
    assert_eq!(cmd.command, "/first/bin/mojo-lsp");
}

#[test]
fn local_marker_yields_shell_wrapped_relative_command() {
    let mut ctx = empty_ctx();
    ctx.readable = strs(&[".venv/pyvenv.cfg"]);
    let mut cached = None;
    let cmd = unwrap_ok(resolve(&ctx, &mut cached));
    assert_eq!(cmd.command, "/bin/sh");
    assert_eq!(cmd.args, strs(&["-c", "exec .venv/bin/mojo-lsp-server "]));
    assert_eq!(cached, Some(".venv/bin/mojo-lsp-server".to_string()));
}

#[test]
fn bare_venv_marker_used_when_dotted_absent() {
    let mut ctx = empty_ctx();
    ctx.readable = strs(&["venv/pyvenv.cfg"]);
    let mut cached = None;
    let cmd = unwrap_ok(resolve(&ctx, &mut cached));
    assert_eq!(cmd.args, strs(&["-c", "exec venv/bin/mojo-lsp-server "]));
    assert_eq!(cached, Some("venv/bin/mojo-lsp-server".to_string()));
}

#[test]
fn path_names_tried_in_fixed_order() {
    let mut ctx = empty_ctx();
    ctx.path_lookups = vec![
        kv("mojo", "/usr/bin/mojo"),
        kv("mojo-language-server", "/usr/bin/mojo-language-server"),
    ];
    let mut cached = None;
    let cmd = unwrap_ok(resolve(&ctx, &mut cached));
    assert_eq!(cmd.command, "/usr/bin/mojo-language-server");
    assert_eq!(cmd.args, Vec::<String>::new());
}

#[test]
fn path_bare_tool_hit_gets_server_flag() {
    let mut ctx = empty_ctx();
    ctx.path_lookups = vec![kv("mojo", "/usr/local/bin/mojo")];
    let mut cached = None;
    let cmd = unwrap_ok(resolve(&ctx, &mut cached));
    assert_eq!(cmd.command, "/usr/local/bin/mojo");
    assert_eq!(cmd.args, strs(&["lsp"]));
}

#[test]
fn vendor_fallback_tried_last_in_fixed_order() {
    let mut ctx = empty_ctx();
    ctx.home = Some("/home/user".to_string());
    ctx.existing = strs(&[
        "/home/user/.modular/bin/mojo-lsp",
        "/home/user/.modular/pkg/packages.modular.com_mojo/bin/mojo-lsp",
    ]);
    let mut cached = None;
    let cmd = unwrap_ok(resolve(&ctx, &mut cached));
    assert_eq!(
        cmd.command,
        "/home/user/.modular/pkg/packages.modular.com_mojo/bin/mojo-lsp"
    );
    assert_eq!(cmd.args, Vec::<String>::new());
}

#[test]
fn resolve_twice_is_idempotent_and_uses_cache() {
    let mut ctx = empty_ctx();
    ctx.shell_env = vec![kv("VIRTUAL_ENV", "/venv")];
    ctx.existing = strs(&["/venv/bin/mojo-lsp-server"]);
    let mut cached = None;
    let first = unwrap_ok(resolve(&ctx, &mut cached));
    let cache_after_first = cached.clone();
    let second = unwrap_ok(resolve(&ctx, &mut cached));
    assert_eq!(first.command, second.command);
    assert_eq!(first.args, second.args);
    assert_eq!(first.env, second.env);
    assert_eq!(cached, cache_after_first);

    // The second call short-circuits through the cache: stripping every
    // other discovery source changes nothing as long as the path exists.
    let mut bare = empty_ctx();
    bare.shell_env = vec![kv("VIRTUAL_ENV", "/venv")];
    bare.existing = strs(&["/venv/bin/mojo-lsp-server"]);
    bare.path_lookups = vec![];
    let third = unwrap_ok(resolve(&bare, &mut cached));
    assert_eq!(third.command, first.command);
    assert_eq!(third.args, first.args);
}

#[test]
fn resolver_state_starts_empty_and_caches() {
    let mut state = ResolverState::new();
    assert_eq!(state.cached_binary_path, None);
    let mut ctx = empty_ctx();
    ctx.path_lookups = vec![kv("mojo-lsp-server", "/usr/bin/mojo-lsp-server")];
    let cmd = unwrap_ok(state.resolve_with(&ctx));
    assert_eq!(cmd.command, "/usr/bin/mojo-lsp-server");
    assert_eq!(
        state.cached_binary_path,
        Some("/usr/bin/mojo-lsp-server".to_string())
    );
}
