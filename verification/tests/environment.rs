use mojo_resolver::command::{derive_args, ResolvedCommand};
use mojo_resolver::context::WorkspaceContext;
use mojo_resolver::resolver::{resolve, vendor_home, stat_probe_paths, marker_probe_paths, which_name_list};

fn kv(k: &str, v: &str) -> (String, String) {
    (k.to_string(), v.to_string())
}

fn strs(items: &[&str]) -> Vec<String> {
    items.iter().map(|s| s.to_string()).collect()
}

fn empty_ctx() -> WorkspaceContext {
    WorkspaceContext {
        shell_env: vec![],
        home: None,
        cwd: None,
        existing: vec![],
        readable: vec![],
        path_lookups: vec![],
    }
}

fn unwrap_ok(r: Result<ResolvedCommand, String>) -> ResolvedCommand {
    match r {
        Ok(c) => c,
        Err(e) => panic!("expected a command, got error: {}", e),
    }
}

#[test]
fn argument_rule_depends_on_final_segment_only() {
    assert_eq!(derive_args("/usr/bin/mojo"), strs(&["lsp"]));
    assert_eq!(derive_args("mojo"), strs(&["lsp"]));
    assert_eq!(derive_args("/usr/bin/mojo-lsp-server"), Vec::<String>::new());
    assert_eq!(derive_args("/usr/bin/mojo-lsp"), Vec::<String>::new());
    // A name that merely ends in the tool's letters is not the bare tool.
    assert_eq!(derive_args("/usr/bin/gizmojo"), Vec::<String>::new());
}

#[test]
fn vendor_home_prefers_shell_variable_over_home_default() {
    let mut ctx = empty_ctx();
    ctx.shell_env = vec![kv("MODULAR_HOME", "/custom/modular")];
    ctx.home = Some("/home/user".to_string());
    ctx.existing = strs(&["/home/user/.modular"]);
    assert_eq!(vendor_home(&ctx), Some("/custom/modular".to_string()));
}

#[test]
fn vendor_home_falls_back_to_home_subdirectory_when_it_exists() {
    let mut ctx = empty_ctx();
    ctx.home = Some("/home/user".to_string());
    ctx.existing = strs(&["/home/user/.modular"]);
    assert_eq!(vendor_home(&ctx), Some("/home/user/.modular".to_string()));

    let mut bare = empty_ctx();
    bare.home = Some("/home/user".to_string());
    assert_eq!(vendor_home(&bare), None);
}

#[test]
fn command_env_passes_whole_snapshot_through() {
    let mut ctx = empty_ctx();
    ctx.shell_env = vec![kv("PATH", "/usr/bin"), kv("HOME", "/home/user")];
    ctx.path_lookups = vec![kv("mojo-lsp-server", "/usr/bin/mojo-lsp-server")];
    let mut cached = None;
    let cmd = unwrap_ok(resolve(&ctx, &mut cached));
    assert_eq!(
        cmd.env,
        vec![kv("PATH", "/usr/bin"), kv("HOME", "/home/user")]
    );
}

#[test]
fn vendor_home_is_injected_exactly_once() {
    let mut ctx = empty_ctx();
    ctx.shell_env = vec![
        kv("MODULAR_HOME", "/custom/modular"),
        kv("PATH", "/usr/bin"),
    ];
    ctx.path_lookups = vec![kv("mojo-lsp-server", "/usr/bin/mojo-lsp-server")];
    let mut cached = None;
    let cmd = unwrap_ok(resolve(&ctx, &mut cached));
    let hits: Vec<&(String, String)> = cmd
        .env
        .iter()
        .filter(|(k, _)| k == "MODULAR_HOME")
        .collect();
    assert_eq!(hits.len(), 1);
    assert_eq!(hits[0].1, "/custom/modular");
    assert!(cmd.env.contains(&kv("PATH", "/usr/bin")));
    assert_eq!(
        cmd.env,
        vec![kv("PATH", "/usr/bin"), kv("MODULAR_HOME", "/custom/modular")]
    );
}

#[test]
fn home_default_vendor_home_is_injected_into_command_env() {
    let mut ctx = empty_ctx();
    ctx.shell_env = vec![kv("PATH", "/usr/bin")];
    ctx.home = Some("/home/user".to_string());
    ctx.existing = strs(&["/home/user/.modular"]);
    ctx.path_lookups = vec![kv("mojo", "/usr/bin/mojo")];
    let mut cached = None;
    let cmd = unwrap_ok(resolve(&ctx, &mut cached));
    assert_eq!(
        cmd.env,
        vec![
            kv("PATH", "/usr/bin"),
            kv("MODULAR_HOME", "/home/user/.modular"),
        ]
    );
}

#[test]
fn stat_probes_cover_cache_vendor_default_venv_and_fallback() {
    let env = vec![kv("VIRTUAL_ENV", "/venv")];
    let home = Some("/home/user".to_string());
    let cached = Some("/cached/mojo".to_string());
    let probes = stat_probe_paths(&env, &home, &cached);
    assert_eq!(
        probes,
        strs(&[
            "/cached/mojo",
            "/home/user/.modular",
            "/venv/bin/mojo-lsp-server",
            "/venv/bin/mojo-lsp",
            "/venv/bin/mojo",
            "/home/user/.modular/pkg/packages.modular.com_mojo/bin/mojo-lsp-server",
            "/home/user/.modular/pkg/packages.modular.com_mojo/bin/mojo-lsp",
            "/home/user/.modular/bin/mojo-lsp-server",
            "/home/user/.modular/bin/mojo-lsp",
        ])
    );
}

#[test]
fn stat_probes_skip_relative_cache_and_empty_venv() {
    let env = vec![kv("VIRTUAL_ENV", "")];
    let probes = stat_probe_paths(&env, &None, &Some(".venv/bin/mojo".to_string()));
    assert_eq!(probes, Vec::<String>::new());
}

#[test]
fn probe_lists_name_markers_and_path_names() {
    assert_eq!(
        marker_probe_paths(),
        strs(&[".venv/pyvenv.cfg", "venv/pyvenv.cfg"])
    );
    assert_eq!(
        which_name_list(),
        strs(&["mojo-lsp-server", "mojo-lsp", "mojo-language-server", "mojo"])
    );
}
