//! Guessing at an agent.

use kv_cli::agent_detect::{
    command_line, is_agent_environment, is_bare_invocation, parent_cmdline, parent_pid,
    should_nudge, unwrap_claude_code_bash_tool,
};

fn names(list: &[&str]) -> Vec<String> {
    list.iter().map(|s| s.to_string()).collect()
}

const WRAPPED: &str = "/bin/bash -c source /tmp/snap.sh || true && shopt -u extglob || true && \
                       eval 'kv get KEY' < /dev/null && pwd -P >| /tmp/cwd";

#[test]
fn each_marker_tells_of_an_agent() {
    for marker in [
        "CLAUDE_CODE_CHILD_SESSION",
        "CLAUDECODE",
        "OPENCODE_CLIENT",
        "CURSOR_AGENT",
        "CLINE_ACTIVE",
        "GEMINI_CLI",
        "CODEX_SANDBOX",
        "AGENT",
    ] {
        assert!(is_agent_environment(&names(&["PATH", marker])));
    }
    assert!(!is_agent_environment(&names(&["PATH", "HOME", "AGENTS", "claudecode"])));
    assert!(!is_agent_environment(&Vec::new()));
}

#[test]
fn the_parent_is_read_from_the_status() {
    let status = "Name:\tkv\nPid:\t12\nPPid:\t 4711 \nPPid:\t1\n";
    assert_eq!(parent_pid(status), Some(4711));
    assert_eq!(parent_pid("Name:\tkv\n"), None);
    assert_eq!(parent_pid("PPid:\tx\nPPid:\t1\n"), None);
    assert_eq!(parent_pid("PPid:\t4294967296\n"), None);
}

#[test]
fn the_command_line_is_joined_with_spaces() {
    assert_eq!(parent_cmdline(b"bash\0-c\0\0kv get\0"), Some("bash -c kv get".to_string()));
    assert_eq!(parent_cmdline(b""), None);
    assert_eq!(parent_cmdline(b"\0\0"), None);
    assert_eq!(parent_cmdline(b"\0\xff"), Some("\u{fffd}".to_string()));
    assert_eq!(parent_cmdline(b"a\xffb\0"), Some("a\u{fffd}b".to_string()));
    assert_eq!(command_line(&names(&["a", "b"])), Some("a b".to_string()));
    assert_eq!(command_line(&Vec::new()), None);
}

#[test]
fn a_wrapped_command_is_taken_out() {
    assert_eq!(unwrap_claude_code_bash_tool(WRAPPED), Some("kv get KEY".to_string()));
    assert_eq!(
        unwrap_claude_code_bash_tool("x && eval  kv get K  < /dev/null && pwd -P"),
        Some("kv get K".to_string())
    );
    assert_eq!(
        unwrap_claude_code_bash_tool("x && eval ' < /dev/null && pwd -P"),
        Some("'".to_string())
    );
    let nested = "bash -c true && eval 'x && eval y' < /dev/null && pwd -P >| /t";
    assert_eq!(unwrap_claude_code_bash_tool(nested), Some("x && eval y".to_string()));
    assert!(!is_bare_invocation(Some(nested)));
    assert_eq!(unwrap_claude_code_bash_tool("bash -c kv get KEY"), None);
    assert_eq!(unwrap_claude_code_bash_tool("kv get KEY < /dev/null && pwd -P"), None);
}

#[test]
fn a_command_with_metacharacters_is_not_bare() {
    assert!(is_bare_invocation(Some("bash -c kv get KEY")));
    assert!(is_bare_invocation(Some(WRAPPED)));
    for command in [
        "curl -H $(kv get KEY)",
        "echo `kv get KEY`",
        "kv get KEY | cat",
        "kv get KEY && ls",
        "kv get KEY; ls",
        "kv get KEY > f",
        "cat < f",
        "kv get KEY &",
    ] {
        assert!(!is_bare_invocation(Some(command)));
    }
    assert!(!is_bare_invocation(None));
}

#[test]
fn a_hint_needs_both_signs() {
    let agent = names(&["CLAUDECODE"]);
    assert!(should_nudge(&agent, Some(WRAPPED)));
    assert!(!should_nudge(&agent, None));
    assert!(!should_nudge(&agent, Some("kv get K | cat")));
    assert!(!should_nudge(&names(&["HOME"]), Some(WRAPPED)));
}
