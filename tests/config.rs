use aws_lambda_runtime_proxy::{
    parse_port, port_to_string, proxy_address_string, HandlerCommand, Proxy, ProxyError,
    StdioMode, DEFAULT_PORT, PROXY_PORT_VAR, RUNTIME_API_VAR,
};

fn strings(items: &[&str]) -> Vec<String> {
    items.iter().map(|s| s.to_string()).collect()
}

#[test]
fn parse_port_reads_plain_decimal() {
    assert_eq!(parse_port("3000"), Some(3000));
    assert_eq!(parse_port("0"), Some(0));
    assert_eq!(parse_port("65535"), Some(65535));
    assert_eq!(parse_port("007"), Some(7));
}

#[test]
fn parse_port_accepts_leading_plus() {
    assert_eq!(parse_port("+80"), Some(80));
    assert_eq!(parse_port("+"), None);
    assert_eq!(parse_port("++80"), None);
}

#[test]
fn parse_port_rejects_other_text() {
    assert_eq!(parse_port(""), None);
    assert_eq!(parse_port("-1"), None);
    assert_eq!(parse_port(" 80"), None);
    assert_eq!(parse_port("80 "), None);
    assert_eq!(parse_port("8a"), None);
    assert_eq!(parse_port("\u{663}"), None);
}

#[test]
fn parse_port_rejects_values_past_sixteen_bits() {
    assert_eq!(parse_port("65536"), None);
    assert_eq!(parse_port("99999999999999999999"), None);
}

#[test]
fn parse_port_agrees_with_std() {
    for text in ["1", "+1", "443", "65535", "65536", "", "-", "x1", "00000000000000008080"] {
        assert_eq!(parse_port(text), text.parse::<u16>().ok(), "{text:?}");
    }
}

#[test]
fn port_to_string_writes_shortest_decimal() {
    assert_eq!(port_to_string(0), "0");
    assert_eq!(port_to_string(7), "7");
    assert_eq!(port_to_string(4000), "4000");
    assert_eq!(port_to_string(65535), "65535");
}

#[test]
fn port_text_round_trips() {
    for port in [0u16, 9, 10, 99, 100, 3000, 8080, 65535] {
        assert_eq!(parse_port(&port_to_string(port)), Some(port));
    }
}

#[test]
fn proxy_address_is_loopback_with_port() {
    assert_eq!(proxy_address_string(4000), "127.0.0.1:4000");
    assert_eq!(proxy_address_string(3000), "127.0.0.1:3000");
    assert_eq!(proxy_address_string(1), "127.0.0.1:1");
}

#[test]
fn variable_names_and_default_port() {
    assert_eq!(RUNTIME_API_VAR, "AWS_LAMBDA_RUNTIME_API");
    assert_eq!(PROXY_PORT_VAR, "AWS_LAMBDA_RUNTIME_PROXY_PORT");
    assert_eq!(DEFAULT_PORT, 3000);
}

#[test]
fn command_new_runs_program_alone() {
    let cmd = HandlerCommand::new("node".to_string());
    assert_eq!(cmd.program, "node");
    assert!(cmd.args.is_empty());
    assert!(cmd.envs.is_empty());
    assert_eq!(cmd.stdin, StdioMode::Inherit);
    assert_eq!(cmd.stdout, StdioMode::Inherit);
    assert_eq!(cmd.stderr, StdioMode::Inherit);
}

#[test]
fn command_builders_change_one_part() {
    let mut cmd = HandlerCommand::new("node".to_string());
    cmd.arg("--help".to_string());
    cmd.arg("index.js".to_string());
    cmd.set_stdout(StdioMode::Piped);
    cmd.set_stderr(StdioMode::Null);
    cmd.set_stdin(StdioMode::Null);
    assert_eq!(cmd.args, strings(&["--help", "index.js"]));
    assert_eq!(cmd.stdout, StdioMode::Piped);
    assert_eq!(cmd.stderr, StdioMode::Null);
    assert_eq!(cmd.stdin, StdioMode::Null);
    assert_eq!(cmd.program, "node");
}

#[test]
fn command_env_later_value_wins() {
    let mut cmd = HandlerCommand::new("node".to_string());
    cmd.env("KEY".to_string(), "one".to_string());
    cmd.env("OTHER".to_string(), "x".to_string());
    cmd.env("KEY".to_string(), "two".to_string());
    assert_eq!(cmd.env_value(&"KEY".to_string()), Some(&"two".to_string()));
    assert_eq!(cmd.env_value(&"OTHER".to_string()), Some(&"x".to_string()));
    assert_eq!(cmd.env_value(&"MISSING".to_string()), None);
    assert_eq!(cmd.envs.len(), 3);
}

#[test]
fn default_command_takes_program_and_arguments_from_argv() {
    let cmd = Proxy::default_command(&strings(&["proxy", "node", "--help"])).unwrap();
    assert_eq!(cmd.program, "node");
    assert_eq!(cmd.args, strings(&["--help"]));
    assert!(cmd.envs.is_empty());
    assert_eq!(cmd.stdout, StdioMode::Inherit);
}

#[test]
fn default_command_needs_a_program() {
    assert_eq!(Proxy::default_command(&strings(&["proxy"])), None);
    assert_eq!(Proxy::default_command(&Vec::new()), None);
    let cmd = Proxy::default_command(&strings(&["proxy", "bootstrap"])).unwrap();
    assert_eq!(cmd.program, "bootstrap");
    assert!(cmd.args.is_empty());
}

#[test]
fn proxy_default_leaves_everything_unset() {
    let proxy = Proxy::default();
    assert_eq!(proxy.port, None);
    assert_eq!(proxy.command, None);
}

#[test]
fn proxy_builders_set_port_and_command() {
    let proxy = Proxy::default().port(4000).command(HandlerCommand::new("echo".to_string()));
    assert_eq!(proxy.port, Some(4000));
    assert_eq!(proxy.command.unwrap().program, "echo");
}

#[test]
fn resolve_port_prefers_configuration_then_environment_then_default() {
    let configured = Proxy::default().port(4000);
    assert_eq!(configured.resolve_port(Some("8080")), 4000);
    assert_eq!(configured.resolve_port(None), 4000);
    let unset = Proxy::default();
    assert_eq!(unset.resolve_port(Some("8080")), 8080);
    assert_eq!(unset.resolve_port(Some("not a port")), 3000);
    assert_eq!(unset.resolve_port(Some("70000")), 3000);
    assert_eq!(unset.resolve_port(None), 3000);
}

#[test]
fn plan_without_any_command_fails() {
    let result = Proxy::default().plan(None, &strings(&["proxy"]));
    assert_eq!(result, Err(ProxyError::MissingCommand));
}

#[test]
fn plan_points_configured_command_at_proxy() {
    let mut cmd = HandlerCommand::new("echo".to_string());
    cmd.arg("hi".to_string());
    cmd.env("KEY".to_string(), "VALUE".to_string());
    cmd.set_stdout(StdioMode::Piped);
    let plan = Proxy::default()
        .port(4000)
        .command(cmd)
        .plan(Some("9999"), &strings(&["proxy", "ignored"]))
        .unwrap();
    assert_eq!(plan.port, 4000);
    assert_eq!(plan.command.program, "echo");
    assert_eq!(plan.command.args, strings(&["hi"]));
    assert_eq!(plan.command.stdout, StdioMode::Piped);
    assert_eq!(plan.command.env_value(&"KEY".to_string()), Some(&"VALUE".to_string()));
    assert_eq!(
        plan.command.env_value(&RUNTIME_API_VAR.to_string()),
        Some(&"127.0.0.1:4000".to_string())
    );
}

#[test]
fn plan_overrides_an_address_the_command_already_had() {
    let mut cmd = HandlerCommand::new("echo".to_string());
    cmd.env(RUNTIME_API_VAR.to_string(), "10.0.0.1:9001".to_string());
    let plan = Proxy::default().command(cmd).plan(None, &Vec::new()).unwrap();
    assert_eq!(plan.port, 3000);
    assert_eq!(
        plan.command.env_value(&RUNTIME_API_VAR.to_string()),
        Some(&"127.0.0.1:3000".to_string())
    );
}

#[test]
fn plan_falls_back_to_argv_and_environment_port() {
    let plan = Proxy::default()
        .plan(Some("8080"), &strings(&["proxy", "node", "index.js"]))
        .unwrap();
    assert_eq!(plan.port, 8080);
    assert_eq!(plan.command.program, "node");
    assert_eq!(plan.command.args, strings(&["index.js"]));
    assert_eq!(
        plan.command.envs,
        vec![(RUNTIME_API_VAR.to_string(), "127.0.0.1:8080".to_string())]
    );
}
