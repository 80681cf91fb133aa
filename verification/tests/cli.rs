use dravr_tronc::server::cli::{McpArgs, ServerArgs};

fn words(args: &[&str]) -> Vec<String> {
    args.iter().map(|word| (*word).to_owned()).collect()
}

#[test]
fn server_args_defaults() {
    let args = ServerArgs::try_parse_from(&words(&[])).expect("defaults");
    assert_eq!(args.transport, "http");
    assert_eq!(args.host, "127.0.0.1");
    assert_eq!(args.port, 3000);
}

#[test]
fn server_args_override() {
    let args = ServerArgs::try_parse_from(&words(&[
        "test",
        "--transport",
        "stdio",
        "--host",
        "0.0.0.0",
        "--port",
        "8080",
    ]))
    .expect("accepted");
    assert_eq!(args.transport, "stdio");
    assert_eq!(args.host, "0.0.0.0");
    assert_eq!(args.port, 8080);
}

#[test]
fn mcp_args_defaults_to_stdio() {
    let args = McpArgs::try_parse_from(&words(&[])).expect("defaults");
    assert_eq!(args.transport, "stdio");
    assert_eq!(args.port, 3001);
}

#[test]
fn mcp_args_override() {
    let args =
        McpArgs::try_parse_from(&words(&["test", "--transport", "http", "--port", "4000"]))
            .expect("accepted");
    assert_eq!(args.transport, "http");
    assert_eq!(args.port, 4000);
}

#[test]
fn server_args_clone() {
    let args = ServerArgs::try_parse_from(&words(&[])).expect("defaults");
    let cloned = args.dup();
    assert_eq!(args.transport, cloned.transport);
    assert_eq!(args.host, cloned.host);
    assert_eq!(args.port, cloned.port);
}

#[test]
fn server_args_debug() {
    let args = ServerArgs::try_parse_from(&words(&[])).expect("defaults");
    let debug = format!("{args:?}");
    assert!(debug.contains("http"));
    assert!(debug.contains("127.0.0.1"));
}

#[test]
fn a_port_that_is_none_is_refused() {
    assert!(ServerArgs::try_parse_from(&words(&["test", "--port", "65536"])).is_err());
    assert!(ServerArgs::try_parse_from(&words(&["test", "--port", "x"])).is_err());
    assert!(ServerArgs::try_parse_from(&words(&["test", "--unknown"])).is_err());
    let args = ServerArgs::try_parse_from(&words(&["test", "--port=65535"])).expect("accepted");
    assert_eq!(args.port, 65_535);
}

#[test]
fn help_says_what_each_option_is_for() {
    let help = ServerArgs::try_parse_from(&words(&["test", "-h"])).expect_err("help");
    assert!(
        help.starts_with("Common server CLI arguments shared across all dravr-xxx server binaries"),
        "{help}"
    );
    for part in [
        "Usage: test [OPTIONS]",
        "--transport <TRANSPORT>",
        "Transport mode: \"stdio\" for stdin/stdout or \"http\" for HTTP+SSE [default: http]",
        "--host <HOST>",
        "HTTP listen host (only used with --transport http) [default: 127.0.0.1]",
        "--port <PORT>",
        "HTTP listen port (only used with --transport http) [default: 3000]",
    ] {
        assert!(help.contains(part), "{part} is not in {help}");
    }
    let help = McpArgs::try_parse_from(&words(&["test", "--help"])).expect_err("help");
    assert!(help.contains("suitable for standalone MCP binary entry points."), "{help}");
    assert!(help.contains("[default: stdio]"), "{help}");
    let refusal = McpArgs::try_parse_from(&words(&["test", "--port", "x"])).expect_err("no port");
    assert!(refusal.contains("invalid value 'x' for '--port <PORT>'"), "{refusal}");
}
