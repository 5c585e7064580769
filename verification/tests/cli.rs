use talenode::analytics::GraphAnalytics;
use talenode::cli::{
    cli_command, info_report, plan_export, plan_import, plan_input, validation_report, ArgsPlan, CliCommand,
    Severity, ValidationWarning, EXPORT_USAGE, MAIN_USAGE,
};
use talenode::model::DialogueGraph;

fn args(v: &[&str]) -> Vec<String> {
    v.iter().map(|s| s.to_string()).collect()
}

fn failed_message(p: ArgsPlan) -> String {
    match p {
        ArgsPlan::Failed(m) => m,
        _ => panic!("expected a failure"),
    }
}

#[test]
fn cli_help_flag() {
    assert!(matches!(plan_export(&args(&["--help"])), ArgsPlan::Help));
}

#[test]
fn cli_list_flag() {
    assert!(matches!(plan_export(&args(&["--list"])), ArgsPlan::List));
}

#[test]
fn cli_missing_args_returns_error() {
    assert!(matches!(plan_export(&args(&["json"])), ArgsPlan::Failed(_)));
}

#[test]
fn cli_unknown_format_returns_error() {
    let m = failed_message(plan_export(&args(&["docx", "test.talenode"])));
    assert!(m.contains("Unknown format"));
}

#[test]
fn import_help_flag() {
    assert!(matches!(plan_import(&args(&["--help"])), ArgsPlan::Help));
}

#[test]
fn import_list_flag() {
    assert!(matches!(plan_import(&args(&["--list"])), ArgsPlan::List));
}

#[test]
fn import_missing_args_returns_error() {
    assert!(matches!(plan_import(&args(&["yarn"])), ArgsPlan::Failed(_)));
}

#[test]
fn import_unknown_format_returns_error() {
    let m = failed_message(plan_import(&args(&["docx", "test.yarn"])));
    assert!(m.contains("Unknown import format"));
}

#[test]
fn info_help_flag() {
    assert!(plan_input(&args(&["--help"])).is_none());
}

#[test]
fn validate_help_flag() {
    assert!(plan_input(&args(&["--help"])).is_none());
}

#[test]
fn help_command() {
    assert_eq!(cli_command("help"), Ok(CliCommand::Help));
}

#[test]
fn mod_help_flag() {
    assert_eq!(cli_command("--help"), Ok(CliCommand::Help));
}

#[test]
fn unknown_command_returns_error() {
    let result = cli_command("foobar");
    assert!(result.is_err());
    assert!(result.unwrap_err().contains("Unknown command"));
}

#[test]
fn unknown_command_message_is_exact() {
    assert_eq!(cli_command("x"), Err(format!("Unknown command: 'x'\n\n{MAIN_USAGE}")));
}

#[test]
fn commands_are_recognised() {
    assert_eq!(cli_command("export"), Ok(CliCommand::Export));
    assert_eq!(cli_command("validate"), Ok(CliCommand::Validate));
    assert_eq!(cli_command("info"), Ok(CliCommand::Info));
    assert_eq!(cli_command("import"), Ok(CliCommand::Import));
    assert_eq!(cli_command("-h"), Ok(CliCommand::Help));
}

#[test]
fn export_plan_reads_output_option() {
    match plan_export(&args(&["xml", "in.talenode", "-o", "out.xml"])) {
        ArgsPlan::Run { format, input, output } => {
            assert_eq!(format, "xml");
            assert_eq!(input, "in.talenode");
            assert_eq!(output.as_deref(), Some("out.xml"));
        }
        _ => panic!("expected a run"),
    }
    match plan_export(&args(&["yarn", "in.talenode", "-o"])) {
        ArgsPlan::Run { output, .. } => assert!(output.is_none()),
        _ => panic!("expected a run"),
    }
}

#[test]
fn export_plan_help_wins_over_everything() {
    assert!(matches!(plan_export(&args(&[])), ArgsPlan::Help));
    assert!(matches!(plan_export(&args(&["docx", "x", "-h"])), ArgsPlan::Help));
    assert!(matches!(plan_export(&args(&["docx", "--list"])), ArgsPlan::List));
}

#[test]
fn export_plan_messages_are_exact() {
    assert_eq!(
        failed_message(plan_export(&args(&["json"]))),
        format!("Expected: talenode export <format> <input.talenode> [-o output]\n\n{EXPORT_USAGE}")
    );
    assert_eq!(
        failed_message(plan_export(&args(&["docx", "a"]))),
        "Unknown format: 'docx'\nAvailable: json, xml, yarn, html, markdown, rtf, screenplay, voice-csv, locale-csv, bark-csv, analytics"
    );
}

#[test]
fn input_plan_takes_first_argument() {
    assert_eq!(plan_input(&args(&["a.talenode", "b"])), Some("a.talenode".to_string()));
    assert!(plan_input(&args(&[])).is_none());
}

#[test]
fn validation_report_without_findings() {
    let (text, failure) = validation_report("p.talenode", &vec![]);
    assert_eq!(text, "No issues found in 'p.talenode'.\n");
    assert!(failure.is_none());
}

#[test]
fn validation_report_counts_errors_and_warnings() {
    let ws = vec![
        ValidationWarning { severity: Severity::Error, node_id: None, message: "No start node".to_string() },
        ValidationWarning {
            severity: Severity::Warning,
            node_id: Some(0x1234abcd_0000_0000_0000_000000000000),
            message: "Dead end".to_string(),
        },
    ];
    let (text, failure) = validation_report("p", &ws);
    assert_eq!(text, "  ERROR: No start node\n  WARN [node 1234abcd]: Dead end\n\n1 error(s), 1 warning(s)\n");
    assert_eq!(failure.as_deref(), Some("Validation failed with 1 error(s)"));
}

#[test]
fn validation_report_warnings_only_succeeds() {
    let ws = vec![ValidationWarning { severity: Severity::Warning, node_id: None, message: "w".to_string() }];
    let (_, failure) = validation_report("p", &ws);
    assert!(failure.is_none());
}

#[test]
fn info_report_lists_stats() {
    let mut g = DialogueGraph::new();
    g.locale.add_locale("fr".to_string());
    let stats = GraphAnalytics {
        total_nodes: 2,
        nodes_by_type: vec![("Start".to_string(), 1), ("End".to_string(), 1)],
        total_connections: 1,
        total_paths: 1,
        longest_path: 2,
        shortest_path: 2,
        max_fan_out: 1,
        avg_choices: None,
        unreachable_count: 0,
        dead_end_count: 0,
    };
    let text = info_report("Test Info", "1.0", &g, &stats);
    assert_eq!(
        text,
        "Project: Test Info\nVersion: 1.0\n\nNodes:       2\n  Start: 1\n  End: 1\nConnections: 1\nCharacters:  0\n\
         Variables:   0\nLocales:     en, fr\n\nPaths:       1\n  longest:   2 nodes\n  shortest:  2 nodes\nMax fan-out: 1\n"
    );
}
