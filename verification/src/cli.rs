//! The command line: which command runs, what its arguments ask for, and the
//! texts it prints. Reading and writing files is left to the caller, which
//! follows the plan computed here.

use vstd::prelude::*;
use crate::analytics::{GraphAnalytics, counts_view, line, push_count_line, push_line, push_newline};
use crate::csv::push_str;
use crate::ident::uuid_prefix8;
use crate::locale_export::uuid8;
use crate::model::{DialogueGraph, opt_view, strings_view};
use crate::text::{decimal, push_decimal, str_eq};

verus! {

pub const MAIN_USAGE: &'static str = "Usage: talenode <command> [options]\n\nCommands:\n  export     Export .talenode to various formats (json, xml, yarn, ...)\n  validate   Check a .talenode file for errors and warnings\n  info       Show project statistics\n  import     Convert external formats to .talenode\n\nRun 'talenode <command> --help' for details on each command.";

pub const EXPORT_USAGE: &'static str = "Usage: talenode export <format> <input.talenode> [-o output]\n       talenode export --list\n       talenode export --help\n\nFormats: json, xml, yarn, html, markdown, rtf, screenplay,\n         voice-csv, locale-csv, bark-csv, analytics\n\nOptions:\n  -o <path>   Write output to file (default: stdout)\n  --list      List available export formats\n  --help      Show this help message";

pub const IMPORT_USAGE: &'static str = "Usage: talenode import <format> <input> [-o output.talenode]\n       talenode import --list\n       talenode import --help\n\nFormats: yarn, ink, articy, chatmapper\n\nConverts external dialogue formats into a .talenode project file.\nOutput defaults to stdout if -o is not specified.";

pub const INFO_USAGE: &'static str = "Usage: talenode info <input.talenode>\n       talenode info --help\n\nShows project statistics: node counts, connections, characters,\nvariables, locales, and path analysis.";

pub const VALIDATE_USAGE: &'static str = "Usage: talenode validate <input.talenode>\n       talenode validate --help\n\nRuns validation checks on a .talenode project file.\nPrints errors and warnings. Exits with code 1 if any errors found.";

/// The export formats, comma separated.
pub const EXPORT_FORMAT_LIST: &'static str = "json, xml, yarn, html, markdown, rtf, screenplay, voice-csv, locale-csv, bark-csv, analytics";

/// The import formats, comma separated.
pub const IMPORT_FORMAT_LIST: &'static str = "yarn, ink, articy, chatmapper";

/// A command of the command line.
#[derive(Clone, Copy, Debug, PartialEq, Eq, Structural)]
pub enum CliCommand {
    Export,
    Validate,
    Info,
    Import,
    Help,
}

/// The command that a command word names, if any.
pub open spec fn command_of(c: Seq<char>) -> Option<CliCommand> {
    if c == "export"@ {
        Some(CliCommand::Export)
    } else if c == "validate"@ {
        Some(CliCommand::Validate)
    } else if c == "info"@ {
        Some(CliCommand::Info)
    } else if c == "import"@ {
        Some(CliCommand::Import)
    } else if c == "--help"@ || c == "-h"@ || c == "help"@ {
        Some(CliCommand::Help)
    } else {
        None
    }
}

pub open spec fn unknown_command_message(c: Seq<char>) -> Seq<char> {
    "Unknown command: '"@ + c + "'\n\n"@ + MAIN_USAGE@
}

/// The command named by `command`, or the message for an unknown one.
pub fn cli_command(command: &str) -> (r: Result<CliCommand, String>)
    ensures
        match command_of(command@) {
            Some(c) => r == Ok::<CliCommand, String>(c),
            None => r matches Err(m) && m@ == unknown_command_message(command@),
        },
{
    if str_eq(command, "export") {
        Ok(CliCommand::Export)
    } else if str_eq(command, "validate") {
        Ok(CliCommand::Validate)
    } else if str_eq(command, "info") {
        Ok(CliCommand::Info)
    } else if str_eq(command, "import") {
        Ok(CliCommand::Import)
    } else if str_eq(command, "--help") || str_eq(command, "-h") || str_eq(command, "help") {
        Ok(CliCommand::Help)
    } else {
        let mut m = String::new();
        push_str(&mut m, "Unknown command: '");
        push_str(&mut m, command);
        push_str(&mut m, "'\n\n");
        push_str(&mut m, MAIN_USAGE);
        Err(m)
    }
}

// ------------------------------------------------------------ arguments

/// What the arguments of `export` or `import` ask for.
pub enum ArgsPlan {
    /// Print the usage text.
    Help,
    /// Print the list of formats.
    List,
    /// Convert `input` in `format`, writing to `output` or to standard output.
    Run { format: String, input: String, output: Option<String> },
    /// Stop with this message.
    Failed(String),
}

pub enum PlanV {
    Help,
    List,
    Run(Seq<char>, Seq<char>, Option<Seq<char>>),
    Failed(Seq<char>),
}

pub open spec fn plan_view(p: ArgsPlan) -> PlanV {
    match p {
        ArgsPlan::Help => PlanV::Help,
        ArgsPlan::List => PlanV::List,
        ArgsPlan::Run { format, input, output } => PlanV::Run(format@, input@, opt_view(output)),
        ArgsPlan::Failed(m) => PlanV::Failed(m@),
    }
}

/// No argument, or one of them is `--help` or `-h`.
pub open spec fn asks_help(args: Seq<Seq<char>>) -> bool {
    args.len() == 0 || exists|i: int| 0 <= i < args.len() && (args[i] == "--help"@ || args[i] == "-h"@)
}

/// One of the arguments is `--list`.
pub open spec fn asks_list(args: Seq<Seq<char>>) -> bool {
    exists|i: int| 0 <= i < args.len() && args[i] == "--list"@
}

/// The argument after the first `-o` that has one after it.
pub open spec fn output_path(args: Seq<Seq<char>>) -> Option<Seq<char>>
    decreases args.len(),
{
    if args.len() < 2 {
        None
    } else if args[0] == "-o"@ {
        Some(args[1])
    } else {
        output_path(args.drop_first())
    }
}

pub open spec fn is_export_format(f: Seq<char>) -> bool {
    f == "json"@ || f == "xml"@ || f == "yarn"@ || f == "html"@ || f == "markdown"@ || f == "rtf"@
        || f == "screenplay"@ || f == "voice-csv"@ || f == "locale-csv"@ || f == "bark-csv"@ || f == "analytics"@
}

pub open spec fn is_import_format(f: Seq<char>) -> bool {
    f == "yarn"@ || f == "ink"@ || f == "articy"@ || f == "chatmapper"@
}

/// What `talenode export` does with `args`: help first, then the list, then
/// a complaint about missing arguments or an unknown format, and otherwise
/// a run of the first argument's format on the second.
pub open spec fn export_plan(args: Seq<Seq<char>>) -> PlanV {
    if asks_help(args) {
        PlanV::Help
    } else if asks_list(args) {
        PlanV::List
    } else if args.len() < 2 {
        PlanV::Failed("Expected: talenode export <format> <input.talenode> [-o output]\n\n"@ + EXPORT_USAGE@)
    } else if !is_export_format(args[0]) {
        PlanV::Failed("Unknown format: '"@ + args[0] + "'\nAvailable: "@ + EXPORT_FORMAT_LIST@)
    } else {
        PlanV::Run(args[0], args[1], output_path(args))
    }
}

/// What `talenode import` does with `args`, in the same order.
pub open spec fn import_plan(args: Seq<Seq<char>>) -> PlanV {
    if asks_help(args) {
        PlanV::Help
    } else if asks_list(args) {
        PlanV::List
    } else if args.len() < 2 {
        PlanV::Failed("Expected: talenode import <format> <input> [-o output.talenode]\n\n"@ + IMPORT_USAGE@)
    } else if !is_import_format(args[0]) {
        PlanV::Failed("Unknown import format: '"@ + args[0] + "'\nAvailable: "@ + IMPORT_FORMAT_LIST@)
    } else {
        PlanV::Run(args[0], args[1], output_path(args))
    }
}

fn any_help(args: &Vec<String>) -> (r: bool)
    ensures
        r == asks_help(strings_view(args@)),
{
    let ghost sv = strings_view(args@);
    if args.len() == 0 {
        return true;
    }
    let mut i: usize = 0;
    while i < args.len()
        invariant
            i <= args.len(),
            sv == strings_view(args@),
            forall|j: int| 0 <= j < i ==> !(sv[j] == "--help"@ || sv[j] == "-h"@),
        decreases args.len() - i,
    {
        assert(sv[i as int] == args@[i as int]@);
        if str_eq(args[i].as_str(), "--help") || str_eq(args[i].as_str(), "-h") {
            return true;
        }
        i = i + 1;
    }
    false
}

fn any_list(args: &Vec<String>) -> (r: bool)
    ensures
        r == asks_list(strings_view(args@)),
{
    let ghost sv = strings_view(args@);
    let mut i: usize = 0;
    while i < args.len()
        invariant
            i <= args.len(),
            sv == strings_view(args@),
            forall|j: int| 0 <= j < i ==> sv[j] != "--list"@,
        decreases args.len() - i,
    {
        assert(sv[i as int] == args@[i as int]@);
        if str_eq(args[i].as_str(), "--list") {
            return true;
        }
        i = i + 1;
    }
    false
}

fn find_output(args: &Vec<String>) -> (r: Option<String>)
    ensures
        opt_view(r) == output_path(strings_view(args@)),
{
    let ghost sv = strings_view(args@);
    let mut i: usize = 0;
    assert(sv.skip(0) =~= sv);
    while i < args.len() && i + 1 < args.len()
        invariant
            i <= args.len(),
            sv == strings_view(args@),
            output_path(sv) == output_path(sv.skip(i as int)),
        decreases args.len() - i,
    {
        assert(sv.skip(i as int)[0] == args@[i as int]@);
        assert(sv.skip(i as int)[1] == args@[i + 1]@);
        if str_eq(args[i].as_str(), "-o") {
            return Some(args[i + 1].clone());
        }
        assert(sv.skip(i as int).drop_first() =~= sv.skip(i + 1));
        i = i + 1;
    }
    None
}

fn export_format_known(f: &str) -> (r: bool)
    ensures
        r == is_export_format(f@),
{
    str_eq(f, "json") || str_eq(f, "xml") || str_eq(f, "yarn") || str_eq(f, "html") || str_eq(f, "markdown")
        || str_eq(f, "rtf") || str_eq(f, "screenplay") || str_eq(f, "voice-csv") || str_eq(f, "locale-csv")
        || str_eq(f, "bark-csv") || str_eq(f, "analytics")
}

fn import_format_known(f: &str) -> (r: bool)
    ensures
        r == is_import_format(f@),
{
    str_eq(f, "yarn") || str_eq(f, "ink") || str_eq(f, "articy") || str_eq(f, "chatmapper")
}

fn joined(a: &str, b: &str) -> (r: String)
    ensures
        r@ == a@ + b@,
{
    let mut m = String::new();
    push_str(&mut m, a);
    push_str(&mut m, b);
    assert(m@ =~= a@ + b@);
    m
}

fn quoted_message(head: &str, f: &str, list: &str) -> (r: String)
    ensures
        r@ == head@ + f@ + "'\nAvailable: "@ + list@,
{
    let mut m = String::new();
    push_str(&mut m, head);
    push_str(&mut m, f);
    push_str(&mut m, "'\nAvailable: ");
    push_str(&mut m, list);
    assert(m@ =~= head@ + f@ + "'\nAvailable: "@ + list@);
    m
}

/// What the arguments of `talenode export` ask for (see `export_plan`).
pub fn plan_export(args: &Vec<String>) -> (r: ArgsPlan)
    ensures
        plan_view(r) == export_plan(strings_view(args@)),
{
    let ghost sv = strings_view(args@);
    if any_help(args) {
        return ArgsPlan::Help;
    }
    if any_list(args) {
        return ArgsPlan::List;
    }
    if args.len() < 2 {
        return ArgsPlan::Failed(joined("Expected: talenode export <format> <input.talenode> [-o output]\n\n", EXPORT_USAGE));
    }
    assert(sv[0] == args@[0]@ && sv[1] == args@[1]@);
    if !export_format_known(args[0].as_str()) {
        return ArgsPlan::Failed(quoted_message("Unknown format: '", args[0].as_str(), EXPORT_FORMAT_LIST));
    }
    ArgsPlan::Run { format: args[0].clone(), input: args[1].clone(), output: find_output(args) }
}

/// What the arguments of `talenode import` ask for (see `import_plan`).
pub fn plan_import(args: &Vec<String>) -> (r: ArgsPlan)
    ensures
        plan_view(r) == import_plan(strings_view(args@)),
{
    let ghost sv = strings_view(args@);
    if any_help(args) {
        return ArgsPlan::Help;
    }
    if any_list(args) {
        return ArgsPlan::List;
    }
    if args.len() < 2 {
        return ArgsPlan::Failed(joined("Expected: talenode import <format> <input> [-o output.talenode]\n\n", IMPORT_USAGE));
    }
    assert(sv[0] == args@[0]@ && sv[1] == args@[1]@);
    if !import_format_known(args[0].as_str()) {
        return ArgsPlan::Failed(quoted_message("Unknown import format: '", args[0].as_str(), IMPORT_FORMAT_LIST));
    }
    ArgsPlan::Run { format: args[0].clone(), input: args[1].clone(), output: find_output(args) }
}

/// The input file of `talenode info` or `talenode validate`: `None` when the
/// arguments ask for help (or are missing), else the first argument.
pub fn plan_input(args: &Vec<String>) -> (r: Option<String>)
    ensures
        match r {
            None => asks_help(strings_view(args@)),
            Some(p) => !asks_help(strings_view(args@)) && p@ == args@[0]@,
        },
{
    if any_help(args) {
        None
    } else {
        Some(args[0].clone())
    }
}

// ------------------------------------------------------------ reports

/// How serious a finding of the validator is.
#[derive(Clone, Copy, Debug, PartialEq, Eq, Structural)]
pub enum Severity {
    Error,
    Warning,
}

/// A finding of the validator, about a node or about the whole graph.
pub struct ValidationWarning {
    pub severity: Severity,
    pub node_id: Option<u128>,
    pub message: String,
}

pub open spec fn count_severity(ws: Seq<ValidationWarning>, s: Severity) -> nat
    decreases ws.len(),
{
    if ws.len() == 0 {
        0
    } else {
        count_severity(ws.drop_last(), s) + if ws.last().severity == s { 1nat } else { 0nat }
    }
}

/// One printed finding: `  ERROR` or `  WARN`, the node's short identifier
/// in brackets when there is one, a colon and the message.
pub open spec fn finding_line(w: ValidationWarning) -> Seq<char> {
    "  "@ + (if w.severity == Severity::Error { "ERROR"@ } else { "WARN"@ })
        + (match w.node_id {
            Some(id) => " [node "@ + uuid_prefix8(id) + "]"@,
            None => seq![],
        })
        + ": "@ + w.message@ + seq!['\n']
}

pub open spec fn finding_lines(ws: Seq<ValidationWarning>) -> Seq<char>
    decreases ws.len(),
{
    if ws.len() == 0 {
        seq![]
    } else {
        finding_lines(ws.drop_last()) + finding_line(ws.last())
    }
}

/// The printed report of `talenode validate` on the file at `path`.
pub open spec fn validation_text(path: Seq<char>, ws: Seq<ValidationWarning>) -> Seq<char> {
    if ws.len() == 0 {
        "No issues found in '"@ + path + "'.\n"@
    } else {
        finding_lines(ws) + seq!['\n'] + decimal(count_severity(ws, Severity::Error)) + " error(s), "@
            + decimal(count_severity(ws, Severity::Warning)) + " warning(s)\n"@
    }
}

/// The outcome of `talenode validate`: a failure when there is an error.
pub open spec fn validation_outcome(ws: Seq<ValidationWarning>) -> Option<Seq<char>> {
    if count_severity(ws, Severity::Error) > 0 {
        Some("Validation failed with "@ + decimal(count_severity(ws, Severity::Error)) + " error(s)"@)
    } else {
        None
    }
}

/// The report of `talenode validate` for the findings `ws` on the file at
/// `path`, and the failure message when there is an error.
pub fn validation_report(path: &str, ws: &Vec<ValidationWarning>) -> (r: (String, Option<String>))
    ensures
        r.0@ == validation_text(path@, ws@),
        opt_view(r.1) == validation_outcome(ws@),
{
    let mut out = String::new();
    let mut errors: usize = 0;
    let mut warnings: usize = 0;
    if ws.len() == 0 {
        push_str(&mut out, "No issues found in '");
        push_str(&mut out, path);
        push_str(&mut out, "'.\n");
        assert(out@ =~= validation_text(path@, ws@));
        return (out, None);
    }
    let mut i: usize = 0;
    assert(ws@.take(0) =~= Seq::<ValidationWarning>::empty());
    while i < ws.len()
        invariant
            i <= ws.len(),
            errors == count_severity(ws@.take(i as int), Severity::Error),
            warnings == count_severity(ws@.take(i as int), Severity::Warning),
            errors + warnings == i,
            out@ == finding_lines(ws@.take(i as int)),
        decreases ws.len() - i,
    {
        let w = &ws[i];
        let ghost before = out@;
        push_str(&mut out, "  ");
        match w.severity {
            Severity::Error => {
                errors = errors + 1;
                push_str(&mut out, "ERROR");
            },
            Severity::Warning => {
                warnings = warnings + 1;
                push_str(&mut out, "WARN");
            },
        }
        match w.node_id {
            Some(id) => {
                push_str(&mut out, " [node ");
                let short = uuid8(id);
                push_str(&mut out, short.as_str());
                push_str(&mut out, "]");
            },
            None => {},
        }
        push_str(&mut out, ": ");
        push_str(&mut out, w.message.as_str());
        push_str(&mut out, "\n");
        proof {
            reveal_strlit("\n");
            assert(ws@.take(i + 1).drop_last() =~= ws@.take(i as int));
            assert(ws@.take(i + 1).last() == *w);
            assert(out@ =~= before + finding_line(*w));
        }
        i = i + 1;
    }
    assert(ws@.take(ws.len() as int) =~= ws@);
    push_str(&mut out, "\n");
    push_decimal(&mut out, errors as u64);
    push_str(&mut out, " error(s), ");
    push_decimal(&mut out, warnings as u64);
    push_str(&mut out, " warning(s)\n");
    proof {
        reveal_strlit("\n");
    }
    assert(out@ =~= validation_text(path@, ws@));
    if errors > 0 {
        let mut m = String::new();
        push_str(&mut m, "Validation failed with ");
        push_decimal(&mut m, errors as u64);
        push_str(&mut m, " error(s)");
        assert(m@ =~= "Validation failed with "@ + decimal(errors as nat) + " error(s)"@);
        (out, Some(m))
    } else {
        (out, None)
    }
}

/// Locales written one after another, separated by `, `.
pub open spec fn comma_list(s: Seq<Seq<char>>) -> Seq<char>
    decreases s.len(),
{
    if s.len() == 0 {
        seq![]
    } else if s.len() == 1 {
        s[0]
    } else {
        comma_list(s.drop_last()) + ", "@ + s.last()
    }
}

/// `  name: count` lines, one per type, in the order given.
pub open spec fn type_lines(s: Seq<(Seq<char>, nat)>) -> Seq<char>
    decreases s.len(),
{
    if s.len() == 0 {
        seq![]
    } else {
        type_lines(s.drop_last()) + line("  "@ + s.last().0 + ": "@, decimal(s.last().1))
    }
}

/// The statistics part of the report of `talenode info`.
pub open spec fn info_stats(stats: GraphAnalytics) -> Seq<char> {
    line("Paths:       "@, decimal(stats.total_paths as nat))
        + (if stats.total_paths > 0 {
            line("  longest:   "@, decimal(stats.longest_path as nat) + " nodes"@)
                + line("  shortest:  "@, decimal(stats.shortest_path as nat) + " nodes"@)
        } else {
            seq![]
        })
        + line("Max fan-out: "@, decimal(stats.max_fan_out as nat))
        + (match stats.avg_choices {
            Some(t) => line("Avg choices: "@, t@),
            None => seq![],
        })
        + (if stats.unreachable_count > 0 { line("Unreachable: "@, decimal(stats.unreachable_count as nat)) } else { seq![] })
        + (if stats.dead_end_count > 0 { line("Dead ends:   "@, decimal(stats.dead_end_count as nat)) } else { seq![] })
}

/// The report of `talenode info` on project `name` of file version `version`.
pub open spec fn info_text(name: Seq<char>, version: Seq<char>, g: DialogueGraph, stats: GraphAnalytics) -> Seq<char> {
    line("Project: "@, name) + line("Version: "@, version) + seq!['\n']
        + line("Nodes:       "@, decimal(stats.total_nodes as nat))
        + type_lines(counts_view(stats.nodes_by_type@))
        + line("Connections: "@, decimal(stats.total_connections as nat))
        + line("Characters:  "@, decimal(g.characters.len() as nat))
        + line("Variables:   "@, decimal(g.variables.len() as nat))
        + (if g.locale.extra_locales.len() > 0 {
            line("Locales:     "@, comma_list(seq![g.locale.default_locale@] + strings_view(g.locale.extra_locales@)))
        } else {
            seq![]
        })
        + seq!['\n']
        + info_stats(stats)
}

fn push_type_lines(out: &mut String, v: &Vec<(String, usize)>)
    ensures
        final(out)@ == old(out)@ + type_lines(counts_view(v@)),
{
    let ghost cv = counts_view(v@);
    let ghost start = old(out)@;
    let mut i: usize = 0;
    assert(cv.take(0) =~= Seq::<(Seq<char>, nat)>::empty());
    assert(out@ =~= start + type_lines(cv.take(0)));
    while i < v.len()
        invariant
            i <= v.len(),
            cv == counts_view(v@),
            out@ == start + type_lines(cv.take(i as int)),
        decreases v.len() - i,
    {
        let ghost before = out@;
        push_str(out, "  ");
        push_str(out, v[i].0.as_str());
        push_count_line(out, ": ", v[i].1);
        proof {
            reveal_strlit("  ");
            reveal_strlit(": ");
            assert(cv[i as int] == (v@[i as int].0@, v@[i as int].1 as nat));
            assert(cv.take(i + 1).drop_last() =~= cv.take(i as int));
            assert(out@ =~= before + line("  "@ + cv[i as int].0 + ": "@, decimal(cv[i as int].1)));
        }
        i = i + 1;
    }
    assert(cv.take(v.len() as int) =~= cv);
}

fn push_locales(out: &mut String, g: &DialogueGraph)
    ensures
        final(out)@ == old(out)@ + comma_list(seq![g.locale.default_locale@] + strings_view(g.locale.extra_locales@)),
{
    let ghost all = seq![g.locale.default_locale@] + strings_view(g.locale.extra_locales@);
    push_str(out, g.locale.default_locale.as_str());
    assert(all.take(1) =~= seq![g.locale.default_locale@]);
    let ghost start = old(out)@;
    let mut i: usize = 0;
    while i < g.locale.extra_locales.len()
        invariant
            i <= g.locale.extra_locales.len(),
            all == seq![g.locale.default_locale@] + strings_view(g.locale.extra_locales@),
            all.len() == g.locale.extra_locales.len() + 1,
            out@ == start + comma_list(all.take(i + 1)),
        decreases g.locale.extra_locales.len() - i,
    {
        let ghost before = out@;
        push_str(out, ", ");
        push_str(out, g.locale.extra_locales[i].as_str());
        proof {
            assert(all[i + 1] == g.locale.extra_locales@[i as int]@);
            assert(all.take(i + 2).drop_last() =~= all.take(i + 1));
            assert(out@ =~= before + ", "@ + all[i + 1]);
        }
        i = i + 1;
    }
    assert(all.take(all.len() as int) =~= all);
}

fn push_info_stats(out: &mut String, stats: &GraphAnalytics)
    ensures
        final(out)@ == old(out)@ + info_stats(*stats),
{
    push_count_line(out, "Paths:       ", stats.total_paths);
    let ghost m0 = out@;
    if stats.total_paths > 0 {
        push_str(out, "  longest:   ");
        push_decimal(out, stats.longest_path as u64);
        push_str(out, " nodes");
        push_newline(out);
        push_str(out, "  shortest:  ");
        push_decimal(out, stats.shortest_path as u64);
        push_str(out, " nodes");
        push_newline(out);
        assert(out@ =~= m0 + (line("  longest:   "@, decimal(stats.longest_path as nat) + " nodes"@)
            + line("  shortest:  "@, decimal(stats.shortest_path as nat) + " nodes"@)));
    }
    push_count_line(out, "Max fan-out: ", stats.max_fan_out);
    match &stats.avg_choices {
        Some(t) => push_line(out, "Avg choices: ", t.as_str()),
        None => {},
    }
    let ghost m1 = out@;
    if stats.unreachable_count > 0 {
        push_count_line(out, "Unreachable: ", stats.unreachable_count);
    }
    let ghost m2 = out@;
    if stats.dead_end_count > 0 {
        push_count_line(out, "Dead ends:   ", stats.dead_end_count);
    }
    assert(out@ =~= old(out)@ + info_stats(*stats));
}

/// The report of `talenode info` (see `info_text`); the node counts per type
/// come in the order of `stats.nodes_by_type`.
pub fn info_report(name: &str, version: &str, graph: &DialogueGraph, stats: &GraphAnalytics) -> (r: String)
    ensures
        r@ == info_text(name@, version@, *graph, *stats),
{
    let mut out = String::new();
    push_line(&mut out, "Project: ", name);
    push_line(&mut out, "Version: ", version);
    push_newline(&mut out);
    push_count_line(&mut out, "Nodes:       ", stats.total_nodes);
    push_type_lines(&mut out, &stats.nodes_by_type);
    push_count_line(&mut out, "Connections: ", stats.total_connections);
    push_count_line(&mut out, "Characters:  ", graph.characters.len());
    push_count_line(&mut out, "Variables:   ", graph.variables.len());
    let ghost m = out@;
    if graph.locale.has_extra_locales() {
        push_str(&mut out, "Locales:     ");
        push_locales(&mut out, graph);
        push_newline(&mut out);
        assert(out@ =~= m + line("Locales:     "@,
            comma_list(seq![graph.locale.default_locale@] + strings_view(graph.locale.extra_locales@))));
    }
    push_newline(&mut out);
    push_info_stats(&mut out, stats);
    assert(out@ =~= info_text(name@, version@, *graph, *stats));
    out
}

} // verus!
