use talenode::analytics::{export_analytics_csv, export_analytics_text, GraphAnalytics};

fn stats(total: usize, types: Vec<(&str, usize)>) -> GraphAnalytics {
    GraphAnalytics {
        total_nodes: total,
        nodes_by_type: types.into_iter().map(|(k, v)| (k.to_string(), v)).collect(),
        total_connections: 0,
        total_paths: 0,
        longest_path: 0,
        shortest_path: 0,
        max_fan_out: 0,
        avg_choices: None,
        unreachable_count: 0,
        dead_end_count: 0,
    }
}

// Statistics of a graph holding one start node and one unconnected dialogue node.
fn start_and_dialogue() -> GraphAnalytics {
    let mut s = stats(2, vec![("Start", 1), ("Dialogue", 1)]);
    s.unreachable_count = 1;
    s.dead_end_count = 1;
    s
}

#[test]
fn csv_contains_expected_rows() {
    let stats = start_and_dialogue();
    let csv = export_analytics_csv(&stats, "Test");

    assert!(csv.starts_with("Metric,Value\n"));
    assert!(csv.contains("Project,Test\n"));
    assert!(csv.contains("Total Nodes,2\n"));
    assert!(csv.contains("Start,1\n"));
    assert!(csv.contains("Dialogue,1\n"));
}

#[test]
fn text_contains_expected_sections() {
    let stats = stats(1, vec![("Start", 1)]);
    let text = export_analytics_text(&stats, "MyProject");

    assert!(text.contains("=== TaleNode Analytics Report ==="));
    assert!(text.contains("Project: MyProject"));
    assert!(text.contains("--- Node Summary ---"));
    assert!(text.contains("--- Path Analysis ---"));
    assert!(text.contains("--- Branching ---"));
    assert!(text.contains("--- Connectivity ---"));
}

#[test]
fn empty_graph_produces_valid_output() {
    let stats = stats(0, vec![]);

    let csv = export_analytics_csv(&stats, "Empty");
    assert!(csv.contains("Total Nodes,0"));

    let text = export_analytics_text(&stats, "Empty");
    assert!(text.contains("Total nodes: 0"));
}

#[test]
fn analytics_csv_exact_rows_in_name_order() {
    let mut s = stats(7, vec![("Start", 1), ("Dialogue", 4), ("End", 2)]);
    s.total_connections = 6;
    s.total_paths = 3;
    s.longest_path = 5;
    s.shortest_path = 2;
    s.max_fan_out = 3;
    s.avg_choices = Some("2.5".to_string());
    s.unreachable_count = 1;
    s.dead_end_count = 0;
    let csv = export_analytics_csv(&s, "Quest");
    assert_eq!(
        csv,
        "Metric,Value\nProject,Quest\nTotal Nodes,7\nDialogue,4\nEnd,2\nStart,1\n\
         Total Connections,6\nTotal Paths,3\nLongest Path,5\nShortest Path,2\nMax Fan-out,3\n\
         Avg Choices per Choice Node,2.5\nUnreachable Nodes,1\nDead Ends,0\n"
    );
}

#[test]
fn analytics_csv_omits_path_lengths_without_paths() {
    let s = stats(1, vec![("Start", 1)]);
    let csv = export_analytics_csv(&s, "P");
    assert!(csv.contains("Total Paths,0\n"));
    assert!(!csv.contains("Longest Path"));
    assert!(!csv.contains("Shortest Path"));
    assert!(!csv.contains("Avg Choices"));
}

#[test]
fn analytics_text_exact_report() {
    let mut s = stats(3, vec![("Start", 1), ("Choice", 2)]);
    s.total_connections = 2;
    s.total_paths = 1;
    s.longest_path = 2;
    s.shortest_path = 2;
    s.max_fan_out = 2;
    s.avg_choices = Some("2.0".to_string());
    let text = export_analytics_text(&s, "Demo");
    assert_eq!(
        text,
        "=== TaleNode Analytics Report ===\nProject: Demo\n\n--- Node Summary ---\nTotal nodes: 3\n  Choice: 2, Start: 1\n\
         Total connections: 2\n\n--- Path Analysis ---\nTotal paths (Start->End): 1\nLongest: 2 steps\nShortest: 2 steps\n\n\
         --- Branching ---\nMax fan-out: 2\nAvg choices per Choice node: 2.0\n\n--- Connectivity ---\nUnreachable nodes: 0\nDead ends: 0\n"
    );
}

#[test]
fn analytics_text_without_types_has_no_count_line() {
    let s = stats(0, vec![]);
    let text = export_analytics_text(&s, "E");
    assert!(text.contains("Total nodes: 0\nTotal connections: 0\n"));
    assert!(!text.contains("Longest"));
}
