//! Shell orchestration: the row buffer, the line source, and the
//! reload/save control signals.

use kifuwarabe_shell::diagram::{Controller, Diagram, ResponseOption};
use kifuwarabe_shell::diagram_json::{DiagramJson, NodeJson};
use kifuwarabe_shell::shell::{GraphStore, LineSource, RequestStruct, ResponseStruct, Shell};

enum Handler {
    Log(&'static str),
    Quit,
    Reload(&'static str),
    Save(&'static str),
}

impl Controller<Vec<String>> for Handler {
    fn on_token(&self, t: &mut Vec<String>, _req: &RequestStruct, res: &mut ResponseStruct) {
        match self {
            Handler::Log(name) => t.push(name.to_string()),
            Handler::Quit => res.set_option(ResponseOption::Quits),
            Handler::Reload(path) => res.set_option(ResponseOption::Reloads(path.to_string())),
            Handler::Save(path) => res.set_option(ResponseOption::Saves(path.to_string())),
        }
    }
}

fn exits(pairs: &[(&str, &[&str])]) -> Vec<(String, Vec<String>)> {
    let mut v = Vec::new();
    for (label, nodes) in pairs {
        let mut targets = Vec::new();
        for n in *nodes {
            targets.push(n.to_string());
        }
        v.push((label.to_string(), targets));
    }
    v
}

/// Hands out scripted lines, then "quit" forever.
struct ScriptSource {
    lines: Vec<String>,
}

impl LineSource<Vec<String>> for ScriptSource {
    fn read_line(&mut self, _t: &mut Vec<String>) -> String {
        if self.lines.is_empty() {
            "quit".to_string()
        } else {
            self.lines.remove(0)
        }
    }
}

/// Answers a reload with a fixed one-node graph, and records every save.
struct FakeStore {
    serve_model: bool,
    loads: Vec<String>,
    saved: Vec<(String, String, usize)>,
}

impl GraphStore for FakeStore {
    fn load(&mut self, path: &str) -> Option<DiagramJson> {
        self.loads.push(path.to_string());
        if !self.serve_model {
            return None;
        }
        let mut m = DiagramJson::new();
        m.set_entry_point("loaded_home".to_string());
        let mut nj = NodeJson::new();
        nj.set_label("loaded_home".to_string());
        nj.insert_exit("#next", vec!["loaded_home".to_string()]);
        m.push_node(nj);
        Some(m)
    }

    fn save(&mut self, path: &str, model: &DiagramJson) -> bool {
        self.saved
            .push((path.to_string(), model.get_entry_point(), model.get_nodes().len()));
        true
    }
}

fn command_diagram() -> Diagram<Handler> {
    let mut d: Diagram<Handler> = Diagram::new();
    d.set_entry_point("home".to_string());
    d.insert_node_single(
        "home",
        "".to_string(),
        exits(&[("#next", &["ab_node", "quit_node", "reload_node", "save_node"])]),
    );
    d.insert_node(
        "ab_node",
        "ab".to_string(),
        "log_ab".to_string(),
        exits(&[("#next", &["ab_node", "quit_node"])]),
    );
    d.insert_node("quit_node", "quit".to_string(), "do_quit".to_string(), exits(&[]));
    d.insert_node(
        "reload_node",
        "reload".to_string(),
        "do_reload".to_string(),
        exits(&[]),
    );
    d.insert_node("save_node", "save".to_string(), "do_save".to_string(), exits(&[]));
    d.insert_fn("log_ab", Handler::Log("ab"));
    d.insert_fn("do_quit", Handler::Quit);
    d.insert_fn("do_reload", Handler::Reload("graph.json"));
    d.insert_fn("do_save", Handler::Save("out.json"));
    d
}

#[test]
fn push_and_pop_rows_are_fifo() {
    let mut shell: Shell<ScriptSource> = Shell::new(ScriptSource { lines: Vec::new() });
    assert!(shell.is_empty());
    shell.push_row("one");
    shell.push_row("two");
    assert!(!shell.is_empty());
    assert_eq!(shell.pop_row(), "one");
    assert_eq!(shell.pop_row(), "two");
    assert!(shell.is_empty());
}

#[test]
fn shell_exposes_the_player() {
    let mut shell: Shell<ScriptSource> = Shell::new(ScriptSource { lines: Vec::new() });
    assert!(shell.is_out());
    assert_eq!(shell.get_current(), "");
    shell.get_mut_diagram_player().set_current("somewhere");
    assert!(!shell.is_out());
    assert_eq!(shell.get_current(), "somewhere");
    assert_eq!(shell.get_diagram_player().get_current(), "somewhere");
}

#[test]
fn execute_line_dispatches_and_parks() {
    let mut shell: Shell<ScriptSource> = Shell::new(ScriptSource { lines: Vec::new() });
    let mut d = command_diagram();
    let mut log: Vec<String> = Vec::new();
    let mut store = FakeStore { serve_model: false, loads: Vec::new(), saved: Vec::new() };
    shell.execute_line(&mut d, &mut log, &mut store, "ab").unwrap();
    assert_eq!(log, vec!["ab".to_string()]);
    assert_eq!(shell.get_current(), "ab_node");
}

#[test]
fn reload_replaces_nodes_and_resets_the_player() {
    let mut shell: Shell<ScriptSource> = Shell::new(ScriptSource { lines: Vec::new() });
    let mut d = command_diagram();
    let mut log: Vec<String> = Vec::new();
    let mut store = FakeStore { serve_model: true, loads: Vec::new(), saved: Vec::new() };
    shell.execute_line(&mut d, &mut log, &mut store, "reload").unwrap();
    assert_eq!(store.loads, vec!["graph.json".to_string()]);
    // the node table and entry point were replaced whole
    assert_eq!(d.get_entry_point(), "loaded_home");
    assert!(d.contains_node("loaded_home"));
    assert!(!d.contains_node("ab_node"));
    // registered controllers survive the reload
    assert!(d.contains_fn("do_reload"));
    // the cursor is parked out of the diagram, since its node may be gone
    assert!(shell.is_out());
}

#[test]
fn failed_reload_changes_nothing() {
    let mut shell: Shell<ScriptSource> = Shell::new(ScriptSource { lines: Vec::new() });
    let mut d = command_diagram();
    let mut log: Vec<String> = Vec::new();
    let mut store = FakeStore { serve_model: false, loads: Vec::new(), saved: Vec::new() };
    shell.execute_line(&mut d, &mut log, &mut store, "reload").unwrap();
    assert_eq!(store.loads, vec!["graph.json".to_string()]);
    assert_eq!(d.get_entry_point(), "home");
    assert!(d.contains_node("ab_node"));
    // the cursor stays at the node that raised the reload
    assert_eq!(shell.get_current(), "reload_node");
}

#[test]
fn save_hands_the_model_to_the_store() {
    let mut shell: Shell<ScriptSource> = Shell::new(ScriptSource { lines: Vec::new() });
    let mut d = command_diagram();
    let mut log: Vec<String> = Vec::new();
    let mut store = FakeStore { serve_model: false, loads: Vec::new(), saved: Vec::new() };
    shell.execute_line(&mut d, &mut log, &mut store, "save").unwrap();
    assert_eq!(store.saved.len(), 1);
    let (path, entry, node_count) = &store.saved[0];
    assert_eq!(path, "out.json");
    assert_eq!(entry, "home");
    assert_eq!(*node_count, 5);
    // saving leaves the diagram as it was
    assert!(d.contains_node("ab_node"));
}

#[test]
fn execute_line_ignores_quits() {
    let mut shell: Shell<ScriptSource> = Shell::new(ScriptSource { lines: Vec::new() });
    let mut d = command_diagram();
    let mut log: Vec<String> = Vec::new();
    let mut store = FakeStore { serve_model: false, loads: Vec::new(), saved: Vec::new() };
    shell.execute_line(&mut d, &mut log, &mut store, "quit").unwrap();
    assert_eq!(shell.get_current(), "quit_node");
}

#[test]
fn run_step_consumes_buffer_before_the_source() {
    let mut shell: Shell<ScriptSource> =
        Shell::new(ScriptSource { lines: vec!["ab".to_string()] });
    let mut d = command_diagram();
    let mut log: Vec<String> = Vec::new();
    let mut store = FakeStore { serve_model: false, loads: Vec::new(), saved: Vec::new() };
    shell.push_row("ab");
    // first step: the buffered row
    assert_eq!(shell.run_step(&mut d, &mut log, &mut store), Ok(false));
    assert_eq!(log, vec!["ab".to_string()]);
    // second step: the scripted source line
    assert_eq!(shell.run_step(&mut d, &mut log, &mut store), Ok(false));
    assert_eq!(log, vec!["ab".to_string(), "ab".to_string()]);
    // third step: the source falls back to "quit"
    assert_eq!(shell.run_step(&mut d, &mut log, &mut store), Ok(true));
}

#[test]
fn set_reader_swaps_the_source() {
    let mut shell: Shell<ScriptSource> = Shell::new(ScriptSource { lines: Vec::new() });
    let mut d = command_diagram();
    let mut log: Vec<String> = Vec::new();
    let mut store = FakeStore { serve_model: false, loads: Vec::new(), saved: Vec::new() };
    shell.set_reader(ScriptSource { lines: vec!["ab".to_string()] });
    assert_eq!(shell.run_step(&mut d, &mut log, &mut store), Ok(false));
    assert_eq!(log, vec!["ab".to_string()]);
}

#[test]
fn request_exposes_line_and_groups() {
    let req = RequestStruct::new("ab cde".to_string());
    assert_eq!(req.get_line(), "ab cde");
    assert_eq!(req.get_line_len(), 6);
    assert_eq!(req.get_caret(), 0);
    assert!(req.get_groups().is_empty());
}

#[test]
fn response_accessors_and_reset() {
    let mut res = ResponseStruct::new();
    assert!(matches!(res.get_option(), ResponseOption::Nothing));
    assert!(!res.is_done_line());
    assert_eq!(res.get_exit_label(), "");
    res.set_caret(7);
    res.set_done_line(true);
    res.set_option(ResponseOption::Saves("f".to_string()));
    res.forward("alt");
    assert_eq!(res.get_caret(), 7);
    assert!(res.is_done_line());
    assert!(matches!(res.get_option(), ResponseOption::Saves(p) if p == "f"));
    assert_eq!(res.get_exit_label(), "alt");
    res.reset();
    assert_eq!(res.get_caret(), 0);
    assert!(!res.is_done_line());
    assert!(matches!(res.get_option(), ResponseOption::Nothing));
    assert_eq!(res.get_exit_label(), "");
}
