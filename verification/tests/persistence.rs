//! The persisted graph model and the diagram round trip.

use kifuwarabe_shell::diagram::{Controller, Diagram};
use kifuwarabe_shell::diagram_json::{DiagramJson, NodeJson};
use kifuwarabe_shell::shell::{RequestStruct, ResponseStruct};

struct Noop;

impl Controller<u32> for Noop {
    fn on_token(&self, _t: &mut u32, _req: &RequestStruct, _res: &mut ResponseStruct) {}
}

fn exits(pairs: &[(&str, &[&str])]) -> Vec<(String, Vec<String>)> {
    let mut v = Vec::new();
    for (label, nodes) in pairs {
        let mut targets = Vec::new();
        for n in *nodes {
            targets.push(n.to_string());
        }
        v.push((label.to_string(), targets));
    }
    v
}

fn sample_diagram() -> Diagram<Noop> {
    let mut d: Diagram<Noop> = Diagram::new();
    d.set_entry_point("home".to_string());
    d.insert_node_single(
        "home",
        "".to_string(),
        exits(&[("#next", &["ab_node", "num"]), ("alt", &["end_node"])]),
    );
    d.insert_node(
        "ab_node",
        "ab".to_string(),
        "do_ab".to_string(),
        exits(&[("#next", &["end_node"]), ("#newline", &["tail"])]),
    );
    d.insert_node_reg("num", r"([0-9]+)".to_string(), "do_num".to_string(), exits(&[]));
    d.insert_node("end_node", "end".to_string(), "".to_string(), exits(&[]));
    d.insert_node_single("tail", "do_tail".to_string(), exits(&[("#next", &["home"])]));
    d.insert_fn("do_ab", Noop);
    d.insert_fn("do_num", Noop);
    d.insert_fn("do_tail", Noop);
    d
}

#[test]
fn model_round_trip_reproduces_the_diagram() {
    let d1 = sample_diagram();
    let m = d1.to_model();
    let mut d2: Diagram<Noop> = Diagram::new();
    d2.insert_fn("do_ab", Noop);
    d2.insert_fn("do_num", Noop);
    d2.insert_fn("do_tail", Noop);
    d2.apply_model(&m);

    assert_eq!(d2.get_entry_point(), "home");
    assert_eq!(d2.get_node_map().len(), d1.get_node_map().len());
    for (label, n1) in d1.get_node_map() {
        let n2 = d2.get_node(label).unwrap();
        assert_eq!(n2.get_label(), n1.get_label());
        assert_eq!(n2.get_token(), n1.get_token());
        assert_eq!(n2.is_regex(), n1.is_regex());
        assert_eq!(n2.get_fn_label(), n1.get_fn_label());
        let e1 = n1.get_exit_map();
        let e2 = n2.get_exit_map();
        assert_eq!(e2.len(), e1.len());
        for (i, (key, targets)) in e1.iter().enumerate() {
            assert_eq!(&e2[i].0, key);
            assert_eq!(&e2[i].1, targets);
        }
    }
    // node order survives the trip as well
    for (i, (label, _)) in d1.get_node_map().iter().enumerate() {
        assert_eq!(&d2.get_node_map()[i].0, label);
    }
    // controllers survive the reload
    assert!(d2.contains_fn("do_ab"));
}

#[test]
fn to_model_encodes_node_kinds() {
    let d = sample_diagram();
    let m = d.to_model();
    assert_eq!(m.get_entry_point(), "home");
    let nodes = m.get_nodes();
    assert_eq!(nodes.len(), 5);

    // pass-through node: neither token nor regex, no controller
    assert_eq!(nodes[0].get_label(), "home");
    assert!(nodes[0].get_token().is_none());
    assert!(nodes[0].get_regex().is_none());
    assert!(nodes[0].get_fnc().is_none());

    // literal node: token only
    assert_eq!(nodes[1].get_label(), "ab_node");
    assert_eq!(nodes[1].get_token().as_deref(), Some("ab"));
    assert!(nodes[1].get_regex().is_none());
    assert_eq!(nodes[1].get_fnc().as_deref(), Some("do_ab"));

    // regex node: regex only
    assert_eq!(nodes[2].get_label(), "num");
    assert!(nodes[2].get_token().is_none());
    assert_eq!(nodes[2].get_regex().as_deref(), Some("([0-9]+)"));

    // empty controller name is omitted
    assert!(nodes[3].get_fnc().is_none());

    // exit lists keep their declared order
    let home_exits = nodes[0].get_exit_map();
    assert_eq!(home_exits[0].0, "#next");
    assert_eq!(home_exits[0].1, vec!["ab_node".to_string(), "num".to_string()]);
    assert_eq!(home_exits[1].0, "alt");
}

#[test]
fn node_json_accessors_round_trip() {
    let mut nj = NodeJson::new();
    assert_eq!(nj.get_label(), "");
    nj.set_label("alpha".to_string());
    nj.set_token(Some("tok".to_string()));
    nj.set_regex(None);
    nj.set_fnc(Some("f".to_string()));
    nj.insert_exit("#next", vec!["beta".to_string()]);
    assert_eq!(nj.get_label(), "alpha");
    assert_eq!(nj.get_token().as_deref(), Some("tok"));
    assert!(nj.get_regex().is_none());
    assert_eq!(nj.get_fnc().as_deref(), Some("f"));
    assert_eq!(nj.get_exit_map().len(), 1);
    assert_eq!(nj.get_exit_map()[0].1, vec!["beta".to_string()]);
}

#[test]
fn insert_exit_replaces_in_place() {
    let mut nj = NodeJson::new();
    nj.insert_exit("#next", vec!["a".to_string()]);
    nj.insert_exit("alt", vec!["b".to_string()]);
    nj.insert_exit("#next", vec!["c".to_string()]);
    let em = nj.get_exit_map();
    assert_eq!(em.len(), 2);
    assert_eq!(em[0].0, "#next");
    assert_eq!(em[0].1, vec!["c".to_string()]);
    assert_eq!(em[1].0, "alt");
}

#[test]
fn diagram_json_accessors() {
    let mut m = DiagramJson::new();
    assert_eq!(m.get_entry_point(), "");
    assert!(m.get_nodes().is_empty());
    m.set_entry_point("home".to_string());
    let mut nj = NodeJson::new();
    nj.set_label("x".to_string());
    m.push_node(nj);
    assert_eq!(m.get_entry_point(), "home");
    assert_eq!(m.get_nodes().len(), 1);
    assert_eq!(m.get_nodes()[0].get_label(), "x");
}

#[test]
fn insert_node_replaces_by_label() {
    let mut d: Diagram<Noop> = Diagram::new();
    d.insert_node("n", "one".to_string(), "".to_string(), exits(&[]));
    d.insert_node("other", "x".to_string(), "".to_string(), exits(&[]));
    d.insert_node("n", "two".to_string(), "f".to_string(), exits(&[]));
    assert_eq!(d.get_node_map().len(), 2);
    let n = d.get_node("n").unwrap();
    assert_eq!(n.get_token(), "two");
    assert_eq!(n.get_fn_label(), "f");
    // the replaced node kept its position
    assert_eq!(d.get_node_map()[0].0, "n");
}

#[test]
fn clear_keeps_controllers() {
    let mut d = sample_diagram();
    d.clear();
    assert_eq!(d.get_entry_point(), "");
    assert!(d.get_node_map().is_empty());
    assert!(d.contains_fn("do_ab"));
}

#[test]
fn node_exit_lookup() {
    let d = sample_diagram();
    let home = d.get_node("home").unwrap();
    assert!(home.contains_exit("#next"));
    assert!(home.contains_exit("alt"));
    assert!(!home.contains_exit("#newline"));
    let v = home.get_exit_vec("alt").unwrap();
    assert_eq!(v, &vec!["end_node".to_string()]);
    assert!(home.get_exit_vec("nope").is_err());
    assert!(home.find_exit("nope").is_none());
}
