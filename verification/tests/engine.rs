//! Token matching and dispatch through the line parser.

use kifuwarabe_shell::diagram::{Controller, Diagram, ResponseOption, ShellError};
use kifuwarabe_shell::diagram_player::DiagramPlayer;
use kifuwarabe_shell::line_parser::LineParser;
use kifuwarabe_shell::shell::{RequestStruct, ResponseStruct};

enum Handler {
    Log(&'static str),
    LogCaret,
    LogCaretGroup,
    LogGroup(&'static str),
    Redirect(&'static str, &'static str),
    Quit(&'static str),
    DoneLine(&'static str),
}

impl Controller<Vec<String>> for Handler {
    fn on_token(&self, t: &mut Vec<String>, req: &RequestStruct, res: &mut ResponseStruct) {
        match self {
            Handler::Log(name) => t.push(name.to_string()),
            Handler::LogCaret => t.push(format!("{}", req.get_caret())),
            Handler::LogCaretGroup => {
                t.push(format!("{}:{}", req.get_caret(), req.get_groups()[0]))
            }
            Handler::LogGroup(name) => t.push(format!("{}:{}", name, req.get_groups()[0])),
            Handler::Redirect(name, exit) => {
                t.push(name.to_string());
                res.forward(exit);
            }
            Handler::Quit(name) => {
                t.push(name.to_string());
                res.set_option(ResponseOption::Quits);
            }
            Handler::DoneLine(name) => {
                t.push(name.to_string());
                res.set_done_line(true);
            }
        }
    }
}

fn exits(pairs: &[(&str, &[&str])]) -> Vec<(String, Vec<String>)> {
    let mut v = Vec::new();
    for (label, nodes) in pairs {
        let mut targets = Vec::new();
        for n in *nodes {
            targets.push(n.to_string());
        }
        v.push((label.to_string(), targets));
    }
    v
}

fn run_line(
    diagram: &Diagram<Handler>,
    player: &mut DiagramPlayer,
    log: &mut Vec<String>,
    line: &str,
) -> (Result<(), ShellError>, usize) {
    let mut req = RequestStruct::new(line.to_string());
    let mut res = ResponseStruct::new();
    let r = LineParser::run_on_line(player, diagram, log, &mut req, &mut res);
    (r, req.get_caret())
}

#[test]
fn longest_literal_wins_selects_ab() {
    let mut d: Diagram<Handler> = Diagram::new();
    d.set_entry_point("home".to_string());
    d.insert_node_single("home", "".to_string(), exits(&[("#next", &["a_node", "ab_node"])]));
    d.insert_node("a_node", "a".to_string(), "log_a".to_string(), exits(&[]));
    d.insert_node("ab_node", "ab".to_string(), "log_ab".to_string(), exits(&[]));
    d.insert_fn("log_a", Handler::Log("a"));
    d.insert_fn("log_ab", Handler::Log("ab"));
    let mut player = DiagramPlayer::new();
    let mut log = Vec::new();
    let (r, _) = run_line(&d, &mut player, &mut log, "ab cde");
    assert!(r.is_ok());
    assert_eq!(log, vec!["ab".to_string()]);
    assert_eq!(player.get_current(), "ab_node");
}

#[test]
fn literal_beats_regex() {
    let mut d: Diagram<Handler> = Diagram::new();
    d.set_entry_point("home".to_string());
    // the regex candidate is declared first and also matches "end"
    d.insert_node_single("home", "".to_string(), exits(&[("#next", &["word", "end_node"])]));
    d.insert_node_reg("word", r"(\w+)".to_string(), "log_word".to_string(), exits(&[]));
    d.insert_node("end_node", "end".to_string(), "log_end".to_string(), exits(&[]));
    d.insert_fn("log_word", Handler::Log("word"));
    d.insert_fn("log_end", Handler::Log("end"));
    let mut player = DiagramPlayer::new();
    let mut log = Vec::new();
    let (r, _) = run_line(&d, &mut player, &mut log, "end");
    assert!(r.is_ok());
    assert_eq!(log, vec!["end".to_string()]);
    assert_eq!(player.get_current(), "end_node");
}

#[test]
fn trailing_space_skip_advances_caret_to_three() {
    let mut d: Diagram<Handler> = Diagram::new();
    d.set_entry_point("home".to_string());
    d.insert_node_single("home", "".to_string(), exits(&[("#next", &["ab_node"])]));
    d.insert_node("ab_node", "ab".to_string(), "log_caret".to_string(), exits(&[]));
    d.insert_fn("log_caret", Handler::LogCaret);
    let mut player = DiagramPlayer::new();
    let mut log = Vec::new();
    let (r, caret) = run_line(&d, &mut player, &mut log, "ab cde");
    assert!(r.is_ok());
    // the caret passed the token and exactly one trailing space
    assert_eq!(log, vec!["3".to_string()]);
    assert_eq!(caret, 3);
}

#[test]
fn equal_length_tie_goes_to_first_declared() {
    let mut d: Diagram<Handler> = Diagram::new();
    d.set_entry_point("home".to_string());
    d.insert_node_single("home", "".to_string(), exits(&[("#next", &["first", "second"])]));
    d.insert_node("first", "ab".to_string(), "".to_string(), exits(&[]));
    d.insert_node("second", "ab".to_string(), "".to_string(), exits(&[]));
    let mut player = DiagramPlayer::new();
    let mut log = Vec::new();
    let (r, _) = run_line(&d, &mut player, &mut log, "ab");
    assert!(r.is_ok());
    assert_eq!(player.get_current(), "first");
}

#[test]
fn no_match_routes_to_else_once() {
    let mut d: Diagram<Handler> = Diagram::new();
    d.set_entry_point("home".to_string());
    d.insert_node_single("home", "".to_string(), exits(&[("#next", &["ab_node"])]));
    d.insert_node("ab_node", "ab".to_string(), "log_ab".to_string(), exits(&[]));
    d.insert_node_single("#else", "log_else".to_string(), exits(&[]));
    d.insert_fn("log_ab", Handler::Log("ab"));
    d.insert_fn("log_else", Handler::Log("else"));
    let mut player = DiagramPlayer::new();
    let mut log = Vec::new();
    let (r, caret) = run_line(&d, &mut player, &mut log, "zzz www");
    assert!(r.is_ok());
    // exactly the #else controller ran, once; the rest of the line was discarded
    assert_eq!(log, vec!["else".to_string()]);
    assert_eq!(caret, 0);
    assert_eq!(player.get_current(), "home");
}

#[test]
fn newline_controller_fires_only_after_line_end() {
    let mut d: Diagram<Handler> = Diagram::new();
    d.set_entry_point("home".to_string());
    d.insert_node_single("home", "".to_string(), exits(&[("#next", &["ab_node"])]));
    d.insert_node(
        "ab_node",
        "ab".to_string(),
        "log_ab".to_string(),
        exits(&[("#newline", &["tail"])]),
    );
    d.insert_node_single("tail", "log_tail".to_string(), exits(&[("#next", &["home"])]));
    d.insert_fn("log_ab", Handler::Log("ab"));
    d.insert_fn("log_tail", Handler::Log("tail"));
    let mut player = DiagramPlayer::new();
    let mut log = Vec::new();
    let (r, _) = run_line(&d, &mut player, &mut log, "ab");
    assert!(r.is_ok());
    // the tail controller fired after the token dispatch, not during it
    assert_eq!(log, vec!["ab".to_string(), "tail".to_string()]);
    // the player parked at the tail node's continuation for the next line
    assert_eq!(player.get_current(), "home");
}

#[test]
fn quit_suppresses_newline_and_continuation() {
    let mut d: Diagram<Handler> = Diagram::new();
    d.set_entry_point("home".to_string());
    d.insert_node_single("home", "".to_string(), exits(&[("#next", &["ab_node"])]));
    d.insert_node(
        "ab_node",
        "ab".to_string(),
        "quit_ab".to_string(),
        exits(&[("#newline", &["tail"])]),
    );
    d.insert_node_single("tail", "log_tail".to_string(), exits(&[("#next", &["home"])]));
    d.insert_fn("quit_ab", Handler::Quit("ab"));
    d.insert_fn("log_tail", Handler::Log("tail"));
    let mut player = DiagramPlayer::new();
    let mut log = Vec::new();
    let (r, _) = run_line(&d, &mut player, &mut log, "ab");
    assert!(r.is_ok());
    // the registered tail controller must not fire at all
    assert_eq!(log, vec!["ab".to_string()]);
    // the player stays at the just-matched node, not the continuation
    assert_eq!(player.get_current(), "ab_node");
}

#[test]
fn cross_line_continuation_re_derives_candidates() {
    let mut d: Diagram<Handler> = Diagram::new();
    d.set_entry_point("home".to_string());
    d.insert_node_single("home", "".to_string(), exits(&[("#next", &["a_node"])]));
    d.insert_node("a_node", "a".to_string(), "".to_string(), exits(&[("#next", &["b_node"])]));
    d.insert_node("b_node", "b".to_string(), "log_b".to_string(), exits(&[]));
    d.insert_fn("log_b", Handler::Log("b"));
    let mut player = DiagramPlayer::new();
    let mut log = Vec::new();
    let (r1, _) = run_line(&d, &mut player, &mut log, "a");
    assert!(r1.is_ok());
    // no #newline was declared, so the player parks at the matched node
    assert_eq!(player.get_current(), "a_node");
    let (r2, _) = run_line(&d, &mut player, &mut log, "b");
    assert!(r2.is_ok());
    // the second line started from a_node's own #next list
    assert_eq!(log, vec!["b".to_string()]);
    assert_eq!(player.get_current(), "b_node");
}

#[test]
fn regex_match_fills_groups_and_advances() {
    let mut d: Diagram<Handler> = Diagram::new();
    d.set_entry_point("home".to_string());
    d.insert_node_single("home", "".to_string(), exits(&[("#next", &["num"])]));
    d.insert_node_reg("num", r"([0-9]+)".to_string(), "log_cg".to_string(), exits(&[]));
    d.insert_fn("log_cg", Handler::LogCaretGroup);
    let mut player = DiagramPlayer::new();
    let mut log = Vec::new();
    let (r, _) = run_line(&d, &mut player, &mut log, "123 rest");
    assert!(r.is_ok());
    // the caret passed the three digits and one space; group 0 is the match text
    assert_eq!(log, vec!["4:123".to_string()]);
    assert_eq!(player.get_current(), "num");
}

#[test]
fn first_matching_regex_candidate_wins() {
    let mut d: Diagram<Handler> = Diagram::new();
    d.set_entry_point("home".to_string());
    d.insert_node_single("home", "".to_string(), exits(&[("#next", &["alpha", "word"])]));
    d.insert_node_reg("alpha", r"(a+)".to_string(), "".to_string(), exits(&[]));
    d.insert_node_reg("word", r"(\w+)".to_string(), "".to_string(), exits(&[]));
    let mut player = DiagramPlayer::new();
    let mut log = Vec::new();
    let (r, _) = run_line(&d, &mut player, &mut log, "aaa bbb");
    assert!(r.is_ok());
    assert_eq!(player.get_current(), "alpha");

    // with the declaration order flipped, the other candidate is selected
    let mut d2: Diagram<Handler> = Diagram::new();
    d2.set_entry_point("home".to_string());
    d2.insert_node_single("home", "".to_string(), exits(&[("#next", &["word", "alpha"])]));
    d2.insert_node_reg("alpha", r"(a+)".to_string(), "".to_string(), exits(&[]));
    d2.insert_node_reg("word", r"(\w+)".to_string(), "".to_string(), exits(&[]));
    let mut player2 = DiagramPlayer::new();
    let (r2, _) = run_line(&d2, &mut player2, &mut log, "aaa bbb");
    assert!(r2.is_ok());
    assert_eq!(player2.get_current(), "word");
}

#[test]
fn done_line_stops_scanning() {
    let mut d: Diagram<Handler> = Diagram::new();
    d.set_entry_point("home".to_string());
    d.insert_node_single("home", "".to_string(), exits(&[("#next", &["ab_node"])]));
    d.insert_node(
        "ab_node",
        "ab".to_string(),
        "done_ab".to_string(),
        exits(&[("#next", &["ab_node"])]),
    );
    d.insert_fn("done_ab", Handler::DoneLine("ab"));
    let mut player = DiagramPlayer::new();
    let mut log = Vec::new();
    let (r, caret) = run_line(&d, &mut player, &mut log, "ab ab ab");
    assert!(r.is_ok());
    // only the first token was dispatched; the caret was forced to line end
    assert_eq!(log, vec!["ab".to_string()]);
    assert_eq!(caret, 8);
}

#[test]
fn controller_redirects_next_exit() {
    let mut d: Diagram<Handler> = Diagram::new();
    d.set_entry_point("home".to_string());
    d.insert_node_single("home", "".to_string(), exits(&[("#next", &["ab_node"])]));
    d.insert_node(
        "ab_node",
        "ab".to_string(),
        "redirect_ab".to_string(),
        exits(&[("#next", &["xx_node"]), ("alt", &["cd_node"])]),
    );
    d.insert_node("xx_node", "xx".to_string(), "log_xx".to_string(), exits(&[]));
    d.insert_node("cd_node", "cd".to_string(), "log_cd".to_string(), exits(&[]));
    d.insert_fn("redirect_ab", Handler::Redirect("ab", "alt"));
    d.insert_fn("log_xx", Handler::Log("xx"));
    d.insert_fn("log_cd", Handler::Log("cd"));
    let mut player = DiagramPlayer::new();
    let mut log = Vec::new();
    let (r, _) = run_line(&d, &mut player, &mut log, "ab cd");
    assert!(r.is_ok());
    assert_eq!(log, vec!["ab".to_string(), "cd".to_string()]);
    assert_eq!(player.get_current(), "cd_node");
}

#[test]
fn unregistered_controller_name_is_a_no_op() {
    let mut d: Diagram<Handler> = Diagram::new();
    d.set_entry_point("home".to_string());
    d.insert_node_single("home", "".to_string(), exits(&[("#next", &["ab_node"])]));
    d.insert_node("ab_node", "ab".to_string(), "ghost".to_string(), exits(&[]));
    let mut player = DiagramPlayer::new();
    let mut log = Vec::new();
    let (r, _) = run_line(&d, &mut player, &mut log, "ab");
    assert!(r.is_ok());
    assert!(log.is_empty());
    assert_eq!(player.get_current(), "ab_node");
}

#[test]
fn forward_selects_literal_and_regex() {
    let mut d: Diagram<Handler> = Diagram::new();
    d.set_entry_point("home".to_string());
    d.insert_node_single(
        "home",
        "".to_string(),
        exits(&[("#next", &["ab_node", "num"])]),
    );
    d.insert_node("ab_node", "ab".to_string(), "".to_string(), exits(&[]));
    d.insert_node_reg("num", r"([0-9]+)".to_string(), "".to_string(), exits(&[]));
    let mut player = DiagramPlayer::new();
    player.set_current("home");

    let mut req = RequestStruct::new("ab cde".to_string());
    let r = player.forward(&d, &mut req, "#next");
    assert_eq!(r, Ok(("ab_node".to_string(), false)));

    let mut req2 = RequestStruct::new("123 rest".to_string());
    let r2 = player.forward(&d, &mut req2, "#next");
    assert_eq!(r2, Ok(("num".to_string(), true)));
    assert_eq!(req2.get_groups()[0], "123");

    let mut req3 = RequestStruct::new("---".to_string());
    let r3 = player.forward(&d, &mut req3, "#next");
    assert_eq!(r3, Ok(("".to_string(), true)));
}

#[test]
fn empty_line_only_enters_the_diagram() {
    let mut d: Diagram<Handler> = Diagram::new();
    d.set_entry_point("home".to_string());
    d.insert_node_single("home", "".to_string(), exits(&[("#next", &["ab_node"])]));
    d.insert_node("ab_node", "ab".to_string(), "log_ab".to_string(), exits(&[]));
    d.insert_fn("log_ab", Handler::Log("ab"));
    let mut player = DiagramPlayer::new();
    let mut log = Vec::new();
    assert!(player.is_out());
    let (r, caret) = run_line(&d, &mut player, &mut log, "");
    assert!(r.is_ok());
    assert!(log.is_empty());
    assert_eq!(caret, 0);
    assert_eq!(player.get_current(), "home");
}

#[test]
fn multi_token_session_lines() {
    let mut d: Diagram<Handler> = Diagram::new();
    d.set_entry_point("home".to_string());
    d.insert_node_single(
        "home",
        "".to_string(),
        exits(&[("#next", &["ab_node", "end_node", "word"])]),
    );
    d.insert_node(
        "ab_node",
        "ab".to_string(),
        "ab_fn".to_string(),
        exits(&[("#next", &["cde_node"]), ("#newline", &["ab_tail"])]),
    );
    d.insert_node(
        "cde_node",
        "cde".to_string(),
        "cde_fn".to_string(),
        exits(&[("#next", &["word"])]),
    );
    d.insert_node_reg(
        "word",
        r"(\w+)".to_string(),
        "word_fn".to_string(),
        exits(&[("#next", &["word"])]),
    );
    d.insert_node_single("ab_tail", "ab_nl_fn".to_string(), exits(&[("#next", &["home"])]));
    d.insert_node("end_node", "end".to_string(), "end_fn".to_string(), exits(&[]));
    d.insert_fn("ab_fn", Handler::Log("ab"));
    d.insert_fn("cde_fn", Handler::Log("cde"));
    d.insert_fn("word_fn", Handler::LogGroup("word"));
    d.insert_fn("ab_nl_fn", Handler::Log("ab_nl"));
    d.insert_fn("end_fn", Handler::DoneLine("end"));
    let mut player = DiagramPlayer::new();

    // two literal tokens, then the deferred end-of-line controller
    let mut log = Vec::new();
    let (r, _) = run_line(&d, &mut player, &mut log, "ab cde");
    assert!(r.is_ok());
    assert_eq!(log, vec!["ab".to_string(), "cde".to_string(), "ab_nl".to_string()]);
    assert_eq!(player.get_current(), "home");

    // a regex tail rides behind the literals
    let mut log = Vec::new();
    let (r, _) = run_line(&d, &mut player, &mut log, "ab cde xyz");
    assert!(r.is_ok());
    assert_eq!(
        log,
        vec![
            "ab".to_string(),
            "cde".to_string(),
            "word:xyz".to_string(),
            "ab_nl".to_string()
        ]
    );
    assert_eq!(player.get_current(), "home");

    // the literal "end" beats the regex; done_line discards the rest
    let mut log = Vec::new();
    let (r, caret) = run_line(&d, &mut player, &mut log, "end xyz");
    assert!(r.is_ok());
    assert_eq!(log, vec!["end".to_string()]);
    assert_eq!(caret, 7);
    assert_eq!(player.get_current(), "end_node");
}

#[test]
fn missing_node_and_fn_are_errors() {
    let d: Diagram<Handler> = Diagram::new();
    assert_eq!(
        d.get_node("nope").err(),
        Some(ShellError::NodeNotFound("nope".to_string()))
    );
    assert_eq!(
        d.get_fn("nope").err(),
        Some(ShellError::FnNotFound("nope".to_string()))
    );
}

#[test]
fn entry_without_next_exit_is_an_error() {
    let mut d: Diagram<Handler> = Diagram::new();
    d.set_entry_point("home".to_string());
    d.insert_node_single("home", "".to_string(), exits(&[]));
    let mut player = DiagramPlayer::new();
    let mut log = Vec::new();
    let (r, _) = run_line(&d, &mut player, &mut log, "ab");
    assert_eq!(
        r,
        Err(ShellError::ExitNotFound(
            "home".to_string(),
            "#next".to_string()
        ))
    );
}

#[test]
fn missing_entry_node_is_an_error() {
    let mut d: Diagram<Handler> = Diagram::new();
    d.set_entry_point("home".to_string());
    let mut player = DiagramPlayer::new();
    let mut log = Vec::new();
    let (r, _) = run_line(&d, &mut player, &mut log, "ab");
    assert_eq!(r, Err(ShellError::NodeNotFound("home".to_string())));
}

#[test]
fn empty_newline_exit_list_is_an_error() {
    let mut d: Diagram<Handler> = Diagram::new();
    d.set_entry_point("home".to_string());
    d.insert_node_single("home", "".to_string(), exits(&[("#next", &["ab_node"])]));
    d.insert_node(
        "ab_node",
        "ab".to_string(),
        "".to_string(),
        exits(&[("#newline", &[])]),
    );
    let mut player = DiagramPlayer::new();
    let mut log = Vec::new();
    let (r, _) = run_line(&d, &mut player, &mut log, "ab");
    assert_eq!(
        r,
        Err(ShellError::EmptyExitList(
            "ab_node".to_string(),
            "#newline".to_string()
        ))
    );
}
