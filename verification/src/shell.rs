//! The per-line request/response pair exchanged with controllers, and the
//! session orchestration around the line parser.

use vstd::prelude::*;
use vstd::string::StrSliceExecFns;

use crate::diagram::{
    apply_nodes, Controller, Diagram, DiagramView, NodeView, ResponseOption, ShellError,
};
use crate::diagram_json::{DiagramJson, DiagramJsonView};
use crate::diagram_player::DiagramPlayer;
use crate::line_parser::{error_matches, pure_line_run, LineParser, PureOutcome};

verus! {

/// The model of one request: the full line, its character length, the read
/// position, and the captures of the last regex match.
pub ghost struct RequestView {
    pub line: Seq<char>,
    pub line_len: nat,
    pub caret: nat,
    pub groups: Seq<Seq<char>>,
}

/// One command line under parsing. The engine owns the caret; controllers
/// only read.
pub struct RequestStruct {
    line: String,
    line_len: usize,
    caret: usize,
    groups: Vec<String>,
}

impl View for RequestStruct {
    type V = RequestView;

    closed spec fn view(&self) -> RequestView {
        RequestView {
            line: self.line@,
            line_len: self.line_len as nat,
            caret: self.caret as nat,
            groups: self.groups.deep_view(),
        }
    }
}

impl RequestStruct {
    /// The stored length is the character count of the line and the caret
    /// never passes the end.
    pub open spec fn wf(&self) -> bool {
        &&& self@.line_len == self@.line.len()
        &&& self@.caret <= self@.line_len
    }

    pub fn new(line2: String) -> (r: RequestStruct)
        ensures
            r@.line == line2@,
            r@.line_len == line2@.len(),
            r@.caret == 0,
            r@.groups.len() == 0,
            r.wf(),
    {
        let len = line2.as_str().unicode_len();
        RequestStruct { line: line2, line_len: len, caret: 0, groups: Vec::new() }
    }

    pub fn get_line(&self) -> (r: &String)
        ensures
            r@ == self@.line,
    {
        &self.line
    }

    /// The character count of the line.
    pub fn get_line_len(&self) -> (r: usize)
        ensures
            r == self@.line_len,
    {
        self.line_len
    }

    pub fn get_caret(&self) -> (r: usize)
        ensures
            r == self@.caret,
    {
        self.caret
    }

    /// The texts matched by the regex candidate selected in the current
    /// token step; empty outside a regex step.
    pub fn get_groups(&self) -> (r: &Vec<String>)
        ensures
            r.deep_view() == self@.groups,
    {
        &self.groups
    }

    pub(crate) fn set_caret(&mut self, caret2: usize)
        ensures
            final(self)@ == (RequestView { caret: caret2 as nat, ..old(self)@ }),
    {
        self.caret = caret2;
    }

    pub(crate) fn clear_groups(&mut self)
        ensures
            final(self)@ == (RequestView { groups: Seq::<Seq<char>>::empty(), ..old(self)@ }),
    {
        self.groups.clear();
        proof {
            assert(final(self)@.groups =~= Seq::<Seq<char>>::empty());
        }
    }

    pub(crate) fn set_groups(&mut self, groups2: Vec<String>)
        ensures
            final(self)@ == (RequestView { groups: groups2.deep_view(), ..old(self)@ }),
    {
        self.groups = groups2;
    }
}

/// The model of one response: the scratch caret, the end-of-line flag, the
/// control signal, and the exit label chosen for the next step.
pub ghost struct ResponseView {
    pub caret: nat,
    pub done_line: bool,
    pub option: ResponseOption,
    pub exit_label: Seq<char>,
}

/// The per-token-step reply a controller can fill in: scratch caret, an
/// end-of-line flag, the exit label for the next step (the engine presets
/// `#next`), and a control signal for the host loop.
pub struct ResponseStruct {
    caret: usize,
    done_line: bool,
    option: ResponseOption,
    exit_label: String,
}

impl View for ResponseStruct {
    type V = ResponseView;

    closed spec fn view(&self) -> ResponseView {
        ResponseView {
            caret: self.caret as nat,
            done_line: self.done_line,
            option: self.option,
            exit_label: self.exit_label@,
        }
    }
}

/// The state a fresh or just-reset response carries.
pub open spec fn reset_response() -> ResponseView {
    ResponseView {
        caret: 0,
        done_line: false,
        option: ResponseOption::Nothing,
        exit_label: Seq::<char>::empty(),
    }
}

impl ResponseStruct {
    pub fn new() -> (r: ResponseStruct)
        ensures
            r@ == reset_response(),
    {
        ResponseStruct {
            caret: 0,
            done_line: false,
            option: ResponseOption::Nothing,
            exit_label: String::new(),
        }
    }

    /// Restore the just-created state; run before every token step.
    pub fn reset(&mut self)
        ensures
            final(self)@ == reset_response(),
    {
        self.set_caret(0);
        self.set_done_line(false);
        self.set_option(ResponseOption::Nothing);
        self.exit_label = String::new();
    }

    pub fn set_caret(&mut self, caret2: usize)
        ensures
            final(self)@ == (ResponseView { caret: caret2 as nat, ..old(self)@ }),
    {
        self.caret = caret2;
    }

    pub fn get_caret(&self) -> (r: usize)
        ensures
            r == self@.caret,
    {
        self.caret
    }

    /// Ask the engine to stop scanning the line after this step.
    pub fn set_done_line(&mut self, done_line2: bool)
        ensures
            final(self)@ == (ResponseView { done_line: done_line2, ..old(self)@ }),
    {
        self.done_line = done_line2;
    }

    pub fn is_done_line(&self) -> (r: bool)
        ensures
            r == self@.done_line,
    {
        self.done_line
    }

    /// Raise a control signal for the host loop.
    pub fn set_option(&mut self, value: ResponseOption)
        ensures
            final(self)@ == (ResponseView { option: value, ..old(self)@ }),
    {
        self.option = value;
    }

    pub fn get_option(&self) -> (r: &ResponseOption)
        ensures
            *r == self@.option,
    {
        &self.option
    }

    /// Choose which exit of the matched node the next step follows.
    pub fn forward(&mut self, exit_label2: &str)
        ensures
            final(self)@ == (ResponseView { exit_label: exit_label2@, ..old(self)@ }),
    {
        self.exit_label = exit_label2.to_owned();
    }

    pub fn get_exit_label(&self) -> (r: &String)
        ensures
            r@ == self@.exit_label,
    {
        &self.exit_label
    }
}

/// A host-supplied line source: blocks until one line is available and
/// hands it back with the trailing newline stripped and surrounding
/// whitespace trimmed.
pub trait LineSource<T> {
    fn read_line(&mut self, t: &mut T) -> String;
}

/// A host-supplied store for persisted graphs. `load` parses the file at
/// `path` into a model, or hands nothing back on failure, so a failed
/// reload cannot corrupt the diagram; `save` writes the model out and
/// reports success.
pub trait GraphStore {
    fn load(&mut self, path: &str) -> Option<DiagramJson>;

    fn save(&mut self, path: &str, model: &DiagramJson) -> bool;
}

/// How one session step relates to the pure line model when no controller
/// is registered: the step reports no quit and parks the player where the
/// model says, or surfaces exactly the model's configuration fault.
pub open spec fn pure_step_matches<H>(
    d: DiagramView<H>,
    player0: Seq<char>,
    l: Seq<char>,
    r: Result<bool, ShellError>,
    player1: Seq<char>,
) -> bool {
    match pure_line_run(d, player0, l, 0) {
        PureOutcome::Finished(p, _) => r == Ok::<bool, ShellError>(false) && player1 == p,
        PureOutcome::Failed(pe) => r matches Err(e) && error_matches(e, pe),
    }
}

/// The model of a shell session: the player's position, the pre-pushed
/// command rows, and the line source.
pub ghost struct ShellView<R> {
    pub player: Seq<char>,
    pub rows: Seq<Seq<char>>,
    pub reader: R,
}

/// One shell per client: the cross-line cursor, a FIFO buffer of pre-pushed
/// command rows, and the line source consulted when the buffer is empty.
pub struct Shell<R> {
    diagram_player: DiagramPlayer,
    vec_row: Vec<String>,
    reader: R,
}

impl<R> View for Shell<R> {
    type V = ShellView<R>;

    closed spec fn view(&self) -> ShellView<R> {
        ShellView {
            player: self.diagram_player@,
            rows: self.vec_row.deep_view(),
            reader: self.reader,
        }
    }
}

impl<R> Shell<R> {
    pub fn new(reader2: R) -> (s: Shell<R>)
        ensures
            s@.player.len() == 0,
            s@.rows.len() == 0,
            s@.reader == reader2,
    {
        let s = Shell { diagram_player: DiagramPlayer::new(), vec_row: Vec::new(), reader: reader2 };
        proof {
            assert(s@.rows =~= Seq::<Seq<char>>::empty());
        }
        s
    }

    pub fn get_diagram_player(&self) -> (r: &DiagramPlayer)
        ensures
            r@ == self@.player,
    {
        &self.diagram_player
    }

    /// The cursor itself, for moving through the diagram without the
    /// parser.
    pub fn get_mut_diagram_player(&mut self) -> (r: &mut DiagramPlayer)
        ensures
            r@ == old(self)@.player,
            final(self)@ == (ShellView { player: final(r)@, ..old(self)@ }),
    {
        &mut self.diagram_player
    }

    /// The label of the current node; empty when the player is out of the
    /// diagram.
    pub fn get_current(&self) -> (r: String)
        ensures
            r@ == self@.player,
    {
        self.diagram_player.get_current()
    }

    /// True iff the player stands outside the diagram.
    pub fn is_out(&self) -> (r: bool)
        ensures
            r == (self@.player.len() == 0),
    {
        self.diagram_player.is_out()
    }

    pub fn set_reader(&mut self, reader2: R)
        ensures
            final(self)@ == (ShellView { reader: reader2, ..old(self)@ }),
    {
        self.reader = reader2;
    }

    /// True iff no command row waits in the buffer.
    pub fn is_empty(&self) -> (r: bool)
        ensures
            r == (self@.rows.len() == 0),
    {
        self.vec_row.len() == 0
    }

    /// Queue one command row, without its trailing newline, to be consumed
    /// before the line source is asked again.
    pub fn push_row(&mut self, row: &str)
        ensures
            final(self)@ == (ShellView { rows: old(self)@.rows.push(row@), ..old(self)@ }),
    {
        self.vec_row.push(row.to_owned());
        proof {
            assert(final(self)@.rows =~= old(self)@.rows.push(row@));
        }
    }

    /// Remove and return the first queued command row.
    pub fn pop_row(&mut self) -> (r: String)
        requires
            old(self)@.rows.len() > 0,
        ensures
            r@ == old(self)@.rows[0],
            final(self)@ == (ShellView { rows: old(self)@.rows.skip(1), ..old(self)@ }),
    {
        let r = self.vec_row.remove(0);
        proof {
            assert(final(self)@.rows =~= old(self)@.rows.skip(1));
        }
        r
    }

    /// Apply the control signal of one parsed line: a reload that the store
    /// could parse replaces the nodes and the entry point (controllers
    /// survive) and parks the player out of the diagram; a failed reload
    /// changes nothing; a save spells the diagram out to the store.
    fn apply_control<H, S: GraphStore>(
        player: &mut DiagramPlayer,
        diagram: &mut Diagram<H>,
        store: &mut S,
        res: &ResponseStruct,
    )
        ensures
            final(diagram)@.fn_map == old(diagram)@.fn_map,
            old(diagram)@.wf() ==> final(diagram)@.wf(),
            !(res@.option matches ResponseOption::Reloads(p)) ==> (*final(diagram) == *old(diagram)
                && *final(player) == *old(player)),
            (res@.option matches ResponseOption::Reloads(p)) ==> ((*final(diagram) == *old(diagram)
                && *final(player) == *old(player)) || ((exists|m: DiagramJsonView|
                final(diagram)@.entry_point == m.entry_point && final(diagram)@.nodes
                    == apply_nodes(Seq::<(Seq<char>, NodeView)>::empty(), m.nodes))
                && final(player)@.len() == 0)),
            (*final(diagram) == *old(diagram) && *final(player) == *old(player)) || ((exists|
                m: DiagramJsonView,
            |
                final(diagram)@.entry_point == m.entry_point && final(diagram)@.nodes
                    == apply_nodes(Seq::<(Seq<char>, NodeView)>::empty(), m.nodes))
                && final(player)@.len() == 0),
    {
        match res.get_option() {
            ResponseOption::Nothing => {},
            ResponseOption::Quits => {},
            ResponseOption::Reloads(file) => {
                let loaded = store.load(file.as_str());
                if loaded.is_some() {
                    let model = loaded.unwrap();
                    diagram.apply_model(&model);
                    player.set_current("");
                    proof {
                        reveal_strlit("");
                        let m = model@;
                        assert(final(diagram)@.entry_point == m.entry_point);
                        assert(final(diagram)@.nodes == apply_nodes(
                            Seq::<(Seq<char>, NodeView)>::empty(),
                            m.nodes,
                        ));
                    }
                }
            },
            ResponseOption::Saves(file) => {
                let model = diagram.to_model();
                let _ = store.save(file.as_str(), &model);
            },
        }
    }

    /// Parse one given command line, then apply the control signal it
    /// raised; a quit signal is meaningless outside a loop and is ignored.
    /// Registered controllers survive whatever the line did.
    pub fn execute_line<T, H: Controller<T>, S: GraphStore>(
        &mut self,
        diagram: &mut Diagram<H>,
        t: &mut T,
        store: &mut S,
        line: &str,
    ) -> (r: Result<(), ShellError>)
        ensures
            final(diagram)@.fn_map == old(diagram)@.fn_map,
            old(diagram)@.wf() ==> final(diagram)@.wf(),
            final(self)@.rows == old(self)@.rows,
            final(self)@.reader == old(self)@.reader,
            (*final(diagram) == *old(diagram)) || ((exists|m: DiagramJsonView|
                final(diagram)@.entry_point == m.entry_point && final(diagram)@.nodes
                    == apply_nodes(Seq::<(Seq<char>, NodeView)>::empty(), m.nodes))
                && final(self)@.player.len() == 0),
            old(diagram)@.fn_map.len() == 0 ==> (match pure_line_run(
                old(diagram)@,
                old(self)@.player,
                line@,
                0,
            ) {
                PureOutcome::Finished(p, _) => (r is Ok) && final(self)@.player == p,
                PureOutcome::Failed(pe) => r matches Err(e) && error_matches(e, pe),
            }),
            old(diagram)@.fn_map.len() == 0 ==> *final(diagram) == *old(diagram),
    {
        let mut req = RequestStruct::new(line.to_owned());
        let mut res = ResponseStruct::new();
        match LineParser::run_on_line(&mut self.diagram_player, diagram, t, &mut req, &mut res) {
            Ok(_) => {},
            Err(e) => {
                return Err(e);
            },
        }
        proof {
            if old(diagram)@.fn_map.len() == 0 {
                assert(res@.option matches ResponseOption::Nothing);
            }
        }
        Self::apply_control(&mut self.diagram_player, diagram, store, &res);
        Ok(())
    }

    /// One turn of the session loop: take the first buffered row, or ask
    /// the line source for one; parse it; apply the control signal; report
    /// whether a quit was raised. Registered controllers survive whatever
    /// the line did.
    pub fn run_step<T, H: Controller<T>, S: GraphStore>(
        &mut self,
        diagram: &mut Diagram<H>,
        t: &mut T,
        store: &mut S,
    ) -> (r: Result<bool, ShellError>) where R: LineSource<T>
        ensures
            final(diagram)@.fn_map == old(diagram)@.fn_map,
            old(diagram)@.wf() ==> final(diagram)@.wf(),
            old(self)@.rows.len() > 0 ==> final(self)@.rows == old(self)@.rows.skip(1),
            old(self)@.rows.len() == 0 ==> final(self)@.rows == old(self)@.rows,
            (*final(diagram) == *old(diagram)) || ((exists|m: DiagramJsonView|
                final(diagram)@.entry_point == m.entry_point && final(diagram)@.nodes
                    == apply_nodes(Seq::<(Seq<char>, NodeView)>::empty(), m.nodes))
                && final(self)@.player.len() == 0),
            (old(diagram)@.fn_map.len() == 0 && old(self)@.rows.len() > 0) ==> pure_step_matches(
                old(diagram)@,
                old(self)@.player,
                old(self)@.rows[0],
                r,
                final(self)@.player,
            ),
            (old(diagram)@.fn_map.len() == 0 && old(self)@.rows.len() == 0) ==> (exists|
                l: Seq<char>,
            |
                pure_step_matches(old(diagram)@, old(self)@.player, l, r, final(self)@.player)),
            old(diagram)@.fn_map.len() == 0 ==> *final(diagram) == *old(diagram),
    {
        let line = if self.is_empty() {
            self.reader.read_line(t)
        } else {
            self.pop_row()
        };
        let ghost line_view = line@;
        let mut req = RequestStruct::new(line);
        let mut res = ResponseStruct::new();
        match LineParser::run_on_line(&mut self.diagram_player, diagram, t, &mut req, &mut res) {
            Ok(_) => {},
            Err(e) => {
                proof {
                    if old(diagram)@.fn_map.len() == 0 {
                        assert(pure_step_matches(
                            old(diagram)@,
                            old(self)@.player,
                            line_view,
                            Err::<bool, ShellError>(e),
                            final(self)@.player,
                        ));
                    }
                }
                return Err(e);
            },
        }
        let quits = match res.get_option() {
            ResponseOption::Quits => true,
            _ => false,
        };
        proof {
            if old(diagram)@.fn_map.len() == 0 {
                assert(res@.option matches ResponseOption::Nothing);
                assert(!quits);
            }
        }
        Self::apply_control(&mut self.diagram_player, diagram, store, &res);
        proof {
            if old(diagram)@.fn_map.len() == 0 {
                assert(pure_step_matches(
                    old(diagram)@,
                    old(self)@.player,
                    line_view,
                    Ok::<bool, ShellError>(quits),
                    final(self)@.player,
                ));
            }
        }
        Ok(quits)
    }
}

} // verus!
