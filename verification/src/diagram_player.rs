//! The cross-line cursor: remembers at which node of the diagram the
//! previous line stopped.

use vstd::prelude::*;

use crate::diagram::{Diagram, ShellError};
use crate::line_parser::{best_literal, first_regex, regex_groups_at, LineParser};
use crate::shell::{RequestStruct, RequestView};

verus! {

/// The one piece of state carried from one input line to the next: the label
/// of the current node. An empty label means the player stands outside the
/// diagram, and the next line starts at the diagram's entry point.
pub struct DiagramPlayer {
    current_label: String,
}

impl View for DiagramPlayer {
    type V = Seq<char>;

    closed spec fn view(&self) -> Seq<char> {
        self.current_label@
    }
}

impl Default for DiagramPlayer {
    fn default() -> (p: Self)
        ensures
            p@ == Seq::<char>::empty(),
    {
        Self::new()
    }
}

impl DiagramPlayer {
    pub fn new() -> (p: DiagramPlayer)
        ensures
            p@ == Seq::<char>::empty(),
    {
        DiagramPlayer { current_label: String::new() }
    }

    /// The label of the current node; empty when the player is out of the
    /// diagram.
    pub fn get_current(&self) -> (r: String)
        ensures
            r@ == self@,
    {
        self.current_label.clone()
    }

    /// True iff the player stands outside the diagram.
    pub fn is_out(&self) -> (r: bool)
        ensures
            r == (self@.len() == 0),
    {
        self.current_label.as_str().is_empty()
    }

    pub fn set_current(&mut self, value: &str)
        ensures
            final(self)@ == value@,
    {
        self.current_label = value.to_owned();
    }

    /// Without moving the player, work out which node one token step from
    /// the current node through the door `door_label` would select: the
    /// winning literal candidate (second component false), else the first
    /// matching regex candidate (second component true), else an empty
    /// label. On a regex selection the request's capture groups are set to
    /// its match texts; otherwise the request is left unchanged.
    pub fn forward<H>(
        &self,
        diagram: &Diagram<H>,
        req: &mut RequestStruct,
        door_label: &str,
    ) -> (r: Result<(String, bool), ShellError>)
        requires
            old(req).wf(),
        ensures
            final(req).wf(),
            final(req)@.line == old(req)@.line,
            final(req)@.line_len == old(req)@.line_len,
            final(req)@.caret == old(req)@.caret,
            match r {
                Ok(p) => ({
                    let d = diagram@;
                    let node = d.find_node(self@);
                    &&& node is Some
                    &&& node->Some_0.exit_lookup(door_label@) is Some
                    &&& ({
                        let cands = node->Some_0.exit_lookup(door_label@)->Some_0;
                        let line = old(req)@.line;
                        let caret = old(req)@.caret as int;
                        let bl = best_literal(d, cands, line, caret);
                        let fr = first_regex(d, cands, line, caret);
                        if bl is Some {
                            &&& p.0@ == bl->Some_0
                            &&& p.1 == false
                            &&& final(req)@ == old(req)@
                        } else if fr is Some {
                            &&& p.0@ == fr->Some_0
                            &&& p.1 == true
                            &&& final(req)@ == (RequestView {
                                groups: regex_groups_at(
                                    d.find_node(fr->Some_0)->Some_0.token,
                                    line,
                                    caret,
                                ),
                                ..old(req)@
                            })
                        } else {
                            &&& p.0@.len() == 0
                            &&& p.1 == true
                            &&& final(req)@ == old(req)@
                        }
                    })
                }),
                Err(e) => ({
                    &&& final(req)@ == old(req)@
                    &&& match diagram@.find_node(self@) {
                        None => e matches ShellError::NodeNotFound(l) && l@ == self@,
                        Some(nv) => (nv.exit_lookup(door_label@) is None) && (e
                            matches ShellError::ExitNotFound(nl, dl) && nl@ == nv.label && dl@
                            == door_label@),
                    }
                }),
            },
    {
        let current = self.get_current();
        let current_node = match diagram.get_node(current.as_str()) {
            Ok(n) => n,
            Err(e) => {
                return Err(e);
            },
        };
        let current_exit_vec = match current_node.get_exit_vec(door_label) {
            Ok(v) => v,
            Err(e) => {
                return Err(e);
            },
        };
        let sel = LineParser::next_node_label(diagram, req, current_exit_vec);
        if sel.literal.is_some() {
            Ok((sel.literal.unwrap(), false))
        } else if sel.regex.is_some() {
            let label = sel.regex.unwrap();
            req.set_groups(sel.groups);
            Ok((label, true))
        } else {
            Ok((String::new(), true))
        }
    }

    /// If the player stands outside the diagram, move it to the diagram's
    /// entry point; otherwise stay put.
    pub fn enter_when_out<H>(&mut self, diagram: &Diagram<H>)
        ensures
            final(self)@ == if old(self)@.len() == 0 {
                diagram@.entry_point
            } else {
                old(self)@
            },
    {
        if self.is_out() {
            let entry = diagram.get_entry_point();
            self.set_current(entry.as_str());
        }
    }
}

} // verus!
