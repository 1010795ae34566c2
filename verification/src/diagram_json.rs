//! The persisted graph schema: the shape a diagram takes in its file, with
//! optional token/regex/controller fields and named exit lists. The host
//! turns values of these types into bytes and back; the mapping between a
//! diagram and its model lives with the diagram itself.

use vstd::prelude::*;

use crate::alist::{
    alist_insert, lemma_alist_insert_absent, lemma_alist_insert_found, lemma_alist_lookup_first,
    lemma_alist_lookup_none,
};
use crate::text::str_eq;

verus! {

/// The model of one serialized node: `token` and `regex` are mutually
/// exclusive; all three optional fields are omitted from the file when
/// absent.
pub ghost struct NodeJsonView {
    pub label: Seq<char>,
    pub token: Option<Seq<char>>,
    pub regex: Option<Seq<char>>,
    pub fnc: Option<Seq<char>>,
    pub exit_map: Seq<(Seq<char>, Seq<Seq<char>>)>,
}

/// One node as it stands in the persisted file.
pub struct NodeJson {
    label: String,
    token: Option<String>,
    regex: Option<String>,
    fnc: Option<String>,
    exit_map: Vec<(String, Vec<String>)>,
}

impl View for NodeJson {
    type V = NodeJsonView;

    closed spec fn view(&self) -> NodeJsonView {
        NodeJsonView {
            label: self.label@,
            token: self.token.deep_view(),
            regex: self.regex.deep_view(),
            fnc: self.fnc.deep_view(),
            exit_map: self.exit_map.deep_view(),
        }
    }
}

impl NodeJson {
    pub fn new() -> (r: NodeJson)
        ensures
            r@ == (NodeJsonView {
                label: Seq::<char>::empty(),
                token: None,
                regex: None,
                fnc: None,
                exit_map: Seq::<(Seq<char>, Seq<Seq<char>>)>::empty(),
            }),
    {
        let r = NodeJson {
            label: String::new(),
            token: None,
            regex: None,
            fnc: None,
            exit_map: Vec::new(),
        };
        proof {
            assert(r@.exit_map =~= Seq::<(Seq<char>, Seq<Seq<char>>)>::empty());
        }
        r
    }

    pub fn get_label(&self) -> (r: String)
        ensures
            r@ == self@.label,
    {
        self.label.clone()
    }

    pub fn set_label(&mut self, value: String)
        ensures
            final(self)@ == (NodeJsonView { label: value@, ..old(self)@ }),
    {
        self.label = value;
    }

    pub fn get_token(&self) -> (r: &Option<String>)
        ensures
            r.deep_view() == self@.token,
    {
        &self.token
    }

    pub fn set_token(&mut self, value: Option<String>)
        ensures
            final(self)@ == (NodeJsonView { token: value.deep_view(), ..old(self)@ }),
    {
        self.token = value;
    }

    pub fn get_regex(&self) -> (r: &Option<String>)
        ensures
            r.deep_view() == self@.regex,
    {
        &self.regex
    }

    pub fn set_regex(&mut self, value: Option<String>)
        ensures
            final(self)@ == (NodeJsonView { regex: value.deep_view(), ..old(self)@ }),
    {
        self.regex = value;
    }

    pub fn get_fnc(&self) -> (r: &Option<String>)
        ensures
            r.deep_view() == self@.fnc,
    {
        &self.fnc
    }

    pub fn set_fnc(&mut self, value: Option<String>)
        ensures
            final(self)@ == (NodeJsonView { fnc: value.deep_view(), ..old(self)@ }),
    {
        self.fnc = value;
    }

    pub fn get_exit_map(&self) -> (r: &Vec<(String, Vec<String>)>)
        ensures
            r.deep_view() == self@.exit_map,
    {
        &self.exit_map
    }

    /// Bind `exit_label` to the given entrance nodes, replacing an existing
    /// binding of the same label in place.
    pub fn insert_exit(&mut self, exit_label: &str, entrance_nodes: Vec<String>)
        ensures
            final(self)@ == (NodeJsonView {
                exit_map: alist_insert(
                    old(self)@.exit_map,
                    exit_label@,
                    entrance_nodes.deep_view(),
                ),
                ..old(self)@
            }),
    {
        let ghost m0 = self@.exit_map;
        let n = self.exit_map.len();
        let mut i: usize = 0;
        while i < n
            invariant
                i <= n,
                n == self.exit_map.len(),
                self@ == old(self)@,
                m0 == self@.exit_map,
                forall|j: int| 0 <= j < i ==> (#[trigger] self@.exit_map[j]).0 != exit_label@,
            decreases n - i,
        {
            if str_eq(self.exit_map[i].0.as_str(), exit_label) {
                proof {
                    lemma_alist_insert_found(m0, exit_label@, entrance_nodes.deep_view(), i as int);
                }
                let ghost pair = (exit_label@, entrance_nodes.deep_view());
                self.exit_map[i] = (exit_label.to_owned(), entrance_nodes);
                proof {
                    assert(final(self)@.exit_map =~= m0.update(i as int, pair));
                }
                return ;
            }
            i = i + 1;
        }
        proof {
            lemma_alist_insert_absent(m0, exit_label@, entrance_nodes.deep_view());
        }
        let ghost pair = (exit_label@, entrance_nodes.deep_view());
        self.exit_map.push((exit_label.to_owned(), entrance_nodes));
        proof {
            assert(final(self)@.exit_map =~= m0.push(pair));
        }
    }

    /// Append a binding as the last entry; used when spelling a node out in
    /// declared order.
    pub(crate) fn push_exit(&mut self, exit_label: String, entrance_nodes: Vec<String>)
        ensures
            final(self)@ == (NodeJsonView {
                exit_map: old(self)@.exit_map.push((exit_label@, entrance_nodes.deep_view())),
                ..old(self)@
            }),
    {
        let ghost pushed = (exit_label@, entrance_nodes.deep_view());
        self.exit_map.push((exit_label, entrance_nodes));
        proof {
            assert(final(self)@.exit_map =~= old(self)@.exit_map.push(pushed));
        }
    }
}

/// The model of a serialized diagram: the entry-point label and the nodes in
/// file order.
pub ghost struct DiagramJsonView {
    pub entry_point: Seq<char>,
    pub nodes: Seq<NodeJsonView>,
}

/// A diagram as it stands in the persisted file.
pub struct DiagramJson {
    entry_point: String,
    nodes: Vec<NodeJson>,
}

impl View for DiagramJson {
    type V = DiagramJsonView;

    closed spec fn view(&self) -> DiagramJsonView {
        DiagramJsonView {
            entry_point: self.entry_point@,
            nodes: self.nodes@.map_values(|n: NodeJson| n@),
        }
    }
}

impl DiagramJson {
    pub fn new() -> (r: DiagramJson)
        ensures
            r@.entry_point.len() == 0,
            r@.nodes.len() == 0,
    {
        let r = DiagramJson { entry_point: String::new(), nodes: Vec::new() };
        proof {
            assert(r@.nodes =~= Seq::<NodeJsonView>::empty());
        }
        r
    }

    pub fn get_entry_point(&self) -> (r: String)
        ensures
            r@ == self@.entry_point,
    {
        self.entry_point.clone()
    }

    pub fn set_entry_point(&mut self, value: String)
        ensures
            final(self)@ == (DiagramJsonView { entry_point: value@, ..old(self)@ }),
    {
        self.entry_point = value;
    }

    pub fn get_nodes(&self) -> (r: &Vec<NodeJson>)
        ensures
            r@.map_values(|n: NodeJson| n@) == self@.nodes,
    {
        &self.nodes
    }

    pub fn push_node(&mut self, node: NodeJson)
        ensures
            final(self)@ == (DiagramJsonView {
                nodes: old(self)@.nodes.push(node@),
                ..old(self)@
            }),
    {
        self.nodes.push(node);
        proof {
            assert(final(self)@.nodes =~= old(self)@.nodes.push(
                final(self)@.nodes[old(self)@.nodes.len() as int],
            ));
        }
    }
}

} // verus!
