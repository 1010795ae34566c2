//! The graph model: nodes, the node table, the controller table and the
//! entry point, together with the control-signal protocol shared with the
//! host loop.

use vstd::prelude::*;

use crate::alist::{
    alist_contains, alist_distinct_keys, alist_insert, alist_lookup, lemma_alist_insert_absent,
    lemma_alist_insert_distinct, lemma_alist_insert_found, lemma_alist_lookup_first,
    lemma_alist_lookup_none, lemma_first_matching_index,
};
use crate::diagram_json::{DiagramJson, DiagramJsonView, NodeJson, NodeJsonView};
use crate::shell::{RequestStruct, ResponseStruct};
use crate::text::{clone_exit_map, str_eq};

verus! {

/// A handler invoked when its node is matched. Hosts implement this once per
/// handler; a handler may redirect the exit label, end line scanning, or
/// raise a control signal through the response.
pub trait Controller<T> {
    fn on_token(&self, t: &mut T, req: &RequestStruct, res: &mut ResponseStruct);
}

/// The control signal a controller hands back to the host loop.
#[derive(Debug, Clone, PartialEq, Eq)]
pub enum ResponseOption {
    Nothing,
    Quits,
    Reloads(String),
    Saves(String),
}

/// A broken graph configuration, surfaced where the engine walks into it.
#[derive(Debug, Clone, PartialEq, Eq)]
pub enum ShellError {
    /// The named node is missing from the node table.
    NodeNotFound(String),
    /// The named controller is missing from the controller table.
    FnNotFound(String),
    /// The node (first field) has no exit list under the label (second field).
    ExitNotFound(String, String),
    /// The node (first field) has an empty exit list under the label (second
    /// field) where one entry is required.
    EmptyExitList(String, String),
}

/// The mathematical model of a node.
pub ghost struct NodeView {
    pub label: Seq<char>,
    pub token: Seq<char>,
    pub fn_label: Seq<char>,
    pub regex_flag: bool,
    pub exit_map: Seq<(Seq<char>, Seq<Seq<char>>)>,
}

impl NodeView {
    pub open spec fn exit_lookup(self, door: Seq<char>) -> Option<Seq<Seq<char>>> {
        alist_lookup(self.exit_map, door)
    }

    pub open spec fn has_exit(self, door: Seq<char>) -> bool {
        alist_contains(self.exit_map, door)
    }

    pub open spec fn wf(self) -> bool {
        alist_distinct_keys(self.exit_map)
    }
}

/// One vertex of the diagram: a literal token or a regex pattern, the name of
/// the controller to run when it is matched, and its named exit edges. Exit
/// lists keep their declared order; among equal keys the first declared wins.
pub struct Node {
    label: String,
    token: String,
    fn_label: String,
    regex_flag: bool,
    exit_map: Vec<(String, Vec<String>)>,
}

impl View for Node {
    type V = NodeView;

    closed spec fn view(&self) -> NodeView {
        NodeView {
            label: self.label@,
            token: self.token@,
            fn_label: self.fn_label@,
            regex_flag: self.regex_flag,
            exit_map: self.exit_map.deep_view(),
        }
    }
}

impl Node {
    pub fn get_label(&self) -> (r: &str)
        ensures
            r@ == self@.label,
    {
        self.label.as_str()
    }

    pub fn get_token(&self) -> (r: &str)
        ensures
            r@ == self@.token,
    {
        self.token.as_str()
    }

    pub fn get_fn_label(&self) -> (r: &str)
        ensures
            r@ == self@.fn_label,
    {
        self.fn_label.as_str()
    }

    pub fn is_regex(&self) -> (r: bool)
        ensures
            r == self@.regex_flag,
    {
        self.regex_flag
    }

    /// The raw exit table, for inspection.
    pub fn get_exit_map(&self) -> (r: &Vec<(String, Vec<String>)>)
        ensures
            r.deep_view() == self@.exit_map,
    {
        &self.exit_map
    }

    /// The first exit list declared under `door_label`, if any.
    pub fn find_exit(&self, door_label: &str) -> (r: Option<&Vec<String>>)
        ensures
            match r {
                Some(v) => self@.exit_lookup(door_label@) == Some(v.deep_view()),
                None => self@.exit_lookup(door_label@) is None,
            },
    {
        let n = self.exit_map.len();
        let mut i: usize = 0;
        while i < n
            invariant
                i <= n,
                n == self.exit_map.len(),
                forall|j: int| 0 <= j < i ==> (#[trigger] self@.exit_map[j]).0 != door_label@,
            decreases n - i,
        {
            if str_eq(self.exit_map[i].0.as_str(), door_label) {
                proof {
                    lemma_alist_lookup_first(self@.exit_map, door_label@, i as int);
                }
                return Some(&self.exit_map[i].1);
            }
            i = i + 1;
        }
        proof {
            lemma_alist_lookup_none(self@.exit_map, door_label@);
        }
        None
    }

    pub fn contains_exit(&self, name: &str) -> (r: bool)
        ensures
            r == self@.has_exit(name@),
    {
        self.find_exit(name).is_some()
    }

    /// The exit list under `door_label`; a missing door is a configuration
    /// error.
    pub fn get_exit_vec(&self, door_label: &str) -> (r: Result<&Vec<String>, ShellError>)
        ensures
            match r {
                Ok(v) => self@.exit_lookup(door_label@) == Some(v.deep_view()),
                Err(e) => {
                    &&& self@.exit_lookup(door_label@) is None
                    &&& e matches ShellError::ExitNotFound(n, d) && n@ == self@.label && d@
                        == door_label@
                },
            },
    {
        match self.find_exit(door_label) {
            Some(v) => Ok(v),
            None => Err(ShellError::ExitNotFound(self.label.clone(), door_label.to_owned())),
        }
    }
}

/// The mathematical model of a diagram: the entry-point label, the node
/// table and the names under which controllers are registered, all in
/// declared order.
pub ghost struct DiagramView<H> {
    pub entry_point: Seq<char>,
    pub nodes: Seq<(Seq<char>, NodeView)>,
    pub fn_map: Seq<(Seq<char>, H)>,
}

impl<H> DiagramView<H> {
    pub open spec fn find_node(self, label: Seq<char>) -> Option<NodeView> {
        alist_lookup(self.nodes, label)
    }

    pub open spec fn contains_node(self, label: Seq<char>) -> bool {
        alist_contains(self.nodes, label)
    }

    pub open spec fn find_fn(self, name: Seq<char>) -> Option<H> {
        alist_lookup(self.fn_map, name)
    }

    pub open spec fn contains_fn(self, name: Seq<char>) -> bool {
        alist_contains(self.fn_map, name)
    }

    /// Node labels are unique, controller names are unique, and each node
    /// table entry is keyed by the label the node itself carries.
    pub open spec fn wf(self) -> bool {
        &&& alist_distinct_keys(self.nodes)
        &&& alist_distinct_keys(self.fn_map)
        &&& forall|i: int|
            0 <= i < self.nodes.len() ==> (#[trigger] self.nodes[i]).1.label == self.nodes[i].0
    }
}

/// One diagram per session: the node table, the controller table and the
/// entry point. Built once at startup; nodes and entry point are wholly
/// replaced by a reload, never mutated by the parse loop.
pub struct Diagram<H> {
    entry_point: String,
    node_map: Vec<(String, Node)>,
    fn_map: Vec<(String, H)>,
}

impl<H> View for Diagram<H> {
    type V = DiagramView<H>;

    closed spec fn view(&self) -> DiagramView<H> {
        DiagramView {
            entry_point: self.entry_point@,
            nodes: self.node_map@.map_values(|p: (String, Node)| (p.0@, p.1@)),
            fn_map: self.fn_map@.map_values(|p: (String, H)| (p.0@, p.1)),
        }
    }
}

impl<H> Diagram<H> {
    pub fn new() -> (d: Diagram<H>)
        ensures
            d@.entry_point.len() == 0,
            d@.nodes.len() == 0,
            d@.fn_map.len() == 0,
            d@.wf(),
    {
        Diagram { entry_point: String::new(), node_map: Vec::new(), fn_map: Vec::new() }
    }

    /// The raw node table, for inspection.
    pub fn get_node_map(&self) -> (r: &Vec<(String, Node)>)
        ensures
            r@.len() == self@.nodes.len(),
            forall|i: int|
                0 <= i < r@.len() ==> ((#[trigger] r@[i]).0@, r@[i].1@) == self@.nodes[i],
    {
        &self.node_map
    }

    /// Drop the nodes and the entry point, keeping registered controllers.
    pub fn clear(&mut self)
        ensures
            final(self)@.entry_point.len() == 0,
            final(self)@.nodes.len() == 0,
            final(self)@.fn_map == old(self)@.fn_map,
            old(self)@.wf() ==> final(self)@.wf(),
    {
        self.entry_point = String::new();
        self.node_map.clear();
        proof {
            assert(final(self)@.nodes =~= Seq::<(Seq<char>, NodeView)>::empty());
        }
    }

    pub fn get_entry_point(&self) -> (r: String)
        ensures
            r@ == self@.entry_point,
    {
        self.entry_point.clone()
    }

    pub fn set_entry_point(&mut self, value: String)
        ensures
            final(self)@ == (DiagramView { entry_point: value@, ..old(self)@ }),
    {
        self.entry_point = value;
    }

    /// The node registered under `node_label`; a missing node is a
    /// configuration error.
    pub fn get_node(&self, node_label: &str) -> (r: Result<&Node, ShellError>)
        ensures
            match r {
                Ok(n) => self@.find_node(node_label@) == Some(n@),
                Err(e) => {
                    &&& self@.find_node(node_label@) is None
                    &&& e matches ShellError::NodeNotFound(l) && l@ == node_label@
                },
            },
    {
        let n = self.node_map.len();
        let mut i: usize = 0;
        while i < n
            invariant
                i <= n,
                n == self.node_map.len(),
                forall|j: int| 0 <= j < i ==> (#[trigger] self@.nodes[j]).0 != node_label@,
            decreases n - i,
        {
            if str_eq(self.node_map[i].0.as_str(), node_label) {
                proof {
                    lemma_alist_lookup_first(self@.nodes, node_label@, i as int);
                }
                return Ok(&self.node_map[i].1);
            }
            i = i + 1;
        }
        proof {
            lemma_alist_lookup_none(self@.nodes, node_label@);
        }
        Err(ShellError::NodeNotFound(node_label.to_owned()))
    }

    pub fn contains_node(&self, node_label: &str) -> (r: bool)
        ensures
            r == self@.contains_node(node_label@),
    {
        self.get_node(node_label).is_ok()
    }

    /// The controller registered under `name`; a missing controller is a
    /// configuration error.
    pub fn get_fn(&self, name: &str) -> (r: Result<&H, ShellError>)
        ensures
            match r {
                Ok(f) => self@.find_fn(name@) == Some(*f),
                Err(e) => {
                    &&& self@.find_fn(name@) is None
                    &&& e matches ShellError::FnNotFound(l) && l@ == name@
                },
            },
    {
        let n = self.fn_map.len();
        let mut i: usize = 0;
        while i < n
            invariant
                i <= n,
                n == self.fn_map.len(),
                forall|j: int| 0 <= j < i ==> (#[trigger] self@.fn_map[j]).0 != name@,
            decreases n - i,
        {
            if str_eq(self.fn_map[i].0.as_str(), name) {
                proof {
                    lemma_alist_lookup_first(self@.fn_map, name@, i as int);
                }
                return Ok(&self.fn_map[i].1);
            }
            i = i + 1;
        }
        proof {
            lemma_alist_lookup_none(self@.fn_map, name@);
        }
        Err(ShellError::FnNotFound(name.to_owned()))
    }

    pub fn contains_fn(&self, name: &str) -> (r: bool)
        ensures
            r == self@.contains_fn(name@),
    {
        self.get_fn(name).is_ok()
    }

    /// Register a controller under `name`, replacing any controller already
    /// registered under it.
    pub fn insert_fn(&mut self, name: &str, fn2: H)
        ensures
            final(self)@ == (DiagramView {
                fn_map: alist_insert(old(self)@.fn_map, name@, fn2),
                ..old(self)@
            }),
            old(self)@.wf() ==> final(self)@.wf(),
    {
        proof {
            if old(self)@.wf() {
                lemma_alist_insert_distinct(old(self)@.fn_map, name@, fn2);
            }
        }
        let ghost m0 = self@.fn_map;
        let n = self.fn_map.len();
        let mut i: usize = 0;
        while i < n
            invariant
                i <= n,
                n == self.fn_map.len(),
                self@ == old(self)@,
                m0 == self@.fn_map,
                forall|j: int| 0 <= j < i ==> (#[trigger] self@.fn_map[j]).0 != name@,
            decreases n - i,
        {
            if str_eq(self.fn_map[i].0.as_str(), name) {
                proof {
                    lemma_alist_insert_found(m0, name@, fn2, i as int);
                    if old(self)@.wf() {
                        lemma_alist_insert_distinct(old(self)@.fn_map, name@, fn2);
                    }
                }
                self.fn_map[i] = (name.to_owned(), fn2);
                proof {
                    assert(final(self)@.fn_map =~= m0.update(i as int, (name@, fn2)));
                    assert(final(self)@.nodes =~= old(self)@.nodes);
                }
                return ;
            }
            i = i + 1;
        }
        proof {
            lemma_alist_insert_absent(m0, name@, fn2);
            if old(self)@.wf() {
                lemma_alist_insert_distinct(old(self)@.fn_map, name@, fn2);
            }
        }
        self.fn_map.push((name.to_owned(), fn2));
        proof {
            assert(final(self)@.fn_map =~= m0.push((name@, fn2)));
            assert(final(self)@.nodes =~= old(self)@.nodes);
        }
    }

    fn insert_node_raw(&mut self, label2: &str, node: Node)
        requires
            node@.label == label2@,
        ensures
            final(self)@ == (DiagramView {
                nodes: alist_insert(old(self)@.nodes, label2@, node@),
                ..old(self)@
            }),
    {
        let ghost m0 = self@.nodes;
        let n = self.node_map.len();
        let mut i: usize = 0;
        while i < n
            invariant
                i <= n,
                n == self.node_map.len(),
                self@ == old(self)@,
                m0 == self@.nodes,
                forall|j: int| 0 <= j < i ==> (#[trigger] self@.nodes[j]).0 != label2@,
            decreases n - i,
        {
            if str_eq(self.node_map[i].0.as_str(), label2) {
                proof {
                    lemma_alist_insert_found(m0, label2@, node@, i as int);
                }
                self.node_map[i] = (label2.to_owned(), node);
                proof {
                    assert(final(self)@.nodes =~= m0.update(i as int, (label2@, node@)));
                    assert(final(self)@.fn_map =~= old(self)@.fn_map);
                }
                return ;
            }
            i = i + 1;
        }
        proof {
            lemma_alist_insert_absent(m0, label2@, node@);
        }
        self.node_map.push((label2.to_owned(), node));
        proof {
            assert(final(self)@.nodes =~= m0.push((label2@, node@)));
            assert(final(self)@.fn_map =~= old(self)@.fn_map);
        }
    }

    /// Register a literal-token node under `label2`, replacing any node
    /// already registered under it.
    pub fn insert_node(
        &mut self,
        label2: &str,
        token2: String,
        fn_label2: String,
        exit_map2: Vec<(String, Vec<String>)>,
    )
        ensures
            final(self)@ == (DiagramView {
                nodes: alist_insert(
                    old(self)@.nodes,
                    label2@,
                    NodeView {
                        label: label2@,
                        token: token2@,
                        fn_label: fn_label2@,
                        regex_flag: false,
                        exit_map: exit_map2.deep_view(),
                    },
                ),
                ..old(self)@
            }),
            old(self)@.wf() ==> final(self)@.wf(),
    {
        proof {
            lemma_insert_node_wf(old(self)@, label2@);
        }
        self.insert_node_raw(
            label2,
            Node {
                label: label2.to_owned(),
                token: token2,
                fn_label: fn_label2,
                regex_flag: false,
                exit_map: exit_map2,
            },
        );
    }

    /// Register a regex node under `label2`, replacing any node already
    /// registered under it.
    pub fn insert_node_reg(
        &mut self,
        label: &str,
        token2: String,
        fn_label2: String,
        exit_map2: Vec<(String, Vec<String>)>,
    )
        ensures
            final(self)@ == (DiagramView {
                nodes: alist_insert(
                    old(self)@.nodes,
                    label@,
                    NodeView {
                        label: label@,
                        token: token2@,
                        fn_label: fn_label2@,
                        regex_flag: true,
                        exit_map: exit_map2.deep_view(),
                    },
                ),
                ..old(self)@
            }),
            old(self)@.wf() ==> final(self)@.wf(),
    {
        proof {
            lemma_insert_node_wf(old(self)@, label@);
        }
        self.insert_node_raw(
            label,
            Node {
                label: label.to_owned(),
                token: token2,
                fn_label: fn_label2,
                regex_flag: true,
                exit_map: exit_map2,
            },
        );
    }

    /// Register a pass-through node (no token to parse) under `label`,
    /// replacing any node already registered under it.
    pub fn insert_node_single(
        &mut self,
        label: &str,
        fn_label2: String,
        exit_map2: Vec<(String, Vec<String>)>,
    )
        ensures
            final(self)@ == (DiagramView {
                nodes: alist_insert(
                    old(self)@.nodes,
                    label@,
                    NodeView {
                        label: label@,
                        token: Seq::<char>::empty(),
                        fn_label: fn_label2@,
                        regex_flag: false,
                        exit_map: exit_map2.deep_view(),
                    },
                ),
                ..old(self)@
            }),
            old(self)@.wf() ==> final(self)@.wf(),
    {
        proof {
            lemma_insert_node_wf(old(self)@, label@);
        }
        self.insert_node_raw(
            label,
            Node {
                label: label.to_owned(),
                token: String::new(),
                fn_label: fn_label2,
                regex_flag: false,
                exit_map: exit_map2,
            },
        );
    }

    /// Spell the current graph out as its persisted model: the entry point
    /// and every node in table order.
    pub fn to_model(&self) -> (m: DiagramJson)
        ensures
            m@ == diagram_to_model(self@),
    {
        let mut m = DiagramJson::new();
        m.set_entry_point(self.get_entry_point());
        let n = self.node_map.len();
        let mut i: usize = 0;
        while i < n
            invariant
                i <= n,
                n == self.node_map.len(),
                m@.entry_point == self@.entry_point,
                m@.nodes == diagram_to_model(self@).nodes.take(i as int),
            decreases n - i,
        {
            let key = &self.node_map[i].0;
            let node = &self.node_map[i].1;
            let mut nj = NodeJson::new();
            nj.set_label(key.clone());
            if node.is_regex() {
                nj.set_regex(Some(node.get_token().to_owned()));
            } else if !node.get_token().is_empty() {
                nj.set_token(Some(node.get_token().to_owned()));
            }
            if !node.get_fn_label().is_empty() {
                nj.set_fnc(Some(node.get_fn_label().to_owned()));
            }
            let ghost nj_base = nj@;
            let em = node.get_exit_map();
            let k = em.len();
            let mut j: usize = 0;
            proof {
                assert(node@.exit_map.take(0) =~= nj_base.exit_map);
            }
            while j < k
                invariant
                    j <= k,
                    k == em@.len(),
                    em.deep_view() == node@.exit_map,
                    nj@ == (NodeJsonView {
                        exit_map: node@.exit_map.take(j as int),
                        ..nj_base
                    }),
                decreases k - j,
            {
                nj.push_exit(em[j].0.clone(), crate::text::clone_string_vec(&em[j].1));
                proof {
                    assert(em.deep_view()[j as int] == (em@[j as int].0@, em@[j as int].1.deep_view()));
                    assert(node@.exit_map.take(j + 1) =~= node@.exit_map.take(j as int).push(
                        node@.exit_map[j as int],
                    ));
                }
                j = j + 1;
            }
            proof {
                assert(node@.exit_map.take(k as int) =~= node@.exit_map);
            }
            let ghost njv = nj@;
            m.push_node(nj);
            proof {
                assert(self@.nodes[i as int] == (key@, node@));
                assert(njv == node_to_model(key@, node@));
                assert(diagram_to_model(self@).nodes[i as int] == node_to_model(key@, node@));
                assert(diagram_to_model(self@).nodes.take(i + 1) =~= diagram_to_model(
                    self@,
                ).nodes.take(i as int).push(node_to_model(key@, node@)));
            }
            i = i + 1;
        }
        proof {
            assert(diagram_to_model(self@).nodes.take(n as int) =~= diagram_to_model(self@).nodes);
        }
        m
    }

    /// Replace the nodes and the entry point with the model's content,
    /// keeping the registered controllers. The table is rebuilt from
    /// scratch, so a model always loads whole.
    pub fn apply_model(&mut self, model: &DiagramJson)
        ensures
            final(self)@.entry_point == model@.entry_point,
            final(self)@.nodes == apply_nodes(
                Seq::<(Seq<char>, NodeView)>::empty(),
                model@.nodes,
            ),
            final(self)@.fn_map == old(self)@.fn_map,
            old(self)@.wf() ==> final(self)@.wf(),
    {
        self.clear();
        self.set_entry_point(model.get_entry_point());
        let njs = model.get_nodes();
        let n = njs.len();
        let mut i: usize = 0;
        proof {
            assert(self@.nodes =~= apply_nodes(
                Seq::<(Seq<char>, NodeView)>::empty(),
                model@.nodes.take(0),
            ));
        }
        while i < n
            invariant
                i <= n,
                n == njs@.len(),
                njs@.map_values(|x: NodeJson| x@) == model@.nodes,
                self@.entry_point == model@.entry_point,
                self@.nodes == apply_nodes(
                    Seq::<(Seq<char>, NodeView)>::empty(),
                    model@.nodes.take(i as int),
                ),
                self@.fn_map == old(self)@.fn_map,
                old(self)@.wf() ==> self@.wf(),
            decreases n - i,
        {
            let nj = &njs[i];
            let exits = clone_exit_map(nj.get_exit_map());
            let fnl = match nj.get_fnc() {
                Some(f) => f.clone(),
                None => String::new(),
            };
            let lab = nj.get_label();
            let ghost njv = nj@;
            proof {
                assert(model@.nodes[i as int] == njv);
            }
            match nj.get_token() {
                Some(tok) => {
                    let tokc = tok.clone();
                    self.insert_node(lab.as_str(), tokc, fnl, exits);
                },
                None => {
                    match nj.get_regex() {
                        Some(rx) => {
                            let rxc = rx.clone();
                            self.insert_node_reg(lab.as_str(), rxc, fnl, exits);
                        },
                        None => {
                            self.insert_node_single(lab.as_str(), fnl, exits);
                        },
                    }
                },
            }
            proof {
                assert(self@.nodes =~= alist_insert(
                    apply_nodes(
                        Seq::<(Seq<char>, NodeView)>::empty(),
                        model@.nodes.take(i as int),
                    ),
                    njv.label,
                    node_of_model(njv),
                ));
                assert(model@.nodes.take(i + 1) =~= model@.nodes.take(i as int).push(njv));
                lemma_apply_nodes_push(
                    Seq::<(Seq<char>, NodeView)>::empty(),
                    model@.nodes.take(i as int),
                    njv,
                );
            }
            i = i + 1;
        }
        proof {
            assert(model@.nodes.take(n as int) =~= model@.nodes);
        }
    }
}

/// How one node of the table is spelled in the persisted model: a regex
/// pattern goes to the `regex` field, a non-empty literal token to the
/// `token` field, and empty names are omitted.
pub open spec fn node_to_model(key: Seq<char>, n: NodeView) -> NodeJsonView {
    NodeJsonView {
        label: key,
        token: if n.regex_flag || n.token.len() == 0 {
            None
        } else {
            Some(n.token)
        },
        regex: if n.regex_flag {
            Some(n.token)
        } else {
            None
        },
        fnc: if n.fn_label.len() == 0 {
            None
        } else {
            Some(n.fn_label)
        },
        exit_map: n.exit_map,
    }
}

/// The persisted model of a whole diagram: the entry point and the nodes in
/// table order.
pub open spec fn diagram_to_model<H>(d: DiagramView<H>) -> DiagramJsonView {
    DiagramJsonView {
        entry_point: d.entry_point,
        nodes: d.nodes.map_values(|p: (Seq<char>, NodeView)| node_to_model(p.0, p.1)),
    }
}

/// The node a model entry loads back to: a `token` field makes a literal
/// node, otherwise a `regex` field makes a regex node, and neither makes a
/// pass-through node.
pub open spec fn node_of_model(nj: NodeJsonView) -> NodeView {
    NodeView {
        label: nj.label,
        token: if nj.token is Some {
            nj.token->Some_0
        } else if nj.regex is Some {
            nj.regex->Some_0
        } else {
            Seq::<char>::empty()
        },
        fn_label: match nj.fnc {
            Some(f) => f,
            None => Seq::<char>::empty(),
        },
        regex_flag: nj.token is None && nj.regex is Some,
        exit_map: nj.exit_map,
    }
}

/// Loading model entries in file order, each replacing any earlier node of
/// the same label.
pub open spec fn apply_nodes(
    nodes: Seq<(Seq<char>, NodeView)>,
    njs: Seq<NodeJsonView>,
) -> Seq<(Seq<char>, NodeView)>
    decreases njs.len(),
{
    if njs.len() == 0 {
        nodes
    } else {
        apply_nodes(alist_insert(nodes, njs[0].label, node_of_model(njs[0])), njs.skip(1))
    }
}

proof fn lemma_apply_nodes_push(
    nodes: Seq<(Seq<char>, NodeView)>,
    njs: Seq<NodeJsonView>,
    x: NodeJsonView,
)
    ensures
        apply_nodes(nodes, njs.push(x)) == alist_insert(
            apply_nodes(nodes, njs),
            x.label,
            node_of_model(x),
        ),
    decreases njs.len(),
{
    if njs.len() == 0 {
        assert(njs.push(x)[0] == x);
        assert(njs.push(x).skip(1) =~= Seq::<NodeJsonView>::empty());
        assert(apply_nodes(nodes, njs.push(x)) == apply_nodes(
            alist_insert(nodes, x.label, node_of_model(x)),
            njs.push(x).skip(1),
        ));
        assert(apply_nodes(nodes, njs) == nodes);
    } else {
        assert(njs.push(x)[0] == njs[0]);
        assert(njs.push(x).skip(1) =~= njs.skip(1).push(x));
        lemma_apply_nodes_push(
            alist_insert(nodes, njs[0].label, node_of_model(njs[0])),
            njs.skip(1),
            x,
        );
    }
}

/// Spelling a node out and loading it back changes nothing.
proof fn lemma_node_model_round_trip(key: Seq<char>, n: NodeView)
    requires
        n.label == key,
    ensures
        node_of_model(node_to_model(key, n)) == n,
{
    let m = node_to_model(key, n);
    let back = node_of_model(m);
    assert(back.label == n.label);
    if n.regex_flag {
        assert(m.token is None && m.regex == Some(n.token));
        assert(back.token == n.token && back.regex_flag);
    } else if n.token.len() == 0 {
        assert(m.token is None && m.regex is None);
        assert(back.token =~= n.token);
        assert(!back.regex_flag);
    } else {
        assert(m.token == Some(n.token) && m.regex is None);
        assert(back.token == n.token && !back.regex_flag);
    }
    if n.fn_label.len() == 0 {
        assert(back.fn_label =~= n.fn_label);
    } else {
        assert(back.fn_label == n.fn_label);
    }
    assert(back.exit_map == n.exit_map);
}

proof fn lemma_apply_nodes_rebuild(
    acc: Seq<(Seq<char>, NodeView)>,
    rest: Seq<(Seq<char>, NodeView)>,
)
    requires
        alist_distinct_keys(acc + rest),
        forall|i: int| 0 <= i < rest.len() ==> (#[trigger] rest[i]).1.label == rest[i].0,
    ensures
        apply_nodes(acc, rest.map_values(|p: (Seq<char>, NodeView)| node_to_model(p.0, p.1))) == acc
            + rest,
    decreases rest.len(),
{
    let ms = rest.map_values(|p: (Seq<char>, NodeView)| node_to_model(p.0, p.1));
    if rest.len() == 0 {
        assert(acc + rest =~= acc);
    } else {
        assert(ms[0] == node_to_model(rest[0].0, rest[0].1));
        lemma_node_model_round_trip(rest[0].0, rest[0].1);
        assert forall|j: int| 0 <= j < acc.len() implies (#[trigger] acc[j]).0 != rest[0].0 by {
            assert((acc + rest)[j] == acc[j]);
            assert((acc + rest)[acc.len() as int] == rest[0]);
        }
        lemma_alist_insert_absent(acc, rest[0].0, rest[0].1);
        assert(ms.skip(1) =~= rest.skip(1).map_values(
            |p: (Seq<char>, NodeView)| node_to_model(p.0, p.1),
        ));
        assert(acc.push(rest[0]) + rest.skip(1) =~= acc + rest);
        lemma_apply_nodes_rebuild(acc.push(rest[0]), rest.skip(1));
    }
}

/// Round-trip persistence: spelling a well-formed diagram out as its model
/// and loading that model back reproduces the entry point and the node
/// table exactly — labels, tokens, regex flags, controller bindings, and
/// exit lists in declared order.
pub proof fn lemma_model_round_trip<H>(d: DiagramView<H>)
    requires
        d.wf(),
    ensures
        diagram_to_model(d).entry_point == d.entry_point,
        apply_nodes(Seq::<(Seq<char>, NodeView)>::empty(), diagram_to_model(d).nodes) == d.nodes,
{
    assert(Seq::<(Seq<char>, NodeView)>::empty() + d.nodes =~= d.nodes);
    lemma_apply_nodes_rebuild(Seq::<(Seq<char>, NodeView)>::empty(), d.nodes);
}

/// Inserting a node keyed by its own label preserves diagram
/// well-formedness.
proof fn lemma_insert_node_wf<H>(d: DiagramView<H>, label: Seq<char>)
    ensures
        forall|nv: NodeView|
            d.wf() && nv.label == label ==> (DiagramView {
                nodes: alist_insert(d.nodes, label, nv),
                ..d
            }).wf(),
{
    assert forall|nv: NodeView|
        d.wf() && nv.label == label implies (DiagramView {
        nodes: alist_insert(d.nodes, label, nv),
        ..d
    }).wf() by {
        lemma_alist_insert_distinct(d.nodes, label, nv);
        if exists|i: int| 0 <= i < d.nodes.len() && (#[trigger] d.nodes[i]).0 == label {
            let w = choose|i: int| 0 <= i < d.nodes.len() && (#[trigger] d.nodes[i]).0 == label;
            lemma_first_matching_index(d.nodes, label, w);
            let i = choose|i: int|
                0 <= i < d.nodes.len() && (#[trigger] d.nodes[i]).0 == label && forall|j: int|
                    0 <= j < i ==> (#[trigger] d.nodes[j]).0 != label;
            lemma_alist_insert_found(d.nodes, label, nv, i);
        } else {
            assert(forall|j: int| 0 <= j < d.nodes.len() ==> (#[trigger] d.nodes[j]).0 != label);
            lemma_alist_insert_absent(d.nodes, label, nv);
        }
    }
}

} // verus!
