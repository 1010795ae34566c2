//! The dispatch engine: token matching over the active candidate set, caret
//! advance, controller dispatch and end-of-line bookkeeping for one input
//! line.

use vstd::prelude::*;
use vstd::string::StrSliceExecFns;

use crate::diagram::{Controller, Diagram, DiagramView, Node, NodeView, ResponseOption, ShellError};
use crate::diagram_player::DiagramPlayer;
use crate::regexp::{regex_find_matches, regex_match_texts};
use crate::shell::{reset_response, RequestStruct, RequestView, ResponseStruct};

verus! {

/// A literal token matches iff the line carries exactly its characters at
/// the caret.
pub open spec fn literal_matches(line: Seq<char>, caret: int, token: Seq<char>) -> bool {
    &&& 0 <= caret
    &&& caret + token.len() <= line.len()
    &&& line.subrange(caret, caret + token.len()) == token
}

/// A regex candidate matches iff some characters remain and its pattern
/// finds at least one match in the remainder of the line.
pub open spec fn regex_matches_at(pattern: Seq<char>, line: Seq<char>, caret: int) -> bool {
    &&& 0 <= caret < line.len()
    &&& match regex_match_texts(pattern, line.subrange(caret, line.len() as int)) {
        Some(ms) => ms.len() > 0,
        None => false,
    }
}

/// The match texts a matching regex candidate hands to the request.
pub open spec fn regex_groups_at(pattern: Seq<char>, line: Seq<char>, caret: int) -> Seq<
    Seq<char>,
> {
    regex_match_texts(pattern, line.subrange(caret, line.len() as int)).unwrap()
}

/// The candidate labelled `label` is a literal node of `d` whose token
/// matches at the caret.
pub open spec fn literal_cand_matches<H>(
    d: DiagramView<H>,
    label: Seq<char>,
    line: Seq<char>,
    caret: int,
) -> bool {
    match d.find_node(label) {
        Some(n) => !n.regex_flag && literal_matches(line, caret, n.token),
        None => false,
    }
}

/// The candidate labelled `label` is a regex node of `d` whose pattern
/// matches the remainder.
pub open spec fn regex_cand_matches<H>(
    d: DiagramView<H>,
    label: Seq<char>,
    line: Seq<char>,
    caret: int,
) -> bool {
    match d.find_node(label) {
        Some(n) => n.regex_flag && regex_matches_at(n.token, line, caret),
        None => false,
    }
}

/// The token length of the node registered under `label`.
pub open spec fn cand_token_len<H>(d: DiagramView<H>, label: Seq<char>) -> nat {
    d.find_node(label)->Some_0.token.len()
}

/// Fold over the candidate list, left to right, keeping the first literal
/// match of maximal token length; `best`/`best_len` carry the leader so far.
pub open spec fn best_literal_from<H>(
    d: DiagramView<H>,
    cands: Seq<Seq<char>>,
    line: Seq<char>,
    caret: int,
    best: Option<Seq<char>>,
    best_len: nat,
) -> Option<Seq<char>>
    decreases cands.len(),
{
    if cands.len() == 0 {
        best
    } else if literal_cand_matches(d, cands[0], line, caret) && cand_token_len(d, cands[0])
        > best_len {
        best_literal_from(d, cands.skip(1), line, caret, Some(cands[0]), cand_token_len(d, cands[0]))
    } else {
        best_literal_from(d, cands.skip(1), line, caret, best, best_len)
    }
}

/// The winning literal candidate: longest token wins; equal lengths go to
/// the first declared.
pub open spec fn best_literal<H>(
    d: DiagramView<H>,
    cands: Seq<Seq<char>>,
    line: Seq<char>,
    caret: int,
) -> Option<Seq<char>> {
    best_literal_from(d, cands, line, caret, None, 0)
}

/// The first regex candidate, in declared order, whose pattern matches.
pub open spec fn first_regex<H>(
    d: DiagramView<H>,
    cands: Seq<Seq<char>>,
    line: Seq<char>,
    caret: int,
) -> Option<Seq<char>>
    decreases cands.len(),
{
    if cands.len() == 0 {
        None
    } else if regex_cand_matches(d, cands[0], line, caret) {
        Some(cands[0])
    } else {
        first_regex(d, cands.skip(1), line, caret)
    }
}

/// What one token step selects: a matching literal beats any regex match,
/// whatever the lengths.
pub open spec fn selected_candidate<H>(
    d: DiagramView<H>,
    cands: Seq<Seq<char>>,
    line: Seq<char>,
    caret: int,
) -> Option<Seq<char>> {
    if best_literal(d, cands, line, caret) is Some {
        best_literal(d, cands, line, caret)
    } else {
        first_regex(d, cands, line, caret)
    }
}

/// No candidate in the list matches at the caret.
pub open spec fn no_candidate_matches<H>(
    d: DiagramView<H>,
    cands: Seq<Seq<char>>,
    line: Seq<char>,
    caret: int,
) -> bool {
    selected_candidate(d, cands, line, caret) is None
}

/// The caret after consuming `tok_len` characters: one trailing space is
/// skipped as well when present.
pub open spec fn advanced_caret(line: Seq<char>, caret: int, tok_len: int) -> int {
    if caret + tok_len < line.len() && line[caret + tok_len] == ' ' {
        caret + tok_len + 1
    } else {
        caret + tok_len
    }
}

/// Where the player stands after the lazy entry move at line start.
pub open spec fn entered_label<H>(player_before: Seq<char>, d: DiagramView<H>) -> Seq<char> {
    if player_before.len() == 0 {
        d.entry_point
    } else {
        player_before
    }
}

/// The `#next` candidate list of the node the line starts from.
pub open spec fn first_candidates<H>(d: DiagramView<H>, start: Seq<char>) -> Option<
    Seq<Seq<char>>,
> {
    match d.find_node(start) {
        Some(nv) => nv.exit_lookup("#next"@),
        None => None,
    }
}

/// An `#else` node exists and its controller name is registered.
pub open spec fn else_controller_effective<H>(d: DiagramView<H>) -> bool {
    match d.find_node("#else"@) {
        Some(n) => d.contains_fn(n.fn_label),
        None => false,
    }
}

/// The configuration faults a pure line run can walk into, stated over
/// label views.
pub ghost enum PureError {
    MissingNode(Seq<char>),
    MissingExit(Seq<char>, Seq<char>),
    EmptyExit(Seq<char>, Seq<char>),
}

/// What one full line leaves behind when no controller interferes: the
/// player's final label and the final caret, or a configuration fault.
pub ghost enum PureOutcome {
    Finished(Seq<char>, int),
    Failed(PureError),
}

/// The runtime error that corresponds to a pure-model fault.
pub open spec fn error_matches(e: ShellError, pe: PureError) -> bool {
    match pe {
        PureError::MissingNode(l) => e matches ShellError::NodeNotFound(s) && s@ == l,
        PureError::MissingExit(n, x) => e matches ShellError::ExitNotFound(s1, s2) && s1@ == n
            && s2@ == x,
        PureError::EmptyExit(n, x) => e matches ShellError::EmptyExitList(s1, s2) && s1@ == n
            && s2@ == x,
    }
}

/// Where the player parks at the end of a line: at the registered
/// continuation if a `#newline` fired this line, else where it stands.
pub open spec fn finish_player(player: Seq<char>, pending: Option<Seq<char>>) -> Seq<char> {
    match pending {
        Some(resume) => resume,
        None => player,
    }
}

/// What a `#newline` declaration on the matched node registers: the next
/// line's resume label, or a configuration fault along the way.
pub open spec fn pure_newline_registration<H>(d: DiagramView<H>, nv: NodeView) -> Result<
    Option<Seq<char>>,
    PureError,
> {
    match nv.exit_lookup("#newline"@) {
        None => Ok(None),
        Some(tails) => if tails.len() == 0 {
            Err(PureError::EmptyExit(nv.label, "#newline"@))
        } else {
            match d.find_node(tails[0]) {
                None => Err(PureError::MissingNode(tails[0])),
                Some(tail) => match tail.exit_lookup("#next"@) {
                    None => Err(PureError::MissingExit(tail.label, "#next"@)),
                    Some(nexts) => if nexts.len() == 0 {
                        Err(PureError::EmptyExit(tail.label, "#next"@))
                    } else {
                        Ok(Some(nexts[0]))
                    },
                },
            }
        },
    }
}

/// The token loop of one line, run without controllers: each step selects a
/// candidate, advances the caret past its token and one trailing space,
/// registers any `#newline` continuation, and follows the matched node's
/// `#next` exit. A step that consumes nothing, or reaches the line's end,
/// finishes the line.
pub open spec fn pure_line_loop<H>(
    d: DiagramView<H>,
    line: Seq<char>,
    caret: int,
    cands: Seq<Seq<char>>,
    player: Seq<char>,
    pending: Option<Seq<char>>,
) -> PureOutcome
    decreases line.len() - caret,
{
    if caret >= line.len() {
        PureOutcome::Finished(finish_player(player, pending), caret)
    } else {
        match selected_candidate(d, cands, line, caret) {
            None => PureOutcome::Finished(finish_player(player, pending), caret),
            Some(label) => {
                let nv = d.find_node(label)->Some_0;
                let tok_len = if nv.regex_flag {
                    regex_groups_at(nv.token, line, caret)[0].len() as int
                } else {
                    nv.token.len() as int
                };
                let new_caret = advanced_caret(line, caret, tok_len);
                match pure_newline_registration(d, nv) {
                    Err(pe) => PureOutcome::Failed(pe),
                    Ok(reg) => {
                        let pending2 = if reg is Some {
                            reg
                        } else {
                            pending
                        };
                        let next_cands = match nv.exit_lookup("#next"@) {
                            Some(v) => v,
                            None => Seq::<Seq<char>>::empty(),
                        };
                        if new_caret <= caret {
                            PureOutcome::Finished(finish_player(label, pending2), line.len() as int)
                        } else if new_caret >= line.len() {
                            PureOutcome::Finished(finish_player(label, pending2), new_caret)
                        } else {
                            pure_line_loop(d, line, new_caret, next_cands, label, pending2)
                        }
                    },
                }
            },
        }
    }
}

/// One full line, run without controllers, from wherever the player
/// stands: enter at the entry point when out, resolve the starting `#next`
/// candidate list, then run the token loop.
pub open spec fn pure_line_run<H>(
    d: DiagramView<H>,
    player0: Seq<char>,
    line: Seq<char>,
    caret0: int,
) -> PureOutcome {
    let entered = entered_label(player0, d);
    match d.find_node(entered) {
        None => PureOutcome::Failed(PureError::MissingNode(entered)),
        Some(nv) => match nv.exit_lookup("#next"@) {
            None => PureOutcome::Failed(PureError::MissingExit(nv.label, "#next"@)),
            Some(cands) => pure_line_loop(d, line, caret0, cands, entered, None),
        },
    }
}

/// A first matching regex candidate is a regex node that matches.
proof fn lemma_first_regex_props<H>(
    d: DiagramView<H>,
    cands: Seq<Seq<char>>,
    line: Seq<char>,
    caret: int,
)
    ensures
        first_regex(d, cands, line, caret) matches Some(l) ==> regex_cand_matches(
            d,
            l,
            line,
            caret,
        ),
    decreases cands.len(),
{
    if cands.len() > 0 {
        if !regex_cand_matches(d, cands[0], line, caret) {
            lemma_first_regex_props(d, cands.skip(1), line, caret);
        }
    }
}

/// The accumulator fold keeps every guarantee of the leader it carries: the
/// result matches, is at least as long as the leader and as any matching
/// candidate in the list.
proof fn lemma_best_literal_from_props<H>(
    d: DiagramView<H>,
    cands: Seq<Seq<char>>,
    line: Seq<char>,
    caret: int,
    best: Option<Seq<char>>,
    best_len: nat,
)
    requires
        match best {
            Some(b) => literal_cand_matches(d, b, line, caret) && cand_token_len(d, b) == best_len
                && best_len > 0,
            None => best_len == 0,
        },
    ensures
        ({
            let r = best_literal_from(d, cands, line, caret, best, best_len);
            &&& (match r {
                Some(l) => literal_cand_matches(d, l, line, caret) && cand_token_len(d, l)
                    >= best_len && cand_token_len(d, l) > 0,
                None => best is None,
            })
            &&& forall|i: int|
                0 <= i < cands.len() && (#[trigger] literal_cand_matches(d, cands[i], line, caret))
                    && cand_token_len(d, cands[i]) > 0 ==> ((r is Some) && cand_token_len(
                    d,
                    r->Some_0,
                ) >= cand_token_len(d, cands[i]))
        }),
    decreases cands.len(),
{
    if cands.len() == 0 {
    } else {
        let c = cands[0];
        if literal_cand_matches(d, c, line, caret) && cand_token_len(d, c) > best_len {
            lemma_best_literal_from_props(
                d,
                cands.skip(1),
                line,
                caret,
                Some(c),
                cand_token_len(d, c),
            );
        } else {
            lemma_best_literal_from_props(d, cands.skip(1), line, caret, best, best_len);
        }
        assert forall|i: int|
            0 <= i < cands.len() && (#[trigger] literal_cand_matches(d, cands[i], line, caret))
                && cand_token_len(d, cands[i]) > 0 implies ((best_literal_from(
            d,
            cands,
            line,
            caret,
            best,
            best_len,
        ) is Some) && cand_token_len(
            d,
            best_literal_from(d, cands, line, caret, best, best_len)->Some_0,
        ) >= cand_token_len(d, cands[i])) by {
            if i > 0 {
                assert(cands.skip(1)[i - 1] == cands[i]);
            }
        }
    }
}

/// A leader whose length no later matching candidate exceeds stays the
/// winner of the fold.
proof fn lemma_best_literal_from_stays<H>(
    d: DiagramView<H>,
    cands: Seq<Seq<char>>,
    line: Seq<char>,
    caret: int,
    b: Seq<char>,
    blen: nat,
)
    requires
        forall|k: int|
            0 <= k < cands.len() && (#[trigger] literal_cand_matches(d, cands[k], line, caret))
                ==> cand_token_len(d, cands[k]) <= blen,
    ensures
        best_literal_from(d, cands, line, caret, Some(b), blen) == Some(b),
    decreases cands.len(),
{
    if cands.len() > 0 {
        assert forall|k: int|
            0 <= k < cands.skip(1).len() && (#[trigger] literal_cand_matches(
                d,
                cands.skip(1)[k],
                line,
                caret,
            )) implies cand_token_len(d, cands.skip(1)[k]) <= blen by {
            assert(cands.skip(1)[k] == cands[k + 1]);
        }
        lemma_best_literal_from_stays(d, cands.skip(1), line, caret, b, blen);
    }
}

/// The fold selects the first candidate that reaches the maximal matching
/// token length, as long as the leader so far is strictly shorter.
proof fn lemma_best_literal_from_first<H>(
    d: DiagramView<H>,
    cands: Seq<Seq<char>>,
    line: Seq<char>,
    caret: int,
    best: Option<Seq<char>>,
    best_len: nat,
    i: int,
    lim: nat,
)
    requires
        0 <= i < cands.len(),
        literal_cand_matches(d, cands[i], line, caret),
        cand_token_len(d, cands[i]) == lim,
        best_len < lim,
        forall|k: int|
            0 <= k < cands.len() && (#[trigger] literal_cand_matches(d, cands[k], line, caret))
                ==> cand_token_len(d, cands[k]) <= lim,
        forall|k: int|
            0 <= k < i && (#[trigger] literal_cand_matches(d, cands[k], line, caret))
                ==> cand_token_len(d, cands[k]) < lim,
    ensures
        best_literal_from(d, cands, line, caret, best, best_len) == Some(cands[i]),
    decreases cands.len(),
{
    let c = cands[0];
    assert forall|k: int|
        0 <= k < cands.skip(1).len() && (#[trigger] literal_cand_matches(
            d,
            cands.skip(1)[k],
            line,
            caret,
        )) implies cand_token_len(d, cands.skip(1)[k]) <= lim by {
        assert(cands.skip(1)[k] == cands[k + 1]);
    }
    if i == 0 {
        assert(literal_cand_matches(d, c, line, caret) && cand_token_len(d, c) > best_len);
        lemma_best_literal_from_stays(d, cands.skip(1), line, caret, c, lim);
    } else {
        assert(cands.skip(1)[i - 1] == cands[i]);
        assert forall|k: int|
            0 <= k < i - 1 && (#[trigger] literal_cand_matches(
                d,
                cands.skip(1)[k],
                line,
                caret,
            )) implies cand_token_len(d, cands.skip(1)[k]) < lim by {
            assert(cands.skip(1)[k] == cands[k + 1]);
        }
        if literal_cand_matches(d, c, line, caret) && cand_token_len(d, c) > best_len {
            assert(cand_token_len(d, c) < lim);
            lemma_best_literal_from_first(
                d,
                cands.skip(1),
                line,
                caret,
                Some(c),
                cand_token_len(d, c),
                i - 1,
                lim,
            );
        } else {
            lemma_best_literal_from_first(d, cands.skip(1), line, caret, best, best_len, i - 1, lim);
        }
    }
}

/// Equal-length tie-break: when no matching literal candidate carries a
/// longer token than `cands[i]`, and every earlier matching candidate
/// carries a strictly shorter one, the first-declared winner `cands[i]` is
/// selected.
pub proof fn lemma_first_declared_wins<H>(
    d: DiagramView<H>,
    cands: Seq<Seq<char>>,
    line: Seq<char>,
    caret: int,
    i: int,
)
    requires
        0 <= i < cands.len(),
        literal_cand_matches(d, cands[i], line, caret),
        cand_token_len(d, cands[i]) > 0,
        forall|k: int|
            0 <= k < cands.len() && (#[trigger] literal_cand_matches(d, cands[k], line, caret))
                ==> cand_token_len(d, cands[k]) <= cand_token_len(d, cands[i]),
        forall|k: int|
            0 <= k < i && (#[trigger] literal_cand_matches(d, cands[k], line, caret))
                ==> cand_token_len(d, cands[k]) < cand_token_len(d, cands[i]),
    ensures
        best_literal(d, cands, line, caret) == Some(cands[i]),
{
    lemma_best_literal_from_first(d, cands, line, caret, None, 0, i, cand_token_len(d, cands[i]));
}

/// Longest-literal-wins: whenever some literal candidate with a non-empty
/// token matches at the caret, the engine selects a matching literal whose
/// token is at least as long as that candidate's.
pub proof fn lemma_longest_literal_wins<H>(
    d: DiagramView<H>,
    cands: Seq<Seq<char>>,
    line: Seq<char>,
    caret: int,
    i: int,
)
    requires
        0 <= i < cands.len(),
        literal_cand_matches(d, cands[i], line, caret),
        cand_token_len(d, cands[i]) > 0,
    ensures
        best_literal(d, cands, line, caret) is Some,
        literal_cand_matches(d, best_literal(d, cands, line, caret)->Some_0, line, caret),
        cand_token_len(d, best_literal(d, cands, line, caret)->Some_0) >= cand_token_len(
            d,
            cands[i],
        ),
{
    lemma_best_literal_from_props(d, cands, line, caret, None, 0);
}

/// Literal-over-regex precedence: whenever some literal candidate with a
/// non-empty token matches, the step's selection is the literal winner — a
/// non-regex node — regardless of what any regex candidate would match.
pub proof fn lemma_literal_over_regex<H>(
    d: DiagramView<H>,
    cands: Seq<Seq<char>>,
    line: Seq<char>,
    caret: int,
    i: int,
)
    requires
        0 <= i < cands.len(),
        literal_cand_matches(d, cands[i], line, caret),
        cand_token_len(d, cands[i]) > 0,
    ensures
        selected_candidate(d, cands, line, caret) == best_literal(d, cands, line, caret),
        selected_candidate(d, cands, line, caret) is Some,
        !(d.find_node(selected_candidate(d, cands, line, caret)->Some_0)->Some_0.regex_flag),
{
    lemma_longest_literal_wins(d, cands, line, caret, i);
}

/// What one call of `next_node_label` hands back.
pub(crate) struct Selection {
    /// The winning literal candidate, if any literal matched.
    pub literal: Option<String>,
    /// The first matching regex candidate, if any matched.
    pub regex: Option<String>,
    /// The match texts of the selected regex candidate; empty otherwise.
    pub groups: Vec<String>,
}

/// The dispatch engine. It holds no state of its own: everything it works
/// on is handed in per line.
pub struct LineParser {}

impl LineParser {
    /// A literal node's token matches iff the line carries exactly its
    /// characters at the caret.
    pub(crate) fn starts_with_literal(node: &Node, req: &RequestStruct) -> (b: bool)
        requires
            req.wf(),
        ensures
            b == literal_matches(req@.line, req@.caret as int, node@.token),
    {
        let token = node.get_token();
        let tok_len = token.unicode_len();
        let caret = req.get_caret();
        let line_len = req.get_line_len();
        if tok_len > line_len - caret {
            return false;
        }
        let line = req.get_line();
        let ghost sub = req@.line.subrange(
            req@.caret as int,
            req@.caret as int + node@.token.len() as int,
        );
        let mut i: usize = 0;
        while i < tok_len
            invariant
                i <= tok_len,
                req.wf(),
                tok_len == node@.token.len(),
                caret == req@.caret,
                line_len == req@.line_len,
                caret + tok_len <= line_len,
                line@ == req@.line,
                token@ == node@.token,
                forall|j: int| 0 <= j < i ==> req@.line[caret + j] == node@.token[j],
            decreases tok_len - i,
        {
            if line.as_str().get_char(caret + i) != token.get_char(i) {
                proof {
                    if literal_matches(req@.line, req@.caret as int, node@.token) {
                        assert(sub[i as int] == req@.line[caret + i]);
                        assert(sub[i as int] == node@.token[i as int]);
                    }
                }
                return false;
            }
            i = i + 1;
        }
        proof {
            assert(sub =~= node@.token);
        }
        true
    }

    /// Whether the node's pattern matches the remainder of the line, and
    /// with which match texts.
    pub(crate) fn starts_with_reg(node: &Node, req: &RequestStruct) -> (r: (bool, Vec<String>))
        requires
            req.wf(),
        ensures
            r.0 == regex_matches_at(node@.token, req@.line, req@.caret as int),
            r.0 ==> r.1.deep_view() == regex_groups_at(node@.token, req@.line, req@.caret as int),
            r.0 ==> r.1@.len() > 0,
            !r.0 ==> r.1@.len() == 0,
            forall|i: int|
                0 <= i < r.1@.len() ==> (#[trigger] r.1@[i]@).len() <= req@.line_len - req@.caret,
    {
        let caret = req.get_caret();
        let line_len = req.get_line_len();
        if caret >= line_len {
            return (false, Vec::new());
        }
        let rem = req.get_line().as_str().substring_char(caret, line_len);
        proof {
            assert(rem@ == req@.line.subrange(req@.caret as int, req@.line.len() as int));
        }
        match regex_find_matches(node.get_token(), rem) {
            Some(ms) => {
                if ms.len() > 0 {
                    (true, ms)
                } else {
                    (false, Vec::new())
                }
            },
            None => (false, Vec::new()),
        }
    }

    /// One candidate search over the active exit list: the longest matching
    /// literal (first declared among equals), and the first matching regex
    /// candidate with its match texts. Candidates missing from the node
    /// table are skipped.
    pub(crate) fn next_node_label<H>(
        diagram: &Diagram<H>,
        req: &RequestStruct,
        current_exit_vec: &Vec<String>,
    ) -> (sel: Selection)
        requires
            req.wf(),
        ensures
            ({
                let d = diagram@;
                let cands = current_exit_vec.deep_view();
                let line = req@.line;
                let caret = req@.caret as int;
                &&& sel.literal.deep_view() == best_literal(d, cands, line, caret)
                &&& sel.regex.deep_view() == first_regex(d, cands, line, caret)
                &&& (match sel.regex {
                    Some(l) => {
                        &&& sel.groups.deep_view() == regex_groups_at(
                            d.find_node(l@)->Some_0.token,
                            line,
                            caret,
                        )
                        &&& sel.groups@.len() > 0
                    },
                    None => sel.groups@.len() == 0,
                })
                &&& forall|i: int|
                    0 <= i < sel.groups@.len() ==> (#[trigger] sel.groups@[i]@).len()
                        <= req@.line_len - req@.caret
            }),
    {
        let ghost d = diagram@;
        let ghost cands = current_exit_vec.deep_view();
        let ghost line = req@.line;
        let ghost caret = req@.caret as int;
        let n = current_exit_vec.len();
        let mut i: usize = 0;
        let mut best_label: Option<String> = None;
        let mut best_len: usize = 0;
        let mut re_label: Option<String> = None;
        let mut re_groups: Vec<String> = Vec::new();
        proof {
            assert(cands.skip(0) =~= cands);
        }
        while i < n
            invariant
                i <= n,
                n == current_exit_vec.len(),
                req.wf(),
                d == diagram@,
                cands == current_exit_vec.deep_view(),
                line == req@.line,
                caret == req@.caret as int,
                best_literal(d, cands, line, caret) == best_literal_from(
                    d,
                    cands.skip(i as int),
                    line,
                    caret,
                    best_label.deep_view(),
                    best_len as nat,
                ),
                match best_label {
                    Some(l) => literal_cand_matches(d, l@, line, caret) && cand_token_len(d, l@)
                        == best_len && best_len > 0,
                    None => best_len == 0,
                },
                match re_label {
                    Some(l) => {
                        &&& first_regex(d, cands, line, caret) == Some(l@)
                        &&& re_groups.deep_view() == regex_groups_at(
                            d.find_node(l@)->Some_0.token,
                            line,
                            caret,
                        )
                        &&& re_groups@.len() > 0
                    },
                    None => first_regex(d, cands, line, caret) == first_regex(
                        d,
                        cands.skip(i as int),
                        line,
                        caret,
                    ) && re_groups@.len() == 0,
                },
                forall|k: int|
                    0 <= k < re_groups@.len() ==> (#[trigger] re_groups@[k]@).len() <= req@.line_len
                        - req@.caret,
            decreases n - i,
        {
            let label: &String = &current_exit_vec[i];
            proof {
                assert(cands[i as int] == label@);
                assert(cands.skip(i as int).len() > 0);
                assert(cands.skip(i as int)[0] == cands[i as int]);
                assert(cands.skip(i as int).skip(1) =~= cands.skip(i as int + 1));
            }
            match diagram.get_node(label.as_str()) {
                Ok(node) => {
                    if node.is_regex() {
                        if re_label.is_none() {
                            let (matched, groups) = Self::starts_with_reg(node, req);
                            if matched {
                                re_label = Some(label.clone());
                                re_groups = groups;
                            }
                        }
                    } else {
                        if Self::starts_with_literal(node, req) {
                            let tok_len = node.get_token().unicode_len();
                            if tok_len > best_len {
                                best_len = tok_len;
                                best_label = Some(label.clone());
                            }
                        }
                    }
                },
                Err(_) => {},
            }
            i = i + 1;
        }
        proof {
            assert(cands.skip(n as int).len() == 0);
        }
        Selection { literal: best_label, regex: re_label, groups: re_groups }
    }

    /// Advance the caret past the matched literal token, skipping one
    /// trailing space when present.
    pub(crate) fn parse_literal(node: &Node, req: &mut RequestStruct)
        requires
            old(req).wf(),
            literal_matches(old(req)@.line, old(req)@.caret as int, node@.token),
        ensures
            final(req)@ == (RequestView {
                caret: advanced_caret(
                    old(req)@.line,
                    old(req)@.caret as int,
                    node@.token.len() as int,
                ) as nat,
                ..old(req)@
            }),
            final(req).wf(),
            old(req)@.caret <= final(req)@.caret,
    {
        let tok_len = node.get_token().unicode_len();
        Self::advance_past(req, tok_len);
    }

    /// Advance the caret past the regex match held in the request's first
    /// capture group, skipping one trailing space when present.
    pub(crate) fn parse_reg(req: &mut RequestStruct)
        requires
            old(req).wf(),
            old(req)@.groups.len() > 0,
            old(req)@.groups[0].len() <= old(req)@.line_len - old(req)@.caret,
        ensures
            final(req)@ == (RequestView {
                caret: advanced_caret(
                    old(req)@.line,
                    old(req)@.caret as int,
                    old(req)@.groups[0].len() as int,
                ) as nat,
                ..old(req)@
            }),
            final(req).wf(),
            old(req)@.caret <= final(req)@.caret,
    {
        let tok_len = req.get_groups()[0].as_str().unicode_len();
        Self::advance_past(req, tok_len);
    }

    /// The caret moves past `tok_len` characters, and one more when a space
    /// follows them.
    fn advance_past(req: &mut RequestStruct, tok_len: usize)
        requires
            old(req).wf(),
            old(req)@.caret + tok_len <= old(req)@.line_len,
        ensures
            final(req)@ == (RequestView {
                caret: advanced_caret(old(req)@.line, old(req)@.caret as int, tok_len as int) as nat,
                ..old(req)@
            }),
            final(req).wf(),
            old(req)@.caret <= final(req)@.caret,
    {
        let caret = req.get_caret();
        let line_len = req.get_line_len();
        let mut new_caret = caret + tok_len;
        if new_caret < line_len && req.get_line().as_str().get_char(new_caret) == ' ' {
            new_caret = new_caret + 1;
        }
        req.set_caret(new_caret);
    }

    /// Consume one full line: resolve the candidate set from the player's
    /// position (entering at the entry point when out), match one token per
    /// step, dispatch controllers, and after the last token fire the pending
    /// `#newline` controller and move the player to the registered
    /// continuation label, if one was registered this line.
    ///
    /// A matched step that consumes no characters ends the line. A raised
    /// control signal returns at once: the pending end-of-line controller
    /// does not fire and the player stays at the just-matched node.
    pub fn run_on_line<T, H: Controller<T>>(
        diagram_player: &mut DiagramPlayer,
        diagram: &Diagram<H>,
        t: &mut T,
        req: &mut RequestStruct,
        res: &mut ResponseStruct,
    ) -> (r: Result<(), ShellError>)
        requires
            old(req).wf(),
        ensures
            final(req).wf(),
            final(req)@.line == old(req)@.line,
            final(req)@.line_len == old(req)@.line_len,
            old(req)@.caret <= final(req)@.caret,
            old(req)@.caret >= old(req)@.line_len ==> ({
                let entered = entered_label(old(diagram_player)@, diagram@);
                &&& final(diagram_player)@ == entered
                &&& final(req)@ == old(req)@
                &&& final(res)@ == old(res)@
                &&& *final(t) == *old(t)
                &&& match diagram@.find_node(entered) {
                    None => r matches Err(e) && (e matches ShellError::NodeNotFound(l) && l@
                        == entered),
                    Some(nv) => if nv.exit_lookup("#next"@) is Some {
                        r is Ok
                    } else {
                        r matches Err(e) && (e matches ShellError::ExitNotFound(nl, dl) && nl@
                            == nv.label && dl@ == "#next"@)
                    },
                }
            }),
            (old(req)@.caret < old(req)@.line_len && (first_candidates(
                diagram@,
                entered_label(old(diagram_player)@, diagram@),
            ) is Some) && no_candidate_matches(
                diagram@,
                first_candidates(diagram@, entered_label(old(diagram_player)@, diagram@))->Some_0,
                old(req)@.line,
                old(req)@.caret as int,
            ) && !else_controller_effective(diagram@)) ==> ({
                &&& r is Ok
                &&& final(diagram_player)@ == entered_label(old(diagram_player)@, diagram@)
                &&& final(res)@ == reset_response()
                &&& final(req)@.caret == old(req)@.caret
                &&& final(req)@.groups.len() == 0
                &&& *final(t) == *old(t)
            }),
            (old(req)@.caret < old(req)@.line_len && (first_candidates(
                diagram@,
                entered_label(old(diagram_player)@, diagram@),
            ) is Some) && no_candidate_matches(
                diagram@,
                first_candidates(diagram@, entered_label(old(diagram_player)@, diagram@))->Some_0,
                old(req)@.line,
                old(req)@.caret as int,
            )) ==> ({
                &&& r is Ok
                &&& final(diagram_player)@ == entered_label(old(diagram_player)@, diagram@)
                &&& final(req)@.caret == old(req)@.caret
                &&& final(req)@.groups.len() == 0
            }),
            ({
                let entered = entered_label(old(diagram_player)@, diagram@);
                diagram@.find_node(entered) is None ==> (r matches Err(e) && (e
                    matches ShellError::NodeNotFound(l) && l@ == entered))
            }),
            ({
                let entered = entered_label(old(diagram_player)@, diagram@);
                match diagram@.find_node(entered) {
                    Some(nv) => nv.exit_lookup("#next"@) is None ==> (r matches Err(e) && (e
                        matches ShellError::ExitNotFound(nl, dl) && nl@ == nv.label && dl@
                        == "#next"@)),
                    None => true,
                }
            }),
            diagram@.fn_map.len() == 0 ==> ({
                let out = pure_line_run(
                    diagram@,
                    old(diagram_player)@,
                    old(req)@.line,
                    old(req)@.caret as int,
                );
                match out {
                    PureOutcome::Finished(p, c) => {
                        &&& r is Ok
                        &&& final(diagram_player)@ == p
                        &&& final(req)@.caret == c
                        &&& ((final(res)@.option matches ResponseOption::Nothing)
                            || final(res)@.option == old(res)@.option)
                    },
                    PureOutcome::Failed(pe) => r matches Err(e) && error_matches(e, pe),
                }
            }),
    {
        let ghost t0 = *t;
        let ghost line = old(req)@.line;
        let empty_exit_vec: Vec<String> = Vec::new();
        let mut current_newline_fn: Option<String> = None;
        let mut registered_next_head: Option<String> = None;

        diagram_player.enter_when_out(diagram);
        let ghost entered = diagram_player@;
        let current_label = diagram_player.get_current();
        let current_node = match diagram.get_node(current_label.as_str()) {
            Ok(n) => n,
            Err(e) => {
                proof {
                    assert(pure_line_run(diagram@, old(diagram_player)@, line, old(req)@.caret as int)
                        == PureOutcome::Failed(PureError::MissingNode(entered)));
                }
                return Err(e);
            },
        };
        let mut current_exit_vec: &Vec<String> = match current_node.get_exit_vec("#next") {
            Ok(v) => v,
            Err(e) => {
                proof {
                    assert(pure_line_run(diagram@, old(diagram_player)@, line, old(req)@.caret as int)
                        == PureOutcome::Failed(
                        PureError::MissingExit(current_node@.label, "#next"@),
                    ));
                }
                return Err(e);
            },
        };
        let ghost p2 = old(req)@.caret < old(req)@.line_len && (first_candidates(diagram@, entered)
            is Some) && no_candidate_matches(
            diagram@,
            first_candidates(diagram@, entered)->Some_0,
            line,
            old(req)@.caret as int,
        ) && !else_controller_effective(diagram@);
        let ghost p3 = old(req)@.caret < old(req)@.line_len && (first_candidates(diagram@, entered)
            is Some) && no_candidate_matches(
            diagram@,
            first_candidates(diagram@, entered)->Some_0,
            line,
            old(req)@.caret as int,
        );
        let ghost nofn = diagram@.fn_map.len() == 0;
        let ghost pure_out = pure_line_run(
            diagram@,
            old(diagram_player)@,
            line,
            old(req)@.caret as int,
        );
        proof {
            assert(pure_out == pure_line_loop(
                diagram@,
                line,
                old(req)@.caret as int,
                current_exit_vec.deep_view(),
                entered,
                None::<Seq<char>>,
            ));
        }

        let ghost mut steps: int = 0;
        let mut broke: bool = false;
        while !broke && req.get_caret() < req.get_line_len()
            invariant
                req.wf(),
                req@.line == line,
                line == old(req)@.line,
                req@.line_len == old(req)@.line_len,
                old(req)@.caret <= req@.caret,
                first_candidates(diagram@, entered) is Some,
                entered == entered_label(old(diagram_player)@, diagram@),
                empty_exit_vec@.len() == 0,
                t0 == *old(t),
                p2 == (old(req)@.caret < old(req)@.line_len && (first_candidates(diagram@, entered)
                    is Some) && no_candidate_matches(
                    diagram@,
                    first_candidates(diagram@, entered)->Some_0,
                    line,
                    old(req)@.caret as int,
                ) && !else_controller_effective(diagram@)),
                steps >= 0,
                steps == 0 && !broke ==> ({
                    &&& req@ == old(req)@
                    &&& res@ == old(res)@
                    &&& *t == t0
                    &&& diagram_player@ == entered
                    &&& current_newline_fn is None
                    &&& registered_next_head is None
                    &&& current_exit_vec.deep_view() == first_candidates(
                        diagram@,
                        entered,
                    )->Some_0
                }),
                steps >= 1 ==> !p2,
                p3 == (old(req)@.caret < old(req)@.line_len && (first_candidates(diagram@, entered)
                    is Some) && no_candidate_matches(
                    diagram@,
                    first_candidates(diagram@, entered)->Some_0,
                    line,
                    old(req)@.caret as int,
                )),
                steps >= 1 ==> !p3,
                nofn ==> ((res@.option matches ResponseOption::Nothing)
                    || res@.option == old(res)@.option),
                steps >= 1 ==> old(req)@.caret < old(req)@.line_len,
                broke ==> old(req)@.caret < old(req)@.line_len,
                broke ==> (p2 ==> ({
                    &&& res@ == reset_response()
                    &&& req@.caret == old(req)@.caret
                    &&& req@.groups.len() == 0
                    &&& *t == t0
                    &&& diagram_player@ == entered
                    &&& current_newline_fn is None
                    &&& registered_next_head is None
                })),
                broke ==> (p3 ==> ({
                    &&& req@.caret == old(req)@.caret
                    &&& req@.groups.len() == 0
                    &&& diagram_player@ == entered
                    &&& current_newline_fn is None
                    &&& registered_next_head is None
                })),
                nofn == (diagram@.fn_map.len() == 0),
                pure_out == pure_line_run(
                    diagram@,
                    old(diagram_player)@,
                    line,
                    old(req)@.caret as int,
                ),
                nofn && !broke ==> ({
                    &&& pure_out == pure_line_loop(
                        diagram@,
                        line,
                        req@.caret as int,
                        current_exit_vec.deep_view(),
                        diagram_player@,
                        registered_next_head.deep_view(),
                    )
                    &&& current_newline_fn is None
                }),
                nofn && broke ==> ({
                    &&& pure_out == PureOutcome::Finished(
                        finish_player(diagram_player@, registered_next_head.deep_view()),
                        req@.caret as int,
                    )
                    &&& current_newline_fn is None
                }),
            decreases (if broke {
                0int
            } else {
                1int
            }), req@.line_len - req@.caret,
        {
            let caret_at_start = req.get_caret();
            let ghost cands_iter = current_exit_vec.deep_view();
            let ghost player_at_start = diagram_player@;
            let ghost pending_at_start = registered_next_head.deep_view();
            proof {
                reveal_strlit("#next");
            }
            res.reset();
            req.clear_groups();
            let sel = Self::next_node_label(diagram, req, current_exit_vec);
            proof {
                lemma_best_literal_from_props(
                    diagram@,
                    cands_iter,
                    req@.line,
                    req@.caret as int,
                    None,
                    0,
                );
                lemma_first_regex_props(diagram@, cands_iter, req@.line, req@.caret as int);
            }
            if sel.literal.is_none() && sel.regex.is_none() {
                // no candidate matched: run `#else` and discard the rest of
                // the line; the end-of-line bookkeeping below still applies
                Self::parse_line_else(diagram, t, req, res);
                broke = true;
                proof {
                    if nofn {
                        assert(!else_controller_effective(diagram@));
                        assert(best_literal(diagram@, cands_iter, line, caret_at_start as int)
                            is None);
                        assert(first_regex(diagram@, cands_iter, line, caret_at_start as int)
                            is None);
                        assert(selected_candidate(
                            diagram@,
                            cands_iter,
                            line,
                            caret_at_start as int,
                        ) is None);
                        assert(pure_line_loop(
                            diagram@,
                            line,
                            caret_at_start as int,
                            cands_iter,
                            player_at_start,
                            pending_at_start,
                        ) == PureOutcome::Finished(
                            finish_player(player_at_start, pending_at_start),
                            caret_at_start as int,
                        ));
                    }
                }
            } else {
                proof {
                    if steps == 0 {
                        assert(req@.caret == old(req)@.caret);
                        assert(cands_iter == first_candidates(diagram@, entered)->Some_0);
                        if sel.literal is Some {
                            assert(sel.literal.deep_view() is Some);
                            assert(best_literal(diagram@, cands_iter, line, old(req)@.caret as int)
                                is Some);
                        } else {
                            assert(sel.regex is Some);
                            assert(sel.regex.deep_view() is Some);
                            assert(first_regex(diagram@, cands_iter, line, old(req)@.caret as int)
                                is Some);
                        }
                        assert(selected_candidate(
                            diagram@,
                            cands_iter,
                            line,
                            old(req)@.caret as int,
                        ) is Some);
                        assert(entered == entered_label(old(diagram_player)@, diagram@));
                        assert(!p2);
                        assert(!p3);
                    }
                    steps = steps + 1;
                }
                let sel_literal = sel.literal;
                let sel_regex = sel.regex;
                let sel_groups = sel.groups;
                let best_node_label: String;
                if sel_literal.is_some() {
                    let lit = sel_literal.unwrap();
                    let node0 = match diagram.get_node(lit.as_str()) {
                        Ok(n) => n,
                        Err(e) => {
                            proof {
                                assert(false);
                            }
                            return Err(e);
                        },
                    };
                    proof {
                        assert(best_literal(diagram@, cands_iter, line, caret_at_start as int)
                            == Some(lit@));
                        assert(selected_candidate(
                            diagram@,
                            cands_iter,
                            line,
                            caret_at_start as int,
                        ) == Some(lit@));
                    }
                    Self::parse_literal(node0, req);
                    best_node_label = lit;
                } else {
                    let rex = sel_regex.unwrap();
                    proof {
                        assert(best_literal(diagram@, cands_iter, line, caret_at_start as int)
                            is None);
                        assert(first_regex(diagram@, cands_iter, line, caret_at_start as int)
                            == Some(rex@));
                        assert(selected_candidate(
                            diagram@,
                            cands_iter,
                            line,
                            caret_at_start as int,
                        ) == Some(rex@));
                    }
                    req.set_groups(sel_groups);
                    Self::parse_reg(req);
                    best_node_label = rex;
                }
                let ghost sel_label = best_node_label@;
                let ghost nv_g = diagram@.find_node(sel_label)->Some_0;
                let ghost tok_len_g: int = if nv_g.regex_flag {
                    regex_groups_at(nv_g.token, line, caret_at_start as int)[0].len() as int
                } else {
                    nv_g.token.len() as int
                };
                let ghost caret_after_tok = req@.caret as int;
                proof {
                    assert(caret_after_tok == advanced_caret(
                        line,
                        caret_at_start as int,
                        tok_len_g,
                    ));
                }
                // preset the scratch caret and the default exit, and move
                // the player to the matched node
                res.set_caret(req.get_caret());
                res.forward("#next");
                diagram_player.set_current(best_node_label.as_str());
                let node = match diagram.get_node(best_node_label.as_str()) {
                    Ok(n) => n,
                    Err(e) => {
                        proof {
                            assert(false);
                        }
                        return Err(e);
                    },
                };
                // dispatch the matched node's controller where one is named
                // and registered; an unregistered name is a no-op
                if !node.get_fn_label().is_empty() {
                    match diagram.get_fn(node.get_fn_label()) {
                        Ok(f) => f.on_token(t, req, res),
                        Err(_) => {},
                    }
                }
                // a `#newline` declaration registers — without running — the
                // tail node's controller for the end of this line, and the
                // tail's first `#next` entry as the next line's start
                if let Some(tails) = node.find_exit("#newline") {
                    if tails.len() == 0 {
                        proof {
                            if nofn {
                                assert(pure_newline_registration(diagram@, node@) == Err::<
                                    Option<Seq<char>>,
                                    PureError,
                                >(PureError::EmptyExit(node@.label, "#newline"@)));
                                assert(pure_out == PureOutcome::Failed(
                                    PureError::EmptyExit(node@.label, "#newline"@),
                                ));
                            }
                        }
                        return Err(
                            ShellError::EmptyExitList(
                                node.get_label().to_owned(),
                                "#newline".to_owned(),
                            ),
                        );
                    }
                    let tail_label = &tails[0];
                    let tail_node = match diagram.get_node(tail_label.as_str()) {
                        Ok(n) => n,
                        Err(e) => {
                            proof {
                                if nofn {
                                    assert(tail_label@ == tails.deep_view()[0]);
                                    assert(pure_newline_registration(diagram@, node@) == Err::<
                                        Option<Seq<char>>,
                                        PureError,
                                    >(PureError::MissingNode(tail_label@)));
                                    assert(pure_out == PureOutcome::Failed(
                                        PureError::MissingNode(tail_label@),
                                    ));
                                }
                            }
                            return Err(e);
                        },
                    };
                    if diagram.contains_fn(tail_node.get_fn_label()) {
                        current_newline_fn = Some(tail_node.get_fn_label().to_owned());
                    } else {
                        current_newline_fn = None;
                    }
                    let nexts = match tail_node.get_exit_vec("#next") {
                        Ok(v) => v,
                        Err(e) => {
                            proof {
                                if nofn {
                                    assert(pure_newline_registration(diagram@, node@) == Err::<
                                        Option<Seq<char>>,
                                        PureError,
                                    >(PureError::MissingExit(tail_node@.label, "#next"@)));
                                    assert(pure_out == PureOutcome::Failed(
                                        PureError::MissingExit(tail_node@.label, "#next"@),
                                    ));
                                }
                            }
                            return Err(e);
                        },
                    };
                    if nexts.len() == 0 {
                        proof {
                            if nofn {
                                assert(pure_newline_registration(diagram@, node@) == Err::<
                                    Option<Seq<char>>,
                                    PureError,
                                >(PureError::EmptyExit(tail_node@.label, "#next"@)));
                                assert(pure_out == PureOutcome::Failed(
                                    PureError::EmptyExit(tail_node@.label, "#next"@),
                                ));
                            }
                        }
                        return Err(
                            ShellError::EmptyExitList(
                                tail_node.get_label().to_owned(),
                                "#next".to_owned(),
                            ),
                        );
                    }
                    registered_next_head = Some(nexts[0].clone());
                    proof {
                        if nofn {
                            assert(nexts.deep_view()[0] == nexts@[0]@);
                        }
                    }
                }
                proof {
                    if nofn {
                        match pure_newline_registration(diagram@, node@) {
                            Ok(reg) => {
                                assert(registered_next_head.deep_view() == (if reg is Some {
                                    reg
                                } else {
                                    pending_at_start
                                }));
                            },
                            Err(_) => {
                                assert(false);
                            },
                        }
                    }
                }
                // the controller's exit label picks the next candidate set;
                // an empty or undeclared label stalls further matching
                let chosen_exit = res.get_exit_label().clone();
                if chosen_exit.as_str().is_empty() {
                    current_exit_vec = &empty_exit_vec;
                    proof {
                        assert(current_exit_vec.deep_view() =~= Seq::<Seq<char>>::empty());
                    }
                } else {
                    match node.find_exit(chosen_exit.as_str()) {
                        Some(v) => {
                            current_exit_vec = v;
                        },
                        None => {
                            current_exit_vec = &empty_exit_vec;
                            proof {
                                assert(current_exit_vec.deep_view() =~= Seq::<Seq<char>>::empty());
                            }
                        },
                    }
                }
                proof {
                    if nofn {
                        assert(chosen_exit@ == "#next"@);
                        assert(current_exit_vec.deep_view() == (match node@.exit_lookup(
                            "#next"@,
                        ) {
                            Some(v) => v,
                            None => Seq::<Seq<char>>::empty(),
                        }));
                    }
                }
                res.set_caret(0);
                res.forward("#next");
                if res.is_done_line() {
                    let len = req.get_line_len();
                    req.set_caret(len);
                }
                // a step that consumed no characters would repeat forever:
                // end the line instead
                if req.get_caret() <= caret_at_start {
                    let len = req.get_line_len();
                    req.set_caret(len);
                }
                proof {
                    if nofn {
                        let pending2 = registered_next_head.deep_view();
                        let s_pure = pure_line_loop(
                            diagram@,
                            line,
                            caret_at_start as int,
                            cands_iter,
                            player_at_start,
                            pending_at_start,
                        );
                        assert(node@ == nv_g);
                        if caret_after_tok <= caret_at_start as int {
                            assert(req@.caret == req@.line_len);
                            assert(s_pure == PureOutcome::Finished(
                                finish_player(sel_label, pending2),
                                line.len() as int,
                            ));
                            assert(pure_line_loop(
                                diagram@,
                                line,
                                req@.caret as int,
                                current_exit_vec.deep_view(),
                                diagram_player@,
                                pending2,
                            ) == s_pure);
                        } else if caret_after_tok >= line.len() {
                            assert(req@.caret as int == caret_after_tok);
                            assert(s_pure == PureOutcome::Finished(
                                finish_player(sel_label, pending2),
                                caret_after_tok,
                            ));
                            assert(pure_line_loop(
                                diagram@,
                                line,
                                req@.caret as int,
                                current_exit_vec.deep_view(),
                                diagram_player@,
                                pending2,
                            ) == s_pure);
                        } else {
                            assert(req@.caret as int == caret_after_tok);
                            assert(s_pure == pure_line_loop(
                                diagram@,
                                line,
                                caret_after_tok,
                                current_exit_vec.deep_view(),
                                sel_label,
                                pending2,
                            ));
                        }
                    }
                }
                let raised = match res.get_option() {
                    ResponseOption::Nothing => false,
                    _ => true,
                };
                if raised {
                    // the pending end-of-line controller is not invoked and
                    // the player stays at the just-matched node
                    return Ok(());
                }
            }
        }
        proof {
            if nofn && !broke {
                assert(req@.caret >= req@.line_len);
                assert(pure_out == PureOutcome::Finished(
                    finish_player(diagram_player@, registered_next_head.deep_view()),
                    req@.caret as int,
                ));
            }
        }
        // the line is exhausted: fire the registered end-of-line controller
        // and park the player at the registered continuation
        if current_newline_fn.is_some() {
            let fn_label = current_newline_fn.unwrap();
            match diagram.get_fn(fn_label.as_str()) {
                Ok(f) => f.on_token(t, req, res),
                Err(_) => {},
            }
        }
        if registered_next_head.is_some() {
            let next_head = registered_next_head.unwrap();
            diagram_player.set_current(next_head.as_str());
        }
        Ok(())
    }

    /// When nothing matched: dispatch the `#else` node's controller if one
    /// is configured and registered; otherwise change nothing.
    pub fn parse_line_else<T, H: Controller<T>>(
        diagram: &Diagram<H>,
        t: &mut T,
        req: &RequestStruct,
        res: &mut ResponseStruct,
    )
        ensures
            !else_controller_effective(diagram@) ==> *final(t) == *old(t) && final(res)@ == old(
                res,
            )@,
    {
        match diagram.get_node("#else") {
            Ok(node) => {
                match diagram.get_fn(node.get_fn_label()) {
                    Ok(f) => f.on_token(t, req, res),
                    Err(_) => {},
                }
            },
            Err(_) => {},
        }
    }
}

} // verus!
