//! The tree of nodes that is rendered, and what rendering it does.

use vstd::prelude::*;
use crate::error::{in_context, traced, Error, ErrorModel};
use crate::filters::standard::{filter_apply, Filter, FilterModel};
use crate::model::compare::{val_eq, value_eq};
use crate::model::val::{render_text, Val};
use crate::model::value::{render_value_to, Value};
use crate::model::view::ValueView;
use crate::runtime::context::{Runtime, RuntimeModel};
use crate::runtime::expression::{eval, expr_text, exprs_view, ExprModel, Expression};
use crate::runtime::stack::with_global;
use crate::tags::condition::{cond_eval, cond_text, CondModel, Condition};
use crate::text::{blank_text, is_blank_text, join_texts, joined, texts_view};

verus! {

/// A node of the tree as mathematical data.
pub enum NodeModel {
    /// Literal text.
    Text(Seq<char>),
    /// An expression with its filters, whose value is written out.
    Output(ExprModel, Seq<FilterModel>),
    /// A name, and an expression with its filters whose value the name is
    /// bound to.
    Assign(Seq<char>, ExprModel, Seq<FilterModel>),
    /// `if` and `unless`.
    Conditional {
        tag_name: Seq<char>,
        condition: CondModel,
        /// What the condition has to give for the first body to be
        /// rendered: `true` for `if`, `false` for `unless`.
        mode: bool,
        if_true: Seq<NodeModel>,
        if_false: Option<Seq<NodeModel>>,
    },
    /// `case`.
    Case {
        target: ExprModel,
        blank: bool,
        /// The branches: the values of each `when`, and its body.
        cases: Seq<(Seq<ExprModel>, Seq<NodeModel>)>,
        else_block: Option<Seq<NodeModel>>,
    },
}

/// What rendering does: what it writes, the runtime it leaves, and the
/// error that stopped it, if one did. What was written before an error
/// stays written.
pub struct Effect {
    pub out: Seq<char>,
    pub runtime: RuntimeModel,
    pub error: Option<ErrorModel>,
}

/// The effect that writes nothing and changes nothing.
pub open spec fn no_effect(rt: RuntimeModel) -> Effect {
    Effect { out: Seq::empty(), runtime: rt, error: None }
}

/// The effect of failing at once.
pub open spec fn failure(rt: RuntimeModel, e: ErrorModel) -> Effect {
    Effect { out: Seq::empty(), runtime: rt, error: Some(e) }
}

/// The effect with `tag` added to the trace of its error, if it has one.
pub open spec fn with_trace(effect: Effect, tag: Seq<char>) -> Effect {
    match effect.error {
        Some(e) => Effect { error: Some(traced(e, tag)), ..effect },
        None => effect,
    }
}

/// The effect with a key and a value added to the context of its error, if
/// it has one.
pub open spec fn with_context(effect: Effect, key: Seq<char>, value: Seq<char>) -> Effect {
    match effect.error {
        Some(e) => Effect { error: Some(in_context(e, key, value)), ..effect },
        None => effect,
    }
}

/// What the filters from position `from` on make of `v`, one after another.
pub open spec fn filters_run(
    filters: Seq<FilterModel>,
    from: int,
    v: Val,
    rt: RuntimeModel,
) -> core::result::Result<Val, ErrorModel>
    decreases filters.len() - from,
{
    if from < 0 || from >= filters.len() {
        Ok(v)
    } else {
        match filter_apply(filters[from], v, rt) {
            Ok(next) => filters_run(filters, from + 1, next, rt),
            Err(e) => Err(e),
        }
    }
}

/// The value of an expression after its filters, applied from left to
/// right.
pub open spec fn chain_eval(
    entry: ExprModel,
    filters: Seq<FilterModel>,
    rt: RuntimeModel,
) -> core::result::Result<Val, ErrorModel> {
    match eval(entry, rt.stack, rt.strict) {
        Ok(v) => filters_run(filters, 0, v, rt),
        Err(e) => Err(e),
    }
}

/// Whether one of the values from position `from` on is equal to `value`.
/// The values are looked at in their order, up to the first that is equal.
pub open spec fn when_matches(
    args: Seq<ExprModel>,
    from: int,
    value: Val,
    rt: RuntimeModel,
) -> core::result::Result<bool, ErrorModel>
    decreases args.len() - from,
{
    if from < 0 || from >= args.len() {
        Ok(false)
    } else {
        match eval(args[from], rt.stack, rt.strict) {
            Err(e) => Err(e),
            Ok(v) => if val_eq(v, value) {
                Ok(true)
            } else {
                when_matches(args, from + 1, value, rt)
            },
        }
    }
}

/// The trace of `if` and `unless`.
pub open spec fn if_trace(condition: CondModel) -> Seq<char> {
    "{% if "@ + cond_text(condition) + " %}"@
}

/// The trace of `case`.
pub open spec fn case_trace(target: ExprModel) -> Seq<char> {
    "{% case "@ + expr_text(target) + " %}"@
}

/// The expressions as they are written in a trace.
pub open spec fn exprs_texts(args: Seq<ExprModel>) -> Seq<Seq<char>> {
    Seq::new(args.len(), |i: int| expr_text(args[i]))
}

/// The trace of `when`.
pub open spec fn when_trace(args: Seq<ExprModel>) -> Seq<char> {
    "{% when "@ + joined(exprs_texts(args), " or "@) + " %}"@
}

/// The trace of `else`.
pub open spec fn else_trace() -> Seq<char> {
    "{{% else %}}"@
}

/// What rendering a node does.
pub open spec fn node_effect(n: NodeModel, rt: RuntimeModel) -> Effect
    decreases n, 2nat, 0nat,
{
    match n {
        NodeModel::Text(t) => Effect { out: t, runtime: rt, error: None },
        NodeModel::Output(entry, filters) => match chain_eval(entry, filters, rt) {
            Ok(v) => Effect { out: render_text(v), runtime: rt, error: None },
            Err(e) => failure(rt, e),
        },
        NodeModel::Assign(name, entry, filters) => match chain_eval(entry, filters, rt) {
            Ok(v) => Effect {
                out: Seq::empty(),
                runtime: RuntimeModel { stack: with_global(rt.stack, name, v), ..rt },
                error: None,
            },
            Err(e) => failure(rt, e),
        },
        NodeModel::Conditional { tag_name, condition, mode, if_true, if_false } => match cond_eval(
            condition,
            rt,
        ) {
            Err(e) => failure(rt, traced(e, if_trace(condition))),
            Ok(b) => if b == mode {
                with_trace(nodes_run(if_true, 0, Seq::empty(), rt), if_trace(condition))
            } else {
                match if_false {
                    Some(body) => with_trace(
                        with_trace(nodes_run(body, 0, Seq::empty(), rt), else_trace()),
                        if_trace(condition),
                    ),
                    None => no_effect(rt),
                }
            },
        },
        NodeModel::Case { target, blank, cases, else_block } => match eval(
            target,
            rt.stack,
            rt.strict,
        ) {
            Err(e) => failure(rt, e),
            Ok(value) => case_run(n, 0, value, rt),
        },
    }
}

/// What rendering the nodes from position `from` on does, after `out` was
/// written: the nodes are rendered in their order, up to the first that
/// fails.
pub open spec fn nodes_run(nodes: Seq<NodeModel>, from: int, out: Seq<char>, rt: RuntimeModel) -> Effect
    decreases nodes, 0nat, nodes.len() - from,
{
    if from < 0 || from >= nodes.len() {
        Effect { out, runtime: rt, error: None }
    } else {
        let first = node_effect(nodes[from], rt);
        if first.error is Some {
            Effect { out: out + first.out, runtime: first.runtime, error: first.error }
        } else {
            nodes_run(nodes, from + 1, out + first.out, first.runtime)
        }
    }
}

/// What rendering a `case` does once its target has the value `value`,
/// from the branch at position `from` on: the first branch with a value
/// equal to `value` is rendered, or the `else` body where there is none.
pub open spec fn case_run(n: NodeModel, from: int, value: Val, rt: RuntimeModel) -> Effect
    decreases n, 1nat, (if n is Case { n->cases.len() - from } else { 0 }),
{
    match n {
        NodeModel::Case { target, blank, cases, else_block } => {
            if from < 0 || from >= cases.len() {
                match else_block {
                    Some(body) => with_context(
                        with_trace(
                            with_trace(nodes_run(body, 0, Seq::empty(), rt), else_trace()),
                            case_trace(target),
                        ),
                        expr_text(target),
                        render_text(value),
                    ),
                    None => no_effect(rt),
                }
            } else {
                match when_matches(cases[from].0, 0, value, rt) {
                    Err(e) => failure(rt, e),
                    Ok(true) => with_context(
                        with_trace(
                            with_trace(
                                nodes_run(cases[from].1, 0, Seq::empty(), rt),
                                when_trace(cases[from].0),
                            ),
                            case_trace(target),
                        ),
                        expr_text(target),
                        render_text(value),
                    ),
                    Ok(false) => case_run(n, from + 1, value, rt),
                }
            }
        },
        _ => no_effect(rt),
    }
}

/// One step of rendering nodes: the node at `from` is rendered, and the
/// nodes after it are if it did not fail.
pub proof fn lemma_nodes_step(nodes: Seq<NodeModel>, from: int, out: Seq<char>, rt: RuntimeModel)
    requires
        0 <= from < nodes.len(),
    ensures
        node_effect(nodes[from], rt).error is Some ==> nodes_run(nodes, from, out, rt) == (Effect {
            out: out + node_effect(nodes[from], rt).out,
            runtime: node_effect(nodes[from], rt).runtime,
            error: node_effect(nodes[from], rt).error,
        }),
        node_effect(nodes[from], rt).error is None ==> nodes_run(nodes, from, out, rt)
            == nodes_run(
            nodes,
            from + 1,
            out + node_effect(nodes[from], rt).out,
            node_effect(nodes[from], rt).runtime,
        ),
{
}

/// Past the last node nothing more is rendered.
pub proof fn lemma_nodes_done(nodes: Seq<NodeModel>, out: Seq<char>, rt: RuntimeModel)
    ensures
        nodes_run(nodes, nodes.len() as int, out, rt) == (Effect { out, runtime: rt, error: None }),
{
}

/// Whether a node is blank: text of nothing but whitespace, an
/// assignment, or a `case` marked so. Other nodes are not.
pub open spec fn node_blank(n: NodeModel) -> bool {
    match n {
        NodeModel::Text(t) => is_blank_text(t),
        NodeModel::Assign(_, _, _) => true,
        NodeModel::Case { blank, .. } => blank,
        _ => false,
    }
}

/// Whether a node is literal text.
pub open spec fn node_is_text(n: NodeModel) -> bool {
    n is Text
}

/// Whether all the nodes are blank.
pub open spec fn all_blank(nodes: Seq<NodeModel>) -> bool {
    forall|i: int| 0 <= i < nodes.len() ==> node_blank(#[trigger] nodes[i])
}

/// The nodes that are not literal text, in their order.
pub open spec fn without_text(nodes: Seq<NodeModel>) -> Seq<NodeModel>
    decreases nodes.len(),
{
    if nodes.len() == 0 {
        Seq::empty()
    } else if node_is_text(nodes.last()) {
        without_text(nodes.drop_last())
    } else {
        without_text(nodes.drop_last()).push(nodes.last())
    }
}

/// The filters as mathematical data.
pub open spec fn filters_view(filters: Seq<Filter>) -> Seq<FilterModel> {
    Seq::new(filters.len(), |i: int| filters[i]@)
}

/// Literal text of the template.
#[derive(Debug)]
pub struct Text {
    text: String,
}

/// An expression with the filters that follow it.
#[derive(Debug)]
pub struct FilterChain {
    pub entry: Expression,
    pub filters: Vec<Filter>,
}

/// The binding of a name to the value of an expression with its filters.
#[derive(Debug)]
pub struct Assign {
    pub name: String,
    pub source: FilterChain,
}

/// A sequence of nodes that are rendered one after another.
#[derive(Debug)]
pub struct Template {
    pub elements: Vec<Node>,
}

/// `if` and `unless`: a condition, the body that is rendered where the
/// condition gives `mode`, and the body that is rendered otherwise.
#[derive(Debug)]
pub struct Conditional {
    pub tag_name: String,
    pub condition: Condition,
    pub mode: bool,
    pub if_true: Template,
    pub if_false: Option<Template>,
}

/// One branch of a `case`: the values of its `when`, and its body.
#[derive(Debug)]
pub struct CaseOption {
    pub args: Vec<Expression>,
    pub template: Template,
}

/// `case`: a target, the branches, and the body of `else`.
#[derive(Debug)]
pub struct Case {
    pub is_blank: bool,
    pub target: Expression,
    pub cases: Vec<CaseOption>,
    pub else_block: Option<Template>,
}

/// A node of the tree that is rendered.
#[derive(Debug)]
pub enum Node {
    Text(Text),
    Output(FilterChain),
    Assign(Assign),
    Conditional(Conditional),
    Case(Case),
}

/// A node as mathematical data.
pub open spec fn node_view(n: Node) -> NodeModel
    decreases n,
{
    match n {
        Node::Text(t) => NodeModel::Text(t@),
        Node::Output(c) => NodeModel::Output(c.entry@, filters_view(c.filters@)),
        Node::Assign(a) => NodeModel::Assign(a.name@, a.source.entry@, filters_view(a.source.filters@)),
        Node::Conditional(c) => NodeModel::Conditional {
            tag_name: c.tag_name@,
            condition: c.condition@,
            mode: c.mode,
            if_true: nodes_view(c.if_true.elements@),
            if_false: match c.if_false {
                Some(t) => Some(nodes_view(t.elements@)),
                None => None,
            },
        },
        Node::Case(c) => NodeModel::Case {
            target: c.target@,
            blank: c.is_blank,
            cases: options_view(c.cases@),
            else_block: match c.else_block {
                Some(t) => Some(nodes_view(t.elements@)),
                None => None,
            },
        },
    }
}

/// The nodes as mathematical data.
pub open spec fn nodes_view(nodes: Seq<Node>) -> Seq<NodeModel>
    decreases nodes,
{
    Seq::new(
        nodes.len(),
        |i: int|
            if 0 <= i < nodes.len() {
                node_view(nodes[i])
            } else {
                NodeModel::Text(Seq::empty())
            },
    )
}

/// The branches as mathematical data.
pub open spec fn options_view(options: Seq<CaseOption>) -> Seq<(Seq<ExprModel>, Seq<NodeModel>)>
    decreases options,
{
    Seq::new(
        options.len(),
        |i: int|
            if 0 <= i < options.len() {
                (exprs_view(options[i].args@), nodes_view(options[i].template.elements@))
            } else {
                (Seq::empty(), Seq::empty())
            },
    )
}

impl View for Node {
    type V = NodeModel;

    open spec fn view(&self) -> NodeModel {
        node_view(*self)
    }
}

impl View for Template {
    type V = Seq<NodeModel>;

    open spec fn view(&self) -> Seq<NodeModel> {
        nodes_view(self.elements@)
    }
}

impl View for Text {
    type V = Seq<char>;

    closed spec fn view(&self) -> Seq<char> {
        self.text@
    }
}

impl Text {
    /// The node of the literal text `text`.
    pub fn new(text: String) -> (t: Text)
        ensures
            t@ == text@,
    {
        Text { text }
    }

    /// Whether the text holds nothing but whitespace.
    pub fn is_blank(&self) -> (b: bool)
        ensures
            b == is_blank_text(self@),
    {
        blank_text(self.text.as_str())
    }

    /// The text.
    pub fn as_str(&self) -> (s: &str)
        ensures
            s@ == self@,
    {
        self.text.as_str()
    }
}

/// Whether the node is blank.
pub fn node_is_blank(n: &Node) -> (b: bool)
    ensures
        b == node_blank(n@),
{
    match n {
        Node::Text(t) => t.is_blank(),
        Node::Assign(_) => true,
        Node::Case(c) => c.is_blank,
        _ => false,
    }
}

/// Whether the node is literal text.
pub fn node_is_literal(n: &Node) -> (b: bool)
    ensures
        b == node_is_text(n@),
{
    match n {
        Node::Text(_) => true,
        _ => false,
    }
}

/// Whether all the nodes are blank.
pub fn nodes_blank(nodes: &Vec<Node>) -> (b: bool)
    ensures
        b == all_blank(nodes_view(nodes@)),
{
    let ghost all = nodes_view(nodes@);
    let mut i: usize = 0;
    while i < nodes.len()
        invariant
            i <= nodes@.len(),
            all == nodes_view(nodes@),
            forall|j: int| 0 <= j < i ==> node_blank(#[trigger] all[j]),
        decreases nodes@.len() - i,
    {
        assert(all[i as int] == nodes@[i as int]@);
        if !node_is_blank(&nodes[i]) {
            return false;
        }
        i += 1;
    }
    true
}

/// The nodes that are not literal text, in their order.
pub fn remove_text(nodes: Vec<Node>) -> (r: Vec<Node>)
    ensures
        nodes_view(r@) == without_text(nodes_view(nodes@)),
{
    let ghost all = nodes_view(nodes@);
    let mut kept: Vec<Node> = Vec::new();
    assert(nodes_view(kept@) =~= without_text(all.take(0)));
    for node in it: nodes
        invariant
            all == nodes_view(nodes@),
            it.seq() == nodes@,
            nodes_view(kept@) == without_text(all.take(it.index() as int)),
    {
        let ghost i = it.index() as int;
        let ghost before = nodes_view(kept@);
        proof {
            assert(all.take(i + 1).drop_last() =~= all.take(i));
            assert(all.take(i + 1).last() == node@);
        }
        if !node_is_literal(&node) {
            kept.push(node);
            assert(nodes_view(kept@) =~= before.push(node@));
        }
    }
    assert(all.take(nodes@.len() as int) =~= all);
    kept
}

/// Whether a call that returned `r`, turned what was written from
/// `before` into `after` and left the runtime `rt` has had the effect
/// `effect`.
pub open spec fn realizes(
    r: core::result::Result<(), Error>,
    before: Seq<char>,
    after: Seq<char>,
    rt: RuntimeModel,
    effect: Effect,
) -> bool {
    &&& after == before + effect.out
    &&& rt == effect.runtime
    &&& match (r, effect.error) {
        (Ok(_), None) => true,
        (Err(e), Some(m)) => e@ == m,
        _ => false,
    }
}

impl FilterChain {
    /// The chain of `entry` and `filters`.
    pub fn new(entry: Expression, filters: Vec<Filter>) -> (c: FilterChain)
        ensures
            c.entry == entry,
            c.filters == filters,
    {
        FilterChain { entry, filters }
    }

    /// The value of the expression after its filters, applied from left to
    /// right.
    pub fn evaluate(&self, runtime: &Runtime) -> (r: core::result::Result<Value, Error>)
        ensures
            match (r, chain_eval(self.entry@, filters_view(self.filters@), runtime@)) {
                (Ok(v), Ok(m)) => v@ == m,
                (Err(e), Err(m)) => e@ == m,
                _ => false,
            },
    {
        let ghost all = filters_view(self.filters@);
        let mut value = match self.entry.evaluate(&runtime.stack, runtime.strict) {
            Ok(v) => v,
            Err(e) => {
                return Err(e);
            },
        };
        let mut i: usize = 0;
        while i < self.filters.len()
            invariant
                i <= self.filters@.len(),
                all == filters_view(self.filters@),
                chain_eval(self.entry@, all, runtime@) == filters_run(all, i as int, value@, runtime@),
            decreases self.filters@.len() - i,
        {
            assert(all[i as int] == self.filters@[i as int]@);
            value =
            match self.filters[i].evaluate(&value, runtime) {
                Ok(v) => v,
                Err(e) => {
                    return Err(e);
                },
            };
            i += 1;
        }
        Ok(value)
    }
}

/// The string `head`, then `body`, then `tail`.
pub fn bracket(head: &str, body: &str, tail: &str) -> (s: String)
    ensures
        s@ == head@ + body@ + tail@,
{
    let mut s = head.to_owned();
    s.append(body);
    s.append(tail);
    s
}

/// The result with `tag` added to the trace of its error, if it is one.
pub fn trace_result(r: core::result::Result<(), Error>, tag: String) -> (t: core::result::Result<
    (),
    Error,
>)
    ensures
        match r {
            Ok(_) => t is Ok,
            Err(e) => t matches Err(x) && x@ == traced(e@, tag@),
        },
{
    match r {
        Ok(()) => Ok(()),
        Err(e) => Err(e.trace(tag)),
    }
}

/// Whether one of the values is equal to `value`.
pub fn case_matches(args: &Vec<Expression>, value: &Value, runtime: &Runtime) -> (r:
    core::result::Result<bool, Error>)
    ensures
        match (r, when_matches(exprs_view(args@), 0, value@, runtime@)) {
            (Ok(b), Ok(m)) => b == m,
            (Err(e), Err(m)) => e@ == m,
            _ => false,
        },
{
    let ghost all = exprs_view(args@);
    let mut i: usize = 0;
    while i < args.len()
        invariant
            i <= args@.len(),
            all == exprs_view(args@),
            when_matches(all, 0, value@, runtime@) == when_matches(
                all,
                i as int,
                value@,
                runtime@,
            ),
        decreases args@.len() - i,
    {
        assert(all[i as int] == args@[i as int]@);
        let v = match args[i].evaluate(&runtime.stack, runtime.strict) {
            Ok(v) => v,
            Err(e) => {
                return Err(e);
            },
        };
        if value_eq(&v, value) {
            return Ok(true);
        }
        i += 1;
    }
    Ok(false)
}

/// The trace of `when` with the values `args`.
pub fn when_tag(args: &Vec<Expression>) -> (s: String)
    ensures
        s@ == when_trace(exprs_view(args@)),
{
    let mut texts: Vec<String> = Vec::new();
    let mut i: usize = 0;
    while i < args.len()
        invariant
            i <= args@.len(),
            texts@.len() == i,
            forall|j: int| 0 <= j < i ==> (#[trigger] texts@[j])@ == expr_text(args@[j]@),
        decreases args@.len() - i,
    {
        texts.push(args[i].render());
        i += 1;
    }
    assert(texts_view(texts@) =~= exprs_texts(exprs_view(args@)));
    let list = join_texts(&texts, " or ");
    bracket("{% when ", list.as_str(), " %}")
}

/// Renders a node: appends what it writes to `out`.
pub fn render_node(n: &Node, out: &mut String, runtime: &mut Runtime) -> (r: core::result::Result<
    (),
    Error,
>)
    ensures
        realizes(r, old(out)@, final(out)@, final(runtime)@, node_effect(n@, old(runtime)@)),
    decreases n@, 2nat, 0nat,
{
    match n {
        Node::Text(t) => {
            out.append(t.text.as_str());
            Ok(())
        },
        Node::Output(chain) => match chain.evaluate(runtime) {
            Ok(v) => {
                render_value_to(&v, out);
                Ok(())
            },
            Err(e) => {
                assert(out@ =~= old(out)@ + Seq::<char>::empty());
                Err(e)
            },
        },
        Node::Assign(a) => {
            assert(out@ =~= old(out)@ + Seq::<char>::empty());
            match a.source.evaluate(runtime) {
                Ok(v) => {
                    runtime.set_global(a.name.clone(), v);
                    Ok(())
                },
                Err(e) => Err(e),
            }
        },
        Node::Conditional(c) => {
            assert(out@ =~= old(out)@ + Seq::<char>::empty());
            render_conditional(c, Ghost(n@), out, runtime)
        },
        Node::Case(c) => {
            assert(out@ =~= old(out)@ + Seq::<char>::empty());
            render_case(c, Ghost(n@), out, runtime)
        },
    }
}

/// Renders the nodes one after another, up to the first that fails.
pub fn render_nodes(nodes: &Vec<Node>, out: &mut String, runtime: &mut Runtime) -> (r:
    core::result::Result<(), Error>)
    ensures
        realizes(
            r,
            old(out)@,
            final(out)@,
            final(runtime)@,
            nodes_run(nodes_view(nodes@), 0, Seq::empty(), old(runtime)@),
        ),
    decreases nodes_view(nodes@), 0nat, nodes@.len(),
{
    let ghost all = nodes_view(nodes@);
    let ghost start = out@;
    let ghost goal = nodes_run(all, 0, Seq::empty(), runtime@);
    let ghost mut written = Seq::<char>::empty();
    let mut i: usize = 0;
    assert(out@ =~= start + written);
    while i < nodes.len()
        invariant
            i <= nodes@.len(),
            all.len() == nodes@.len(),
            forall|j: int| 0 <= j < all.len() ==> #[trigger] all[j] == nodes@[j]@,
            forall|j: int| 0 <= j < all.len() ==> decreases_to!(nodes_view(nodes@) => #[trigger] all[j]),
            out@ == start + written,
            start == old(out)@,
            goal == nodes_run(nodes_view(nodes@), 0, Seq::empty(), old(runtime)@),
            goal == nodes_run(all, i as int, written, runtime@),
        decreases nodes@.len() - i,
    {
        let ghost before = runtime@;
        let ghost effect = node_effect(all[i as int], before);
        let ghost mid = out@;
        proof {
            lemma_nodes_step(all, i as int, written, before);
        }
        let r = render_node(&nodes[i], out, runtime);
        assert(realizes(r, mid, out@, runtime@, effect));
        proof {
            assert(out@ =~= start + (written + effect.out));
            written = written + effect.out;
        }
        match r {
            Err(e) => {
                assert(goal.error == Some(e@));
                return Err(e);
            },
            Ok(()) => {},
        }
        i += 1;
    }
    proof {
        lemma_nodes_done(all, written, runtime@);
    }
    Ok(())
}

/// Renders an `if` or an `unless`: the first body where the condition
/// gives the mode, the second body, if there is one, where it does not.
pub(crate) fn render_conditional(
    c: &Conditional,
    Ghost(n): Ghost<NodeModel>,
    out: &mut String,
    runtime: &mut Runtime,
) -> (r: core::result::Result<(), Error>)
    requires
        n == node_view(Node::Conditional(*c)),
    ensures
        realizes(r, old(out)@, final(out)@, final(runtime)@, node_effect(n, old(runtime)@)),
    decreases n, 1nat, 0nat,
{
    let mut text = String::new();
    c.condition.render_to(&mut text);
    let tag = bracket("{% if ", text.as_str(), " %}");
    assert(tag@ =~= if_trace(c.condition@));
    assert(out@ =~= old(out)@ + Seq::<char>::empty());
    let holds = match c.condition.evaluate(runtime) {
        Ok(b) => b,
        Err(e) => {
            return Err(e.trace(tag));
        },
    };
    if holds == c.mode {
        assert(n->if_true == nodes_view(c.if_true.elements@));
        assert(decreases_to!(n => n->if_true));
        let r = render_nodes(&c.if_true.elements, out, runtime);
        trace_result(r, tag)
    } else {
        match &c.if_false {
            Some(body) => {
                assert(n->if_false == Some(nodes_view(body.elements@)));
                assert(decreases_to!(n => n->if_false));
                assert(decreases_to!(n->if_false => n->if_false->0));
                let r = render_nodes(&body.elements, out, runtime);
                let r = trace_result(r, "{{% else %}}".to_owned());
                trace_result(r, tag)
            },
            None => Ok(()),
        }
    }
}

/// The result with a key and a value added to the context of its error,
/// if it is one.
pub fn context_result(r: core::result::Result<(), Error>, key: String, value: String) -> (t:
    core::result::Result<(), Error>)
    ensures
        match r {
            Ok(_) => t is Ok,
            Err(e) => t matches Err(x) && x@ == in_context(e@, key@, value@),
        },
{
    match r {
        Ok(()) => Ok(()),
        Err(e) => Err(e.context(key, value)),
    }
}

/// Renders a `case`: the body of the first branch with a value equal to
/// that of the target, or the body of `else` where there is no such branch.
pub(crate) fn render_case(
    c: &Case,
    Ghost(n): Ghost<NodeModel>,
    out: &mut String,
    runtime: &mut Runtime,
) -> (r: core::result::Result<(), Error>)
    requires
        n == node_view(Node::Case(*c)),
    ensures
        realizes(r, old(out)@, final(out)@, final(runtime)@, node_effect(n, old(runtime)@)),
    decreases n, 1nat, 1nat,
{
    assert(out@ =~= old(out)@ + Seq::<char>::empty());
    let value = match c.target.evaluate(&runtime.stack, runtime.strict) {
        Ok(v) => v,
        Err(e) => {
            return Err(e);
        },
    };
    let ghost all = options_view(c.cases@);
    let ghost first = runtime@;
    assert(n->cases == all);
    assert(node_effect(n, first) == case_run(n, 0, value@, first));
    let mut i: usize = 0;
    while i < c.cases.len()
        invariant
            i <= c.cases@.len(),
            all == options_view(c.cases@),
            n == node_view(Node::Case(*c)),
            n is Case,
            n->cases == all,
            n->target == c.target@,
            runtime@ == first,
            first == old(runtime)@,
            out@ == old(out)@,
            node_effect(n, first) == case_run(n, i as int, value@, first),
        decreases c.cases@.len() - i,
    {
        let option = &c.cases[i];
        assert(all[i as int] == (exprs_view(option.args@), nodes_view(option.template.elements@)));
        match case_matches(&option.args, &value, runtime) {
            Err(e) => {
                return Err(e);
            },
            Ok(true) => {
                assert(decreases_to!(n => n->cases));
                assert(decreases_to!(n->cases => n->cases[i as int]));
                assert(decreases_to!(n->cases[i as int] => n->cases[i as int].1));
                let r = render_nodes(&option.template.elements, out, runtime);
                let r = trace_result(r, when_tag(&option.args));
                let target = c.target.render();
                let r = trace_result(r, bracket("{% case ", target.as_str(), " %}"));
                return context_result(r, target, value.render());
            },
            Ok(false) => {},
        }
        i += 1;
    }
    match &c.else_block {
        Some(body) => {
            assert(n->else_block == Some(nodes_view(body.elements@)));
            assert(decreases_to!(n => n->else_block));
            assert(decreases_to!(n->else_block => n->else_block->0));
            let r = render_nodes(&body.elements, out, runtime);
            let r = trace_result(r, "{{% else %}}".to_owned());
            let target = c.target.render();
            let r = trace_result(r, bracket("{% case ", target.as_str(), " %}"));
            context_result(r, target, value.render())
        },
        None => Ok(()),
    }
}

/// What can be rendered: a tag, a block, text.
pub trait Renderable {
    /// What rendering does in a runtime.
    spec fn effect(&self, rt: RuntimeModel) -> Effect;

    /// Whether the output is blank by construction.
    spec fn blank(&self) -> bool;

    /// Whether this is literal text.
    spec fn literal(&self) -> bool;

    /// Renders into a string: what was written, or the error that stopped
    /// the rendering.
    fn render(&self, runtime: &mut Runtime) -> (r: core::result::Result<String, Error>)
        ensures
            final(runtime)@ == self.effect(old(runtime)@).runtime,
            match (r, self.effect(old(runtime)@).error) {
                (Ok(s), None) => s@ == self.effect(old(runtime)@).out,
                (Err(e), Some(m)) => e@ == m,
                _ => false,
            },
    ;

    /// Renders: appends what is written to `out`.
    fn render_to(&self, out: &mut String, runtime: &mut Runtime) -> (r: core::result::Result<
        (),
        Error,
    >)
        ensures
            realizes(r, old(out)@, final(out)@, final(runtime)@, self.effect(old(runtime)@)),
    ;

    /// Whether the output is blank by construction.
    fn is_blank(&self) -> (b: bool)
        ensures
            b == self.blank(),
    ;

    /// Whether this is literal text, which a blank block leaves out.
    fn is_text(&self) -> (b: bool)
        ensures
            b == self.literal(),
    ;
}

impl Renderable for Node {
    open spec fn effect(&self, rt: RuntimeModel) -> Effect {
        node_effect(self@, rt)
    }

    open spec fn blank(&self) -> bool {
        node_blank(self@)
    }

    open spec fn literal(&self) -> bool {
        node_is_text(self@)
    }

    fn render(&self, runtime: &mut Runtime) -> (r: core::result::Result<String, Error>) {
        let mut out = String::new();
        match render_node(self, &mut out, runtime) {
            Ok(()) => {
                assert(out@ =~= node_effect(self@, old(runtime)@).out);
                Ok(out)
            },
            Err(e) => Err(e),
        }
    }

    fn render_to(&self, out: &mut String, runtime: &mut Runtime) -> (r: core::result::Result<
        (),
        Error,
    >) {
        render_node(self, out, runtime)
    }

    fn is_blank(&self) -> (b: bool) {
        node_is_blank(self)
    }

    fn is_text(&self) -> (b: bool) {
        node_is_literal(self)
    }
}

impl Renderable for Text {
    open spec fn effect(&self, rt: RuntimeModel) -> Effect {
        Effect { out: self@, runtime: rt, error: None }
    }

    open spec fn blank(&self) -> bool {
        is_blank_text(self@)
    }

    open spec fn literal(&self) -> bool {
        true
    }

    fn render(&self, runtime: &mut Runtime) -> (r: core::result::Result<String, Error>) {
        Ok(self.text.clone())
    }

    fn render_to(&self, out: &mut String, runtime: &mut Runtime) -> (r: core::result::Result<
        (),
        Error,
    >) {
        out.append(self.text.as_str());
        Ok(())
    }

    fn is_blank(&self) -> (b: bool) {
        Text::is_blank(self)
    }

    fn is_text(&self) -> (b: bool) {
        true
    }
}

impl Renderable for Template {
    open spec fn effect(&self, rt: RuntimeModel) -> Effect {
        nodes_run(self@, 0, Seq::empty(), rt)
    }

    open spec fn blank(&self) -> bool {
        all_blank(self@)
    }

    open spec fn literal(&self) -> bool {
        false
    }

    fn render(&self, runtime: &mut Runtime) -> (r: core::result::Result<String, Error>) {
        let mut out = String::new();
        match render_nodes(&self.elements, &mut out, runtime) {
            Ok(()) => {
                assert(out@ =~= nodes_run(self@, 0, Seq::empty(), old(runtime)@).out);
                Ok(out)
            },
            Err(e) => Err(e),
        }
    }

    fn render_to(&self, out: &mut String, runtime: &mut Runtime) -> (r: core::result::Result<
        (),
        Error,
    >) {
        render_nodes(&self.elements, out, runtime)
    }

    fn is_blank(&self) -> (b: bool) {
        nodes_blank(&self.elements)
    }

    fn is_text(&self) -> (b: bool) {
        false
    }
}

impl Renderable for Case {
    open spec fn effect(&self, rt: RuntimeModel) -> Effect {
        node_effect(node_view(Node::Case(*self)), rt)
    }

    open spec fn blank(&self) -> bool {
        self.is_blank
    }

    open spec fn literal(&self) -> bool {
        false
    }

    fn render(&self, runtime: &mut Runtime) -> (r: core::result::Result<String, Error>) {
        let mut out = String::new();
        match render_case(self, Ghost(node_view(Node::Case(*self))), &mut out, runtime) {
            Ok(()) => {
                assert(out@ =~= self.effect(old(runtime)@).out);
                Ok(out)
            },
            Err(e) => Err(e),
        }
    }

    fn render_to(&self, out: &mut String, runtime: &mut Runtime) -> (r: core::result::Result<
        (),
        Error,
    >) {
        render_case(self, Ghost(node_view(Node::Case(*self))), out, runtime)
    }

    fn is_blank(&self) -> (b: bool) {
        self.is_blank
    }

    fn is_text(&self) -> (b: bool) {
        false
    }
}

impl Renderable for Conditional {
    open spec fn effect(&self, rt: RuntimeModel) -> Effect {
        node_effect(node_view(Node::Conditional(*self)), rt)
    }

    open spec fn blank(&self) -> bool {
        false
    }

    open spec fn literal(&self) -> bool {
        false
    }

    fn render(&self, runtime: &mut Runtime) -> (r: core::result::Result<String, Error>) {
        let mut out = String::new();
        match render_conditional(
            self,
            Ghost(node_view(Node::Conditional(*self))),
            &mut out,
            runtime,
        ) {
            Ok(()) => {
                assert(out@ =~= self.effect(old(runtime)@).out);
                Ok(out)
            },
            Err(e) => Err(e),
        }
    }

    fn render_to(&self, out: &mut String, runtime: &mut Runtime) -> (r: core::result::Result<
        (),
        Error,
    >) {
        render_conditional(self, Ghost(node_view(Node::Conditional(*self))), out, runtime)
    }

    fn is_blank(&self) -> (b: bool) {
        false
    }

    fn is_text(&self) -> (b: bool) {
        false
    }
}

impl Template {
    /// The template of the given nodes.
    pub fn new(elements: Vec<Node>) -> (t: Template)
        ensures
            t@ == nodes_view(elements@),
    {
        Template { elements }
    }
}

} // verus!
