//! Scope resolution: the syntax tree becomes entries with absolute keys.
use crate::errors::{plain_error, SyntaxError, SyntaxErrorKind, SyntaxErrorView};
use crate::lexer::spec_tokenize;
use crate::views::lemma_push_deep_view;
use crate::nodes::atom::{Atom, AtomView};
use crate::nodes::list::{List, ListView};
use crate::nodes::node::{Node, NodeView};
use crate::nodes::path::{Path, PathView};
use crate::nodes::source_file::{spec_parse_source, SourceFile, SourceFileView};
use crate::nodes::stmt::{Stmt, StmtView};
use crate::nodes::table::{Table, TableView};
use crate::position::Position;
use crate::token::Token;
use vstd::prelude::*;

verus! {

/// One segment of a scope: a name, and where it was written.
#[derive(Debug, Clone, PartialEq, Eq)]
pub struct Segment {
    pub position: Position,
    pub name: String,
}

/// The mathematical value of a [`Segment`].
pub ghost struct SegmentView {
    pub position: Position,
    pub name: Seq<char>,
}

impl DeepView for Segment {
    type V = SegmentView;

    open spec fn deep_view(&self) -> SegmentView {
        SegmentView { position: self.position, name: self.name@ }
    }
}

/// A value after scope resolution.
#[derive(Debug, PartialEq, Eq)]
pub enum ResolvedValue {
    Int(u64),
    Bool(bool),
    Str(String),
    /// A verbatim literal.
    Raw(String),
    /// A reference to the entry with this absolute path. It is not looked up.
    Path(Vec<String>),
    List(Vec<ResolvedValue>),
    /// The entries of a table, each under its absolute path.
    Table(Vec<Entry>),
}

/// A resolved assignment: an absolute path, the value assigned to it, and
/// the position of the value in the source.
#[derive(Debug, PartialEq, Eq)]
pub struct Entry {
    pub path: Vec<String>,
    pub value: ResolvedValue,
    pub position: Position,
}

/// The mathematical value of a [`ResolvedValue`].
pub ghost enum ValueView {
    Int(u64),
    Bool(bool),
    Str(Seq<char>),
    Raw(Seq<char>),
    Path(Seq<Seq<char>>),
    List(Seq<ValueView>),
    Table(Seq<EntryView>),
}

/// The mathematical value of an [`Entry`].
pub ghost struct EntryView {
    pub path: Seq<Seq<char>>,
    pub value: ValueView,
    pub position: Position,
}

/// The value of a resolved value, with the value of everything nested in it.
pub open spec fn value_view(value: ResolvedValue) -> ValueView
    decreases value,
{
    match value {
        ResolvedValue::Int(x) => ValueView::Int(x),
        ResolvedValue::Bool(x) => ValueView::Bool(x),
        ResolvedValue::Str(x) => ValueView::Str(x@),
        ResolvedValue::Raw(x) => ValueView::Raw(x@),
        ResolvedValue::Path(x) => ValueView::Path(x.deep_view()),
        ResolvedValue::List(items) => ValueView::List(
            Seq::new(
                items@.len(),
                |i: int|
                    if 0 <= i < items@.len() {
                        value_view(items@[i])
                    } else {
                        ValueView::Bool(false)
                    },
            ),
        ),
        ResolvedValue::Table(entries) => ValueView::Table(
            Seq::new(
                entries@.len(),
                |i: int|
                    if 0 <= i < entries@.len() {
                        entry_view(entries@[i])
                    } else {
                        EntryView {
                            path: Seq::empty(),
                            value: ValueView::Bool(false),
                            position: Position { start: 0, end: 0 },
                        }
                    },
            ),
        ),
    }
}

/// The value of an entry.
pub open spec fn entry_view(entry: Entry) -> EntryView
    decreases entry,
{
    EntryView {
        path: entry.path.deep_view(),
        value: value_view(entry.value),
        position: entry.position,
    }
}

impl DeepView for ResolvedValue {
    type V = ValueView;

    open spec fn deep_view(&self) -> ValueView {
        value_view(*self)
    }
}

impl DeepView for Entry {
    type V = EntryView;

    open spec fn deep_view(&self) -> EntryView {
        entry_view(*self)
    }
}

/// The entries that a script resolves to, in source order.
#[derive(Debug, PartialEq, Eq)]
pub struct ActionTree {
    /// The name of the script that the entries' positions refer to.
    pub origin: String,
    pub entries: Vec<Entry>,
}

/// The mathematical value of an [`ActionTree`].
pub ghost struct ActionTreeView {
    pub origin: Seq<char>,
    pub entries: Seq<EntryView>,
}

impl DeepView for ActionTree {
    type V = ActionTreeView;

    open spec fn deep_view(&self) -> ActionTreeView {
        ActionTreeView { origin: self.origin@, entries: self.entries.deep_view() }
    }
}

/// The value of a list of values is the list of their values.
pub proof fn lemma_list_view(items: Vec<ResolvedValue>)
    ensures
        value_view(ResolvedValue::List(items)) == ValueView::List(items.deep_view()),
{
    assert(value_view(ResolvedValue::List(items))->List_0 =~= items.deep_view());
}

/// The value of a table of entries is the sequence of their values.
pub proof fn lemma_table_view(entries: Vec<Entry>)
    ensures
        value_view(ResolvedValue::Table(entries)) == ValueView::Table(entries.deep_view()),
{
    assert(value_view(ResolvedValue::Table(entries))->Table_0 =~= entries.deep_view());
}

/// The segments of a path, first to last, each with the position of the part
/// of the path that begins with it.
pub open spec fn spec_flatten(path: NodeView<PathView>) -> Seq<SegmentView>
    decreases path,
{
    match path.node {
        PathView::Tail(head) => seq![SegmentView { position: path.position, name: head }],
        PathView::More(head, tail) => seq![SegmentView { position: path.position, name: head }]
            + spec_flatten(*tail),
    }
}

/// The names of the segments of a scope.
pub open spec fn names(scope: Seq<SegmentView>) -> Seq<Seq<char>> {
    Seq::new(scope.len(), |i: int| scope[i].name)
}

/// What resolving an atom yields: the position that the value is attributed
/// to and the value, or a failure.
pub type Visited = Result<(Position, ValueView), SyntaxErrorView>;

/// The failure for an expression at `position`.
pub open spec fn unsupported_expr(position: Position) -> SyntaxErrorView {
    plain_error(SyntaxErrorKind::UnsupportedExpr, position.start as int, position.end as int)
}

/// Resolves an atom under `scope`.
///
/// A literal is its own value. A path becomes a reference to `scope`
/// followed by the path's segments. A list or a table resolves its children
/// under the same scope. An apply resolves its atom under the apply's path
/// alone, whatever `scope` is. An expression is refused.
pub open spec fn visit_atom(atom: NodeView<AtomView>, scope: Seq<SegmentView>) -> Visited
    decreases atom,
{
    match atom.node {
        AtomView::Int(x) => Ok((atom.position, ValueView::Int(x))),
        AtomView::Bool(x) => Ok((atom.position, ValueView::Bool(x))),
        AtomView::Str(x) => Ok((atom.position, ValueView::Str(x))),
        AtomView::RawConf(x) => Ok((atom.position, ValueView::Raw(x))),
        AtomView::Path(path) => Ok(
            (atom.position, ValueView::Path(names(scope + spec_flatten(path)))),
        ),
        AtomView::List(list) => match visit_list(*list, scope) {
            Ok(values) => Ok((list.position, ValueView::List(values))),
            Err(e) => Err(e),
        },
        AtomView::Table(table) => match visit_table(*table, scope) {
            Ok(entries) => Ok((table.position, ValueView::Table(entries))),
            Err(e) => Err(e),
        },
        AtomView::Apply(path, inner) => visit_atom(*inner, spec_flatten(path)),
        AtomView::Expr(expr) => Err(unsupported_expr(expr.position)),
    }
}

/// Resolves a statement under `scope`: its absolute key is `scope` followed
/// by its own path, and its atom is resolved under that key.
pub open spec fn visit_stmt(stmt: NodeView<StmtView>, scope: Seq<SegmentView>) -> Result<
    EntryView,
    SyntaxErrorView,
>
    decreases stmt,
{
    match stmt.node {
        StmtView::Config(path, atom) => {
            let key = scope + spec_flatten(path);
            match visit_atom(atom, key) {
                Ok((position, value)) => Ok(EntryView { path: names(key), value, position }),
                Err(e) => Err(e),
            }
        },
    }
}

/// Resolves the statements of a table under `scope`, in order.
pub open spec fn visit_table(table: NodeView<TableView>, scope: Seq<SegmentView>) -> Result<
    Seq<EntryView>,
    SyntaxErrorView,
>
    decreases table,
{
    match table.node {
        TableView::Empty => Ok(Seq::empty()),
        TableView::Tail(stmt) => match visit_stmt(stmt, scope) {
            Ok(entry) => Ok(seq![entry]),
            Err(e) => Err(e),
        },
        TableView::Head(stmt, rest) => match visit_stmt(stmt, scope) {
            Ok(entry) => match visit_table(*rest, scope) {
                Ok(entries) => Ok(seq![entry] + entries),
                Err(e) => Err(e),
            },
            Err(e) => Err(e),
        },
    }
}

/// Resolves the atoms of a list under `scope`, in order.
pub open spec fn visit_list(list: NodeView<ListView>, scope: Seq<SegmentView>) -> Result<
    Seq<ValueView>,
    SyntaxErrorView,
>
    decreases list,
{
    match list.node {
        ListView::Empty => Ok(Seq::empty()),
        ListView::Tail(atom) => match visit_atom(atom, scope) {
            Ok((_, value)) => Ok(seq![value]),
            Err(e) => Err(e),
        },
        ListView::Head(atom, rest) => match visit_atom(atom, scope) {
            Ok((_, value)) => match visit_list(*rest, scope) {
                Ok(values) => Ok(seq![value] + values),
                Err(e) => Err(e),
            },
            Err(e) => Err(e),
        },
    }
}

/// Resolves a whole script from the empty scope.
pub open spec fn visit_source(file: SourceFileView, origin: Seq<char>) -> Result<
    ActionTreeView,
    SyntaxErrorView,
> {
    match visit_table(file.body, Seq::empty()) {
        Ok(entries) => Ok(ActionTreeView { origin, entries }),
        Err(e) => Err(e),
    }
}

/// The value of the result of resolving an atom.
pub open spec fn visited_view(r: Result<(Position, ResolvedValue), SyntaxError>) -> Visited {
    match r {
        Ok((position, value)) => Ok((position, value.deep_view())),
        Err(e) => Err(e.deep_view()),
    }
}

/// The value of the result of resolving a statement.
pub open spec fn entry_result_view(r: Result<Entry, SyntaxError>) -> Result<
    EntryView,
    SyntaxErrorView,
> {
    match r {
        Ok(entry) => Ok(entry.deep_view()),
        Err(e) => Err(e.deep_view()),
    }
}

/// The value of the result of resolving a script.
pub open spec fn tree_result_view(r: Result<ActionTree, SyntaxError>) -> Result<
    ActionTreeView,
    SyntaxErrorView,
> {
    match r {
        Ok(tree) => Ok(tree.deep_view()),
        Err(e) => Err(e.deep_view()),
    }
}

/// A copy of the scope `scope`.
pub fn copy_scope(scope: &[Segment]) -> (out: Vec<Segment>)
    ensures
        out.deep_view() == scope.deep_view(),
{
    let mut out: Vec<Segment> = Vec::new();
    let mut i: usize = 0;
    while i < scope.len()
        invariant
            i <= scope@.len(),
            out@.len() == i,
            forall|k: int| 0 <= k < i ==> (#[trigger] out@[k]).deep_view() == scope@[k].deep_view(),
        decreases scope@.len() - i,
    {
        out.push(Segment { position: scope[i].position, name: scope[i].name.clone() });
        i += 1;
    }
    assert(out.deep_view() =~= scope.deep_view());
    out
}

/// Appends the segments of `path` to `out`.
fn push_segments(out: &mut Vec<Segment>, path: &Node<Path>)
    ensures
        final(out).deep_view() == old(out).deep_view() + spec_flatten(path.deep_view()),
    decreases path,
{
    let ghost before = *out;
    match &path.node {
        Path::Tail(head) => {
            let segment = Segment { position: path.position, name: head.clone() };
            let ghost pushed = segment;
            out.push(segment);
            proof {
                lemma_push_deep_view(before, *out, pushed);
                assert(out.deep_view() =~= before.deep_view() + spec_flatten(path.deep_view()));
            }
        },
        Path::More(head, tail) => {
            let segment = Segment { position: path.position, name: head.clone() };
            let ghost pushed = segment;
            out.push(segment);
            proof {
                lemma_push_deep_view(before, *out, pushed);
            }
            push_segments(out, tail);
            assert(out.deep_view() =~= before.deep_view() + spec_flatten(path.deep_view()));
        },
    }
}

/// The names of the segments `scope`, in order.
pub fn names_of(scope: &[Segment]) -> (out: Vec<String>)
    ensures
        out.deep_view() == names(scope.deep_view()),
{
    let mut out: Vec<String> = Vec::new();
    let mut i: usize = 0;
    while i < scope.len()
        invariant
            i <= scope@.len(),
            out@.len() == i,
            forall|k: int| 0 <= k < i ==> (#[trigger] out@[k])@ == scope@[k].name@,
        decreases scope@.len() - i,
    {
        out.push(scope[i].name.clone());
        i += 1;
    }
    assert(out.deep_view() =~= names(scope.deep_view()));
    out
}

impl Path {
    /// The segments of the path, first to last, each with the position of
    /// the part of the path that begins with it.
    pub fn flatten(path: &Node<Path>) -> (out: Vec<Segment>)
        ensures
            out.deep_view() == spec_flatten(path.deep_view()),
    {
        let mut out: Vec<Segment> = Vec::new();
        assert(out.deep_view() =~= Seq::<SegmentView>::empty());
        push_segments(&mut out, path);
        assert(out.deep_view() =~= spec_flatten(path.deep_view()));
        out
    }
}

/// `scope` followed by the segments of `path`.
pub fn extend_scope(scope: &[Segment], path: &Node<Path>) -> (out: Vec<Segment>)
    ensures
        out.deep_view() == scope.deep_view() + spec_flatten(path.deep_view()),
{
    let mut out = copy_scope(scope);
    push_segments(&mut out, path);
    out
}

/// Resolves the atom `atom` under `scope`.
pub fn visit_atom_node(atom: &Node<Atom>, scope: &[Segment]) -> (r: Result<
    (Position, ResolvedValue),
    SyntaxError,
>)
    ensures
        visited_view(r) == visit_atom(atom.deep_view(), scope.deep_view()),
    decreases atom,
{
    match &atom.node {
        Atom::Int(x) => Ok((atom.position, ResolvedValue::Int(*x))),
        Atom::Bool(x) => Ok((atom.position, ResolvedValue::Bool(*x))),
        Atom::Str(x) => Ok((atom.position, ResolvedValue::Str(x.clone()))),
        Atom::RawConf(x) => Ok((atom.position, ResolvedValue::Raw(x.clone()))),
        Atom::Path(path) => {
            let key = extend_scope(scope, path);
            Ok((atom.position, ResolvedValue::Path(names_of(key.as_slice()))))
        },
        Atom::List(list) => {
            let mut values: Vec<ResolvedValue> = Vec::new();
            assert(values.deep_view() =~= Seq::<ValueView>::empty());
            match visit_list_node(list, scope, &mut values) {
                Ok(()) => {
                    proof {
                        lemma_list_view(values);
                        assert(Seq::<ValueView>::empty() + visit_list(
                            list.deep_view(),
                            scope.deep_view(),
                        )->Ok_0 =~= visit_list(list.deep_view(), scope.deep_view())->Ok_0);
                    }
                    Ok((list.position, ResolvedValue::List(values)))
                },
                Err(e) => Err(e),
            }
        },
        Atom::Table(table) => {
            let mut entries: Vec<Entry> = Vec::new();
            assert(entries.deep_view() =~= Seq::<EntryView>::empty());
            match visit_table_node(table, scope, &mut entries) {
                Ok(()) => {
                    proof {
                        lemma_table_view(entries);
                        assert(Seq::<EntryView>::empty() + visit_table(
                            table.deep_view(),
                            scope.deep_view(),
                        )->Ok_0 =~= visit_table(table.deep_view(), scope.deep_view())->Ok_0);
                    }
                    Ok((table.position, ResolvedValue::Table(entries)))
                },
                Err(e) => Err(e),
            }
        },
        Atom::Apply(path, inner) => {
            let prefix = Path::flatten(path);
            visit_atom_node(inner, prefix.as_slice())
        },
        Atom::Expr(expr) => Err(
            SyntaxError::plain(
                SyntaxErrorKind::UnsupportedExpr,
                expr.position.start,
                expr.position.end,
            ),
        ),
    }
}

/// Resolves the statement `stmt` under `scope`.
pub fn visit_stmt_node(stmt: &Node<Stmt>, scope: &[Segment]) -> (r: Result<Entry, SyntaxError>)
    ensures
        entry_result_view(r) == visit_stmt(stmt.deep_view(), scope.deep_view()),
    decreases stmt,
{
    match &stmt.node {
        Stmt::Config(path, atom) => {
            let key = extend_scope(scope, path);
            match visit_atom_node(atom, key.as_slice()) {
                Ok((position, value)) => Ok(
                    Entry { path: names_of(key.as_slice()), value, position },
                ),
                Err(e) => Err(e),
            }
        },
    }
}

/// Resolves the statements of `table` under `scope` and appends their
/// entries to `out`.
fn visit_table_node(table: &Node<Table>, scope: &[Segment], out: &mut Vec<Entry>) -> (r: Result<
    (),
    SyntaxError,
>)
    ensures
        match visit_table(table.deep_view(), scope.deep_view()) {
            Ok(entries) => r is Ok && final(out).deep_view() == old(out).deep_view() + entries,
            Err(e) => r is Err && r->Err_0.deep_view() == e,
        },
    decreases table,
{
    let ghost before = *out;
    match &table.node {
        Table::Empty => {
            assert(out.deep_view() =~= before.deep_view() + Seq::<EntryView>::empty());
            Ok(())
        },
        Table::Tail(stmt) => match visit_stmt_node(stmt, scope) {
            Ok(entry) => {
                let ghost pushed = entry;
                out.push(entry);
                proof {
                    lemma_push_deep_view(before, *out, pushed);
                    assert(out.deep_view() =~= before.deep_view() + seq![pushed.deep_view()]);
                }
                Ok(())
            },
            Err(e) => Err(e),
        },
        Table::Head(stmt, rest) => match visit_stmt_node(stmt, scope) {
            Ok(entry) => {
                let ghost pushed = entry;
                out.push(entry);
                proof {
                    lemma_push_deep_view(before, *out, pushed);
                }
                match visit_table_node(rest, scope, out) {
                    Ok(()) => {
                        proof {
                            let rest_entries = visit_table(
                                rest.deep_view(),
                                scope.deep_view(),
                            )->Ok_0;
                            assert(out.deep_view() =~= before.deep_view() + (seq![
                                pushed.deep_view(),
                            ] + rest_entries));
                        }
                        Ok(())
                    },
                    Err(e) => Err(e),
                }
            },
            Err(e) => Err(e),
        },
    }
}

/// Resolves the atoms of `list` under `scope` and appends their values to
/// `out`.
fn visit_list_node(list: &Node<List>, scope: &[Segment], out: &mut Vec<ResolvedValue>) -> (r:
    Result<(), SyntaxError>)
    ensures
        match visit_list(list.deep_view(), scope.deep_view()) {
            Ok(values) => r is Ok && final(out).deep_view() == old(out).deep_view() + values,
            Err(e) => r is Err && r->Err_0.deep_view() == e,
        },
    decreases list,
{
    let ghost before = *out;
    match &list.node {
        List::Empty => {
            assert(out.deep_view() =~= before.deep_view() + Seq::<ValueView>::empty());
            Ok(())
        },
        List::Tail(atom) => match visit_atom_node(atom, scope) {
            Ok((_, value)) => {
                let ghost pushed = value;
                out.push(value);
                proof {
                    lemma_push_deep_view(before, *out, pushed);
                    assert(out.deep_view() =~= before.deep_view() + seq![pushed.deep_view()]);
                }
                Ok(())
            },
            Err(e) => Err(e),
        },
        List::Head(atom, rest) => match visit_atom_node(atom, scope) {
            Ok((_, value)) => {
                let ghost pushed = value;
                out.push(value);
                proof {
                    lemma_push_deep_view(before, *out, pushed);
                }
                match visit_list_node(rest, scope, out) {
                    Ok(()) => {
                        proof {
                            let rest_values = visit_list(rest.deep_view(), scope.deep_view())->Ok_0;
                            assert(out.deep_view() =~= before.deep_view() + (seq![
                                pushed.deep_view(),
                            ] + rest_values));
                        }
                        Ok(())
                    },
                    Err(e) => Err(e),
                }
            },
            Err(e) => Err(e),
        },
    }
}

impl Node<Atom> {
    /// Resolves this atom under `scope`: returns the position that the value
    /// is attributed to and the value, exactly as [`visit_atom`] defines
    /// them, or the failure for the first expression met.
    pub fn visit(&self, scope: &[Segment]) -> (r: Result<(Position, ResolvedValue), SyntaxError>)
        ensures
            visited_view(r) == visit_atom(self.deep_view(), scope.deep_view()),
    {
        visit_atom_node(self, scope)
    }
}

impl Node<Stmt> {
    /// Resolves this statement under `scope`: the entry's path is `scope`
    /// followed by the statement's own path, exactly as [`visit_stmt`]
    /// defines it.
    pub fn visit(&self, scope: &[Segment]) -> (r: Result<Entry, SyntaxError>)
        ensures
            entry_result_view(r) == visit_stmt(self.deep_view(), scope.deep_view()),
    {
        visit_stmt_node(self, scope)
    }
}

impl SourceFile {
    /// Resolves the whole script from the empty scope. `origin` names the
    /// script; it is recorded in the tree.
    pub fn visit(&self, origin: &str) -> (r: Result<ActionTree, SyntaxError>)
        ensures
            tree_result_view(r) == visit_source(self.deep_view(), origin@),
    {
        let scope: Vec<Segment> = Vec::new();
        assert(scope.deep_view() =~= Seq::<SegmentView>::empty());
        let mut entries: Vec<Entry> = Vec::new();
        assert(entries.deep_view() =~= Seq::<EntryView>::empty());
        match visit_table_node(&self.body, scope.as_slice(), &mut entries) {
            Ok(()) => {
                proof {
                    let resolved = visit_table(self.body.deep_view(), scope.deep_view())->Ok_0;
                    assert(Seq::<EntryView>::empty() + resolved =~= resolved);
                }
                Ok(ActionTree { origin: String::from_str(origin), entries })
            },
            Err(e) => Err(e),
        }
    }
}

/// The statements of a table, in order.
pub open spec fn table_stmts(table: NodeView<TableView>) -> Seq<NodeView<StmtView>>
    decreases table,
{
    match table.node {
        TableView::Empty => Seq::empty(),
        TableView::Tail(stmt) => seq![stmt],
        TableView::Head(stmt, rest) => seq![stmt] + table_stmts(*rest),
    }
}

/// The statements directly inside the table that `stmt` assigns, if it
/// assigns a table.
pub open spec fn inner_stmts(stmt: NodeView<StmtView>) -> Option<Seq<NodeView<StmtView>>> {
    match stmt.node {
        StmtView::Config(_, atom) => match atom.node {
            AtomView::Table(table) => Some(table_stmts(*table)),
            _ => None,
        },
    }
}

/// The path that a statement assigns to.
pub open spec fn stmt_path(stmt: NodeView<StmtView>) -> NodeView<PathView> {
    match stmt.node {
        StmtView::Config(path, _) => path,
    }
}

/// The statement reached from `stmt` by going down through tables:
/// `address[0]` picks a statement of the table that `stmt` assigns,
/// `address[1]` one of the table that this one assigns, and so on. `None`
/// where a statement on the way assigns no table or an index is out of range.
pub open spec fn nested_stmt(stmt: NodeView<StmtView>, address: Seq<int>) -> Option<
    NodeView<StmtView>,
>
    decreases address.len(),
{
    if address.len() == 0 {
        Some(stmt)
    } else {
        match inner_stmts(stmt) {
            Some(inner) => if 0 <= address[0] < inner.len() {
                nested_stmt(inner[address[0]], address.drop_first())
            } else {
                None
            },
            None => None,
        }
    }
}

/// The paths of `stmt` and of the statements on the way down to the one at
/// `address`, that one included, joined outermost first.
pub open spec fn enclosing_paths(stmt: NodeView<StmtView>, address: Seq<int>) -> Seq<SegmentView>
    decreases address.len(),
{
    if address.len() == 0 {
        spec_flatten(stmt_path(stmt))
    } else {
        match inner_stmts(stmt) {
            Some(inner) => if 0 <= address[0] < inner.len() {
                spec_flatten(stmt_path(stmt)) + enclosing_paths(
                    inner[address[0]],
                    address.drop_first(),
                )
            } else {
                spec_flatten(stmt_path(stmt))
            },
            None => spec_flatten(stmt_path(stmt)),
        }
    }
}

/// The entry reached from `entry` by going down through table values, as
/// [`nested_stmt`] goes down through tables.
pub open spec fn nested_entry(entry: EntryView, address: Seq<int>) -> Option<EntryView>
    decreases address.len(),
{
    if address.len() == 0 {
        Some(entry)
    } else {
        match entry.value {
            ValueView::Table(inner) => if 0 <= address[0] < inner.len() {
                nested_entry(inner[address[0]], address.drop_first())
            } else {
                None
            },
            _ => None,
        }
    }
}

/// A table resolves statement by statement: as many entries as statements,
/// the i-th entry from the i-th statement, all under the table's scope.
pub proof fn lemma_visit_table_pointwise(table: NodeView<TableView>, scope: Seq<SegmentView>)
    requires
        visit_table(table, scope) is Ok,
    ensures
        visit_table(table, scope)->Ok_0.len() == table_stmts(table).len(),
        forall|i: int|
            0 <= i < table_stmts(table).len() ==> visit_stmt(
                #[trigger] table_stmts(table)[i],
                scope,
            ) == Ok::<EntryView, SyntaxErrorView>(visit_table(table, scope)->Ok_0[i]),
    decreases table,
{
    match table.node {
        TableView::Empty => {},
        TableView::Tail(stmt) => {},
        TableView::Head(stmt, rest) => {
            lemma_visit_table_pointwise(*rest, scope);
        },
    }
}

/// The names of two scopes joined are the names of the first followed by the
/// names of the second.
pub proof fn lemma_names_concat(a: Seq<SegmentView>, b: Seq<SegmentView>)
    ensures
        names(a + b) == names(a) + names(b),
{
    assert(names(a + b) =~= names(a) + names(b));
}

/// Scope concatenation. Resolve a statement under `scope`; then the entry of
/// any statement nested inside it through tables, however deep, has as its
/// absolute path the names of `scope` followed by the path of every
/// enclosing statement and its own, outermost first, with no segment dropped
/// or reordered.
pub proof fn lemma_scope_concatenation(
    stmt: NodeView<StmtView>,
    scope: Seq<SegmentView>,
    address: Seq<int>,
)
    requires
        visit_stmt(stmt, scope) is Ok,
        nested_stmt(stmt, address) is Some,
    ensures
        nested_entry(visit_stmt(stmt, scope)->Ok_0, address) is Some,
        nested_entry(visit_stmt(stmt, scope)->Ok_0, address)->Some_0.path == names(scope)
            + names(enclosing_paths(stmt, address)),
    decreases address.len(),
{
    let own = spec_flatten(stmt_path(stmt));
    let key = scope + own;
    lemma_names_concat(scope, own);
    if address.len() > 0 {
        let inner = inner_stmts(stmt)->Some_0;
        let child = inner[address[0]];
        let rest = address.drop_first();
        match stmt.node {
            StmtView::Config(path, atom) => {
                match atom.node {
                    AtomView::Table(table) => {
                        lemma_visit_table_pointwise(*table, key);
                        let entries = visit_table(*table, key)->Ok_0;
                        assert(visit_stmt(child, key) == Ok::<EntryView, SyntaxErrorView>(
                            entries[address[0]],
                        ));
                        lemma_scope_concatenation(child, key, rest);
                        lemma_names_concat(own, enclosing_paths(child, rest));
                        assert(names(key) + names(enclosing_paths(child, rest)) =~= names(scope)
                            + names(enclosing_paths(stmt, address)));
                    },
                    _ => {},
                }
            },
        }
    }
}

/// The atom `prefix >> { ... }` with the given table.
pub open spec fn apply_to_table(
    position: Position,
    prefix: NodeView<PathView>,
    table: NodeView<TableView>,
) -> NodeView<AtomView> {
    NodeView {
        position,
        node: AtomView::Apply(
            prefix,
            Box::new(
                NodeView { position: table.position, node: AtomView::Table(Box::new(table)) },
            ),
        ),
    }
}

/// Scope concatenation under an apply. Resolve `prefix >> { ... }` under any
/// scope; the value is the table's entries resolved under the prefix, and
/// the entry of any statement nested inside the table, however deep, has as
/// its absolute path the names of the prefix followed by the path of every
/// enclosing statement and its own, outermost first. The scope around the
/// apply contributes nothing.
pub proof fn lemma_apply_prefix_concatenation(
    position: Position,
    prefix: NodeView<PathView>,
    table: NodeView<TableView>,
    scope: Seq<SegmentView>,
    index: int,
    address: Seq<int>,
)
    requires
        visit_table(table, spec_flatten(prefix)) is Ok,
        0 <= index < table_stmts(table).len(),
        nested_stmt(table_stmts(table)[index], address) is Some,
    ensures
        visit_atom(apply_to_table(position, prefix, table), scope) == Ok::<
            (Position, ValueView),
            SyntaxErrorView,
        >((table.position, ValueView::Table(visit_table(table, spec_flatten(prefix))->Ok_0))),
        index < visit_table(table, spec_flatten(prefix))->Ok_0.len(),
        nested_entry(visit_table(table, spec_flatten(prefix))->Ok_0[index], address) is Some,
        nested_entry(visit_table(table, spec_flatten(prefix))->Ok_0[index], address)->Some_0.path
            == names(spec_flatten(prefix)) + names(
            enclosing_paths(table_stmts(table)[index], address),
        ),
{
    let under = spec_flatten(prefix);
    let atom = apply_to_table(position, prefix, table);
    let inner = *atom.node->Apply_1;
    assert(visit_atom(atom, scope) == visit_atom(inner, under));
    assert(visit_atom(inner, under) == Ok::<(Position, ValueView), SyntaxErrorView>(
        (table.position, ValueView::Table(visit_table(table, under)->Ok_0)),
    ));
    lemma_visit_table_pointwise(table, under);
    lemma_scope_concatenation(table_stmts(table)[index], under, address);
}

/// An apply replaces the scope: its atom is resolved under the apply's path
/// alone, so the result is the same under every enclosing scope.
pub proof fn lemma_apply_replaces_scope(
    atom: NodeView<AtomView>,
    scope: Seq<SegmentView>,
    other: Seq<SegmentView>,
)
    requires
        atom.node is Apply,
    ensures
        visit_atom(atom, scope) == visit_atom(atom, other),
        visit_atom(atom, scope) == visit_atom(
            *atom.node->Apply_1,
            spec_flatten(atom.node->Apply_0),
        ),
{
}

/// The entries that the script `src` resolves to: its tokens, parsed as a
/// script and resolved from the empty scope; or the first failure of any of
/// the three steps.
pub open spec fn spec_action_tree(origin: Seq<char>, src: Seq<char>) -> Result<
    ActionTreeView,
    SyntaxErrorView,
> {
    match spec_tokenize(src) {
        Ok(tokens) => match spec_parse_source(tokens) {
            Ok(file) => visit_source(file, origin),
            Err(e) => Err(e),
        },
        Err(e) => Err(e),
    }
}

impl ActionTree {
    /// Lexes, parses and resolves the script `src`, which `origin` names.
    ///
    /// The result is a function of the two texts alone: the same script
    /// always yields the same entries in the same order, or the same failure.
    /// The first failure of any step ends the run; no partial tree is
    /// returned.
    pub fn from_script(origin: &str, src: &str) -> (r: Result<ActionTree, SyntaxError>)
        ensures
            tree_result_view(r) == spec_action_tree(origin@, src@),
    {
        let tokens = match Token::tokenize(src) {
            Ok(tokens) => tokens,
            Err(e) => {
                return Err(e);
            },
        };
        let file = match SourceFile::parse(tokens.as_slice()) {
            Ok(file) => file,
            Err(e) => {
                return Err(e);
            },
        };
        file.visit(origin)
    }
}

} // verus!
