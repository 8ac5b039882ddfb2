use vstd::prelude::*;
use crate::value::Value;
use crate::expr::{CompileError, CompiledExpr, Expr, compile_spec, exec_expr};

verus! {

/// One item of a projection list.
#[derive(Debug)]
pub enum SelectItem {
    /// An expression with its display label (the expression's text).
    Expr(Expr, String),
    /// The "all fields" marker.
    Wildcard,
    /// Any other projection form.
    Unsupported,
}

/// One relation of a `FROM` clause.
#[derive(Debug)]
pub struct TableRef {
    pub name: String,
    /// The relation carries joins.
    pub joined: bool,
}

#[derive(Debug)]
pub struct Select {
    pub projection: Vec<SelectItem>,
    pub from: Vec<TableRef>,
    pub selection: Option<Expr>,
    /// The query carries clauses beyond `WHERE`: grouping, ordering,
    /// limits, `DISTINCT`, common table expressions and the like.
    pub other_clauses: bool,
}

/// A parsed statement: a plain `SELECT`, or anything else.
#[derive(Debug)]
pub enum Statement {
    Select(Select),
    Other,
}

#[derive(Debug, Clone, Copy, PartialEq, Eq, Structural)]
pub enum BindError {
    UnsupportedStatement,
    Compile(CompileError),
}

/// The bound query: source name, labelled projections and optional filter.
#[derive(Debug)]
pub struct QueryBinding {
    pub source: String,
    pub projections: Vec<(String, CompiledExpr)>,
    pub filter: Option<CompiledExpr>,
}

impl QueryBinding {
    pub open spec fn well_formed(&self) -> bool {
        &&& forall|i: int| 0 <= i < self.projections@.len() ==> (
        #[trigger] self.projections@[i]).1.well_formed()
        &&& self.filter matches Some(f) ==> f.well_formed()
    }
}

pub open spec fn is_quote(c: char) -> bool {
    c == '\'' || c == '"' || c == '`'
}

pub open spec fn strip_front(s: Seq<char>) -> Seq<char>
    decreases s.len(),
{
    if s.len() > 0 && is_quote(s[0]) {
        strip_front(s.drop_first())
    } else {
        s
    }
}

pub open spec fn strip_back(s: Seq<char>) -> Seq<char>
    decreases s.len(),
{
    if s.len() > 0 && is_quote(s.last()) {
        strip_back(s.drop_last())
    } else {
        s
    }
}

/// `s` without the quote characters that surround it.
pub open spec fn strip_quotes(s: Seq<char>) -> Seq<char> {
    strip_back(strip_front(s))
}

/// The error an item of a projection list gives, if any.
pub open spec fn item_error(item: SelectItem) -> Option<BindError> {
    match item {
        SelectItem::Expr(e, _) => match compile_spec(e) {
            Ok(_) => None,
            Err(ce) => Some(BindError::Compile(ce)),
        },
        SelectItem::Wildcard => None,
        SelectItem::Unsupported => Some(BindError::UnsupportedStatement),
    }
}

/// The first error among the first `n` items.
pub open spec fn first_item_error(items: Seq<SelectItem>, n: int) -> Option<BindError>
    decreases n,
{
    if n <= 0 {
        None
    } else {
        match first_item_error(items, n - 1) {
            Some(e) => Some(e),
            None => item_error(items[n - 1]),
        }
    }
}

/// The statement list is a single `SELECT` over a single table without
/// joins, with no clause beyond `WHERE`.
pub open spec fn single_table_select(stmts: Seq<Statement>) -> bool {
    &&& stmts.len() == 1
    &&& stmts[0] matches Statement::Select(sel)
    &&& sel.from@.len() == 1
    &&& !sel.from@[0].joined
    &&& !sel.other_clauses
}

pub open spec fn select_of(stmts: Seq<Statement>) -> Select {
    stmts[0]->Select_0
}

/// What compiling the optional filter gives.
pub open spec fn filter_spec(sel: Option<Expr>) -> Result<Option<CompiledExpr>, CompileError> {
    match sel {
        None => Ok(None),
        Some(e) => match compile_spec(e) {
            Ok(c) => Ok(Some(c)),
            Err(ce) => Err(ce),
        },
    }
}

/// The error binding `stmts` gives, if any.
pub open spec fn bind_error(stmts: Seq<Statement>) -> Option<BindError> {
    if !single_table_select(stmts) {
        Some(BindError::UnsupportedStatement)
    } else {
        let sel = select_of(stmts);
        match first_item_error(sel.projection@, sel.projection@.len() as int) {
            Some(e) => Some(e),
            None => match filter_spec(sel.selection) {
                Ok(_) => None,
                Err(ce) => Some(BindError::Compile(ce)),
            },
        }
    }
}

/// `p` is the compiled, labelled form of projection item `item`.
pub open spec fn projects_item(item: SelectItem, p: (String, CompiledExpr)) -> bool {
    match item {
        SelectItem::Expr(e, label) => p.0@ == label@ && compile_spec(e) == Ok::<
            CompiledExpr,
            CompileError,
        >(p.1),
        SelectItem::Wildcard => p.0@ == "*"@ && p.1 == CompiledExpr::Constant(Value::Wildcard),
        SelectItem::Unsupported => false,
    }
}

/// Removes the quote characters that surround `s`.
pub fn strip_surrounding_quotes(s: &String) -> (r: String)
    ensures
        r@ == strip_quotes(s@),
{
    let n: usize = s.as_str().unicode_len();
    let mut lo: usize = 0;
    assert(s@.subrange(0, n as int) =~= s@);
    while lo < n && is_quote_char(s.as_str().get_char(lo))
        invariant
            lo <= n,
            n == s@.len(),
            strip_front(s@) == strip_front(s@.subrange(lo as int, n as int)),
        decreases n - lo,
    {
        assert(s@.subrange(lo as int, n as int).drop_first() =~= s@.subrange(lo + 1, n as int));
        lo = lo + 1;
    }
    let mut hi: usize = n;
    assert(strip_front(s@) == s@.subrange(lo as int, n as int));
    while hi > lo && is_quote_char(s.as_str().get_char(hi - 1))
        invariant
            lo <= hi <= n,
            n == s@.len(),
            strip_quotes(s@) == strip_back(s@.subrange(lo as int, hi as int)),
        decreases hi,
    {
        assert(s@.subrange(lo as int, hi as int).drop_last() =~= s@.subrange(
            lo as int,
            hi - 1,
        ));
        hi = hi - 1;
    }
    String::from_str(s.as_str().substring_char(lo, hi))
}

fn is_quote_char(c: char) -> (r: bool)
    ensures
        r == is_quote(c),
{
    c == '\'' || c == '"' || c == '`'
}

/// Binds a parsed statement list: it must be a single `SELECT` over a single
/// table, with no clause beyond `WHERE`. Each projection item and the filter are compiled; the source name
/// is the relation's name without surrounding quotes.
pub fn bind(stmts: &Vec<Statement>) -> (r: Result<QueryBinding, BindError>)
    ensures
        r is Err <==> bind_error(stmts@) is Some,
        r matches Err(e) ==> bind_error(stmts@) == Some(e),
        r matches Ok(b) ==> {
            let sel = select_of(stmts@);
            &&& b.well_formed()
            &&& b.source@ == strip_quotes(sel.from@[0].name@)
            &&& b.projections@.len() == sel.projection@.len()
            &&& forall|i: int|
                0 <= i < b.projections@.len() ==> projects_item(
                    sel.projection@[i],
                    #[trigger] b.projections@[i],
                )
            &&& filter_spec(sel.selection) == Ok::<Option<CompiledExpr>, CompileError>(b.filter)
        },
{
    if stmts.len() != 1 {
        return Err(BindError::UnsupportedStatement);
    }
    let sel = match &stmts[0] {
        Statement::Select(sel) => sel,
        Statement::Other => return Err(BindError::UnsupportedStatement),
    };
    if sel.from.len() != 1 || sel.from[0].joined || sel.other_clauses {
        return Err(BindError::UnsupportedStatement);
    }
    let mut projections: Vec<(String, CompiledExpr)> = Vec::new();
    let mut i: usize = 0;
    while i < sel.projection.len()
        invariant
            i <= sel.projection@.len(),
            *sel == select_of(stmts@),
            single_table_select(stmts@),
            first_item_error(sel.projection@, i as int) is None,
            projections@.len() == i,
            forall|j: int|
                0 <= j < i ==> projects_item(sel.projection@[j], #[trigger] projections@[j]),
            forall|j: int| 0 <= j < i ==> (#[trigger] projections@[j]).1.well_formed(),
        decreases sel.projection.len() - i,
    {
        match &sel.projection[i] {
            SelectItem::Expr(e, label) => match exec_expr(e) {
                Ok(c) => projections.push((label.clone(), c)),
                Err(ce) => {
                    proof {
                        lemma_first_error_stays(sel.projection@, i as int + 1);
                    }
                    return Err(BindError::Compile(ce));
                },
            },
            SelectItem::Wildcard => {
                projections.push((String::from_str("*"), CompiledExpr::Constant(Value::Wildcard)));
            },
            SelectItem::Unsupported => {
                proof {
                    lemma_first_error_stays(sel.projection@, i as int + 1);
                }
                return Err(BindError::UnsupportedStatement);
            },
        }
        i = i + 1;
    }
    let filter = match &sel.selection {
        None => None,
        Some(e) => match exec_expr(e) {
            Ok(c) => Some(c),
            Err(ce) => return Err(BindError::Compile(ce)),
        },
    };
    let source = strip_surrounding_quotes(&sel.from[0].name);
    Ok(QueryBinding { source, projections, filter })
}

/// An error among the first `n` items is the first error of the whole list.
proof fn lemma_first_error_stays(items: Seq<SelectItem>, n: int)
    requires
        0 <= n <= items.len(),
        first_item_error(items, n) is Some,
    ensures
        first_item_error(items, items.len() as int) == first_item_error(items, n),
    decreases items.len() - n,
{
    if n < items.len() {
        lemma_first_error_stays(items, n + 1);
    }
}

} // verus!
