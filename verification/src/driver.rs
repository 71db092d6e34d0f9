//! The query driver: the rows of the dataset that the predicate keeps, each
//! reduced to the selected columns, in the order of the dataset.

use vstd::prelude::*;
use vstd::string::*;
use crate::data::DataAccessor;
use crate::error::{EvalFault, QueryError, QueryErrorView};
use crate::filter::{Predicate, eval, lemma_eval_within};
use crate::lexer::items;
use crate::parser::{ParsedQuery, Parser, QueryView, parse_spec};
use crate::text::{table, texts};

verus! {

/// The fields of `row` in the columns `cols`, in the order of `cols`; or the
/// first of `cols` that `row` does not have.
pub open spec fn project(cols: Seq<usize>, row: Seq<Seq<char>>) -> Result<
    Seq<Seq<char>>,
    EvalFault,
>
    decreases cols.len(),
{
    if cols.len() == 0 {
        Ok(Seq::empty())
    } else {
        match project(cols.drop_last(), row) {
            Ok(fields) => if cols.last() < row.len() {
                Ok(fields.push(row[cols.last() as int]))
            } else {
                Err(EvalFault::MissingField { col: cols.last() })
            },
            Err(e) => Err(e),
        }
    }
}

/// Whether a row stays: always where there is no predicate.
pub open spec fn keeps(filter: Option<Predicate>, row: Seq<Seq<char>>) -> Result<bool, EvalFault> {
    match filter {
        Some(p) => eval(p, row),
        None => Ok(true),
    }
}

/// What one row adds to the result: nothing where the predicate is false,
/// else its projection.
pub open spec fn row_result(q: QueryView, row: Seq<Seq<char>>) -> Result<
    Option<Seq<Seq<char>>>,
    EvalFault,
> {
    match keeps(q.filter, row) {
        Ok(true) => match project(q.cols, row) {
            Ok(fields) => Ok(Some(fields)),
            Err(e) => Err(e),
        },
        Ok(false) => Ok(None),
        Err(e) => Err(e),
    }
}

/// The result of query `q` on `rows`: what each row adds, in the order of
/// the rows; or the error of the first row that has one.
pub open spec fn run_spec(q: QueryView, rows: Seq<Seq<Seq<char>>>) -> Result<
    Seq<Seq<Seq<char>>>,
    EvalFault,
>
    decreases rows.len(),
{
    if rows.len() == 0 {
        Ok(Seq::empty())
    } else {
        match run_spec(q, rows.drop_last()) {
            Ok(out) => match row_result(q, rows.last()) {
                Ok(Some(fields)) => Ok(out.push(fields)),
                Ok(None) => Ok(out),
                Err(e) => Err(e),
            },
            Err(e) => Err(e),
        }
    }
}

/// An error on a prefix of the rows is the error on all of them.
pub proof fn lemma_run_prefix_error(q: QueryView, rows: Seq<Seq<Seq<char>>>, k: int)
    requires
        0 <= k <= rows.len(),
        run_spec(q, rows.take(k)) is Err,
    ensures
        run_spec(q, rows) == run_spec(q, rows.take(k)),
    decreases rows.len(),
{
    if k == rows.len() {
        assert(rows.take(k) =~= rows);
    } else {
        assert(rows.drop_last().take(k) =~= rows.take(k));
        lemma_run_prefix_error(q, rows.drop_last(), k);
    }
}

/// An error on a prefix of the columns is the error on all of them.
pub proof fn lemma_project_prefix_error(cols: Seq<usize>, row: Seq<Seq<char>>, k: int)
    requires
        0 <= k <= cols.len(),
        project(cols.take(k), row) is Err,
    ensures
        project(cols, row) == project(cols.take(k), row),
    decreases cols.len(),
{
    if k == cols.len() {
        assert(cols.take(k) =~= cols);
    } else {
        assert(cols.drop_last().take(k) =~= cols.take(k));
        lemma_project_prefix_error(cols.drop_last(), row, k);
    }
}

/// On a row that has every selected column, the projection has one field
/// for each selected column: the row's field in that column.
pub proof fn lemma_project_within(cols: Seq<usize>, row: Seq<Seq<char>>)
    requires
        forall|k: int| 0 <= k < cols.len() ==> cols[k] < row.len(),
    ensures
        project(cols, row) is Ok,
        project(cols, row)->Ok_0.len() == cols.len(),
        forall|k: int|
            0 <= k < cols.len() ==> (#[trigger] project(cols, row)->Ok_0[k]) == row[cols[k] as int],
    decreases cols.len(),
{
    if cols.len() > 0 {
        lemma_project_within(cols.drop_last(), row);
        assert forall|k: int| 0 <= k < cols.len() implies (#[trigger] project(
            cols,
            row,
        )->Ok_0[k]) == row[cols[k] as int] by {
            if k < cols.len() - 1 {
                assert(cols.drop_last()[k] == cols[k]);
            }
        }
    }
}

/// A query whose columns are all positions in the header, run on rows that
/// are as wide as the header, fails only where a field that is compared as a
/// number is none; and every row of a result has one field for each selected
/// column.
pub proof fn lemma_run_on_fitting_rows(q: QueryView, rows: Seq<Seq<Seq<char>>>, width: nat)
    requires
        q.fits(width),
        forall|i: int| 0 <= i < rows.len() ==> (#[trigger] rows[i]).len() == width,
    ensures
        match run_spec(q, rows) {
            Ok(out) => forall|i: int| 0 <= i < out.len() ==> (#[trigger] out[i]).len() == q.cols.len(),
            Err(f) => f is NotANumber,
        },
    decreases rows.len(),
{
    if rows.len() > 0 {
        let row = rows.last();
        assert(row == rows[rows.len() - 1]);
        assert forall|i: int| 0 <= i < rows.drop_last().len() implies (#[trigger] rows.drop_last()[i]).len()
            == width by {
            assert(rows.drop_last()[i] == rows[i]);
        }
        lemma_run_on_fitting_rows(q, rows.drop_last(), width);
        lemma_project_within(q.cols, row);
        match q.filter {
            Some(p) => {
                lemma_eval_within(p, row);
            },
            None => {},
        }
    }
}

/// A result has no more rows than the dataset.
pub proof fn lemma_run_length(q: QueryView, rows: Seq<Seq<Seq<char>>>)
    requires
        run_spec(q, rows) is Ok,
    ensures
        run_spec(q, rows)->Ok_0.len() <= rows.len(),
    decreases rows.len(),
{
    if rows.len() > 0 {
        lemma_run_length(q, rows.drop_last());
    }
}

/// What an executable run returned, with the rows as texts and the error by
/// its view.
pub open spec fn run_outcome(r: Result<Vec<Vec<String>>, QueryError>) -> Result<
    Seq<Seq<Seq<char>>>,
    QueryErrorView,
> {
    match r {
        Ok(rows) => Ok(table(rows@)),
        Err(e) => Err(e@),
    }
}

/// An evaluation's result as a query's: a fault is a `QueryFailed`.
pub open spec fn as_run_outcome(r: Result<Seq<Seq<Seq<char>>>, EvalFault>) -> Result<
    Seq<Seq<Seq<char>>>,
    QueryErrorView,
> {
    match r {
        Ok(rows) => Ok(rows),
        Err(f) => Err(QueryErrorView::QueryFailed(f)),
    }
}

/// The fields of `row` in the columns `cols`.
pub fn project_row(cols: &Vec<usize>, row: &Vec<String>) -> (r: Result<Vec<String>, QueryError>)
    ensures
        match project(cols@, texts(row@)) {
            Ok(fields) => r is Ok && texts(r->Ok_0@) == fields,
            Err(f) => r is Err && r->Err_0@ == QueryErrorView::QueryFailed(f),
        },
{
    let mut fields: Vec<String> = Vec::new();
    let mut i: usize = 0;
    assert(cols@.take(0) =~= Seq::<usize>::empty());
    assert(texts(fields@) =~= Seq::<Seq<char>>::empty());
    while i < cols.len()
        invariant
            i <= cols@.len(),
            project(cols@.take(i as int), texts(row@)) == Ok::<Seq<Seq<char>>, EvalFault>(
                texts(fields@),
            ),
        decreases cols@.len() - i,
    {
        let col = cols[i];
        proof {
            assert(cols@.take(i + 1).drop_last() =~= cols@.take(i as int));
            assert(cols@.take(i + 1).last() == col);
        }
        if col >= row.len() {
            proof {
                lemma_project_prefix_error(cols@, texts(row@), i + 1);
            }
            return Err(QueryError::QueryFailed(EvalFault::MissingField { col }));
        }
        let ghost before = texts(fields@);
        fields.push(row[col].clone());
        assert(texts(fields@) =~= before.push(row@[col as int]@));
        i = i + 1;
    }
    assert(cols@.take(i as int) =~= cols@);
    Ok(fields)
}

/// Runs `query` on `rows`: keeps the rows on which the predicate holds, all
/// of them where there is no predicate, and reduces each to the selected
/// columns. The order of the rows stays. The first row whose predicate
/// cannot be evaluated, or that lacks a selected column, ends the run with
/// its error.
pub fn run(query: &ParsedQuery, rows: &Vec<Vec<String>>) -> (r: Result<
    Vec<Vec<String>>,
    QueryError,
>)
    ensures
        run_outcome(r) == as_run_outcome(run_spec(query@, table(rows@))),
{
    let ghost q = query@;
    let ghost all = table(rows@);
    let mut out: Vec<Vec<String>> = Vec::new();
    let mut i: usize = 0;
    assert(all.take(0) =~= Seq::<Seq<Seq<char>>>::empty());
    assert(table(out@) =~= Seq::<Seq<Seq<char>>>::empty());
    while i < rows.len()
        invariant
            i <= rows@.len(),
            q == query@,
            all == table(rows@),
            run_spec(q, all.take(i as int)) == Ok::<Seq<Seq<Seq<char>>>, EvalFault>(table(out@)),
        decreases rows@.len() - i,
    {
        let row = &rows[i];
        proof {
            assert(all.take(i + 1).drop_last() =~= all.take(i as int));
            assert(all.take(i + 1).last() == texts(row@));
        }
        let keep = match &query.filter {
            Some(f) => f.filter(row),
            None => Ok(true),
        };
        match keep {
            Ok(true) => {
                match project_row(&query.cols, row) {
                    Ok(fields) => {
                        let ghost before = table(out@);
                        out.push(fields);
                        assert(table(out@) =~= before.push(texts(fields@)));
                    },
                    Err(e) => {
                        proof {
                            lemma_run_prefix_error(q, all, i + 1);
                        }
                        return Err(e);
                    },
                }
            },
            Ok(false) => {},
            Err(e) => {
                proof {
                    lemma_run_prefix_error(q, all, i + 1);
                }
                return Err(e);
            },
        }
        i = i + 1;
    }
    assert(all.take(i as int) =~= all);
    Ok(out)
}

/// Answers queries from a registry.
pub struct Driver {
    pub data: DataAccessor,
}

impl Driver {
    /// A driver over the registry `data`.
    pub fn new(data: DataAccessor) -> (d: Driver)
        ensures
            d.data == data,
    {
        Driver { data }
    }

    /// Runs `query` on the rows of its dataset, from the registry's cache.
    /// Fails with `UnknownDataset` for a dataset that is not known, and with
    /// `NotLoaded` for a known one whose rows were not loaded; else the
    /// result is that of `run` on the dataset's rows.
    pub fn perform_query(&self, query: ParsedQuery) -> (r: Result<Vec<Vec<String>>, QueryError>)
        ensures
            !self.data.knows(query.from@) ==> r is Err && r->Err_0@
                == QueryErrorView::UnknownDataset(query.from@),
            self.data.knows(query.from@) ==> match self.data.cached(query.from@) {
                Some(rows) => run_outcome(r) == as_run_outcome(run_spec(query@, rows)),
                None => r is Err && r->Err_0@ == QueryErrorView::NotLoaded(query.from@),
            },
    {
        let rows = self.data.get(query.from.as_str())?;
        run(&query, rows)
    }
}

/// The rows that a query gave, with the text of the query.
pub struct QueryResult {
    pub data: Vec<Vec<String>>,
    pub query: String,
}

/// Answers the query `input_query` from the registry of `driver`. `headers`
/// is the header of the dataset that the query names, and the dataset's rows
/// have to be in the registry's cache. The answer depends on the text, the
/// header and the registry alone: the same three give the same rows in the
/// same order, or the same error. A query that does not parse fails with the
/// parser's error whatever the registry holds: no row is looked at.
pub fn perform_query(input_query: String, headers: &Vec<String>, driver: &Driver) -> (r: Result<
    QueryResult,
    QueryError,
>)
    ensures
        match parse_spec(items(input_query@, 0), texts(headers@)) {
            Ok(q) => if !driver.data.knows(q.from) {
                r is Err && r->Err_0@ == QueryErrorView::UnknownDataset(q.from)
            } else {
                match driver.data.cached(q.from) {
                    Some(rows) => match run_spec(q, rows) {
                        Ok(out) => {
                            &&& r is Ok
                            &&& table(r->Ok_0.data@) == out
                            &&& r->Ok_0.query@ == input_query@
                        },
                        Err(f) => r is Err && r->Err_0@ == QueryErrorView::QueryFailed(f),
                    },
                    None => r is Err && r->Err_0@ == QueryErrorView::NotLoaded(q.from),
                }
            },
            Err(e) => r is Err && r->Err_0@ == e,
        },
{
    let mut parser = Parser::new(input_query.as_str());
    let target = parser.parse_target()?;
    let parsed_query = parser.parse(target, headers)?;
    let data = driver.perform_query(parsed_query)?;
    Ok(QueryResult { data, query: input_query })
}

/// One row as text: `[`, the fields with `,` between them, `]` and a line
/// end.
pub open spec fn row_text(row: Seq<Seq<char>>) -> Seq<char> {
    seq!['['] + fields_text(row) + seq![']', '\n']
}

/// The fields of a row with `,` between them.
pub open spec fn fields_text(row: Seq<Seq<char>>) -> Seq<char>
    decreases row.len(),
{
    if row.len() == 0 {
        Seq::empty()
    } else if row.len() == 1 {
        row[0]
    } else {
        fields_text(row.drop_last()) + seq![','] + row.last()
    }
}

/// The rows as text, one after the other.
pub open spec fn rows_text(rows: Seq<Seq<Seq<char>>>) -> Seq<char>
    decreases rows.len(),
{
    if rows.len() == 0 {
        Seq::empty()
    } else {
        rows_text(rows.drop_last()) + row_text(rows.last())
    }
}

impl QueryResult {
    /// The result `data` of the query `query`.
    pub fn new(data: Vec<Vec<String>>, query: String) -> (r: QueryResult)
        ensures
            r.data == data,
            r.query == query,
    {
        QueryResult { data, query }
    }

    /// The result as text: the query between `'`, a colon and a line end,
    /// then each row on a line of its own, between `[` and `]`, with `,`
    /// between its fields.
    pub fn render(&self) -> (s: String)
        ensures
            s@ == seq!['\''] + self.query@ + seq!['\'', ':', '\n'] + rows_text(table(self.data@)),
    {
        let mut s = String::from_str("'");
        s.append(self.query.as_str());
        s.append("':\n");
        proof {
            reveal_strlit("'");
            reveal_strlit("':\n");
            assert("'"@ =~= seq!['\'']);
            assert("':\n"@ =~= seq!['\'', ':', '\n']);
            reveal_strlit("[");
            reveal_strlit("]\n");
            reveal_strlit(",");
            assert("["@ =~= seq!['[']);
            assert("]\n"@ =~= seq![']', '\n']);
            assert(","@ =~= seq![',']);
        }
        let ghost head = s@;
        let ghost all = table(self.data@);
        let mut i: usize = 0;
        assert(all.take(0) =~= Seq::<Seq<Seq<char>>>::empty());
        assert(s@ =~= head + rows_text(all.take(0)));
        while i < self.data.len()
            invariant
                i <= self.data@.len(),
                all == table(self.data@),
                s@ == head + rows_text(all.take(i as int)),
                "["@ == seq!['['],
                "]\n"@ == seq![']', '\n'],
                ","@ == seq![','],
            decreases self.data@.len() - i,
        {
            let row = &self.data[i];
            let ghost fields = texts(row@);
            let ghost start = s@;
            proof {
                assert(all.take(i + 1).drop_last() =~= all.take(i as int));
                assert(all.take(i + 1).last() == fields);
            }
            s.append("[");
            let mut j: usize = 0;
            assert(fields.take(0) =~= Seq::<Seq<char>>::empty());
            assert(s@ =~= start + seq!['['] + fields_text(fields.take(0)));
            while j < row.len()
                invariant
                    j <= row@.len(),
                    fields == texts(row@),
                    s@ == start + seq!['['] + fields_text(fields.take(j as int)),
                    ","@ == seq![','],
                decreases row@.len() - j,
            {
                proof {
                    assert(fields.take(j + 1).drop_last() =~= fields.take(j as int));
                    assert(fields.take(j + 1).last() == row@[j as int]@);
                    assert(fields.take(j + 1)[0] == fields[0]);
                }
                if j > 0 {
                    s.append(",");
                }
                s.append(row[j].as_str());
                proof {
                    if j == 0 {
                        assert(fields_text(fields.take(0)) =~= Seq::<char>::empty());
                        assert(s@ =~= start + seq!['['] + fields_text(fields.take(1)));
                    } else {
                        assert(s@ =~= start + seq!['['] + fields_text(fields.take(j + 1)));
                    }
                }
                j = j + 1;
            }
            s.append("]\n");
            proof {
                assert(fields.take(j as int) =~= fields);
                assert(s@ =~= head + rows_text(all.take(i + 1)));
            }
            i = i + 1;
        }
        assert(all.take(i as int) =~= all);
        s
    }
}

} // verus!
