//! The expression compiler and the row evaluator.  An expression is parsed
//! once and dry-run against a mock row, so that a structurally bad
//! expression is rejected before the data pass.  The evaluator then walks
//! the input line by line: header lines pass through untouched, blank and
//! comment lines are skipped, and every other line is split, coerced and
//! evaluated; a line whose coercion or evaluation fails is counted as
//! invalid and the pass goes on.

use vstd::prelude::*;

use crate::coerce::split_char;
use crate::coerce::split_model;
use crate::context::context_for_line;
use crate::context::mock_bindings;
use crate::context::mock_context;
use crate::context::row_bindings;
use crate::context::row_coercible;
use crate::engine::compile_tree;
use crate::engine::eval_boolean;
use crate::engine::eval_model;
use crate::engine::expr_parses;
use crate::engine::node_source;
use crate::membership::is_substring;
use crate::membership::lemma_substring_of_concat;
use crate::report::build_report;
use crate::report::report_model;
use crate::scan::col_refs;
use crate::scan::dedup_refs;
use crate::scan::get_used_columns;
use crate::value::ColumnType;

verus! {

/// Why an expression was rejected before the data pass.
#[derive(Debug)]
pub enum CompileError {
    /// The text does not parse; the message carries the parser's words.
    Syntax(String),
    /// The text parses but its dry run against the mock row failed; the
    /// message carries the engine's words.
    Validation(String),
}

impl CompileError {
    /// The carried description.
    pub open spec fn text(self) -> Seq<char> {
        match self {
            CompileError::Syntax(m) => m@,
            CompileError::Validation(m) => m@,
        }
    }

    /// The human-readable description.
    pub fn message(&self) -> (r: &String)
        ensures
            r@ == self.text(),
    {
        match self {
            CompileError::Syntax(m) => m,
            CompileError::Validation(m) => m,
        }
    }
}

/// A compiled expression: the engine's operator tree, with the text it was
/// built from.
pub struct CompiledExpression {
    node: evalexpr::Node,
    text: String,
}

impl CompiledExpression {
    /// The text the tree was built from.
    pub closed spec fn src(self) -> Seq<char> {
        node_source(self.node)
    }

    /// The carried text is the tree's source.
    pub closed spec fn wf(self) -> bool {
        self.text@ == node_source(self.node)
    }
}

/// Appends three pieces around the expression into the syntax error
/// wording: the message names the expression and carries the parser's
/// words.
fn syntax_message(expression: &String, detail: &String) -> (m: String)
    ensures
        is_substring(expression@, m@),
        is_substring(detail@, m@),
{
    let ghost pre = "Could not compile expression '"@;
    let ghost mid = "'. Please check the syntax. \n Detailed Error: \n "@;
    let mut m = String::from_str("Could not compile expression '");
    m.append(expression.as_str());
    m.append("'. Please check the syntax. \n Detailed Error: \n ");
    m.append(detail.as_str());
    proof {
        lemma_substring_of_concat(pre, expression@, mid + detail@);
        assert(m@ =~= pre + expression@ + (mid + detail@));
        lemma_substring_of_concat(pre + expression@ + mid, detail@, Seq::empty());
        assert(m@ =~= (pre + expression@ + mid) + detail@ + Seq::<char>::empty());
    }
    m
}

/// Appends three pieces around the expression into the validation error
/// wording: the message names the expression and carries the engine's
/// words.
fn validation_message(expression: &String, detail: &String) -> (m: String)
    ensures
        is_substring(expression@, m@),
        is_substring(detail@, m@),
{
    let ghost pre = "Expression test failed for expression: '"@;
    let ghost mid = "'. Please check the syntax and column types. \n Detailed Error: \n "@;
    let mut m = String::from_str("Expression test failed for expression: '");
    m.append(expression.as_str());
    m.append("'. Please check the syntax and column types. \n Detailed Error: \n ");
    m.append(detail.as_str());
    proof {
        lemma_substring_of_concat(pre, expression@, mid + detail@);
        assert(m@ =~= pre + expression@ + (mid + detail@));
        lemma_substring_of_concat(pre + expression@ + mid, detail@, Seq::empty());
        assert(m@ =~= (pre + expression@ + mid) + detail@ + Seq::<char>::empty());
    }
    m
}

/// Compiles and dry-runs the expression.  The referenced columns must be
/// distinct, as the reference extraction yields them.  A text that does not
/// parse is a syntax error; one whose evaluation against the mock row built
/// from the declared types fails, or yields a non-boolean, is a validation
/// error; anything else compiles, once, for the whole run.
pub fn compile_expression(columns: &Vec<usize>, column_types: &Vec<ColumnType>, expression: &String) -> (r: Result<
    CompiledExpression,
    CompileError,
>)
    requires
        forall|a: int, b: int| 0 <= a < b < columns@.len() ==> columns@[a] != columns@[b],
        forall|a: int| 0 <= a < columns@.len() ==> #[trigger] columns@[a] < usize::MAX,
    ensures
        ({
            let mock = mock_bindings(column_types@, columns@.map_values(|c: usize| c as int));
            &&& (r matches Ok(ce) ==> ce.wf() && ce.src() == expression@)
            &&& (r is Ok <==> expr_parses(expression@) && eval_model(expression@, mock) is Some)
            &&& (r matches Err(e) && e is Syntax <==> !expr_parses(expression@))
            &&& (r matches Err(e) && e is Validation <==> expr_parses(expression@) && eval_model(
                expression@,
                mock,
            ) is None)
            &&& (r matches Err(e) ==> is_substring(expression@, e.text()))
        }),
{
    let node = match compile_tree(expression.as_str()) {
        Ok(n) => n,
        Err(detail) => {
            return Err(CompileError::Syntax(syntax_message(expression, &detail)));
        },
    };
    let ctx = mock_context(column_types, columns);
    match eval_boolean(&node, &ctx) {
        Ok(_) => Ok(CompiledExpression { node, text: expression.clone() }),
        Err(detail) => Err(CompileError::Validation(validation_message(expression, &detail))),
    }
}

/// Is `c` a white-space character, by Unicode's White_Space property, as
/// Rust's trimming has it?
pub open spec fn is_space(c: char) -> bool {
    ||| (9 <= c as u32 <= 13)
    ||| c as u32 == 32
    ||| c as u32 == 0x85
    ||| c as u32 == 0xA0
    ||| c as u32 == 0x1680
    ||| (0x2000 <= c as u32 <= 0x200A)
    ||| c as u32 == 0x2028
    ||| c as u32 == 0x2029
    ||| c as u32 == 0x202F
    ||| c as u32 == 0x205F
    ||| c as u32 == 0x3000
}

/// Does the line hold only white space?
pub open spec fn is_blank(line: Seq<char>) -> bool {
    forall|i: int| 0 <= i < line.len() ==> is_space(#[trigger] line[i])
}

/// Is the line dropped before evaluation: blank, or opening with the
/// comment mark?
pub open spec fn is_comment_or_blank(line: Seq<char>) -> bool {
    is_blank(line) || (line.len() > 0 && line[0] == '#')
}

/// Is `c` white space?
fn is_space_char(c: char) -> (r: bool)
    ensures
        r == is_space(c),
{
    let u: u32 = c as u32;
    (9 <= u && u <= 13) || u == 32 || u == 0x85 || u == 0xA0 || u == 0x1680 || (0x2000 <= u && u
        <= 0x200A) || u == 0x2028 || u == 0x2029 || u == 0x202F || u == 0x205F || u == 0x3000
}

/// Is the line blank or a comment?
#[verifier::loop_isolation(false)]
fn line_skipped(line: &str) -> (r: bool)
    ensures
        r == is_comment_or_blank(line@),
{
    let n: usize = line.unicode_len();
    if n > 0 && line.get_char(0) == '#' {
        return true;
    }
    let mut i: usize = 0;
    while i < n
        invariant
            i <= n,
            forall|m: int| 0 <= m < i ==> is_space(#[trigger] line@[m]),
        decreases n - i,
    {
        if !is_space_char(line.get_char(i)) {
            return false;
        }
        i += 1;
    }
    true
}

/// The fixed shape of one run: the expression's text, the declared types,
/// the referenced columns and the header count.
pub ghost struct FilterSpec {
    pub src: Seq<char>,
    pub types: Seq<ColumnType>,
    pub cols: Seq<int>,
    pub skip: int,
}

/// What one line's turn of the state machine is.
pub ghost enum LineOutcome {
    /// Before the header count: copied to the output verbatim.
    Header,
    /// Blank or comment: dropped, counted as skipped.
    Skip,
    /// Coerced and evaluated to true: copied to the output.
    Keep,
    /// Coerced and evaluated to false: dropped silently.
    Drop,
    /// Coercion or evaluation failed: counted as invalid.
    Invalid,
}

/// How line number `i` with content `line` fares under the run's shape.
pub open spec fn line_outcome(cfg: FilterSpec, i: int, line: Seq<char>) -> LineOutcome {
    if i < cfg.skip {
        LineOutcome::Header
    } else if is_comment_or_blank(line) {
        LineOutcome::Skip
    } else {
        let fields = split_model(line, '\t');
        if !row_coercible(fields, cfg.types, cfg.cols) {
            LineOutcome::Invalid
        } else {
            match eval_model(cfg.src, row_bindings(fields, cfg.types, cfg.cols)) {
                Option::None => LineOutcome::Invalid,
                Option::Some(true) => LineOutcome::Keep,
                Option::Some(false) => LineOutcome::Drop,
            }
        }
    }
}

/// The run's counters as mathematics.
pub ghost struct StatsModel {
    pub total: int,
    pub skipped: int,
    pub invalid: int,
    pub first_invalid: int,
    pub first_invalid_content: Seq<char>,
    pub kept: int,
}

/// The counters before any line.
pub open spec fn init_stats() -> StatsModel {
    StatsModel {
        total: 0,
        skipped: 0,
        invalid: 0,
        first_invalid: 0,
        first_invalid_content: Seq::empty(),
        kept: 0,
    }
}

/// The counters after one more line.
pub open spec fn stats_step(cfg: FilterSpec, st: StatsModel, i: int, line: Seq<char>) -> StatsModel {
    match line_outcome(cfg, i, line) {
        LineOutcome::Header => StatsModel { total: st.total + 1, kept: st.kept + 1, ..st },
        LineOutcome::Skip => StatsModel { total: st.total + 1, skipped: st.skipped + 1, ..st },
        LineOutcome::Keep => StatsModel { total: st.total + 1, kept: st.kept + 1, ..st },
        LineOutcome::Drop => StatsModel { total: st.total + 1, ..st },
        LineOutcome::Invalid => StatsModel {
            total: st.total + 1,
            invalid: st.invalid + 1,
            first_invalid: if st.invalid == 0 {
                i
            } else {
                st.first_invalid
            },
            first_invalid_content: if st.invalid == 0 {
                line
            } else {
                st.first_invalid_content
            },
            ..st
        },
    }
}

/// The counters after a whole input.
pub open spec fn stats_after(cfg: FilterSpec, lines: Seq<Seq<char>>) -> StatsModel
    decreases lines.len(),
{
    if lines.len() == 0 {
        init_stats()
    } else {
        stats_step(cfg, stats_after(cfg, lines.drop_last()), lines.len() - 1, lines.last())
    }
}

/// The lines written for a whole input: headers and kept lines, in input
/// order.
pub open spec fn output_after(cfg: FilterSpec, lines: Seq<Seq<char>>) -> Seq<Seq<char>>
    decreases lines.len(),
{
    if lines.len() == 0 {
        Seq::empty()
    } else {
        output_after(cfg, lines.drop_last()) + (match line_outcome(
            cfg,
            lines.len() - 1,
            lines.last(),
        ) {
            LineOutcome::Header => seq![lines.last()],
            LineOutcome::Keep => seq![lines.last()],
            _ => Seq::empty(),
        })
    }
}

/// The run's counters, as kept while lines stream by.
pub struct RunStats {
    /// Lines read, of every kind.
    pub total_lines: usize,
    /// Blank or comment lines.
    pub skipped_lines: usize,
    /// Lines whose coercion or evaluation failed.
    pub invalid_lines: usize,
    /// The line number of the first invalid line, zero while there is none.
    pub first_invalid_line: usize,
    /// The content of the first invalid line, empty while there is none.
    pub invalid_line_content: String,
    /// Header lines and lines evaluated to true.
    pub lines_kept: usize,
}

impl View for RunStats {
    type V = StatsModel;

    open spec fn view(&self) -> StatsModel {
        StatsModel {
            total: self.total_lines as int,
            skipped: self.skipped_lines as int,
            invalid: self.invalid_lines as int,
            first_invalid: self.first_invalid_line as int,
            first_invalid_content: self.invalid_line_content@,
            kept: self.lines_kept as int,
        }
    }
}

/// The row evaluator: one compiled run, its schema, and the counters so
/// far.  Feed it lines in order; it says which to write out.
pub struct RowFilter {
    expr: CompiledExpression,
    column_types: Vec<ColumnType>,
    columns: Vec<usize>,
    skip_lines: usize,
    stats: RunStats,
}

impl RowFilter {
    /// The run's fixed shape.
    pub closed spec fn cfg(self) -> FilterSpec {
        FilterSpec {
            src: self.expr.src(),
            types: self.column_types@,
            cols: self.columns@.map_values(|c: usize| c as int),
            skip: self.skip_lines as int,
        }
    }

    /// The expression text as given.
    pub closed spec fn expr_text(self) -> Seq<char> {
        self.expr.text@
    }

    /// The counters so far, as mathematics.
    pub closed spec fn stats_model(self) -> StatsModel {
        self.stats@
    }

    /// The referenced columns are distinct and machine-sized; the counters
    /// cannot outrun the total; the expression carries its own text.
    pub closed spec fn wf(self) -> bool {
        &&& self.expr.wf()
        &&& (forall|a: int, b: int|
            0 <= a < b < self.columns@.len() ==> self.columns@[a] != self.columns@[b])
        &&& (forall|a: int| 0 <= a < self.columns@.len() ==> #[trigger] self.columns@[a]
            < usize::MAX)
        &&& self.stats.skipped_lines <= self.stats.total_lines
        &&& self.stats.invalid_lines <= self.stats.total_lines
        &&& self.stats.lines_kept <= self.stats.total_lines
    }

    /// Builds a run: extracts the referenced columns, compiles and dry-runs
    /// the expression.  The compile errors come exactly as
    /// `compile_expression` gives them.
    pub fn new(expression: &String, skip_lines: usize, column_types: &Vec<ColumnType>) -> (r:
        Result<RowFilter, CompileError>)
        ensures
            ({
                let cols = crate::scan::dedup_refs(crate::scan::col_refs(expression@));
                let mock = mock_bindings(column_types@, cols);
                &&& (r matches Ok(f) ==> f.wf() && f.cfg() == (FilterSpec {
                    src: expression@,
                    types: column_types@,
                    cols: cols,
                    skip: skip_lines as int,
                }) && f.stats_model() == init_stats() && f.expr_text() == expression@)
                &&& (r is Ok <==> expr_parses(expression@) && eval_model(expression@, mock)
                    is Some)
                &&& (r matches Err(e) && e is Syntax <==> !expr_parses(expression@))
                &&& (r matches Err(e) && e is Validation <==> expr_parses(expression@)
                    && eval_model(expression@, mock) is None)
                &&& (r matches Err(e) ==> is_substring(expression@, e.text()))
            }),
    {
        let columns = get_used_columns(expression.as_str());
        proof {
            crate::scan::lemma_dedup_refs_distinct(crate::scan::col_refs(expression@));
            assert forall|a: int| 0 <= a < columns@.len() implies #[trigger] columns@[a]
                < usize::MAX by {
                assert(columns@.map_values(|c: usize| c as int)[a] == columns@[a] as int);
            }
        }
        let expr = match compile_expression(&columns, column_types, expression) {
            Ok(e) => e,
            Err(e) => {
                return Err(e);
            },
        };
        Ok(
            RowFilter {
                expr,
                column_types: column_types.clone(),
                columns,
                skip_lines,
                stats: RunStats {
                    total_lines: 0,
                    skipped_lines: 0,
                    invalid_lines: 0,
                    first_invalid_line: 0,
                    invalid_line_content: String::new(),
                    lines_kept: 0,
                },
            },
        )
    }

    /// Takes the next line of the input.  The result says whether the line
    /// is written to the output: header lines always, data lines exactly
    /// when the expression holds of their coerced columns.  The counters
    /// advance by one step of the state machine.
    pub fn process_line(&mut self, line: &String) -> (keep: bool)
        requires
            old(self).wf(),
            old(self).stats_model().total < usize::MAX,
        ensures
            final(self).wf(),
            final(self).cfg() == old(self).cfg(),
            final(self).expr_text() == old(self).expr_text(),
            final(self).stats_model() == stats_step(
                old(self).cfg(),
                old(self).stats_model(),
                old(self).stats_model().total,
                line@,
            ),
            keep == (line_outcome(old(self).cfg(), old(self).stats_model().total, line@) is Header
                || line_outcome(old(self).cfg(), old(self).stats_model().total, line@) is Keep),
    {
        let line_number = self.stats.total_lines;
        self.stats.total_lines = self.stats.total_lines + 1;
        if line_number < self.skip_lines {
            self.stats.lines_kept = self.stats.lines_kept + 1;
            return true;
        }
        if line_skipped(line.as_str()) {
            self.stats.skipped_lines = self.stats.skipped_lines + 1;
            return false;
        }
        let fields = split_char(line.as_str(), '\t');
        let ctx = match context_for_line(&fields, &self.column_types, &self.columns) {
            Ok(c) => c,
            Err(_) => {
                self.mark_invalid(line_number, line);
                return false;
            },
        };
        match eval_boolean(&self.expr.node, &ctx) {
            Ok(true) => {
                self.stats.lines_kept = self.stats.lines_kept + 1;
                true
            },
            Ok(false) => false,
            Err(_) => {
                self.mark_invalid(line_number, line);
                false
            },
        }
    }

    /// Remembers the first invalid line and counts this one.
    fn mark_invalid(&mut self, line_number: usize, line: &String)
        requires
            old(self).stats.invalid_lines < usize::MAX,
        ensures
            final(self).stats.total_lines == old(self).stats.total_lines,
            final(self).stats.skipped_lines == old(self).stats.skipped_lines,
            final(self).stats.lines_kept == old(self).stats.lines_kept,
            final(self).stats.invalid_lines == old(self).stats.invalid_lines + 1,
            final(self).stats.first_invalid_line == (if old(self).stats.invalid_lines == 0 {
                line_number
            } else {
                old(self).stats.first_invalid_line
            }),
            final(self).stats.invalid_line_content@ == (if old(self).stats.invalid_lines == 0 {
                line@
            } else {
                old(self).stats.invalid_line_content@
            }),
            final(self).expr == old(self).expr,
            final(self).column_types == old(self).column_types,
            final(self).columns == old(self).columns,
            final(self).skip_lines == old(self).skip_lines,
    {
        if self.stats.invalid_lines == 0 {
            self.stats.first_invalid_line = line_number;
            self.stats.invalid_line_content = line.clone();
        }
        self.stats.invalid_lines = self.stats.invalid_lines + 1;
    }
}

impl RowFilter {
    /// The run summary for the lines taken so far.
    pub fn report(&self) -> (r: String)
        requires
            self.wf(),
        ensures
            r@ == report_model(self.expr_text(), self.stats_model()),
    {
        build_report(&self.expr.text, &self.stats)
    }
}

/// The counters count what is there: the total is the number of lines, and
/// no counter outruns it.
pub proof fn lemma_stats_bounds(cfg: FilterSpec, lines: Seq<Seq<char>>)
    ensures
        stats_after(cfg, lines).total == lines.len(),
        0 <= stats_after(cfg, lines).skipped,
        0 <= stats_after(cfg, lines).invalid,
        0 <= stats_after(cfg, lines).kept,
        stats_after(cfg, lines).skipped + stats_after(cfg, lines).invalid + stats_after(
            cfg,
            lines,
        ).kept <= lines.len(),
    decreases lines.len(),
{
    if lines.len() > 0 {
        lemma_stats_bounds(cfg, lines.drop_last());
    }
}

/// Filters a whole input held in memory: compiles the expression as
/// `RowFilter::new` does, takes every line in order, and returns the lines
/// written together with the run summary.
pub fn filter_with_expression(lines: &Vec<String>, expression: &String, skip_lines: usize, column_types: &Vec<
    ColumnType,
>) -> (r: Result<(Vec<String>, String), CompileError>)
    ensures
        ({
            let lv = lines@.map_values(|l: String| l@);
            let cols = dedup_refs(col_refs(expression@));
            let cfg = FilterSpec {
                src: expression@,
                types: column_types@,
                cols: cols,
                skip: skip_lines as int,
            };
            let mock = mock_bindings(column_types@, cols);
            &&& (r matches Ok(p) ==> p.0@.map_values(|l: String| l@) == output_after(cfg, lv)
                && p.1@ == report_model(expression@, stats_after(cfg, lv)))
            &&& (r is Ok <==> expr_parses(expression@) && eval_model(expression@, mock) is Some)
            &&& (r matches Err(e) && e is Syntax <==> !expr_parses(expression@))
            &&& (r matches Err(e) && e is Validation <==> expr_parses(expression@) && eval_model(
                expression@,
                mock,
            ) is None)
            &&& (r matches Err(e) ==> is_substring(expression@, e.text()))
        }),
{
    let ghost lv = lines@.map_values(|l: String| l@);
    let mut f = match RowFilter::new(expression, skip_lines, column_types) {
        Ok(f) => f,
        Err(e) => {
            return Err(e);
        },
    };
    let ghost cfg = f.cfg();
    let mut out: Vec<String> = Vec::new();
    let mut i: usize = 0;
    proof {
        assert(lv.subrange(0, 0) =~= Seq::<Seq<char>>::empty());
        lemma_stats_bounds(cfg, lv.subrange(0, 0));
    }
    while i < lines.len()
        invariant
            i <= lines@.len(),
            lv == lines@.map_values(|l: String| l@),
            f.wf(),
            f.cfg() == cfg,
            f.expr_text() == expression@,
            f.stats_model() == stats_after(cfg, lv.subrange(0, i as int)),
            f.stats_model().total == i,
            out@.map_values(|l: String| l@) == output_after(cfg, lv.subrange(0, i as int)),
        decreases lines@.len() - i,
    {
        let ghost pre = lv.subrange(0, i as int);
        let ghost now = lv.subrange(0, i + 1);
        proof {
            assert(now.drop_last() =~= pre);
            assert(now.last() == lv[i as int]);
            assert(lv[i as int] == lines@[i as int]@);
        }
        let keep = f.process_line(&lines[i]);
        if keep {
            let ghost old_out = out@;
            out.push(lines[i].clone());
            proof {
                assert(out@.map_values(|l: String| l@) =~= old_out.map_values(|l: String| l@)
                    + seq![lv[i as int]]);
                assert(output_after(cfg, now) =~= old_out.map_values(|l: String| l@) + seq![
                    lv[i as int],
                ]);
            }
        } else {
            proof {
                assert(output_after(cfg, now) =~= out@.map_values(|l: String| l@));
            }
        }
        proof {
            lemma_stats_bounds(cfg, now);
        }
        i += 1;
    }
    proof {
        assert(lv.subrange(0, lines@.len() as int) =~= lv);
    }
    let rep = f.report();
    Ok((out, rep))
}

/// Law: the run is deterministic.  The lines written and the counters are
/// functions of the run's shape and the input alone, so two runs over the
/// same input agree byte for byte.
pub proof fn lemma_filter_deterministic(
    cfg: FilterSpec,
    lines: Seq<Seq<char>>,
    out1: Seq<Seq<char>>,
    out2: Seq<Seq<char>>,
    st1: StatsModel,
    st2: StatsModel,
)
    requires
        out1 == output_after(cfg, lines),
        out2 == output_after(cfg, lines),
        st1 == stats_after(cfg, lines),
        st2 == stats_after(cfg, lines),
    ensures
        out1 == out2,
        st1 == st2,
{
}

/// Is the line written to the output: a header, or a data line on which
/// the expression holds?
pub open spec fn written(cfg: FilterSpec, i: int, line: Seq<char>) -> bool {
    line_outcome(cfg, i, line) is Header || line_outcome(cfg, i, line) is Keep
}

/// How many of the first `i` lines are written.
pub open spec fn written_count(cfg: FilterSpec, lines: Seq<Seq<char>>, i: int) -> int
    decreases i,
{
    if i <= 0 {
        0
    } else {
        written_count(cfg, lines, i - 1) + (if written(cfg, i - 1, lines[i - 1]) {
            1int
        } else {
            0int
        })
    }
}

/// The written count looks only at the lines before `i`.
pub proof fn lemma_written_count_prefix(
    cfg: FilterSpec,
    lines: Seq<Seq<char>>,
    prev: Seq<Seq<char>>,
    i: int,
)
    requires
        i <= prev.len(),
        prev.len() <= lines.len(),
        forall|j: int| 0 <= j < prev.len() ==> prev[j] == lines[j],
    ensures
        written_count(cfg, lines, i) == written_count(cfg, prev, i),
    decreases i,
{
    if i > 0 {
        lemma_written_count_prefix(cfg, lines, prev, i - 1);
    }
}

/// The written count never decreases.
pub proof fn lemma_written_count_mono(cfg: FilterSpec, lines: Seq<Seq<char>>, i: int, j: int)
    requires
        0 <= i <= j,
    ensures
        written_count(cfg, lines, i) <= written_count(cfg, lines, j),
    decreases j - i,
{
    if i < j {
        lemma_written_count_mono(cfg, lines, i, j - 1);
    }
}

/// Law: the output is exactly the written lines, in input order.  Its
/// length is the number of written lines, and a written line stands in the
/// output at the position given by how many written lines precede it.
/// Together with `lemma_data_line_decision`, this says that every line the
/// run writes past its headers is one on which the expression evaluated to
/// true, and every valid data line it does not write is one on which it
/// evaluated to false.
#[verifier::rlimit(100)]
pub proof fn lemma_output_characterization(cfg: FilterSpec, lines: Seq<Seq<char>>)
    ensures
        output_after(cfg, lines).len() == written_count(cfg, lines, lines.len() as int),
        forall|i: int|
            0 <= i < lines.len() && written(cfg, i, #[trigger] lines[i]) ==> output_after(
                cfg,
                lines,
            )[written_count(cfg, lines, i)] == lines[i],
    decreases lines.len(),
{
    if lines.len() > 0 {
        let prev = lines.drop_last();
        let out = output_after(cfg, lines);
        let pout = output_after(cfg, prev);
        lemma_output_characterization(cfg, prev);
        lemma_written_count_prefix(cfg, lines, prev, prev.len() as int);
        assert(pout.len() == written_count(cfg, lines, lines.len() - 1));
        assert forall|i: int|
            0 <= i < lines.len() && written(cfg, i, #[trigger] lines[i]) implies out[written_count(
            cfg,
            lines,
            i,
        )] == lines[i] by {
            if i < lines.len() - 1 {
                lemma_written_count_prefix(cfg, lines, prev, i);
                assert(prev[i] == lines[i]);
                lemma_written_count_mono(cfg, prev, 0, i);
                assert(0 <= written_count(cfg, prev, i));
                assert(pout[written_count(cfg, prev, i)] == prev[i]);
                assert(written_count(cfg, prev, i) < pout.len()) by {
                    lemma_written_count_mono(cfg, prev, i + 1, prev.len() as int);
                }
                assert(out[written_count(cfg, lines, i)] == pout[written_count(cfg, prev, i)]);
            } else {
                assert(out[pout.len() as int] == lines.last());
            }
        }
    }
}

/// The output never holds more lines than the input.
pub proof fn lemma_output_len(cfg: FilterSpec, lines: Seq<Seq<char>>)
    ensures
        output_after(cfg, lines).len() <= lines.len(),
    decreases lines.len(),
{
    if lines.len() > 0 {
        lemma_output_len(cfg, lines.drop_last());
    }
}

/// Law: header passthrough is exact and untyped.  For every line index
/// below the header count, the output's line at that index is the input's
/// line, verbatim.
pub proof fn lemma_header_passthrough(cfg: FilterSpec, lines: Seq<Seq<char>>, i: int)
    requires
        0 <= i < lines.len(),
        i < cfg.skip,
    ensures
        output_after(cfg, lines).len() > i,
        output_after(cfg, lines)[i] == lines[i],
    decreases lines.len(),
{
    let prev = lines.drop_last();
    let out = output_after(cfg, lines);
    let pout = output_after(cfg, prev);
    lemma_output_len(cfg, prev);
    if i < lines.len() - 1 {
        lemma_header_passthrough(cfg, prev, i);
        assert(prev[i] == lines[i]);
        assert(out[i] == pout[i]);
    } else {
        assert(line_outcome(cfg, lines.len() - 1, lines.last()) is Header);
        if i > 0 {
            lemma_header_passthrough(cfg, prev, i - 1);
        }
        assert(pout.len() == i);
        assert(out[i] == lines.last());
    }
}

/// Law: a data line's fate follows the expression alone.  For a line past
/// the headers that is neither blank nor a comment, whose referenced
/// columns coerce and whose evaluation yields a boolean: the line is kept
/// exactly when the expression evaluates to true, and dropped exactly when
/// it evaluates to false.
pub proof fn lemma_data_line_decision(cfg: FilterSpec, i: int, line: Seq<char>)
    requires
        i >= cfg.skip,
        !is_comment_or_blank(line),
        row_coercible(split_model(line, '\t'), cfg.types, cfg.cols),
        eval_model(cfg.src, row_bindings(split_model(line, '\t'), cfg.types, cfg.cols)) is Some,
    ensures
        (line_outcome(cfg, i, line) is Keep) <==> eval_model(
            cfg.src,
            row_bindings(split_model(line, '\t'), cfg.types, cfg.cols),
        ) == Some(true),
        (line_outcome(cfg, i, line) is Drop) <==> eval_model(
            cfg.src,
            row_bindings(split_model(line, '\t'), cfg.types, cfg.cols),
        ) == Some(false),
{
}

/// How many lines of the input come out invalid.
pub open spec fn invalid_line_count(cfg: FilterSpec, lines: Seq<Seq<char>>) -> int
    decreases lines.len(),
{
    if lines.len() == 0 {
        0
    } else {
        invalid_line_count(cfg, lines.drop_last()) + (if line_outcome(
            cfg,
            lines.len() - 1,
            lines.last(),
        ) is Invalid {
            1int
        } else {
            0int
        })
    }
}

/// Law: the invalid counter counts exactly the lines whose coercion or
/// evaluation fails.
pub proof fn lemma_invalid_count(cfg: FilterSpec, lines: Seq<Seq<char>>)
    ensures
        stats_after(cfg, lines).invalid == invalid_line_count(cfg, lines),
    decreases lines.len(),
{
    if lines.len() > 0 {
        lemma_invalid_count(cfg, lines.drop_last());
    }
}

/// While the invalid counter is zero, no line has come out invalid.
pub proof fn lemma_invalid_zero(cfg: FilterSpec, lines: Seq<Seq<char>>)
    requires
        stats_after(cfg, lines).invalid == 0,
    ensures
        forall|j: int| 0 <= j < lines.len() ==> !(line_outcome(cfg, j, #[trigger] lines[j])
            is Invalid),
    decreases lines.len(),
{
    if lines.len() > 0 {
        let prev = lines.drop_last();
        assert(stats_after(cfg, prev).invalid >= 0) by {
            lemma_stats_bounds(cfg, prev);
            lemma_invalid_count(cfg, prev);
            lemma_invalid_count_nonneg(cfg, prev);
        }
        lemma_invalid_zero(cfg, prev);
        assert forall|j: int|
            0 <= j < lines.len() implies !(line_outcome(cfg, j, #[trigger] lines[j])
            is Invalid) by {
            if j < lines.len() - 1 {
                assert(prev[j] == lines[j]);
            }
        }
    }
}

/// The invalid count is never negative.
pub proof fn lemma_invalid_count_nonneg(cfg: FilterSpec, lines: Seq<Seq<char>>)
    ensures
        invalid_line_count(cfg, lines) >= 0,
    decreases lines.len(),
{
    if lines.len() > 0 {
        lemma_invalid_count_nonneg(cfg, lines.drop_last());
    }
}

/// Law: the recorded first invalid line is the smallest invalid index, and
/// the recorded content is that line's content.
pub proof fn lemma_first_invalid_minimal(cfg: FilterSpec, lines: Seq<Seq<char>>)
    requires
        stats_after(cfg, lines).invalid > 0,
    ensures
        ({
            let st = stats_after(cfg, lines);
            &&& 0 <= st.first_invalid < lines.len()
            &&& line_outcome(cfg, st.first_invalid, lines[st.first_invalid]) is Invalid
            &&& st.first_invalid_content == lines[st.first_invalid]
            &&& forall|j: int| 0 <= j < st.first_invalid ==> !(line_outcome(
                cfg,
                j,
                #[trigger] lines[j],
            ) is Invalid)
        }),
    decreases lines.len(),
{
    let prev = lines.drop_last();
    let pst = stats_after(cfg, prev);
    let st = stats_after(cfg, lines);
    if pst.invalid > 0 {
        lemma_first_invalid_minimal(cfg, prev);
        assert(st.first_invalid == pst.first_invalid);
        assert(prev[pst.first_invalid] == lines[pst.first_invalid]);
        assert forall|j: int|
            0 <= j < st.first_invalid implies !(line_outcome(cfg, j, #[trigger] lines[j])
            is Invalid) by {
            assert(prev[j] == lines[j]);
        }
    } else {
        lemma_invalid_count(cfg, prev);
        lemma_invalid_count_nonneg(cfg, prev);
        assert(pst.invalid == 0);
        assert(line_outcome(cfg, lines.len() - 1, lines.last()) is Invalid);
        assert(st.first_invalid == lines.len() - 1);
        assert(st.first_invalid_content == lines.last());
        lemma_invalid_zero(cfg, prev);
        assert forall|j: int|
            0 <= j < st.first_invalid implies !(line_outcome(cfg, j, #[trigger] lines[j])
            is Invalid) by {
            assert(prev[j] == lines[j]);
        }
    }
}

} // verus!
