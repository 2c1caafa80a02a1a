use row_filter::filter_with_expression;
use row_filter::ColumnType;
use row_filter::CompileError;
use row_filter::RowFilter;

fn lines(raw: &[&str]) -> Vec<String> {
    raw.iter().map(|s| String::from(*s)).collect()
}

fn run(
    raw: &[&str],
    expression: &str,
    skip_lines: usize,
    types: &[ColumnType],
) -> (Vec<String>, String) {
    let input = lines(raw);
    let expr = String::from(expression);
    let tv = types.to_vec();
    filter_with_expression(&input, &expr, skip_lines, &tv).expect("expression should compile")
}

#[test]
fn string_equality_scenario() {
    let (out, report) = run(
        &["chr1\t100\t200", "chr2\t300\t400"],
        "c1==\"chr1\"",
        0,
        &[ColumnType::Str, ColumnType::Int, ColumnType::Int],
    );
    assert_eq!(out, lines(&["chr1\t100\t200"]));
    assert_eq!(report, "Kept 50.00% of 2 valid lines (2 total lines)\n");
}

#[test]
fn invalid_integer_scenario() {
    let (out, report) = run(
        &["chr1\t100\t200", "chr2\tfoo\t400"],
        "c2>=100",
        0,
        &[ColumnType::Str, ColumnType::Int, ColumnType::Int],
    );
    assert_eq!(out, lines(&["chr1\t100\t200"]));
    assert_eq!(
        report,
        "Kept 50.00% of 2 valid lines (2 total lines)\n\
         Skipped 1 invalid line(s) starting at line 1: 'chr2\tfoo\t400'\n"
    );
}

#[test]
fn first_invalid_line_is_recorded() {
    let (out, report) = run(
        &["a\tx", "b\ty"],
        "c2>0",
        0,
        &[ColumnType::Str, ColumnType::Int],
    );
    assert!(out.is_empty());
    assert_eq!(
        report,
        "Kept 0.00% of 2 valid lines (2 total lines)\n\
         Skipped 2 invalid line(s) starting at line 0: 'a\tx'\n"
    );
}

#[test]
fn header_lines_pass_through_verbatim() {
    let (out, report) = run(
        &["#header\tline", "chr1\t5", "chr1\t3"],
        "c2>4",
        1,
        &[ColumnType::Str, ColumnType::Int],
    );
    assert_eq!(out, lines(&["#header\tline", "chr1\t5"]));
    assert_eq!(report, "Kept 66.67% of 3 valid lines (3 total lines)\n");
}

#[test]
fn comments_and_blanks_are_skipped() {
    let (out, report) = run(
        &["# a comment", "", "  \t ", "chr1\t1"],
        "c2==1",
        0,
        &[ColumnType::Str, ColumnType::Int],
    );
    assert_eq!(out, lines(&["chr1\t1"]));
    assert_eq!(
        report,
        "Kept 100.00% of 1 valid lines (4 total lines)\n\
         Skipped 3 comment (starting with #) or blank line(s)\n"
    );
}

#[test]
fn no_valid_lines_reports_a_hint() {
    let (out, report) = run(&["# only a comment"], "c1==\"x\"", 0, &[ColumnType::Str]);
    assert!(out.is_empty());
    assert_eq!(
        report,
        "No lines kept. Check filter condition 'c1==\"x\"', see tool tips, syntax and examples\n\
         Skipped 1 comment (starting with #) or blank line(s)\n"
    );
}

#[test]
fn running_twice_is_byte_identical() {
    let raw = &["chr1\t100", "chr2\t300", "# note", "chr3\tbad"];
    let types = &[ColumnType::Str, ColumnType::Int];
    let first = run(raw, "c2<200", 0, types);
    let second = run(raw, "c2<200", 0, types);
    assert_eq!(first, second);
}

#[test]
fn missing_column_is_empty_not_an_error() {
    let (out, report) = run(&["a"], "c2==\"\"", 0, &[ColumnType::Str, ColumnType::Str]);
    assert!(out.is_empty());
    assert_eq!(report, "Kept 0.00% of 1 valid lines (1 total lines)\n");
}

#[test]
fn list_column_membership() {
    let (out, _) = run(
        &["x\ta,b,c", "y\td,e"],
        "in(\"a\", c2)",
        0,
        &[ColumnType::Str, ColumnType::List],
    );
    assert_eq!(out, lines(&["x\ta,b,c"]));
}

#[test]
fn empty_list_field_holds_one_empty_string() {
    let (out, _) = run(
        &["x\t", "y\ta"],
        "in(\"\", c2)",
        0,
        &[ColumnType::Str, ColumnType::List],
    );
    assert_eq!(out, lines(&["x\t"]));
}

#[test]
fn float_and_bool_columns() {
    let (out, _) = run(
        &["1.5\ttrue", "0.5\ttrue", "2.5\tfalse"],
        "c1>1.0 && c2",
        0,
        &[ColumnType::Float, ColumnType::Bool],
    );
    assert_eq!(out, lines(&["1.5\ttrue"]));
}

#[test]
fn dont_care_column_never_fails() {
    let (out, _) = run(
        &["chr1\tnot-a-number"],
        "c1==\"chr1\"",
        0,
        &[ColumnType::Str, ColumnType::Empty],
    );
    assert_eq!(out, lines(&["chr1\tnot-a-number"]));
}

#[test]
fn arithmetic_across_columns() {
    let (out, _) = run(
        &["chr1\t100\t3000", "chr1\t100\t200"],
        "c3-c2>=2000",
        0,
        &[ColumnType::Str, ColumnType::Int, ColumnType::Int],
    );
    assert_eq!(out, lines(&["chr1\t100\t3000"]));
}

#[test]
fn skip_count_beyond_file_keeps_everything() {
    let (out, report) = run(&["a\t1", "b\t2"], "c2>5", 5, &[ColumnType::Str, ColumnType::Int]);
    assert_eq!(out, lines(&["a\t1", "b\t2"]));
    assert_eq!(report, "Kept 100.00% of 2 valid lines (2 total lines)\n");
}

#[test]
fn syntax_error_is_reported() {
    let input = lines(&["a\t1"]);
    let expr = String::from("(c1 == \"a\"");
    let types = vec![ColumnType::Str, ColumnType::Int];
    let r = filter_with_expression(&input, &expr, 0, &types);
    assert!(matches!(r, Err(CompileError::Syntax(_))));
}

#[test]
fn type_mismatch_fails_validation() {
    let input = lines(&["a\t1"]);
    let expr = String::from("c1 > 5");
    let types = vec![ColumnType::Str, ColumnType::Int];
    let r = filter_with_expression(&input, &expr, 0, &types);
    assert!(matches!(r, Err(CompileError::Validation(_))));
}

#[test]
fn unbound_reference_fails_validation() {
    let input = lines(&["a"]);
    let expr = String::from("c0 > 5");
    let types = vec![ColumnType::Str];
    let r = filter_with_expression(&input, &expr, 0, &types);
    assert!(matches!(r, Err(CompileError::Validation(_))));
}

#[test]
fn streaming_filter_matches_whole_pass() {
    let raw = &["#h", "chr1\t10", "chr2\t20", "", "chr3\tbad"];
    let types = vec![ColumnType::Str, ColumnType::Int];
    let expr = String::from("c2>=20");

    let input = lines(raw);
    let (out, report) = filter_with_expression(&input, &expr, 1, &types).unwrap();

    let mut f = RowFilter::new(&expr, 1, &types).unwrap();
    let mut streamed: Vec<String> = Vec::new();
    for line in &input {
        if f.process_line(line) {
            streamed.push(line.clone());
        }
    }
    assert_eq!(streamed, out);
    assert_eq!(f.report(), report);
}

#[test]
fn rounding_of_percentage_is_to_two_decimals() {
    let (_, report) = run(
        &["a\t1", "b\t2", "c\t3"],
        "c2==1",
        0,
        &[ColumnType::Str, ColumnType::Int],
    );
    assert_eq!(report, "Kept 33.33% of 3 valid lines (3 total lines)\n");
}

#[test]
fn invalid_float_field_is_counted() {
    let (out, report) = run(
        &["1.5", "not-a-float"],
        "c1>1.0",
        0,
        &[ColumnType::Float],
    );
    assert_eq!(out, lines(&["1.5"]));
    assert_eq!(
        report,
        "Kept 50.00% of 2 valid lines (2 total lines)\n\
         Skipped 1 invalid line(s) starting at line 1: 'not-a-float'\n"
    );
}

#[test]
fn compile_error_message_names_the_expression() {
    let input = lines(&["a"]);
    let expr = String::from("(c1 == \"a\"");
    let types = vec![ColumnType::Str];
    match filter_with_expression(&input, &expr, 0, &types) {
        Err(e) => assert!(e.message().contains("(c1 == \"a\"")),
        Ok(_) => panic!("expected a syntax error"),
    }
}

#[test]
fn builtin_calls_fail_validation_cleanly() {
    let input = lines(&["a"]);
    let expr = String::from("str::substring(\"\u{e4}\", 0, 1) == \"x\"");
    let types = vec![ColumnType::Str];
    let r = filter_with_expression(&input, &expr, 0, &types);
    assert!(matches!(r, Err(CompileError::Validation(_))));
}
