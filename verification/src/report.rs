//! The run summary.  Independent, optionally present sentences are
//! concatenated: the share of valid lines kept (or a hint when there were
//! none), the invalid lines with the first one's place and content, and the
//! skipped comment or blank lines.

use vstd::prelude::*;

use crate::digits::dec_rep;
use crate::digits::digit_char;
use crate::digits::u128_to_string;
use crate::filter::RunStats;
use crate::filter::StatsModel;

verus! {

/// One hundred times the percentage of `kept` out of `valid`, rounded to
/// the nearest whole number, ties upward.
pub open spec fn pct_hundredths(kept: int, valid: int) -> int {
    (20000 * kept + valid) / (2 * valid)
}

/// The percentage with two decimal places, as text.
pub open spec fn pct_text(kept: int, valid: int) -> Seq<char> {
    let p = pct_hundredths(kept, valid);
    dec_rep(p / 100) + seq!['.'] + seq![digit_char((p / 10) % 10)] + seq![digit_char(p % 10)]
}

/// The whole summary for one finished run.
pub open spec fn report_model(expr: Seq<char>, st: StatsModel) -> Seq<char> {
    let valid = st.total - st.skipped;
    (if valid > 0 {
        "Kept "@ + pct_text(st.kept, valid) + "% of "@ + dec_rep(valid) + " valid lines ("@
            + dec_rep(st.total) + " total lines)\n"@
    } else {
        "No lines kept. Check filter condition '"@ + expr
            + "', see tool tips, syntax and examples\n"@
    }) + (if st.invalid > 0 {
        "Skipped "@ + dec_rep(st.invalid) + " invalid line(s) starting at line "@ + dec_rep(
            st.first_invalid,
        ) + ": '"@ + st.first_invalid_content + "'\n"@
    } else {
        Seq::<char>::empty()
    }) + (if st.skipped > 0 {
        "Skipped "@ + dec_rep(st.skipped) + " comment (starting with #) or blank line(s)\n"@
    } else {
        Seq::<char>::empty()
    })
}

/// Renders the percentage with two decimal places.
fn render_pct(kept: usize, valid: usize) -> (r: String)
    requires
        valid >= 1,
    ensures
        r@ == pct_text(kept as int, valid as int),
{
    let wk: u128 = kept as u128;
    let wv: u128 = valid as u128;
    proof {
        assert(20000 * wk <= 20000 * 0xFFFF_FFFF_FFFF_FFFFu128) by (nonlinear_arith)
            requires wk <= 0xFFFF_FFFF_FFFF_FFFFu128,
        ;
        assert(2 * wv > 0);
    }
    let p: u128 = (20000 * wk + wv) / (2 * wv);
    proof {
        assert(p == pct_hundredths(kept as int, valid as int));
    }
    let mut r = u128_to_string(p / 100);
    let tens: u64 = ((p / 10) % 10) as u64;
    let ones: u64 = (p % 10) as u64;
    proof {
        reveal_strlit(".");
    }
    r.append(".");
    r.append(crate::digits::digit_str(tens));
    r.append(crate::digits::digit_str(ones));
    proof {
        assert(r@ =~= pct_text(kept as int, valid as int));
    }
    r
}

/// Builds the summary from the counters and the expression text.
pub fn build_report(expression: &String, stats: &RunStats) -> (r: String)
    requires
        stats.skipped_lines <= stats.total_lines,
    ensures
        r@ == report_model(expression@, stats@),
{
    proof {
        reveal_strlit("Kept ");
        reveal_strlit("% of ");
        reveal_strlit(" valid lines (");
        reveal_strlit(" total lines)\n");
        reveal_strlit("No lines kept. Check filter condition '");
        reveal_strlit("', see tool tips, syntax and examples\n");
        reveal_strlit("Skipped ");
        reveal_strlit(" invalid line(s) starting at line ");
        reveal_strlit(": '");
        reveal_strlit("'\n");
        reveal_strlit(" comment (starting with #) or blank line(s)\n");
    }
    let valid: usize = stats.total_lines - stats.skipped_lines;
    let mut r = String::new();
    if valid > 0 {
        r.append("Kept ");
        let pct = render_pct(stats.lines_kept, valid);
        r.append(pct.as_str());
        r.append("% of ");
        let v = u128_to_string(valid as u128);
        r.append(v.as_str());
        r.append(" valid lines (");
        let t = u128_to_string(stats.total_lines as u128);
        r.append(t.as_str());
        r.append(" total lines)\n");
    } else {
        r.append("No lines kept. Check filter condition '");
        r.append(expression.as_str());
        r.append("', see tool tips, syntax and examples\n");
    }
    if stats.invalid_lines > 0 {
        r.append("Skipped ");
        let iv = u128_to_string(stats.invalid_lines as u128);
        r.append(iv.as_str());
        r.append(" invalid line(s) starting at line ");
        let fl = u128_to_string(stats.first_invalid_line as u128);
        r.append(fl.as_str());
        r.append(": '");
        r.append(stats.invalid_line_content.as_str());
        r.append("'\n");
    }
    if stats.skipped_lines > 0 {
        r.append("Skipped ");
        let sk = u128_to_string(stats.skipped_lines as u128);
        r.append(sk.as_str());
        r.append(" comment (starting with #) or blank line(s)\n");
    }
    proof {
        assert(r@ =~= report_model(expression@, stats@));
    }
    r
}

/// Law: the reported percentage is one hundred times the share of valid
/// lines kept, rounded to two decimal places — the hundredths value `p`
/// satisfies `p - 1/2 <= 10000 * kept / valid < p + 1/2`, stated without
/// fractions.  It is reported only when there are valid lines, and the
/// valid count is the total minus the skipped lines (see `report_model`).
pub proof fn lemma_pct_rounds(kept: int, valid: int)
    requires
        valid >= 1,
        kept >= 0,
    ensures
        2 * valid * pct_hundredths(kept, valid) <= 20000 * kept + valid,
        20000 * kept + valid < 2 * valid * (pct_hundredths(kept, valid) + 1),
{
    let a = 20000 * kept + valid;
    let d = 2 * valid;
    vstd::arithmetic::div_mod::lemma_fundamental_div_mod(a, d);
    vstd::arithmetic::div_mod::lemma_mod_bound(a, d);
    assert(d * (pct_hundredths(kept, valid) + 1) == d * pct_hundredths(kept, valid) + d)
        by (nonlinear_arith);
    assert(2 * valid * pct_hundredths(kept, valid) == d * (a / d));
}

} // verus!
