//! The rollup and the report line.
//!
//! The rollup sums `num_lines` over all rows to get the unsafe-line count.
//! The report is one plain-text line in one of two historical shapes:
//! count only, or count, total and a percentage to two decimal places,
//! rounded half away from zero. When no total line count is available the
//! percentage shape falls back to the count-only shape.
use vstd::prelude::*;

use vstd::string::StringExecFns;

use crate::metrics::{Metrics, RowModel};

verus! {

/// The decimal digit character for `d`.
pub open spec fn digit_char(d: int) -> char {
    if d == 0 {
        '0'
    } else if d == 1 {
        '1'
    } else if d == 2 {
        '2'
    } else if d == 3 {
        '3'
    } else if d == 4 {
        '4'
    } else if d == 5 {
        '5'
    } else if d == 6 {
        '6'
    } else if d == 7 {
        '7'
    } else if d == 8 {
        '8'
    } else {
        '9'
    }
}

/// The decimal digits of `n`, most significant first, no leading zeros
/// (a single zero for zero itself).
pub open spec fn dec_digits(n: int) -> Seq<char>
    decreases n,
{
    if n < 10 {
        seq![digit_char(n)]
    } else {
        dec_digits(n / 10).push(digit_char(n % 10))
    }
}

/// Exactly two decimal digits, leading zero kept: the fractional part of
/// the percentage.
pub open spec fn frac_digits(n: int) -> Seq<char> {
    seq![digit_char(n / 10), digit_char(n % 10)]
}

/// The percentage `100 * total_unsafe / total_lines`, scaled by 100 and
/// rounded to the nearest integer, halves away from zero: the number of
/// hundredths of a percent the report prints.
pub open spec fn pct_scaled(total_unsafe: int, total_lines: int) -> int {
    (20000 * total_unsafe + total_lines) / (2 * total_lines)
}

/// The sum of `num_lines` over the rows: the unsafe-line count.
pub open spec fn spec_total_unsafe(spans: Seq<RowModel>) -> int
    decreases spans,
{
    if spans.len() == 0 {
        0
    } else {
        spans[0].num_lines + spec_total_unsafe(spans.subrange(1, spans.len() as int))
    }
}

/// The count-only report shape.
pub open spec fn report_count_only(total_unsafe: int) -> Seq<char> {
    "Unsafe lines: "@ + dec_digits(total_unsafe)
}

/// The full report shape: count, total, and the percentage to two decimal
/// places.
pub open spec fn report_with_total(total_unsafe: int, total_lines: int) -> Seq<char> {
    let p = pct_scaled(total_unsafe, total_lines);
    "Unsafe lines: "@ + dec_digits(total_unsafe) + "/"@ + dec_digits(total_lines) + " ("@
        + dec_digits(p / 100) + "."@ + frac_digits(p % 100) + "%)"@
}

/// Rows are charged a nonnegative number of lines, so every partial sum
/// is at most the whole.
proof fn lemma_total_unsafe_nonneg(spans: Seq<RowModel>)
    requires
        forall|k: int| 0 <= k < spans.len() ==> (#[trigger] spans[k]).num_lines >= 0,
    ensures
        spec_total_unsafe(spans) >= 0,
    decreases spans,
{
    if spans.len() > 0 {
        lemma_total_unsafe_nonneg(spans.subrange(1, spans.len() as int));
    }
}

/// Sums `num_lines` across all rows: the total count of unsafe lines.
pub fn total_unsafe(m: &Metrics) -> (t: usize)
    requires
        spec_total_unsafe(m@.spans) <= usize::MAX,
    ensures
        t == spec_total_unsafe(m@.spans),
{
    let ghost rows: Seq<RowModel> = m@.spans;
    proof {
        assert(rows.subrange(0, rows.len() as int) =~= rows);
    }
    let mut t: usize = 0;
    let mut i: usize = 0;
    while i < m.spans.len()
        invariant
            rows == m@.spans,
            rows.len() == m.spans@.len(),
            spec_total_unsafe(rows) <= usize::MAX,
            i <= rows.len(),
            t + spec_total_unsafe(rows.subrange(i as int, rows.len() as int)) == spec_total_unsafe(
                rows,
            ),
        decreases rows.len() - i,
    {
        let ghost tail = rows.subrange(i as int, rows.len() as int);
        proof {
            assert(tail[0] == rows[i as int]);
            assert(tail.subrange(1, tail.len() as int) =~= rows.subrange(
                i + 1,
                rows.len() as int,
            ));
            assert(forall|k: int|
                0 <= k < rows.len() ==> (#[trigger] rows[k]).num_lines == m.spans@[k]@.num_lines
                    && rows[k].num_lines >= 0);
            lemma_total_unsafe_nonneg(rows.subrange(i + 1, rows.len() as int));
        }
        t = t + m.spans[i].num_lines;
        i = i + 1;
    }
    proof {
        assert(rows.subrange(rows.len() as int, rows.len() as int) =~= Seq::<RowModel>::empty());
    }
    t
}

/// The single decimal digit `d`, as a string slice.
fn digit_str(d: usize) -> (r: &'static str)
    requires
        d < 10,
    ensures
        r@ == seq![digit_char(d as int)],
{
    let r: &'static str = match d {
        0 => "0",
        1 => "1",
        2 => "2",
        3 => "3",
        4 => "4",
        5 => "5",
        6 => "6",
        7 => "7",
        8 => "8",
        _ => "9",
    };
    proof {
        reveal_strlit("0");
        reveal_strlit("1");
        reveal_strlit("2");
        reveal_strlit("3");
        reveal_strlit("4");
        reveal_strlit("5");
        reveal_strlit("6");
        reveal_strlit("7");
        reveal_strlit("8");
        reveal_strlit("9");
        assert(r@ =~= seq![digit_char(d as int)]);
    }
    r
}

/// Appends the decimal digits of `n` to `out`.
fn append_decimal(n: usize, out: &mut String)
    ensures
        final(out)@ == old(out)@ + dec_digits(n as int),
    decreases n,
{
    if n < 10 {
        out.append(digit_str(n));
        assert(out@ =~= old(out)@ + dec_digits(n as int));
    } else {
        append_decimal(n / 10, out);
        out.append(digit_str(n % 10));
        assert(out@ =~= old(out)@ + dec_digits(n as int));
    }
}

/// Formats the report line. `total_lines` absent means the older,
/// count-only shape; present, the count, the total and the percentage to
/// two decimal places, rounded half away from zero.
pub fn format_report(total_unsafe: usize, total_lines: Option<usize>) -> (s: String)
    requires
        match total_lines {
            Some(tl) => 1 <= tl && 20000 * total_unsafe + tl <= usize::MAX && 2 * tl <= usize::MAX,
            None => true,
        },
    ensures
        s@ == match total_lines {
            Some(tl) => report_with_total(total_unsafe as int, tl as int),
            None => report_count_only(total_unsafe as int),
        },
{
    let mut s = String::new();
    s.append("Unsafe lines: ");
    append_decimal(total_unsafe, &mut s);
    match total_lines {
        None => {
            assert(s@ =~= report_count_only(total_unsafe as int));
        },
        Some(tl) => {
            s.append("/");
            append_decimal(tl, &mut s);
            s.append(" (");
            let p: usize = (20000 * total_unsafe + tl) / (2 * tl);
            append_decimal(p / 100, &mut s);
            s.append(".");
            s.append(digit_str((p % 100) / 10));
            s.append(digit_str(p % 10));
            s.append("%)");
            proof {
                assert((p % 100) % 10 == p % 10) by (nonlinear_arith);
                assert(frac_digits(p as int % 100) =~= seq![
                    digit_char((p as int % 100) / 10),
                    digit_char(p as int % 10),
                ]);
                assert(s@ =~= report_with_total(total_unsafe as int, tl as int));
            }
        },
    }
    s
}

/// The reporting step over a finished `Metrics`: sums the rows and formats
/// the line. The percentage shape is used only when it was asked for and a
/// total line count is available; otherwise the count-only shape is the
/// fallback.
pub fn report_line(m: &Metrics, include_total: bool) -> (s: String)
    requires
        spec_total_unsafe(m@.spans) <= usize::MAX,
        include_total && m.total_lines >= 1 ==> 20000 * spec_total_unsafe(m@.spans)
            + m.total_lines <= usize::MAX && 2 * m.total_lines <= usize::MAX,
    ensures
        s@ == if include_total && m@.total_lines >= 1 {
            report_with_total(spec_total_unsafe(m@.spans), m@.total_lines)
        } else {
            report_count_only(spec_total_unsafe(m@.spans))
        },
{
    let t = total_unsafe(m);
    if include_total && m.total_lines >= 1 {
        format_report(t, Some(m.total_lines))
    } else {
        format_report(t, None)
    }
}

} // verus!
