//! The cells of the HTML report: hours as decimal numbers with a comma,
//! copy buttons, and the cells that changed between two tables.
use crate::command::{parse_unsigned, unsigned_value};
use crate::table::{table_texts, texts};
use crate::text::{chars_of, decimal_text, push_decimal, push_two_digits, two_digit_text};
use vstd::prelude::*;

verus! {

/// The number of `-` at the start of a text.
pub open spec fn lead_dashes(t: Seq<char>) -> nat
    decreases t.len(),
{
    if t.len() > 0 && t[0] == '-' {
        1 + lead_dashes(t.drop_first())
    } else {
        0
    }
}

/// Index of the first `:` at or after `p`.
pub open spec fn colon_from(s: Seq<char>, p: int) -> Option<int>
    decreases s.len() - p,
{
    if !(0 <= p < s.len()) {
        None
    } else if s[p] == ':' {
        Some(p)
    } else {
        colon_from(s, p + 1)
    }
}

/// The text without its leading dashes.
pub open spec fn undashed(t: Seq<char>) -> Seq<char> {
    t.subrange(lead_dashes(t) as int, t.len() as int)
}

/// The two sides of the one colon in the text without its leading dashes.
pub open spec fn clock_halves(t: Seq<char>) -> Option<(Seq<char>, Seq<char>)> {
    let body = undashed(t);
    match colon_from(body, 0) {
        Some(c) => if colon_from(body, c + 1) is None {
            Some((body.subrange(0, c), body.subrange(c + 1, body.len() as int)))
        } else {
            None
        },
        None => None,
    }
}

/// Hours and minutes in hundredths of an hour, rounded to the nearest.
pub open spec fn hundredths(h: int, m: int) -> int {
    h * 100 + (10 * m + 3) / 6
}

/// Hundredths written with two decimals and a decimal comma (`7,75`).
pub open spec fn decimal_comma(c: nat) -> Seq<char> {
    decimal_text(c / 100) + ","@ + two_digit_text(c % 100)
}

/// An `(-)HH:MM` cell as decimal hours with a comma (`-01:30` is `-1,50`);
/// in the flex row a surplus is left blank and a deficit shown unsigned.
/// Empty stays empty; malformed cells become an error text.
pub open spec fn decimal_hours_text(t: Seq<char>, flex: bool) -> Seq<char> {
    if t.len() == 0 {
        Seq::empty()
    } else {
        match clock_halves(t) {
            None => "Error: Invalid format '"@ + t + "'. Use HH:MM"@,
            Some((ht, mt)) => match unsigned_value(ht, u32::MAX as int) {
                None => "Error: Invalid hours '"@ + ht + "'"@,
                Some(h) => if h >= 24 {
                    "Error: Hours in '"@ + t + "' must be < 24"@
                } else {
                    match unsigned_value(mt, u32::MAX as int) {
                        None => "Error: Invalid minutes '"@ + mt + "'"@,
                        Some(m) => if m >= 60 {
                            "Error: Minutes in '"@ + t + "' must be < 60"@
                        } else {
                            let c = hundredths(h, m);
                            if t[0] == '-' {
                                if flex && c > 0 {
                                    decimal_comma(c as nat)
                                } else {
                                    "-"@ + decimal_comma(c as nat)
                                }
                            } else if flex && c > 0 {
                                Seq::empty()
                            } else {
                                decimal_comma(c as nat)
                            }
                        },
                    }
                },
            },
        }
    }
}

fn comma_text(c: u64) -> (r: String)
    ensures
        r@ == decimal_comma(c as nat),
{
    let mut out = String::new();
    push_decimal(&mut out, (c / 100) as u128);
    out.append(",");
    push_two_digits(&mut out, (c % 100) as u128);
    out
}

/// Converts an `(-)HH:MM` cell to decimal hours; see `decimal_hours_text`.
pub fn time_to_decimal_string(time_str: String, flex: bool) -> (r: String)
    ensures
        r@ == decimal_hours_text(time_str@, flex),
{
    let t = chars_of(time_str.as_str());
    if t.len() == 0 {
        return String::new();
    }
    let mut s0: usize = 0;
    assert(t@.subrange(0, t@.len() as int) =~= t@);
    while s0 < t.len() && t[s0] == '-'
        invariant
            s0 <= t@.len(),
            lead_dashes(t@) == s0 + lead_dashes(t@.subrange(s0 as int, t@.len() as int)),
        decreases t@.len() - s0,
    {
        assert(t@.subrange(s0 as int, t@.len() as int).drop_first() =~= t@.subrange(
            s0 + 1,
            t@.len() as int,
        ));
        s0 += 1;
    }
    assert(lead_dashes(t@) == s0);
    let ghost body = undashed(t@);
    let mut colon: usize = s0;
    while colon < t.len() && t[colon] != ':'
        invariant
            s0 <= colon <= t@.len(),
            body == t@.subrange(s0 as int, t@.len() as int),
            colon_from(body, 0) == colon_from(body, colon - s0),
        decreases t@.len() - colon,
    {
        colon += 1;
    }
    let mut bad = colon >= t.len();
    if !bad {
        let mut more: usize = colon + 1;
        while more < t.len() && t[more] != ':'
            invariant
                s0 <= colon < more <= t@.len(),
                body == t@.subrange(s0 as int, t@.len() as int),
                colon_from(body, colon - s0 + 1) == colon_from(body, more - s0),
            decreases t@.len() - more,
        {
            more += 1;
        }
        bad = more < t.len();
    }
    if bad {
        let mut e = String::from_str("Error: Invalid format '");
        e.append(time_str.as_str());
        e.append("'. Use HH:MM");
        return e;
    }
    let ht = time_str.as_str().substring_char(s0, colon);
    let mt = time_str.as_str().substring_char(colon + 1, t.len());
    assert(ht@ =~= body.subrange(0, colon - s0));
    assert(mt@ =~= body.subrange(colon - s0 + 1, body.len() as int));
    let h = match parse_unsigned(ht, u32::MAX as u64) {
        Some(h) => h,
        None => {
            let mut e = String::from_str("Error: Invalid hours '");
            e.append(ht);
            e.append("'");
            return e;
        },
    };
    if h >= 24 {
        let mut e = String::from_str("Error: Hours in '");
        e.append(time_str.as_str());
        e.append("' must be < 24");
        return e;
    }
    let m = match parse_unsigned(mt, u32::MAX as u64) {
        Some(m) => m,
        None => {
            let mut e = String::from_str("Error: Invalid minutes '");
            e.append(mt);
            e.append("'");
            return e;
        },
    };
    if m >= 60 {
        let mut e = String::from_str("Error: Minutes in '");
        e.append(time_str.as_str());
        e.append("' must be < 60");
        return e;
    }
    let c: u64 = h * 100 + (10 * m + 3) / 6;
    if t[0] == '-' {
        if flex && c > 0 {
            comma_text(c)
        } else {
            let mut out = String::from_str("-");
            out.append(comma_text(c).as_str());
            out
        }
    } else if flex && c > 0 {
        String::new()
    } else {
        comma_text(c)
    }
}

/// A cell as decimal hours.
pub fn time_to_decimal_string_normal(time_str: String) -> (r: String)
    ensures
        r@ == decimal_hours_text(time_str@, false),
{
    time_to_decimal_string(time_str, false)
}

/// A flex cell as decimal hours: a deficit unsigned, a surplus blank.
pub fn time_to_decimal_string_flex(time_str: String) -> (r: String)
    ensures
        r@ == decimal_hours_text(time_str@, true),
{
    time_to_decimal_string(time_str, true)
}

/// Texts joined with `sep` between them.
pub open spec fn join_texts(ts: Seq<Seq<char>>, sep: Seq<char>) -> Seq<char>
    decreases ts.len(),
{
    if ts.len() == 0 {
        Seq::empty()
    } else if ts.len() == 1 {
        ts[0]
    } else {
        join_texts(ts.drop_last(), sep) + sep + ts.last()
    }
}

/// The cells after the first, as decimal hours.
pub open spec fn converted(cells: Seq<String>, flex: bool) -> Seq<Seq<char>> {
    Seq::new((cells.len() - 1) as nat, |k: int| decimal_hours_text(cells[k + 1]@, flex))
}

/// A row of the HTML report: the label becomes a button that copies the
/// row's decimal hours, tab-separated; the cells follow as decimal hours.
pub open spec fn html_row_spec(cells: Seq<String>, flex: bool) -> Seq<Seq<char>> {
    let c = converted(cells, flex);
    seq![
        "<button onclick=\"copyToClipboard('"@ + join_texts(c, "\t"@) + "')\">"@ + cells[0]@
            + "</button>"@,
    ] + c
}

/// The rows of the HTML report: the first five as they are, the rows of
/// project time with copy buttons, and the last (flex) row in flex form.
pub open spec fn html_rows_spec(rows: Seq<Vec<String>>) -> Seq<Seq<Seq<char>>> {
    Seq::new(
        rows.len(),
        |i: int|
            if i == rows.len() - 1 {
                html_row_spec(rows[i]@, true)
            } else if i >= 5 {
                html_row_spec(rows[i]@, false)
            } else {
                texts(rows[i]@)
            },
    )
}

/// A row of the HTML report; see `html_row_spec`.
pub fn to_html_row(row: &Vec<String>, flex: bool) -> (r: Vec<String>)
    requires
        row@.len() >= 1,
    ensures
        texts(r@) == html_row_spec(row@, flex),
{
    let ghost c = converted(row@, flex);
    let mut cells: Vec<String> = Vec::new();
    let mut joined = String::new();
    let mut k: usize = 1;
    while k < row.len()
        invariant
            1 <= k <= row@.len(),
            c == converted(row@, flex),
            texts(cells@) == c.subrange(0, k - 1),
            joined@ == join_texts(c.subrange(0, k - 1), "\t"@),
        decreases row@.len() - k,
    {
        let d = time_to_decimal_string(row[k].clone(), flex);
        assert(d@ == c[k - 1]);
        assert(c.subrange(0, k as int).drop_last() =~= c.subrange(0, k - 1));
        if k > 1 {
            joined.append("\t");
        }
        joined.append(d.as_str());
        let ghost prev = cells@;
        cells.push(d);
        assert(texts(cells@) =~= texts(prev).push(c[k - 1]));
        k += 1;
        assert(texts(cells@) =~= c.subrange(0, k - 1));
    }
    assert(c.subrange(0, c.len() as int) =~= c);
    let mut button = String::from_str("<button onclick=\"copyToClipboard('");
    button.append(joined.as_str());
    button.append("')\">");
    button.append(row[0].as_str());
    button.append("</button>");
    let mut r: Vec<String> = Vec::new();
    r.push(button);
    let mut j: usize = 0;
    while j < cells.len()
        invariant
            j <= cells@.len(),
            texts(cells@) == c,
            c == converted(row@, flex),
            html_row_spec(row@, flex).len() == c.len() + 1,
            texts(r@) == html_row_spec(row@, flex).subrange(0, j + 1),
        decreases cells@.len() - j,
    {
        let ghost prev = r@;
        r.push(cells[j].clone());
        assert(html_row_spec(row@, flex)[j + 1] == c[j as int]);
        assert(texts(r@) =~= texts(prev).push(c[j as int]));
        j += 1;
        assert(texts(r@) =~= html_row_spec(row@, flex).subrange(0, j + 1));
    }
    assert(html_row_spec(row@, flex).subrange(0, c.len() as int + 1) =~= html_row_spec(row@, flex));
    r
}

/// The rows of the HTML report; see `html_rows_spec`.
pub fn to_html_table(rows: &Vec<Vec<String>>) -> (r: Vec<Vec<String>>)
    requires
        forall|i: int| 0 <= i < rows@.len() ==> #[trigger] rows@[i]@.len() >= 1,
    ensures
        table_texts(r@) == html_rows_spec(rows@),
{
    let ghost want = html_rows_spec(rows@);
    let mut r: Vec<Vec<String>> = Vec::new();
    let mut i: usize = 0;
    while i < rows.len()
        invariant
            i <= rows@.len(),
            forall|j: int| 0 <= j < rows@.len() ==> #[trigger] rows@[j]@.len() >= 1,
            want == html_rows_spec(rows@),
            table_texts(r@) == want.subrange(0, i as int),
        decreases rows@.len() - i,
    {
        assert(rows@[i as int]@.len() >= 1);
        let row = if i == rows.len() - 1 {
            to_html_row(&rows[i], true)
        } else if i >= 5 {
            to_html_row(&rows[i], false)
        } else {
            let mut copy: Vec<String> = Vec::new();
            let mut k: usize = 0;
            while k < rows[i].len()
                invariant
                    i < rows@.len(),
                    k <= rows@[i as int]@.len(),
                    copy@ == rows@[i as int]@.subrange(0, k as int),
                decreases rows@[i as int]@.len() - k,
            {
                copy.push(rows[i][k].clone());
                k += 1;
                assert(copy@ =~= rows@[i as int]@.subrange(0, k as int));
            }
            assert(copy@ =~= rows@[i as int]@);
            copy
        };
        assert(texts(row@) == want[i as int]);
        let ghost prev = r@;
        r.push(row);
        assert(table_texts(r@) =~= table_texts(prev).push(texts(row@)));
        i += 1;
        assert(table_texts(r@) =~= want.subrange(0, i as int));
    }
    assert(want.subrange(0, rows@.len() as int) =~= want);
    r
}

/// The cell `(i, j)` exists in both tables and its text differs.
pub open spec fn cell_differs(current: Seq<Vec<String>>, previous: Seq<Vec<String>>, i: int, j: int) -> bool {
    &&& 0 <= i < current.len()
    &&& i < previous.len()
    &&& 0 <= j < current[i]@.len()
    &&& j < previous[i]@.len()
    &&& current[i]@[j]@ != previous[i]@[j]@
}

/// The positions, row by row, of the cells whose text differs between two
/// tables, over the rows and cells that both have.
pub fn changed_cells(current: &Vec<Vec<String>>, previous: &Vec<Vec<String>>) -> (r: Vec<(usize, usize)>)
    ensures
        forall|i: int, j: int| r@.contains((i as usize, j as usize)) && 0 <= i && 0 <= j
            <== cell_differs(current@, previous@, i, j),
        forall|k: int| 0 <= k < r@.len() ==> cell_differs(
            current@,
            previous@,
            #[trigger] r@[k].0 as int,
            r@[k].1 as int,
        ),
{
    let mut r: Vec<(usize, usize)> = Vec::new();
    let mut i: usize = 0;
    while i < current.len() && i < previous.len()
        invariant
            i <= current@.len(),
            forall|k: int| 0 <= k < r@.len() ==> cell_differs(
                current@,
                previous@,
                #[trigger] r@[k].0 as int,
                r@[k].1 as int,
            ),
            forall|a: int, b: int| 0 <= a < i && cell_differs(current@, previous@, a, b)
                ==> r@.contains((a as usize, b as usize)),
        decreases current@.len() - i,
    {
        let mut j: usize = 0;
        while j < current[i].len() && j < previous[i].len()
            invariant
                i < current@.len(),
                i < previous@.len(),
                j <= current@[i as int]@.len(),
                forall|k: int| 0 <= k < r@.len() ==> cell_differs(
                    current@,
                    previous@,
                    #[trigger] r@[k].0 as int,
                    r@[k].1 as int,
                ),
                forall|a: int, b: int| 0 <= a < i && cell_differs(current@, previous@, a, b)
                    ==> r@.contains((a as usize, b as usize)),
                forall|b: int| 0 <= b < j && cell_differs(current@, previous@, i as int, b)
                    ==> r@.contains((i, b as usize)),
            decreases current@[i as int]@.len() - j,
        {
            if current[i][j] != previous[i][j] {
                let ghost prev = r@;
                r.push((i, j));
                assert(r@[r@.len() - 1] == (i, j));
                assert forall|a: int, b: int| 0 <= a < i && cell_differs(current@, previous@, a, b)
                    implies r@.contains((a as usize, b as usize)) by {
                    assert(prev.contains((a as usize, b as usize)));
                    let w = choose|w: int| 0 <= w < prev.len() && prev[w] == (a as usize, b as usize);
                    assert(r@[w] == prev[w]);
                }
                assert forall|b: int| 0 <= b < j + 1 && cell_differs(current@, previous@, i as int, b)
                    implies r@.contains((i, b as usize)) by {
                    if b < j {
                        assert(prev.contains((i, b as usize)));
                        let w = choose|w: int| 0 <= w < prev.len() && prev[w] == (i, b as usize);
                        assert(r@[w] == prev[w]);
                    } else {
                        assert(r@[r@.len() - 1] == (i, b as usize));
                    }
                }
            }
            j += 1;
        }
        i += 1;
    }
    r
}

} // verus!
