//! The generated source fragment: the grid as a two-dimensional integer
//! array literal and one spawn call per marker.
use vstd::prelude::*;
use vstd::string::StringExecFns;
use crate::markers::Marker;

verus! {

/// The text of one decimal digit `d < 10`.
pub open spec fn digit_text(d: int) -> Seq<char> {
    if d == 0 { "0"@ }
    else if d == 1 { "1"@ }
    else if d == 2 { "2"@ }
    else if d == 3 { "3"@ }
    else if d == 4 { "4"@ }
    else if d == 5 { "5"@ }
    else if d == 6 { "6"@ }
    else if d == 7 { "7"@ }
    else if d == 8 { "8"@ }
    else { "9"@ }
}

/// The decimal digits of `n`, without leading zeros.
pub open spec fn digits(n: nat) -> Seq<char>
    decreases n,
{
    if n < 10 {
        digit_text(n as int)
    } else {
        digits(n / 10) + digit_text((n % 10) as int)
    }
}

/// An integer in decimal, with a leading minus sign when negative.
pub open spec fn int_text(v: int) -> Seq<char> {
    if v < 0 { "-"@ + digits((-v) as nat) } else { digits(v as nat) }
}

/// A position given in hundredths, written with two decimals and a
/// single-precision suffix: `250` is `2.50f`.
pub open spec fn coord_text(v: int) -> Seq<char> {
    let a = if v < 0 { -v } else { v };
    (if v < 0 { "-"@ } else { Seq::empty() })
        + digits((a / 100) as nat) + "."@
        + digit_text((a % 100) / 10) + digit_text(a % 10) + "f"@
}

/// The values of a row separated by commas.
pub open spec fn joined(row: Seq<i32>) -> Seq<char>
    decreases row.len(),
{
    if row.len() == 0 {
        Seq::empty()
    } else if row.len() == 1 {
        int_text(row[0] as int)
    } else {
        joined(row.drop_last()) + ","@ + int_text(row.last() as int)
    }
}

/// One row of the array literal: `    {1,0,1},` and a line break.
pub open spec fn row_text(row: Seq<i32>) -> Seq<char> {
    "    {"@ + joined(row) + "},\n"@
}

/// All rows of the array literal, in order.
pub open spec fn rows_text(rows: Seq<Seq<i32>>) -> Seq<char>
    decreases rows.len(),
{
    if rows.len() == 0 {
        Seq::empty()
    } else {
        rows_text(rows.drop_last()) + row_text(rows.last())
    }
}

/// The spawn call for one marker.
pub open spec fn call_text(m: Marker) -> Seq<char> {
    "    spawn_enemy_at("@ + coord_text(m.x as int) + ", "@ + coord_text(m.y as int) + ");\n"@
}

/// The spawn calls for all markers, in order.
pub open spec fn calls_text(ms: Seq<Marker>) -> Seq<char>
    decreases ms.len(),
{
    if ms.len() == 0 {
        Seq::empty()
    } else {
        calls_text(ms.drop_last()) + call_text(ms.last())
    }
}

/// The whole fragment after the preamble.
pub open spec fn source_text(rows: Seq<Seq<i32>>, ms: Seq<Marker>) -> Seq<char> {
    "int map[MAP_HEIGHT][MAP_WIDTH] = {\n"@ + rows_text(rows) + "};\n\n"@
        + "void spawn_initial_enemies(void) {\n"@ + calls_text(ms) + "}\n"@
}

fn digit_str(d: u64) -> (r: &'static str)
    requires
        d < 10,
    ensures
        r@ == digit_text(d as int),
{
    if d == 0 { "0" }
    else if d == 1 { "1" }
    else if d == 2 { "2" }
    else if d == 3 { "3" }
    else if d == 4 { "4" }
    else if d == 5 { "5" }
    else if d == 6 { "6" }
    else if d == 7 { "7" }
    else if d == 8 { "8" }
    else { "9" }
}

fn push_digits(out: &mut String, n: u64)
    ensures
        final(out)@ == old(out)@ + digits(n as nat),
    decreases n,
{
    if n < 10 {
        out.append(digit_str(n));
    } else {
        push_digits(out, n / 10);
        out.append(digit_str(n % 10));
        assert(final(out)@ =~= old(out)@ + digits(n as nat));
    }
}

fn push_int(out: &mut String, v: i32)
    ensures
        final(out)@ == old(out)@ + int_text(v as int),
{
    if v < 0 {
        out.append("-");
        push_digits(out, (-(v as i64)) as u64);
        assert(final(out)@ =~= old(out)@ + int_text(v as int));
    } else {
        push_digits(out, v as u64);
    }
}

fn push_coord(out: &mut String, v: i32)
    ensures
        final(out)@ == old(out)@ + coord_text(v as int),
{
    let a: u64 = if v < 0 { (-(v as i64)) as u64 } else { v as u64 };
    if v < 0 {
        out.append("-");
    }
    push_digits(out, a / 100);
    out.append(".");
    out.append(digit_str((a % 100) / 10));
    out.append(digit_str(a % 10));
    out.append("f");
    assert(final(out)@ =~= old(out)@ + coord_text(v as int));
}

fn push_row(out: &mut String, row: &Vec<i32>)
    ensures
        final(out)@ == old(out)@ + row_text(row@),
{
    out.append("    {");
    let ghost start = out@;
    let mut x: usize = 0;
    while x < row.len()
        invariant
            x <= row@.len(),
            out@ == start + joined(row@.subrange(0, x as int)),
        decreases row@.len() - x,
    {
        let ghost before = out@;
        if x > 0 {
            out.append(",");
        }
        push_int(out, row[x]);
        proof {
            let s = row@.subrange(0, x as int + 1);
            assert(s.drop_last() =~= row@.subrange(0, x as int));
            assert(s.last() == row@[x as int]);
            if x == 0 {
                assert(s.len() == 1);
            }
        }
        x = x + 1;
        assert(out@ =~= start + joined(row@.subrange(0, x as int)));
    }
    assert(row@.subrange(0, row@.len() as int) =~= row@);
    out.append("},\n");
    assert(final(out)@ =~= old(out)@ + row_text(row@));
}

/// The generated source fragment for a grid given by its rows and for the
/// markers `ms`, after the line or lines in `preamble`.
pub fn emit_source(preamble: &str, rows: &Vec<Vec<i32>>, ms: &Vec<Marker>) -> (r: String)
    ensures
        r@ == preamble@ + source_text(rows.deep_view(), ms@),
{
    let mut out = String::from_str(preamble);
    out.append("int map[MAP_HEIGHT][MAP_WIDTH] = {\n");
    let ghost start = out@;
    let mut y: usize = 0;
    while y < rows.len()
        invariant
            y <= rows@.len(),
            out@ == start + rows_text(rows.deep_view().subrange(0, y as int)),
        decreases rows@.len() - y,
    {
        push_row(&mut out, &rows[y]);
        proof {
            let s = rows.deep_view().subrange(0, y as int + 1);
            assert(s.drop_last() =~= rows.deep_view().subrange(0, y as int));
            assert(s.last() == rows[y as int]@);
        }
        y = y + 1;
        assert(out@ =~= start + rows_text(rows.deep_view().subrange(0, y as int)));
    }
    assert(rows.deep_view().subrange(0, rows@.len() as int) =~= rows.deep_view());
    out.append("};\n\n");
    out.append("void spawn_initial_enemies(void) {\n");
    let ghost start2 = out@;
    let mut i: usize = 0;
    while i < ms.len()
        invariant
            i <= ms@.len(),
            out@ == start2 + calls_text(ms@.subrange(0, i as int)),
        decreases ms@.len() - i,
    {
        let m = ms[i];
        out.append("    spawn_enemy_at(");
        push_coord(&mut out, m.x);
        out.append(", ");
        push_coord(&mut out, m.y);
        out.append(");\n");
        proof {
            let s = ms@.subrange(0, i as int + 1);
            assert(s.drop_last() =~= ms@.subrange(0, i as int));
            assert(s.last() == m);
        }
        i = i + 1;
        assert(out@ =~= start2 + calls_text(ms@.subrange(0, i as int)));
    }
    assert(ms@.subrange(0, ms@.len() as int) =~= ms@);
    out.append("}\n");
    assert(out@ =~= preamble@ + source_text(rows.deep_view(), ms@));
    out
}

} // verus!
