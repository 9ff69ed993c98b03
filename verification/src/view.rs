//! View model builder: turns the navigation state into a renderable
//! description of the two panes, with all cells formatted as text.

use vstd::prelude::*;

use crate::nav::{App, Window};
use crate::text::{push_char, string_of};
use vstd::string::StringExecFns;

verus! {

/// The hexadecimal digit character for `d` (lower case), for `0 <= d < 16`.
pub open spec fn hex_char_of(d: int) -> char
    recommends
        0 <= d < 16,
{
    if d == 0 {
        '0'
    } else if d == 1 {
        '1'
    } else if d == 2 {
        '2'
    } else if d == 3 {
        '3'
    } else if d == 4 {
        '4'
    } else if d == 5 {
        '5'
    } else if d == 6 {
        '6'
    } else if d == 7 {
        '7'
    } else if d == 8 {
        '8'
    } else if d == 9 {
        '9'
    } else if d == 10 {
        'a'
    } else if d == 11 {
        'b'
    } else if d == 12 {
        'c'
    } else if d == 13 {
        'd'
    } else if d == 14 {
        'e'
    } else {
        'f'
    }
}

/// The decimal digit character for `d`, for `0 <= d < 10`.
pub open spec fn dec_char_of(d: int) -> char
    recommends
        0 <= d < 10,
{
    if d == 0 {
        '0'
    } else if d == 1 {
        '1'
    } else if d == 2 {
        '2'
    } else if d == 3 {
        '3'
    } else if d == 4 {
        '4'
    } else if d == 5 {
        '5'
    } else if d == 6 {
        '6'
    } else if d == 7 {
        '7'
    } else if d == 8 {
        '8'
    } else {
        '9'
    }
}

/// The base-16 digit string of `v`, most significant digit first, without
/// leading zeroes (`"0"` for 0).
pub open spec fn hex_seq(v: int) -> Seq<char>
    recommends
        v >= 0,
    decreases v,
{
    if v < 16 {
        seq![hex_char_of(v)]
    } else {
        hex_seq(v / 16).push(hex_char_of(v % 16))
    }
}

/// The base-10 digit string of `v`, most significant digit first, without
/// leading zeroes (`"0"` for 0).
pub open spec fn dec_seq(v: int) -> Seq<char>
    recommends
        v >= 0,
    decreases v,
{
    if v < 10 {
        seq![dec_char_of(v)]
    } else {
        dec_seq(v / 10).push(dec_char_of(v % 10))
    }
}

/// `s` left-padded with `fill` up to width `w`; unchanged if already as
/// wide.
pub open spec fn pad_left(s: Seq<char>, fill: char, w: int) -> Seq<char> {
    if s.len() >= w {
        s
    } else {
        Seq::new((w - s.len()) as nat, |i: int| fill) + s
    }
}

/// An address cell: `0x` followed by the hex digits, zero-padded to at
/// least eight digits.
pub open spec fn hex_text(v: int) -> Seq<char> {
    seq!['0', 'x'] + pad_left(hex_seq(v), '0', 8)
}

/// A hit-count cell: `[n]` right-aligned to width six.
pub open spec fn count_text(v: int) -> Seq<char> {
    pad_left(seq!['['] + dec_seq(v) + seq![']'], ' ', 6)
}

/// A row of the path list: one space, the 1-based position right-aligned to
/// width three, two spaces, then the path.
pub open spec fn path_row_text(pos: int, path: Seq<char>) -> Seq<char> {
    seq![' '] + pad_left(dec_seq(pos), ' ', 3) + seq![' ', ' '] + path
}

/// The hexadecimal digit character for `d`.
fn hex_digit_char(d: usize) -> (c: char)
    requires
        d < 16,
    ensures
        c == hex_char_of(d as int),
{
    if d == 0 {
        '0'
    } else if d == 1 {
        '1'
    } else if d == 2 {
        '2'
    } else if d == 3 {
        '3'
    } else if d == 4 {
        '4'
    } else if d == 5 {
        '5'
    } else if d == 6 {
        '6'
    } else if d == 7 {
        '7'
    } else if d == 8 {
        '8'
    } else if d == 9 {
        '9'
    } else if d == 10 {
        'a'
    } else if d == 11 {
        'b'
    } else if d == 12 {
        'c'
    } else if d == 13 {
        'd'
    } else if d == 14 {
        'e'
    } else {
        'f'
    }
}

/// The decimal digit character for `d`.
fn dec_digit_char(d: usize) -> (c: char)
    requires
        d < 10,
    ensures
        c == dec_char_of(d as int),
{
    if d == 0 {
        '0'
    } else if d == 1 {
        '1'
    } else if d == 2 {
        '2'
    } else if d == 3 {
        '3'
    } else if d == 4 {
        '4'
    } else if d == 5 {
        '5'
    } else if d == 6 {
        '6'
    } else if d == 7 {
        '7'
    } else if d == 8 {
        '8'
    } else {
        '9'
    }
}

/// The base-16 digit characters of `v`, most significant first.
fn hex_digits(v: usize) -> (r: Vec<char>)
    ensures
        r@ == hex_seq(v as int),
{
    let mut digs: Vec<char> = Vec::new();
    let mut x: usize = v;
    proof {
        assert(hex_seq(v as int) =~= hex_seq(x as int) + digs@);
    }
    while x >= 16
        invariant
            hex_seq(v as int) == hex_seq(x as int) + digs@,
        decreases x,
    {
        let ghost x0 = x as int;
        let d = x % 16;
        digs.insert(0, hex_digit_char(d));
        x = x / 16;
        proof {
            assert(hex_seq(x0) =~= hex_seq(x as int) + seq![hex_char_of(x0 % 16)]);
            assert(hex_seq(v as int) =~= hex_seq(x as int) + digs@);
        }
    }
    let c = hex_digit_char(x);
    digs.insert(0, c);
    proof {
        assert(hex_seq(x as int) =~= seq![hex_char_of(x as int)]);
        assert(digs@ =~= hex_seq(v as int));
    }
    digs
}

/// The base-10 digit characters of `v`, most significant first.
fn dec_digits(v: usize) -> (r: Vec<char>)
    ensures
        r@ == dec_seq(v as int),
{
    let mut digs: Vec<char> = Vec::new();
    let mut x: usize = v;
    proof {
        assert(dec_seq(v as int) =~= dec_seq(x as int) + digs@);
    }
    while x >= 10
        invariant
            dec_seq(v as int) == dec_seq(x as int) + digs@,
        decreases x,
    {
        let ghost x0 = x as int;
        let d = x % 10;
        digs.insert(0, dec_digit_char(d));
        x = x / 10;
        proof {
            assert(dec_seq(x0) =~= dec_seq(x as int) + seq![dec_char_of(x0 % 10)]);
            assert(dec_seq(v as int) =~= dec_seq(x as int) + digs@);
        }
    }
    let c = dec_digit_char(x);
    digs.insert(0, c);
    proof {
        assert(dec_seq(x as int) =~= seq![dec_char_of(x as int)]);
        assert(digs@ =~= dec_seq(v as int));
    }
    digs
}

/// `v` left-padded with `fill` up to width `w`.
fn pad_vec_left(v: Vec<char>, fill: char, w: usize) -> (r: Vec<char>)
    ensures
        r@ == pad_left(v@, fill, w as int),
{
    let ghost orig = v@;
    let mut r = v;
    while r.len() < w
        invariant
            r@.len() >= orig.len(),
            r@.len() <= w || r@.len() == orig.len(),
            r@ == Seq::new((r@.len() - orig.len()) as nat, |i: int| fill) + orig,
        decreases w - r.len(),
    {
        r.insert(0, fill);
        proof {
            assert(r@ =~= Seq::new((r@.len() - orig.len()) as nat, |i: int| fill) + orig);
        }
    }
    proof {
        assert(r@ =~= pad_left(orig, fill, w as int));
    }
    r
}

/// One row of the records table, each cell already formatted.
pub struct ContextRow {
    pub pc: String,
    pub lr: String,
    pub count: String,
}

/// What one tick renders: the formatted rows of both panes, the highlighted
/// index of each, and which pane is active.
pub struct Frame {
    pub record_rows: Vec<ContextRow>,
    pub highlighted_record_index: Option<usize>,
    pub path_rows: Vec<String>,
    pub highlighted_path_index: Option<usize>,
    pub records_pane_active: bool,
}

/// Format an address cell.
pub fn format_hex(v: usize) -> (s: String)
    ensures
        s@ == hex_text(v as int),
{
    let digs = hex_digits(v);
    let padded = pad_vec_left(digs, '0', 8);
    let mut s = String::new();
    push_char(&mut s, '0');
    push_char(&mut s, 'x');
    let tail = string_of(&padded);
    s.append(tail.as_str());
    proof {
        assert(s@ =~= hex_text(v as int));
    }
    s
}

/// Format a hit-count cell.
pub fn format_count(v: usize) -> (s: String)
    ensures
        s@ == count_text(v as int),
{
    let mut inner: Vec<char> = Vec::new();
    inner.push('[');
    let mut digs = dec_digits(v);
    inner.append(&mut digs);
    inner.push(']');
    proof {
        assert(inner@ =~= seq!['['] + dec_seq(v as int) + seq![']']);
    }
    let padded = pad_vec_left(inner, ' ', 6);
    let s = string_of(&padded);
    s
}

/// Format one row of the path list; `pos` is the 1-based position of the
/// path.
pub fn format_path_row(pos: usize, path: &str) -> (s: String)
    ensures
        s@ == path_row_text(pos as int, path@),
{
    let digs = dec_digits(pos);
    let padded = pad_vec_left(digs, ' ', 3);
    let mut s = String::new();
    push_char(&mut s, ' ');
    let num = string_of(&padded);
    s.append(num.as_str());
    push_char(&mut s, ' ');
    push_char(&mut s, ' ');
    s.append(path);
    proof {
        assert(s@ =~= path_row_text(pos as int, path@));
    }
    s
}

/// The path rows owed to the state: the selected record's paths numbered
/// from 1; none when the record list is empty.
pub open spec fn spec_path_rows<'a>(app: App<'a>) -> Seq<Seq<char>> {
    match app.spec_selected_record() {
        Some(rec) => Seq::new(rec.paths@.len(), |j: int| path_row_text(j + 1, rec.paths@[j]@)),
        None => Seq::empty(),
    }
}

/// Build the frame for the current state: one formatted row per record, the
/// selected record's paths numbered from 1, the two highlighted indices
/// equal to the two cursors, and the active-pane flag. Pure: same state,
/// same frame.
pub fn build_frame<'a>(app: &App<'a>) -> (f: Frame)
    requires
        app.wf(),
    ensures
        f.record_rows@.len() == app.contexts@.len(),
        forall|i: int|
            #![trigger f.record_rows@[i]]
            0 <= i < app.contexts@.len() ==> {
                &&& f.record_rows@[i].pc@ == hex_text(app.contexts@[i].pc as int)
                &&& f.record_rows@[i].lr@ == hex_text(app.contexts@[i].lr as int)
                &&& f.record_rows@[i].count@ == count_text(app.contexts@[i].count as int)
            },
        f.highlighted_record_index == app.context_state,
        f.path_rows.deep_view() == spec_path_rows(*app),
        f.highlighted_path_index == app.path_state,
        f.records_pane_active == (app.window_state == Window::Contexts),
{
    let n = app.contexts.len();
    let mut rows: Vec<ContextRow> = Vec::new();
    let mut i: usize = 0;
    while i < n
        invariant
            i <= n,
            n == app.contexts@.len(),
            rows@.len() == i,
            forall|k: int|
                #![trigger rows@[k]]
                0 <= k < i ==> {
                    &&& rows@[k].pc@ == hex_text(app.contexts@[k].pc as int)
                    &&& rows@[k].lr@ == hex_text(app.contexts@[k].lr as int)
                    &&& rows@[k].count@ == count_text(app.contexts@[k].count as int)
                },
        decreases n - i,
    {
        let rec = &app.contexts[i];
        rows.push(
            ContextRow {
                pc: format_hex(rec.pc),
                lr: format_hex(rec.lr),
                count: format_count(rec.count),
            },
        );
        i = i + 1;
    }
    let mut path_rows: Vec<String> = Vec::new();
    match app.context_state {
        Some(ci) => {
            let plen = app.contexts[ci].paths.len();
            let mut j: usize = 0;
            while j < plen
                invariant
                    app.wf(),
                    app.context_state == Some(ci),
                    ci < app.contexts@.len(),
                    plen == app.contexts@[ci as int].paths@.len(),
                    j <= plen,
                    path_rows@.len() == j,
                    forall|k: int|
                        #![trigger path_rows@[k]]
                        0 <= k < j ==> path_rows@[k]@ == path_row_text(
                            k + 1,
                            app.contexts@[ci as int].paths@[k]@,
                        ),
                decreases plen - j,
            {
                let row = format_path_row(j + 1, app.contexts[ci].paths[j].as_str());
                path_rows.push(row);
                j = j + 1;
            }
            proof {
                assert forall|k: int| 0 <= k < plen implies path_rows.deep_view()[k]
                    == spec_path_rows(*app)[k] by {
                    assert(path_rows.deep_view()[k] == path_rows@[k]@);
                }
                assert(path_rows.deep_view() =~= spec_path_rows(*app));
            }
        }
        None => {
            proof {
                assert(path_rows.deep_view() =~= spec_path_rows(*app));
            }
        }
    }
    let active = match app.window_state {
        Window::Contexts => true,
        Window::Paths => false,
    };
    Frame {
        record_rows: rows,
        highlighted_record_index: app.context_state,
        path_rows,
        highlighted_path_index: app.path_state,
        records_pane_active: active,
    }
}

} // verus!
