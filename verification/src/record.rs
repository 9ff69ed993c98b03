//! Crash records, the line parser that produces them, and the loading
//! helpers that turn a file's data lines into a sorted record list.
//!
//! A data line has the shape `<count> 0x<pc> 0x<lr> <path1>[ <path2> ...]`:
//! it is split into at most four fields on the first three spaces; the count
//! is a base-10 unsigned integer, the two addresses carry a `0x` prefix and
//! base-16 digits, and the remainder is split on single spaces into the
//! paths. An empty or absent remainder yields a record with zero paths.

use vstd::prelude::*;

use crate::text::{chars_of, string_of_range};
use vstd::multiset::Multiset;

verus! {

/// One crash-context entry: how often the crash was hit, the program counter
/// and link register at the crash site, and the execution paths that
/// produced it. Immutable once parsed.
#[derive(Debug)]
pub struct CrashContext {
    pub count: usize,
    pub pc: usize,
    pub lr: usize,
    pub paths: Vec<String>,
}

/// Why a data line failed to parse.
#[derive(Clone, Copy, PartialEq, Eq, Structural, Debug)]
pub enum ParseError {
    /// The hit-count field is not a base-10 unsigned integer in range.
    MalformedCount,
    /// An address field is missing its `0x` prefix or is not a base-16
    /// unsigned integer in range.
    MalformedAddress,
}

/// The value of a base-10 digit character, or -1 if it is none.
pub open spec fn dec_digit_val(c: char) -> int {
    if c == '0' {
        0
    } else if c == '1' {
        1
    } else if c == '2' {
        2
    } else if c == '3' {
        3
    } else if c == '4' {
        4
    } else if c == '5' {
        5
    } else if c == '6' {
        6
    } else if c == '7' {
        7
    } else if c == '8' {
        8
    } else if c == '9' {
        9
    } else {
        -1
    }
}

/// The value of a base-16 digit character (either case), or -1 if it is
/// none.
pub open spec fn hex_digit_val(c: char) -> int {
    if c == 'a' || c == 'A' {
        10
    } else if c == 'b' || c == 'B' {
        11
    } else if c == 'c' || c == 'C' {
        12
    } else if c == 'd' || c == 'D' {
        13
    } else if c == 'e' || c == 'E' {
        14
    } else if c == 'f' || c == 'F' {
        15
    } else {
        dec_digit_val(c)
    }
}

pub open spec fn is_dec_digit(c: char) -> bool {
    dec_digit_val(c) >= 0
}

pub open spec fn is_hex_digit(c: char) -> bool {
    hex_digit_val(c) >= 0
}

pub open spec fn all_dec(s: Seq<char>) -> bool {
    forall|i: int| 0 <= i < s.len() ==> is_dec_digit(#[trigger] s[i])
}

pub open spec fn all_hex(s: Seq<char>) -> bool {
    forall|i: int| 0 <= i < s.len() ==> is_hex_digit(#[trigger] s[i])
}

/// The value of a base-10 digit string, most significant digit first.
pub open spec fn dec_val(s: Seq<char>) -> int
    decreases s.len(),
{
    if s.len() == 0 {
        0
    } else {
        dec_val(s.drop_last()) * 10 + dec_digit_val(s.last())
    }
}

/// The value of a base-16 digit string, most significant digit first.
pub open spec fn hex_val(s: Seq<char>) -> int
    decreases s.len(),
{
    if s.len() == 0 {
        0
    } else {
        hex_val(s.drop_last()) * 16 + hex_digit_val(s.last())
    }
}

/// Index of the first space in `s`, or `s.len()` if there is none.
pub open spec fn sp_idx(s: Seq<char>) -> int
    decreases s.len(),
{
    if s.len() == 0 {
        0
    } else if s[0] == ' ' {
        0
    } else {
        1 + sp_idx(s.drop_first())
    }
}

/// `sp_idx` points at the first space: everything before it is not a space,
/// and it is a space unless it is the end.
pub proof fn lemma_sp_idx(s: Seq<char>)
    ensures
        0 <= sp_idx(s) <= s.len(),
        sp_idx(s) < s.len() ==> s[sp_idx(s)] == ' ',
        forall|j: int| 0 <= j < sp_idx(s) ==> s[j] != ' ',
    decreases s.len(),
{
    if s.len() > 0 && s[0] != ' ' {
        lemma_sp_idx(s.drop_first());
        assert forall|j: int| 0 <= j < sp_idx(s) implies s[j] != ' ' by {
            if j > 0 {
                assert(s.drop_first()[j - 1] != ' ');
            }
        }
    }
}

/// `s` split on each space, in order; a string without spaces is one
/// segment, so the result is never empty.
pub open spec fn split_sp(s: Seq<char>) -> Seq<Seq<char>>
    decreases s.len(),
{
    let k = sp_idx(s);
    if 0 <= k < s.len() {
        seq![s.take(k)] + split_sp(s.skip(k + 1))
    } else {
        seq![s]
    }
}

/// End of the count field: the line's first space, or its end.
pub open spec fn count_end(s: Seq<char>) -> int {
    sp_idx(s)
}

/// The line has a program-counter field.
pub open spec fn has_pc(s: Seq<char>) -> bool {
    count_end(s) < s.len()
}

pub open spec fn pc_start(s: Seq<char>) -> int {
    count_end(s) + 1
}

pub open spec fn pc_end(s: Seq<char>) -> int {
    pc_start(s) + sp_idx(s.skip(pc_start(s)))
}

/// The line has a link-register field.
pub open spec fn has_lr(s: Seq<char>) -> bool {
    has_pc(s) && pc_end(s) < s.len()
}

pub open spec fn lr_start(s: Seq<char>) -> int {
    pc_end(s) + 1
}

pub open spec fn lr_end(s: Seq<char>) -> int {
    lr_start(s) + sp_idx(s.skip(lr_start(s)))
}

/// The line has a remainder field (the paths).
pub open spec fn has_rem(s: Seq<char>) -> bool {
    has_lr(s) && lr_end(s) < s.len()
}

pub open spec fn rem_start(s: Seq<char>) -> int {
    lr_end(s) + 1
}

/// The count field is a non-empty base-10 digit string whose value fits in
/// `usize`.
pub open spec fn count_ok(s: Seq<char>) -> bool {
    let f = s.take(count_end(s));
    f.len() > 0 && all_dec(f) && dec_val(f) <= usize::MAX
}

/// An address field carries the `0x` prefix followed by at least one
/// base-16 digit, and its value fits in `usize`.
pub open spec fn addr_field_ok(f: Seq<char>) -> bool {
    f.len() > 2 && f[0] == '0' && f[1] == 'x' && all_hex(f.skip(2)) && hex_val(f.skip(2))
        <= usize::MAX
}

pub open spec fn pc_field(s: Seq<char>) -> Seq<char> {
    s.subrange(pc_start(s), pc_end(s))
}

pub open spec fn lr_field(s: Seq<char>) -> Seq<char> {
    s.subrange(lr_start(s), lr_end(s))
}

/// The whole line parses into a record.
pub open spec fn line_ok(s: Seq<char>) -> bool {
    &&& count_ok(s)
    &&& has_pc(s)
    &&& addr_field_ok(pc_field(s))
    &&& has_lr(s)
    &&& addr_field_ok(lr_field(s))
}

/// The error owed to a line that does not parse: a bad count field is
/// reported first, any other failure is an address failure.
pub open spec fn line_err(s: Seq<char>) -> ParseError {
    if !count_ok(s) {
        ParseError::MalformedCount
    } else {
        ParseError::MalformedAddress
    }
}

pub open spec fn spec_count(s: Seq<char>) -> int {
    dec_val(s.take(count_end(s)))
}

pub open spec fn spec_pc(s: Seq<char>) -> int {
    hex_val(pc_field(s).skip(2))
}

pub open spec fn spec_lr(s: Seq<char>) -> int {
    hex_val(lr_field(s).skip(2))
}

/// The paths owed to a line: the remainder split on single spaces; an empty
/// or absent remainder yields none.
pub open spec fn spec_paths(s: Seq<char>) -> Seq<Seq<char>> {
    if has_rem(s) {
        let r = s.skip(rem_start(s));
        if r.len() == 0 {
            Seq::empty()
        } else {
            split_sp(r)
        }
    } else {
        Seq::empty()
    }
}

/// A digit string's value only grows when more digits follow: the value of
/// a prefix is a lower bound, and values are never negative.
proof fn lemma_dec_prefix(s: Seq<char>, m: int)
    requires
        0 <= m <= s.len(),
        all_dec(s),
    ensures
        dec_val(s) >= dec_val(s.take(m)) >= 0,
    decreases s.len(),
{
    if s.len() == 0 {
    } else if m == s.len() {
        assert(s.take(m) =~= s);
        lemma_dec_prefix(s.drop_last(), s.len() - 1);
        assert(s.drop_last() =~= s.take(s.len() - 1));
    } else {
        lemma_dec_prefix(s.drop_last(), m);
        assert(s.drop_last().take(m) =~= s.take(m));
        assert(dec_digit_val(s.last()) >= 0);
    }
}

/// The same for base-16 digit strings.
proof fn lemma_hex_prefix(s: Seq<char>, m: int)
    requires
        0 <= m <= s.len(),
        all_hex(s),
    ensures
        hex_val(s) >= hex_val(s.take(m)) >= 0,
    decreases s.len(),
{
    if s.len() == 0 {
    } else if m == s.len() {
        assert(s.take(m) =~= s);
        lemma_hex_prefix(s.drop_last(), s.len() - 1);
        assert(s.drop_last() =~= s.take(s.len() - 1));
    } else {
        lemma_hex_prefix(s.drop_last(), m);
        assert(s.drop_last().take(m) =~= s.take(m));
        assert(hex_digit_val(s.last()) >= 0);
    }
}

/// The index just past the run of non-spaces starting at `from`; equals
/// `from + sp_idx` of the tail.
fn find_space(v: &Vec<char>, from: usize) -> (i: usize)
    requires
        from <= v@.len(),
    ensures
        from <= i <= v@.len(),
        i - from == sp_idx(v@.skip(from as int)),
{
    let n = v.len();
    let mut i: usize = from;
    while i < n && *v.get(i).unwrap() != ' '
        invariant
            from <= i <= n,
            n == v@.len(),
            forall|j: int| from <= j < i ==> v@[j] != ' ',
        decreases n - i,
    {
        i = i + 1;
    }
    proof {
        let t = v@.skip(from as int);
        let k = i - from;
        lemma_sp_idx(t);
        if k < sp_idx(t) {
            assert(t[k] == v@[i as int]);
            assert(false);
        }
        if k > sp_idx(t) {
            assert(t[sp_idx(t)] == v@[from + sp_idx(t)]);
            assert(v@[from + sp_idx(t)] != ' ');
            assert(false);
        }
    }
    i
}

/// The value of a base-10 digit character.
fn dec_char_val(c: char) -> (r: Option<usize>)
    ensures
        r matches Some(d) ==> d == dec_digit_val(c) && d < 10,
        r is None <==> !is_dec_digit(c),
{
    if c == '0' {
        Some(0)
    } else if c == '1' {
        Some(1)
    } else if c == '2' {
        Some(2)
    } else if c == '3' {
        Some(3)
    } else if c == '4' {
        Some(4)
    } else if c == '5' {
        Some(5)
    } else if c == '6' {
        Some(6)
    } else if c == '7' {
        Some(7)
    } else if c == '8' {
        Some(8)
    } else if c == '9' {
        Some(9)
    } else {
        None
    }
}

/// The value of a base-16 digit character, either case.
fn hex_char_val(c: char) -> (r: Option<usize>)
    ensures
        r matches Some(d) ==> d == hex_digit_val(c) && d < 16,
        r is None <==> !is_hex_digit(c),
{
    if c == 'a' || c == 'A' {
        Some(10)
    } else if c == 'b' || c == 'B' {
        Some(11)
    } else if c == 'c' || c == 'C' {
        Some(12)
    } else if c == 'd' || c == 'D' {
        Some(13)
    } else if c == 'e' || c == 'E' {
        Some(14)
    } else if c == 'f' || c == 'F' {
        Some(15)
    } else {
        dec_char_val(c)
    }
}

/// `acc * base + d` stays in range exactly when `acc <= (MAX - d) / base`.
proof fn lemma_step_bound(acc: int, d: int, base: int)
    requires
        0 <= acc,
        0 <= d < base,
        2 <= base,
    ensures
        acc <= (usize::MAX - d) / base ==> acc * base + d <= usize::MAX,
        acc > (usize::MAX - d) / base ==> acc * base + d > usize::MAX,
{
    let q = (usize::MAX - d) / base;
    vstd::arithmetic::div_mod::lemma_fundamental_div_mod(usize::MAX - d, base);
    vstd::arithmetic::div_mod::lemma_mod_bound(usize::MAX - d, base);
    if acc <= q {
        vstd::arithmetic::mul::lemma_mul_inequality(acc, q, base);
    } else {
        vstd::arithmetic::mul::lemma_mul_inequality(q + 1, acc, base);
        assert((q + 1) * base == q * base + base) by (nonlinear_arith);
    }
}

/// Parse `v[lo..hi]` as a base-10 unsigned integer; `None` when the range
/// is empty, holds a non-digit, or overflows `usize`.
fn parse_dec(v: &Vec<char>, lo: usize, hi: usize) -> (r: Option<usize>)
    requires
        lo <= hi <= v@.len(),
    ensures
        ({
            let f = v@.subrange(lo as int, hi as int);
            &&& r is Some <==> (f.len() > 0 && all_dec(f) && dec_val(f) <= usize::MAX)
            &&& r matches Some(x) ==> x == dec_val(f)
        }),
{
    let ghost f = v@.subrange(lo as int, hi as int);
    if lo == hi {
        return None;
    }
    let mut acc: usize = 0;
    let mut i: usize = lo;
    proof {
        assert(v@.subrange(lo as int, lo as int) =~= f.take(0));
    }
    while i < hi
        invariant
            lo <= i <= hi <= v@.len(),
            f == v@.subrange(lo as int, hi as int),
            all_dec(f.take(i - lo)),
            acc == dec_val(f.take(i - lo)),
        decreases hi - i,
    {
        let c = *v.get(i).unwrap();
        proof {
            assert(f[i - lo] == c);
        }
        match dec_char_val(c) {
            None => {
                proof {
                    assert(!is_dec_digit(f[i - lo]));
                }
                return None;
            }
            Some(d) => {
                let ghost pre = f.take(i - lo);
                proof {
                    assert(f.take(i + 1 - lo).drop_last() =~= pre);
                    assert(f.take(i + 1 - lo).last() == c);
                    lemma_dec_prefix(pre, pre.len() as int);
                    assert(pre.take(pre.len() as int) =~= pre);
                    lemma_step_bound(acc as int, d as int, 10);
                }
                if acc > (usize::MAX - d) / 10 {
                    proof {
                        assert(dec_val(f.take(i + 1 - lo)) > usize::MAX);
                        if all_dec(f) {
                            lemma_dec_prefix(f, i + 1 - lo);
                        }
                    }
                    return None;
                }
                acc = acc * 10 + d;
                i = i + 1;
            }
        }
    }
    proof {
        assert(f.take(i - lo) =~= f);
    }
    Some(acc)
}

/// Parse `v[lo..hi]` as a base-16 unsigned integer; `None` when the range
/// is empty, holds a non-digit, or overflows `usize`.
fn parse_hex(v: &Vec<char>, lo: usize, hi: usize) -> (r: Option<usize>)
    requires
        lo <= hi <= v@.len(),
    ensures
        ({
            let f = v@.subrange(lo as int, hi as int);
            &&& r is Some <==> (f.len() > 0 && all_hex(f) && hex_val(f) <= usize::MAX)
            &&& r matches Some(x) ==> x == hex_val(f)
        }),
{
    let ghost f = v@.subrange(lo as int, hi as int);
    if lo == hi {
        return None;
    }
    let mut acc: usize = 0;
    let mut i: usize = lo;
    proof {
        assert(v@.subrange(lo as int, lo as int) =~= f.take(0));
    }
    while i < hi
        invariant
            lo <= i <= hi <= v@.len(),
            f == v@.subrange(lo as int, hi as int),
            all_hex(f.take(i - lo)),
            acc == hex_val(f.take(i - lo)),
        decreases hi - i,
    {
        let c = *v.get(i).unwrap();
        proof {
            assert(f[i - lo] == c);
        }
        match hex_char_val(c) {
            None => {
                proof {
                    assert(!is_hex_digit(f[i - lo]));
                }
                return None;
            }
            Some(d) => {
                let ghost pre = f.take(i - lo);
                proof {
                    assert(f.take(i + 1 - lo).drop_last() =~= pre);
                    assert(f.take(i + 1 - lo).last() == c);
                    lemma_hex_prefix(pre, pre.len() as int);
                    assert(pre.take(pre.len() as int) =~= pre);
                    lemma_step_bound(acc as int, d as int, 16);
                }
                if acc > (usize::MAX - d) / 16 {
                    proof {
                        assert(hex_val(f.take(i + 1 - lo)) > usize::MAX);
                        if all_hex(f) {
                            lemma_hex_prefix(f, i + 1 - lo);
                        }
                    }
                    return None;
                }
                acc = acc * 16 + d;
                i = i + 1;
            }
        }
    }
    proof {
        assert(f.take(i - lo) =~= f);
    }
    Some(acc)
}

/// Parse `v[lo..hi]` as a `0x`-prefixed base-16 address field.
fn parse_addr(v: &Vec<char>, lo: usize, hi: usize) -> (r: Option<usize>)
    requires
        lo <= hi <= v@.len(),
    ensures
        ({
            let f = v@.subrange(lo as int, hi as int);
            &&& r is Some <==> addr_field_ok(f)
            &&& r matches Some(x) ==> x == hex_val(f.skip(2))
        }),
{
    let ghost f = v@.subrange(lo as int, hi as int);
    if hi - lo < 2 {
        return None;
    }
    if *v.get(lo).unwrap() != '0' || *v.get(lo + 1).unwrap() != 'x' {
        proof {
            assert(f[0] == v@[lo as int]);
            assert(f[1] == v@[lo as int + 1]);
        }
        return None;
    }
    proof {
        assert(f[0] == v@[lo as int]);
        assert(f[1] == v@[lo as int + 1]);
        assert(f.skip(2) =~= v@.subrange(lo as int + 2, hi as int));
    }
    parse_hex(v, lo + 2, hi)
}

/// `v1` is `v0` with `s` pushed; then the deep views relate the same way.
proof fn lemma_push_deep_view(v0: Vec<String>, v1: Vec<String>, s: String)
    requires
        v1@ == v0@.push(s),
    ensures
        v1.deep_view() == v0.deep_view().push(s@),
{
    assert forall|k: int| 0 <= k < v1@.len() implies v1.deep_view()[k] == v0.deep_view().push(
        s@,
    )[k] by {
        assert(v1.deep_view()[k] == v1@[k]@);
        if k < v0@.len() {
            assert(v0.deep_view()[k] == v0@[k]@);
        }
    }
    assert(v1.deep_view() =~= v0.deep_view().push(s@));
}

/// Split `v[lo..]` on each space into owned strings.
fn split_paths(v: &Vec<char>, lo: usize) -> (paths: Vec<String>)
    requires
        lo <= v@.len(),
    ensures
        paths.deep_view() == split_sp(v@.skip(lo as int)),
{
    let n = v.len();
    let mut paths: Vec<String> = Vec::new();
    let mut p: usize = lo;
    let mut done = false;
    proof {
        assert(paths.deep_view() =~= Seq::<Seq<char>>::empty());
    }
    while !done
        invariant
            lo <= p <= n,
            n == v@.len(),
            !done ==> split_sp(v@.skip(lo as int)) == paths.deep_view() + split_sp(
                v@.skip(p as int),
            ),
            done ==> paths.deep_view() == split_sp(v@.skip(lo as int)),
        decreases n - p + (if done { 0int } else { 1int }),
    {
        let ghost paths0 = paths;
        let e = find_space(v, p);
        let seg = string_of_range(v, p, e);
        proof {
            assert(seg@ == v@.subrange(p as int, e as int));
        }
        paths.push(seg);
        proof {
            lemma_push_deep_view(paths0, paths, seg);
            let t = v@.skip(p as int);
            lemma_sp_idx(t);
            if e == n {
                assert(sp_idx(t) == t.len());
                assert(t =~= v@.subrange(p as int, e as int));
                assert(split_sp(t) =~= seq![v@.subrange(p as int, e as int)]);
                assert(paths.deep_view() =~= paths0.deep_view() + split_sp(t));
            } else {
                assert(sp_idx(t) < t.len());
                assert(t.take(sp_idx(t)) =~= v@.subrange(p as int, e as int));
                assert(t.skip(sp_idx(t) + 1) =~= v@.skip(e as int + 1));
                assert(split_sp(t) == seq![v@.subrange(p as int, e as int)] + split_sp(
                    v@.skip(e as int + 1),
                ));
                assert(paths.deep_view() + split_sp(v@.skip(e as int + 1))
                    =~= paths0.deep_view() + split_sp(t));
            }
        }
        if e == n {
            done = true;
        } else {
            p = e + 1;
        }
    }
    paths
}

impl CrashContext {
    /// Parse one data line. Returns the record exactly when the line is
    /// well-formed (`line_ok`); a bad count field is reported as
    /// `MalformedCount`, a missing or bad address field as
    /// `MalformedAddress`, the count checked first.
    pub fn from_str(line: &str) -> (r: Result<CrashContext, ParseError>)
        ensures
            r is Ok <==> line_ok(line@),
            r matches Ok(rec) ==> {
                &&& rec.count == spec_count(line@)
                &&& rec.pc == spec_pc(line@)
                &&& rec.lr == spec_lr(line@)
                &&& rec.paths.deep_view() == spec_paths(line@)
            },
            !count_ok(line@) ==> r == Err::<CrashContext, ParseError>(ParseError::MalformedCount),
            count_ok(line@) && !line_ok(line@) ==> r == Err::<CrashContext, ParseError>(
                ParseError::MalformedAddress,
            ),
    {
        let chars = chars_of(line);
        let n = chars.len();
        let ghost s = line@;
        // Count field: up to the first space.
        let a = find_space(&chars, 0);
        proof {
            assert(chars@.skip(0) =~= s);
            assert(chars@.subrange(0, a as int) =~= s.take(count_end(s)));
        }
        let count = match parse_dec(&chars, 0, a) {
            Some(x) => x,
            None => {
                return Err(ParseError::MalformedCount);
            }
        };
        // Program counter field.
        if a == n {
            return Err(ParseError::MalformedAddress);
        }
        let b = find_space(&chars, a + 1);
        proof {
            assert(pc_end(s) == b);
            assert(chars@.subrange(a as int + 1, b as int) =~= pc_field(s));
        }
        let pc = match parse_addr(&chars, a + 1, b) {
            Some(x) => x,
            None => {
                return Err(ParseError::MalformedAddress);
            }
        };
        // Link register field.
        if b == n {
            return Err(ParseError::MalformedAddress);
        }
        let c = find_space(&chars, b + 1);
        proof {
            assert(lr_end(s) == c);
            assert(chars@.subrange(b as int + 1, c as int) =~= lr_field(s));
        }
        let lr = match parse_addr(&chars, b + 1, c) {
            Some(x) => x,
            None => {
                return Err(ParseError::MalformedAddress);
            }
        };
        // Remainder: the paths, split on single spaces; empty or absent
        // remainder means no paths.
        let mut paths: Vec<String> = Vec::new();
        proof {
            assert(paths.deep_view() =~= Seq::<Seq<char>>::empty());
        }
        if c < n && c + 1 < n {
            paths = split_paths(&chars, c + 1);
            proof {
                assert(s.skip(rem_start(s)).len() > 0);
            }
        }
        Ok(CrashContext { count, pc, lr, paths })
    }
}

/// Records are sorted when their program counters never decrease.
pub open spec fn sorted_by_pc(s: Seq<CrashContext>) -> bool {
    forall|i: int, j: int| 0 <= i < j < s.len() ==> s[i].pc <= s[j].pc
}

/// Sort records by program counter, ascending; the result holds exactly the
/// input records.
pub fn sort_by_pc(recs: Vec<CrashContext>) -> (r: Vec<CrashContext>)
    ensures
        sorted_by_pc(r@),
        r@.to_multiset() == recs@.to_multiset(),
{
    broadcast use vstd::seq_lib::group_to_multiset_ensures;
    broadcast use vstd::multiset::group_multiset_axioms;

    let ghost orig = recs@;
    let mut rest = recs;
    let mut out: Vec<CrashContext> = Vec::new();
    proof {
        assert(out@.to_multiset().add(rest@.to_multiset()) =~= orig.to_multiset());
    }
    while rest.len() > 0
        invariant
            sorted_by_pc(out@),
            out@.to_multiset().add(rest@.to_multiset()) == orig.to_multiset(),
        decreases rest.len(),
    {
        let ghost rest0 = rest@;
        let ghost out0 = out@;
        let rec = rest.remove(0);
        proof {
            assert(rest0.contains(rec)) by {
                assert(rest0[0] == rec);
            }
        }
        let mut pos: usize = out.len();
        while pos > 0 && out[pos - 1].pc > rec.pc
            invariant
                pos <= out@.len(),
                out@ == out0,
                forall|m: int| pos <= m < out@.len() ==> out@[m].pc > rec.pc,
            decreases pos,
        {
            pos = pos - 1;
        }
        let ghost pos0 = pos as int;
        out.insert(pos, rec);
        proof {
            out0.insert_ensures(pos0, rec);
            assert forall|i: int, j: int| 0 <= i < j < out@.len() implies out@[i].pc
                <= out@[j].pc by {
                if pos0 > 0 {
                    assert(out0[pos0 - 1].pc <= rec.pc);
                }
            }
            rest0.to_multiset_ensures();
            vstd::seq_lib::to_multiset_insert(out0, pos0, rec);
            assert(rest@ == rest0.remove(0));
            assert(rest@.to_multiset() == rest0.to_multiset().remove(rec));
            assert(out@.to_multiset() == out0.to_multiset().insert(rec));
            assert(rest0.to_multiset().count(rec) >= 1);
            assert(out@.to_multiset().add(rest@.to_multiset()) =~= out0.to_multiset().add(
                rest0.to_multiset(),
            ));
        }
    }
    proof {
        assert(rest@ =~= Seq::<CrashContext>::empty());
        assert(rest@.to_multiset() =~= Multiset::<CrashContext>::empty());
        assert(out@.to_multiset() =~= orig.to_multiset());
    }
    out
}

/// Parse every data line, in order. Returns the records exactly when every
/// line is well-formed; otherwise the error of the first bad line.
pub fn load_records(lines: &Vec<String>) -> (r: Result<Vec<CrashContext>, ParseError>)
    ensures
        r is Ok <==> (forall|i: int| 0 <= i < lines@.len() ==> line_ok(#[trigger] lines@[i]@)),
        r matches Ok(recs) ==> {
            &&& recs@.len() == lines@.len()
            &&& forall|i: int|
                #![trigger recs@[i]]
                0 <= i < lines@.len() ==> {
                    &&& recs@[i].count == spec_count(lines@[i]@)
                    &&& recs@[i].pc == spec_pc(lines@[i]@)
                    &&& recs@[i].lr == spec_lr(lines@[i]@)
                    &&& recs@[i].paths.deep_view() == spec_paths(lines@[i]@)
                }
        },
        r matches Err(e) ==> exists|i: int|
            0 <= i < lines@.len() && !line_ok(#[trigger] lines@[i]@) && e == line_err(lines@[i]@)
                && (forall|j: int| 0 <= j < i ==> line_ok(#[trigger] lines@[j]@)),
{
    let mut recs: Vec<CrashContext> = Vec::new();
    let mut i: usize = 0;
    let n = lines.len();
    while i < n
        invariant
            i <= n,
            n == lines@.len(),
            recs@.len() == i,
            forall|j: int| 0 <= j < i ==> line_ok(#[trigger] lines@[j]@),
            forall|j: int|
                #![trigger recs@[j]]
                0 <= j < i ==> {
                    &&& recs@[j].count == spec_count(lines@[j]@)
                    &&& recs@[j].pc == spec_pc(lines@[j]@)
                    &&& recs@[j].lr == spec_lr(lines@[j]@)
                    &&& recs@[j].paths.deep_view() == spec_paths(lines@[j]@)
                },
        decreases n - i,
    {
        match CrashContext::from_str(lines[i].as_str()) {
            Ok(rec) => {
                recs.push(rec);
            }
            Err(e) => {
                return Err(e);
            }
        }
        i = i + 1;
    }
    Ok(recs)
}

} // verus!
