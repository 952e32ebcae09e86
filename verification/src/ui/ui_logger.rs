//! What the viewer reads in the simulation's log: the lines that announce
//! a new agent become its appearance and the path it is animated along,
//! plant lines become plant events, arrivals remove the agent, and any
//! other line is kept as text. Lines are read as their UTF-8 bytes.

use vstd::prelude::*;
use vstd::string::StringSliceAdditionalSpecFns;
use vstd::slice::slice_subrange;
use crate::ui::event_queue::{EntityKind, EventQueue, UiEvent};
use crate::ui::drawing::{BRIDGE_ROWS, RIVER_COL};

verus! {

/// Whether `p` occurs in `s` at `i`.
pub open spec fn occurs_at(s: Seq<u8>, p: Seq<u8>, i: int) -> bool {
    0 <= i && i + p.len() <= s.len() && s.subrange(i, i + p.len()) == p
}

/// The first position at or after `i` where `p` occurs in `s`.
pub open spec fn find_from(s: Seq<u8>, p: Seq<u8>, i: int) -> Option<int>
    decreases s.len() - i,
{
    if i < 0 || i + p.len() > s.len() {
        None
    } else if occurs_at(s, p, i) {
        Some(i)
    } else if i >= s.len() {
        None
    } else {
        find_from(s, p, i + 1)
    }
}

/// An ASCII digit.
pub open spec fn is_digit(b: u8) -> bool {
    48 <= b <= 57
}

/// How many ASCII digits follow one another in `s` from `i`.
pub open spec fn digit_run(s: Seq<u8>, i: int) -> nat
    decreases s.len() - i,
{
    if 0 <= i < s.len() && is_digit(s[i]) {
        1 + digit_run(s, i + 1)
    } else {
        0
    }
}

/// The number written by the `n` digits of `s` from `i`.
pub open spec fn digits_value(s: Seq<u8>, i: int, n: nat) -> int
    decreases n,
{
    if n == 0 {
        0
    } else {
        digits_value(s, i, (n - 1) as nat) * 10 + (s[i + n - 1] - 48)
    }
}

/// The number whose digits start at `i`: none without digits or beyond
/// the range of `u32`.
pub open spec fn number_at(s: Seq<u8>, i: int) -> Option<u32> {
    let n = digit_run(s, i);
    if n == 0 || digits_value(s, i, n) > u32::MAX {
        None
    } else {
        Some(digits_value(s, i, n) as u32)
    }
}

/// `t` read as a `u32` in the manner of `str::parse`: an optional `+`, then
/// at least one digit and nothing else, within range.
pub open spec fn parse_u32_spec(t: Seq<u8>) -> Option<u32> {
    let body = if t.len() > 0 && t[0] == 43 { t.drop_first() } else { t };
    if body.len() > 0 && digit_run(body, 0) == body.len() {
        number_at(body, 0)
    } else {
        None
    }
}

/// The length of the white-space character that `t` starts with (Unicode
/// `White_Space`, in UTF-8), or 0.
pub open spec fn ws_prefix_len(t: Seq<u8>) -> nat {
    if t.len() >= 1 && ((9 <= t[0] <= 13) || t[0] == 32) {
        1
    } else if t.len() >= 2 && t[0] == 0xC2 && (t[1] == 0x85 || t[1] == 0xA0) {
        2
    } else if t.len() >= 3 && ((t[0] == 0xE1 && t[1] == 0x9A && t[2] == 0x80) || (t[0] == 0xE2 && t[1] == 0x80 && (
    t[2] <= 0x8A || t[2] == 0xA8 || t[2] == 0xA9 || t[2] == 0xAF)) || (t[0] == 0xE2 && t[1] == 0x81 && t[2] == 0x9F)
        || (t[0] == 0xE3 && t[1] == 0x80 && t[2] == 0x80)) {
        3
    } else {
        0
    }
}

/// The length of the white-space character that `t` ends with, or 0.
pub open spec fn ws_suffix_len(t: Seq<u8>) -> nat {
    let n = t.len() as int;
    if n >= 1 && ((9 <= t[n - 1] <= 13) || t[n - 1] == 32) {
        1
    } else if n >= 2 && ws_prefix_len(t.subrange(n - 2, n)) == 2 {
        2
    } else if n >= 3 && ws_prefix_len(t.subrange(n - 3, n)) == 3 {
        3
    } else {
        0
    }
}

/// `t` without the white space it starts with.
pub open spec fn trim_start(t: Seq<u8>) -> Seq<u8>
    decreases t.len(),
{
    let k = ws_prefix_len(t);
    if k == 0 || k > t.len() {
        t
    } else {
        trim_start(t.subrange(k as int, t.len() as int))
    }
}

/// `t` without the white space it ends with.
pub open spec fn trim_end(t: Seq<u8>) -> Seq<u8>
    decreases t.len(),
{
    let k = ws_suffix_len(t);
    if k == 0 || k > t.len() {
        t
    } else {
        trim_end(t.subrange(0, t.len() - k))
    }
}

/// The number after the first `prefix` of `s`.
pub open spec fn id_after(s: Seq<u8>, prefix: Seq<u8>) -> Option<u32> {
    match find_from(s, prefix, 0) {
        Some(i) => number_at(s, i + prefix.len()),
        None => None,
    }
}

/// The number written, amid white space, between the first `[` of `s` and
/// the first `]` after it.
pub open spec fn bracket_id(s: Seq<u8>) -> Option<u32> {
    match find_from(s, "[".spec_bytes(), 0) {
        Some(open) => {
            let rest = s.subrange(open + "[".spec_bytes().len(), s.len() as int);
            match find_from(rest, "]".spec_bytes(), 0) {
                Some(close) => parse_u32_spec(trim_end(trim_start(rest.subrange(0, close)))),
                None => None,
            }
        },
        None => None,
    }
}

/// The coordinates of `s`: the numbers after its first `x: ` and after its
/// first `y: `.
pub open spec fn coord_in(s: Seq<u8>) -> Option<(u32, u32)> {
    match (find_from(s, "x: ".spec_bytes(), 0), find_from(s, "y: ".spec_bytes(), 0)) {
        (Some(xi), Some(yi)) => match (
            number_at(s, xi + "x: ".spec_bytes().len()),
            number_at(s, yi + "y: ".spec_bytes().len()),
        ) {
            (Some(x), Some(y)) => Some((x, y)),
            _ => None,
        },
        _ => None,
    }
}

/// An origin and a destination: the coordinates of `s`, then those of what
/// follows its first `y:`.
pub open spec fn origin_dest(s: Seq<u8>) -> Option<((u32, u32), (u32, u32))> {
    match coord_in(s) {
        Some(o) => match find_from(s, "y:".spec_bytes(), 0) {
            Some(p) => match coord_in(s.subrange(p + "y:".spec_bytes().len(), s.len() as int)) {
                Some(d) => Some((o, d)),
                None => None,
            },
            None => None,
        },
        None => None,
    }
}

/// Whether `p` occurs in `s` at `i`.
fn matches_at(s: &[u8], p: &[u8], i: usize) -> (r: bool)
    requires
        i + p@.len() <= s@.len(),
    ensures
        r == occurs_at(s@, p@, i as int),
{
    let n = s.len();
    let mut j: usize = 0;
    while j < p.len()
        invariant
            0 <= j <= p@.len(),
            n == s@.len(),
            i + p@.len() <= s@.len(),
            forall|k: int| 0 <= k < j ==> s@[i + k] == p@[k],
        decreases p@.len() - j,
    {
        if s[i + j] != p[j] {
            proof {
                assert(s@.subrange(i as int, i + p@.len())[j as int] != p@[j as int]);
            }
            return false;
        }
        j = j + 1;
    }
    proof {
        assert(s@.subrange(i as int, i + p@.len()) =~= p@);
    }
    true
}

/// The first position at or after `from` where `p` occurs in `s`.
fn find_bytes(s: &[u8], p: &[u8], from: usize) -> (r: Option<usize>)
    ensures
        match r {
            Some(k) => find_from(s@, p@, from as int) == Some(k as int) && occurs_at(s@, p@, k as int),
            None => find_from(s@, p@, from as int) is None,
        },
        s@.len() <= usize::MAX,
{
    let n = s.len();
    let m = p.len();
    if m > n {
        return None;
    }
    let last = n - m;
    if from > last {
        return None;
    }
    let mut i: usize = from;
    loop
        invariant
            from <= i <= last,
            n == s@.len(),
            m == p@.len(),
            last == n - m,
            find_from(s@, p@, from as int) == find_from(s@, p@, i as int),
        decreases last - i,
    {
        if matches_at(s, p, i) {
            return Some(i);
        }
        if i == last {
            return None;
        }
        i = i + 1;
    }
}

proof fn lemma_digits_value_grows(s: Seq<u8>, i: int, k: nat, n: nat)
    requires
        k <= n,
        forall|j: int| i <= j < i + n ==> is_digit(#[trigger] s[j]),
    ensures
        0 <= digits_value(s, i, k) <= digits_value(s, i, n),
    decreases n,
{
    if n > 0 {
        let k2: nat = if k < n { k } else { (n - 1) as nat };
        lemma_digits_value_grows(s, i, k2, (n - 1) as nat);
        assert(is_digit(s[i + n - 1]));
    }
}

proof fn lemma_digit_at(s: Seq<u8>, i: int, k: nat, j: int)
    requires
        0 <= i <= j < i + k,
        k <= digit_run(s, i),
    ensures
        j < s.len(),
        is_digit(s[j]),
    decreases j - i,
{
    assert(0 <= i < s.len() && is_digit(s[i]));
    if j > i {
        lemma_digit_at(s, i + 1, (k - 1) as nat, j);
    }
}

proof fn lemma_digit_run(s: Seq<u8>, i: int, k: nat)
    requires
        0 <= i,
        k <= digit_run(s, i),
    ensures
        k > 0 ==> i + k <= s.len(),
        forall|j: int| i <= j < i + k ==> is_digit(#[trigger] s[j]),
        k < digit_run(s, i) ==> i + k < s.len() && is_digit(s[i + k]),
        k == digit_run(s, i) ==> !(i + k < s.len() && is_digit(s[i + k])),
{
    assert forall|j: int| i <= j < i + k implies is_digit(#[trigger] s[j]) by {
        lemma_digit_at(s, i, k, j);
    }
    if k > 0 {
        lemma_digit_at(s, i, k, i + k - 1);
    }
    if k < digit_run(s, i) {
        lemma_digit_at(s, i, (k + 1) as nat, i + k);
    }
    if k == digit_run(s, i) {
        lemma_run_end(s, i, k);
    }
}

proof fn lemma_run_end(s: Seq<u8>, i: int, k: nat)
    requires
        0 <= i,
        k == digit_run(s, i),
    ensures
        !(i + k < s.len() && is_digit(s[i + k])),
    decreases k,
{
    if k > 0 {
        lemma_run_end(s, i + 1, (k - 1) as nat);
    }
}

/// The number whose digits start at `i` of `s`.
fn read_number(s: &[u8], i: usize) -> (r: Option<u32>)
    ensures
        r == number_at(s@, i as int),
{
    if i >= s.len() {
        return None;
    }
    let mut k: usize = i;
    let mut value: u64 = 0;
    let ghost n = digit_run(s@, i as int);
    proof {
        lemma_digit_run(s@, i as int, n);
    }
    while k < s.len() && s[k] >= 48 && s[k] <= 57
        invariant
            i <= k <= s@.len(),
            k - i <= n,
            n == digit_run(s@, i as int),
            forall|j: int| i <= j < i + n ==> is_digit(#[trigger] s@[j]),
            n > 0 ==> i + n <= s@.len(),
            (i + n < s@.len() ==> !is_digit(s@[i + n])),
            value == digits_value(s@, i as int, (k - i) as nat),
            value <= u32::MAX,
        decreases s@.len() - k,
    {
        proof {
            if k - i == n {
                assert(!is_digit(s@[i + n]));
            }
        }
        let d = (s[k] - 48) as u64;
        if value > (u32::MAX as u64 - d) / 10 {
            proof {
                assert(digits_value(s@, i as int, (k + 1 - i) as nat) == value * 10 + d);
                assert(digits_value(s@, i as int, (k + 1 - i) as nat) > u32::MAX) by (nonlinear_arith)
                    requires
                        value > (u32::MAX - d) / 10,
                        d <= 9,
                        digits_value(s@, i as int, (k + 1 - i) as nat) == value * 10 + d,
                ;
                lemma_digits_value_grows(s@, i as int, (k + 1 - i) as nat, n);
            }
            return None;
        }
        value = value * 10 + d;
        k = k + 1;
    }
    proof {
        if k - i < n {
            assert(is_digit(s@[k as int]));
        }
    }
    if k == i {
        None
    } else {
        Some(value as u32)
    }
}

/// How many digits follow one another in `s` from `i`.
fn digit_run_exec(s: &[u8], i: usize) -> (n: usize)
    ensures
        n == digit_run(s@, i as int),
{
    if i >= s.len() {
        return 0;
    }
    let mut k: usize = i;
    while k < s.len() && s[k] >= 48 && s[k] <= 57
        invariant
            i <= k <= s@.len(),
            digit_run(s@, i as int) == (k - i) + digit_run(s@, k as int),
        decreases s@.len() - k,
    {
        k = k + 1;
    }
    k - i
}

/// The length of the white-space character `t` starts with, or 0.
fn ws_prefix(t: &[u8]) -> (k: usize)
    ensures
        k == ws_prefix_len(t@),
{
    let n = t.len();
    if n >= 1 && ((t[0] >= 9 && t[0] <= 13) || t[0] == 32) {
        1
    } else if n >= 2 && t[0] == 0xC2 && (t[1] == 0x85 || t[1] == 0xA0) {
        2
    } else if n >= 3 && ((t[0] == 0xE1 && t[1] == 0x9A && t[2] == 0x80) || (t[0] == 0xE2 && t[1] == 0x80 && (t[2]
        <= 0x8A || t[2] == 0xA8 || t[2] == 0xA9 || t[2] == 0xAF)) || (t[0] == 0xE2 && t[1] == 0x81 && t[2] == 0x9F)
        || (t[0] == 0xE3 && t[1] == 0x80 && t[2] == 0x80)) {
        3
    } else {
        0
    }
}

/// The length of the white-space character `t` ends with, or 0.
fn ws_suffix(t: &[u8]) -> (k: usize)
    ensures
        k == ws_suffix_len(t@),
{
    let n = t.len();
    if n >= 1 && ((t[n - 1] >= 9 && t[n - 1] <= 13) || t[n - 1] == 32) {
        1
    } else if n >= 2 && ws_prefix(slice_subrange(t, n - 2, n)) == 2 {
        2
    } else if n >= 3 && ws_prefix(slice_subrange(t, n - 3, n)) == 3 {
        3
    } else {
        0
    }
}

/// `t` without the white space around it.
fn trim_bytes(t: &[u8]) -> (r: &[u8])
    ensures
        r@ == trim_end(trim_start(t@)),
{
    let mut a: &[u8] = t;
    loop
        invariant
            trim_start(t@) == trim_start(a@),
        ensures
            trim_start(t@) == a@,
        decreases a@.len(),
    {
        let k = ws_prefix(a);
        if k == 0 || k > a.len() {
            break;
        }
        a = slice_subrange(a, k, a.len());
    }
    let mut b: &[u8] = a;
    loop
        invariant
            trim_end(trim_start(t@)) == trim_end(b@),
        ensures
            trim_end(trim_start(t@)) == b@,
        decreases b@.len(),
    {
        let k = ws_suffix(b);
        if k == 0 || k > b.len() {
            break;
        }
        b = slice_subrange(b, 0, b.len() - k);
    }
    b
}

/// `t` read as a `u32` in the manner of `str::parse`.
fn parse_u32(t: &[u8]) -> (r: Option<u32>)
    ensures
        r == parse_u32_spec(t@),
{
    let body = if t.len() > 0 && t[0] == 43 { slice_subrange(t, 1, t.len()) } else { t };
    proof {
        if t@.len() > 0 && t@[0] == 43 {
            assert(body@ =~= t@.drop_first());
        }
    }
    if body.len() > 0 && digit_run_exec(body, 0) == body.len() {
        read_number(body, 0)
    } else {
        None
    }
}

/// The number after the first `prefix` of `s`, if digits follow it.
pub fn extract_id(s: &str, prefix: &str) -> (r: Option<u32>)
    ensures
        r == id_after(s.spec_bytes(), prefix.spec_bytes()),
{
    let b = s.as_bytes();
    let p = prefix.as_bytes();
    match find_bytes(b, p, 0) {
        Some(i) => read_number(b, i + p.len()),
        None => None,
    }
}

/// The number written between the first `[` of `s` and the next `]`,
/// white space around it aside.
pub fn extract_bracket_id(s: &str) -> (r: Option<u32>)
    ensures
        r == bracket_id(s.spec_bytes()),
{
    let b = s.as_bytes();
    let po = "[".as_bytes();
    match find_bytes(b, po, 0) {
        Some(open) => {
            let rest = slice_subrange(b, open + po.len(), b.len());
            let pc = "]".as_bytes();
            match find_bytes(rest, pc, 0) {
                Some(close) => parse_u32(trim_bytes(slice_subrange(rest, 0, close))),
                None => None,
            }
        },
        None => None,
    }
}

/// The coordinates of `b`.
fn coord_in_bytes(b: &[u8]) -> (r: Option<(u32, u32)>)
    ensures
        r == coord_in(b@),
{
    let px = "x: ".as_bytes();
    let py = "y: ".as_bytes();
    let xi = match find_bytes(b, px, 0) {
        Some(i) => i,
        None => {
            return None;
        },
    };
    let yi = match find_bytes(b, py, 0) {
        Some(i) => i,
        None => {
            return None;
        },
    };
    let x = read_number(b, xi + px.len());
    let y = read_number(b, yi + py.len());
    match (x, y) {
        (Some(x), Some(y)) => Some((x, y)),
        _ => None,
    }
}

/// The coordinates written in `s` as `x: ` and `y: ` followed by numbers.
pub fn extract_coord_from(s: &str) -> (r: Option<(u32, u32)>)
    ensures
        r == coord_in(s.spec_bytes()),
{
    coord_in_bytes(s.as_bytes())
}

/// The coordinates written in `s`.
pub fn extract_single_coord(s: &str) -> (r: Option<(u32, u32)>)
    ensures
        r == coord_in(s.spec_bytes()),
{
    match extract_coord_from(s) {
        Some((x, y)) => Some((x, y)),
        None => None,
    }
}

/// The origin and destination written in `s`: its coordinates, then those
/// that follow its first `y:`.
pub fn extract_origin_dest(s: &str) -> (r: Option<((u32, u32), (u32, u32))>)
    ensures
        r == origin_dest(s.spec_bytes()),
{
    let b = s.as_bytes();
    let o = match coord_in_bytes(b) {
        Some(c) => c,
        None => {
            return None;
        },
    };
    let py = "y:".as_bytes();
    match find_bytes(b, py, 0) {
        Some(p) => {
            let rest = slice_subrange(b, p + py.len(), b.len());
            match coord_in_bytes(rest) {
                Some(d) => Some((o, d)),
                None => None,
            }
        },
        None => None,
    }
}

/// How far `a` is from `b`.
pub open spec fn gap(a: u32, b: u32) -> int {
    if a >= b { a - b } else { b - a }
}

/// Moves along the rows from `cur` to row `target`, one event per row.
pub open spec fn row_walk(id: u32, cur: (u32, u32), target: u32) -> Seq<UiEvent>
    decreases gap(cur.0, target),
{
    if cur.0 == target {
        Seq::empty()
    } else {
        let next = (if cur.0 < target { (cur.0 + 1) as u32 } else { (cur.0 - 1) as u32 }, cur.1);
        seq![UiEvent::Move { id, to: next }] + row_walk(id, next, target)
    }
}

/// The next column on the way to `dest` when crossing: the river's column
/// is jumped over.
pub open spec fn cross_step(c: u32, dest: u32) -> u32 {
    if c < dest {
        if c + 1 == RIVER_COL { (c + 2) as u32 } else { (c + 1) as u32 }
    } else {
        if c - 1 == RIVER_COL { (c - 2) as u32 } else { (c - 1) as u32 }
    }
}

/// Moves along the columns from `cur` to column `dest` across the river,
/// one event per step (a destination in the river is never walked to).
pub open spec fn cross_col_walk(id: u32, cur: (u32, u32), dest: u32) -> Seq<UiEvent>
    decreases gap(cur.1, dest),
{
    if cur.1 == dest || dest == RIVER_COL {
        Seq::empty()
    } else {
        let next = (cur.0, cross_step(cur.1, dest));
        seq![UiEvent::Move { id, to: next }] + cross_col_walk(id, next, dest)
    }
}

/// Moves along the columns from `cur` to column `dest`, one event per column.
pub open spec fn col_walk(id: u32, cur: (u32, u32), dest: u32) -> Seq<UiEvent>
    decreases gap(cur.1, dest),
{
    if cur.1 == dest {
        Seq::empty()
    } else {
        let next = (cur.0, if cur.1 < dest { (cur.1 + 1) as u32 } else { (cur.1 - 1) as u32 });
        seq![UiEvent::Move { id, to: next }] + col_walk(id, next, dest)
    }
}

/// Whether the way from `cur` to `dest` crosses the river on screen.
pub open spec fn crosses_river(cur: (u32, u32), dest: (u32, u32)) -> bool {
    (cur.1 < RIVER_COL && dest.1 > RIVER_COL) || (cur.1 > RIVER_COL && dest.1 < RIVER_COL)
}

/// The bridge row nearest `row`; the first one wins a tie.
pub open spec fn cross_row(row: u32) -> u32 {
    let d0 = gap(row, BRIDGE_ROWS[0]);
    let d1 = gap(row, BRIDGE_ROWS[1]);
    let d2 = gap(row, BRIDGE_ROWS[2]);
    if d1 < d0 {
        if d2 < d1 { BRIDGE_ROWS[2] } else { BRIDGE_ROWS[1] }
    } else {
        if d2 < d0 { BRIDGE_ROWS[2] } else { BRIDGE_ROWS[0] }
    }
}

/// The animation of a land vehicle from `cur` to `dest`: to the row of the
/// nearest bridge, across, then to the destination's row when it crosses
/// the river; otherwise along the columns, then the rows; then it leaves.
pub open spec fn path_events(id: u32, cur: (u32, u32), dest: (u32, u32)) -> Seq<UiEvent> {
    if crosses_river(cur, dest) {
        let r = cross_row(cur.0);
        row_walk(id, cur, r) + cross_col_walk(id, (r, cur.1), dest.1) + row_walk(id, (r, dest.1), dest.0) + seq![
            UiEvent::Remove { id },
        ]
    } else {
        col_walk(id, cur, dest.1) + row_walk(id, (cur.0, dest.1), dest.0) + seq![UiEvent::Remove { id }]
    }
}

/// `e` moves an entity to a block of column `col`.
pub open spec fn moves_within(e: UiEvent, col: u32) -> bool {
    e matches UiEvent::Move { to, .. } && to.1 == col
}

/// In `ev`, the entity moves only within column `col` before event `k`, and
/// event `k` is its first move to another column, onto a bridge row that
/// no other bridge row is nearer to `row`.
pub open spec fn leaves_column_at_nearest_bridge(ev: Seq<UiEvent>, col: u32, row: u32, k: int) -> bool {
    &&& 0 <= k < ev.len()
    &&& forall|j: int| 0 <= j < k ==> moves_within(#[trigger] ev[j], col)
    &&& ev[k] matches UiEvent::Move { to, .. } && to.1 != col && is_nearest_bridge_row(row, to.0)
}

/// `r` is a bridge row, and no bridge row is nearer `row`.
pub open spec fn is_nearest_bridge_row(row: u32, r: u32) -> bool {
    &&& (r == BRIDGE_ROWS[0] || r == BRIDGE_ROWS[1] || r == BRIDGE_ROWS[2])
    &&& gap(row, r) <= gap(row, BRIDGE_ROWS[0])
    &&& gap(row, r) <= gap(row, BRIDGE_ROWS[1])
    &&& gap(row, r) <= gap(row, BRIDGE_ROWS[2])
}

proof fn lemma_row_walk_stays(id: u32, cur: (u32, u32), target: u32)
    ensures
        row_walk(id, cur, target).len() == gap(cur.0, target),
        forall|j: int| 0 <= j < row_walk(id, cur, target).len() ==> moves_within(
            #[trigger] row_walk(id, cur, target)[j],
            cur.1,
        ),
    decreases gap(cur.0, target),
{
    if cur.0 != target {
        let next = (if cur.0 < target { (cur.0 + 1) as u32 } else { (cur.0 - 1) as u32 }, cur.1);
        lemma_row_walk_stays(id, next, target);
        let w = row_walk(id, cur, target);
        let rest = row_walk(id, next, target);
        assert(w == seq![UiEvent::Move { id, to: next }] + rest);
        assert forall|j: int| 0 <= j < w.len() implies moves_within(#[trigger] w[j], cur.1) by {
            if j > 0 {
                assert(w[j] == rest[j - 1]);
            }
        }
    }
}

/// Law: a vehicle whose way crosses the river crosses it at a bridge row
/// nearest its start. Its animation first moves only along its own column,
/// and its first move to another column is on a bridge row that no other
/// bridge row is nearer to the start row.
pub proof fn law_path_crosses_at_nearest_bridge(id: u32, cur: (u32, u32), dest: (u32, u32))
    requires
        crosses_river(cur, dest),
    ensures
        exists|k: int| #[trigger] leaves_column_at_nearest_bridge(path_events(id, cur, dest), cur.1, cur.0, k),
{
    let r = cross_row(cur.0);
    let p = path_events(id, cur, dest);
    let w1 = row_walk(id, cur, r);
    let w2 = cross_col_walk(id, (r, cur.1), dest.1);
    lemma_row_walk_stays(id, cur, r);
    let next = (r, cross_step(cur.1, dest.1));
    assert(w2 == seq![UiEvent::Move { id, to: next }] + cross_col_walk(id, next, dest.1));
    let k = w1.len() as int;
    assert(p[k] == w2[0]);
    assert forall|j: int| 0 <= j < k implies moves_within(#[trigger] p[j], cur.1) by {
        assert(p[j] == w1[j]);
    }
    assert(is_nearest_bridge_row(cur.0, r));
    assert(leaves_column_at_nearest_bridge(p, cur.1, cur.0, k));
}

/// The row of the raised bridge in the boat's animation.
pub open spec fn lift_row() -> u32 {
    19
}

/// Moves up the rows from `cur` while above row `bound`, one event per row.
pub open spec fn up_walk(id: u32, cur: (u32, u32), bound: u32) -> Seq<UiEvent>
    decreases cur.0,
{
    if cur.0 <= bound {
        Seq::empty()
    } else {
        let next = ((cur.0 - 1) as u32, cur.1);
        seq![UiEvent::Move { id, to: next }] + up_walk(id, next, bound)
    }
}

/// The animation of a boat from `cur` towards `dest`: up to the raised
/// bridge, one row through it, up to the destination's row, then it leaves.
pub open spec fn boat_path(id: u32, cur: (u32, u32), dest: (u32, u32)) -> Seq<UiEvent> {
    let c1 = if cur.0 > lift_row() { (lift_row(), cur.1) } else { cur };
    let through: Seq<UiEvent> = if c1.0 == lift_row() {
        seq![UiEvent::Move { id, to: ((lift_row() - 1) as u32, c1.1) }]
    } else {
        Seq::empty()
    };
    let c2 = if c1.0 == lift_row() { ((lift_row() - 1) as u32, c1.1) } else { c1 };
    up_walk(id, cur, lift_row()) + through + up_walk(id, c2, dest.0) + seq![UiEvent::Remove { id }]
}

fn walk_rows(q: &mut EventQueue, id: u32, cur: (u32, u32), target: u32) -> (end: (u32, u32))
    ensures
        final(q)@ == old(q)@ + row_walk(id, cur, target),
        end == (target, cur.1),
{
    let mut c = cur;
    while c.0 != target
        invariant
            c.1 == cur.1,
            old(q)@ + row_walk(id, cur, target) == q@ + row_walk(id, c, target),
        decreases gap(c.0, target),
    {
        let next = (if c.0 < target { c.0 + 1 } else { c.0 - 1 }, c.1);
        let ghost before = q@;
        q.push(UiEvent::Move { id, to: next });
        proof {
            assert(before + row_walk(id, c, target) =~= q@ + row_walk(id, next, target));
        }
        c = next;
    }
    proof {
        assert(q@ + row_walk(id, c, target) =~= q@);
    }
    c
}

fn walk_cols_across(q: &mut EventQueue, id: u32, cur: (u32, u32), dest: u32) -> (end: (u32, u32))
    requires
        dest != RIVER_COL,
    ensures
        final(q)@ == old(q)@ + cross_col_walk(id, cur, dest),
        end == (cur.0, dest),
{
    let mut c = cur;
    while c.1 != dest
        invariant
            c.0 == cur.0,
            dest != RIVER_COL,
            old(q)@ + cross_col_walk(id, cur, dest) == q@ + cross_col_walk(id, c, dest),
        decreases gap(c.1, dest),
    {
        let col = if c.1 < dest {
            if c.1 + 1 == RIVER_COL { c.1 + 2 } else { c.1 + 1 }
        } else {
            if c.1 - 1 == RIVER_COL { c.1 - 2 } else { c.1 - 1 }
        };
        let next = (c.0, col);
        let ghost before = q@;
        q.push(UiEvent::Move { id, to: next });
        proof {
            assert(before + cross_col_walk(id, c, dest) =~= q@ + cross_col_walk(id, next, dest));
        }
        c = next;
    }
    proof {
        assert(q@ + cross_col_walk(id, c, dest) =~= q@);
    }
    c
}

fn walk_cols(q: &mut EventQueue, id: u32, cur: (u32, u32), dest: u32) -> (end: (u32, u32))
    ensures
        final(q)@ == old(q)@ + col_walk(id, cur, dest),
        end == (cur.0, dest),
{
    let mut c = cur;
    while c.1 != dest
        invariant
            c.0 == cur.0,
            old(q)@ + col_walk(id, cur, dest) == q@ + col_walk(id, c, dest),
        decreases gap(c.1, dest),
    {
        let next = (c.0, if c.1 < dest { c.1 + 1 } else { c.1 - 1 });
        let ghost before = q@;
        q.push(UiEvent::Move { id, to: next });
        proof {
            assert(before + col_walk(id, c, dest) =~= q@ + col_walk(id, next, dest));
        }
        c = next;
    }
    proof {
        assert(q@ + col_walk(id, c, dest) =~= q@);
    }
    c
}

fn walk_up(q: &mut EventQueue, id: u32, cur: (u32, u32), bound: u32) -> (end: (u32, u32))
    ensures
        final(q)@ == old(q)@ + up_walk(id, cur, bound),
        end == (if cur.0 > bound { (bound, cur.1) } else { cur }),
{
    let mut c = cur;
    while c.0 > bound
        invariant
            c.1 == cur.1,
            cur.0 > bound ==> c.0 >= bound,
            cur.0 <= bound ==> c == cur,
            old(q)@ + up_walk(id, cur, bound) == q@ + up_walk(id, c, bound),
        decreases c.0,
    {
        let next = (c.0 - 1, c.1);
        let ghost before = q@;
        q.push(UiEvent::Move { id, to: next });
        proof {
            assert(before + up_walk(id, c, bound) =~= q@ + up_walk(id, next, bound));
        }
        c = next;
    }
    proof {
        assert(q@ + up_walk(id, c, bound) =~= q@);
    }
    c
}

/// The index of the bridge row nearest `row`; the first wins a tie.
fn nearest_cross_row(row: u32) -> (r: u32)
    ensures
        r == cross_row(row),
{
    let mut cross = BRIDGE_ROWS[0];
    let mut best = if row >= BRIDGE_ROWS[0] { row - BRIDGE_ROWS[0] } else { BRIDGE_ROWS[0] - row };
    let d1 = if row >= BRIDGE_ROWS[1] { row - BRIDGE_ROWS[1] } else { BRIDGE_ROWS[1] - row };
    if d1 < best {
        best = d1;
        cross = BRIDGE_ROWS[1];
    }
    let d2 = if row >= BRIDGE_ROWS[2] { row - BRIDGE_ROWS[2] } else { BRIDGE_ROWS[2] - row };
    if d2 < best {
        cross = BRIDGE_ROWS[2];
    }
    cross
}

/// Animates vehicle `id` from `cur` to `dest` and then takes it off: to
/// the row of the nearest bridge, across the river (jumping its column),
/// then to the destination's row when the way crosses the river; otherwise
/// along the columns, then the rows.
pub fn enqueue_path(q: &mut EventQueue, id: u32, cur: (u32, u32), dest: (u32, u32))
    ensures
        final(q)@ == old(q)@ + path_events(id, cur, dest),
{
    let (dest_row, dest_col) = dest;
    let needs_cross = (cur.1 < RIVER_COL && dest_col > RIVER_COL) || (cur.1 > RIVER_COL && dest_col < RIVER_COL);
    if needs_cross {
        let cross_row = nearest_cross_row(cur.0);
        let c1 = walk_rows(q, id, cur, cross_row);
        let c2 = walk_cols_across(q, id, c1, dest_col);
        let _c3 = walk_rows(q, id, c2, dest_row);
    } else {
        let c1 = walk_cols(q, id, cur, dest_col);
        let _c2 = walk_rows(q, id, c1, dest_row);
    }
    let ghost before = q@;
    q.push(UiEvent::Remove { id });
    proof {
        assert(q@ =~= old(q)@ + path_events(id, cur, dest));
    }
}

/// Animates boat `id` up the river from `cur`: up to the raised bridge,
/// one row through it, up to the destination's row, then takes it off.
pub fn enqueue_full_boat_path_upwards(q: &mut EventQueue, id: u32, cur: (u32, u32), dest: (u32, u32))
    ensures
        final(q)@ == old(q)@ + boat_path(id, cur, dest),
{
    let lift_bridge_row: u32 = 19;
    let (dest_row, _dest_col) = dest;
    let mut c = walk_up(q, id, cur, lift_bridge_row);
    let ghost mid = q@;
    if c.0 == lift_bridge_row {
        c = (c.0 - 1, c.1);
        q.push(UiEvent::Move { id, to: c });
    }
    let ghost mid2 = q@;
    let _c = walk_up(q, id, c, dest_row);
    q.push(UiEvent::Remove { id });
    proof {
        assert(q@ =~= old(q)@ + boat_path(id, cur, dest));
    }
}

/// Whether `p` occurs in `b`.
pub open spec fn contains_bytes(b: Seq<u8>, p: Seq<u8>) -> bool {
    find_from(b, p, 0) is Some
}

/// The number after `prefix` and the origin and destination of a line
/// that announces an agent.
pub open spec fn announced(b: Seq<u8>, prefix: Seq<u8>) -> Option<(u32, (u32, u32), (u32, u32))> {
    match (id_after(b, prefix), origin_dest(b)) {
        (Some(id), Some((o, d))) => Some((id, o, d)),
        _ => None,
    }
}

/// A new land agent: it appears at its origin and is animated to its
/// destination.
pub open spec fn land_spawn(id: u32, kind: EntityKind, o: (u32, u32), d: (u32, u32)) -> Seq<UiEvent> {
    seq![UiEvent::Spawn { id, kind, pos: o }] + path_events(id, o, d)
}

/// What the viewer makes of a log line, by the first rule that applies: a
/// car, an ambulance, a truck or a boat announced with its origin and
/// destination appears and is animated; a plant explosion or a plant
/// restarting becomes a plant event; an arrival takes the agent of the
/// bracketed number off, boats (numbers from 300) aside. `None`: no rule
/// applies and the line is kept as text.
pub open spec fn line_events(b: Seq<u8>) -> Option<Seq<UiEvent>> {
    match announced(b, "Carro-".spec_bytes()) {
        Some((id, o, d)) => Some(land_spawn(id, EntityKind::Car, o, d)),
        None => match announced(b, "Ambulancia-".spec_bytes()) {
            Some((id, o, d)) => Some(land_spawn(id, EntityKind::Ambulance, o, d)),
            None => match announced(b, "CargoTruck-".spec_bytes()) {
                Some((id, o, d)) => Some(land_spawn(id, EntityKind::Truck, o, d)),
                None => match announced(b, "Barco-".spec_bytes()) {
                    Some((id, o, d)) => Some(seq![UiEvent::Spawn { id, kind: EntityKind::Boat, pos: o }] + boat_path(id, o, d)),
                    None => plant_or_arrival_events(b),
                },
            },
        },
    }
}

/// The plant and arrival rules of `line_events`.
pub open spec fn plant_or_arrival_events(b: Seq<u8>) -> Option<Seq<UiEvent>> {
    if contains_bytes(b, "¡EXPLOSIÓN! Planta".spec_bytes()) {
        match id_after(b, "Planta ".spec_bytes()) {
            Some(pid) => Some(seq![UiEvent::PlantExploded { id: pid }]),
            None => Some(Seq::empty()),
        }
    } else if contains_bytes(b, "Planta".spec_bytes()) && contains_bytes(b, "reiniciándose".spec_bytes()) {
        match id_after(b, "Planta ".spec_bytes()) {
            Some(pid) => Some(seq![UiEvent::PlantRecovered { id: pid }]),
            None => Some(Seq::empty()),
        }
    } else if contains_bytes(b, "✅ Llegó a destino".spec_bytes()) && bracket_id(b) is Some {
        if bracket_id(b)->0 < 300 {
            Some(seq![UiEvent::Remove { id: bracket_id(b)->0 }])
        } else {
            Some(Seq::empty())
        }
    } else {
        None
    }
}

/// Whether `p` occurs in `s`.
fn contains_str(s: &str, p: &str) -> (r: bool)
    ensures
        r == contains_bytes(s.spec_bytes(), p.spec_bytes()),
{
    find_bytes(s.as_bytes(), p.as_bytes(), 0).is_some()
}

/// The number after `prefix` and the origin and destination of `line`.
fn announce(line: &str, prefix: &str) -> (r: Option<(u32, (u32, u32), (u32, u32))>)
    ensures
        r == announced(line.spec_bytes(), prefix.spec_bytes()),
{
    match extract_id(line, prefix) {
        Some(id) => match extract_origin_dest(line) {
            Some((o, d)) => Some((id, o, d)),
            None => None,
        },
        None => None,
    }
}

/// Turns a log line into events for the viewer (see `line_events`); a line
/// no rule applies to is queued as text.
pub fn try_parse_and_enqueue(events: &mut EventQueue, line: &str)
    ensures
        match line_events(line.spec_bytes()) {
            Some(evs) => final(events)@ == old(events)@ + evs,
            None => final(events)@ == old(events)@.push(final(events)@.last()) && (final(events)@.last() matches UiEvent::Log(t) && t@ == line@),
        },
{
    if let Some((id, o, d)) = announce(line, "Carro-") {
        let ghost before = events@;
        events.push(UiEvent::Spawn { id, kind: EntityKind::Car, pos: o });
        enqueue_path(events, id, o, d);
        proof {
            assert(events@ =~= before + land_spawn(id, EntityKind::Car, o, d));
        }
        return;
    }
    if let Some((id, o, d)) = announce(line, "Ambulancia-") {
        let ghost before = events@;
        events.push(UiEvent::Spawn { id, kind: EntityKind::Ambulance, pos: o });
        enqueue_path(events, id, o, d);
        proof {
            assert(events@ =~= before + land_spawn(id, EntityKind::Ambulance, o, d));
        }
        return;
    }
    if let Some((id, o, d)) = announce(line, "CargoTruck-") {
        let ghost before = events@;
        events.push(UiEvent::Spawn { id, kind: EntityKind::Truck, pos: o });
        enqueue_path(events, id, o, d);
        proof {
            assert(events@ =~= before + land_spawn(id, EntityKind::Truck, o, d));
        }
        return;
    }
    if let Some((id, o, d)) = announce(line, "Barco-") {
        let ghost before = events@;
        events.push(UiEvent::Spawn { id, kind: EntityKind::Boat, pos: o });
        enqueue_full_boat_path_upwards(events, id, o, d);
        proof {
            assert(events@ =~= before + (seq![UiEvent::Spawn { id, kind: EntityKind::Boat, pos: o }] + boat_path(id, o, d)));
        }
        return;
    }
    if contains_str(line, "¡EXPLOSIÓN! Planta") {
        if let Some(pid) = extract_id(line, "Planta ") {
            events.push(UiEvent::PlantExploded { id: pid });
        }
        proof {
            assert(events@ =~= old(events)@ + line_events(line.spec_bytes())->0);
        }
        return;
    }
    if contains_str(line, "Planta") && contains_str(line, "reiniciándose") {
        if let Some(pid) = extract_id(line, "Planta ") {
            events.push(UiEvent::PlantRecovered { id: pid });
        }
        proof {
            assert(events@ =~= old(events)@ + line_events(line.spec_bytes())->0);
        }
        return;
    }
    if contains_str(line, "✅ Llegó a destino") {
        if let Some(id) = extract_bracket_id(line) {
            if id < 300 {
                events.push(UiEvent::Remove { id });
            }
            proof {
                assert(events@ =~= old(events)@ + line_events(line.spec_bytes())->0);
            }
            return;
        }
    }
    events.push(UiEvent::Log(line.to_owned()));
}

} // verus!
