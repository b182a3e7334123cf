use vstd::prelude::*;

use crate::chars::{is_alphabetic_char, is_whitespace_char, skip_ws_back, skip_ws_fwd, whitespace};
use crate::strutil::{chars_of, string_of};
use crate::types::Mode;

verus! {

/// Whether a modal state is open in `m`, suppressing list navigation:
/// every mode but the base view and the running timer, note editing
/// included.
pub open spec fn dialog_open(m: &Mode) -> bool {
    match m {
        Mode::View => false,
        Mode::Timer => false,
        _ => true,
    }
}

pub fn is_dialog_open(mode: &Mode) -> (r: bool)
    ensures
        r == dialog_open(mode),
{
    match mode {
        Mode::View => false,
        Mode::Timer => false,
        _ => true,
    }
}

/// The modal dialogs that can never coexist with a running timer: all of
/// them except note editing, which is modal for navigation but is the
/// one modal state the session flow keeps available during a countdown.
pub open spec fn blocking_dialog_open(m: &Mode) -> bool {
    match m {
        Mode::AddSession => true,
        Mode::AddReward => true,
        Mode::GoalForm => true,
        Mode::QuantityDoneInput { .. } => true,
        Mode::DurationInput { .. } => true,
        _ => false,
    }
}

/// The character for one decimal digit.
pub open spec fn digit_char(d: int) -> char {
    if d == 0 {
        '0'
    } else if d == 1 {
        '1'
    } else if d == 2 {
        '2'
    } else if d == 3 {
        '3'
    } else if d == 4 {
        '4'
    } else if d == 5 {
        '5'
    } else if d == 6 {
        '6'
    } else if d == 7 {
        '7'
    } else if d == 8 {
        '8'
    } else {
        '9'
    }
}

/// The decimal digits of a non-negative number, most significant first.
pub open spec fn dec_digits(n: int) -> Seq<char>
    decreases n,
{
    if n < 10 {
        seq![digit_char(n)]
    } else {
        dec_digits(n / 10).push(digit_char(n % 10))
    }
}

fn digit_char_of(d: u64) -> (r: char)
    requires
        d < 10,
    ensures
        r == digit_char(d as int),
{
    if d == 0 {
        '0'
    } else if d == 1 {
        '1'
    } else if d == 2 {
        '2'
    } else if d == 3 {
        '3'
    } else if d == 4 {
        '4'
    } else if d == 5 {
        '5'
    } else if d == 6 {
        '6'
    } else if d == 7 {
        '7'
    } else if d == 8 {
        '8'
    } else {
        '9'
    }
}

/// Formats `n` in decimal.
pub fn u64_to_chars(n: u64) -> (r: Vec<char>)
    ensures
        r@ == dec_digits(n as int),
{
    let mut rev: Vec<char> = Vec::new();
    let mut m: u64 = n;
    proof {
        assert(rev@.reverse() =~= Seq::<char>::empty());
    }
    while m >= 10
        invariant
            dec_digits(n as int) == dec_digits(m as int) + rev@.reverse(),
        decreases m,
    {
        let d = m % 10;
        rev.push(digit_char_of(d));
        proof {
            assert(rev@.reverse() =~= seq![digit_char(d as int)] + rev@.drop_last().reverse());
            assert(dec_digits(m as int) + rev@.drop_last().reverse() =~= dec_digits(m as int / 10)
                + rev@.reverse());
        }
        m = m / 10;
    }
    let mut out: Vec<char> = Vec::new();
    out.push(digit_char_of(m));
    let len = rev.len();
    let mut i: usize = len;
    while i > 0
        invariant
            len == rev@.len(),
            i <= len,
            out@.len() == 1 + (len - i),
            out@[0] == digit_char(m as int),
            forall|k: int| 0 <= k < len - i ==> (#[trigger] out@[1 + k]) == rev@[len - 1 - k],
        decreases i,
    {
        i = i - 1;
        out.push(rev[i]);
    }
    proof {
        assert(m < 10);
        assert(dec_digits(m as int) =~= seq![digit_char(m as int)]);
        let target = dec_digits(m as int) + rev@.reverse();
        assert(out@.len() == target.len());
        assert forall|k: int| 0 <= k < out@.len() implies out@[k] == target[k] by {
            if k > 0 {
                assert(out@[1 + (k - 1)] == rev@[len - 1 - (k - 1)]);
                assert(target[k] == rev@.reverse()[k - 1]);
            }
        }
        assert(out@ =~= target);
    }
    out
}

/// The suggested duration text for a recent session length in minutes:
/// hours and minutes in `h`/`m` granularity, `1s` for no length at all.
pub open spec fn suggestion_of(mins: int) -> Seq<char> {
    if mins <= 0 {
        seq!['1', 's']
    } else {
        let h = mins / 60;
        let m = mins % 60;
        if h > 0 && m > 0 {
            dec_digits(h) + seq!['h', ' '] + dec_digits(m) + seq!['m']
        } else if h > 0 {
            dec_digits(h) + seq!['h']
        } else {
            dec_digits(m) + seq!['m']
        }
    }
}

/// Formats a recent session length as a duration suggestion.
pub fn format_duration_suggestion(duration_mins: i64) -> (r: String)
    ensures
        r@ == suggestion_of(duration_mins as int),
{
    if duration_mins <= 0 {
        let mut v: Vec<char> = Vec::new();
        v.push('1');
        v.push('s');
        proof {
            assert(v@ =~= seq!['1', 's']);
        }
        return string_of(&v);
    }
    let mins = duration_mins as u64;
    let h = mins / 60;
    let m = mins % 60;
    let mut v: Vec<char> = Vec::new();
    if h > 0 && m > 0 {
        let mut hd = u64_to_chars(h);
        v.append(&mut hd);
        v.push('h');
        v.push(' ');
        let mut md = u64_to_chars(m);
        v.append(&mut md);
        v.push('m');
        proof {
            assert(v@ =~= dec_digits(h as int) + seq!['h', ' '] + dec_digits(m as int)
                + seq!['m']);
        }
    } else if h > 0 {
        let mut hd = u64_to_chars(h);
        v.append(&mut hd);
        v.push('h');
        proof {
            assert(v@ =~= dec_digits(h as int) + seq!['h']);
        }
    } else {
        let mut md = u64_to_chars(m);
        v.append(&mut md);
        v.push('m');
        proof {
            assert(v@ =~= dec_digits(m as int) + seq!['m']);
        }
    }
    string_of(&v)
}

/// `s` with leading and trailing whitespace removed.
pub open spec fn trim_spec(s: Seq<char>) -> Seq<char> {
    if skip_ws_fwd(s, 0) == s.len() {
        Seq::empty()
    } else {
        s.subrange(skip_ws_fwd(s, 0), skip_ws_back(s, s.len() as int))
    }
}

/// Removes leading and trailing whitespace.
pub fn trim_chars(v: &Vec<char>) -> (r: Vec<char>)
    ensures
        r@ == trim_spec(v@),
{
    let ghost s = v@;
    let len = v.len();
    let mut a: usize = 0;
    while a < len && is_whitespace_char(v[a])
        invariant
            len == s.len(),
            a <= len,
            v@ == s,
            skip_ws_fwd(s, 0) == skip_ws_fwd(s, a as int),
            forall|k: int| 0 <= k < a ==> whitespace(s[k]),
        decreases len - a,
    {
        a = a + 1;
    }
    assert(skip_ws_fwd(s, a as int) == a as int);
    if a == len {
        let r: Vec<char> = Vec::new();
        return r;
    }
    let mut b: usize = len;
    while b > 0 && is_whitespace_char(v[b - 1])
        invariant
            len == s.len(),
            b <= len,
            v@ == s,
            skip_ws_back(s, len as int) == skip_ws_back(s, b as int),
            forall|k: int| b <= k < len ==> whitespace(s[k]),
        decreases b,
    {
        b = b - 1;
    }
    assert(skip_ws_back(s, b as int) == b as int);
    assert(a < b) by {
        if b <= a {
            assert(whitespace(s[a as int]));
        }
    }
    let mut r: Vec<char> = Vec::new();
    let mut i: usize = a;
    while i < b
        invariant
            len == s.len(),
            a <= i <= b <= len,
            v@ == s,
            r@ == s.subrange(a as int, i as int),
        decreases b - i,
    {
        r.push(v[i]);
        proof {
            assert(s.subrange(a as int, i + 1) =~= s.subrange(a as int, i as int).push(
                s[i as int],
            ));
        }
        i = i + 1;
    }
    r
}

/// Whether `c` separates two helper commands.
pub open spec fn is_cmd_sep(c: char) -> bool {
    c == ';' || c == '\n'
}

/// The command a finished piece contributes: its trimmed text, or nothing
/// when only whitespace remains.
pub open spec fn emit_cmd(cur: Seq<char>) -> Seq<Seq<char>> {
    if trim_spec(cur).len() == 0 {
        Seq::empty()
    } else {
        seq![trim_spec(cur)]
    }
}

/// The commands in `s[i..]`, given the piece `cur` read so far: pieces
/// are separated by `;` or newline, trimmed, and empty pieces dropped.
pub open spec fn commands_from(s: Seq<char>, i: int, cur: Seq<char>) -> Seq<Seq<char>>
    decreases s.len() - i,
{
    if i < 0 || i >= s.len() {
        emit_cmd(cur)
    } else if is_cmd_sep(s[i]) {
        emit_cmd(cur) + commands_from(s, i + 1, Seq::empty())
    } else {
        commands_from(s, i + 1, cur.push(s[i]))
    }
}

/// The helper commands written in an input field.
pub open spec fn commands_of(s: Seq<char>) -> Seq<Seq<char>> {
    commands_from(s, 0, Seq::empty())
}

/// Splits an input field into helper commands: `;` or newline separated,
/// each trimmed, empty pieces dropped.
pub fn parse_commands_input(input: &str) -> (r: Vec<String>)
    ensures
        r@.map_values(|x: String| x@) == commands_of(input@),
{
    let cs = chars_of(input);
    let ghost s = cs@;
    let n = cs.len();
    let mut out: Vec<String> = Vec::new();
    let mut cur: Vec<char> = Vec::new();
    let mut i: usize = 0;
    while i < n
        invariant
            n == s.len(),
            i <= n,
            cs@ == s,
            commands_of(s) == out@.map_values(|x: String| x@) + commands_from(
                s,
                i as int,
                cur@,
            ),
        decreases n - i,
    {
        let c = cs[i];
        if c == ';' || c == '\n' {
            let t = trim_chars(&cur);
            if t.len() > 0 {
                let piece = string_of(&t);
                out.push(piece);
                proof {
                    assert(out@.map_values(|x: String| x@) =~= out@.drop_last().map_values(
                        |x: String| x@,
                    ).push(trim_spec(cur@)));
                    assert(out@.drop_last().map_values(|x: String| x@) + emit_cmd(cur@)
                        =~= out@.map_values(|x: String| x@));
                }
            } else {
                proof {
                    assert(out@.map_values(|x: String| x@) + emit_cmd(cur@) =~= out@.map_values(
                        |x: String| x@,
                    ));
                }
            }
            cur.clear();
        } else {
            cur.push(c);
        }
        i = i + 1;
    }
    let t = trim_chars(&cur);
    if t.len() > 0 {
        let piece = string_of(&t);
        out.push(piece);
        proof {
            assert(out@.map_values(|x: String| x@) =~= out@.drop_last().map_values(
                |x: String| x@,
            ).push(trim_spec(cur@)));
        }
    } else {
        proof {
            assert(out@.map_values(|x: String| x@) + emit_cmd(cur@) =~= out@.map_values(
                |x: String| x@,
            ));
        }
    }
    out
}

/// Whether `c` is a decimal digit.
pub open spec fn is_digit(c: char) -> bool {
    48 <= c as u32 <= 57
}

/// The value of a decimal digit character.
pub open spec fn digit_val(c: char) -> int {
    c as u32 - 48
}

pub open spec fn all_digits(s: Seq<char>) -> bool {
    forall|i: int| 0 <= i < s.len() ==> is_digit(#[trigger] s[i])
}

/// The number a digit string denotes.
pub open spec fn digits_val(s: Seq<char>) -> int
    decreases s.len(),
{
    if s.len() == 0 {
        0
    } else {
        digits_val(s.drop_last()) * 10 + digit_val(s.last())
    }
}

/// A digit string denotes a non-negative number.
pub proof fn lemma_digits_val_nonneg(s: Seq<char>)
    requires
        all_digits(s),
    ensures
        digits_val(s) >= 0,
    decreases s.len(),
{
    if s.len() > 0 {
        lemma_digits_val_nonneg(s.drop_last());
    }
}

/// Reading more digits can only grow the denoted number.
pub proof fn lemma_digits_val_mono(s: Seq<char>, i: int)
    requires
        all_digits(s),
        0 <= i <= s.len(),
    ensures
        digits_val(s) >= digits_val(s.subrange(0, i)),
    decreases s.len() - i,
{
    if i < s.len() {
        lemma_digits_val_mono(s, i + 1);
        assert(s.subrange(0, i + 1).drop_last() =~= s.subrange(0, i));
        lemma_digits_val_nonneg(s.subrange(0, i));
        assert(digits_val(s.subrange(0, i + 1)) == digits_val(s.subrange(0, i)) * 10 + digit_val(
            s[i],
        ));
    } else {
        assert(s.subrange(0, i) =~= s);
    }
}

/// What `u32` parsing accepts: an optional leading `+`, then at least one
/// digit, denoting a number that fits.
pub open spec fn parse_u32_of(s: Seq<char>) -> Option<u32> {
    let body = if s.len() > 0 && s[0] == '+' {
        s.drop_first()
    } else {
        s
    };
    if body.len() > 0 && all_digits(body) && digits_val(body) <= u32::MAX {
        Some(digits_val(body) as u32)
    } else {
        None
    }
}

/// The optional quantity an input field denotes: trimmed, empty meaning
/// none, anything unparseable also none.
pub open spec fn opt_u32_of(s: Seq<char>) -> Option<u32> {
    if trim_spec(s).len() == 0 {
        None
    } else {
        parse_u32_of(trim_spec(s))
    }
}

/// Parses an optional non-negative quantity: empty input is none, and so
/// is anything that is not a `u32` numeral.
#[verifier::loop_isolation(false)]
pub fn parse_optional_u32(input: &str) -> (r: Option<u32>)
    ensures
        r == opt_u32_of(input@),
{
    let cs = chars_of(input);
    let t = trim_chars(&cs);
    let ghost ts = t@;
    if t.len() == 0 {
        return None;
    }
    let start: usize = if t[0] == '+' {
        1
    } else {
        0
    };
    let ghost body = if ts[0] == '+' {
        ts.drop_first()
    } else {
        ts
    };
    proof {
        assert(body =~= ts.subrange(start as int, ts.len() as int));
    }
    if start == t.len() {
        return None;
    }
    let n = t.len();
    let mut val: u64 = 0;
    let mut i: usize = start;
    while i < n
        invariant
            n == ts.len(),
            t@ == ts,
            start <= i <= n,
            body == ts.subrange(start as int, ts.len() as int),
            start <= 1,
            body.len() == n - start,
            all_digits(body.subrange(0, i - start)),
            val == digits_val(body.subrange(0, i - start)),
            val <= u32::MAX,
        decreases n - i,
    {
        let c = t[i];
        if !((c as u32) >= 48 && (c as u32) <= 57) {
            proof {
                assert(body[i - start] == ts[i as int]);
                assert(!is_digit(body[i - start]));
            }
            return None;
        }
        let d = (c as u32 - 48) as u64;
        proof {
            assert(body.subrange(0, i - start + 1).drop_last() =~= body.subrange(0, i - start));
            assert(body.subrange(0, i - start + 1).last() == body[i - start]);
            assert(body[i - start] == ts[i as int]);
        }
        val = val * 10 + d;
        i = i + 1;
        if val > 0xffff_ffff {
            proof {
                let pre = body.subrange(0, i - start);
                assert(digits_val(pre) == val);
                if all_digits(body) && digits_val(body) <= u32::MAX {
                    lemma_digits_val_mono(body, i - start);
                }
            }
            return None;
        }
    }
    proof {
        assert(body.subrange(0, n - start) =~= body);
    }
    Some(val as u32)
}

/// The seconds a unit letter stands for, case-insensitively.
pub open spec fn unit_factor(c: char) -> Option<int> {
    if c == 'h' || c == 'H' {
        Some(3600int)
    } else if c == 'm' || c == 'M' {
        Some(60int)
    } else if c == 's' || c == 'S' {
        Some(1int)
    } else {
        None
    }
}

/// The duration grammar, scanning `s[i..]` with the pending digit run and
/// the seconds accumulated so far: digit runs are terminated by a unit
/// letter (`h`, `m`, `s`), whitespace is ignored, a trailing run counts
/// as minutes; a letter that terminates no digit run, any other letter
/// or character, and a total of zero all fail.
pub open spec fn duration_from(s: Seq<char>, i: int, run: Option<int>, total: int) -> Option<int>
    decreases s.len() - i,
{
    if i < 0 || i >= s.len() {
        let t = if run is Some {
            total + run->0 * 60
        } else {
            total
        };
        if t == 0 {
            None
        } else {
            Some(t)
        }
    } else if is_digit(s[i]) {
        let prev = if run is Some {
            run->0
        } else {
            0int
        };
        duration_from(s, i + 1, Some(prev * 10 + digit_val(s[i])), total)
    } else if crate::chars::alphabetic(s[i]) {
        if run is Some {
            match unit_factor(s[i]) {
                Some(f) => duration_from(s, i + 1, None, total + run->0 * f),
                None => None,
            }
        } else {
            None
        }
    } else if whitespace(s[i]) {
        duration_from(s, i + 1, run, total)
    } else {
        None
    }
}

/// The seconds a duration input denotes, if it parses.
pub open spec fn duration_secs_of(s: Seq<char>) -> Option<int> {
    duration_from(s, 0, None, 0)
}

/// Any parse that succeeds yields at least the seconds and the digit run
/// accumulated so far.
proof fn lemma_duration_lower_bound(s: Seq<char>, i: int, run: Option<int>, total: int)
    requires
        0 <= i <= s.len(),
        total >= 0,
        run is Some ==> run->0 >= 0,
    ensures
        match duration_from(s, i, run, total) {
            Some(v) => v > 0 && v >= total && (run is Some ==> v >= run->0),
            None => true,
        },
    decreases s.len() - i,
{
    if i < s.len() {
        if is_digit(s[i]) {
            let prev = if run is Some {
                run->0
            } else {
                0int
            };
            lemma_duration_lower_bound(s, i + 1, Some(prev * 10 + digit_val(s[i])), total);
        } else if crate::chars::alphabetic(s[i]) {
            if run is Some {
                match unit_factor(s[i]) {
                    Some(f) => {
                        lemma_duration_lower_bound(s, i + 1, None, total + run->0 * f);
                    },
                    None => {},
                }
            }
        } else if whitespace(s[i]) {
            lemma_duration_lower_bound(s, i + 1, run, total);
        }
    }
}

/// A successful duration parse yields a positive number of seconds.
pub proof fn lemma_duration_secs_positive(s: Seq<char>)
    ensures
        duration_secs_of(s) matches Some(v) ==> v > 0,
{
    lemma_duration_lower_bound(s, 0, None, 0);
}

fn unit_factor_of(c: char) -> (r: Option<u64>)
    ensures
        match unit_factor(c) {
            Some(f) => r == Some(f as u64),
            None => r is None,
        },
{
    if c == 'h' || c == 'H' {
        Some(3600)
    } else if c == 'm' || c == 'M' {
        Some(60)
    } else if c == 's' || c == 'S' {
        Some(1)
    } else {
        None
    }
}

/// Parses the duration grammar; an input whose value does not fit in
/// `u64` fails like any other bad input.
#[verifier::loop_isolation(false)]
pub fn parse_duration(input: &str) -> (r: Option<u64>)
    ensures
        match duration_secs_of(input@) {
            Some(v) => if v <= u64::MAX {
                r == Some(v as u64)
            } else {
                r is None
            },
            None => r is None,
        },
{
    let cs = chars_of(input);
    let ghost s = cs@;
    let n = cs.len();
    let mut run: Option<u64> = None;
    let mut total: u64 = 0;
    let mut i: usize = 0;
    while i < n
        invariant
            n == s.len(),
            cs@ == s,
            i <= n,
            duration_secs_of(s) == duration_from(
                s,
                i as int,
                match run {
                    Some(x) => Some(x as int),
                    None => None,
                },
                total as int,
            ),
        decreases n - i,
    {
        let c = cs[i];
        let ghost run_view = match run {
            Some(x) => Some(x as int),
            None => None,
        };
        if (c as u32) >= 48 && (c as u32) <= 57 {
            let d = (c as u32 - 48) as u64;
            let prev: u64 = match run {
                Some(x) => x,
                None => 0,
            };
            let stepped = match prev.checked_mul(10) {
                Some(p) => p.checked_add(d),
                None => None,
            };
            match stepped {
                Some(next) => {
                    run = Some(next);
                },
                None => {
                    proof {
                        let prev_i = if run_view is Some {
                            run_view->0
                        } else {
                            0int
                        };
                        lemma_duration_lower_bound(
                            s,
                            i + 1,
                            Some(prev_i * 10 + digit_val(s[i as int])),
                            total as int,
                        );
                    }
                    return None;
                },
            }
        } else if is_alphabetic_char(c) {
            let rv = match run {
                Some(rv) => rv,
                None => {
                    return None;
                },
            };
            {
                match unit_factor_of(c) {
                    Some(f) => {
                        let added = match rv.checked_mul(f) {
                            Some(p) => total.checked_add(p),
                            None => None,
                        };
                        match added {
                            Some(t) => {
                                total = t;
                                run = None;
                            },
                            None => {
                                proof {
                                    let fi = unit_factor(s[i as int])->0;
                                    lemma_duration_lower_bound(
                                        s,
                                        i + 1,
                                        None,
                                        total as int + (rv as int) * fi,
                                    );
                                }
                                return None;
                            },
                        }
                    },
                    None => {
                        return None;
                    },
                }
            }
        } else if is_whitespace_char(c) {
            // skipped
        } else {
            return None;
        }
        i = i + 1;
    }
    match run {
        Some(rv) => {
            let added = match rv.checked_mul(60) {
                Some(p) => total.checked_add(p),
                None => None,
            };
            match added {
                Some(t) => {
                    if t == 0 {
                        None
                    } else {
                        Some(t)
                    }
                },
                None => None,
            }
        },
        None => {
            if total == 0 {
                None
            } else {
                Some(total)
            }
        },
    }
}

/// The quantity-unit name configured on goal `goal_id`, if any.
pub fn goal_quantity_name(state: &crate::app::AppState, goal_id: u64) -> (r: Option<String>)
    ensures
        crate::ui::opt_text(r) == crate::ui::quantity_name_of(state.store.goals@, goal_id),
{
    match state.store.find_goal(goal_id) {
        Some(i) => match &state.store.goals[i].quantity_name {
            Some(u) => Some(u.clone()),
            None => None,
        },
        None => None,
    }
}

/// The goal the current selection resolves to: the selected session's
/// goal, the running timer's goal on its own row, and the timer's goal
/// as a fallback anywhere else.
pub open spec fn selected_goal_spec(state: &crate::app::AppState, today: int) -> Option<u64> {
    let k = state.selected as int;
    if 0 <= k < state.nodes@.len() {
        Some(state.store.sessions@[state.nodes@[k] as int].goal_id)
    } else if k == state.nodes@.len() && crate::ui::shows_timer(state, today) {
        Some(state.timer->0.goal_id)
    } else {
        match state.timer {
            Some(t) => Some(t.goal_id),
            None => None,
        }
    }
}

/// The notes panel shows the note of whatever the selection resolves
/// to, with the cursor at the end.
pub open spec fn notes_refreshed(post: &crate::app::AppState, today: int) -> bool {
    &&& post.notes@ == match selected_goal_spec(post, today) {
        Some(g) => crate::store::note_of(post.store.notes@, g),
        None => Seq::<char>::empty(),
    }
    &&& post.notes_cursor == post.notes@.len()
}

/// Resolves the current selection to a goal id, if any.
pub fn selected_goal_id(state: &crate::app::AppState, now: i64) -> (r: Option<u64>)
    requires
        state.base_inv(),
        crate::app::valid_now(now as int),
    ensures
        r == selected_goal_spec(
            state,
            crate::clock::local_day_of(now as int, state.tz_offset as int),
        ),
{
    let today = crate::clock::div_floor_i64(now + state.tz_offset, crate::clock::DAY_SECS);
    if state.selected < state.nodes.len() {
        let si = state.nodes[state.selected];
        Some(state.store.sessions[si].goal_id)
    } else if state.selected == state.nodes.len() && state.timer.is_some() && state.current_day
        == today {
        match &state.timer {
            Some(t) => Some(t.goal_id),
            None => None,
        }
    } else {
        match &state.timer {
            Some(t) => Some(t.goal_id),
            None => None,
        }
    }
}

/// The helper commands configured on goal `gid`, empty when the goal
/// does not exist.
pub open spec fn goal_commands_of(goals: Seq<crate::store::Goal>, gid: u64) -> Seq<Seq<char>> {
    match crate::store::goal_index_of(goals, gid) {
        Some(j) => goals[j].commands@.map_values(|s: String| s@),
        None => Seq::empty(),
    }
}

/// The helper commands configured on the goal, cloned out of the store.
pub fn commands_for_goal(state: &crate::app::AppState, goal_id: u64) -> (r: Vec<String>)
    ensures
        r@.len() == goal_commands_of(state.store.goals@, goal_id).len(),
        forall|j: int|
            0 <= j < r@.len() ==> (#[trigger] r@[j])@ == goal_commands_of(
                state.store.goals@,
                goal_id,
            )[j],
{
    match state.store.find_goal(goal_id) {
        Some(i) => {
            let cmds = &state.store.goals[i].commands;
            let mut r: Vec<String> = Vec::new();
            let n = cmds.len();
            let mut k: usize = 0;
            while k < n
                invariant
                    n == cmds@.len(),
                    k <= n,
                    r@.len() == k,
                    forall|j: int| 0 <= j < k ==> (#[trigger] r@[j])@ == cmds@[j]@,
                decreases n - k,
            {
                r.push(cmds[k].clone());
                k = k + 1;
            }
            proof {
                assert forall|j: int|
                    0 <= j < r@.len() implies (#[trigger] r@[j])@ == goal_commands_of(
                    state.store.goals@,
                    goal_id,
                )[j] by {
                    assert(goal_commands_of(state.store.goals@, goal_id)[j] == cmds@[j]@);
                }
            }
            r
        },
        None => {
            let r: Vec<String> = Vec::new();
            r
        },
    }
}


/// The text of each line, for a list of built lines.
pub open spec fn line_views(l: Seq<String>) -> Seq<Seq<char>> {
    l.map_values(|x: String| x@)
}

/// Pushing a built line appends its text to the views.
proof fn lemma_line_views_push(l: Seq<String>, x: String)
    ensures
        line_views(l.push(x)) == line_views(l).push(x@),
{
    assert forall|j: int| 0 <= j < l.len() + 1 implies line_views(l.push(x))[j] == line_views(
        l,
    ).push(x@)[j] by {
        if j < l.len() {
            assert(l.push(x)[j] == l[j]);
        } else {
            assert(l.push(x)[j] == x);
        }
    }
    assert(line_views(l.push(x)) =~= line_views(l).push(x@));
}

/// An overlong word broken into pieces of at most `width` characters.
pub open spec fn chunks_of(w: Seq<char>, width: int) -> Seq<Seq<char>>
    decreases w.len(),
{
    if w.len() == 0 || width < 1 {
        Seq::empty()
    } else if w.len() <= width {
        seq![w]
    } else {
        seq![w.subrange(0, width)] + chunks_of(w.subrange(width, w.len() as int), width)
    }
}

/// Greedy line filling: a word joins the current line if it fits after
/// a separating space, otherwise the line is emitted; a word longer
/// than the width is emitted in chunks of its own.
pub open spec fn add_word_spec(
    lines: Seq<Seq<char>>,
    cur: Seq<char>,
    w: Seq<char>,
    width: int,
) -> (Seq<Seq<char>>, Seq<char>) {
    if cur.len() == 0 {
        if w.len() > width {
            (lines + chunks_of(w, width), Seq::<char>::empty())
        } else {
            (lines, w)
        }
    } else if cur.len() + 1 + w.len() > width {
        if w.len() > width {
            (lines.push(cur) + chunks_of(w, width), Seq::<char>::empty())
        } else {
            (lines.push(cur), w)
        }
    } else {
        (lines, cur + seq![' '] + w)
    }
}

/// The wrapped lines of `s[i..]`, given the word being read and the
/// lines and line-in-progress built so far; a run of whitespace ends a
/// word, the final line is emitted if non-empty, and an empty result
/// becomes one empty line.
pub open spec fn wrap_from(
    s: Seq<char>,
    i: int,
    word: Seq<char>,
    lines: Seq<Seq<char>>,
    cur: Seq<char>,
    width: int,
) -> Seq<Seq<char>>
    decreases s.len() - i,
{
    if i < 0 || i >= s.len() {
        let lw = if word.len() > 0 {
            add_word_spec(lines, cur, word, width)
        } else {
            (lines, cur)
        };
        let l2 = if lw.1.len() > 0 {
            lw.0.push(lw.1)
        } else {
            lw.0
        };
        if l2.len() == 0 {
            seq![Seq::<char>::empty()]
        } else {
            l2
        }
    } else if whitespace(s[i]) {
        if word.len() > 0 {
            let lw = add_word_spec(lines, cur, word, width);
            wrap_from(s, i + 1, Seq::<char>::empty(), lw.0, lw.1, width)
        } else {
            wrap_from(s, i + 1, Seq::<char>::empty(), lines, cur, width)
        }
    } else {
        wrap_from(s, i + 1, word.push(s[i]), lines, cur, width)
    }
}

/// What word wrapping produces: width zero returns the text unsplit.
pub open spec fn wrap_text_spec(s: Seq<char>, width: int) -> Seq<Seq<char>> {
    if width == 0 {
        seq![s]
    } else {
        wrap_from(s, 0, Seq::<char>::empty(), Seq::<Seq<char>>::empty(), Seq::<char>::empty(), width)
    }
}

/// Adds one word to the lines being built, as `add_word_spec` says.
fn add_word(lines: &mut Vec<String>, cur: &mut Vec<char>, w: &Vec<char>, width: usize)
    requires
        width >= 1,
        w@.len() >= 1,
        old(cur)@.len() <= width,
    ensures
        ({
            let r = add_word_spec(line_views(old(lines)@), old(cur)@, w@, width as int);
            line_views(final(lines)@) == r.0 && final(cur)@ == r.1
        }),
        final(cur)@.len() <= width,
{
    let ghost target = add_word_spec(line_views(lines@), cur@, w@, width as int);
    if cur.len() == 0 {
        if w.len() > width {
            push_chunks(lines, w, width);
        } else {
            let mut fresh: Vec<char> = Vec::new();
            let mut i: usize = 0;
            while i < w.len()
                invariant
                    i <= w@.len(),
                    fresh@ == w@.subrange(0, i as int),
                decreases w@.len() - i,
            {
                fresh.push(w[i]);
                proof {
                    assert(w@.subrange(0, i + 1) =~= w@.subrange(0, i as int).push(w@[i as int]));
                }
                i = i + 1;
            }
            proof {
                assert(fresh@ =~= w@);
            }
            *cur = fresh;
        }
    } else {
        let fits = if w.len() > width {
            false
        } else if cur.len() >= width {
            false
        } else {
            w.len() <= width - cur.len() - 1
        };
        if !fits {
            let line = string_of(cur);
            lines.push(line);
            proof {
                lemma_line_views_push(old(lines)@, lines@.last());
                assert(line_views(lines@) =~= line_views(old(lines)@).push(old(cur)@));
            }
            cur.clear();
            if w.len() > width {
                push_chunks(lines, w, width);
            } else {
                let mut fresh: Vec<char> = Vec::new();
                let mut i: usize = 0;
                while i < w.len()
                    invariant
                        i <= w@.len(),
                        fresh@ == w@.subrange(0, i as int),
                    decreases w@.len() - i,
                {
                    fresh.push(w[i]);
                    proof {
                        assert(w@.subrange(0, i + 1) =~= w@.subrange(0, i as int).push(
                            w@[i as int],
                        ));
                    }
                    i = i + 1;
                }
                proof {
                    assert(fresh@ =~= w@);
                }
                *cur = fresh;
            }
        } else {
            cur.push(' ');
            let mut i: usize = 0;
            while i < w.len()
                invariant
                    i <= w@.len(),
                    cur@ == old(cur)@ + seq![' '] + w@.subrange(0, i as int),
                decreases w@.len() - i,
            {
                cur.push(w[i]);
                proof {
                    assert(old(cur)@ + seq![' '] + w@.subrange(0, i + 1) =~= (old(cur)@ + seq![' ']
                        + w@.subrange(0, i as int)).push(w@[i as int]));
                }
                i = i + 1;
            }
            proof {
                assert(cur@ =~= old(cur)@ + seq![' '] + w@);
            }
        }
    }
}

/// Emits an overlong word as chunk lines of at most `width` characters.
fn push_chunks(lines: &mut Vec<String>, w: &Vec<char>, width: usize)
    requires
        width >= 1,
        w@.len() >= 1,
    ensures
        line_views(final(lines)@) == line_views(old(lines)@) + chunks_of(w@, width as int),
{
    let n = w.len();
    let mut pos: usize = 0;
    proof {
        assert(w@.subrange(0, n as int) =~= w@);
    }
    while n - pos > width
        invariant
            n == w@.len(),
            pos < n,
            width >= 1,
            line_views(lines@) + chunks_of(w@.subrange(pos as int, n as int), width as int)
                == line_views(old(lines)@) + chunks_of(w@, width as int),
        decreases n - pos,
    {
        let mut chunk: Vec<char> = Vec::new();
        let mut i: usize = pos;
        while i < pos + width
            invariant
                pos <= i <= pos + width,
                pos + width <= n == w@.len(),
                chunk@ == w@.subrange(pos as int, i as int),
            decreases pos + width - i,
        {
            chunk.push(w[i]);
            proof {
                assert(w@.subrange(pos as int, i + 1) =~= w@.subrange(pos as int, i as int).push(
                    w@[i as int],
                ));
            }
            i = i + 1;
        }
        let ghost pre = lines@;
        let piece = string_of(&chunk);
        lines.push(piece);
        proof {
            lemma_line_views_push(pre, lines@.last());
            let rest = w@.subrange(pos as int, n as int);
            assert(rest.subrange(0, width as int) =~= w@.subrange(pos as int, pos + width));
            assert(rest.subrange(width as int, rest.len() as int) =~= w@.subrange(
                pos + width,
                n as int,
            ));
            assert(chunks_of(rest, width as int) == seq![rest.subrange(0, width as int)]
                + chunks_of(rest.subrange(width as int, rest.len() as int), width as int));
            assert(line_views(lines@) + chunks_of(
                w@.subrange(pos + width, n as int),
                width as int,
            ) =~= line_views(pre) + chunks_of(rest, width as int));
        }
        pos = pos + width;
    }
    let mut chunk: Vec<char> = Vec::new();
    let mut i: usize = pos;
    while i < n
        invariant
            pos <= i <= n == w@.len(),
            chunk@ == w@.subrange(pos as int, i as int),
        decreases n - i,
    {
        chunk.push(w[i]);
        proof {
            assert(w@.subrange(pos as int, i + 1) =~= w@.subrange(pos as int, i as int).push(
                w@[i as int],
            ));
        }
        i = i + 1;
    }
    let ghost pre = lines@;
    let piece = string_of(&chunk);
    lines.push(piece);
    proof {
        lemma_line_views_push(pre, lines@.last());
        let rest = w@.subrange(pos as int, n as int);
        assert(chunks_of(rest, width as int) =~= seq![rest]);
        assert(line_views(lines@) =~= line_views(pre).push(rest));
        assert(line_views(pre).push(rest) =~= line_views(pre) + chunks_of(rest, width as int));
    }
}

/// Word-wraps one line of text to at most `width` characters per line:
/// words are separated by whitespace, joined by single spaces, and a
/// word longer than the width is broken into chunks.
pub fn wrap_text(text: &str, width: usize) -> (r: Vec<String>)
    ensures
        line_views(r@) == wrap_text_spec(text@, width as int),
{
    let cs = chars_of(text);
    let ghost s = cs@;
    if width == 0 {
        let mut r: Vec<String> = Vec::new();
        let whole = string_of(&cs);
        r.push(whole);
        proof {
            lemma_line_views_push(Seq::empty(), r@.last());
            assert(line_views(Seq::<String>::empty()) =~= Seq::<Seq<char>>::empty());
            assert(line_views(r@) =~= seq![s]);
        }
        return r;
    }
    let n = cs.len();
    let mut lines: Vec<String> = Vec::new();
    let mut cur: Vec<char> = Vec::new();
    let mut word: Vec<char> = Vec::new();
    let mut i: usize = 0;
    proof {
        assert(line_views(lines@) =~= Seq::<Seq<char>>::empty());
    }
    while i < n
        invariant
            width >= 1,
            n == s.len(),
            cs@ == s,
            i <= n,
            cur@.len() <= width,
            wrap_text_spec(s, width as int) == wrap_from(
                s,
                i as int,
                word@,
                line_views(lines@),
                cur@,
                width as int,
            ),
        decreases n - i,
    {
        let ghost w0 = word@;
        let ghost l0 = line_views(lines@);
        let ghost c0 = cur@;
        let c = cs[i];
        if is_whitespace_char(c) {
            if word.len() > 0 {
                add_word(&mut lines, &mut cur, &word, width);
                word.clear();
                proof {
                    let lw = add_word_spec(l0, c0, w0, width as int);
                    assert(wrap_from(s, i as int, w0, l0, c0, width as int) == wrap_from(
                        s,
                        i + 1,
                        Seq::<char>::empty(),
                        lw.0,
                        lw.1,
                        width as int,
                    ));
                    assert(word@ =~= Seq::<char>::empty());
                }
            } else {
                proof {
                    assert(wrap_from(s, i as int, w0, l0, c0, width as int) == wrap_from(
                        s,
                        i + 1,
                        Seq::<char>::empty(),
                        l0,
                        c0,
                        width as int,
                    ));
                    assert(word@ =~= Seq::<char>::empty());
                }
            }
        } else {
            word.push(c);
            proof {
                assert(wrap_from(s, i as int, w0, l0, c0, width as int) == wrap_from(
                    s,
                    i + 1,
                    w0.push(s[i as int]),
                    l0,
                    c0,
                    width as int,
                ));
            }
        }
        i = i + 1;
    }
    if word.len() > 0 {
        add_word(&mut lines, &mut cur, &word, width);
        word.clear();
    }
    if cur.len() > 0 {
        let ghost pre = lines@;
        let line = string_of(&cur);
        lines.push(line);
        proof {
            lemma_line_views_push(pre, lines@.last());
        }
    }
    if lines.len() == 0 {
        let empty_line = String::new();
        lines.push(empty_line);
        proof {
            lemma_line_views_push(Seq::empty(), lines@.last());
            assert(line_views(Seq::<String>::empty()) =~= Seq::<Seq<char>>::empty());
            assert(line_views(lines@) =~= seq![Seq::<char>::empty()]);
        }
    }
    lines
}


/// Quoting-aware splitting of an editor command line: single and double
/// quotes group words, a backslash outside single quotes escapes the
/// next character, and unquoted whitespace separates arguments.
pub open spec fn editor_args_from(
    s: Seq<char>,
    i: int,
    cur: Seq<char>,
    in_s: bool,
    in_d: bool,
) -> Seq<Seq<char>>
    decreases s.len() - i,
{
    if i < 0 || i >= s.len() {
        if cur.len() > 0 {
            seq![cur]
        } else {
            Seq::empty()
        }
    } else {
        let c = s[i];
        if c == '\'' && !in_d {
            editor_args_from(s, i + 1, cur, !in_s, in_d)
        } else if c == '"' && !in_s {
            editor_args_from(s, i + 1, cur, in_s, !in_d)
        } else if c == '\\' && !in_s {
            if i + 1 < s.len() {
                editor_args_from(s, i + 2, cur.push(s[i + 1]), in_s, in_d)
            } else {
                editor_args_from(s, i + 1, cur, in_s, in_d)
            }
        } else if whitespace(c) && !in_s && !in_d {
            (if cur.len() > 0 {
                seq![cur]
            } else {
                Seq::<Seq<char>>::empty()
            }) + editor_args_from(s, i + 1, Seq::<char>::empty(), in_s, in_d)
        } else {
            editor_args_from(s, i + 1, cur.push(c), in_s, in_d)
        }
    }
}

pub open spec fn editor_args_of(s: Seq<char>) -> Seq<Seq<char>> {
    editor_args_from(s, 0, Seq::<char>::empty(), false, false)
}

/// Splits an editor command line into arguments, respecting single and
/// double quotes and backslash escapes.
pub fn parse_editor_command(input: &str) -> (r: Vec<String>)
    ensures
        line_views(r@) == editor_args_of(input@),
{
    let cs = chars_of(input);
    let ghost s = cs@;
    let n = cs.len();
    let mut args: Vec<String> = Vec::new();
    let mut cur: Vec<char> = Vec::new();
    let mut in_s = false;
    let mut in_d = false;
    let mut i: usize = 0;
    proof {
        assert(line_views(args@) =~= Seq::<Seq<char>>::empty());
    }
    while i < n
        invariant
            n == s.len(),
            cs@ == s,
            i <= n,
            editor_args_of(s) == line_views(args@) + editor_args_from(
                s,
                i as int,
                cur@,
                in_s,
                in_d,
            ),
        decreases n - i,
    {
        let ghost l0 = line_views(args@);
        let ghost c0 = cur@;
        let ghost s0 = in_s;
        let ghost d0 = in_d;
        let ghost i0 = i as int;
        let c = cs[i];
        if c == '\'' && !in_d {
            in_s = !in_s;
            i = i + 1;
            proof {
                assert(editor_args_from(s, i0, c0, s0, d0) == editor_args_from(
                    s,
                    i0 + 1,
                    c0,
                    !s0,
                    d0,
                ));
            }
        } else if c == '"' && !in_s {
            in_d = !in_d;
            i = i + 1;
            proof {
                assert(editor_args_from(s, i0, c0, s0, d0) == editor_args_from(
                    s,
                    i0 + 1,
                    c0,
                    s0,
                    !d0,
                ));
            }
        } else if c == '\\' && !in_s {
            if i + 1 < n {
                cur.push(cs[i + 1]);
                i = i + 2;
                proof {
                    assert(editor_args_from(s, i0, c0, s0, d0) == editor_args_from(
                        s,
                        i0 + 2,
                        c0.push(s[i0 + 1]),
                        s0,
                        d0,
                    ));
                }
            } else {
                i = i + 1;
                proof {
                    assert(editor_args_from(s, i0, c0, s0, d0) == editor_args_from(
                        s,
                        i0 + 1,
                        c0,
                        s0,
                        d0,
                    ));
                }
            }
        } else if is_whitespace_char(c) && !in_s && !in_d {
            if cur.len() > 0 {
                let ghost pre = args@;
                let piece = string_of(&cur);
                args.push(piece);
                proof {
                    lemma_line_views_push(pre, args@.last());
                    assert(line_views(args@) =~= l0 + seq![c0]);
                }
                cur.clear();
            }
            proof {
                assert(editor_args_from(s, i0, c0, s0, d0) == (if c0.len() > 0 {
                    seq![c0]
                } else {
                    Seq::<Seq<char>>::empty()
                }) + editor_args_from(s, i0 + 1, Seq::<char>::empty(), s0, d0));
                assert((l0 + (if c0.len() > 0 {
                    seq![c0]
                } else {
                    Seq::<Seq<char>>::empty()
                })) + editor_args_from(s, i0 + 1, Seq::<char>::empty(), s0, d0) =~= l0 + ((
                if c0.len() > 0 {
                    seq![c0]
                } else {
                    Seq::<Seq<char>>::empty()
                }) + editor_args_from(s, i0 + 1, Seq::<char>::empty(), s0, d0)));
                if c0.len() == 0 {
                    assert(line_views(args@) =~= l0 + Seq::<Seq<char>>::empty());
                }
                assert(cur@ =~= Seq::<char>::empty());
            }
            i = i + 1;
        } else {
            cur.push(c);
            i = i + 1;
            proof {
                assert(editor_args_from(s, i0, c0, s0, d0) == editor_args_from(
                    s,
                    i0 + 1,
                    c0.push(s[i0]),
                    s0,
                    d0,
                ));
            }
        }
    }
    if cur.len() > 0 {
        let ghost pre = args@;
        let piece = string_of(&cur);
        args.push(piece);
        proof {
            lemma_line_views_push(pre, args@.last());
        }
    } else {
        proof {
            assert(line_views(args@) + Seq::<Seq<char>>::empty() =~= line_views(args@));
        }
    }
    args
}

} // verus!

