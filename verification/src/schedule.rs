use vstd::prelude::*;

use crate::fences::starts_with;
use crate::text::{chars_of, is_white_space, slice_part, spec_is_white_space};

verus! {

/// The words of a text as `str::split_whitespace` yields them, gathering the
/// characters of the current word in `cur`.
pub open spec fn words_from(s: Seq<char>, cur: Seq<char>) -> Seq<Seq<char>>
    decreases s.len(),
{
    if s.len() == 0 {
        if cur.len() > 0 {
            seq![cur]
        } else {
            seq![]
        }
    } else if spec_is_white_space(s[0]) {
        (if cur.len() > 0 {
            seq![cur]
        } else {
            seq![]
        }) + words_from(s.drop_first(), seq![])
    } else {
        words_from(s.drop_first(), cur.push(s[0]))
    }
}

/// The maximal runs of characters that are not white space, in order.
pub open spec fn words(s: Seq<char>) -> Seq<Seq<char>> {
    words_from(s, seq![])
}

/// Splits a text at white space, as `str::split_whitespace` does.
pub fn split_words(s: &str) -> (r: Vec<Vec<char>>)
    ensures
        r.deep_view() == words(s@),
{
    let v = chars_of(s);
    let mut out: Vec<Vec<char>> = Vec::new();
    let mut cur: Vec<char> = Vec::new();
    let mut i: usize = 0;
    assert(v@.skip(0) == v@);
    while i < v.len()
        invariant
            v@ == s@,
            i <= v.len(),
            words(s@) == out.deep_view() + words_from(v@.skip(i as int), cur@),
        decreases v.len() - i,
    {
        let ghost rest = v@.skip(i as int);
        assert(rest.drop_first() == v@.skip(i + 1));
        assert(rest[0] == v@[i as int]);
        let ghost before = out.deep_view();
        let ghost old_cur = cur@;
        if is_white_space(v[i]) {
            assert(words_from(rest, old_cur) == (if old_cur.len() > 0 {
                seq![old_cur]
            } else {
                seq![]
            }) + words_from(v@.skip(i + 1), seq![]));
            if cur.len() > 0 {
                assert(cur.deep_view() =~= cur@);
                out.push(cur);
                assert(out.deep_view() =~= before.push(old_cur));
                cur = Vec::new();
                assert(before + (seq![old_cur] + words_from(v@.skip(i + 1), seq![])) =~= out.deep_view()
                    + words_from(v@.skip(i + 1), cur@));
            } else {
                assert(seq![] + words_from(v@.skip(i + 1), seq![]) =~= words_from(v@.skip(i + 1), seq![]));
                assert(cur@ =~= Seq::<char>::empty());
            }
        } else {
            cur.push(v[i]);
            assert(words_from(rest, old_cur) == words_from(v@.skip(i + 1), old_cur.push(v@[i as int])));
        }
        i += 1;
    }
    assert(v@.skip(v.len() as int) =~= Seq::<char>::empty());
    if cur.len() > 0 {
        let ghost cv = cur@;
        let ghost before = out.deep_view();
        assert(cur.deep_view() =~= cur@);
        out.push(cur);
        assert(out.deep_view() =~= before.push(cv));
    } else {
        assert(out.deep_view() + Seq::<Seq<char>>::empty() == out.deep_view());
    }
    out
}

/// Whether every character is an ASCII digit.
pub open spec fn all_digits(s: Seq<char>) -> bool {
    forall|i: int| 0 <= i < s.len() ==> '0' <= #[trigger] s[i] && s[i] <= '9'
}

/// The value of a numeral of ASCII digits.
pub open spec fn digits_value(s: Seq<char>) -> nat
    decreases s.len(),
{
    if s.len() == 0 {
        0
    } else {
        digits_value(s.drop_last()) * 10 + ((s.last() as u32) - ('0' as u32)) as nat
    }
}

/// What `str::parse::<u32>` gives: an optional `+` and at least one ASCII digit,
/// with a value that fits in a `u32`.
pub open spec fn parse_u32(s: Seq<char>) -> Option<nat> {
    let d = if s.len() > 0 && s[0] == '+' {
        s.drop_first()
    } else {
        s
    };
    if d.len() > 0 && all_digits(d) && digits_value(d) <= u32::MAX {
        Some(digits_value(d))
    } else {
        None
    }
}

proof fn lemma_digits_value_grows(s: Seq<char>, i: int)
    requires
        0 <= i <= s.len(),
        all_digits(s),
    ensures
        digits_value(s.take(i)) <= digits_value(s),
    decreases s.len() - i,
{
    if i < s.len() {
        lemma_digits_value_grows(s, i + 1);
        assert(s.take(i + 1).drop_last() =~= s.take(i));
        assert('0' <= s[i] <= '9');
    } else {
        assert(s.take(i) =~= s);
    }
}

/// Parses a `u32` numeral, as `str::parse::<u32>` does.
pub fn parse_u32_chars(s: &[char]) -> (r: Option<u32>)
    ensures
        match r {
            Some(n) => parse_u32(s@) == Some(n as nat),
            None => parse_u32(s@) is None,
        },
{
    let start: usize = if s.len() > 0 && s[0] == '+' {
        1
    } else {
        0
    };
    let ghost d = if s@.len() > 0 && s@[0] == '+' {
        s@.drop_first()
    } else {
        s@
    };
    assert(d =~= s@.skip(start as int));
    if start == s.len() {
        return None;
    }
    let mut value: u64 = 0;
    let mut i = start;
    assert(d.take(0) =~= Seq::<char>::empty());
    while i < s.len()
        invariant
            d == s@.skip(start as int),
            d == (if s@.len() > 0 && s@[0] == '+' {
                s@.drop_first()
            } else {
                s@
            }),
            start <= i <= s.len(),
            all_digits(d.take(i - start)),
            value == digits_value(d.take(i - start)),
            value <= u32::MAX,
        decreases s.len() - i,
    {
        let c = s[i];
        if c < '0' || c > '9' {
            assert(d[i - start] == c);
            return None;
        }
        let digit = ((c as u32) - 48) as u64;
        let next = value * 10 + digit;
        let ghost k = i - start;
        assert(d.take(k + 1).drop_last() =~= d.take(k));
        assert(d.take(k + 1).last() == c);
        assert(all_digits(d.take(k + 1))) by {
            assert forall|j: int| 0 <= j < k + 1 implies '0' <= #[trigger] d.take(k + 1)[j]
                && d.take(k + 1)[j] <= '9' by {
                if j < k {
                    assert(d.take(k + 1)[j] == d.take(k)[j]);
                }
            }
        }
        if next > 0xFFFF_FFFF {
            proof {
                if all_digits(d) {
                    lemma_digits_value_grows(d, k + 1);
                }
            }
            return None;
        }
        value = next;
        i += 1;
    }
    assert(d.take(s.len() - start) =~= d);
    Some(value as u32)
}

/// The minutes to wait, from minute `m` of the hour, until a minute divisible by
/// `step`, looking at most `budget` minutes ahead.
pub open spec fn minutes_to_multiple(m: nat, step: nat, budget: nat) -> nat
    decreases budget,
{
    if budget == 0 || m % step == 0 {
        0
    } else {
        1 + minutes_to_multiple((m + 1) % 60, step, (budget - 1) as nat)
    }
}

/// The minutes to wait, from minute `m` of the hour, until minute `target`,
/// looking at most `budget` minutes ahead.
pub open spec fn minutes_to_target(m: nat, target: nat, budget: nat) -> nat
    decreases budget,
{
    if budget == 0 || m == target {
        0
    } else {
        1 + minutes_to_target((m + 1) % 60, target, (budget - 1) as nat)
    }
}

proof fn lemma_minutes_to_target(m: nat, t: nat, budget: nat)
    requires
        m < 60,
        t < 60,
        ((t + 60 - m) % 60) as nat <= budget,
    ensures
        minutes_to_target(m, t, budget) == (t + 60 - m) % 60,
    decreases budget,
{
    if m != t {
        assert((t + 60 - m) % 60 > 0);
        let m1 = (m + 1) % 60;
        assert((t + 60 - m1) % 60 == (t + 60 - m) % 60 - 1);
        lemma_minutes_to_target(m1, t, (budget - 1) as nat);
    }
}

proof fn lemma_minutes_to_multiple(m: nat, step: nat, budget: nat)
    requires
        m < 60,
        step > 0,
        m == 0 || budget >= 60 - m,
    ensures
        minutes_to_multiple(m, step, budget) + m <= 60,
        ((m + minutes_to_multiple(m, step, budget)) % 60) % step == 0,
        forall|j: nat| j < minutes_to_multiple(m, step, budget) ==> #[trigger] ((m + j) % 60) % step != 0,
    decreases budget,
{
    if m == 0 {
        assert(0nat % step == 0);
    } else if budget == 0 {
    } else if m % step != 0 {
        let m1 = (m + 1) % 60;
        lemma_minutes_to_multiple(m1, step, (budget - 1) as nat);
        let k1 = minutes_to_multiple(m1, step, (budget - 1) as nat);
        assert((m + 1 + k1) % 60 == (m1 + k1) % 60);
        assert forall|j: nat| j < 1 + k1 implies #[trigger] ((m + j) % 60) % step != 0 by {
            if j > 0 {
                let i = (j - 1) as nat;
                assert((m + j) % 60 == (m1 + i) % 60);
                assert(((m1 + i) % 60) % step != 0);
            } else {
                assert((m + 0) % 60 == m);
            }
        }
    } else {
        assert((m + 0) % 60 == m);
    }
}

/// The six fields of a schedule that runs at second 0, with minute field `min`.
pub open spec fn runs_at_second_zero(cron: Seq<char>, min: Seq<char>) -> bool {
    words(cron).len() == 6 && words(cron)[0] == "0"@ && words(cron)[1] == min
}

/// The whole minute of the hour reached `wait` seconds after `minute`:`second`.
pub open spec fn minute_reached(minute: nat, second: nat, wait: nat) -> nat {
    (minute + (second + wait) / 60) % 60
}

/// The minute of the first whole minute at or after `minute`:`second`.
pub open spec fn first_whole_minute(minute: nat, second: nat) -> nat {
    if second == 0 {
        minute
    } else {
        ((minute + 1) % 60) as nat
    }
}

/// The minute of the hour `j` minutes after minute `m`.
pub open spec fn minute_after(m: nat, j: nat) -> nat {
    (m + j) % 60
}

/// The wait of `spec_next_run` when `k` further whole minutes are waited for.
pub open spec fn wait_for(second: nat, k: nat) -> nat {
    ((60 - second) % 60) as nat + 60 * k
}

proof fn lemma_whole_minute_waits(minute: nat, second: nat, k: nat)
    requires
        minute < 60,
        second < 60,
    ensures
        (second + wait_for(second, k)) % 60 == 0,
        minute_reached(minute, second, wait_for(second, k)) == (first_whole_minute(minute, second)
            + k) % 60,
        forall|d: nat|
            d < wait_for(second, k) && #[trigger] ((second + d) % 60) == 0 ==> exists|j: nat|
                j < k && minute_reached(minute, second, d) == #[trigger] minute_after(
                    first_whole_minute(minute, second),
                    j,
                ),
{
    let m0 = first_whole_minute(minute, second);
    let add = ((60 - second) % 60) as nat;
    let wait = wait_for(second, k);
    let s1: nat = if second == 0 {
        0
    } else {
        1
    };
    assert(second + add == 60 * s1);
    assert((second + wait) / 60 == s1 + k) by (nonlinear_arith)
        requires
            second + add == 60 * s1,
            wait == add + 60 * k,
    ;
    assert((second + wait) % 60 == 0) by (nonlinear_arith)
        requires
            second + add == 60 * s1,
            wait == add + 60 * k,
    ;
    assert((minute + s1 + k) % 60 == (m0 + k) % 60);
    assert forall|d: nat| d < wait && #[trigger] ((second + d) % 60) == 0 implies exists|j: nat|
        j < k && minute_reached(minute, second, d) == #[trigger] minute_after(m0, j) by {
        let q = (second + d) / 60;
        assert(second + d == 60 * q) by (nonlinear_arith)
            requires
                (second + d) % 60 == 0,
                q == (second + d) / 60,
        ;
        assert(q < s1 + k) by (nonlinear_arith)
            requires
                second + d == 60 * q,
                d < wait,
                second + wait == 60 * (s1 + k),
        ;
        assert(q >= s1) by (nonlinear_arith)
            requires
                second + d == 60 * q,
                second < 60,
                second > 0 ==> s1 == 1,
                second == 0 ==> s1 == 0,
        ;
        let j = (q - s1) as nat;
        assert((minute + q) % 60 == (m0 + j) % 60);
        assert(minute_reached(minute, second, d) == minute_after(m0, j));
    }
}

proof fn lemma_fixed_minute_wait(cron: Seq<char>, min: Seq<char>, target: nat, minute: nat, second: nat)
    requires
        runs_at_second_zero(cron, min),
        !starts_with(min, "*/"@),
        parse_u32(min) == Some(target),
        target < 60,
        minute < 60,
        second < 60,
    ensures
        spec_next_run(cron, minute, second) == Some(
            wait_for(second, ((target + 60 - first_whole_minute(minute, second)) % 60) as nat),
        ),
{
    let m0 = first_whole_minute(minute, second);
    lemma_minutes_to_target(m0, target, 60);
}

proof fn lemma_fixed_minute_first(minute: nat, second: nat, target: nat, k: nat)
    requires
        minute < 60,
        second < 60,
        target < 60,
        first_whole_minute(minute, second) < 60,
        k == (target + 60 - first_whole_minute(minute, second)) % 60,
    ensures
        (second + wait_for(second, k)) % 60 == 0,
        minute_reached(minute, second, wait_for(second, k)) == target,
        forall|d: nat|
            d < wait_for(second, k) && #[trigger] ((second + d) % 60) == 0 ==> minute_reached(
                minute,
                second,
                d,
            ) != target,
{
    let m0 = first_whole_minute(minute, second);
    lemma_whole_minute_waits(minute, second, k);
    assert((m0 + k) % 60 == target);
    assert forall|d: nat| d < wait_for(second, k) && #[trigger] ((second + d) % 60) == 0 implies
        minute_reached(minute, second, d) != target by {
        let j = choose|j: nat| j < k && minute_reached(minute, second, d) == minute_after(m0, j);
        assert((m0 + j) % 60 != target);
    }
}

/// With a fixed minute field, the countdown ends on a whole minute at or after now
/// whose minute is the given one, and no whole minute at or after now before it has
/// that minute.
pub proof fn countdown_reaches_the_fixed_minute(
    cron: Seq<char>,
    min: Seq<char>,
    target: nat,
    minute: nat,
    second: nat,
)
    requires
        runs_at_second_zero(cron, min),
        !starts_with(min, "*/"@),
        parse_u32(min) == Some(target),
        target < 60,
        minute < 60,
        second < 60,
    ensures
        spec_next_run(cron, minute, second) matches Some(wait) && (second + wait) % 60 == 0
            && minute_reached(minute, second, wait) == target && forall|d: nat|
            d < wait && #[trigger] ((second + d) % 60) == 0 ==> minute_reached(minute, second, d)
                != target,
{
    lemma_fixed_minute_wait(cron, min, target, minute, second);
    let k = ((target + 60 - first_whole_minute(minute, second)) % 60) as nat;
    lemma_fixed_minute_first(minute, second, target, k);
}

/// With a minute field `*/step`, the countdown ends on a whole minute at or after
/// now whose minute is a multiple of the step, and no whole minute at or after now
/// before it is.
pub proof fn countdown_reaches_a_step_minute(
    cron: Seq<char>,
    min: Seq<char>,
    step: nat,
    minute: nat,
    second: nat,
)
    requires
        runs_at_second_zero(cron, min),
        starts_with(min, "*/"@),
        parse_u32(min.skip(2)) == Some(step),
        step > 0,
        minute < 60,
        second < 60,
    ensures
        spec_next_run(cron, minute, second) matches Some(wait) && (second + wait) % 60 == 0
            && minute_reached(minute, second, wait) % step == 0 && forall|d: nat|
            d < wait && #[trigger] ((second + d) % 60) == 0 ==> minute_reached(minute, second, d)
                % step != 0,
{
    let m0 = first_whole_minute(minute, second);
    lemma_minutes_to_multiple(m0, step, 60);
    let k = minutes_to_multiple(m0, step, 60);
    assert(spec_next_run(cron, minute, second) == Some(wait_for(second, k)));
    lemma_whole_minute_waits(minute, second, k);
    assert forall|d: nat| d < wait_for(second, k) && #[trigger] ((second + d) % 60) == 0 implies
        minute_reached(minute, second, d) % step != 0 by {
        let j = choose|j: nat| j < k && minute_reached(minute, second, d) == minute_after(m0, j);
        assert(((m0 + j) % 60) % step != 0);
    }
}

/// Whether the countdown can be computed for a cron text: the one it handles (six
/// fields, seconds `0`) must not have a minute step of `0` nor a minute of 60 or more.
pub open spec fn countdown_defined(cron: Seq<char>) -> bool {
    let parts = words(cron);
    parts.len() == 6 && parts[0] == "0"@ ==> {
        let min = parts[1];
        if starts_with(min, "*/"@) {
            parse_u32(min.skip(2)) != Some(0nat)
        } else {
            parse_u32(min) matches Some(t) ==> t < 60
        }
    }
}

/// The time to the next run of a cron schedule, in seconds, counted from a moment
/// at `minute`:`second` (local time): `None` unless the schedule has six fields and
/// a seconds field of `0`. The wait goes to the next whole minute, then on by whole
/// minutes to a minute that is a multiple of the step (`*/step`) or that is the
/// given minute; with any other minute field it stops at the next whole minute.
pub open spec fn spec_next_run(cron: Seq<char>, minute: nat, second: nat) -> Option<nat> {
    let parts = words(cron);
    if parts.len() != 6 || parts[0] != "0"@ {
        None
    } else {
        let add = ((60 - second) % 60) as nat;
        let m0 = if second == 0 {
            minute
        } else {
            (minute + 1) % 60
        };
        let min = parts[1];
        let k = if starts_with(min, "*/"@) {
            match parse_u32(min.skip(2)) {
                Some(step) => minutes_to_multiple(m0, step, 60),
                None => 0,
            }
        } else {
            match parse_u32(min) {
                Some(target) => minutes_to_target(m0, target, 60),
                None => 0,
            }
        };
        Some(add + 60 * k)
    }
}

/// A countdown is given exactly for a schedule of six fields whose seconds field is
/// `0`.
pub proof fn countdown_only_for_second_zero_schedules(cron: Seq<char>, minute: nat, second: nat)
    ensures
        (spec_next_run(cron, minute, second) is Some) <==> (words(cron).len() == 6 && words(
            cron,
        )[0] == "0"@),
{
}

/// With a minute field that is neither a minute number nor `*/step` with a number
/// (such as `*`), the countdown ends at the next whole minute: within a minute, on a
/// whole minute.
pub proof fn countdown_to_the_next_whole_minute(
    cron: Seq<char>,
    min: Seq<char>,
    minute: nat,
    second: nat,
)
    requires
        runs_at_second_zero(cron, min),
        if starts_with(min, "*/"@) {
            parse_u32(min.skip(2)) is None
        } else {
            parse_u32(min) is None
        },
        minute < 60,
        second < 60,
    ensures
        spec_next_run(cron, minute, second) matches Some(wait) && wait < 60 && (second + wait) % 60
            == 0 && (second == 0 <==> wait == 0),
{
}

fn is_zero_field(w: &Vec<char>) -> (r: bool)
    ensures
        r == (w@ == "0"@),
{
    proof {
        reveal_strlit("0");
    }
    let r = w.len() == 1 && w[0] == '0';
    if r {
        assert(w@ =~= "0"@);
    }
    r
}

fn has_step_prefix(w: &Vec<char>) -> (r: bool)
    ensures
        r == starts_with(w@, "*/"@),
{
    proof {
        reveal_strlit("*/");
    }
    let r = w.len() >= 2 && w[0] == '*' && w[1] == '/';
    if r {
        assert(w@.subrange(0, 2) =~= "*/"@);
    } else if w.len() >= 2 {
        assert(w@.subrange(0, 2)[0] == w@[0]);
        assert(w@.subrange(0, 2)[1] == w@[1]);
    }
    r
}

/// Decides `countdown_defined`.
pub fn countdown_is_defined(cron: &str) -> (r: bool)
    ensures
        r == countdown_defined(cron@),
{
    proof {
        reveal_strlit("*/");
    }
    let parts = split_words(cron);
    if parts.len() != 6 {
        return true;
    }
    assert(parts.deep_view()[0] =~= parts[0]@);
    assert(parts.deep_view()[1] =~= parts[1]@);
    if !is_zero_field(&parts[0]) {
        return true;
    }
    let min = &parts[1];
    if has_step_prefix(min) {
        let rest = slice_part(min.as_slice(), 2, min.len());
        assert(rest@ =~= min@.skip(2));
        match parse_u32_chars(rest.as_slice()) {
            Some(step) => step != 0,
            None => true,
        }
    } else {
        match parse_u32_chars(min.as_slice()) {
            Some(t) => t < 60,
            None => true,
        }
    }
}

/// The time in seconds to the next run of a cron schedule, counted from a moment
/// at `minute`:`second`, as `spec_next_run` says.
pub fn seconds_until_next_run(cron: &str, minute: u32, second: u32) -> (r: Option<u64>)
    requires
        minute < 60,
        second < 60,
        countdown_defined(cron@),
    ensures
        match r {
            Some(n) => spec_next_run(cron@, minute as nat, second as nat) == Some(n as nat),
            None => spec_next_run(cron@, minute as nat, second as nat) is None,
        },
{
    proof {
        reveal_strlit("*/");
    }
    let parts = split_words(cron);
    if parts.len() != 6 {
        return None;
    }
    assert(parts.deep_view()[0] =~= parts[0]@);
    assert(parts.deep_view()[1] =~= parts[1]@);
    if !is_zero_field(&parts[0]) {
        return None;
    }
    let add: u32 = (60 - second) % 60;
    let mut m: u32 = if second == 0 {
        minute
    } else {
        (minute + 1) % 60
    };
    let ghost m0 = m as nat;
    let min = &parts[1];
    let mut k: u64 = 0;
    if has_step_prefix(min) {
        let rest = slice_part(min.as_slice(), 2, min.len());
        assert(rest@ =~= min@.skip(2));
        match parse_u32_chars(rest.as_slice()) {
            Some(step) => {
                let mut budget: u32 = 60;
                while budget > 0 && m % step != 0
                    invariant
                        step > 0,
                        m < 60,
                        budget <= 60,
                        k + budget == 60,
                        k + minutes_to_multiple(m as nat, step as nat, budget as nat)
                            == minutes_to_multiple(m0, step as nat, 60),
                    decreases budget,
                {
                    m = (m + 1) % 60;
                    k += 1;
                    budget -= 1;
                }
            },
            None => {},
        }
    } else {
        match parse_u32_chars(min.as_slice()) {
            Some(target) => {
                let mut budget: u32 = 60;
                while budget > 0 && m != target
                    invariant
                        m < 60,
                        budget <= 60,
                        k + budget == 60,
                        k + minutes_to_target(m as nat, target as nat, budget as nat)
                            == minutes_to_target(m0, target as nat, 60),
                    decreases budget,
                {
                    m = (m + 1) % 60;
                    k += 1;
                    budget -= 1;
                }
            },
            None => {},
        }
    }
    Some(add as u64 + 60 * k)
}

/// A decimal numeral reads back as the number it was written for: it is made of
/// ASCII digits only, and their value is the number.
pub proof fn decimal_reads_back(n: nat)
    ensures
        all_digits(crate::text::decimal(n)),
        digits_value(crate::text::decimal(n)) == n,
        crate::text::decimal(n).len() > 0,
    decreases n,
{
    let d = crate::text::decimal(n);
    if n < 10 {
        let c = crate::text::digit_char(n);
        assert((c as u32) == 48 + n);
        assert(d == seq![c]);
        assert(d.drop_last() =~= Seq::<char>::empty());
        assert(('0' as u32) == 48);
        assert(digits_value(d) == digits_value(d.drop_last()) * 10 + n);
    }
    if n >= 10 {
        decimal_reads_back(n / 10);
        let p = crate::text::decimal(n / 10);
        let c = crate::text::digit_char(n % 10);
        assert(d == p.push(c));
        assert(d.drop_last() =~= p);
        assert(d.last() == c);
        assert((c as u32) == 48 + n % 10);
        assert(n == (n / 10) * 10 + n % 10);
        assert(('0' as u32) == 48);
        assert(digits_value(d) == digits_value(p) * 10 + n % 10);
        assert forall|i: int| 0 <= i < d.len() implies '0' <= #[trigger] d[i] && d[i] <= '9' by {
            if i < p.len() {
                assert(d[i] == p[i]);
            }
        }
    }
}

} // verus!
