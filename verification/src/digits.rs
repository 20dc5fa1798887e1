//! Decimal rendering and scanning of unsigned values, the building block of
//! the persisted state document.

use vstd::prelude::*;

verus! {

/// The decimal digit character for a value between 0 and 9.
pub open spec fn digit_char(d: int) -> char {
    if d == 0 {
        '0'
    } else if d == 1 {
        '1'
    } else if d == 2 {
        '2'
    } else if d == 3 {
        '3'
    } else if d == 4 {
        '4'
    } else if d == 5 {
        '5'
    } else if d == 6 {
        '6'
    } else if d == 7 {
        '7'
    } else if d == 8 {
        '8'
    } else {
        '9'
    }
}

/// The value of a decimal digit character; -1 for any other character.
pub open spec fn digit_val(c: char) -> int {
    if c == '0' {
        0
    } else if c == '1' {
        1
    } else if c == '2' {
        2
    } else if c == '3' {
        3
    } else if c == '4' {
        4
    } else if c == '5' {
        5
    } else if c == '6' {
        6
    } else if c == '7' {
        7
    } else if c == '8' {
        8
    } else if c == '9' {
        9
    } else {
        -1
    }
}

pub open spec fn is_digit(c: char) -> bool {
    digit_val(c) >= 0
}

/// Canonical decimal rendering of a natural number, most significant digit first.
pub open spec fn dec_spec(n: nat) -> Seq<char>
    decreases n,
{
    if n < 10 {
        seq![digit_char(n as int)]
    } else {
        dec_spec((n / 10) as nat).push(digit_char((n % 10) as int))
    }
}

/// The number denoted by a sequence of digit characters, most significant first.
pub open spec fn dec_val(s: Seq<char>) -> int
    decreases s.len(),
{
    if s.len() == 0 {
        0
    } else {
        dec_val(s.drop_last()) * 10 + digit_val(s.last())
    }
}

pub open spec fn all_digits(s: Seq<char>) -> bool {
    forall|i: int| 0 <= i < s.len() ==> is_digit(#[trigger] s[i])
}

/// A decimal rendering of `v` occupies `s` from `start` on, and the run of
/// digits ends right where the rendering does.
pub open spec fn dec_at(s: Seq<char>, start: int, v: u64) -> bool {
    &&& 0 <= start
    &&& start + dec_spec(v as nat).len() <= s.len()
    &&& s.subrange(start, start + dec_spec(v as nat).len()) == dec_spec(v as nat)
    &&& (start + dec_spec(v as nat).len() == s.len() || !is_digit(
        s[start + dec_spec(v as nat).len()],
    ))
}

/// A decimal rendering is never empty, holds digit characters only, and
/// denotes the number it was built from.
pub proof fn lemma_dec_spec_wf(n: nat)
    ensures
        dec_spec(n).len() >= 1,
        all_digits(dec_spec(n)),
        dec_val(dec_spec(n)) == n,
    decreases n,
{
    if n < 10 {
        let s = dec_spec(n);
        assert(s == seq![digit_char(n as int)]);
        assert(s.drop_last() =~= Seq::<char>::empty());
        assert(s.last() == digit_char(n as int));
        assert(dec_val(Seq::<char>::empty()) == 0);
        assert(digit_val(digit_char(n as int)) == n);
    } else {
        lemma_dec_spec_wf((n / 10) as nat);
        let prev = dec_spec((n / 10) as nat);
        let d = digit_char((n % 10) as int);
        let s = dec_spec(n);
        assert(s == prev.push(d));
        assert(s.drop_last() =~= prev);
        assert(s.last() == d);
        assert(digit_val(d) == n % 10);
        vstd::arithmetic::div_mod::lemma_fundamental_div_mod(n as int, 10);
        assert(dec_val(s) == dec_val(prev) * 10 + n % 10);
        assert forall|i: int| 0 <= i < s.len() implies is_digit(#[trigger] s[i]) by {
            if i < prev.len() {
                assert(s[i] == prev[i]);
            } else {
                assert(s[i] == d);
            }
        }
    }
}

pub proof fn lemma_dec_val_nonneg(s: Seq<char>)
    requires
        all_digits(s),
    ensures
        dec_val(s) >= 0,
    decreases s.len(),
{
    if s.len() > 0 {
        let t = s.drop_last();
        assert(all_digits(t)) by {
            assert forall|i: int| 0 <= i < t.len() implies is_digit(#[trigger] t[i]) by {
                assert(t[i] == s[i]);
            }
        }
        lemma_dec_val_nonneg(t);
        assert(is_digit(s.last()));
        assert(dec_val(t) * 10 >= 0) by (nonlinear_arith)
            requires
                dec_val(t) >= 0,
        ;
    }
}

/// The value denoted by a prefix of a digit run never exceeds the value of
/// the whole run.
pub proof fn lemma_dec_val_prefix(s: Seq<char>, i: int)
    requires
        all_digits(s),
        0 <= i <= s.len(),
    ensures
        0 <= dec_val(s.subrange(0, i)) <= dec_val(s),
    decreases s.len(),
{
    if i == s.len() {
        assert(s.subrange(0, i) =~= s);
        lemma_dec_val_nonneg(s);
    } else {
        let t = s.drop_last();
        assert(all_digits(t)) by {
            assert forall|j: int| 0 <= j < t.len() implies is_digit(#[trigger] t[j]) by {
                assert(t[j] == s[j]);
            }
        }
        assert(s.subrange(0, i) =~= t.subrange(0, i));
        lemma_dec_val_prefix(t, i);
        lemma_dec_val_nonneg(t);
        assert(is_digit(s.last()));
        assert(dec_val(t) * 10 >= dec_val(t)) by (nonlinear_arith)
            requires
                dec_val(t) >= 0,
        ;
        assert(dec_val(s) == dec_val(t) * 10 + digit_val(s.last()));
    }
}

/// Two digit runs that begin at the same place and both end at a non-digit
/// (or at the end of the text) are the same run.
pub proof fn lemma_digit_run_unique(s: Seq<char>, start: int, a: Seq<char>, b: Seq<char>)
    requires
        0 <= start,
        all_digits(a),
        a.len() >= 1,
        all_digits(b),
        b.len() >= 1,
        start + a.len() <= s.len(),
        start + b.len() <= s.len(),
        s.subrange(start, start + a.len()) == a,
        s.subrange(start, start + b.len()) == b,
        start + a.len() == s.len() || !is_digit(s[start + a.len()]),
        start + b.len() == s.len() || !is_digit(s[start + b.len()]),
    ensures
        a == b,
{
    if a.len() < b.len() {
        assert(s[start + a.len()] == b[a.len() as int]);
        assert(is_digit(b[a.len() as int]));
        assert(false);
    } else if b.len() < a.len() {
        assert(s[start + b.len()] == a[b.len() as int]);
        assert(is_digit(a[b.len() as int]));
        assert(false);
    } else {
        assert(a =~= b);
    }
}

/// Only one value can be rendered at a given place in a given text.
pub proof fn lemma_dec_at_unique(s: Seq<char>, start: int, v1: u64, v2: u64)
    requires
        dec_at(s, start, v1),
        dec_at(s, start, v2),
    ensures
        v1 == v2,
{
    lemma_dec_spec_wf(v1 as nat);
    lemma_dec_spec_wf(v2 as nat);
    lemma_digit_run_unique(s, start, dec_spec(v1 as nat), dec_spec(v2 as nat));
}

/// Executable digit test, returning the digit's value.
fn digit_of(c: char) -> (r: Option<u64>)
    ensures
        r matches Some(v) ==> is_digit(c) && v == digit_val(c),
        r is None ==> !is_digit(c),
{
    if c == '0' {
        Some(0)
    } else if c == '1' {
        Some(1)
    } else if c == '2' {
        Some(2)
    } else if c == '3' {
        Some(3)
    } else if c == '4' {
        Some(4)
    } else if c == '5' {
        Some(5)
    } else if c == '6' {
        Some(6)
    } else if c == '7' {
        Some(7)
    } else if c == '8' {
        Some(8)
    } else if c == '9' {
        Some(9)
    } else {
        None
    }
}

/// A one-character string slice for a digit value.
fn digit_str(d: u64) -> (r: &'static str)
    requires
        d < 10,
    ensures
        r@ =~= seq![digit_char(d as int)],
{
    proof {
        reveal_strlit("0");
        reveal_strlit("1");
        reveal_strlit("2");
        reveal_strlit("3");
        reveal_strlit("4");
        reveal_strlit("5");
        reveal_strlit("6");
        reveal_strlit("7");
        reveal_strlit("8");
        reveal_strlit("9");
    }
    if d == 0 {
        "0"
    } else if d == 1 {
        "1"
    } else if d == 2 {
        "2"
    } else if d == 3 {
        "3"
    } else if d == 4 {
        "4"
    } else if d == 5 {
        "5"
    } else if d == 6 {
        "6"
    } else if d == 7 {
        "7"
    } else if d == 8 {
        "8"
    } else {
        "9"
    }
}

/// Renders a value in decimal, matching `dec_spec`.
pub fn u64_to_dec(n: u64) -> (r: String)
    ensures
        r@ == dec_spec(n as nat),
    decreases n,
{
    if n < 10 {
        let s = digit_str(n);
        let r = s.to_owned();
        r
    } else {
        let mut r = u64_to_dec(n / 10);
        let tail = digit_str(n % 10);
        r.append(tail);
        proof {
            assert(dec_spec((n / 10) as nat) + seq![digit_char((n % 10) as int)] =~= dec_spec(
                (n / 10) as nat,
            ).push(digit_char((n % 10) as int)));
        }
        r
    }
}

/// Scans the maximal run of decimal digit characters beginning at `start`.
/// Returns the run's value and its end position; `None` when there is no
/// digit at `start` or the run's value does not fit in a `u64`. The contract
/// promises only what the document parser needs: wherever a canonical
/// rendering stands at `start`, exactly that value and end come back.
pub(crate) fn scan_u64(s: &str, start: usize, n: usize) -> (r: Option<(u64, usize)>)
    requires
        n == s@.len(),
    ensures
        forall|v: u64| #[trigger]
            dec_at(s@, start as int, v) ==> (r matches Some(p) && p.0 == v && p.1 == start
                + dec_spec(v as nat).len()),
{
    if start >= n {
        proof {
            assert forall|v: u64| !dec_at(s@, start as int, v) by {
                if dec_at(s@, start as int, v) {
                    lemma_dec_spec_wf(v as nat);
                    assert(false);
                }
            }
        }
        return None;
    }
    let mut i = start;
    let mut acc: u64 = 0;
    proof {
        assert(s@.subrange(start as int, start as int) =~= Seq::<char>::empty());
    }
    loop
        invariant
            start <= i <= n,
            n == s@.len(),
            all_digits(s@.subrange(start as int, i as int)),
            acc == dec_val(s@.subrange(start as int, i as int)),
        ensures
            start <= i <= n,
            n == s@.len(),
            all_digits(s@.subrange(start as int, i as int)),
            acc == dec_val(s@.subrange(start as int, i as int)),
            i == n || !is_digit(s@[i as int]),
        decreases n - i,
    {
        if i >= n {
            break ;
        }
        let c = s.get_char(i);
        match digit_of(c) {
            None => {
                break ;
            },
            Some(d) => {
                let ghost pre = s@.subrange(start as int, i as int);
                let ghost ext = s@.subrange(start as int, i + 1);
                proof {
                    assert(ext.drop_last() =~= pre);
                    assert(ext.last() == c);
                    assert(all_digits(ext)) by {
                        assert forall|k: int| 0 <= k < ext.len() implies is_digit(
                            #[trigger] ext[k],
                        ) by {
                            if k < pre.len() {
                                assert(ext[k] == pre[k]);
                            } else {
                                assert(ext[k] == c);
                            }
                        }
                    }
                    assert(dec_val(ext) == acc * 10 + d);
                }
                if acc > (u64::MAX - d) / 10 {
                    proof {
                        assert(acc * 10 + d > u64::MAX) by (nonlinear_arith)
                            requires
                                acc > (u64::MAX - d) / 10,
                                d < 10,
                                acc >= 0,
                        ;
                        assert forall|v: u64| !dec_at(s@, start as int, v) by {
                            if dec_at(s@, start as int, v) {
                                lemma_dec_spec_wf(v as nat);
                                let dv = dec_spec(v as nat);
                                let run_len = i + 1 - start;
                                if dv.len() < run_len {
                                    assert(s@[start + dv.len()] == pre[dv.len() as int]);
                                    assert(is_digit(pre[dv.len() as int]));
                                    assert(false);
                                } else if dv.len() == run_len {
                                    assert(s@[start + dv.len()] == c);
                                    assert(false);
                                } else {
                                    assert(dv.subrange(0, run_len) =~= ext) by {
                                        assert forall|k: int| 0 <= k < run_len implies dv[k]
                                            == ext[k] by {
                                            assert(dv[k] == s@[start + k]);
                                        }
                                    }
                                    lemma_dec_val_prefix(dv, run_len);
                                    assert(dec_val(ext) <= dec_val(dv));
                                    assert(dec_val(dv) == v as int);
                                    assert(false);
                                }
                            }
                        }
                    }
                    return None;
                }
                proof {
                    assert(acc * 10 + d <= u64::MAX) by (nonlinear_arith)
                        requires
                            acc <= (u64::MAX - d) / 10,
                            d < 10,
                            acc >= 0,
                    ;
                }
                acc = acc * 10 + d;
                i = i + 1;
            },
        }
    }
    if i == start {
        proof {
            assert forall|v: u64| !dec_at(s@, start as int, v) by {
                if dec_at(s@, start as int, v) {
                    lemma_dec_spec_wf(v as nat);
                    let dv = dec_spec(v as nat);
                    assert(s@[start as int] == dv[0]);
                    assert(is_digit(dv[0]));
                    assert(false);
                }
            }
        }
        return None;
    }
    proof {
        let run = s@.subrange(start as int, i as int);
        assert forall|v: u64| #[trigger]
            dec_at(s@, start as int, v) implies (v == acc && start + dec_spec(v as nat).len()
            == i) by {
            lemma_dec_spec_wf(v as nat);
            lemma_digit_run_unique(s@, start as int, dec_spec(v as nat), run);
            assert(dec_val(run) == v as int);
        }
    }
    Some((acc, i))
}

} // verus!
