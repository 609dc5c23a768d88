use vstd::prelude::*;
use vstd::string::*;

verus! {

/// Character-wise equality of two string slices.
pub fn str_eq(a: &str, b: &str) -> (r: bool)
    ensures
        r == (a@ == b@),
{
    let n = a.unicode_len();
    if n != b.unicode_len() {
        return false;
    }
    let mut i: usize = 0;
    while i < n
        invariant
            n == a@.len(),
            n == b@.len(),
            i <= n,
            forall|j: int| 0 <= j < i ==> a@[j] == b@[j],
        decreases n - i,
    {
        if a.get_char(i) != b.get_char(i) {
            return false;
        }
        i = i + 1;
    }
    proof {
        assert(a@ =~= b@);
    }
    true
}

/// The finite map described by an association list of string pairs;
/// a later binding for a key overrides an earlier one.
pub open spec fn pairs_map(s: Seq<(String, String)>) -> Map<Seq<char>, Seq<char>>
    decreases s.len(),
{
    if s.len() == 0 {
        Map::empty()
    } else {
        pairs_map(s.drop_last()).insert(s.last().0@, s.last().1@)
    }
}

proof fn lemma_pairs_map_match(s: Seq<(String, String)>, i: int)
    requires
        0 <= i < s.len(),
        forall|j: int| i < j < s.len() ==> #[trigger] s[j].0@ != s[i].0@,
    ensures
        pairs_map(s).contains_key(s[i].0@),
        pairs_map(s)[s[i].0@] == s[i].1@,
    decreases s.len(),
{
    if i < s.len() - 1 {
        assert(s.drop_last()[i] == s[i]);
        lemma_pairs_map_match(s.drop_last(), i);
    }
}

proof fn lemma_pairs_map_no_match(s: Seq<(String, String)>, k: Seq<char>)
    requires
        forall|j: int| 0 <= j < s.len() ==> #[trigger] s[j].0@ != k,
    ensures
        !pairs_map(s).contains_key(k),
    decreases s.len(),
{
    if s.len() > 0 {
        lemma_pairs_map_no_match(s.drop_last(), k);
    }
}

/// Looks `key` up in the association list, scanning from the end so that the
/// most recent binding wins, matching `pairs_map`.
pub fn pairs_lookup(v: &Vec<(String, String)>, key: &str) -> (r: Option<String>)
    ensures
        match r {
            Some(val) => pairs_map(v@).contains_key(key@) && val@ == pairs_map(v@)[key@],
            None => !pairs_map(v@).contains_key(key@),
        },
{
    let mut i: usize = v.len();
    while i > 0
        invariant
            i <= v@.len(),
            forall|j: int| i <= j < v@.len() ==> #[trigger] v@[j].0@ != key@,
        decreases i,
    {
        i = i - 1;
        if str_eq(v[i].0.as_str(), key) {
            proof {
                lemma_pairs_map_match(v@, i as int);
            }
            return Some(v[i].1.clone());
        }
    }
    proof {
        lemma_pairs_map_no_match(v@, key@);
    }
    None
}

/// A character matches its lower-case counterpart: itself, or, when the
/// target is an ASCII letter, its upper-case twin.
pub open spec fn char_eq_ci(x: char, t: char) -> bool {
    x == t || ('a' <= t && t <= 'z' && x as int == t as int - 32)
}

/// `a` equals the lower-case string `b` under ASCII case folding.
pub open spec fn eq_ic(a: Seq<char>, b: Seq<char>) -> bool {
    a.len() == b.len() && forall|i: int| 0 <= i < a.len() ==> char_eq_ci(a[i], b[i])
}

/// Case-insensitive comparison of `s` against a lower-case target.
pub fn eq_ignore_case(s: &str, target: &str) -> (r: bool)
    ensures
        r == eq_ic(s@, target@),
{
    let n = s.unicode_len();
    if n != target.unicode_len() {
        return false;
    }
    let mut i: usize = 0;
    while i < n
        invariant
            n == s@.len(),
            n == target@.len(),
            i <= n,
            forall|j: int| 0 <= j < i ==> char_eq_ci(s@[j], target@[j]),
        decreases n - i,
    {
        let x = s.get_char(i);
        let t = target.get_char(i);
        let matches_here = x == t || ((t as u32) >= 97 && (t as u32) <= 122 && (x as u32) + 32
            == (t as u32));
        if !matches_here {
            return false;
        }
        i = i + 1;
    }
    true
}

pub open spec fn is_dec_digit(c: char) -> bool {
    '0' <= c && c <= '9'
}

pub open spec fn dec_digit_val(c: char) -> int {
    c as int - '0' as int
}

/// The value of a string of decimal digits.
pub open spec fn dec_val(s: Seq<char>) -> int
    decreases s.len(),
{
    if s.len() == 0 {
        0
    } else {
        dec_val(s.drop_last()) * 10 + dec_digit_val(s.last())
    }
}

pub open spec fn all_dec_digits(s: Seq<char>) -> bool {
    forall|i: int| 0 <= i < s.len() ==> is_dec_digit(s[i])
}

/// The texts `u64::from_str` accepts: at least one digit, with one optional
/// leading plus sign.
pub open spec fn is_u64_text(s: Seq<char>) -> bool {
    if s.len() > 0 && s[0] == '+' {
        s.len() > 1 && all_dec_digits(s.drop_first())
    } else {
        s.len() > 0 && all_dec_digits(s)
    }
}

/// The digits of a `u64` text, with any leading plus sign removed.
pub open spec fn u64_text_digits(s: Seq<char>) -> Seq<char> {
    if s.len() > 0 && s[0] == '+' {
        s.drop_first()
    } else {
        s
    }
}

proof fn lemma_dec_val_nonneg(s: Seq<char>)
    requires
        all_dec_digits(s),
    ensures
        dec_val(s) >= 0,
    decreases s.len(),
{
    if s.len() > 0 {
        lemma_dec_val_nonneg(s.drop_last());
    }
}

/// Extending a digit string never decreases its value.
proof fn lemma_dec_val_monotone(s: Seq<char>, j: int)
    requires
        all_dec_digits(s),
        0 <= j <= s.len(),
    ensures
        dec_val(s) >= dec_val(s.take(j)),
    decreases s.len() - j,
{
    if j < s.len() {
        lemma_dec_val_monotone(s, j + 1);
        assert(s.take(j + 1).drop_last() =~= s.take(j));
        lemma_dec_val_nonneg(s.take(j));
    } else {
        assert(s.take(j) =~= s);
    }
}

/// Parses a decimal `u64`, as `str::parse::<u64>` does: digits with an
/// optional leading plus sign, rejecting anything else and any value that
/// does not fit.
pub fn parse_u64_dec(s: &str) -> (r: Option<u64>)
    ensures
        r is Some <==> is_u64_text(s@) && dec_val(u64_text_digits(s@)) <= u64::MAX,
        r is Some ==> r->0 == dec_val(u64_text_digits(s@)),
{
    let n = s.unicode_len();
    if n == 0 {
        return None;
    }
    let start: usize = if s.get_char(0) == '+' {
        1
    } else {
        0
    };
    if n == start {
        return None;
    }
    let ghost digits = u64_text_digits(s@);
    proof {
        if start == 1 {
            assert(digits =~= s@.drop_first());
        } else {
            assert(digits =~= s@);
        }
    }
    let mut acc: u64 = 0;
    let mut i: usize = start;
    while i < n
        invariant
            start <= i <= n,
            n == s@.len(),
            start == 0 || start == 1,
            start == 1 ==> s@[0] == '+',
            start == 1 ==> n > 1,
            start == 0 ==> n > 0,
            digits == u64_text_digits(s@),
            digits.len() == n - start,
            forall|j: int| 0 <= j < digits.len() ==> digits[j] == s@[j + start],
            all_dec_digits(digits.take(i - start)),
            acc == dec_val(digits.take(i - start)),
        decreases n - i,
    {
        let c = s.get_char(i);
        if !(c >= '0' && c <= '9') {
            proof {
                assert(digits[i - start] == s@[i as int]);
                assert(!is_dec_digit(digits[i - start]));
                assert(!all_dec_digits(digits));
            }
            return None;
        }
        let d = (c as u32) - 48;
        proof {
            assert(digits.take(i - start + 1).drop_last() =~= digits.take(i - start));
            assert(digits.take(i - start + 1).last() == digits[i - start]);
            assert(0 <= dec_digit_val(c) <= 9);
        }
        if acc > (u64::MAX - (d as u64)) / 10 {
            proof {
                assert(dec_digit_val(c) == d as int);
                assert(acc * 10 + d > u64::MAX) by (nonlinear_arith)
                    requires
                        acc > (u64::MAX - (d as u64)) / 10,
                        d <= 9,
                ;
                assert(dec_val(digits.take(i - start + 1)) > u64::MAX);
                if all_dec_digits(digits) {
                    lemma_dec_val_monotone(digits, i - start + 1);
                }
            }
            return None;
        }
        acc = acc * 10 + (d as u64);
        i = i + 1;
    }
    proof {
        assert(digits.take(n - start) =~= digits);
        assert(is_u64_text(s@));
    }
    Some(acc)
}

} // verus!
