//! Era notation as text: rendering an era year, and reading one back.

use vstd::prelude::*;
use crate::era::{
    EraFormat, EraNames, WarekiError, ErrorView, start_year, era_label, era_of_token,
};

verus! {

/// The ten decimal digit characters.
pub open spec fn digit_chars() -> Seq<char> {
    seq!['0', '1', '2', '3', '4', '5', '6', '7', '8', '9']
}

/// The shortest decimal rendering of a number.
pub open spec fn decimal(n: nat) -> Seq<char>
    decreases n,
{
    if n < 10 {
        seq![digit_chars()[n as int]]
    } else {
        decimal(n / 10).push(digit_chars()[(n % 10) as int])
    }
}

/// The number that a run of decimal digits denotes.
pub open spec fn digits_value(s: Seq<char>) -> nat
    decreases s.len(),
{
    if s.len() == 0 {
        0
    } else {
        digits_value(s.drop_last()) * 10 + (s.last() as nat - '0' as nat) as nat
    }
}

/// An era year as text: the era's label, the year (or "元" for the first
/// year in kanji format), and "年" in kanji format.
pub open spec fn era_text(e: EraNames, n: nat, f: EraFormat) -> Seq<char> {
    era_label(e, f) + (if f == EraFormat::Kanji && n == 1 {
        seq!['元']
    } else {
        decimal(n)
    }) + (if f == EraFormat::Kanji {
        seq!['年']
    } else {
        Seq::<char>::empty()
    })
}

/// The class of a character for tokenizing: 1 for an ideograph of an era
/// name, 2 for an ASCII letter, 3 for an ASCII digit, 0 for anything else.
pub open spec fn char_class(c: char) -> int {
    if c == '明' || c == '治' || c == '大' || c == '正' || c == '昭' || c == '和' || c == '平'
        || c == '成' || c == '令' {
        1
    } else if ('a' <= c && c <= 'z') || ('A' <= c && c <= 'Z') {
        2
    } else if '0' <= c && c <= '9' {
        3
    } else {
        0
    }
}

/// The end of the run of characters of class `k` that starts at `i`.
pub open spec fn run_end(s: Seq<char>, i: int, k: int) -> int
    decreases s.len() - i,
{
    if 0 <= i < s.len() && char_class(s[i]) == k {
        run_end(s, i + 1, k)
    } else {
        i
    }
}

/// A year token starts with a digit or with "元".
pub open spec fn starts_year(c: char) -> bool {
    char_class(c) == 3 || c == '元'
}

/// Position `p` starts an era name (a run of era ideographs or of letters)
/// that a year token follows.
pub open spec fn token_at(s: Seq<char>, p: int) -> bool {
    &&& 0 <= p < s.len()
    &&& (char_class(s[p]) == 1 || char_class(s[p]) == 2)
    &&& run_end(s, p, char_class(s[p])) < s.len()
    &&& starts_year(s[run_end(s, p, char_class(s[p]))])
}

/// The first position at or after `p` where an era name and a year token start.
pub open spec fn first_token(s: Seq<char>, p: int) -> Option<int>
    decreases s.len() - p,
{
    if p < 0 || p >= s.len() {
        None
    } else if token_at(s, p) {
        Some(p)
    } else {
        first_token(s, p + 1)
    }
}

/// The end of the year token that starts at `q`.
pub open spec fn year_end(s: Seq<char>, q: int) -> int {
    if s[q] == '元' {
        q + 1
    } else {
        run_end(s, q, 3)
    }
}

/// The number of the year token that starts at `q`.
pub open spec fn year_number(s: Seq<char>, q: int) -> nat {
    if s[q] == '元' {
        1
    } else {
        digits_value(s.subrange(q, run_end(s, q, 3)))
    }
}

/// The outcome of reading an era year from text. The first era name that a
/// year token follows is taken; it must name a known era, the western year
/// must fit a `u32`, and what follows the year token must be empty or "年".
pub open spec fn parse_era_text(s: Seq<char>) -> Result<u32, ErrorView> {
    match first_token(s, 0) {
        None => Err(ErrorView::Unparseable(s)),
        Some(p) => {
            let q = run_end(s, p, char_class(s[p]));
            let name = s.subrange(p, q);
            match era_of_token(name) {
                None => Err(ErrorView::UnknownEra(name)),
                Some(e) => {
                    let w = start_year(e) + year_number(s, q) - 1;
                    let rest = s.subrange(year_end(s, q), s.len() as int);
                    if w > u32::MAX {
                        Err(ErrorView::YearOutOfRange(s))
                    } else if rest.len() == 0 || rest == seq!['年'] {
                        Ok(w as u32)
                    } else {
                        Err(ErrorView::InvalidFormat(s))
                    }
                },
            }
        },
    }
}

fn digit_str(d: u32) -> (r: &'static str)
    requires
        d < 10,
    ensures
        r@ == seq![digit_chars()[d as int]],
{
    proof {
        reveal_strlit("0");
        reveal_strlit("1");
        reveal_strlit("2");
        reveal_strlit("3");
        reveal_strlit("4");
        reveal_strlit("5");
        reveal_strlit("6");
        reveal_strlit("7");
        reveal_strlit("8");
        reveal_strlit("9");
    }
    let r = if d == 0 {
        "0"
    } else if d == 1 {
        "1"
    } else if d == 2 {
        "2"
    } else if d == 3 {
        "3"
    } else if d == 4 {
        "4"
    } else if d == 5 {
        "5"
    } else if d == 6 {
        "6"
    } else if d == 7 {
        "7"
    } else if d == 8 {
        "8"
    } else {
        "9"
    };
    assert(r@ =~= seq![digit_chars()[d as int]]);
    r
}

/// The decimal rendering of a number.
pub fn decimal_string(n: u32) -> (r: String)
    ensures
        r@ == decimal(n as nat),
    decreases n,
{
    if n < 10 {
        String::from_str(digit_str(n))
    } else {
        let mut s = decimal_string(n / 10);
        s.append(digit_str(n % 10));
        proof {
            assert(s@ =~= decimal(n as nat));
        }
        s
    }
}

/// Renders an era year: the era in the given format, then the year, with the
/// first year written "元" and the suffix "年" in kanji format.
pub fn cvt_era_string(era_name: EraNames, era_number: u32, format: EraFormat) -> (r: String)
    ensures
        r@ == era_text(era_name, era_number as nat, format),
{
    let is_kanji = format == EraFormat::Kanji;
    proof {
        reveal_strlit("元");
        reveal_strlit("年");
    }
    let mut r = era_name.into_string_with_format(format);
    if era_number == 1 && is_kanji {
        r.append("元");
    } else {
        let digits = decimal_string(era_number);
        r.append(digits.as_str());
    }
    if is_kanji {
        r.append("年");
    }
    assert(r@ =~= era_text(era_name, era_number as nat, format));
    r
}

proof fn lemma_digit_char(d: nat)
    requires
        d < 10,
    ensures
        char_class(digit_chars()[d as int]) == 3,
        digit_chars()[d as int] as nat - '0' as nat == d,
{
    assert(digit_chars()[0] == '0' && digit_chars()[1] == '1' && digit_chars()[2] == '2'
        && digit_chars()[3] == '3' && digit_chars()[4] == '4' && digit_chars()[5] == '5'
        && digit_chars()[6] == '6' && digit_chars()[7] == '7' && digit_chars()[8] == '8'
        && digit_chars()[9] == '9');
}

proof fn lemma_decimal(n: nat)
    ensures
        decimal(n).len() >= 1,
        forall|i: int| 0 <= i < decimal(n).len() ==> char_class(#[trigger] decimal(n)[i]) == 3,
        digits_value(decimal(n)) == n,
    decreases n,
{
    if n < 10 {
        lemma_digit_char(n);
        assert(decimal(n).drop_last() =~= Seq::<char>::empty());
        assert(decimal(n).last() == digit_chars()[n as int]);
        assert(digits_value(Seq::<char>::empty()) == 0);
        assert(digits_value(decimal(n)) == digits_value(Seq::<char>::empty()) * 10 + (
        digit_chars()[n as int] as nat - '0' as nat) as nat);
    } else {
        lemma_decimal(n / 10);
        lemma_digit_char(n % 10);
        assert(decimal(n).drop_last() =~= decimal(n / 10));
        assert(decimal(n).last() == digit_chars()[(n % 10) as int]);
        assert(n == (n / 10) * 10 + n % 10);
        assert(digits_value(decimal(n)) == digits_value(decimal(n / 10)) * 10 + (
        digit_chars()[(n % 10) as int] as nat - '0' as nat) as nat);
    }
}

proof fn lemma_run_end_to(s: Seq<char>, i: int, j: int, k: int)
    requires
        0 <= i <= j <= s.len(),
        forall|m: int| i <= m < j ==> char_class(#[trigger] s[m]) == k,
        j == s.len() || char_class(s[j]) != k,
    ensures
        run_end(s, i, k) == j,
    decreases j - i,
{
    if i < j {
        lemma_run_end_to(s, i + 1, j, k);
    }
}

/// The year token for `n`: "元" where `gannen`, else the decimal digits.
pub open spec fn year_token(n: nat, gannen: bool) -> Seq<char> {
    if gannen {
        seq!['元']
    } else {
        decimal(n)
    }
}

proof fn lemma_shape(l: Seq<char>, k: int, n: nat, gannen: bool, t: Seq<char>)
    requires
        l.len() >= 1,
        k == 1 || k == 2,
        forall|i: int| 0 <= i < l.len() ==> char_class(#[trigger] l[i]) == k,
        t.len() == 0 || char_class(t[0]) != 3,
    ensures
        ({
            let s = l + year_token(n, gannen) + t;
            let q = l.len() as int;
            &&& first_token(s, 0) == Some(0int)
            &&& run_end(s, 0, char_class(s[0])) == q
            &&& s.subrange(0, q) == l
            &&& year_number(s, q) == (if gannen { 1 } else { n })
            &&& year_end(s, q) == q + year_token(n, gannen).len()
            &&& s.subrange(year_end(s, q), s.len() as int) == t
        }),
{
    let y = year_token(n, gannen);
    let s = l + y + t;
    let q = l.len() as int;
    lemma_decimal(n);
    assert(s[0] == l[0]);
    assert(y.len() >= 1);
    assert(s[q] == y[0]);
    assert(seq!['元'][0] == '元');
    assert(char_class('元') == 0);
    lemma_run_end_to(s, 0, q, k);
    assert(token_at(s, 0));
    assert(s.subrange(0, q) =~= l);
    let e = q + y.len();
    if !gannen {
        assert forall|m: int| q <= m < e implies char_class(#[trigger] s[m]) == 3 by {
            assert(s[m] == y[m - q]);
        }
        if e < s.len() {
            assert(s[e] == t[0]);
        }
        lemma_run_end_to(s, q, e, 3);
        assert(s.subrange(q, e) =~= y);
    }
    assert(s.subrange(e, s.len() as int) =~= t);
}

proof fn lemma_label(e: EraNames, f: EraFormat)
    ensures
        era_label(e, f).len() >= 1,
        forall|i: int| 0 <= i < era_label(e, f).len() ==> char_class(#[trigger] era_label(e, f)[i])
            == (if f == EraFormat::Kanji { 1int } else { 2int }),
        era_of_token(era_label(e, f)) == Some(e),
{
}

/// Reading back a rendered era year gives the western year it stands for,
/// in either format, wherever that year fits a `u32`.
pub proof fn lemma_round_trip(e: EraNames, n: u32, f: EraFormat)
    requires
        n >= 1,
        start_year(e) + n - 1 <= u32::MAX,
    ensures
        parse_era_text(era_text(e, n as nat, f)) == Ok::<u32, ErrorView>(
            (start_year(e) + n - 1) as u32,
        ),
{
    lemma_label(e, f);
    let k = if f == EraFormat::Kanji { 1int } else { 2int };
    let gannen = f == EraFormat::Kanji && n == 1;
    let t = if f == EraFormat::Kanji { seq!['年'] } else { Seq::<char>::empty() };
    assert(char_class('年') == 0);
    assert(t.len() == 0 || t[0] == '年');
    lemma_shape(era_label(e, f), k, n as nat, gannen, t);
    assert(era_text(e, n as nat, f) =~= era_label(e, f) + year_token(n as nat, gannen) + t);
}

/// An era year in digits followed by anything but nothing or "年" (and not
/// by a further digit, which would belong to the year) is rejected as
/// malformed, once the era is known and the year fits.
pub proof fn lemma_trailing_rejected(e: EraNames, f: EraFormat, n: nat, t: Seq<char>)
    requires
        t.len() > 0,
        t != seq!['年'],
        char_class(t[0]) != 3,
        start_year(e) + n - 1 <= u32::MAX,
    ensures
        parse_era_text(era_label(e, f) + decimal(n) + t) == Err::<u32, ErrorView>(
            ErrorView::InvalidFormat(era_label(e, f) + decimal(n) + t),
        ),
{
    lemma_label(e, f);
    let k = if f == EraFormat::Kanji { 1int } else { 2int };
    lemma_shape(era_label(e, f), k, n, false, t);
}

/// The initial of an era in lower case.
pub open spec fn lower_initial(e: EraNames) -> char {
    match e {
        EraNames::Meiji => 'm',
        EraNames::Taisho => 't',
        EraNames::Showa => 's',
        EraNames::Heisei => 'h',
        EraNames::Reiwa => 'r',
    }
}

proof fn lemma_run_end_agree(s1: Seq<char>, s2: Seq<char>, i: int, k: int)
    requires
        s1.len() == s2.len(),
        1 <= i,
        forall|m: int| 1 <= m < s1.len() ==> s1[m] == s2[m],
    ensures
        run_end(s1, i, k) == run_end(s2, i, k),
    decreases s1.len() - i,
{
    if 0 <= i < s1.len() && char_class(s1[i]) == k {
        lemma_run_end_agree(s1, s2, i + 1, k);
    }
}

proof fn lemma_run_end_bounds(s: Seq<char>, i: int, k: int)
    requires
        0 <= i <= s.len(),
    ensures
        i <= run_end(s, i, k) <= s.len(),
        i < s.len() && char_class(s[i]) == k ==> i < run_end(s, i, k),
    decreases s.len() - i,
{
    if i < s.len() && char_class(s[i]) == k {
        lemma_run_end_bounds(s, i + 1, k);
    }
}

proof fn lemma_first_token_agree(s1: Seq<char>, s2: Seq<char>, p: int)
    requires
        s1.len() == s2.len(),
        s1.len() >= 1,
        0 <= p,
        char_class(s1[0]) == char_class(s2[0]),
        forall|m: int| 1 <= m < s1.len() ==> s1[m] == s2[m],
    ensures
        first_token(s1, p) == first_token(s2, p),
        forall|k: int| run_end(s1, p, k) == run_end(s2, p, k),
    decreases s1.len() - p,
{
    assert forall|k: int| run_end(s1, p, k) == run_end(s2, p, k) by {
        if p == 0 {
            lemma_run_end_agree(s1, s2, 1, k);
        } else {
            lemma_run_end_agree(s1, s2, p, k);
        }
    }
    if p < s1.len() {
        let k = char_class(s1[p]);
        assert(char_class(s2[p]) == k);
        lemma_run_end_bounds(s1, p, k);
        let q = run_end(s1, p, k);
        if q < s1.len() {
            assert(s1[q] == s2[q]);
        }
        assert(token_at(s1, p) == token_at(s2, p));
        lemma_first_token_agree(s1, s2, p + 1);
    }
}

/// An era's initial reads the same in upper and in lower case: a text that
/// starts with it gives the same western year as that text with the
/// initial's case changed, and fails exactly when that one fails.
pub proof fn lemma_initial_case_insensitive(e: EraNames, rest: Seq<char>)
    ensures
        forall|w: u32|
            parse_era_text(era_label(e, EraFormat::Initial) + rest) == Ok::<u32, ErrorView>(w)
                <==> parse_era_text(seq![lower_initial(e)] + rest) == Ok::<u32, ErrorView>(w),
        parse_era_text(era_label(e, EraFormat::Initial) + rest) is Ok <==> parse_era_text(
            seq![lower_initial(e)] + rest,
        ) is Ok,
{
    let s1 = era_label(e, EraFormat::Initial) + rest;
    let s2 = seq![lower_initial(e)] + rest;
    lemma_label(e, EraFormat::Initial);
    assert(s1[0] == era_label(e, EraFormat::Initial)[0]);
    assert(s2[0] == lower_initial(e));
    assert forall|m: int| 1 <= m < s1.len() implies s1[m] == s2[m] by {
        assert(s1[m] == rest[m - 1]);
        assert(s2[m] == rest[m - 1]);
    }
    lemma_first_token_agree(s1, s2, 0);
    lemma_first_token(s1, 0);
    if let Some(p) = first_token(s1, 0) {
        lemma_first_token_agree(s1, s2, p);
        let q = run_end(s1, p, char_class(s1[p]));
        lemma_run_end_bounds(s1, p, char_class(s1[p]));
        lemma_run_end_bounds(s1, q, 3);
        let n1 = s1.subrange(p, q);
        let n2 = s2.subrange(p, q);
        if p == 0 {
            assert(n1[0] == s1[0] && n2[0] == s2[0]);
            if q >= 2 {
                assert(n1[1] == s1[1]);
                assert(n2[1] == s2[1]);
            }
            assert(era_of_token(n1) == era_of_token(n2));
        } else {
            assert(n1 =~= n2);
        }
        assert(q >= 1);
        lemma_run_end_agree(s1, s2, q, 3);
        assert(s1.subrange(q, run_end(s1, q, 3)) =~= s2.subrange(q, run_end(s2, q, 3)));
        assert(s1.subrange(year_end(s1, q), s1.len() as int) =~= s2.subrange(
            year_end(s2, q),
            s2.len() as int,
        ));
    }
}

/// The characters of a string.
pub fn chars_of(s: &str) -> (r: Vec<char>)
    ensures
        r@ == s@,
{
    let n = s.unicode_len();
    let mut v: Vec<char> = Vec::new();
    let mut i: usize = 0;
    while i < n
        invariant
            n == s@.len(),
            i <= n,
            v@ == s@.subrange(0, i as int),
        decreases n - i,
    {
        v.push(s.get_char(i));
        i = i + 1;
        assert(v@ =~= s@.subrange(0, i as int));
    }
    assert(v@ =~= s@);
    v
}

fn class_of(c: char) -> (r: u8)
    ensures
        r as int == char_class(c),
{
    if c == '明' || c == '治' || c == '大' || c == '正' || c == '昭' || c == '和' || c == '平'
        || c == '成' || c == '令' {
        1
    } else if ('a' <= c && c <= 'z') || ('A' <= c && c <= 'Z') {
        2
    } else if '0' <= c && c <= '9' {
        3
    } else {
        0
    }
}

pub(crate) fn scan_run(s: &Vec<char>, i: usize, k: u8) -> (r: usize)
    requires
        i <= s@.len(),
    ensures
        r as int == run_end(s@, i as int, k as int),
        i <= r <= s@.len(),
{
    let mut j = i;
    while j < s.len() && class_of(s[j]) == k
        invariant
            i <= j <= s@.len(),
            run_end(s@, i as int, k as int) == run_end(s@, j as int, k as int),
        decreases s@.len() - j,
    {
        j = j + 1;
    }
    j
}

fn find_token(s: &Vec<char>) -> (r: Option<usize>)
    ensures
        r is None ==> first_token(s@, 0) is None,
        r is Some ==> first_token(s@, 0) == Some(r->0 as int),
{
    let mut p: usize = 0;
    while p < s.len()
        invariant
            p <= s@.len(),
            first_token(s@, 0) == first_token(s@, p as int),
        decreases s@.len() - p,
    {
        let k = class_of(s[p]);
        if k == 1 || k == 2 {
            let q = scan_run(s, p, k);
            if q < s.len() && (class_of(s[q]) == 3 || s[q] == '元') {
                return Some(p);
            }
        }
        p = p + 1;
    }
    None
}

proof fn lemma_digits_value_step(s: Seq<char>, lo: int, i: int)
    requires
        0 <= lo <= i < s.len(),
    ensures
        digits_value(s.subrange(lo, i + 1)) == digits_value(s.subrange(lo, i)) * 10 + (s[i] as nat
            - '0' as nat) as nat,
{
    assert(s.subrange(lo, i + 1).drop_last() =~= s.subrange(lo, i));
}

/// The number a run of digits denotes, or `None` where it exceeds `u32::MAX`.
pub(crate) fn digits_number(s: &Vec<char>, lo: usize, hi: usize) -> (r: Option<u32>)
    requires
        lo <= hi <= s@.len(),
        forall|j: int| lo <= j < hi ==> char_class(#[trigger] s@[j]) == 3,
    ensures
        digits_value(s@.subrange(lo as int, hi as int)) <= u32::MAX ==> r == Some(
            digits_value(s@.subrange(lo as int, hi as int)) as u32,
        ),
        digits_value(s@.subrange(lo as int, hi as int)) > u32::MAX ==> r is None,
{
    let mut acc: u64 = 0;
    let mut big = false;
    let mut i = lo;
    assert(s@.subrange(lo as int, lo as int) =~= Seq::<char>::empty());
    while i < hi
        invariant
            lo <= i <= hi <= s@.len(),
            forall|j: int| lo <= j < hi ==> char_class(#[trigger] s@[j]) == 3,
            !big ==> acc == digits_value(s@.subrange(lo as int, i as int)) && acc <= u32::MAX,
            big ==> digits_value(s@.subrange(lo as int, i as int)) > u32::MAX,
        decreases hi - i,
    {
        proof {
            lemma_digits_value_step(s@, lo as int, i as int);
        }
        let c = s[i];
        assert(char_class(s@[i as int]) == 3);
        let d = (c as u32 - '0' as u32) as u64;
        if !big {
            acc = acc * 10 + d;
            if acc > u32::MAX as u64 {
                big = true;
            }
        }
        i = i + 1;
    }
    if big {
        None
    } else {
        Some(acc as u32)
    }
}

fn era_of_chars(s: &Vec<char>, lo: usize, hi: usize) -> (r: Option<EraNames>)
    requires
        lo <= hi <= s@.len(),
    ensures
        r == era_of_token(s@.subrange(lo as int, hi as int)),
{
    if hi - lo == 1 {
        let c = s[lo];
        if c == 'M' || c == 'm' {
            Some(EraNames::Meiji)
        } else if c == 'T' || c == 't' {
            Some(EraNames::Taisho)
        } else if c == 'S' || c == 's' {
            Some(EraNames::Showa)
        } else if c == 'H' || c == 'h' {
            Some(EraNames::Heisei)
        } else if c == 'R' || c == 'r' {
            Some(EraNames::Reiwa)
        } else {
            None
        }
    } else if hi - lo == 2 {
        let a = s[lo];
        let b = s[lo + 1];
        if a == '明' && b == '治' {
            Some(EraNames::Meiji)
        } else if a == '大' && b == '正' {
            Some(EraNames::Taisho)
        } else if a == '昭' && b == '和' {
            Some(EraNames::Showa)
        } else if a == '平' && b == '成' {
            Some(EraNames::Heisei)
        } else if a == '令' && b == '和' {
            Some(EraNames::Reiwa)
        } else {
            None
        }
    } else {
        None
    }
}

impl EraNames {
    /// The era that a name stands for: "明治", "大正", "昭和", "平成", "令和",
    /// or an initial M, T, S, H, R in either case.
    pub fn from_name(s: &str) -> (r: Option<EraNames>)
        ensures
            r == era_of_token(s@),
    {
        let v = chars_of(s);
        proof {
            assert(v@.subrange(0, v@.len() as int) =~= s@);
        }
        era_of_chars(&v, 0, v.len())
    }
}

/// Reads the western year from era notation such as "明治1年", "M13年",
/// "R元年" or "令和6".
pub fn era_to_western(text: &str) -> (r: Result<u32, WarekiError>)
    ensures
        crate::era::result_view(r) == parse_era_text(text@),
{
    let s = chars_of(text);
    let p = match find_token(&s) {
        None => {
            return Err(WarekiError::Unparseable(String::from_str(text)));
        },
        Some(p) => p,
    };
    proof {
        lemma_first_token(s@, 0);
    }
    let q = scan_run(&s, p, class_of(s[p]));
    let e = match era_of_chars(&s, p, q) {
        None => {
            return Err(WarekiError::UnknownEra(String::from_str(text.substring_char(p, q))));
        },
        Some(e) => e,
    };
    let len = s.len();
    assert(q < len);
    let (n, ye): (Option<u32>, usize) = if s[q] == '元' {
        (Some(1), q + 1)
    } else {
        let ye = scan_run(&s, q, 3);
        proof {
            assert forall|j: int| q <= j < ye implies char_class(#[trigger] s@[j]) == 3 by {
                lemma_run_end_class(s@, q as int, 3, j);
            }
        }
        (digits_number(&s, q, ye), ye)
    };
    let start = e.into_u32();
    let w: u64 = match n {
        None => {
            return Err(WarekiError::YearOutOfRange(String::from_str(text)));
        },
        Some(n) => start as u64 + n as u64 - 1,
    };
    if w > u32::MAX as u64 {
        return Err(WarekiError::YearOutOfRange(String::from_str(text)));
    }
    if year_suffix_only(&s, ye) {
        Ok(w as u32)
    } else {
        Err(WarekiError::InvalidFormat(String::from_str(text)))
    }
}

/// Whether what follows position `i` is nothing or the single suffix "年".
pub(crate) fn year_suffix_only(s: &Vec<char>, i: usize) -> (r: bool)
    requires
        i <= s@.len(),
    ensures
        r == ({
            let rest = s@.subrange(i as int, s@.len() as int);
            rest.len() == 0 || rest == seq!['年']
        }),
{
    let r = i == s.len() || (i + 1 == s.len() && s[i] == '年');
    proof {
        let rest = s@.subrange(i as int, s@.len() as int);
        let y = seq!['年'];
        assert(y.len() == 1 && y[0] == '年');
        if i + 1 == s.len() && s[i as int] == '年' {
            assert(rest =~= y);
        }
        if rest == y {
            assert(rest[0] == s@[i as int]);
        }
    }
    r
}

proof fn lemma_first_token(s: Seq<char>, i: int)
    ensures
        first_token(s, i) matches Some(p) ==> token_at(s, p) && i <= p,
    decreases s.len() - i,
{
    if 0 <= i < s.len() && !token_at(s, i) {
        lemma_first_token(s, i + 1);
    }
}

pub(crate) proof fn lemma_run_end_class(s: Seq<char>, i: int, k: int, j: int)
    requires
        0 <= i <= j < run_end(s, i, k),
    ensures
        char_class(s[j]) == k,
    decreases s.len() - i,
{
    if i < j {
        lemma_run_end_class(s, i + 1, k, j);
    }
}

/// The trimmed text's western year; see `era_to_western`.
pub fn japanese_to_western(era: &str) -> (r: Result<u32, WarekiError>)
    ensures
        crate::era::result_view(r) == parse_era_text(trimmed(era@)),
{
    era_to_western(trim(era))
}

/// What `str::trim` leaves of a text.
pub uninterp spec fn trimmed(s: Seq<char>) -> Seq<char>;

/// Relies on `str::trim`: the text without leading and trailing whitespace,
/// which depends on the text alone.
#[verifier::external_body]
pub(crate) fn trim(s: &str) -> (r: &str)
    ensures
        r@ == trimmed(s@),
{
    s.trim()
}

} // verus!
