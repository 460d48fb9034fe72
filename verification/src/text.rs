//! Character-level text handling: white space, words, trimming, decimal
//! numbers and substring search, each against a mathematical statement over
//! `Seq<char>`.

use vstd::prelude::*;

verus! {

broadcast use vstd::seq_lib::group_seq_properties;

/// The Unicode `White_Space` code points, the set that `char::is_whitespace`
/// accepts and that `str::trim` and `str::split_whitespace` split on.
pub open spec fn is_white_space(c: char) -> bool {
    let u = c as u32;
    ||| 0x9 <= u <= 0xd
    ||| u == 0x20
    ||| u == 0x85
    ||| u == 0xa0
    ||| u == 0x1680
    ||| 0x2000 <= u <= 0x200a
    ||| u == 0x2028
    ||| u == 0x2029
    ||| u == 0x202f
    ||| u == 0x205f
    ||| u == 0x3000
}

/// Tests one character for white space.
pub fn is_white_space_char(c: char) -> (b: bool)
    ensures
        b == is_white_space(c),
{
    let u = c as u32;
    (0x9 <= u && u <= 0xd) || u == 0x20 || u == 0x85 || u == 0xa0 || u == 0x1680 || (0x2000 <= u
        && u <= 0x200a) || u == 0x2028 || u == 0x2029 || u == 0x202f || u == 0x205f || u == 0x3000
}

/// The characters of a string slice, one per element.
pub fn char_vec(s: &str) -> (v: Vec<char>)
    ensures
        v@ == s@,
{
    let n = s.unicode_len();
    let mut v: Vec<char> = Vec::new();
    let mut i: usize = 0;
    while i < n
        invariant
            n == s@.len(),
            i <= n,
            v@ == s@.take(i as int),
        decreases n - i,
    {
        let c = s.get_char(i);
        v.push(c);
        i = i + 1;
        assert(v@ =~= s@.take(i as int));
    }
    assert(s@.take(n as int) =~= s@);
    v
}

// ---------------------------------------------------------------- words

/// The word in progress, as a list of at most one word.
pub open spec fn flush_word(pending: Seq<char>) -> Seq<Seq<char>> {
    if pending.len() == 0 {
        Seq::empty()
    } else {
        seq![pending]
    }
}

/// Splits `rest` into words, where `pending` holds the characters of the
/// word that the text before `rest` left open.
pub open spec fn split_words_from(pending: Seq<char>, rest: Seq<char>) -> Seq<Seq<char>>
    decreases rest.len(),
{
    if rest.len() == 0 {
        flush_word(pending)
    } else if is_white_space(rest[0]) {
        flush_word(pending) + split_words_from(Seq::empty(), rest.drop_first())
    } else {
        split_words_from(pending.push(rest[0]), rest.drop_first())
    }
}

/// The maximal runs of non-white-space characters of `s`, in order: what
/// `str::split_whitespace` yields.
pub open spec fn words(s: Seq<char>) -> Seq<Seq<char>> {
    split_words_from(Seq::empty(), s)
}

/// The views of a list of strings.
pub open spec fn string_views(v: Seq<String>) -> Seq<Seq<char>> {
    v.map_values(|w: String| w@)
}

/// Splits a line into its words.
pub fn split_words(s: &str) -> (ws: Vec<String>)
    ensures
        string_views(ws@) == words(s@),
{
    let chars = char_vec(s);
    let n = chars.len();
    let mut out: Vec<String> = Vec::new();
    let mut start: usize = 0;
    let mut i: usize = 0;
    assert(s@.skip(0) =~= s@);
    assert(s@.subrange(0, 0) =~= Seq::<char>::empty());
    assert(string_views(out@) =~= Seq::<Seq<char>>::empty());
    while i < n
        invariant
            n == s@.len(),
            chars@ == s@,
            start <= i <= n,
            words(s@) == string_views(out@) + split_words_from(
                s@.subrange(start as int, i as int),
                s@.skip(i as int),
            ),
        decreases n - i,
    {
        let c = chars[i];
        let ghost pending = s@.subrange(start as int, i as int);
        let ghost rest = s@.skip(i as int);
        assert(rest[0] == c);
        assert(rest.drop_first() =~= s@.skip(i + 1));
        let ghost old_views = string_views(out@);
        if is_white_space_char(c) {
            if start < i {
                let w = s.substring_char(start, i).to_owned();
                out.push(w);
                assert(string_views(out@) =~= old_views.push(pending));
                assert(flush_word(pending) =~= seq![pending]);
            } else {
                assert(pending =~= Seq::<char>::empty());
                assert(string_views(out@) =~= old_views + flush_word(pending));
            }
            start = i + 1;
            i = i + 1;
            assert(s@.subrange(start as int, i as int) =~= Seq::<char>::empty());
            assert(words(s@) == string_views(out@) + split_words_from(
                s@.subrange(start as int, i as int),
                s@.skip(i as int),
            ));
        } else {
            i = i + 1;
            assert(pending.push(c) =~= s@.subrange(start as int, i as int));
        }
    }
    let ghost pending = s@.subrange(start as int, n as int);
    assert(s@.skip(n as int) =~= Seq::<char>::empty());
    let ghost old_views = string_views(out@);
    if start < n {
        let w = s.substring_char(start, n).to_owned();
        out.push(w);
        assert(string_views(out@) =~= old_views.push(pending));
    } else {
        assert(pending =~= Seq::<char>::empty());
    }
    assert(string_views(out@) =~= old_views + flush_word(pending));
    out
}

proof fn lemma_split_trailing_white_space(pending: Seq<char>, rest: Seq<char>, c: char)
    requires
        is_white_space(c),
    ensures
        split_words_from(pending, rest.push(c)) == split_words_from(pending, rest),
    decreases rest.len(),
{
    let r = rest.push(c);
    assert(r[0] == if rest.len() == 0 { c } else { rest[0] });
    if rest.len() == 0 {
        assert(r.drop_first() =~= Seq::<char>::empty());
        assert(split_words_from(Seq::empty(), Seq::<char>::empty()) =~= Seq::<Seq<char>>::empty());
        assert(flush_word(pending) + Seq::<Seq<char>>::empty() =~= flush_word(pending));
    } else {
        assert(r.drop_first() =~= rest.drop_first().push(c));
        if is_white_space(rest[0]) {
            lemma_split_trailing_white_space(Seq::empty(), rest.drop_first(), c);
        } else {
            lemma_split_trailing_white_space(pending.push(rest[0]), rest.drop_first(), c);
        }
    }
}

/// White space at the end of a line, such as its newline, changes none of
/// its words.
pub proof fn law_trailing_white_space_ignored(s: Seq<char>, c: char)
    requires
        is_white_space(c),
    ensures
        words(s.push(c)) == words(s),
{
    lemma_split_trailing_white_space(Seq::empty(), s, c);
}

/// No white space in `w`.
pub open spec fn free_of_white_space(w: Seq<char>) -> bool {
    forall|i: int| 0 <= i < w.len() ==> !is_white_space(#[trigger] w[i])
}

proof fn lemma_split_words_shape(pending: Seq<char>, rest: Seq<char>)
    requires
        free_of_white_space(pending),
    ensures
        forall|i: int|
            0 <= i < split_words_from(pending, rest).len() ==> #[trigger] split_words_from(
                pending,
                rest,
            )[i].len() > 0 && free_of_white_space(split_words_from(pending, rest)[i]),
    decreases rest.len(),
{
    if rest.len() == 0 {
        let f = split_words_from(pending, rest);
        assert(f == flush_word(pending));
        assert forall|i: int| 0 <= i < f.len() implies #[trigger] f[i].len() > 0
            && free_of_white_space(f[i]) by {
            assert(f[i] == pending);
        }
    } else if is_white_space(rest[0]) {
        lemma_split_words_shape(Seq::empty(), rest.drop_first());
        let f = flush_word(pending);
        let t = split_words_from(Seq::empty(), rest.drop_first());
        assert(split_words_from(pending, rest) == f + t);
        assert(free_of_white_space(Seq::<char>::empty()));
        assert forall|i: int| 0 <= i < (f + t).len() implies #[trigger] (f + t)[i].len() > 0
            && free_of_white_space((f + t)[i]) by {
            if i >= f.len() {
                assert((f + t)[i] == t[i - f.len()]);
            }
        }
    } else {
        let p = pending.push(rest[0]);
        assert forall|i: int| 0 <= i < p.len() implies !is_white_space(#[trigger] p[i]) by {
            if i < pending.len() {
                assert(p[i] == pending[i]);
            }
        }
        lemma_split_words_shape(p, rest.drop_first());
        assert(split_words_from(pending, rest) == split_words_from(p, rest.drop_first()));
    }
}

/// Every word is a non-empty run of characters without white space.
pub proof fn law_words_are_nonempty_runs(s: Seq<char>)
    ensures
        forall|i: int|
            0 <= i < words(s).len() ==> #[trigger] words(s)[i].len() > 0 && free_of_white_space(
                words(s)[i],
            ),
{
    lemma_split_words_shape(Seq::empty(), s);
}

// ---------------------------------------------------------------- trimming

/// `s` without its leading white space.
pub open spec fn trim_start(s: Seq<char>) -> Seq<char>
    decreases s.len(),
{
    if s.len() > 0 && is_white_space(s[0]) {
        trim_start(s.drop_first())
    } else {
        s
    }
}

/// `s` without its trailing white space.
pub open spec fn trim_end(s: Seq<char>) -> Seq<char>
    decreases s.len(),
{
    if s.len() > 0 && is_white_space(s.last()) {
        trim_end(s.drop_last())
    } else {
        s
    }
}

/// `s` without leading and trailing white space, as `str::trim` gives it.
pub open spec fn trim(s: Seq<char>) -> Seq<char> {
    trim_end(trim_start(s))
}

/// The characters of `s` without leading and trailing white space.
pub fn trimmed_chars(s: &str) -> (t: Vec<char>)
    ensures
        t@ == trim(s@),
{
    let chars = char_vec(s);
    let n = chars.len();
    let mut i: usize = 0;
    assert(s@.skip(0) =~= s@);
    while i < n && is_white_space_char(chars[i])
        invariant
            n == s@.len(),
            chars@ == s@,
            i <= n,
            trim_start(s@) == trim_start(s@.skip(i as int)),
        decreases n - i,
    {
        assert(s@.skip(i as int).drop_first() =~= s@.skip(i + 1));
        i = i + 1;
    }
    let ghost head = s@.skip(i as int);
    assert(trim_start(s@) == head);
    let mut j: usize = n;
    assert(head =~= s@.subrange(i as int, n as int));
    while j > i && is_white_space_char(chars[j - 1])
        invariant
            n == s@.len(),
            chars@ == s@,
            i <= j <= n,
            head == s@.skip(i as int),
            trim_end(head) == trim_end(s@.subrange(i as int, j as int)),
        decreases j,
    {
        assert(s@.subrange(i as int, j as int).drop_last() =~= s@.subrange(i as int, j - 1));
        j = j - 1;
    }
    let mut t: Vec<char> = Vec::new();
    let mut k: usize = i;
    while k < j
        invariant
            chars@ == s@,
            i <= k <= j <= n,
            n == s@.len(),
            t@ == s@.subrange(i as int, k as int),
        decreases j - k,
    {
        t.push(chars[k]);
        k = k + 1;
        assert(t@ =~= s@.subrange(i as int, k as int));
    }
    t
}

// ---------------------------------------------------------------- decimal numbers

/// An ASCII decimal digit.
pub open spec fn is_digit(c: char) -> bool {
    48 <= (c as u32) <= 57
}

/// The value of one decimal digit.
pub open spec fn digit_value(c: char) -> int {
    (c as u32) - 48
}

/// Every character of `s` is a decimal digit.
pub open spec fn all_digits(s: Seq<char>) -> bool {
    forall|i: int| 0 <= i < s.len() ==> #[trigger] is_digit(s[i])
}

/// The number that a string of decimal digits denotes, most significant first.
pub open spec fn digits_value(s: Seq<char>) -> int
    decreases s.len(),
{
    if s.len() == 0 {
        0
    } else {
        digits_value(s.drop_last()) * 10 + digit_value(s.last())
    }
}

/// The digits of an unsigned number in text: one leading `+` is allowed.
pub open spec fn unsigned_digits(s: Seq<char>) -> Seq<char> {
    if s.len() > 0 && s[0] == '+' {
        s.drop_first()
    } else {
        s
    }
}

/// What `str::parse::<usize>` gives for `s`: the value of a non-empty run of
/// decimal digits, optionally after one `+`, where it fits in a `usize`.
pub open spec fn parse_usize(s: Seq<char>) -> Option<usize> {
    let d = unsigned_digits(s);
    if d.len() > 0 && all_digits(d) && digits_value(d) <= usize::MAX {
        Some(digits_value(d) as usize)
    } else {
        None
    }
}

proof fn lemma_digits_value_nonneg(s: Seq<char>)
    requires
        all_digits(s),
    ensures
        digits_value(s) >= 0,
    decreases s.len(),
{
    if s.len() > 0 {
        assert(is_digit(s[s.len() - 1]));
        lemma_digits_value_nonneg(s.drop_last());
    }
}

proof fn lemma_digits_value_prefix(s: Seq<char>, k: int)
    requires
        all_digits(s),
        0 <= k <= s.len(),
    ensures
        digits_value(s.take(k)) <= digits_value(s),
    decreases s.len(),
{
    if k == s.len() {
        assert(s.take(k) =~= s);
    } else {
        let p = s.drop_last();
        assert(is_digit(s[s.len() - 1]));
        lemma_digits_value_nonneg(p);
        lemma_digits_value_prefix(p, k);
        assert(p.take(k) =~= s.take(k));
    }
}

proof fn lemma_take_one_more(d: Seq<char>, k: int)
    requires
        0 <= k < d.len(),
        all_digits(d.take(k)),
        is_digit(d[k]),
    ensures
        all_digits(d.take(k + 1)),
        digits_value(d.take(k + 1)) == digits_value(d.take(k)) * 10 + digit_value(d[k]),
{
    assert(d.take(k + 1).drop_last() =~= d.take(k));
    assert(d.take(k + 1).last() == d[k]);
    assert forall|i: int| 0 <= i < k + 1 implies #[trigger] is_digit(d.take(k + 1)[i]) by {
        if i < k {
            assert(d.take(k + 1)[i] == d.take(k)[i]);
        }
    }
}

proof fn lemma_append_digit_bound(v: int, dig: int)
    by (nonlinear_arith)
    requires
        0 <= v,
        0 <= dig <= 9,
    ensures
        v > (usize::MAX - dig) / 10 <==> v * 10 + dig > usize::MAX,
{
}

/// Parses an unsigned decimal number as `str::parse::<usize>` does.
pub fn parse_usize_chars(s: &Vec<char>) -> (r: Option<usize>)
    ensures
        r == parse_usize(s@),
{
    let n = s.len();
    let mut start: usize = 0;
    if n > 0 && s[0] == '+' {
        start = 1;
    }
    let ghost d = unsigned_digits(s@);
    assert(d =~= s@.skip(start as int));
    if start == n {
        return None;
    }
    let mut v: usize = 0;
    let mut i: usize = start;
    assert(d.take(0) =~= Seq::<char>::empty());
    while i < n
        invariant
            n == s@.len(),
            start < n,
            start <= i <= n,
            d == s@.skip(start as int),
            d == unsigned_digits(s@),
            all_digits(d.take(i - start)),
            v == digits_value(d.take(i - start)),
        decreases n - i,
    {
        let c = s[i];
        let code = c as u32;
        let ghost k: int = (i - start) as int;
        assert(d[k] == c);
        if code < 48 || code > 57 {
            assert(!is_digit(d[k]));
            return None;
        }
        let dig = (code - 48) as usize;
        proof {
            lemma_take_one_more(d, k);
            lemma_append_digit_bound(v as int, dig as int);
        }
        if v > (usize::MAX - dig) / 10 {
            proof {
                if all_digits(d) {
                    lemma_digits_value_prefix(d, k + 1);
                }
            }
            return None;
        }
        v = v * 10 + dig;
        i = i + 1;
    }
    assert(d.take(n - start) =~= d);
    Some(v)
}

/// The character of a decimal digit value.
pub open spec fn digit_char(d: nat) -> char {
    if d == 0 {
        '0'
    } else if d == 1 {
        '1'
    } else if d == 2 {
        '2'
    } else if d == 3 {
        '3'
    } else if d == 4 {
        '4'
    } else if d == 5 {
        '5'
    } else if d == 6 {
        '6'
    } else if d == 7 {
        '7'
    } else if d == 8 {
        '8'
    } else {
        '9'
    }
}

/// The decimal text of `n`, without leading zeros, as `{}` formats it.
pub open spec fn decimal_text(n: nat) -> Seq<char>
    decreases n,
{
    if n < 10 {
        seq![digit_char(n)]
    } else {
        decimal_text(n / 10).push(digit_char(n % 10))
    }
}

fn digit_str(d: u64) -> (s: &'static str)
    requires
        d < 10,
    ensures
        s@ == seq![digit_char(d as nat)],
{
    if d == 0 {
        proof { reveal_strlit("0"); }
        "0"
    } else if d == 1 {
        proof { reveal_strlit("1"); }
        "1"
    } else if d == 2 {
        proof { reveal_strlit("2"); }
        "2"
    } else if d == 3 {
        proof { reveal_strlit("3"); }
        "3"
    } else if d == 4 {
        proof { reveal_strlit("4"); }
        "4"
    } else if d == 5 {
        proof { reveal_strlit("5"); }
        "5"
    } else if d == 6 {
        proof { reveal_strlit("6"); }
        "6"
    } else if d == 7 {
        proof { reveal_strlit("7"); }
        "7"
    } else if d == 8 {
        proof { reveal_strlit("8"); }
        "8"
    } else {
        proof { reveal_strlit("9"); }
        "9"
    }
}

/// Appends the decimal text of `n` to `out`.
pub fn append_decimal(out: &mut String, n: u64)
    ensures
        final(out)@ == old(out)@ + decimal_text(n as nat),
    decreases n,
{
    if n >= 10 {
        append_decimal(out, n / 10);
    }
    out.append(digit_str(n % 10));
    assert(decimal_text(n as nat) == if n < 10 {
        seq![digit_char(n as nat)]
    } else {
        decimal_text((n / 10) as nat).push(digit_char((n % 10) as nat))
    });
}

proof fn lemma_digit_char(d: nat)
    requires
        d < 10,
    ensures
        is_digit(digit_char(d)),
        digit_value(digit_char(d)) == d,
        digit_char(d) != '+',
{
}

pub(crate) proof fn lemma_decimal_text_digits(n: nat)
    ensures
        all_digits(decimal_text(n)),
        digits_value(decimal_text(n)) == n,
        decimal_text(n).len() > 0,
        decimal_text(n)[0] != '+',
    decreases n,
{
    if n < 10 {
        lemma_digit_char(n);
        let t = decimal_text(n);
        assert(t.drop_last() =~= Seq::<char>::empty());
        assert(digits_value(t) == digits_value(t.drop_last()) * 10 + digit_value(t.last()));
        assert(digits_value(Seq::<char>::empty()) == 0);
    } else {
        lemma_digit_char(n % 10);
        lemma_decimal_text_digits(n / 10);
        let t = decimal_text(n);
        assert(t.drop_last() =~= decimal_text(n / 10));
        assert(t.last() == digit_char(n % 10));
        assert((n / 10) * 10 + n % 10 == n) by (nonlinear_arith);
        assert(digits_value(t) == digits_value(decimal_text(n / 10)) * 10 + digit_value(t.last()));
        assert forall|i: int| 0 <= i < t.len() implies #[trigger] is_digit(t[i]) by {
            if i < t.len() - 1 {
                assert(t[i] == decimal_text(n / 10)[i]);
            }
        }
    }
}

/// Decimal text read back: what `{}` writes of a number, `str::parse` reads
/// as that number.
pub proof fn law_decimal_text_parses_back(n: usize)
    ensures
        parse_usize(decimal_text(n as nat)) == Some(n),
{
    lemma_decimal_text_digits(n as nat);
}

// ---------------------------------------------------------------- search

/// `needle` occurs in `hay` as a contiguous run.
pub open spec fn contains_text(hay: Seq<char>, needle: Seq<char>) -> bool {
    exists|i: int|
        0 <= i && i + needle.len() <= hay.len() && #[trigger] hay.subrange(i, i + needle.len())
            == needle
}

/// Tests whether `needle` occurs in `hay`.
pub fn find_text(hay: &Vec<char>, needle: &Vec<char>) -> (b: bool)
    ensures
        b == contains_text(hay@, needle@),
{
    let n = hay.len();
    let m = needle.len();
    if m > n {
        return false;
    }
    let mut i: usize = 0;
    while i <= n - m
        invariant
            n == hay@.len(),
            m == needle@.len(),
            m <= n,
            i <= n - m + 1,
            forall|k: int| 0 <= k < i ==> #[trigger] hay@.subrange(k, k + m) != needle@,
        decreases n - m + 1 - i,
    {
        let mut j: usize = 0;
        let mut same = true;
        while j < m
            invariant
                n == hay@.len(),
                m == needle@.len(),
                i + m <= n,
                j <= m,
                same <==> (forall|q: int| 0 <= q < j ==> hay@[i + q] == needle@[q]),
            decreases m - j,
        {
            if hay[i + j] != needle[j] {
                same = false;
            }
            j = j + 1;
        }
        if same {
            assert(hay@.subrange(i as int, i + m) =~= needle@);
            return true;
        } else {
            let ghost q = choose|q: int| 0 <= q < m && hay@[i + q] != needle@[q];
            assert(hay@.subrange(i as int, i + m)[q] != needle@[q]);
        }
        i = i + 1;
    }
    false
}

} // verus!
