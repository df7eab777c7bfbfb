//! Character-level text primitives shared by every probe parser.
//!
//! Text is handled as a vector of `char`s; each operation is specified over
//! `Seq<char>` so that the parsers' contracts can speak of lines, fields and
//! numbers directly.
use vstd::prelude::*;

verus! {

/// The whitespace characters recognised by `char::is_whitespace`.
pub open spec fn is_ws(c: char) -> bool {
    let u = c as u32;
    (9 <= u <= 13) || u == 32 || u == 0x85 || u == 0xa0 || u == 0x1680 || (0x2000 <= u
        <= 0x200a) || u == 0x2028 || u == 0x2029 || u == 0x202f || u == 0x205f || u == 0x3000
}

pub fn is_space(c: char) -> (r: bool)
    ensures
        r == is_ws(c),
{
    let u = c as u32;
    (9 <= u && u <= 13) || u == 32 || u == 0x85 || u == 0xa0 || u == 0x1680 || (0x2000 <= u && u
        <= 0x200a) || u == 0x2028 || u == 0x2029 || u == 0x202f || u == 0x205f || u == 0x3000
}

/// Relies on `str::chars`: the characters of `s`, in order.
#[verifier::external_body]
pub(crate) fn chars_of(s: &str) -> (r: Vec<char>)
    ensures
        r@ == s@,
{
    s.chars().collect()
}

/// Relies on `String::from_iter`: the string made of the characters of `v`, in order.
#[verifier::external_body]
pub(crate) fn string_of(v: &[char]) -> (r: String)
    ensures
        r@ == v@,
{
    String::from_iter(v.iter())
}

/// The characters `from..to` of `s`, copied.
pub fn copy_range(s: &Vec<char>, from: usize, to: usize) -> (r: Vec<char>)
    requires
        from <= to <= s@.len(),
    ensures
        r@ == s@.subrange(from as int, to as int),
{
    let mut r: Vec<char> = Vec::new();
    let mut k: usize = from;
    while k < to
        invariant
            from <= k <= to <= s@.len(),
            r@ == s@.subrange(from as int, k as int),
        decreases to - k,
    {
        r.push(s[k]);
        k = k + 1;
        assert(r@ =~= s@.subrange(from as int, k as int));
    }
    r
}

/// `s` without its leading whitespace.
pub open spec fn trim_start(s: Seq<char>) -> Seq<char>
    decreases s.len(),
{
    if s.len() > 0 && is_ws(s[0]) {
        trim_start(s.drop_first())
    } else {
        s
    }
}

/// `s` without its trailing whitespace.
pub open spec fn trim_end(s: Seq<char>) -> Seq<char>
    decreases s.len(),
{
    if s.len() > 0 && is_ws(s.last()) {
        trim_end(s.drop_last())
    } else {
        s
    }
}

/// `s` without leading and trailing whitespace, as `str::trim` gives it.
pub open spec fn trim(s: Seq<char>) -> Seq<char> {
    trim_end(trim_start(s))
}

pub fn trimmed(s: &Vec<char>) -> (r: Vec<char>)
    ensures
        r@ == trim(s@),
{
    let n = s.len();
    let mut i: usize = 0;
    assert(s@.subrange(0, n as int) =~= s@);
    while i < n && is_space(s[i])
        invariant
            i <= n == s@.len(),
            trim_start(s@) == trim_start(s@.subrange(i as int, n as int)),
        decreases n - i,
    {
        assert(s@.subrange(i as int, n as int).drop_first() =~= s@.subrange(i + 1, n as int));
        i = i + 1;
    }
    let mut j: usize = n;
    while j > i && is_space(s[j - 1])
        invariant
            i <= j <= n == s@.len(),
            trim(s@) == trim_end(s@.subrange(i as int, j as int)),
        decreases j,
    {
        assert(s@.subrange(i as int, j as int).drop_last() =~= s@.subrange(i as int, j - 1));
        j = j - 1;
    }
    copy_range(s, i, j)
}

pub open spec fn is_digit(c: char) -> bool {
    48 <= (c as u32) <= 57
}

pub open spec fn digit_value(c: char) -> nat {
    ((c as u32) - 48) as nat
}

pub open spec fn all_digits(s: Seq<char>) -> bool {
    forall|i: int| 0 <= i < s.len() ==> is_digit(#[trigger] s[i])
}

/// The number that the decimal digits `s` write.
pub open spec fn digits_value(s: Seq<char>) -> nat
    decreases s.len(),
{
    if s.len() == 0 {
        0
    } else {
        digits_value(s.drop_last()) * 10 + digit_value(s.last())
    }
}

/// The digits of an unsigned number as `str::parse` reads it: one leading `+` is allowed.
pub open spec fn unsigned_digits(s: Seq<char>) -> Seq<char> {
    if s.len() > 0 && s[0] == '+' {
        s.drop_first()
    } else {
        s
    }
}

/// The value of an unsigned decimal number, if `s` is one.
pub open spec fn decimal(s: Seq<char>) -> Option<nat> {
    let d = unsigned_digits(s);
    if d.len() > 0 && all_digits(d) {
        Some(digits_value(d))
    } else {
        None
    }
}

/// The value of `s` as an unsigned integer type whose largest value is `max`.
pub open spec fn decimal_upto(s: Seq<char>, max: nat) -> Option<nat> {
    match decimal(s) {
        Some(v) => if v <= max {
            Some(v)
        } else {
            None
        },
        None => None,
    }
}

proof fn lemma_digits_value_prefix(s: Seq<char>, k: int)
    requires
        all_digits(s),
        0 <= k <= s.len(),
    ensures
        digits_value(s.subrange(0, k)) <= digits_value(s),
    decreases s.len(),
{
    if k < s.len() {
        let t = s.drop_last();
        assert(all_digits(t));
        assert(t.subrange(0, k) =~= s.subrange(0, k));
        lemma_digits_value_prefix(t, k);
    } else {
        assert(s.subrange(0, k) =~= s);
    }
}

/// Reads `s` as an unsigned decimal number no larger than `max`.
pub fn parse_unsigned(s: &Vec<char>, max: u64) -> (r: Option<u64>)
    ensures
        r matches Some(v) ==> decimal_upto(s@, max as nat) == Some(v as nat),
        r is None ==> decimal_upto(s@, max as nat) is None,
{
    let n = s.len();
    let start: usize = if n > 0 && s[0] == '+' {
        1
    } else {
        0
    };
    let ghost d = unsigned_digits(s@);
    assert(d =~= s@.subrange(start as int, n as int));
    if start >= n {
        return None;
    }
    let mut acc: u64 = 0;
    let mut k: usize = start;
    while k < n
        invariant
            start <= k <= n == s@.len(),
            d == s@.subrange(start as int, n as int),
            d == unsigned_digits(s@),
            acc <= max,
            all_digits(d.subrange(0, k - start)),
            acc as nat == digits_value(d.subrange(0, k - start)),
        decreases n - k,
    {
        let c = s[k];
        let u = c as u32;
        assert(d[k - start] == s@[k as int]);
        if !(48 <= u && u <= 57) {
            assert(!is_digit(d[k - start]));
            assert(!all_digits(d));
            return None;
        }
        let next: u128 = acc as u128 * 10 + (u - 48) as u128;
        assert(d.subrange(0, k + 1 - start).drop_last() =~= d.subrange(0, k - start));
        assert(all_digits(d.subrange(0, k + 1 - start)));
        assert(d.subrange(0, k + 1 - start).last() == c);
        assert(next == digits_value(d.subrange(0, k + 1 - start)));
        if next > max as u128 {
            proof {
                if all_digits(d) {
                    lemma_digits_value_prefix(d, k + 1 - start);
                }
            }
            return None;
        }
        acc = next as u64;
        k = k + 1;
    }
    assert(d.subrange(0, n - start) =~= d);
    Some(acc)
}

/// The pieces of `s` between the occurrences of `sep`, as `str::split` gives them.
pub open spec fn split(s: Seq<char>, sep: char) -> Seq<Seq<char>>
    decreases s.len(),
{
    if s.len() == 0 {
        seq![Seq::empty()]
    } else {
        let prev = split(s.drop_last(), sep);
        if s.last() == sep {
            prev.push(Seq::empty())
        } else {
            prev.update(prev.len() - 1, prev.last().push(s.last()))
        }
    }
}

pub open spec fn views(v: Seq<Vec<char>>) -> Seq<Seq<char>> {
    v.map_values(|x: Vec<char>| x@)
}

/// Splits `s` at every occurrence of `sep`.
pub fn split_on(s: &Vec<char>, sep: char) -> (r: Vec<Vec<char>>)
    ensures
        views(r@) == split(s@, sep),
{
    let mut r: Vec<Vec<char>> = Vec::new();
    r.push(Vec::new());
    assert(views(r@) =~= split(s@.subrange(0, 0), sep));
    let n = s.len();
    let mut k: usize = 0;
    while k < n
        invariant
            k <= n == s@.len(),
            r@.len() >= 1,
            views(r@) == split(s@.subrange(0, k as int), sep),
        decreases n - k,
    {
        let c = s[k];
        let ghost prev = views(r@);
        assert(s@.subrange(0, k + 1).drop_last() =~= s@.subrange(0, k as int));
        if c == sep {
            r.push(Vec::new());
            assert(views(r@) =~= prev.push(Seq::empty()));
        } else {
            let mut last = r.pop().unwrap();
            last.push(c);
            r.push(last);
            assert(views(r@) =~= prev.update(prev.len() - 1, prev.last().push(c)));
        }
        k = k + 1;
    }
    assert(s@.subrange(0, n as int) =~= s@);
    r
}

/// The maximal runs of non-whitespace characters of `s`, as `str::split_whitespace` gives them.
pub open spec fn tokens(s: Seq<char>) -> Seq<Seq<char>>
    decreases s.len(),
{
    if s.len() == 0 {
        Seq::empty()
    } else {
        let prev = tokens(s.drop_last());
        let c = s.last();
        if is_ws(c) {
            prev
        } else if s.len() >= 2 && !is_ws(s[s.len() - 2]) && prev.len() > 0 {
            prev.update(prev.len() - 1, prev.last().push(c))
        } else {
            prev.push(seq![c])
        }
    }
}

/// Splits `s` into its whitespace-separated tokens.
pub fn split_tokens(s: &Vec<char>) -> (r: Vec<Vec<char>>)
    ensures
        views(r@) == tokens(s@),
{
    let mut r: Vec<Vec<char>> = Vec::new();
    let n = s.len();
    let mut k: usize = 0;
    let mut in_token: bool = false;
    assert(views(r@) =~= tokens(s@.subrange(0, 0)));
    while k < n
        invariant
            k <= n == s@.len(),
            views(r@) == tokens(s@.subrange(0, k as int)),
            in_token == (k > 0 && !is_ws(s@[k - 1])),
            in_token ==> r@.len() > 0,
        decreases n - k,
    {
        let c = s[k];
        let ghost prev = views(r@);
        let ghost t = s@.subrange(0, k + 1);
        assert(t.drop_last() =~= s@.subrange(0, k as int));
        if is_space(c) {
            in_token = false;
        } else if in_token {
            assert(t[t.len() - 2] == s@[k - 1]);
            let mut last = r.pop().unwrap();
            last.push(c);
            r.push(last);
            assert(views(r@) =~= prev.update(prev.len() - 1, prev.last().push(c)));
        } else {
            let mut fresh: Vec<char> = Vec::new();
            fresh.push(c);
            r.push(fresh);
            assert(fresh@ =~= seq![c]);
            assert(views(r@) =~= prev.push(seq![c]));
            in_token = true;
        }
        k = k + 1;
    }
    assert(s@.subrange(0, n as int) =~= s@);
    r
}

/// Whether `s` begins with `p`.
pub open spec fn has_prefix(s: Seq<char>, p: Seq<char>) -> bool {
    p.len() <= s.len() && s.subrange(0, p.len() as int) == p
}

pub fn starts_with(s: &Vec<char>, p: &Vec<char>) -> (r: bool)
    ensures
        r == has_prefix(s@, p@),
{
    if p.len() > s.len() {
        return false;
    }
    let mut k: usize = 0;
    while k < p.len()
        invariant
            p@.len() <= s@.len(),
            k <= p@.len(),
            forall|j: int| 0 <= j < k ==> s@[j] == p@[j],
        decreases p.len() - k,
    {
        if s[k] != p[k] {
            assert(s@.subrange(0, p@.len() as int)[k as int] != p@[k as int]);
            return false;
        }
        k = k + 1;
    }
    assert(s@.subrange(0, p@.len() as int) =~= p@);
    true
}

/// Whether `p` occurs in `s` at position `i`.
pub open spec fn occurs_at(s: Seq<char>, p: Seq<char>, i: int) -> bool {
    0 <= i && i + p.len() <= s.len() && s.subrange(i, i + p.len()) == p
}

/// Whether `p` occurs anywhere in `s`, as `str::contains` tells it.
pub open spec fn has_infix(s: Seq<char>, p: Seq<char>) -> bool {
    exists|i: int| occurs_at(s, p, i)
}

pub fn contains(s: &Vec<char>, p: &Vec<char>) -> (r: bool)
    ensures
        r == has_infix(s@, p@),
{
    if p.len() > s.len() {
        return false;
    }
    if p.len() == 0 {
        assert(s@.subrange(0, 0) =~= p@);
        assert(occurs_at(s@, p@, 0));
        return true;
    }
    let n = s.len();
    let last = n - p.len();
    let mut i: usize = 0;
    while i <= last
        invariant
            last + p@.len() == s@.len() == n,
            p@.len() > 0,
            forall|j: int| 0 <= j < i ==> !occurs_at(s@, p@, j),
        decreases last + 1 - i,
    {
        let mut k: usize = 0;
        let mut same: bool = true;
        while k < p.len()
            invariant
                i <= last,
                last + p@.len() == s@.len() == n,
                k <= p@.len(),
                same == (forall|j: int| 0 <= j < k ==> s@[i + j] == p@[j]),
            decreases p.len() - k,
        {
            if s[i + k] != p[k] {
                same = false;
            }
            k = k + 1;
        }
        if same {
            assert(s@.subrange(i as int, i + p@.len()) =~= p@);
            assert(occurs_at(s@, p@, i as int));
            return true;
        }
        assert(!occurs_at(s@, p@, i as int)) by {
            if occurs_at(s@, p@, i as int) {
                assert forall|j: int| 0 <= j < p@.len() implies s@[i + j] == p@[j] by {
                    assert(s@.subrange(i as int, i + p@.len())[j] == s@[i + j]);
                }
            }
        }
        i = i + 1;
    }
    false
}

} // verus!

verus! {

/// Whether `a` and `b` hold the same characters.
pub fn same_chars(a: &Vec<char>, b: &Vec<char>) -> (r: bool)
    ensures
        r == (a@ == b@),
{
    if a.len() != b.len() {
        return false;
    }
    let r = starts_with(a, b);
    proof {
        assert(a@.subrange(0, b@.len() as int) =~= a@);
    }
    r
}

/// The view of an optional string.
pub open spec fn opt_view(o: Option<String>) -> Option<Seq<char>> {
    match o {
        Some(s) => Some(s@),
        None => None,
    }
}

} // verus!

verus! {

/// The character of the decimal digit `d`.
pub open spec fn digit_char(d: nat) -> char {
    if d == 0 { '0' }
    else if d == 1 { '1' }
    else if d == 2 { '2' }
    else if d == 3 { '3' }
    else if d == 4 { '4' }
    else if d == 5 { '5' }
    else if d == 6 { '6' }
    else if d == 7 { '7' }
    else if d == 8 { '8' }
    else { '9' }
}

/// The shortest decimal writing of `n`.
pub open spec fn decimal_text(n: nat) -> Seq<char>
    decreases n,
{
    if n < 10 {
        seq![digit_char(n)]
    } else {
        decimal_text(n / 10).push(digit_char(n % 10))
    }
}

pub proof fn lemma_decimal_text(n: nat)
    ensures
        decimal_text(n).len() > 0,
        all_digits(decimal_text(n)),
        digits_value(decimal_text(n)) == n,
        !is_ws(decimal_text(n)[0]),
        !is_ws(decimal_text(n).last()),
        decimal_text(n)[0] != '+',
    decreases n,
{
    if n >= 10 {
        lemma_decimal_text(n / 10);
        let s = decimal_text(n);
        assert(s.drop_last() =~= decimal_text(n / 10));
        assert(n == (n / 10) * 10 + n % 10);
        assert(digit_value(digit_char(n % 10)) == n % 10);
        assert(digits_value(s) == digits_value(s.drop_last()) * 10 + digit_value(s.last()));
        assert(digits_value(s) == (n / 10) * 10 + n % 10);
    } else {
        assert(digit_value(digit_char(n)) == n);
        assert(decimal_text(n).drop_last() =~= Seq::<char>::empty());
        assert(digits_value(Seq::<char>::empty()) == 0);
    }
}

/// Trimming and reading back the decimal writing of `n` gives `n`.
pub proof fn lemma_decimal_text_reads_back(n: nat)
    ensures
        trim(decimal_text(n)) == decimal_text(n),
        decimal(decimal_text(n)) == Some(n),
{
    lemma_decimal_text(n);
}

} // verus!

verus! {

/// The first of `lines` in which `key` occurs.
pub open spec fn first_containing(lines: Seq<Seq<char>>, key: Seq<char>) -> Option<Seq<char>>
    decreases lines.len(),
{
    if lines.len() == 0 {
        None
    } else if has_infix(lines[0], key) {
        Some(lines[0])
    } else {
        first_containing(lines.drop_first(), key)
    }
}

pub fn find_containing(lines: &Vec<Vec<char>>, key: &Vec<char>) -> (r: Option<Vec<char>>)
    ensures
        match r {
            Some(l) => first_containing(views(lines@), key@) == Some(l@),
            None => first_containing(views(lines@), key@) is None,
        },
{
    let n = lines.len();
    let mut i: usize = 0;
    assert(views(lines@).subrange(0, n as int) =~= views(lines@));
    while i < n
        invariant
            i <= n == lines@.len(),
            first_containing(views(lines@), key@) == first_containing(
                views(lines@).subrange(i as int, n as int),
                key@,
            ),
        decreases n - i,
    {
        let line = &lines[i];
        let ghost rest = views(lines@).subrange(i as int, n as int);
        assert(rest[0] == line@);
        assert(rest.drop_first() =~= views(lines@).subrange(i + 1, n as int));
        if contains(line, key) {
            return Some(copy_range(line, 0, line.len()));
        }
        i = i + 1;
    }
    None
}

/// `s` without any occurrence of `c`.
pub open spec fn without_char(s: Seq<char>, c: char) -> Seq<char>
    decreases s.len(),
{
    if s.len() == 0 {
        s
    } else if s.last() == c {
        without_char(s.drop_last(), c)
    } else {
        without_char(s.drop_last(), c).push(s.last())
    }
}

pub fn remove_char(s: &Vec<char>, c: char) -> (r: Vec<char>)
    ensures
        r@ == without_char(s@, c),
{
    let mut r: Vec<char> = Vec::new();
    let n = s.len();
    let mut k: usize = 0;
    assert(s@.subrange(0, 0) =~= Seq::<char>::empty());
    while k < n
        invariant
            k <= n == s@.len(),
            r@ == without_char(s@.subrange(0, k as int), c),
        decreases n - k,
    {
        assert(s@.subrange(0, k + 1).drop_last() =~= s@.subrange(0, k as int));
        if s[k] != c {
            r.push(s[k]);
        }
        k = k + 1;
    }
    assert(s@.subrange(0, n as int) =~= s@);
    r
}

/// The trimmed text between the first and the second `:` of `line`, or
/// nothing where `line` holds no `:`.
pub open spec fn colon_value(line: Seq<char>) -> Seq<char> {
    let parts = split(line, ':');
    if parts.len() > 1 {
        trim(parts[1])
    } else {
        Seq::empty()
    }
}

pub fn value_after_colon(line: &Vec<char>) -> (r: Vec<char>)
    ensures
        r@ == colon_value(line@),
{
    let parts = split_on(line, ':');
    if parts.len() > 1 {
        trimmed(&parts[1])
    } else {
        Vec::new()
    }
}

} // verus!

verus! {

proof fn lemma_split_nonempty(s: Seq<char>, sep: char)
    ensures
        split(s, sep).len() >= 1,
    decreases s.len(),
{
    if s.len() > 0 {
        lemma_split_nonempty(s.drop_last(), sep);
    }
}

/// Text without `sep` is one piece.
pub proof fn lemma_split_without_sep(a: Seq<char>, sep: char)
    requires
        !a.contains(sep),
    ensures
        split(a, sep) == seq![a],
    decreases a.len(),
{
    if a.len() > 0 {
        assert(!a.drop_last().contains(sep)) by {
            if a.drop_last().contains(sep) {
                let i = choose|i: int| 0 <= i < a.drop_last().len() && a.drop_last()[i] == sep;
                assert(a[i] == sep);
            }
        }
        lemma_split_without_sep(a.drop_last(), sep);
        assert(a.last() != sep) by {
            assert(a[a.len() - 1] == a.last());
        }
        assert(a.drop_last().push(a.last()) =~= a);
        assert(seq![a.drop_last()].update(0, a.drop_last().push(a.last())) =~= seq![a]);
    } else {
        assert(a =~= Seq::<char>::empty());
    }
}

/// A first piece without `sep`, then `sep`, then `c`: the first piece, then
/// the pieces of `c`.
pub proof fn lemma_split_after_sep(a: Seq<char>, c: Seq<char>, sep: char)
    requires
        !a.contains(sep),
    ensures
        split(a.push(sep) + c, sep) == seq![a] + split(c, sep),
    decreases c.len(),
{
    lemma_split_without_sep(a, sep);
    if c.len() == 0 {
        assert(a.push(sep) + c =~= a.push(sep));
        assert(a.push(sep).drop_last() =~= a);
        assert(seq![a].push(Seq::<char>::empty()) =~= seq![a] + seq![Seq::<char>::empty()]);
    } else {
        let t = a.push(sep) + c;
        assert(t.drop_last() =~= a.push(sep) + c.drop_last());
        assert(t.last() == c.last());
        lemma_split_after_sep(a, c.drop_last(), sep);
        lemma_split_nonempty(c.drop_last(), sep);
        let p = split(c.drop_last(), sep);
        if c.last() == sep {
            assert((seq![a] + p).push(Seq::<char>::empty()) =~= seq![a] + p.push(Seq::<char>::empty()));
        } else {
            assert((seq![a] + p).update(p.len() as int, p.last().push(c.last())) =~= seq![a] + p.update(
                p.len() - 1,
                p.last().push(c.last()),
            ));
        }
    }
}

} // verus!
