//! Small verified string utilities: equality, substring search, splitting,
//! trimming, and decimal rendering, all specified over `Seq<char>` views.
use vstd::prelude::*;
use vstd::string::StrSliceExecFns;

verus! {

/// Relies on `String::push`: appends exactly the one character to the end.
#[verifier::external_body]
pub fn push_char(s: &mut String, c: char)
    ensures
        final(s)@ == old(s)@.push(c),
{
    s.push(c);
}

/// The character sequence an optional string slice holds.
pub open spec fn opt_str_view(o: Option<&str>) -> Option<Seq<char>> {
    match o {
        Some(s) => Some(s@),
        None => None,
    }
}

/// The character sequence an optional owned string holds.
pub open spec fn opt_string_view(o: Option<String>) -> Option<Seq<char>> {
    match o {
        Some(s) => Some(s@),
        None => None,
    }
}

/// Character-wise string equality.
pub fn str_eq(a: &str, b: &str) -> (r: bool)
    ensures
        r == (a@ == b@),
{
    let la = a.unicode_len();
    let lb = b.unicode_len();
    if la != lb {
        return false;
    }
    let mut i: usize = 0;
    while i < la
        invariant
            i <= la,
            la == a@.len(),
            la == b@.len(),
            forall|j: int| 0 <= j < i ==> a@[j] == b@[j],
        decreases la - i,
    {
        if a.get_char(i) != b.get_char(i) {
            return false;
        }
        i += 1;
    }
    proof {
        assert(a@ =~= b@);
    }
    true
}

/// Index of the first occurrence of `sep` at or after `start`, if any.
pub fn find_char_from(s: &str, start: usize, sep: char) -> (r: Option<usize>)
    requires
        start <= s@.len(),
    ensures
        (match r {
            Some(i) => start <= i < s@.len() && s@[i as int] == sep && (forall|j: int|
                start <= j < i ==> s@[j] != sep),
            None => forall|j: int| start <= j < s@.len() ==> s@[j] != sep,
        }),
{
    let n = s.unicode_len();
    let mut i: usize = start;
    while i < n
        invariant
            start <= i <= n,
            n == s@.len(),
            forall|j: int| start <= j < i ==> s@[j] != sep,
        decreases n - i,
    {
        if s.get_char(i) == sep {
            return Some(i);
        }
        i += 1;
    }
    None
}

/// `needle` occurs as a contiguous run inside `hay` (the empty sequence
/// occurs in everything).
pub open spec fn seq_contains_sub(hay: Seq<char>, needle: Seq<char>) -> bool {
    exists|i: int|
        0 <= i <= hay.len() - needle.len() && #[trigger] hay.subrange(i, i + needle.len() as int)
            == needle
}

/// Substring search by scanning every start position.
pub fn str_contains(hay: &str, needle: &str) -> (r: bool)
    ensures
        r == seq_contains_sub(hay@, needle@),
{
    let nh = hay.unicode_len();
    let nn = needle.unicode_len();
    if nn == 0 {
        proof {
            assert(hay@.subrange(0, 0 + needle@.len() as int) =~= needle@);
        }
        return true;
    }
    if nn > nh {
        return false;
    }
    let mut i: usize = 0;
    loop
        invariant
            1 <= nn <= nh,
            i <= nh - nn + 1,
            nh == hay@.len(),
            nn == needle@.len(),
            forall|k: int|
                0 <= k < i ==> #[trigger] hay@.subrange(k, k + needle@.len() as int) != needle@,
        decreases nh - i,
    {
        if i > nh - nn {
            return false;
        }
        let mut j: usize = 0;
        let mut matches: bool = true;
        while j < nn
            invariant
                i + nn <= nh,
                j <= nn,
                nh == hay@.len(),
                nn == needle@.len(),
                matches ==> forall|m: int| 0 <= m < j ==> hay@[i + m] == needle@[m],
                !matches ==> hay@.subrange(i as int, i + needle@.len() as int) != needle@,
            decreases nn - j,
        {
            if hay.get_char(i + j) != needle.get_char(j) {
                proof {
                    assert(hay@.subrange(i as int, i + needle@.len() as int)[j as int] == hay@[i
                        + j]);
                }
                matches = false;
                j = nn;
            } else {
                j += 1;
            }
        }
        if matches {
            proof {
                assert(hay@.subrange(i as int, i + needle@.len() as int) =~= needle@);
            }
            return true;
        }
        i += 1;
    }
}

/// Index of the first occurrence of `sep` in `s`, or -1 if there is none.
pub open spec fn first_index_of(s: Seq<char>, sep: char) -> int
    decreases s.len(),
{
    if s.len() == 0 {
        -1
    } else if s[0] == sep {
        0
    } else {
        let r = first_index_of(s.drop_first(), sep);
        if r == -1 {
            -1
        } else {
            r + 1
        }
    }
}

/// What `first_index_of` returns: either -1 and no occurrence, or the least
/// index holding `sep`.
pub proof fn lemma_first_index_of(s: Seq<char>, sep: char)
    ensures
        first_index_of(s, sep) == -1 ==> forall|j: int| 0 <= j < s.len() ==> s[j] != sep,
        first_index_of(s, sep) != -1 ==> {
            let r = first_index_of(s, sep);
            &&& 0 <= r < s.len()
            &&& s[r] == sep
            &&& forall|j: int| 0 <= j < r ==> s[j] != sep
        },
    decreases s.len(),
{
    if s.len() == 0 {
    } else if s[0] == sep {
    } else {
        lemma_first_index_of(s.drop_first(), sep);
        assert forall|j: int| 1 <= j < s.len() implies s[j] == s.drop_first()[j - 1] by {}
    }
}

/// The converse direction: a least occurrence pins `first_index_of` down.
pub proof fn lemma_first_index_of_exact(s: Seq<char>, sep: char, k: int)
    requires
        0 <= k < s.len(),
        s[k] == sep,
        forall|j: int| 0 <= j < k ==> s[j] != sep,
    ensures
        first_index_of(s, sep) == k,
    decreases s.len(),
{
    if k == 0 {
    } else {
        assert forall|j: int| 0 <= j < k - 1 implies s.drop_first()[j] != sep by {
            assert(s.drop_first()[j] == s[j + 1]);
        }
        assert(s.drop_first()[k - 1] == s[k]);
        lemma_first_index_of_exact(s.drop_first(), sep, k - 1);
    }
}

/// Splitting on a separator character: the segments between occurrences, in
/// order; a string without the separator is a single segment.
pub open spec fn spec_split_on(s: Seq<char>, sep: char) -> Seq<Seq<char>>
    decreases s.len(),
    via spec_split_on_decreases
{
    let i = first_index_of(s, sep);
    if i == -1 {
        seq![s]
    } else {
        seq![s.subrange(0, i)] + spec_split_on(s.subrange(i + 1, s.len() as int), sep)
    }
}

#[via_fn]
proof fn spec_split_on_decreases(s: Seq<char>, sep: char) {
    lemma_first_index_of(s, sep);
}

/// Splits `s` on every occurrence of `sep`.
pub fn split_on<'a>(s: &'a str, sep: char) -> (r: Vec<&'a str>)
    ensures
        r@.map_values(|t: &str| t@) == spec_split_on(s@, sep),
{
    let n = s.unicode_len();
    let mut r: Vec<&'a str> = Vec::new();
    let mut start: usize = 0;
    proof {
        assert(s@.subrange(0, n as int) =~= s@);
        assert(r@.map_values(|t: &str| t@) + spec_split_on(s@.subrange(0, n as int), sep)
            =~= spec_split_on(s@, sep));
    }
    loop
        invariant
            start <= n,
            n == s@.len(),
            r@.map_values(|t: &str| t@) + spec_split_on(s@.subrange(start as int, n as int), sep)
                =~= spec_split_on(s@, sep),
        decreases n - start,
    {
        let ghost tail = s@.subrange(start as int, n as int);
        match find_char_from(s, start, sep) {
            None => {
                proof {
                    assert forall|j: int| 0 <= j < tail.len() implies tail[j] != sep by {
                        assert(tail[j] == s@[start + j]);
                    }
                    lemma_first_index_of(tail, sep);
                    if first_index_of(tail, sep) != -1 {
                        assert(tail[first_index_of(tail, sep)] == sep);
                    }
                    assert(spec_split_on(tail, sep) == seq![tail]);
                }
                let seg = s.substring_char(start, n);
                let ghost before = r@.map_values(|t: &str| t@);
                r.push(seg);
                proof {
                    assert(r@.map_values(|t: &str| t@) =~= before.push(seg@));
                    assert(before.push(seg@) =~= before + seq![tail]);
                    assert(r@.map_values(|t: &str| t@) =~= spec_split_on(s@, sep));
                }
                return r;
            },
            Some(i) => {
                proof {
                    assert(tail[i - start] == sep);
                    assert forall|j: int| 0 <= j < i - start implies tail[j] != sep by {
                        assert(tail[j] == s@[start + j]);
                    }
                    lemma_first_index_of_exact(tail, sep, i - start);
                    assert(tail.subrange(0, i - start) =~= s@.subrange(start as int, i as int));
                    assert(tail.subrange(i - start + 1, tail.len() as int) =~= s@.subrange(
                        i + 1,
                        n as int,
                    ));
                }
                let seg = s.substring_char(start, i);
                let ghost before = r@.map_values(|t: &str| t@);
                r.push(seg);
                proof {
                    assert(r@.map_values(|t: &str| t@) =~= before.push(seg@));
                    assert(spec_split_on(tail, sep) == seq![seg@] + spec_split_on(
                        s@.subrange(i + 1, n as int),
                        sep,
                    ));
                    assert(before.push(seg@) + spec_split_on(s@.subrange(i + 1, n as int), sep)
                        =~= before + spec_split_on(tail, sep));
                    assert(r@.map_values(|t: &str| t@) + spec_split_on(
                        s@.subrange(i + 1, n as int),
                        sep,
                    ) =~= spec_split_on(s@, sep));
                }
                start = i + 1;
            },
        }
    }
}

/// An ASCII whitespace character: space, tab, line feed or carriage return.
pub open spec fn is_space(c: char) -> bool {
    c == ' ' || c == '\t' || c == '\n' || c == '\r'
}

/// `s` with ASCII whitespace removed from both ends.
pub open spec fn spec_trim(s: Seq<char>) -> Seq<char>
    decreases s.len(),
{
    if s.len() == 0 {
        s
    } else if is_space(s[0]) {
        spec_trim(s.drop_first())
    } else if is_space(s.last()) {
        spec_trim(s.drop_last())
    } else {
        s
    }
}

proof fn lemma_trim_subrange(s: Seq<char>, lo: int, hi: int)
    requires
        0 <= lo < hi <= s.len(),
        forall|j: int| 0 <= j < lo ==> is_space(s[j]),
        forall|j: int| hi <= j < s.len() ==> is_space(s[j]),
        !is_space(s[lo]),
        !is_space(s[hi - 1]),
    ensures
        spec_trim(s) == s.subrange(lo, hi),
    decreases s.len(),
{
    if is_space(s[0]) {
        assert(lo > 0);
        assert forall|j: int| 0 <= j < lo - 1 implies is_space(s.drop_first()[j]) by {
            assert(s.drop_first()[j] == s[j + 1]);
        }
        assert forall|j: int| hi - 1 <= j < s.drop_first().len() implies is_space(
            s.drop_first()[j],
        ) by {
            assert(s.drop_first()[j] == s[j + 1]);
        }
        lemma_trim_subrange(s.drop_first(), lo - 1, hi - 1);
        assert(s.drop_first().subrange(lo - 1, hi - 1) =~= s.subrange(lo, hi));
    } else if is_space(s.last()) {
        assert(hi < s.len());
        assert forall|j: int| hi <= j < s.drop_last().len() implies is_space(s.drop_last()[j]) by {
            assert(s.drop_last()[j] == s[j]);
        }
        lemma_trim_subrange(s.drop_last(), lo, hi);
        assert(s.drop_last().subrange(lo, hi) =~= s.subrange(lo, hi));
    } else {
        assert(lo == 0);
        assert(hi == s.len());
        assert(spec_trim(s) =~= s.subrange(lo, hi));
    }
}

proof fn lemma_trim_all_space(s: Seq<char>)
    requires
        forall|j: int| 0 <= j < s.len() ==> is_space(s[j]),
    ensures
        spec_trim(s) == Seq::<char>::empty(),
    decreases s.len(),
{
    if s.len() == 0 {
        assert(spec_trim(s) =~= Seq::<char>::empty());
    } else {
        assert forall|j: int| 0 <= j < s.drop_first().len() implies is_space(s.drop_first()[j]) by {
            assert(s.drop_first()[j] == s[j + 1]);
        }
        lemma_trim_all_space(s.drop_first());
    }
}

fn is_space_exec(c: char) -> (r: bool)
    ensures
        r == is_space(c),
{
    c == ' ' || c == '\t' || c == '\n' || c == '\r'
}

/// Removes leading and trailing ASCII whitespace.
pub fn trim_spaces<'a>(s: &'a str) -> (r: &'a str)
    ensures
        r@ == spec_trim(s@),
{
    let n = s.unicode_len();
    let mut lo: usize = 0;
    while lo < n && is_space_exec(s.get_char(lo))
        invariant
            lo <= n,
            n == s@.len(),
            forall|j: int| 0 <= j < lo ==> is_space(s@[j]),
        decreases n - lo,
    {
        lo += 1;
    }
    if lo == n {
        proof {
            lemma_trim_all_space(s@);
        }
        let r = s.substring_char(n, n);
        proof {
            assert(r@ =~= spec_trim(s@));
        }
        return r;
    }
    let mut hi: usize = n;
    while hi > lo && is_space_exec(s.get_char(hi - 1))
        invariant
            lo <= hi <= n,
            n == s@.len(),
            forall|j: int| hi <= j < n ==> is_space(s@[j]),
        decreases hi,
    {
        hi -= 1;
    }
    proof {
        assert(!is_space(s@[lo as int]));
        assert(hi > lo);
        lemma_trim_subrange(s@, lo as int, hi as int);
    }
    s.substring_char(lo, hi)
}

/// The decimal digit character for a value below ten.
pub open spec fn digit_char(d: int) -> char {
    if d == 0 {
        '0'
    } else if d == 1 {
        '1'
    } else if d == 2 {
        '2'
    } else if d == 3 {
        '3'
    } else if d == 4 {
        '4'
    } else if d == 5 {
        '5'
    } else if d == 6 {
        '6'
    } else if d == 7 {
        '7'
    } else if d == 8 {
        '8'
    } else {
        '9'
    }
}

/// The usual decimal rendering of a non-negative integer, without leading
/// zeros (except for zero itself).
pub open spec fn spec_decimal(n: int) -> Seq<char>
    decreases n,
{
    if n < 10 {
        seq![digit_char(n)]
    } else {
        spec_decimal(n / 10) + seq![digit_char(n % 10)]
    }
}

fn digit_char_exec(d: u32) -> (r: char)
    requires
        d < 10,
    ensures
        r == digit_char(d as int),
{
    match d {
        0 => '0',
        1 => '1',
        2 => '2',
        3 => '3',
        4 => '4',
        5 => '5',
        6 => '6',
        7 => '7',
        8 => '8',
        _ => '9',
    }
}

fn push_decimal(out: &mut String, x: u32)
    ensures
        final(out)@ == old(out)@ + spec_decimal(x as int),
    decreases x,
{
    if x < 10 {
        push_char(out, digit_char_exec(x));
        proof {
            assert(old(out)@ + spec_decimal(x as int) =~= old(out)@.push(digit_char(x as int)));
        }
    } else {
        push_decimal(out, x / 10);
        push_char(out, digit_char_exec(x % 10));
        proof {
            assert(old(out)@ + spec_decimal(x as int) =~= (old(out)@ + spec_decimal(
                x as int / 10,
            )).push(digit_char(x as int % 10)));
        }
    }
}

/// Renders `x` in decimal.
pub fn u32_to_decimal(x: u32) -> (r: String)
    ensures
        r@ == spec_decimal(x as int),
{
    let mut out = String::new();
    push_decimal(&mut out, x);
    proof {
        assert(Seq::<char>::empty() + spec_decimal(x as int) =~= spec_decimal(x as int));
    }
    out
}

} // verus!
