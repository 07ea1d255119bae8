use vstd::prelude::*;

verus! {

/// `s` ends with the character `c`.
pub open spec fn ends_with_char(s: Seq<char>, c: char) -> bool {
    s.len() > 0 && s.last() == c
}

/// `s` starts with the character `c`.
pub open spec fn starts_with_char(s: Seq<char>, c: char) -> bool {
    s.len() > 0 && s[0] == c
}

/// Whether `s` ends with `c`.
pub fn str_ends_with_char(s: &str, c: char) -> (r: bool)
    ensures
        r == ends_with_char(s@, c),
{
    let n = s.unicode_len();
    n > 0 && s.get_char(n - 1) == c
}

/// Whether `s` starts with `c`.
pub fn str_starts_with_char(s: &str, c: char) -> (r: bool)
    ensures
        r == starts_with_char(s@, c),
{
    let n = s.unicode_len();
    n > 0 && s.get_char(0) == c
}

} // verus!

verus! {

/// The characters of `s`, in order.
pub fn chars_of(s: &str) -> (r: Vec<char>)
    ensures
        r@ == s@,
{
    let mut out: Vec<char> = Vec::new();
    for c in it: s.chars()
        invariant
            out@ == it.seq().take(it.index()),
    {
        out.push(c);
    }
    out
}

} // verus!

verus! {

/// What `str::replace` gives for the pattern `p`: every occurrence of `p`,
/// taken from left to right without overlap, is replaced by `r`.  An empty
/// pattern matches before every character and at the end.
pub open spec fn replaced(s: Seq<char>, p: Seq<char>, r: Seq<char>) -> Seq<char>
    decreases s.len(),
{
    if p.len() == 0 {
        interleaved(s, r)
    } else if s.len() < p.len() {
        s
    } else if s.take(p.len() as int) == p {
        r + replaced(s.skip(p.len() as int), p, r)
    } else {
        seq![s[0]] + replaced(s.skip(1), p, r)
    }
}

/// `r` before every character of `s` and once more at the end.
pub open spec fn interleaved(s: Seq<char>, r: Seq<char>) -> Seq<char>
    decreases s.len(),
{
    if s.len() == 0 {
        r
    } else {
        r + seq![s[0]] + interleaved(s.skip(1), r)
    }
}

/// Whether `p` occurs in `s` starting at index `i`.
pub open spec fn occurs_at(s: Seq<char>, p: Seq<char>, i: int) -> bool {
    0 <= i && i + p.len() <= s.len() && s.subrange(i, i + p.len()) == p
}

/// Whether `p` occurs at index `i` of `s`.
fn matches_at(s: &Vec<char>, p: &Vec<char>, i: usize) -> (r: bool)
    ensures
        r == occurs_at(s@, p@, i as int),
{
    if i > s.len() || p.len() > s.len() - i {
        return false;
    }
    let mut j: usize = 0;
    while j < p.len()
        invariant
            i + p@.len() <= s@.len(),
            i + p.len() <= s.len(),
            j <= p@.len(),
            forall|k: int| 0 <= k < j ==> s@[i + k] == p@[k],
        decreases p@.len() - j,
    {
        if s[i + j] != p[j] {
            assert(s@.subrange(i as int, i + p@.len())[j as int] != p@[j as int]);
            return false;
        }
        j = j + 1;
    }
    assert(s@.subrange(i as int, i + p@.len()) =~= p@);
    true
}

/// The characters of `s` from index `from` to index `to`.
fn slice_of(s: &str, from: usize, to: usize) -> (r: &str)
    requires
        from <= to <= s@.len(),
    ensures
        r@ == s@.subrange(from as int, to as int),
{
    s.substring_char(from, to)
}

/// `s` with every occurrence of `p` replaced by `r`, as `str::replace`
/// does it.
pub fn replace_all(s: &str, p: &str, r: &str) -> (out: String)
    ensures
        out@ == replaced(s@, p@, r@),
{
    let sv = chars_of(s);
    let pv = chars_of(p);
    let n = sv.len();
    let mut out = String::new();
    let mut i: usize = 0;
    assert(s@.skip(0) =~= s@);
    assert(out@ + replaced(s@, p@, r@) =~= replaced(s@, p@, r@));
    if pv.len() == 0 {
        while i < n
            invariant
                n == s@.len(),
                sv@ == s@,
                p@.len() == 0,
                i <= n,
                out@ + interleaved(s@.skip(i as int), r@) == replaced(s@, p@, r@),
            decreases n - i,
        {
            out.append(r);
            out.append(slice_of(s, i, i + 1));
            proof {
                assert(s@.skip(i as int).skip(1) =~= s@.skip(i + 1));
                assert(s@.subrange(i as int, i + 1) =~= seq![s@.skip(i as int)[0]]);
                assert(out@ + interleaved(s@.skip(i + 1), r@) =~= replaced(s@, p@, r@));
            }
            i = i + 1;
        }
        out.append(r);
        proof {
            assert(s@.skip(i as int) =~= Seq::<char>::empty());
        }
        return out;
    }
    while i < n
        invariant
            n == s@.len(),
            sv@ == s@,
            pv@ == p@,
            p@.len() > 0,
            i <= n,
            out@ + replaced(s@.skip(i as int), p@, r@) == replaced(s@, p@, r@),
        decreases n - i,
    {
        let ghost rest = s@.skip(i as int);
        if matches_at(&sv, &pv, i) {
            let m = pv.len();
            proof {
                assert(rest.take(p@.len() as int) =~= s@.subrange(i as int, i + p@.len()));
                assert(rest.skip(p@.len() as int) =~= s@.skip(i + m));
            }
            out.append(r);
            proof {
                assert(out@ + replaced(s@.skip(i + m), p@, r@) =~= replaced(s@, p@, r@));
            }
            i = i + m;
        } else {
            proof {
                if rest.len() >= p@.len() {
                    assert(rest.take(p@.len() as int) =~= s@.subrange(i as int, i + p@.len()));
                    assert(rest.take(p@.len() as int) != p@);
                } else {
                    assert(rest.skip(1).len() < p@.len());
                    assert(replaced(rest, p@, r@) == rest);
                    assert(replaced(rest.skip(1), p@, r@) == rest.skip(1));
                    assert(rest =~= seq![rest[0]] + rest.skip(1));
                }
                assert(rest.skip(1) =~= s@.skip(i + 1));
                assert(s@.subrange(i as int, i + 1) =~= seq![rest[0]]);
            }
            out.append(slice_of(s, i, i + 1));
            proof {
                assert(out@ + replaced(s@.skip(i + 1), p@, r@) =~= replaced(s@, p@, r@));
            }
            i = i + 1;
        }
    }
    proof {
        assert(s@.skip(i as int) =~= Seq::<char>::empty());
        assert(out@ =~= replaced(s@, p@, r@));
    }
    out
}

} // verus!

verus! {

/// Whether `a` and `b` hold the same characters.
pub fn same_text(a: &str, b: &str) -> (r: bool)
    ensures
        r == (a@ == b@),
{
    let av = chars_of(a);
    let bv = chars_of(b);
    if av.len() != bv.len() {
        return false;
    }
    let mut i: usize = 0;
    while i < av.len()
        invariant
            av@ == a@,
            bv@ == b@,
            av@.len() == bv@.len(),
            i <= av@.len(),
            forall|k: int| 0 <= k < i ==> av@[k] == bv@[k],
        decreases av@.len() - i,
    {
        if av[i] != bv[i] {
            return false;
        }
        i = i + 1;
    }
    assert(a@ =~= b@);
    true
}

/// The part of `s` after its last `/`; all of `s` when it holds none.
pub open spec fn last_segment(s: Seq<char>) -> Seq<char>
    decreases s.len(),
{
    if s.len() == 0 {
        s
    } else if s.last() == '/' {
        Seq::empty()
    } else {
        last_segment(s.drop_last()).push(s.last())
    }
}

/// The last segment of `s` when split at `/`, as `s.split("/").last()`
/// gives it.
pub fn last_segment_of(s: &str) -> (r: String)
    ensures
        r@ == last_segment(s@),
{
    let sv = chars_of(s);
    let n = sv.len();
    let mut j: usize = n;
    assert(s@.take(n as int) =~= s@);
    assert(s@.subrange(n as int, n as int) =~= Seq::<char>::empty());
    assert(last_segment(s@) =~= last_segment(s@.take(j as int)) + s@.subrange(j as int, n as int));
    while j > 0 && sv[j - 1] != '/'
        invariant
            sv@ == s@,
            n == s@.len(),
            j <= n,
            last_segment(s@) == last_segment(s@.take(j as int)) + s@.subrange(j as int, n as int),
        decreases j,
    {
        proof {
            let t = s@.take(j as int);
            assert(t.drop_last() =~= s@.take(j - 1));
            assert(t.last() == s@[j - 1]);
            assert(s@.subrange(j - 1, n as int) =~= seq![s@[j - 1]] + s@.subrange(j as int, n as int));
            assert(last_segment(t) == last_segment(s@.take(j - 1)).push(s@[j - 1]));
            assert(last_segment(s@) =~= last_segment(s@.take(j - 1)) + s@.subrange(j - 1, n as int));
        }
        j = j - 1;
    }
    proof {
        let t = s@.take(j as int);
        if j > 0 {
            assert(t.last() == '/');
        }
        assert(last_segment(t) =~= Seq::<char>::empty());
        assert(last_segment(s@) =~= s@.subrange(j as int, n as int));
    }
    s.substring_char(j, n).to_owned()
}

} // verus!

verus! {

/// Replacing a pattern that does not occur leaves the string unchanged.
pub proof fn lemma_replace_absent(s: Seq<char>, p: Seq<char>, r: Seq<char>)
    requires
        p.len() > 0,
        forall|i: int| !occurs_at(s, p, i),
    ensures
        replaced(s, p, r) == s,
    decreases s.len(),
{
    if s.len() >= p.len() {
        assert(s.take(p.len() as int) =~= s.subrange(0, p.len() as int));
        assert(!occurs_at(s, p, 0));
        assert forall|i: int| !occurs_at(s.skip(1), p, i) by {
            if occurs_at(s.skip(1), p, i) {
                assert(s.skip(1).subrange(i, i + p.len()) =~= s.subrange(i + 1, i + 1 + p.len()));
                assert(occurs_at(s, p, i + 1));
            }
        }
        lemma_replace_absent(s.skip(1), p, r);
        assert(s =~= seq![s[0]] + s.skip(1));
    }
}

/// Replacing a pattern by itself leaves the string unchanged.
pub proof fn lemma_replace_by_itself(s: Seq<char>, p: Seq<char>)
    requires
        p.len() > 0,
    ensures
        replaced(s, p, p) == s,
    decreases s.len(),
{
    if s.len() >= p.len() {
        if s.take(p.len() as int) == p {
            lemma_replace_by_itself(s.skip(p.len() as int), p);
            assert(s =~= p + s.skip(p.len() as int));
        } else {
            lemma_replace_by_itself(s.skip(1), p);
            assert(s =~= seq![s[0]] + s.skip(1));
        }
    }
}

} // verus!

verus! {

/// Whether `needle` occurs somewhere in `s`.
pub open spec fn contains_text(s: Seq<char>, needle: Seq<char>) -> bool {
    exists|i: int| occurs_at(s, needle, i)
}

/// Whether `needle` occurs in `s`, as `str::contains` tells.
pub fn str_contains(s: &str, needle: &str) -> (r: bool)
    ensures
        r == contains_text(s@, needle@),
{
    let sv = chars_of(s);
    let nv = chars_of(needle);
    let mut i: usize = 0;
    while i < sv.len()
        invariant
            sv@ == s@,
            nv@ == needle@,
            i <= sv@.len(),
            forall|k: int| 0 <= k < i ==> !occurs_at(s@, needle@, k),
        decreases sv@.len() - i,
    {
        if matches_at(&sv, &nv, i) {
            return true;
        }
        i = i + 1;
    }
    if matches_at(&sv, &nv, i) {
        return true;
    }
    assert forall|k: int| !occurs_at(s@, needle@, k) by {
        if 0 <= k && k < i {
        }
    }
    false
}

} // verus!

verus! {

/// The ten decimal digits, in order.
pub open spec fn digit_chars() -> Seq<char> {
    "0123456789"@
}

/// The decimal text of `n`, without leading zeros.
pub open spec fn decimal(n: nat) -> Seq<char>
    decreases n,
{
    if n < 10 {
        seq![digit_chars()[n as int]]
    } else {
        decimal(n / 10).push(digit_chars()[(n % 10) as int])
    }
}

/// The text of the digit `d`.
fn digit_text(d: usize) -> (r: &'static str)
    requires
        d < 10,
    ensures
        r@ == seq![digit_chars()[d as int]],
{
    proof {
        reveal_strlit("0123456789");
    }
    let r = "0123456789".substring_char(d, d + 1);
    assert(r@ =~= seq![digit_chars()[d as int]]);
    r
}

/// The decimal text of `n`, as `to_string` writes it.
pub fn decimal_of(n: usize) -> (r: String)
    ensures
        r@ == decimal(n as nat),
    decreases n,
{
    if n < 10 {
        digit_text(n).to_owned()
    } else {
        decimal_of(n / 10).concat(digit_text(n % 10))
    }
}

/// Whether `c` is one of `0` to `9`.
pub open spec fn is_digit(c: char) -> bool {
    '0' <= c <= '9'
}

/// The value of a text made of decimal digits.
pub open spec fn digits_value(s: Seq<char>) -> nat
    decreases s.len(),
{
    if s.len() == 0 {
        0
    } else {
        digits_value(s.drop_last()) * 10 + ((s.last() as int - '0' as int) as nat)
    }
}

/// What parsing `s` as a `usize` gives for a text of digits: its value when
/// it is one or more digits `0` to `9` and fits in a `usize`.
pub open spec fn parsed_digits(s: Seq<char>) -> Option<nat> {
    if s.len() > 0 && (forall|i: int| 0 <= i < s.len() ==> is_digit(#[trigger] s[i]))
        && digits_value(s) <= usize::MAX {
        Some(digits_value(s))
    } else {
        None
    }
}

/// Reads a text of decimal digits as a `usize`; `None` when it is empty,
/// holds another character or is too large.
pub fn parse_digits(s: &str) -> (r: Option<usize>)
    ensures
        match parsed_digits(s@) {
            Some(v) => r == Some(v as usize),
            None => r is None,
        },
{
    let sv = chars_of(s);
    if sv.len() == 0 {
        return None;
    }
    let mut acc: usize = 0;
    let mut i: usize = 0;
    let mut fits = true;
    assert(s@.take(0) =~= Seq::<char>::empty());
    while i < sv.len()
        invariant
            sv@ == s@,
            i <= s@.len(),
            forall|k: int| 0 <= k < i ==> is_digit(#[trigger] s@[k]),
            fits ==> acc == digits_value(s@.take(i as int)),
            !fits ==> digits_value(s@.take(i as int)) > usize::MAX,
        decreases s@.len() - i,
    {
        let c = sv[i];
        if !('0' <= c && c <= '9') {
            return None;
        }
        let d = (c as u32 - '0' as u32) as usize;
        proof {
            assert(s@.take(i + 1).drop_last() =~= s@.take(i as int));
            assert(s@.take(i + 1).last() == c);
        }
        if fits {
            match acc.checked_mul(10) {
                Some(m) => match m.checked_add(d) {
                    Some(v) => {
                        acc = v;
                    },
                    None => {
                        fits = false;
                    },
                },
                None => {
                    fits = false;
                },
            }
        }
        i = i + 1;
    }
    assert(s@.take(i as int) =~= s@);
    if fits {
        Some(acc)
    } else {
        None
    }
}

} // verus!

verus! {

proof fn lemma_digit_chars()
    ensures
        digit_chars().len() == 10,
        forall|k: int|
            0 <= k < 10 ==> is_digit(#[trigger] digit_chars()[k]) && digit_chars()[k] as int - '0' as int
                == k,
{
    reveal_strlit("0123456789");
}

proof fn lemma_decimal_digits(n: nat)
    ensures
        decimal(n).len() > 0,
        forall|i: int| 0 <= i < decimal(n).len() ==> is_digit(#[trigger] decimal(n)[i]),
        digits_value(decimal(n)) == n,
    decreases n,
{
    lemma_digit_chars();
    if n < 10 {
        assert(decimal(n).drop_last() =~= Seq::<char>::empty());
        assert(digit_chars()[n as int] as int - '0' as int == n);
        assert(digits_value(decimal(n).drop_last()) == 0);
    } else {
        lemma_decimal_digits(n / 10);
        let d = decimal(n);
        assert(d.drop_last() =~= decimal(n / 10));
        assert(n == (n / 10) * 10 + n % 10) by (nonlinear_arith);
        assert(d.last() == digit_chars()[(n % 10) as int]);
        assert(digit_chars()[(n % 10) as int] as int - '0' as int == n % 10);
        assert(digits_value(d) == digits_value(decimal(n / 10)) * 10 + n % 10);
        assert forall|i: int| 0 <= i < d.len() implies is_digit(#[trigger] d[i]) by {
            if i < d.len() - 1 {
                assert(d[i] == decimal(n / 10)[i]);
            }
        }
    }
}

/// Reading back the decimal text of a number gives the number.
pub proof fn lemma_decimal_roundtrip(n: usize)
    ensures
        parsed_digits(decimal(n as nat)) == Some(n as nat),
{
    lemma_decimal_digits(n as nat);
}

} // verus!

verus! {

/// A line with the `\r` of a `\r\n` ending dropped.
pub open spec fn strip_cr(t: Seq<char>) -> Seq<char> {
    if ends_with_char(t, '\r') {
        t.drop_last()
    } else {
        t
    }
}

/// The lines of `s` after the line begun with `cur`, as `str::lines` splits
/// them.
pub open spec fn lines_from(s: Seq<char>, cur: Seq<char>) -> Seq<Seq<char>>
    decreases s.len(),
{
    if s.len() == 0 {
        if cur.len() == 0 {
            Seq::empty()
        } else {
            seq![cur]
        }
    } else if s[0] == '\n' {
        seq![strip_cr(cur)] + lines_from(s.skip(1), Seq::empty())
    } else {
        lines_from(s.skip(1), cur.push(s[0]))
    }
}

/// The lines of `s`: split at each `\n`, a `\r` right before it dropped,
/// no empty line after a final `\n`.
pub open spec fn lines_of(s: Seq<char>) -> Seq<Seq<char>> {
    lines_from(s, Seq::empty())
}

/// The views of a list of strings.
pub open spec fn strings_view(v: Seq<String>) -> Seq<Seq<char>> {
    v.map_values(|x: String| x@)
}

/// The line from `start` to `end` of `s`, with the `\r` of a `\r\n` ending
/// dropped.
fn line_text(s: &str, start: usize, end: usize) -> (r: String)
    requires
        start <= end <= s@.len(),
    ensures
        r@ == strip_cr(s@.subrange(start as int, end as int)),
{
    let t = s.substring_char(start, end);
    if str_ends_with_char(t, '\r') {
        let r = s.substring_char(start, end - 1).to_owned();
        assert(r@ =~= t@.drop_last());
        r
    } else {
        t.to_owned()
    }
}

/// The lines of `s`, as `str::lines` gives them.
pub fn lines(s: &str) -> (r: Vec<String>)
    ensures
        strings_view(r@) == lines_of(s@),
{
    let sv = chars_of(s);
    let n = sv.len();
    let mut out: Vec<String> = Vec::new();
    let mut start: usize = 0;
    let mut i: usize = 0;
    assert(s@.skip(0) =~= s@);
    assert(s@.subrange(0, 0) =~= Seq::<char>::empty());
    assert(strings_view(out@) + lines_from(s@.skip(0), s@.subrange(0, 0)) =~= lines_of(s@));
    while i < n
        invariant
            sv@ == s@,
            n == s@.len(),
            start <= i <= n,
            strings_view(out@) + lines_from(s@.skip(i as int), s@.subrange(start as int, i as int))
                == lines_of(s@),
        decreases n - i,
    {
        let ghost cur = s@.subrange(start as int, i as int);
        proof {
            assert(s@.skip(i as int).skip(1) =~= s@.skip(i + 1));
            assert(s@.skip(i as int)[0] == s@[i as int]);
        }
        if sv[i] == '\n' {
            let line = line_text(s, start, i);
            let ghost prev = out@;
            out.push(line);
            proof {
                assert(strings_view(out@) =~= strings_view(prev).push(strip_cr(cur)));
                assert(s@.subrange(i + 1, i + 1) =~= Seq::<char>::empty());
                assert(strings_view(out@) + lines_from(s@.skip(i + 1), s@.subrange(i + 1, i + 1))
                    =~= lines_of(s@));
            }
            start = i + 1;
        } else {
            proof {
                assert(cur.push(s@[i as int]) =~= s@.subrange(start as int, i + 1));
            }
        }
        i = i + 1;
    }
    proof {
        assert(s@.skip(n as int) =~= Seq::<char>::empty());
    }
    if start < n {
        let line = s.substring_char(start, n).to_owned();
        let ghost prev = out@;
        out.push(line);
        proof {
            assert(strings_view(out@) =~= strings_view(prev).push(s@.subrange(start as int, n as int)));
            assert(strings_view(out@) =~= lines_of(s@));
        }
    } else {
        proof {
            assert(s@.subrange(start as int, n as int) =~= Seq::<char>::empty());
            assert(strings_view(out@) =~= lines_of(s@));
        }
    }
    out
}

} // verus!

verus! {

/// The last segment of a path is everything after its last `/`, whatever
/// other characters it holds: for `p/q` where `q` has no `/`, it is `q`.
pub proof fn lemma_last_segment_after_last_slash(p: Seq<char>, q: Seq<char>)
    requires
        forall|i: int| 0 <= i < q.len() ==> q[i] != '/',
    ensures
        last_segment(p + seq!['/'] + q) == q,
    decreases q.len(),
{
    let s = p + seq!['/'] + q;
    if q.len() == 0 {
        assert(s.last() == '/');
        assert(q =~= Seq::<char>::empty());
    } else {
        assert(s.drop_last() =~= p + seq!['/'] + q.drop_last());
        lemma_last_segment_after_last_slash(p, q.drop_last());
        assert(s.last() == q.last());
        assert(q.drop_last().push(q.last()) =~= q);
    }
}

/// A text without `/` is its own last segment.
pub proof fn lemma_last_segment_without_slash(q: Seq<char>)
    requires
        forall|i: int| 0 <= i < q.len() ==> q[i] != '/',
    ensures
        last_segment(q) == q,
    decreases q.len(),
{
    if q.len() > 0 {
        lemma_last_segment_without_slash(q.drop_last());
        assert(q.drop_last().push(q.last()) =~= q);
    }
}

/// A non-empty pattern replaced in itself gives the replacement.
pub proof fn lemma_replace_whole(s: Seq<char>, r: Seq<char>)
    requires
        s.len() > 0,
    ensures
        replaced(s, s, r) == r,
{
    let e = Seq::<char>::empty();
    assert(s.take(s.len() as int) =~= s);
    assert(s.skip(s.len() as int) =~= e);
    assert(replaced(e, s, r) == e);
    assert(replaced(s, s, r) == r + replaced(e, s, r));
    assert(r + e =~= r);
}

} // verus!
