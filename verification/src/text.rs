use vstd::prelude::*;
use vstd::string::StrSliceExecFns;

verus! {

/// Relies on String::push: appends exactly the given character to the end
/// of the string.
pub assume_specification[ String::push ](s: &mut String, ch: char)
    ensures
        final(s)@ == old(s)@.push(ch),
;

/// The characters of `s`, as a vector.
pub fn to_chars(s: &str) -> (r: Vec<char>)
    ensures
        r@ == s@,
{
    let n = s.unicode_len();
    let mut v: Vec<char> = Vec::new();
    let mut i: usize = 0;
    while i < n
        invariant
            i <= n,
            n == s@.len(),
            v@ =~= s@.take(i as int),
        decreases n - i,
    {
        v.push(s.get_char(i));
        proof {
            assert(s@.take(i + 1) =~= s@.take(i as int).push(s@[i as int]));
        }
        i = i + 1;
    }
    proof {
        assert(s@.take(n as int) =~= s@);
    }
    v
}

/// The characters of `v`, as a string.
pub fn from_chars(v: &Vec<char>) -> (r: String)
    ensures
        r@ == v@,
{
    let mut s = String::new();
    let mut i: usize = 0;
    while i < v.len()
        invariant
            i <= v.len(),
            s@ =~= v@.take(i as int),
        decreases v.len() - i,
    {
        s.push(v[i]);
        proof {
            assert(v@.take(i + 1) =~= v@.take(i as int).push(v@[i as int]));
        }
        i = i + 1;
    }
    proof {
        assert(v@.take(v.len() as int) =~= v@);
    }
    s
}

/// The strings of `v`, each the characters of the corresponding vector.
pub fn all_from_chars(v: Vec<Vec<char>>) -> (r: Vec<String>)
    ensures
        r.deep_view() =~= v.deep_view(),
{
    let mut out: Vec<String> = Vec::new();
    let mut i: usize = 0;
    while i < v.len()
        invariant
            i <= v.len(),
            out.deep_view() =~= v.deep_view().take(i as int),
        decreases v.len() - i,
    {
        out.push(from_chars(&v[i]));
        proof {
            assert(v.deep_view().take(i + 1) =~= v.deep_view().take(i as int).push(
                v.deep_view()[i as int],
            ));
            assert(v.deep_view()[i as int] == v@[i as int]@);
        }
        i = i + 1;
    }
    proof {
        assert(v.deep_view().take(v.len() as int) =~= v.deep_view());
    }
    out
}

/// Appends every character of `src` to `dst`.
pub fn extend_chars(dst: &mut Vec<char>, src: &Vec<char>)
    ensures
        final(dst)@ == old(dst)@ + src@,
{
    let mut i: usize = 0;
    while i < src.len()
        invariant
            i <= src.len(),
            dst@ =~= old(dst)@ + src@.take(i as int),
        decreases src.len() - i,
    {
        dst.push(src[i]);
        proof {
            assert(src@.take(i + 1) =~= src@.take(i as int).push(src@[i as int]));
        }
        i = i + 1;
    }
    proof {
        assert(src@.take(src.len() as int) =~= src@);
        assert(dst@ =~= old(dst)@ + src@);
    }
}

/// The characters of `s` from `from` (inclusive) to `to` (exclusive).
pub fn chars_range(s: &Vec<char>, from: usize, to: usize) -> (r: Vec<char>)
    requires
        from <= to <= s@.len(),
    ensures
        r@ == s@.subrange(from as int, to as int),
{
    let mut out: Vec<char> = Vec::new();
    let mut i: usize = from;
    while i < to
        invariant
            from <= i <= to <= s@.len(),
            out@ =~= s@.subrange(from as int, i as int),
        decreases to - i,
    {
        out.push(s[i]);
        proof {
            assert(s@.subrange(from as int, i + 1) =~= s@.subrange(from as int, i as int).push(
                s@[i as int],
            ));
        }
        i = i + 1;
    }
    out
}

/// The position of the first `c` in `s`, or -1 when `s` holds none.
pub open spec fn find_char(s: Seq<char>, c: char) -> int
    decreases s.len(),
{
    if s.len() == 0 {
        -1
    } else if s[0] == c {
        0
    } else {
        let rest = find_char(s.drop_first(), c);
        if rest < 0 {
            -1
        } else {
            rest + 1
        }
    }
}

/// A found position is in range, holds `c`, and is the first to do so; a
/// result of -1 means `s` holds no `c` at all.
pub proof fn lemma_find_char_range(s: Seq<char>, c: char)
    ensures
        find_char(s, c) == -1 || (0 <= find_char(s, c) < s.len()),
        find_char(s, c) >= 0 ==> s[find_char(s, c)] == c,
        find_char(s, c) == -1 ==> forall|j: int| 0 <= j < s.len() ==> s[j] != c,
    decreases s.len(),
{
    if s.len() > 0 && s[0] != c {
        lemma_find_char_range(s.drop_first(), c);
        if find_char(s.drop_first(), c) == -1 {
            assert forall|j: int| 0 <= j < s.len() implies s[j] != c by {
                if j > 0 {
                    assert(s.drop_first()[j - 1] == s[j]);
                }
            }
        } else {
            assert(s.drop_first()[find_char(s.drop_first(), c)] == s[find_char(s, c)]);
        }
    }
}

/// The first `c` is where a left-to-right scan first sees it.
proof fn lemma_find_char_at(s: Seq<char>, c: char, q: int)
    requires
        0 <= q < s.len(),
        s[q] == c,
        forall|j: int| 0 <= j < q ==> s[j] != c,
    ensures
        find_char(s, c) == q,
    decreases s.len(),
{
    if q > 0 {
        assert forall|j: int| 0 <= j < q - 1 implies s.drop_first()[j] != c by {
            assert(s.drop_first()[j] == s[j + 1]);
        }
        assert(s.drop_first()[q - 1] == s[q]);
        lemma_find_char_at(s.drop_first(), c, q - 1);
    }
}

/// A string without `c` has no first `c`.
proof fn lemma_find_char_none(s: Seq<char>, c: char)
    requires
        forall|j: int| 0 <= j < s.len() ==> s[j] != c,
    ensures
        find_char(s, c) == -1,
    decreases s.len(),
{
    if s.len() > 0 {
        assert forall|j: int| 0 <= j < s.drop_first().len() implies s.drop_first()[j] != c by {
            assert(s.drop_first()[j] == s[j + 1]);
        }
        lemma_find_char_none(s.drop_first(), c);
    }
}

/// A line as `str::lines` reports it: a carriage return at the end of a
/// segment closed by a line feed is dropped.
pub open spec fn chomp_cr(line: Seq<char>) -> Seq<char> {
    if line.len() > 0 && line.last() == '\r' {
        line.drop_last()
    } else {
        line
    }
}

/// The lines of `s`, as `str::lines` reports them: segments closed by a line
/// feed, each stripped of one trailing carriage return, and a last unclosed
/// segment kept as it stands; a final line feed opens no empty last line.
pub open spec fn spec_lines(s: Seq<char>) -> Seq<Seq<char>>
    decreases s.len(),
    via spec_lines_decreases
{
    if s.len() == 0 {
        Seq::empty()
    } else {
        let i = find_char(s, '\n');
        if i < 0 {
            seq![s]
        } else {
            seq![chomp_cr(s.take(i))] + spec_lines(s.skip(i + 1))
        }
    }
}

#[via_fn]
proof fn spec_lines_decreases(s: Seq<char>) {
    if s.len() != 0 {
        lemma_find_char_range(s, '\n');
    }
}

/// Splits the characters of `s` into its lines, as `str::lines` reports
/// them.
pub fn split_lines(chars: &Vec<char>) -> (r: Vec<Vec<char>>)
    ensures
        r.deep_view() == spec_lines(chars@),
{
    let n = chars.len();
    let mut out: Vec<Vec<char>> = Vec::new();
    let mut start: usize = 0;
    proof {
        assert(chars@.skip(0) =~= chars@);
        assert(out.deep_view() =~= Seq::<Seq<char>>::empty());
        assert(Seq::<Seq<char>>::empty() + spec_lines(chars@) =~= spec_lines(chars@));
    }
    while start < n
        invariant
            start <= n,
            n == chars@.len(),
            out.deep_view() + spec_lines(chars@.skip(start as int)) =~= spec_lines(chars@),
        decreases n - start,
    {
        let ghost out0 = out.deep_view();
        let ghost t = chars@.skip(start as int);
        let mut j: usize = start;
        while j < n && chars[j] != '\n'
            invariant
                start <= j <= n,
                n == chars@.len(),
                forall|k: int| start <= k < j ==> chars@[k] != '\n',
            decreases n - j,
        {
            j = j + 1;
        }
        if j < n {
            proof {
                assert(chars@[j as int] == '\n');
                assert forall|k: int| 0 <= k < j - start implies t[k] != '\n' by {
                    assert(t[k] == chars@[start + k]);
                }
                assert(t[j - start] == chars@[j as int]);
                lemma_find_char_at(t, '\n', j - start);
            }
            let mut seg = chars_range(chars, start, j);
            if seg.len() > 0 && seg[seg.len() - 1] == '\r' {
                proof {
                    assert(seg@.last() == '\r');
                }
                seg.pop();
                proof {
                    assert(seg@ =~= chomp_cr(chars@.subrange(start as int, j as int)));
                }
            }
            proof {
                assert(t.take(j - start) =~= chars@.subrange(start as int, j as int));
                assert(seg@ == chomp_cr(t.take(j - start)));
                assert(t.skip(j - start + 1) =~= chars@.skip(j + 1));
                assert(spec_lines(t) == seq![chomp_cr(t.take(j - start))] + spec_lines(
                    chars@.skip(j + 1),
                ));
            }
            out.push(seg);
            proof {
                assert(seg.deep_view() =~= seg@);
                assert(out.deep_view() =~= out0.push(seg@));
                assert(out.deep_view() + spec_lines(chars@.skip(j + 1)) =~= out0 + spec_lines(t));
            }
            start = j + 1;
        } else {
            proof {
                assert forall|k: int| 0 <= k < t.len() implies t[k] != '\n' by {
                    assert(t[k] == chars@[start + k]);
                }
                lemma_find_char_none(t, '\n');
                assert(spec_lines(t) =~= seq![t]);
            }
            let seg = chars_range(chars, start, n);
            proof {
                assert(seg@ =~= t);
            }
            out.push(seg);
            proof {
                assert(seg.deep_view() =~= seg@);
                assert(out.deep_view() =~= out0.push(t));
                assert(out.deep_view() =~= out0 + spec_lines(t));
            }
            start = n;
        }
    }
    proof {
        assert(chars@.skip(n as int) =~= Seq::<char>::empty());
        assert(spec_lines(Seq::<char>::empty()) =~= Seq::<Seq<char>>::empty());
        assert(out.deep_view() =~= out.deep_view() + spec_lines(chars@.skip(n as int)));
    }
    out
}

/// Whether `s` carries `d` starting at position `p`.
pub open spec fn match_at(s: Seq<char>, d: Seq<char>, p: int) -> bool {
    0 <= p && p + d.len() <= s.len() && s.subrange(p, p + d.len()) == d
}

/// The position of the first occurrence of `d` in `s`, or -1 when `s` holds
/// none.
pub open spec fn first_occ(s: Seq<char>, d: Seq<char>) -> int
    decreases s.len(),
{
    if d.len() == 0 {
        0
    } else if s.len() < d.len() {
        -1
    } else if s.subrange(0, d.len() as int) == d {
        0
    } else {
        let rest = first_occ(s.drop_first(), d);
        if rest < 0 {
            -1
        } else {
            rest + 1
        }
    }
}

/// A found occurrence lies within the string.
pub proof fn lemma_first_occ_range(s: Seq<char>, d: Seq<char>)
    ensures
        first_occ(s, d) >= 0 ==> first_occ(s, d) + d.len() <= s.len(),
    decreases s.len(),
{
    if d.len() > 0 && s.len() >= d.len() && s.subrange(0, d.len() as int) != d {
        lemma_first_occ_range(s.drop_first(), d);
    }
}

/// Carrying `d` one position later in `s` is carrying it in the tail of `s`.
proof fn lemma_match_at_drop_first(s: Seq<char>, d: Seq<char>, p: int)
    requires
        p >= 0,
        s.len() > 0,
    ensures
        match_at(s, d, p + 1) == match_at(s.drop_first(), d, p),
{
    if p + 1 + d.len() <= s.len() {
        assert(s.drop_first().subrange(p, p + d.len() as int) =~= s.subrange(
            p + 1,
            p + 1 + d.len(),
        ));
    }
}

/// The first occurrence is where a left-to-right scan first sees one.
proof fn lemma_first_occ_at(s: Seq<char>, d: Seq<char>, q: int)
    requires
        d.len() > 0,
        match_at(s, d, q),
        forall|p: int| 0 <= p < q ==> !match_at(s, d, p),
    ensures
        first_occ(s, d) == q,
    decreases s.len(),
{
    assert(s.len() >= d.len());
    if q == 0 {
        assert(s.subrange(0, d.len() as int) == d);
    } else {
        assert(!match_at(s, d, 0));
        assert(s.subrange(0, d.len() as int) != d);
        lemma_match_at_drop_first(s, d, q - 1);
        assert forall|p: int| 0 <= p < q - 1 implies !match_at(s.drop_first(), d, p) by {
            lemma_match_at_drop_first(s, d, p);
        }
        lemma_first_occ_at(s.drop_first(), d, q - 1);
    }
}

/// A string without `d` has no first occurrence of it.
proof fn lemma_first_occ_none(s: Seq<char>, d: Seq<char>)
    requires
        d.len() > 0,
        forall|p: int| 0 <= p ==> !match_at(s, d, p),
    ensures
        first_occ(s, d) == -1,
    decreases s.len(),
{
    if s.len() >= d.len() {
        assert(!match_at(s, d, 0));
        assert(s.subrange(0, d.len() as int) != d);
        assert forall|p: int| 0 <= p implies !match_at(s.drop_first(), d, p) by {
            lemma_match_at_drop_first(s, d, p);
        }
        lemma_first_occ_none(s.drop_first(), d);
    }
}

/// The segments of `s` between the non-overlapping occurrences of `d`,
/// leftmost first, as `str::split` reports them: a string without `d` is one
/// segment, and occurrences at the edges open empty segments.
pub open spec fn spec_split(s: Seq<char>, d: Seq<char>) -> Seq<Seq<char>>
    decreases s.len(),
    when d.len() > 0
    via spec_split_decreases
{
    let i = first_occ(s, d);
    if i < 0 {
        seq![s]
    } else {
        seq![s.take(i)] + spec_split(s.skip(i + d.len()), d)
    }
}

#[via_fn]
proof fn spec_split_decreases(s: Seq<char>, d: Seq<char>) {
    lemma_first_occ_range(s, d);
}

/// Whether the characters of `s` carry the characters of `d` starting at
/// position `p`.
fn match_at_exec(s: &Vec<char>, d: &Vec<char>, p: usize) -> (r: bool)
    requires
        p + d@.len() <= s@.len(),
    ensures
        r == match_at(s@, d@, p as int),
{
    let n = s.len();
    let mut k: usize = 0;
    while k < d.len()
        invariant
            k <= d@.len(),
            n == s@.len(),
            p + d@.len() <= s@.len(),
            forall|j: int| 0 <= j < k ==> s@[p + j] == d@[j],
        decreases d.len() - k,
    {
        if s[p + k] != d[k] {
            proof {
                assert(s@.subrange(p as int, p + d@.len())[k as int] == s@[p + k]);
            }
            return false;
        }
        k = k + 1;
    }
    proof {
        assert(s@.subrange(p as int, p + d@.len()) =~= d@);
    }
    true
}

/// Splits the characters of `s` at every occurrence of `delim`, as
/// `str::split` reports the segments.
pub fn split_on(chars: &Vec<char>, delim: &Vec<char>) -> (r: Vec<Vec<char>>)
    requires
        delim@.len() > 0,
    ensures
        r.deep_view() == spec_split(chars@, delim@),
{
    let n = chars.len();
    let dlen = delim.len();
    let mut out: Vec<Vec<char>> = Vec::new();
    let mut start: usize = 0;
    let mut searching = true;
    proof {
        assert(chars@.skip(0) =~= chars@);
        assert(out.deep_view() =~= Seq::<Seq<char>>::empty());
        assert(Seq::<Seq<char>>::empty() + spec_split(chars@, delim@) =~= spec_split(
            chars@,
            delim@,
        ));
    }
    while searching
        invariant
            start <= n,
            n == chars@.len(),
            dlen == delim@.len(),
            dlen > 0,
            searching ==> out.deep_view() + spec_split(chars@.skip(start as int), delim@)
                =~= spec_split(chars@, delim@),
            !searching ==> out.deep_view() =~= spec_split(chars@, delim@),
        decreases (if searching {
            n - start + 1
        } else {
            0
        }),
    {
        let ghost out0 = out.deep_view();
        let ghost t = chars@.skip(start as int);
        let mut p: usize = start;
        let mut found = false;
        while !found && dlen <= n && p <= n - dlen
            invariant
                start <= p <= n,
                n == chars@.len(),
                dlen == delim@.len(),
                dlen > 0,
                forall|q: int| start <= q < p ==> !match_at(chars@, delim@, q),
                found ==> p + dlen <= n && match_at(chars@, delim@, p as int),
            decreases (if found {
                0
            } else {
                n - p + 1
            }),
        {
            if match_at_exec(chars, delim, p) {
                found = true;
            } else {
                proof {
                    assert(!match_at(chars@, delim@, p as int));
                }
                p = p + 1;
            }
        }
        proof {
            assert(found || p + dlen > n || (start <= p && forall|q: int|
                start <= q < n ==> !match_at(chars@, delim@, q)));
        }
        proof {
            assert forall|q: int| 0 <= q < p - start implies !match_at(t, delim@, q) by {
                if q + delim@.len() <= t.len() {
                    assert(t.subrange(q, q + delim@.len()) =~= chars@.subrange(
                        start + q,
                        start + q + delim@.len(),
                    ));
                    assert(!match_at(chars@, delim@, start + q));
                }
            }
        }
        if found {
            proof {
                assert(t.subrange(p - start, p - start + delim@.len()) =~= chars@.subrange(
                    p as int,
                    p + delim@.len(),
                ));
                assert(match_at(t, delim@, p - start));
                lemma_first_occ_at(t, delim@, p - start);
                assert(t.take(p - start) =~= chars@.subrange(start as int, p as int));
                assert(t.skip(p - start + delim@.len()) =~= chars@.skip(start + (p - start
                    + delim@.len())));
            }
            let seg = chars_range(chars, start, p);
            proof {
                assert(seg@ == t.take(p - start));
                assert(spec_split(t, delim@) == seq![t.take(p - start)] + spec_split(
                    chars@.skip(p + dlen),
                    delim@,
                ));
            }
            out.push(seg);
            proof {
                assert(seg.deep_view() =~= seg@);
                assert(out.deep_view() =~= out0.push(seg@));
                assert(out.deep_view() + spec_split(chars@.skip(p + dlen), delim@) =~= out0
                    + spec_split(t, delim@));
            }
            start = p + dlen;
        } else {
            proof {
                assert forall|q: int| 0 <= q implies !match_at(t, delim@, q) by {
                    if q < p - start {
                    } else {
                        assert(q + delim@.len() > t.len());
                    }
                }
                lemma_first_occ_none(t, delim@);
                assert(spec_split(t, delim@) =~= seq![t]);
            }
            let seg = chars_range(chars, start, n);
            proof {
                assert(seg@ =~= t);
            }
            out.push(seg);
            searching = false;
            proof {
                assert(seg.deep_view() =~= seg@);
                assert(out.deep_view() =~= out0.push(t));
                assert(out.deep_view() =~= out0 + spec_split(t, delim@));
            }
        }
    }
    out
}

/// Whether `s` begins with `prefix`.
pub open spec fn has_prefix(s: Seq<char>, prefix: Seq<char>) -> bool {
    s.len() >= prefix.len() && s.subrange(0, prefix.len() as int) == prefix
}

/// Whether the characters of `s` begin with the characters of `prefix`.
pub fn starts_with_chars(s: &Vec<char>, prefix: &Vec<char>) -> (r: bool)
    ensures
        r == has_prefix(s@, prefix@),
{
    if s.len() < prefix.len() {
        proof {
            assert(!has_prefix(s@, prefix@));
        }
        return false;
    }
    let mut i: usize = 0;
    while i < prefix.len()
        invariant
            i <= prefix.len() <= s@.len(),
            forall|j: int| 0 <= j < i ==> s@[j] == prefix@[j],
        decreases prefix.len() - i,
    {
        if s[i] != prefix[i] {
            proof {
                assert(s@.subrange(0, prefix@.len() as int)[i as int] == s@[i as int]);
                assert(s@.subrange(0, prefix@.len() as int) != prefix@);
            }
            return false;
        }
        i = i + 1;
    }
    proof {
        assert(s@.subrange(0, prefix@.len() as int) =~= prefix@);
    }
    true
}

} // verus!
