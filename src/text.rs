//! Character-sequence helpers shared by the launcher: splitting, joining and
//! literal replacement, each with a recursive specification.
use vstd::prelude::*;

verus! {

/// The pieces of `s` between occurrences of `c` (always at least one piece).
pub open spec fn split_spec(s: Seq<char>, c: char) -> Seq<Seq<char>>
    decreases s.len(),
{
    if s.len() == 0 {
        seq![Seq::empty()]
    } else {
        let p = split_spec(s.drop_last(), c);
        if s.last() == c {
            p.push(Seq::empty())
        } else {
            p.update(p.len() - 1, p.last().push(s.last()))
        }
    }
}

/// The pieces joined with `sep` between consecutive pieces.
pub open spec fn join_spec(parts: Seq<Seq<char>>, sep: Seq<char>) -> Seq<char>
    decreases parts.len(),
{
    if parts.len() == 0 {
        Seq::empty()
    } else if parts.len() == 1 {
        parts[0]
    } else {
        join_spec(parts.drop_last(), sep) + sep + parts.last()
    }
}

/// Joining three pieces.
pub proof fn lemma_join3(a: Seq<char>, b: Seq<char>, c: Seq<char>, sep: Seq<char>)
    ensures
        join_spec(seq![a, b, c], sep) == a + sep + b + sep + c,
        join_spec(seq![a, b], sep) == a + sep + b,
{
    assert(seq![a, b, c].drop_last() =~= seq![a, b]);
    assert(seq![a, b].drop_last() =~= seq![a]);
    assert(join_spec(seq![a], sep) == a);
    assert(join_spec(seq![a, b], sep) == join_spec(seq![a], sep) + sep + b);
    assert(join_spec(seq![a, b, c], sep) == join_spec(seq![a, b], sep) + sep + c);
}

/// `s` holds `pat` starting at position `i`.
pub open spec fn occurs_at(s: Seq<char>, pat: Seq<char>, i: int) -> bool {
    0 <= i && i + pat.len() <= s.len() && s.subrange(i, i + pat.len()) == pat
}

/// `s` holds `pat` somewhere.
pub open spec fn contains_spec(s: Seq<char>, pat: Seq<char>) -> bool {
    exists|i: int| occurs_at(s, pat, i)
}

/// Leftmost, non-overlapping replacement of every occurrence of `pat` by `rep`.
pub open spec fn replace_spec(s: Seq<char>, pat: Seq<char>, rep: Seq<char>) -> Seq<char>
    decreases s.len(),
{
    if pat.len() == 0 || s.len() < pat.len() {
        s
    } else if s.subrange(0, pat.len() as int) == pat {
        rep + replace_spec(s.subrange(pat.len() as int, s.len() as int), pat, rep)
    } else {
        seq![s[0]] + replace_spec(s.subrange(1, s.len() as int), pat, rep)
    }
}

pub proof fn lemma_split_nonempty(s: Seq<char>, c: char)
    ensures
        split_spec(s, c).len() >= 1,
    decreases s.len(),
{
    if s.len() > 0 {
        lemma_split_nonempty(s.drop_last(), c);
    }
}

/// Views of a vector of strings, in order.
pub open spec fn views(v: Seq<String>) -> Seq<Seq<char>> {
    v.map_values(|x: String| x@)
}

pub proof fn lemma_split_append_plain(x: Seq<char>, y: Seq<char>, c: char)
    requires
        !y.contains(c),
    ensures
        split_spec(x + y, c) == split_spec(x, c).update(
            split_spec(x, c).len() - 1,
            split_spec(x, c).last() + y,
        ),
    decreases y.len(),
{
    lemma_split_nonempty(x, c);
    let q = split_spec(x, c);
    if y.len() == 0 {
        assert(x + y =~= x);
        assert(q.last() + y =~= q.last());
        assert(q.update(q.len() - 1, q.last() + y) =~= q);
    } else {
        let yd = y.drop_last();
        assert(!yd.contains(c)) by {
            if yd.contains(c) {
                let k = choose|k: int| 0 <= k < yd.len() && yd[k] == c;
                assert(y[k] == c);
            }
        }
        lemma_split_append_plain(x, yd, c);
        assert((x + y).drop_last() =~= x + yd);
        assert((x + y).last() == y.last());
        assert(y.last() != c) by {
            assert(y[y.len() - 1] == y.last());
        }
        assert((q.last() + yd).push(y.last()) =~= q.last() + y);
        assert(q.update(q.len() - 1, q.last() + yd).update(q.len() - 1, q.last() + y) =~= q.update(
            q.len() - 1,
            q.last() + y,
        ));
    }
}

/// Splitting a joined sequence of pieces, none of which holds the separator,
/// gives the pieces back.
pub proof fn lemma_split_join(parts: Seq<Seq<char>>, c: char)
    requires
        parts.len() >= 1,
        forall|i: int| 0 <= i < parts.len() ==> !(#[trigger] parts[i]).contains(c),
    ensures
        split_spec(join_spec(parts, seq![c]), c) == parts,
    decreases parts.len(),
{
    let last = parts.last();
    assert(!last.contains(c)) by {
        assert(parts[parts.len() - 1] == last);
    }
    if parts.len() == 1 {
        lemma_split_append_plain(Seq::empty(), last, c);
        assert(Seq::<char>::empty() + last =~= last);
        assert(split_spec(Seq::<char>::empty(), c).update(0, Seq::<char>::empty() + last) =~= parts);
    } else {
        let dl = parts.drop_last();
        assert forall|i: int| 0 <= i < dl.len() implies !(#[trigger] dl[i]).contains(c) by {
            assert(dl[i] == parts[i]);
        }
        lemma_split_join(dl, c);
        let x = join_spec(dl, seq![c]) + seq![c];
        assert((x).drop_last() =~= join_spec(dl, seq![c]));
        assert(split_spec(x, c) == dl.push(Seq::empty()));
        lemma_split_append_plain(x, last, c);
        assert(Seq::<char>::empty() + last =~= last);
        assert(dl.push(Seq::empty()).update(dl.len() as int, Seq::<char>::empty() + last) =~= parts);
    }
}

pub proof fn lemma_replace_absent(s: Seq<char>, pat: Seq<char>, rep: Seq<char>)
    requires
        !contains_spec(s, pat),
    ensures
        replace_spec(s, pat, rep) == s,
    decreases s.len(),
{
    if pat.len() == 0 || s.len() < pat.len() {
    } else {
        assert(!occurs_at(s, pat, 0));
        let t = s.subrange(1, s.len() as int);
        assert(!contains_spec(t, pat)) by {
            if contains_spec(t, pat) {
                let j = choose|j: int| occurs_at(t, pat, j);
                assert(s.subrange(j + 1, j + 1 + pat.len()) =~= t.subrange(j, j + pat.len()));
                assert(occurs_at(s, pat, j + 1));
            }
        }
        lemma_replace_absent(t, pat, rep);
        assert(seq![s[0]] + t =~= s);
    }
}

/// Whether `pat` occurs in `s` at position `i`.
pub fn occurs_at_exec(s: &str, pat: &str, i: usize) -> (r: bool)
    ensures
        r == occurs_at(s@, pat@, i as int),
{
    let ascii = s.is_ascii() && pat.is_ascii();
    occurs_at_with(s, pat, i, s.unicode_len(), pat.unicode_len(), ascii)
}

/// Whether `pat` occurs in `s` at position `i`, given both lengths; when
/// both strings are ASCII their characters are read in constant time.
fn occurs_at_with(s: &str, pat: &str, i: usize, n: usize, m: usize, ascii: bool) -> (r: bool)
    requires
        n == s@.len(),
        m == pat@.len(),
        ascii ==> s.is_ascii() && pat.is_ascii(),
    ensures
        r == occurs_at(s@, pat@, i as int),
{
    if m > n || i > n - m {
        return false;
    }
    let mut j: usize = 0;
    while j < m
        invariant
            n == s@.len(),
            m == pat@.len(),
            ascii ==> s.is_ascii() && pat.is_ascii(),
            i + m <= n,
            j <= m,
            forall|k: int| 0 <= k < j ==> s@[i + k] == pat@[k],
        decreases m - j,
    {
        let same = if ascii {
            let a = s.get_ascii(i + j);
            let b = pat.get_ascii(j);
            proof {
                let x = s@[i + j];
                let y = pat@[j as int];
                assert('\0' <= x <= '\u{7f}');
                assert('\0' <= y <= '\u{7f}');
                assert((x as u8 == y as u8) ==> x == y);
            }
            a == b
        } else {
            s.get_char(i + j) == pat.get_char(j)
        };
        if !same {
            assert(s@.subrange(i as int, i + m)[j as int] != pat@[j as int]);
            return false;
        }
        j = j + 1;
    }
    assert(s@.subrange(i as int, i + m) =~= pat@);
    true
}

/// Whether `s` begins with `prefix`.
pub fn starts_with(s: &str, prefix: &str) -> (r: bool)
    ensures
        r == (prefix@.len() <= s@.len() && s@.subrange(0, prefix@.len() as int) == prefix@),
{
    occurs_at_exec(s, prefix, 0)
}

/// The pieces of `s` between occurrences of `c`.
pub fn split_str(s: &str, c: char) -> (r: Vec<String>)
    ensures
        views(r@) == split_spec(s@, c),
        r@.len() >= 1,
{
    let n = s.unicode_len();
    let mut parts: Vec<String> = Vec::new();
    let mut start: usize = 0;
    let mut i: usize = 0;
    assert(s@.subrange(0, 0) =~= Seq::<char>::empty());
    assert(views(parts@).push(s@.subrange(0, 0)) =~= seq![Seq::<char>::empty()]);
    while i < n
        invariant
            n == s@.len(),
            start <= i <= n,
            split_spec(s@.subrange(0, i as int), c) == views(parts@).push(s@.subrange(start as int, i as int)),
        decreases n - i,
    {
        let ch = s.get_char(i);
        let ghost prev = s@.subrange(0, i as int);
        let ghost cur = s@.subrange(0, i + 1);
        assert(cur.drop_last() =~= prev);
        assert(cur.last() == ch);
        if ch == c {
            let ghost old_parts = parts@;
            let ghost old_start = start;
            let piece = String::from_str(s.substring_char(start, i));
            parts.push(piece);
            start = i + 1;
            assert(s@.subrange(start as int, i + 1) =~= Seq::<char>::empty());
            assert(views(parts@) =~= views(old_parts).push(s@.subrange(old_start as int, i as int)));
        } else {
            assert(s@.subrange(start as int, i + 1) =~= s@.subrange(start as int, i as int).push(ch));
        }
        i = i + 1;
    }
    assert(s@.subrange(0, n as int) =~= s@);
    let last = String::from_str(s.substring_char(start, n));
    parts.push(last);
    assert(views(parts@) =~= split_spec(s@, c));
    parts
}

/// The strings of `parts` joined with `sep` between consecutive ones.
pub fn join_strs(parts: &Vec<String>, sep: &str) -> (r: String)
    ensures
        r@ == join_spec(views(parts@), sep@),
{
    let mut out = String::new();
    let mut i: usize = 0;
    assert(views(parts@).subrange(0, 0) =~= Seq::<Seq<char>>::empty());
    while i < parts.len()
        invariant
            i <= parts@.len(),
            out@ == join_spec(views(parts@).subrange(0, i as int), sep@),
        decreases parts.len() - i,
    {
        let ghost pre = views(parts@).subrange(0, i as int);
        let ghost next = views(parts@).subrange(0, i + 1);
        assert(next.drop_last() =~= pre);
        if i == 0 {
            assert(pre =~= Seq::<Seq<char>>::empty());
        } else {
            out.append(sep);
        }
        out.append(parts[i].as_str());
        i = i + 1;
    }
    assert(views(parts@).subrange(0, parts@.len() as int) =~= views(parts@));
    out
}

/// `s` with every leftmost, non-overlapping occurrence of `pat` replaced by `rep`.
pub fn replace_str(s: &str, pat: &str, rep: &str) -> (r: String)
    requires
        pat@.len() > 0,
    ensures
        r@ == replace_spec(s@, pat@, rep@),
{
    let n = s.unicode_len();
    let m = pat.unicode_len();
    let ascii = s.is_ascii() && pat.is_ascii();
    let mut out = String::new();
    let mut i: usize = 0;
    assert(s@.subrange(0, n as int) =~= s@);
    while i < n
        invariant
            n == s@.len(),
            m == pat@.len(),
            ascii ==> s.is_ascii() && pat.is_ascii(),
            m > 0,
            i <= n,
            out@ + replace_spec(s@.subrange(i as int, n as int), pat@, rep@) == replace_spec(
                s@,
                pat@,
                rep@,
            ),
        decreases n - i,
    {
        let ghost rest = s@.subrange(i as int, n as int);
        if m <= n - i && occurs_at_with(s, pat, i, n, m, ascii) {
            assert(rest.subrange(0, m as int) =~= s@.subrange(i as int, i + m));
            assert(rest.subrange(m as int, rest.len() as int) =~= s@.subrange(i + m, n as int));
            assert(out@ + rep@ + replace_spec(s@.subrange(i + m, n as int), pat@, rep@) =~= out@ + (
            rep@ + replace_spec(s@.subrange(i + m, n as int), pat@, rep@)));
            out.append(rep);
            i = i + m;
        } else {
            if m <= n - i {
                assert(rest.subrange(0, m as int) =~= s@.subrange(i as int, i + m));
            }
            let piece = if ascii {
                s.substring_ascii(i, i + 1)
            } else {
                s.substring_char(i, i + 1)
            };
            assert(piece@ =~= seq![rest[0]]);
            assert(rest.subrange(1, rest.len() as int) =~= s@.subrange(i + 1, n as int));
            assert(out@ + piece@ + replace_spec(s@.subrange(i + 1, n as int), pat@, rep@) =~= out@ + (
            piece@ + replace_spec(s@.subrange(i + 1, n as int), pat@, rep@)));
            out.append(piece);
            i = i + 1;
        }
    }
    assert(s@.subrange(n as int, n as int) =~= Seq::<char>::empty());
    assert(out@ + Seq::<char>::empty() =~= out@);
    out
}

/// Whether the two strings hold the same characters.
pub fn eq_str(a: &str, b: &str) -> (r: bool)
    ensures
        r == (a@ == b@),
{
    if a.unicode_len() != b.unicode_len() {
        return false;
    }
    let r = starts_with(a, b);
    assert(a@.subrange(0, b@.len() as int) =~= a@);
    r
}

/// A fresh string holding the characters of `s`.
pub fn copy_str(s: &str) -> (r: String)
    ensures
        r@ == s@,
{
    String::from_str(s)
}

pub proof fn lemma_concat_lacks(x: Seq<char>, y: Seq<char>, d: char)
    requires
        !x.contains(d),
        !y.contains(d),
    ensures
        !(x + y).contains(d),
{
    if (x + y).contains(d) {
        let k = choose|k: int| 0 <= k < (x + y).len() && (x + y)[k] == d;
        if k < x.len() {
            assert(x[k] == d);
        } else {
            assert(y[k - x.len()] == d);
        }
    }
}

/// The decimal digit character for `d`.
pub open spec fn digit_char(d: nat) -> char {
    "0123456789"@[d as int]
}

/// Decimal rendering of `n`, without leading zeros.
pub open spec fn decimal_spec(n: nat) -> Seq<char>
    decreases n,
{
    if n < 10 {
        seq![digit_char(n)]
    } else {
        decimal_spec(n / 10).push(digit_char(n % 10))
    }
}

fn digit_str(d: u64) -> (r: &'static str)
    requires
        d < 10,
    ensures
        r@ == seq![digit_char(d as nat)],
{
    proof {
        reveal_strlit("0123456789");
    }
    let digits = "0123456789";
    let r = digits.substring_char(d as usize, (d + 1) as usize);
    assert(r@ =~= seq![digit_char(d as nat)]);
    r
}

/// Decimal rendering of `n`.
pub fn decimal(n: u64) -> (r: String)
    ensures
        r@ == decimal_spec(n as nat),
    decreases n,
{
    if n < 10 {
        copy_str(digit_str(n))
    } else {
        let mut out = decimal(n / 10);
        out.append(digit_str(n % 10));
        out
    }
}

/// A prefix of a replacement result that holds no character of `rep` is
/// untouched input.
proof fn lemma_replace_prefix(t: Seq<char>, pat: Seq<char>, rep: Seq<char>, k: int)
    requires
        pat.len() > 0,
        rep.len() > 0,
        0 <= k <= replace_spec(t, pat, rep).len(),
        forall|i: int| 0 <= i < k ==> !rep.contains(#[trigger] replace_spec(t, pat, rep)[i]),
    ensures
        k <= t.len(),
        replace_spec(t, pat, rep).subrange(0, k) == t.subrange(0, k),
    decreases t.len(),
{
    let r = replace_spec(t, pat, rep);
    if k == 0 {
        assert(r.subrange(0, 0) =~= t.subrange(0, 0));
    } else if t.len() < pat.len() {
    } else if t.subrange(0, pat.len() as int) == pat {
        assert(r[0] == rep[0]);
        assert(rep.contains(r[0]));
    } else {
        let t1 = t.subrange(1, t.len() as int);
        let r1 = replace_spec(t1, pat, rep);
        assert(r == seq![t[0]] + r1);
        assert forall|i: int| 0 <= i < k - 1 implies !rep.contains(#[trigger] r1[i]) by {
            assert(r1[i] == r[i + 1]);
        }
        lemma_replace_prefix(t1, pat, rep, k - 1);
        assert(r.subrange(0, k) =~= seq![t[0]] + r1.subrange(0, k - 1));
        assert(t.subrange(0, k) =~= seq![t[0]] + t1.subrange(0, k - 1));
    }
}

/// When no character of the pattern occurs in the replacement, the result
/// holds no occurrence of the pattern.
pub proof fn lemma_replace_removes(s: Seq<char>, pat: Seq<char>, rep: Seq<char>)
    requires
        pat.len() > 0,
        rep.len() > 0,
        forall|i: int| 0 <= i < pat.len() ==> !rep.contains(#[trigger] pat[i]),
    ensures
        !contains_spec(replace_spec(s, pat, rep), pat),
    decreases s.len(),
{
    let r = replace_spec(s, pat, rep);
    let m = pat.len() as int;
    if contains_spec(r, pat) {
        let j = choose|j: int| occurs_at(r, pat, j);
        assert(r.subrange(j, j + m)[0] == pat[0]);
        if s.len() < pat.len() {
        } else if s.subrange(0, m) == pat {
            let tail = s.subrange(m, s.len() as int);
            let rt = replace_spec(tail, pat, rep);
            assert(r == rep + rt);
            if j < rep.len() {
                assert(r[j] == rep[j]);
                assert(rep.contains(pat[0]));
            } else {
                lemma_replace_removes(tail, pat, rep);
                assert(rt.subrange(j - rep.len(), j - rep.len() + m) =~= r.subrange(j, j + m));
                assert(occurs_at(rt, pat, j - rep.len()));
            }
        } else {
            let t1 = s.subrange(1, s.len() as int);
            let r1 = replace_spec(t1, pat, rep);
            assert(r == seq![s[0]] + r1);
            if j >= 1 {
                lemma_replace_removes(t1, pat, rep);
                assert(r1.subrange(j - 1, j - 1 + m) =~= r.subrange(j, j + m));
                assert(occurs_at(r1, pat, j - 1));
            } else {
                assert forall|i: int| 0 <= i < m - 1 implies !rep.contains(#[trigger] r1[i]) by {
                    assert(r1[i] == r[i + 1]);
                    assert(r[i + 1] == r.subrange(0, m)[i + 1]);
                    assert(pat[i + 1] == r1[i]);
                }
                lemma_replace_prefix(t1, pat, rep, m - 1);
                assert(s.subrange(0, m) =~= seq![s[0]] + t1.subrange(0, m - 1));
                assert(r.subrange(0, m) =~= seq![s[0]] + r1.subrange(0, m - 1));
            }
        }
    }
}

} // verus!
