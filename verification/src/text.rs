//! Text primitives: whitespace, trimming and line splitting, each with the
//! meaning that the standard library gives it.

use vstd::prelude::*;

verus! {

/// The Unicode `White_Space` property, which `char::is_whitespace` and
/// `str::trim` use.
pub open spec fn is_white_space(c: char) -> bool {
    let u: u32 = c as u32;
    ||| 0x9 <= u <= 0xD
    ||| u == 0x20
    ||| u == 0x85
    ||| u == 0xA0
    ||| u == 0x1680
    ||| 0x2000 <= u <= 0x200A
    ||| u == 0x2028
    ||| u == 0x2029
    ||| u == 0x202F
    ||| u == 0x205F
    ||| u == 0x3000
}

/// Whether `c` is Unicode white space.
pub fn is_white_space_char(c: char) -> (r: bool)
    ensures
        r == is_white_space(c),
{
    let u: u32 = c as u32;
    (0x9 <= u && u <= 0xD) || u == 0x20 || u == 0x85 || u == 0xA0 || u == 0x1680 || (0x2000 <= u
        && u <= 0x200A) || u == 0x2028 || u == 0x2029 || u == 0x202F || u == 0x205F || u == 0x3000
}

/// The characters of `s`, in order.
pub fn chars_of(s: &str) -> (v: Vec<char>)
    ensures
        v@ == s@,
{
    broadcast use vstd::string::group_string_axioms;
    let mut v: Vec<char> = Vec::new();
    for c in it: s.chars()
        invariant
            v@ == it.seq().take(it.index() as int),
    {
        v.push(c);
    }
    v
}


/// `s` begins with `prefix`.
pub open spec fn has_prefix(s: Seq<char>, prefix: Seq<char>) -> bool {
    prefix.len() <= s.len() && s.subrange(0, prefix.len() as int) == prefix
}

/// `s` without its leading white space.
pub open spec fn trim_start(s: Seq<char>) -> Seq<char>
    decreases s.len(),
{
    if s.len() > 0 && is_white_space(s[0]) {
        trim_start(s.drop_first())
    } else {
        s
    }
}

/// `s` without its trailing white space.
pub open spec fn trim_end(s: Seq<char>) -> Seq<char>
    decreases s.len(),
{
    if s.len() > 0 && is_white_space(s.last()) {
        trim_end(s.drop_last())
    } else {
        s
    }
}

/// `s` without leading and trailing white space, as `str::trim` gives it.
pub open spec fn trim(s: Seq<char>) -> Seq<char> {
    trim_end(trim_start(s))
}

/// The bounds, within `lo..hi`, of the trimmed text `v[lo..hi]`.
pub fn trim_range(v: &Vec<char>, lo: usize, hi: usize) -> (r: (usize, usize))
    requires
        lo <= hi <= v.len(),
    ensures
        lo <= r.0 <= r.1 <= hi,
        v@.subrange(r.0 as int, r.1 as int) == trim(v@.subrange(lo as int, hi as int)),
{
    let mut a: usize = lo;
    while a < hi && is_white_space_char(v[a])
        invariant
            lo <= a <= hi <= v.len(),
            trim_start(v@.subrange(lo as int, hi as int)) == trim_start(
                v@.subrange(a as int, hi as int),
            ),
        decreases hi - a,
    {
        assert(v@.subrange(a as int, hi as int).drop_first() =~= v@.subrange(
            a + 1,
            hi as int,
        ));
        a = a + 1;
    }
    assert(trim_start(v@.subrange(lo as int, hi as int)) == v@.subrange(a as int, hi as int));
    let mut b: usize = hi;
    while b > a && is_white_space_char(v[b - 1])
        invariant
            lo <= a <= b <= hi <= v.len(),
            trim_end(v@.subrange(a as int, hi as int)) == trim_end(
                v@.subrange(a as int, b as int),
            ),
        decreases b - a,
    {
        assert(v@.subrange(a as int, b as int).drop_last() =~= v@.subrange(
            a as int,
            b - 1,
        ));
        b = b - 1;
    }
    (a, b)
}

/// The first position at or after `i` where `s` holds `c`, or `s.len()`.
pub open spec fn find_char(s: Seq<char>, c: char, i: int) -> int
    decreases s.len() - i,
{
    if i >= s.len() {
        s.len() as int
    } else if s[i] == c {
        i
    } else {
        find_char(s, c, i + 1)
    }
}

/// What `find_char` returns: the first `c` at or after `i`, if there is one.
pub proof fn lemma_find_char(s: Seq<char>, c: char, i: int)
    requires
        0 <= i <= s.len(),
    ensures
        i <= find_char(s, c, i) <= s.len(),
        find_char(s, c, i) < s.len() ==> s[find_char(s, c, i)] == c,
        forall|k: int| i <= k < find_char(s, c, i) ==> s[k] != c,
    decreases s.len() - i,
{
    if i < s.len() && s[i] != c {
        lemma_find_char(s, c, i + 1);
    }
}

/// The pieces of `s[i..]` between occurrences of `c`, as `str::split` gives
/// them: there is always at least one piece.
pub open spec fn split_char_from(s: Seq<char>, c: char, i: int) -> Seq<Seq<char>>
    decreases s.len() - i,
{
    if i < 0 || i > s.len() {
        seq![]
    } else {
        let j = find_char(s, c, i);
        proof {
            lemma_find_char(s, c, i);
        }
        if j >= s.len() {
            seq![s.subrange(i, s.len() as int)]
        } else {
            seq![s.subrange(i, j)] + split_char_from(s, c, j + 1)
        }
    }
}

/// `s` split at every `c`.
pub open spec fn split_char(s: Seq<char>, c: char) -> Seq<Seq<char>> {
    split_char_from(s, c, 0)
}

/// A line ended by "\r\n" loses its carriage return.
pub open spec fn strip_cr(l: Seq<char>) -> Seq<char> {
    if l.len() > 0 && l.last() == '\r' {
        l.drop_last()
    } else {
        l
    }
}

/// The lines of `s[i..]`, as `str::lines` gives them: a line ends at "\n"
/// or "\r\n", and the last line ending is optional.
pub open spec fn lines_from(s: Seq<char>, i: int) -> Seq<Seq<char>>
    decreases s.len() - i,
{
    if i < 0 || i >= s.len() {
        seq![]
    } else {
        let j = find_char(s, '\n', i);
        proof {
            lemma_find_char(s, '\n', i);
        }
        if j >= s.len() {
            seq![s.subrange(i, s.len() as int)]
        } else {
            seq![strip_cr(s.subrange(i, j))] + lines_from(s, j + 1)
        }
    }
}

/// The lines of `s`.
pub open spec fn lines(s: Seq<char>) -> Seq<Seq<char>> {
    lines_from(s, 0)
}

/// The first position at or after `i` where `v` holds `c`, or `v.len()`.
pub fn find_char_from(v: &Vec<char>, c: char, i: usize) -> (j: usize)
    requires
        i <= v.len(),
    ensures
        j == find_char(v@, c, i as int),
        i <= j <= v.len(),
{
    proof {
        lemma_find_char(v@, c, i as int);
    }
    let mut j: usize = i;
    while j < v.len() && v[j] != c
        invariant
            i <= j <= v.len(),
            find_char(v@, c, i as int) == find_char(v@, c, j as int),
        decreases v.len() - j,
    {
        j = j + 1;
    }
    j
}

/// `s` split at every `c`, as `str::split` does it.
pub fn split_on_char(s: &str, c: char) -> (r: Vec<String>)
    ensures
        r.deep_view() == split_char(s@, c),
{
    let v = chars_of(s);
    let n: usize = v.len();
    let mut out: Vec<String> = Vec::new();
    let mut i: usize = 0;
    loop
        invariant
            n == v@.len(),
            v@ == s@,
            i <= n,
            split_char(s@, c) == out.deep_view() + split_char_from(s@, c, i as int),
        decreases n - i,
    {
        let j: usize = find_char_from(&v, c, i);
        let piece = String::from_str(s.substring_char(i, j));
        let ghost before = out.deep_view();
        out.push(piece);
        assert(out.deep_view() =~= before.push(s@.subrange(i as int, j as int)));
        if j == n {
            assert(split_char(s@, c) =~= out.deep_view());
            return out;
        }
        assert(split_char(s@, c) =~= out.deep_view() + split_char_from(s@, c, j + 1));
        i = j + 1;
    }
}

/// The lines of `s`, as `str::lines` gives them.
pub fn lines_of(s: &str) -> (r: Vec<String>)
    ensures
        r.deep_view() == lines(s@),
{
    let v = chars_of(s);
    let n: usize = v.len();
    let mut out: Vec<String> = Vec::new();
    let mut i: usize = 0;
    while i < n
        invariant
            n == v@.len(),
            v@ == s@,
            i <= n,
            lines(s@) == out.deep_view() + lines_from(s@, i as int),
        decreases n - i,
    {
        let j: usize = find_char_from(&v, '\n', i);
        let ghost before = out.deep_view();
        if j == n {
            out.push(String::from_str(s.substring_char(i, j)));
            assert(out.deep_view() =~= before.push(s@.subrange(i as int, j as int)));
            assert(lines(s@) =~= out.deep_view());
            return out;
        }
        let e: usize = if j > i && v[j - 1] == '\r' {
            j - 1
        } else {
            j
        };
        out.push(String::from_str(s.substring_char(i, e)));
        assert(s@.subrange(i as int, e as int) =~= strip_cr(s@.subrange(i as int, j as int)));
        assert(out.deep_view() =~= before.push(strip_cr(s@.subrange(i as int, j as int))));
        assert(lines(s@) =~= out.deep_view() + lines_from(s@, j + 1));
        i = j + 1;
    }
    assert(lines(s@) =~= out.deep_view());
    out
}

/// The pieces joined again, with `c` between each two.
pub open spec fn join_with(pieces: Seq<Seq<char>>, c: char) -> Seq<char>
    decreases pieces.len(),
{
    if pieces.len() == 0 {
        seq![]
    } else if pieces.len() == 1 {
        pieces[0]
    } else {
        pieces[0] + seq![c] + join_with(pieces.drop_first(), c)
    }
}

/// Splitting `s[i..]` at `c` and joining the pieces with `c` gives `s[i..]`
/// back, and no piece holds `c`.
pub proof fn lemma_split_from_join(s: Seq<char>, c: char, i: int)
    requires
        0 <= i <= s.len(),
    ensures
        join_with(split_char_from(s, c, i), c) == s.subrange(i, s.len() as int),
        split_char_from(s, c, i).len() >= 1,
        forall|k: int|
            0 <= k < split_char_from(s, c, i).len() ==> !(#[trigger] split_char_from(s, c, i)[k]).contains(c),
    decreases s.len() - i,
{
    lemma_find_char(s, c, i);
    let j = find_char(s, c, i);
    let piece = s.subrange(i, j);
    assert(!piece.contains(c)) by {
        if piece.contains(c) {
            let t = choose|t: int| 0 <= t < piece.len() && piece[t] == c;
            assert(s[i + t] == c);
        }
    }
    if j < s.len() {
        lemma_split_from_join(s, c, j + 1);
        let rest = split_char_from(s, c, j + 1);
        let all = split_char_from(s, c, i);
        assert(all == seq![piece] + rest);
        assert(all.drop_first() =~= rest);
        assert(s.subrange(i, s.len() as int) =~= piece + seq![c] + s.subrange(j + 1, s.len() as int));
        assert forall|k: int| 0 <= k < all.len() implies !(#[trigger] all[k]).contains(c) by {
            if k > 0 {
                assert(all[k] == rest[k - 1]);
            }
        }
    }
}

/// Law: splitting at `c` and joining with `c` gives the text back, and no
/// piece holds `c`.
pub proof fn lemma_split_join(s: Seq<char>, c: char)
    ensures
        join_with(split_char(s, c), c) == s,
        split_char(s, c).len() >= 1,
        forall|k: int| 0 <= k < split_char(s, c).len() ==> !(#[trigger] split_char(s, c)[k]).contains(c),
{
    lemma_split_from_join(s, c, 0);
    assert(s.subrange(0, s.len() as int) =~= s);
}

/// No line of `s[i..]` holds a newline.
pub proof fn lemma_lines_from_no_newline(s: Seq<char>, i: int)
    requires
        0 <= i,
    ensures
        forall|k: int| 0 <= k < lines_from(s, i).len() ==> !(#[trigger] lines_from(s, i)[k]).contains('\n'),
    decreases s.len() - i,
{
    if i < s.len() {
        lemma_find_char(s, '\n', i);
        let j = find_char(s, '\n', i);
        let piece = s.subrange(i, j);
        assert(!piece.contains('\n')) by {
            if piece.contains('\n') {
                let t = choose|t: int| 0 <= t < piece.len() && piece[t] == '\n';
                assert(s[i + t] == '\n');
            }
        }
        assert(!strip_cr(piece).contains('\n')) by {
            if strip_cr(piece).contains('\n') {
                let t = choose|t: int| 0 <= t < strip_cr(piece).len() && strip_cr(piece)[t] == '\n';
                assert(piece[t] == '\n');
            }
        }
        if j < s.len() {
            lemma_lines_from_no_newline(s, j + 1);
            let all = lines_from(s, i);
            let rest = lines_from(s, j + 1);
            assert forall|k: int| 0 <= k < all.len() implies !(#[trigger] all[k]).contains('\n') by {
                if k > 0 {
                    assert(all[k] == rest[k - 1]);
                }
            }
        }
    }
}

/// Law: no line holds a newline.
pub proof fn lemma_lines_no_newline(s: Seq<char>)
    ensures
        forall|k: int| 0 <= k < lines(s).len() ==> !(#[trigger] lines(s)[k]).contains('\n'),
{
    lemma_lines_from_no_newline(s, 0);
}

/// What is left after trimming the start is a tail of `s` that does not
/// start with white space.
pub proof fn lemma_trim_start(s: Seq<char>)
    ensures
        trim_start(s).len() <= s.len(),
        trim_start(s) == s.subrange(s.len() - trim_start(s).len(), s.len() as int),
        trim_start(s).len() > 0 ==> !is_white_space(trim_start(s)[0]),
    decreases s.len(),
{
    if s.len() > 0 && is_white_space(s[0]) {
        lemma_trim_start(s.drop_first());
        assert(s.drop_first().subrange(
            s.drop_first().len() - trim_start(s).len(),
            s.drop_first().len() as int,
        ) =~= s.subrange(s.len() - trim_start(s).len(), s.len() as int));
    } else {
        assert(s.subrange(0, s.len() as int) =~= s);
    }
}

/// What is left after trimming the end is a head of `s` that does not end
/// with white space.
pub proof fn lemma_trim_end(s: Seq<char>)
    ensures
        trim_end(s).len() <= s.len(),
        trim_end(s) == s.subrange(0, trim_end(s).len() as int),
        trim_end(s).len() > 0 ==> !is_white_space(trim_end(s).last()),
    decreases s.len(),
{
    if s.len() > 0 && is_white_space(s.last()) {
        lemma_trim_end(s.drop_last());
        assert(s.drop_last().subrange(0, trim_end(s).len() as int) =~= s.subrange(
            0,
            trim_end(s).len() as int,
        ));
    } else {
        assert(s.subrange(0, s.len() as int) =~= s);
    }
}

/// Law: trimmed text is a contiguous part of the text, and neither starts
/// nor ends with white space.
pub proof fn lemma_trim(s: Seq<char>)
    ensures
        exists|a: int, b: int| 0 <= a <= b <= s.len() && trim(s) == s.subrange(a, b),
        trim(s).len() > 0 ==> !is_white_space(trim(s)[0]) && !is_white_space(trim(s).last()),
{
    let t = trim_start(s);
    lemma_trim_start(s);
    lemma_trim_end(t);
    let a = s.len() - t.len();
    let b = a + trim_end(t).len();
    assert(trim(s) =~= s.subrange(a, b));
    if trim(s).len() > 0 {
        assert(trim(s)[0] == t[0]);
    }
}

/// `find_char` is the first occurrence: a position that holds `c`, with no
/// `c` between `i` and it, is what `find_char` returns.
pub proof fn lemma_find_char_at(s: Seq<char>, c: char, i: int, j: int)
    requires
        0 <= i <= j <= s.len(),
        j < s.len() ==> s[j] == c,
        forall|k: int| i <= k < j ==> s[k] != c,
    ensures
        find_char(s, c, i) == j,
{
    lemma_find_char(s, c, i);
    let f = find_char(s, c, i);
    if f < j {
        assert(s[f] == c);
    }
    if f > j {
        assert(s[j] != c);
    }
}

/// Splitting the tail `t` of `a + t` is splitting `t`.
proof fn lemma_split_from_shift(a: Seq<char>, t: Seq<char>, c: char, i: int)
    requires
        0 <= i <= t.len(),
    ensures
        split_char_from(a + t, c, a.len() + i) == split_char_from(t, c, i),
    decreases t.len() - i,
{
    let s = a + t;
    lemma_find_char(t, c, i);
    let j = find_char(t, c, i);
    assert forall|k: int| a.len() + i <= k < a.len() + j implies s[k] != c by {
        assert(s[k] == t[k - a.len()]);
    }
    lemma_find_char_at(s, c, a.len() + i, a.len() + j);
    assert(s.subrange(a.len() + i, a.len() + j) =~= t.subrange(i, j));
    if j < t.len() {
        lemma_split_from_shift(a, t, c, j + 1);
    }
}

/// The pieces joined with `c`: the joined earlier pieces, `c`, and the last
/// piece.
pub proof fn lemma_join_last(pieces: Seq<Seq<char>>, c: char)
    requires
        pieces.len() >= 2,
    ensures
        join_with(pieces, c) == join_with(pieces.drop_last(), c) + seq![c] + pieces.last(),
    decreases pieces.len(),
{
    if pieces.len() > 2 {
        lemma_join_last(pieces.drop_first(), c);
        assert(pieces.drop_first().drop_last() =~= pieces.drop_last().drop_first());
        assert(join_with(pieces.drop_last(), c) == pieces[0] + seq![c] + join_with(
            pieces.drop_last().drop_first(),
            c,
        ));
        assert(join_with(pieces, c) =~= join_with(pieces.drop_last(), c) + seq![c]
            + pieces.last());
    } else {
        assert(pieces.drop_last().len() == 1);
        assert(pieces.drop_first().len() == 1);
        assert(join_with(pieces.drop_first(), c) == pieces.last());
        assert(join_with(pieces.drop_last(), c) == pieces[0]);
        assert(join_with(pieces, c) =~= join_with(pieces.drop_last(), c) + seq![c]
            + pieces.last());
    }
}

/// Law: joining pieces that hold no `c` with `c`, then splitting at `c`,
/// gives the pieces back.
pub proof fn lemma_join_split(pieces: Seq<Seq<char>>, c: char)
    requires
        pieces.len() >= 1,
        forall|k: int| 0 <= k < pieces.len() ==> !(#[trigger] pieces[k]).contains(c),
    ensures
        split_char(join_with(pieces, c), c) == pieces,
    decreases pieces.len(),
{
    let p0 = pieces[0];
    let s = join_with(pieces, c);
    assert(!p0.contains(c));
    assert forall|k: int| 0 <= k < p0.len() implies p0[k] != c by {
        if p0[k] == c {
            assert(p0.contains(c));
        }
    }
    if pieces.len() == 1 {
        lemma_find_char_at(p0, c, 0, p0.len() as int);
        assert(p0.subrange(0, p0.len() as int) =~= p0);
        assert(split_char(s, c) =~= pieces);
    } else {
        let rest = pieces.drop_first();
        assert forall|k: int| 0 <= k < rest.len() implies !(#[trigger] rest[k]).contains(c) by {
            assert(rest[k] == pieces[k + 1]);
        }
        lemma_join_split(rest, c);
        let a = p0 + seq![c];
        let j = join_with(rest, c);
        assert(s == a + j);
        assert forall|k: int| 0 <= k < p0.len() implies s[k] != c by {
            assert(s[k] == p0[k]);
        }
        lemma_find_char_at(s, c, 0, p0.len() as int);
        assert(s.subrange(0, p0.len() as int) =~= p0);
        lemma_split_from_shift(a, j, c, 0);
        assert(split_char(s, c) =~= seq![p0] + split_char(j, c));
        assert(split_char(s, c) =~= pieces);
    }
}

/// Without carriage returns, splitting at newlines gives the lines, and one
/// empty piece more when the text ends with a newline.
proof fn lemma_lines_from_split(s: Seq<char>, i: int)
    requires
        0 <= i < s.len(),
        !s.contains('\r'),
    ensures
        split_char_from(s, '\n', i) == if s.last() == '\n' {
            lines_from(s, i).push(Seq::<char>::empty())
        } else {
            lines_from(s, i)
        },
    decreases s.len() - i,
{
    lemma_find_char(s, '\n', i);
    let j = find_char(s, '\n', i);
    let piece = s.subrange(i, j);
    if j < s.len() {
        if j > i {
            assert(s[j - 1] != '\r') by {
                if s[j - 1] == '\r' {
                    assert(s.contains('\r'));
                }
            }
            assert(piece.last() == s[j - 1]);
        }
        assert(strip_cr(piece) == piece);
        if j + 1 < s.len() {
            lemma_lines_from_split(s, j + 1);
            let rest = lines_from(s, j + 1);
            assert(seq![piece] + rest.push(Seq::<char>::empty()) =~= (seq![piece] + rest).push(
                Seq::<char>::empty(),
            ));
        } else {
            assert(s.last() == '\n');
            lemma_find_char(s, '\n', j + 1);
            assert(find_char(s, '\n', j + 1) == s.len());
            assert(s.subrange(j + 1, s.len() as int) =~= Seq::<char>::empty());
            assert(split_char_from(s, '\n', j + 1) =~= seq![Seq::<char>::empty()]);
            assert(lines_from(s, j + 1) =~= Seq::<Seq<char>>::empty());
            assert(split_char_from(s, '\n', i) =~= lines_from(s, i).push(Seq::<char>::empty()));
        }
    } else {
        assert(s.last() != '\n');
    }
}

/// Law: on text without carriage returns, the lines joined again with
/// newlines give the text back, less one final newline if it has one.
pub proof fn lemma_lines_join(s: Seq<char>)
    requires
        !s.contains('\r'),
    ensures
        join_with(lines(s), '\n') == if s.len() > 0 && s.last() == '\n' {
            s.drop_last()
        } else {
            s
        },
{
    if s.len() > 0 {
        lemma_lines_from_split(s, 0);
        lemma_split_join(s, '\n');
        if s.last() == '\n' {
            let ls = lines(s);
            let pieces = ls.push(Seq::<char>::empty());
            assert(lines_from(s, 0).len() >= 1);
            lemma_join_last(pieces, '\n');
            assert(pieces.drop_last() =~= ls);
            assert(s.drop_last() =~= join_with(ls, '\n'));
        }
    } else {
        assert(lines(s) =~= Seq::<Seq<char>>::empty());
    }
}

/// Law: a line ended by a carriage return and a newline is read without
/// either; a last line without a newline is kept whole.
pub proof fn lemma_crlf_line(l: Seq<char>)
    requires
        !l.contains('\n'),
    ensures
        lines(l + seq!['\r', '\n']) == seq![l],
        l.len() > 0 ==> lines(l) == seq![l],
{
    let s = l + seq!['\r', '\n'];
    assert forall|k: int| 0 <= k < l.len() implies s[k] != '\n' by {
        if s[k] == '\n' {
            assert(l[k] == '\n');
            assert(l.contains('\n'));
        }
    }
    lemma_find_char_at(s, '\n', 0, (l.len() + 1) as int);
    assert(s.subrange(0, (l.len() + 1) as int).drop_last() =~= l);
    assert(lines_from(s, (l.len() + 2) as int) =~= Seq::<Seq<char>>::empty());
    assert(lines(s) =~= seq![l]);
    if l.len() > 0 {
        assert forall|k: int| 0 <= k < l.len() implies l[k] != '\n' by {
            if l[k] == '\n' {
                assert(l.contains('\n'));
            }
        }
        lemma_find_char_at(l, '\n', 0, l.len() as int);
        assert(l.subrange(0, l.len() as int) =~= l);
        assert(lines(l) =~= seq![l]);
    }
}

} // verus!
