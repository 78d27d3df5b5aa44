//! Character-level text operations with their mathematical meaning.

use vstd::prelude::*;

verus! {

/// `c` has the Unicode `White_Space` property (what `char::is_whitespace` tests).
pub open spec fn is_ws(c: char) -> bool {
    let u = c as u32;
    ||| 0x09 <= u <= 0x0D
    ||| u == 0x20
    ||| u == 0x85
    ||| u == 0xA0
    ||| u == 0x1680
    ||| 0x2000 <= u <= 0x200A
    ||| u == 0x2028
    ||| u == 0x2029
    ||| u == 0x202F
    ||| u == 0x205F
    ||| u == 0x3000
}

/// `s` without its leading whitespace.
pub open spec fn trim_start(s: Seq<char>) -> Seq<char>
    decreases s.len(),
{
    if s.len() > 0 && is_ws(s[0]) {
        trim_start(s.drop_first())
    } else {
        s
    }
}

/// `s` without its trailing whitespace.
pub open spec fn trim_end(s: Seq<char>) -> Seq<char>
    decreases s.len(),
{
    if s.len() > 0 && is_ws(s.last()) {
        trim_end(s.drop_last())
    } else {
        s
    }
}

/// `s` without leading and trailing whitespace.
pub open spec fn trim(s: Seq<char>) -> Seq<char> {
    trim_end(trim_start(s))
}

pub fn is_whitespace(c: char) -> (r: bool)
    ensures
        r == is_ws(c),
{
    let u = c as u32;
    (0x09 <= u && u <= 0x0D) || u == 0x20 || u == 0x85 || u == 0xA0 || u == 0x1680 || (0x2000
        <= u && u <= 0x200A) || u == 0x2028 || u == 0x2029 || u == 0x202F || u == 0x205F || u
        == 0x3000
}

/// The characters of `s`, in order.
pub fn chars_of(s: &str) -> (r: Vec<char>)
    ensures
        r@ == s@,
{
    let mut r: Vec<char> = Vec::new();
    for c in it: s.chars()
        invariant
            r@ == it.seq().take(it.index() as int),
            it.seq() == s@,
    {
        r.push(c);
    }
    r
}


/// Appends one character to a `String` (`String::push`).
#[verifier::external_body]
pub(crate) fn push_char(s: &mut String, c: char)
    ensures
        final(s)@ == old(s)@.push(c),
{
    s.push(c);
}

/// A `String` holding exactly the characters `cs`.
pub fn string_of(cs: &Vec<char>) -> (r: String)
    ensures
        r@ == cs@,
{
    let mut r = String::new();
    for i in 0..cs.len()
        invariant
            r@ == cs@.take(i as int),
    {
        push_char(&mut r, cs[i]);
        assert(cs@.take(i + 1) == cs@.take(i as int).push(cs@[i as int]));
    }
    assert(cs@.take(cs@.len() as int) == cs@);
    r
}

/// `p` is a prefix of `s`.
pub open spec fn has_prefix(s: Seq<char>, p: Seq<char>) -> bool {
    p.len() <= s.len() && s.take(p.len() as int) == p
}

/// `p` is a suffix of `s`.
pub open spec fn has_suffix(s: Seq<char>, p: Seq<char>) -> bool {
    p.len() <= s.len() && s.skip(s.len() - p.len()) == p
}

pub fn starts_with(s: &Vec<char>, p: &Vec<char>) -> (r: bool)
    ensures
        r == has_prefix(s@, p@),
{
    if p.len() > s.len() {
        return false;
    }
    for i in 0..p.len()
        invariant
            p@.len() <= s@.len(),
            forall|j: int| 0 <= j < i ==> s@[j] == p@[j],
    {
        if s[i] != p[i] {
            assert(s@.take(p@.len() as int)[i as int] != p@[i as int]);
            return false;
        }
    }
    assert(s@.take(p@.len() as int) =~= p@);
    true
}

pub fn ends_with(s: &Vec<char>, p: &Vec<char>) -> (r: bool)
    ensures
        r == has_suffix(s@, p@),
{
    if p.len() > s.len() {
        return false;
    }
    let off = s.len() - p.len();
    for i in 0..p.len()
        invariant
            off + p.len() == s.len(),
            p@.len() <= s@.len(),
            forall|j: int| 0 <= j < i ==> s@[off + j] == p@[j],
    {
        assert(i < p@.len());
        if s[off + i] != p[i] {
            assert(s@.skip(off as int)[i as int] != p@[i as int]);
            return false;
        }
    }
    assert(s@.skip(off as int) =~= p@);
    true
}

/// The characters of `s` from index `a` up to (not including) `b`.
pub fn slice(s: &Vec<char>, a: usize, b: usize) -> (r: Vec<char>)
    requires
        a <= b <= s@.len(),
    ensures
        r@ == s@.subrange(a as int, b as int),
{
    let mut r: Vec<char> = Vec::new();
    let mut i = a;
    while i < b
        invariant
            a <= i <= b <= s@.len(),
            r@ == s@.subrange(a as int, i as int),
        decreases b - i,
    {
        r.push(s[i]);
        i = i + 1;
    }
    r
}

/// `a` followed by `b`.
pub fn concat(a: &Vec<char>, b: &Vec<char>) -> (r: Vec<char>)
    ensures
        r@ == a@ + b@,
{
    let mut r = a.clone();
    for i in 0..b.len()
        invariant
            r@ == a@ + b@.take(i as int),
    {
        r.push(b[i]);
        assert(b@.take(i + 1) == b@.take(i as int).push(b@[i as int]));
    }
    assert(b@.take(b@.len() as int) == b@);
    r
}

proof fn lemma_trim_start_skip(s: Seq<char>, i: int)
    requires
        0 <= i < s.len(),
        is_ws(s[i]),
    ensures
        trim_start(s.skip(i)) == trim_start(s.skip(i + 1)),
{
    assert(s.skip(i).drop_first() =~= s.skip(i + 1));
}

proof fn lemma_trim_end_take(s: Seq<char>, j: int)
    requires
        0 < j <= s.len(),
        is_ws(s[j - 1]),
    ensures
        trim_end(s.take(j)) == trim_end(s.take(j - 1)),
{
    assert(s.take(j).drop_last() =~= s.take(j - 1));
}

/// The index of the first non-whitespace character of `s` (or its length).
fn leading_ws_count(s: &Vec<char>) -> (i: usize)
    ensures
        i <= s@.len(),
        trim_start(s@) == s@.skip(i as int),
{
    let mut i: usize = 0;
    assert(s@.skip(0) =~= s@);
    while i < s.len() && is_whitespace(s[i])
        invariant
            i <= s@.len(),
            trim_start(s@) == trim_start(s@.skip(i as int)),
        decreases s@.len() - i,
    {
        proof {
            lemma_trim_start_skip(s@, i as int);
        }
        i = i + 1;
    }
    i
}

pub fn trim_start_chars(s: &Vec<char>) -> (r: Vec<char>)
    ensures
        r@ == trim_start(s@),
{
    let i = leading_ws_count(s);
    let r = slice(s, i, s.len());
    assert(r@ =~= s@.skip(i as int));
    r
}

pub fn trim_end_chars(s: &Vec<char>) -> (r: Vec<char>)
    ensures
        r@ == trim_end(s@),
{
    let mut j = s.len();
    assert(s@.take(j as int) =~= s@);
    while j > 0 && is_whitespace(s[j - 1])
        invariant
            j <= s@.len(),
            trim_end(s@) == trim_end(s@.take(j as int)),
        decreases j,
    {
        proof {
            lemma_trim_end_take(s@, j as int);
        }
        j = j - 1;
    }
    let r = slice(s, 0, j);
    assert(r@ =~= s@.take(j as int));
    r
}

pub fn trim_chars(s: &Vec<char>) -> (r: Vec<char>)
    ensures
        r@ == trim(s@),
{
    let t = trim_start_chars(s);
    trim_end_chars(&t)
}


/// `l` without one trailing carriage return.
pub open spec fn strip_cr(l: Seq<char>) -> Seq<char> {
    if l.len() > 0 && l.last() == '\r' {
        l.drop_last()
    } else {
        l
    }
}

/// Reading `s` left to right: the lines ended by a line feed so far (each
/// without its `\n` or `\r\n`), and the characters of the line not yet ended.
pub open spec fn line_scan(s: Seq<char>) -> (Seq<Seq<char>>, Seq<char>)
    decreases s.len(),
{
    if s.len() == 0 {
        (seq![], seq![])
    } else {
        let (done, cur) = line_scan(s.drop_last());
        if s.last() == '\n' {
            (done.push(strip_cr(cur)), seq![])
        } else {
            (done, cur.push(s.last()))
        }
    }
}

/// The lines of `s`, as `str::lines` yields them: split at `\n` or `\r\n`,
/// with a last line that is not ended counted only when it is not empty.
pub open spec fn lines(s: Seq<char>) -> Seq<Seq<char>> {
    let (done, cur) = line_scan(s);
    if cur.len() == 0 {
        done
    } else {
        done.push(cur)
    }
}

/// The views of a sequence of character vectors.
pub open spec fn views(v: Seq<Vec<char>>) -> Seq<Seq<char>> {
    v.map_values(|x: Vec<char>| x@)
}

pub fn lines_of(s: &Vec<char>) -> (r: Vec<Vec<char>>)
    ensures
        views(r@) == lines(s@),
{
    let mut done: Vec<Vec<char>> = Vec::new();
    let mut cur: Vec<char> = Vec::new();
    for i in 0..s.len()
        invariant
            (views(done@), cur@) == line_scan(s@.take(i as int)),
    {
        assert(s@.take(i + 1).drop_last() =~= s@.take(i as int));
        if s[i] == '\n' {
            let mut line = cur;
            if line.len() > 0 && line[line.len() - 1] == '\r' {
                line.pop();
            }
            let ghost prev = views(done@);
            done.push(line);
            assert(views(done@) =~= prev.push(line@));
            cur = Vec::new();
        } else {
            cur.push(s[i]);
        }
    }
    assert(s@.take(s@.len() as int) =~= s@);
    if cur.len() > 0 {
        let ghost prev = views(done@);
        done.push(cur);
        assert(views(done@) =~= prev.push(line_scan(s@).1));
    }
    done
}

/// Reading on through characters without a line feed only extends the line
/// not yet ended.
proof fn lemma_line_scan_plain_tail(s: Seq<char>, c: Seq<char>)
    requires
        !c.contains('\n'),
    ensures
        line_scan(s + c) == (line_scan(s).0, line_scan(s).1 + c),
    decreases c.len(),
{
    if c.len() == 0 {
        assert(s + c =~= s);
        assert(line_scan(s).1 + c =~= line_scan(s).1);
    } else {
        let c0 = c.drop_last();
        assert(!c0.contains('\n')) by {
            if c0.contains('\n') {
                let j = choose|j: int| 0 <= j < c0.len() && c0[j] == '\n';
                assert(c[j] == '\n');
            }
        }
        lemma_line_scan_plain_tail(s, c0);
        assert((s + c).drop_last() =~= s + c0);
        assert((s + c).last() == c.last());
        assert(c.last() != '\n') by {
            assert(c[c.len() - 1] == c.last());
        }
        assert(line_scan(s).1 + c =~= (line_scan(s).1 + c0).push(c.last()));
    }
}

/// Lines joined by `\n` are read back as the same lines when none holds a
/// line feed, none but the last ends in a carriage return, and the last is
/// not empty.
pub proof fn lemma_lines_of_join(ls: Seq<Seq<char>>)
    requires
        ls.len() > 0,
        ls.last().len() > 0,
        forall|i: int| 0 <= i < ls.len() ==> !(#[trigger] ls[i]).contains('\n'),
        forall|i: int|
            0 <= i < ls.len() - 1 ==> !((#[trigger] ls[i]).len() > 0 && ls[i].last() == '\r'),
    ensures
        lines(join(ls, "\n"@)) == ls,
{
    lemma_scan_of_join(ls);
    assert(ls.drop_last().push(ls.last()) =~= ls);
}

proof fn lemma_scan_of_join(ls: Seq<Seq<char>>)
    requires
        ls.len() > 0,
        forall|i: int| 0 <= i < ls.len() ==> !(#[trigger] ls[i]).contains('\n'),
        forall|i: int|
            0 <= i < ls.len() - 1 ==> !((#[trigger] ls[i]).len() > 0 && ls[i].last() == '\r'),
    ensures
        line_scan(join(ls, "\n"@)) == (ls.drop_last(), ls.last()),
    decreases ls.len(),
{
    reveal_strlit("\n");
    if ls.len() == 1 {
        assert(!ls[0].contains('\n'));
        lemma_line_scan_plain_tail(seq![], ls[0]);
        assert(Seq::<char>::empty() + ls[0] =~= ls[0]);
        assert(ls.drop_last() =~= Seq::<Seq<char>>::empty());
    } else {
        let front = ls.drop_last();
        assert forall|i: int| 0 <= i < front.len() implies !(#[trigger] front[i]).contains('\n') by {
            assert(front[i] == ls[i]);
        }
        assert forall|i: int| 0 <= i < front.len() - 1 implies !((#[trigger] front[i]).len() > 0
            && front[i].last() == '\r') by {
            assert(front[i] == ls[i]);
        }
        lemma_scan_of_join(front);
        let j = join(front, "\n"@);
        let jn = j + "\n"@;
        assert(jn.drop_last() =~= j);
        assert(jn.last() == '\n');
        let prev = front.last();
        assert(prev == ls[ls.len() - 2]);
        assert(strip_cr(prev) == prev);
        assert(front.drop_last().push(prev) =~= front);
        assert(line_scan(jn) == (front, Seq::<char>::empty()));
        assert(!ls.last().contains('\n')) by {
            assert(ls[ls.len() - 1] == ls.last());
        }
        lemma_line_scan_plain_tail(jn, ls.last());
        assert(Seq::<char>::empty() + ls.last() =~= ls.last());
    }
}

/// No line read from a text holds a line feed.
pub proof fn lemma_lines_no_feed(s: Seq<char>)
    ensures
        forall|i: int| 0 <= i < lines(s).len() ==> !(#[trigger] lines(s)[i]).contains('\n'),
{
    lemma_scan_no_feed(s);
}

proof fn lemma_scan_no_feed(s: Seq<char>)
    ensures
        forall|i: int| 0 <= i < line_scan(s).0.len() ==> !(#[trigger] line_scan(s).0[i]).contains(
            '\n',
        ),
        !line_scan(s).1.contains('\n'),
    decreases s.len(),
{
    if s.len() > 0 {
        lemma_scan_no_feed(s.drop_last());
        let (done, cur) = line_scan(s.drop_last());
        if s.last() == '\n' {
            assert(!strip_cr(cur).contains('\n')) by {
                if strip_cr(cur).contains('\n') {
                    let j = choose|j: int| 0 <= j < strip_cr(cur).len() && strip_cr(cur)[j] == '\n';
                    assert(cur[j] == '\n');
                }
            }
            assert forall|i: int| 0 <= i < done.push(strip_cr(cur)).len() implies !(
            #[trigger] done.push(strip_cr(cur))[i]).contains('\n') by {
                if i < done.len() {
                    assert(done.push(strip_cr(cur))[i] == done[i]);
                }
            }
            assert(!Seq::<char>::empty().contains('\n'));
        } else {
            assert(!cur.push(s.last()).contains('\n')) by {
                if cur.push(s.last()).contains('\n') {
                    let j = choose|j: int|
                        0 <= j < cur.push(s.last()).len() && cur.push(s.last())[j] == '\n';
                    if j < cur.len() {
                        assert(cur[j] == '\n');
                    }
                }
            }
        }
    }
}

/// The sequences of `ls` put one after another with `sep` between neighbours.
pub open spec fn join(ls: Seq<Seq<char>>, sep: Seq<char>) -> Seq<char>
    decreases ls.len(),
{
    if ls.len() == 0 {
        seq![]
    } else if ls.len() == 1 {
        ls[0]
    } else {
        join(ls.drop_last(), sep) + sep + ls.last()
    }
}

pub fn join_chars(ls: &Vec<Vec<char>>, sep: &Vec<char>) -> (r: Vec<char>)
    ensures
        r@ == join(views(ls@), sep@),
{
    let mut r: Vec<char> = Vec::new();
    for i in 0..ls.len()
        invariant
            r@ == join(views(ls@).take(i as int), sep@),
    {
        assert(views(ls@).take(i + 1).drop_last() =~= views(ls@).take(i as int));
        if i == 0 {
            r = ls[0].clone();
            assert(views(ls@).take(1) =~= seq![ls@[0]@]);
        } else {
            let with_sep = concat(&r, sep);
            r = concat(&with_sep, &ls[i]);
        }
    }
    assert(views(ls@).take(ls@.len() as int) =~= views(ls@));
    r
}

/// Bytes in the UTF-8 encoding of `c`.
pub open spec fn char_width(c: char) -> nat {
    let u = c as u32;
    if u <= 0x7F {
        1
    } else if u <= 0x7FF {
        2
    } else if u <= 0xFFFF {
        3
    } else {
        4
    }
}

/// Bytes in the UTF-8 encoding of `s`: what `str::len` gives.
pub open spec fn utf8_len(s: Seq<char>) -> nat
    decreases s.len(),
{
    if s.len() == 0 {
        0
    } else {
        utf8_len(s.drop_last()) + char_width(s.last())
    }
}

/// The character index at which byte offset `b` of the UTF-8 encoding of `s`
/// begins, when `b` is a character boundary.
pub open spec fn boundary_index(s: Seq<char>, b: int) -> Option<int> {
    if exists|k: int| 0 <= k <= s.len() && utf8_len(s.take(k)) == b {
        Some(choose|k: int| 0 <= k <= s.len() && utf8_len(s.take(k)) == b)
    } else {
        None
    }
}

/// `&s[a..b]` taken on the UTF-8 bytes of `s`; `None` where that slicing panics
/// (a bound off a character boundary, past the end, or `a > b`).
pub open spec fn byte_slice(s: Seq<char>, a: int, b: int) -> Option<Seq<char>> {
    match (boundary_index(s, a), boundary_index(s, b)) {
        (Some(i), Some(j)) => if a <= b {
            Some(s.subrange(i, j))
        } else {
            None
        },
        _ => None,
    }
}

pub fn char_width_of(c: char) -> (w: u128)
    ensures
        w == char_width(c),
        1 <= w <= 4,
{
    let u = c as u32;
    if u <= 0x7F {
        1
    } else if u <= 0x7FF {
        2
    } else if u <= 0xFFFF {
        3
    } else {
        4
    }
}

proof fn lemma_utf8_len_take_step(s: Seq<char>, k: int)
    requires
        0 <= k < s.len(),
    ensures
        utf8_len(s.take(k + 1)) == utf8_len(s.take(k)) + char_width(s[k]),
{
    assert(s.take(k + 1).drop_last() =~= s.take(k));
}

proof fn lemma_utf8_len_strict(s: Seq<char>, k1: int, k2: int)
    requires
        0 <= k1 < k2 <= s.len(),
    ensures
        utf8_len(s.take(k1)) < utf8_len(s.take(k2)),
    decreases k2 - k1,
{
    lemma_utf8_len_take_step(s, k2 - 1);
    if k1 < k2 - 1 {
        lemma_utf8_len_strict(s, k1, k2 - 1);
    }
}

/// Bytes in the UTF-8 encoding of `s`.
pub fn utf8_len_of(s: &Vec<char>) -> (n: u128)
    ensures
        n == utf8_len(s@),
{
    let mut n: u128 = 0;
    let len = s.len();
    for k in 0..len
        invariant
            len == s@.len(),
            n == utf8_len(s@.take(k as int)),
            n <= 4 * k,
            s@.len() <= usize::MAX,
    {
        proof {
            lemma_utf8_len_take_step(s@, k as int);
        }
        n = n + char_width_of(s[k]);
    }
    assert(s@.take(s@.len() as int) =~= s@);
    n
}

/// The character index at which byte offset `b` begins, if it is a boundary.
fn boundary_index_of(s: &Vec<char>, b: u128) -> (r: Option<usize>)
    ensures
        match r {
            Some(k) => boundary_index(s@, b as int) == Some(k as int),
            None => boundary_index(s@, b as int) is None,
        },
{
    let mut k: usize = 0;
    let mut acc: u128 = 0;
    while k < s.len() && acc < b
        invariant
            k <= s@.len(),
            acc == utf8_len(s@.take(k as int)),
            acc <= 4 * k,
            forall|j: int| 0 <= j < k ==> utf8_len(#[trigger] s@.take(j)) < b,
        decreases s@.len() - k,
    {
        proof {
            lemma_utf8_len_take_step(s@, k as int);
        }
        acc = acc + char_width_of(s[k]);
        k = k + 1;
    }
    if acc == b {
        assert(utf8_len(s@.take(k as int)) == b);
        assert forall|j: int| 0 <= j <= s@.len() && utf8_len(s@.take(j)) == b implies j == k by {
            if j < k {
                lemma_utf8_len_strict(s@, j, k as int);
            } else if j > k {
                lemma_utf8_len_strict(s@, k as int, j);
            }
        }
        Some(k)
    } else {
        assert forall|j: int| 0 <= j <= s@.len() implies utf8_len(s@.take(j)) != b by {
            if j > k {
                lemma_utf8_len_strict(s@, k as int, j);
            }
        }
        None
    }
}

/// `&s[a..b]` on the UTF-8 bytes of `s`, or `None` where that slicing panics.
pub fn byte_slice_of(s: &Vec<char>, a: u128, b: u128) -> (r: Option<Vec<char>>)
    ensures
        match r {
            Some(x) => byte_slice(s@, a as int, b as int) == Some(x@),
            None => byte_slice(s@, a as int, b as int) is None,
        },
{
    if a > b {
        return None;
    }
    match (boundary_index_of(s, a), boundary_index_of(s, b)) {
        (Some(i), Some(j)) => {
            proof {
                if j < i {
                    lemma_utf8_len_strict(s@, j as int, i as int);
                }
            }
            Some(slice(s, i, j))
        },
        _ => None,
    }
}


/// `s` with every match of the non-empty `pat` replaced by `rep`, matches
/// taken left to right without overlap (`str::replace`).
pub open spec fn replace_all(s: Seq<char>, pat: Seq<char>, rep: Seq<char>) -> Seq<char>
    decreases s.len(),
{
    if pat.len() == 0 || s.len() < pat.len() {
        s
    } else if s.take(pat.len() as int) == pat {
        rep + replace_all(s.skip(pat.len() as int), pat, rep)
    } else {
        seq![s[0]] + replace_all(s.drop_first(), pat, rep)
    }
}

fn matches_at(s: &Vec<char>, i: usize, pat: &Vec<char>) -> (r: bool)
    requires
        i + pat@.len() <= s@.len(),
    ensures
        r == (s@.skip(i as int).take(pat@.len() as int) == pat@),
{
    for j in 0..pat.len()
        invariant
            i + pat@.len() <= s@.len(),
            i + pat.len() <= s.len(),
            forall|k: int| 0 <= k < j ==> s@[i + k] == pat@[k],
    {
        if s[i + j] != pat[j] {
            assert(s@.skip(i as int).take(pat@.len() as int)[j as int] != pat@[j as int]);
            return false;
        }
    }
    assert(s@.skip(i as int).take(pat@.len() as int) =~= pat@);
    true
}

/// `str::replace` for a non-empty pattern.
pub fn replace_chars(s: &Vec<char>, pat: &Vec<char>, rep: &Vec<char>) -> (r: Vec<char>)
    requires
        pat@.len() > 0,
    ensures
        r@ == replace_all(s@, pat@, rep@),
{
    let mut out: Vec<char> = Vec::new();
    let mut i: usize = 0;
    assert(s@.skip(0) =~= s@);
    while i < s.len()
        invariant
            i <= s@.len(),
            pat@.len() > 0,
            out@ + replace_all(s@.skip(i as int), pat@, rep@) == replace_all(s@, pat@, rep@),
        decreases s@.len() - i,
    {
        let ghost rest = s@.skip(i as int);
        if s.len() - i >= pat.len() && matches_at(s, i, pat) {
            assert(rest.skip(pat@.len() as int) =~= s@.skip(i + pat@.len()));
            out = concat(&out, rep);
            assert(out@ + replace_all(s@.skip(i + pat@.len()), pat@, rep@) =~= (out@.take(
                out@.len() - rep@.len(),
            ) + replace_all(rest, pat@, rep@)));
            i = i + pat.len();
        } else {
            assert(rest.drop_first() =~= s@.skip(i + 1));
            let ghost before = out@;
            out.push(s[i]);
            assert(out@ + replace_all(s@.skip(i + 1), pat@, rep@) =~= before + replace_all(
                rest,
                pat@,
                rep@,
            ));
            i = i + 1;
        }
    }
    assert(s@.skip(i as int) =~= seq![]);
    assert(out@ + seq![] =~= out@);
    out
}

/// The text that `String::from_utf8_lossy` makes of the bytes `b`.
pub uninterp spec fn utf8_lossy(b: Seq<u8>) -> Seq<char>;

/// `String::from_utf8_lossy`: the text of `b`, with each invalid sequence
/// replaced; for valid UTF-8 exactly the decoded characters.
#[verifier::external_body]
pub(crate) fn from_utf8_lossy(b: &[u8]) -> (r: String)
    ensures
        r@ == utf8_lossy(b@),
        vstd::utf8::valid_utf8(b@) ==> r@ == vstd::utf8::decode_utf8(b@),
{
    String::from_utf8_lossy(b).into_owned()
}


/// The text that `str::to_lowercase` makes of `s`.
pub uninterp spec fn lowercase(s: Seq<char>) -> Seq<char>;

/// `str::to_lowercase`.
#[verifier::external_body]
pub(crate) fn to_lowercase(s: &str) -> (r: String)
    ensures
        r@ == lowercase(s@),
{
    s.to_lowercase()
}


/// Whether `a` and `b` hold the same characters.
pub fn same_chars(a: &Vec<char>, b: &Vec<char>) -> (r: bool)
    ensures
        r == (a@ == b@),
{
    if a.len() != b.len() {
        return false;
    }
    for i in 0..a.len()
        invariant
            a@.len() == b@.len(),
            forall|j: int| 0 <= j < i ==> a@[j] == b@[j],
    {
        if a[i] != b[i] {
            return false;
        }
    }
    assert(a@ =~= b@);
    true
}

} // verus!
