//! File-system paths as text, joined and taken apart the way `std::path`
//! does it on the platform the program runs on.

use vstd::prelude::*;

use crate::text::{concat, slice, views};

verus! {

/// The operating system the program was built for; it decides path
/// separators and a few defaults.
#[derive(Clone, Copy, PartialEq, Eq, Debug, Structural)]
pub enum Platform {
    Windows,
    MacOs,
    Linux,
    Other,
}

/// `c` separates path components.
pub open spec fn is_sep(p: Platform, c: char) -> bool {
    c == '/' || (p == Platform::Windows && c == '\\')
}

/// The separator that joining inserts.
pub open spec fn main_sep(p: Platform) -> char {
    if p == Platform::Windows {
        '\\'
    } else {
        '/'
    }
}

pub open spec fn is_ascii_alpha(c: char) -> bool {
    (0x41 <= (c as u32) <= 0x5A) || (0x61 <= (c as u32) <= 0x7A)
}

/// `s` begins with a drive prefix such as `C:` (Windows only).
pub open spec fn has_drive(p: Platform, s: Seq<char>) -> bool {
    p == Platform::Windows && s.len() >= 2 && is_ascii_alpha(s[0]) && s[1] == ':'
}

/// `base` with the component `comp` pushed on it, as `PathBuf::push` does:
/// an absolute `comp` replaces `base`; on Windows one that starts with a
/// separator keeps only the drive of `base`; otherwise a separator is put
/// between the two where `base` does not already end in one (nor is empty,
/// nor is a bare drive). Of Windows prefixes only drives (`C:`) are told
/// apart; UNC (`\\server\share`) and verbatim (`\\?\`) prefixes count as
/// plain text.
pub open spec fn push_spec(p: Platform, base: Seq<char>, comp: Seq<char>) -> Seq<char> {
    let rooted = comp.len() > 0 && is_sep(p, comp[0]);
    if has_drive(p, comp) || (p != Platform::Windows && rooted) {
        comp
    } else if rooted {
        (if has_drive(p, base) {
            base.take(2)
        } else {
            seq![]
        }) + comp
    } else if base.len() > 0 && !is_sep(p, base.last()) && !(has_drive(p, base) && base.len()
        == 2) {
        base.push(main_sep(p)) + comp
    } else {
        base + comp
    }
}

pub fn is_sep_char(p: Platform, c: char) -> (r: bool)
    ensures
        r == is_sep(p, c),
{
    c == '/' || (p == Platform::Windows && c == '\\')
}

pub fn main_sep_char(p: Platform) -> (r: char)
    ensures
        r == main_sep(p),
{
    if p == Platform::Windows {
        '\\'
    } else {
        '/'
    }
}

fn has_drive_exec(p: Platform, s: &Vec<char>) -> (r: bool)
    ensures
        r == has_drive(p, s@),
{
    if p == Platform::Windows && s.len() >= 2 {
        let u = s[0] as u32;
        ((0x41 <= u && u <= 0x5A) || (0x61 <= u && u <= 0x7A)) && s[1] == ':'
    } else {
        false
    }
}

/// `PathBuf::push` of `comp` onto `base`.
pub fn push_path(p: Platform, base: &Vec<char>, comp: &Vec<char>) -> (r: Vec<char>)
    ensures
        r@ == push_spec(p, base@, comp@),
{
    let rooted = comp.len() > 0 && is_sep_char(p, comp[0]);
    if has_drive_exec(p, comp) || (p != Platform::Windows && rooted) {
        comp.clone()
    } else if rooted {
        let head = if has_drive_exec(p, base) {
            slice(base, 0, 2)
        } else {
            Vec::new()
        };
        concat(&head, comp)
    } else if base.len() > 0 && !is_sep_char(p, base[base.len() - 1]) && !(has_drive_exec(p, base)
        && base.len() == 2) {
        let mut with_sep = base.clone();
        with_sep.push(main_sep_char(p));
        concat(&with_sep, comp)
    } else {
        concat(base, comp)
    }
}

/// `base` with each of `comps` pushed on it in turn.
pub open spec fn push_all(p: Platform, base: Seq<char>, comps: Seq<Seq<char>>) -> Seq<char>
    decreases comps.len(),
{
    if comps.len() == 0 {
        base
    } else {
        push_spec(p, push_all(p, base, comps.drop_last()), comps.last())
    }
}

/// A path component that names something: not empty and not `.`.
pub open spec fn keeps(x: Seq<char>) -> bool {
    x.len() > 0 && x != seq!['.']
}

/// Reading `s` left to right: the named components ended by a separator so
/// far, and the characters of the component not yet ended.
pub open spec fn part_scan(p: Platform, s: Seq<char>) -> (Seq<Seq<char>>, Seq<char>)
    decreases s.len(),
{
    if s.len() == 0 {
        (seq![], seq![])
    } else {
        let (done, cur) = part_scan(p, s.drop_last());
        if is_sep(p, s.last()) {
            (
                if keeps(cur) {
                    done.push(cur)
                } else {
                    done
                },
                seq![],
            )
        } else {
            (done, cur.push(s.last()))
        }
    }
}

/// The named components of `s` after its drive: the pieces between
/// separators, without empty pieces and `.` (UNC and verbatim prefixes count
/// as plain text, as in [`push_spec`]).
pub open spec fn parts(p: Platform, s: Seq<char>) -> Seq<Seq<char>> {
    let body = if has_drive(p, s) {
        s.skip(2)
    } else {
        s
    };
    let (done, cur) = part_scan(p, body);
    if keeps(cur) {
        done.push(cur)
    } else {
        done
    }
}

/// What `Path::file_name` gives: the last component, unless there is none or
/// it is `..`.
pub open spec fn file_name(p: Platform, s: Seq<char>) -> Option<Seq<char>> {
    let ps = parts(p, s);
    if ps.len() == 0 || ps.last() == seq!['.', '.'] {
        None
    } else {
        Some(ps.last())
    }
}

/// The index of the last `c` in `s`, or -1.
pub open spec fn last_index_of(s: Seq<char>, c: char) -> int
    decreases s.len(),
{
    if s.len() == 0 {
        -1
    } else if s.last() == c {
        s.len() - 1
    } else {
        last_index_of(s.drop_last(), c)
    }
}

/// A file name without its extension, as `Path::file_stem` cuts it: the part
/// before the last `.`, unless that dot is the first character or there is none.
pub open spec fn stem(name: Seq<char>) -> Seq<char> {
    let d = last_index_of(name, '.');
    if d <= 0 {
        name
    } else {
        name.take(d)
    }
}

/// What `Path::file_stem` gives.
pub open spec fn file_stem(p: Platform, s: Seq<char>) -> Option<Seq<char>> {
    match file_name(p, s) {
        Some(n) => Some(stem(n)),
        None => None,
    }
}

/// `Path::file_name`.
pub fn file_name_of(p: Platform, s: &Vec<char>) -> (r: Option<Vec<char>>)
    ensures
        match r {
            Some(n) => file_name(p, s@) == Some(n@),
            None => file_name(p, s@) is None,
        },
{
    let from: usize = if has_drive_exec(p, s) {
        2
    } else {
        0
    };
    let ghost body = s@.skip(from as int);
    assert(body =~= (if has_drive(p, s@) {
        s@.skip(2)
    } else {
        s@
    }));
    let mut done: Vec<Vec<char>> = Vec::new();
    let mut cur: Vec<char> = Vec::new();
    let mut i = from;
    assert(body.take(0) =~= seq![]);
    while i < s.len()
        invariant
            from <= i <= s@.len(),
            body == s@.skip(from as int),
            (views(done@), cur@) == part_scan(p, body.take(i - from)),
        decreases s@.len() - i,
    {
        assert(body.take(i - from + 1).drop_last() =~= body.take(i - from));
        assert(body[i - from] == s@[i as int]);
        if is_sep_char(p, s[i]) {
            let keep = cur.len() > 0 && !(cur.len() == 1 && cur[0] == '.');
            assert(keep == keeps(cur@)) by {
                if cur@.len() == 1 {
                    assert(cur@ =~= seq!['.'] <==> cur@[0] == '.');
                }
            }
            if keep {
                let ghost prev = views(done@);
                done.push(cur);
                assert(views(done@) =~= prev.push(part_scan(p, body.take(i - from)).1));
            }
            cur = Vec::new();
        } else {
            cur.push(s[i]);
        }
        i = i + 1;
    }
    assert(body.take(i - from) =~= body);
    let keep = cur.len() > 0 && !(cur.len() == 1 && cur[0] == '.');
    assert(keep == keeps(cur@)) by {
        if cur@.len() == 1 {
            assert(cur@ =~= seq!['.'] <==> cur@[0] == '.');
        }
    }
    if keep {
        let ghost prev = views(done@);
        done.push(cur);
        assert(views(done@) =~= prev.push(part_scan(p, body).1));
    }
    assert(views(done@) == parts(p, s@));
    if done.len() == 0 {
        return None;
    }
    let last = done.pop().unwrap();
    assert(last@ == parts(p, s@).last());
    let dotdot = last.len() == 2 && last[0] == '.' && last[1] == '.';
    assert(dotdot == (last@ == seq!['.', '.'])) by {
        if last@.len() == 2 {
            assert(last@ =~= seq!['.', '.'] <==> (last@[0] == '.' && last@[1] == '.'));
        }
    }
    if dotdot {
        None
    } else {
        Some(last)
    }
}

/// The part of a file name before its extension (`Path::file_stem` on a name).
pub fn stem_of(name: &Vec<char>) -> (r: Vec<char>)
    ensures
        r@ == stem(name@),
{
    let mut j = name.len();
    assert(name@.take(j as int) =~= name@);
    while j > 0 && name[j - 1] != '.'
        invariant
            j <= name@.len(),
            last_index_of(name@, '.') == last_index_of(name@.take(j as int), '.'),
        decreases j,
    {
        assert(name@.take(j as int).drop_last() =~= name@.take(j - 1));
        j = j - 1;
    }
    if j == 0 {
        assert(last_index_of(name@.take(0), '.') == -1);
        return name.clone();
    }
    assert(last_index_of(name@, '.') == j - 1);
    if j == 1 {
        name.clone()
    } else {
        slice(name, 0, j - 1)
    }
}

/// `Path::file_stem`.
pub fn file_stem_of(p: Platform, s: &Vec<char>) -> (r: Option<Vec<char>>)
    ensures
        match r {
            Some(n) => file_stem(p, s@) == Some(n@),
            None => file_stem(p, s@) is None,
        },
{
    match file_name_of(p, s) {
        Some(n) => Some(stem_of(&n)),
        None => None,
    }
}


proof fn lemma_last_index_append(a: Seq<char>, b: Seq<char>, c: char)
    requires
        !b.contains(c),
    ensures
        last_index_of(a + b, c) == last_index_of(a, c),
    decreases b.len(),
{
    if b.len() > 0 {
        assert((a + b).drop_last() =~= a + b.drop_last());
        assert(!b.drop_last().contains(c)) by {
            if b.drop_last().contains(c) {
                let j = choose|j: int| 0 <= j < b.drop_last().len() && b.drop_last()[j] == c;
                assert(b[j] == c);
            }
        }
        assert((a + b).last() == b.last());
        lemma_last_index_append(a, b.drop_last(), c);
    } else {
        assert(a + b =~= a);
    }
}

/// A name made of a non-empty `base` without dots and an extension of a dot
/// and three non-dots has `base` as its stem.
pub proof fn lemma_stem_of_extension(base: Seq<char>, ext: Seq<char>)
    requires
        base.len() > 0,
        forall|i: int| 0 <= i < base.len() ==> base[i] != '.',
        ext == ".lua"@ || ext == ".jpg"@,
    ensures
        stem(base + ext) == base,
{
    reveal_strlit(".lua");
    reveal_strlit(".jpg");
    let tail = ext.drop_first();
    assert(!tail.contains('.')) by {
        if tail.contains('.') {
            let j = choose|j: int| 0 <= j < tail.len() && tail[j] == '.';
            assert(ext[j + 1] == '.');
        }
    }
    assert(!base.contains('.')) by {
        if base.contains('.') {
            let j = choose|j: int| 0 <= j < base.len() && base[j] == '.';
        }
    }
    let with_dot = base.push('.');
    assert(base + ext =~= with_dot + tail);
    lemma_last_index_append(with_dot, tail, '.');
    assert(with_dot.drop_last() =~= base);
    assert(last_index_of(with_dot, '.') == base.len());
    assert((base + ext).take(base.len() as int) =~= base);
}


proof fn lemma_part_scan_plain_tail(p: Platform, s: Seq<char>, c: Seq<char>)
    requires
        forall|i: int| 0 <= i < c.len() ==> !is_sep(p, #[trigger] c[i]),
    ensures
        part_scan(p, s + c).0 == part_scan(p, s).0,
        part_scan(p, s + c).1 == part_scan(p, s).1 + c,
    decreases c.len(),
{
    if c.len() == 0 {
        assert(s + c =~= s);
        assert(part_scan(p, s).1 + c =~= part_scan(p, s).1);
    } else {
        let c0 = c.drop_last();
        lemma_part_scan_plain_tail(p, s, c0);
        assert((s + c).drop_last() =~= s + c0);
        assert((s + c).last() == c.last());
        assert(!is_sep(p, c[c.len() - 1]));
        assert(part_scan(p, s).1 + c =~= (part_scan(p, s).1 + c0).push(c.last()));
    }
}

/// Pushing a plain name on a path gives a path whose file name is that name:
/// a name that is not empty, `.` or `..`, holds no separator and starts with
/// no drive.
pub proof fn law_file_name_of_pushed(p: Platform, base: Seq<char>, comp: Seq<char>)
    requires
        comp.len() > 0,
        comp != seq!['.'],
        comp != seq!['.', '.'],
        forall|i: int| 0 <= i < comp.len() ==> !is_sep(p, #[trigger] comp[i]),
        !has_drive(p, comp),
    ensures
        file_name(p, push_spec(p, base, comp)) == Some(comp),
{
    let r = push_spec(p, base, comp);
    assert(!is_sep(p, comp[0]));
    // the part of the path before `comp`, after any drive
    let y: Seq<char> = if base.len() > 0 && !is_sep(p, base.last()) && !(has_drive(p, base)
        && base.len() == 2) {
        base.push(main_sep(p))
    } else {
        base
    };
    assert(r == y + comp);
    let body = if has_drive(p, r) {
        r.skip(2)
    } else {
        r
    };
    let yb: Seq<char> = if has_drive(p, r) {
        y.skip(2)
    } else {
        y
    };
    // a drive of the whole path lies within `y`: `y` is empty, longer than
    // one character, or a lone separator
    if has_drive(p, r) && y.len() == 1 {
        assert(r[0] == y[0]);
    }
    if y.len() == 0 {
        assert(r =~= comp);
    }
    assert(body =~= yb + comp);
    // the part before `comp` ends the component it was scanning
    assert(part_scan(p, yb).1 =~= seq![]) by {
        if yb.len() > 0 {
            assert(yb.last() == y.last());
            assert(is_sep(p, yb.last()));
        }
    }
    lemma_part_scan_plain_tail(p, yb, comp);
    assert(part_scan(p, body).1 =~= comp);
}

} // verus!
