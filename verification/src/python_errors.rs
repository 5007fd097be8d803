//! The line of a Python process's output that explains why it failed.
use vstd::prelude::*;
use crate::text::{string_from_chars, string_from_range, to_chars, trim, trimmed};

verus! {

broadcast use vstd::std_specs::vec::group_vec_axioms;

/// A line without the carriage return that ended it, if one did.
pub open spec fn without_cr(l: Seq<char>) -> Seq<char> {
    if l.len() > 0 && l.last() == '\r' { l.drop_last() } else { l }
}

/// The lines of `s` that a line feed has closed, and the characters after the
/// last line feed.
pub open spec fn line_split(s: Seq<char>) -> (Seq<Seq<char>>, Seq<char>)
    decreases s.len(),
{
    if s.len() == 0 {
        (Seq::empty(), Seq::empty())
    } else {
        let (done, cur) = line_split(s.drop_last());
        if s.last() == '\n' {
            (done.push(without_cr(cur)), Seq::empty())
        } else {
            (done, cur.push(s.last()))
        }
    }
}

/// The lines of `s`, as `str::lines` gives them: split at line feeds, a carriage
/// return before a line feed dropped, and no empty line after a final line feed.
pub open spec fn lines_of(s: Seq<char>) -> Seq<Seq<char>> {
    let (done, cur) = line_split(s);
    if cur.len() > 0 { done.push(cur) } else { done }
}

/// The lines, trimmed, that are not empty once trimmed.
pub open spec fn nonblank_trimmed(ls: Seq<Seq<char>>) -> Seq<Seq<char>>
    decreases ls.len(),
{
    if ls.len() == 0 {
        Seq::empty()
    } else {
        let prev = nonblank_trimmed(ls.drop_last());
        let t = trimmed(ls.last());
        if t.len() > 0 { prev.push(t) } else { prev }
    }
}

/// Whether `s` starts with `p`.
pub open spec fn starts_with(s: Seq<char>, p: Seq<char>) -> bool {
    p.len() <= s.len() && s.take(p.len() as int) == p
}

/// A line that Python prints about its own state, not about the error.
pub open spec fn noise_line(l: Seq<char>) -> bool {
    l == "<no Python frame>"@ || starts_with(l, "Current thread "@) || starts_with(l, "Python runtime state:"@)
}

/// The last line that is not noise, if any.
pub open spec fn last_useful(ls: Seq<Seq<char>>) -> Option<Seq<char>>
    decreases ls.len(),
{
    if ls.len() == 0 {
        None
    } else if !noise_line(ls.last()) {
        Some(ls.last())
    } else {
        last_useful(ls.drop_last())
    }
}

/// The explanation of a failure: the last line of the error output, then of the
/// standard output, that is not blank and not noise; else the last line that is
/// not blank; else `fallback`.
pub open spec fn python_error_detail(stderr: Seq<char>, stdout: Seq<char>, fallback: Seq<char>) -> Seq<char> {
    let ls = nonblank_trimmed(lines_of(stderr) + lines_of(stdout));
    match last_useful(ls) {
        Some(l) => l,
        None => if ls.len() > 0 { ls.last() } else { fallback },
    }
}

/// The lines of `s`, as `str::lines` gives them.
pub fn text_lines(s: &str) -> (r: Vec<String>)
    ensures
        r.deep_view() == lines_of(s@),
{
    let chars = to_chars(s);
    let mut done: Vec<String> = Vec::new();
    let mut cur: Vec<char> = Vec::new();
    let mut i: usize = 0;
    assert(chars@.take(0) =~= Seq::<char>::empty());
    while i < chars.len()
        invariant
            i <= chars.len(),
            chars@ == s@,
            (done.deep_view(), cur@) == line_split(chars@.take(i as int)),
        decreases chars.len() - i,
    {
        let c = chars[i];
        assert(chars@.take(i + 1).drop_last() =~= chars@.take(i as int));
        assert(chars@.take(i + 1).last() == c);
        if c == '\n' {
            let n = cur.len();
            let line = if n > 0 && cur[n - 1] == '\r' {
                let l = string_from_range(&cur, 0, n - 1);
                assert(cur@.subrange(0, n - 1) =~= cur@.drop_last());
                l
            } else {
                string_from_chars(&cur)
            };
            let ghost before = done.deep_view();
            done.push(line);
            assert(done.deep_view() =~= before.push(without_cr(cur@)));
            cur = Vec::new();
            assert(cur@ =~= Seq::<char>::empty());
        } else {
            cur.push(c);
        }
        i += 1;
    }
    assert(chars@.take(chars.len() as int) =~= chars@);
    if cur.len() > 0 {
        let ghost before = done.deep_view();
        done.push(string_from_chars(&cur));
        assert(done.deep_view() =~= before.push(cur@));
    }
    done
}

/// The lines of both outputs, in order, trimmed, without the blank ones.
pub fn meaningful_lines(stderr: &str, stdout: &str) -> (r: Vec<String>)
    ensures
        r.deep_view() == nonblank_trimmed(lines_of(stderr@) + lines_of(stdout@)),
{
    let mut all = text_lines(stderr);
    let mut rest = text_lines(stdout);
    let ghost a = all.deep_view();
    let ghost b = rest.deep_view();
    all.append(&mut rest);
    assert(all.deep_view() =~= a + b);
    let ghost ls = all.deep_view();
    let mut out: Vec<String> = Vec::new();
    let mut i: usize = 0;
    assert(ls.take(0) =~= Seq::<Seq<char>>::empty());
    while i < all.len()
        invariant
            i <= all.len(),
            ls == all.deep_view(),
            out.deep_view() == nonblank_trimmed(ls.take(i as int)),
        decreases all.len() - i,
    {
        assert(ls.take(i + 1).drop_last() =~= ls.take(i as int));
        assert(ls.take(i + 1).last() == all@[i as int]@);
        let t = trim(all[i].as_str());
        if t.as_str().is_empty() {
        } else {
            let ghost before = out.deep_view();
            out.push(t);
            assert(out.deep_view() =~= before.push(trimmed(all@[i as int]@)));
        }
        i += 1;
    }
    assert(ls.take(all.len() as int) =~= ls);
    out
}

/// Whether `s` starts with `p`.
pub fn has_prefix(s: &str, p: &str) -> (r: bool)
    ensures
        r == starts_with(s@, p@),
{
    let sc = to_chars(s);
    let pc = to_chars(p);
    if pc.len() > sc.len() {
        return false;
    }
    let mut i: usize = 0;
    while i < pc.len()
        invariant
            i <= pc.len() <= sc.len(),
            sc@ == s@,
            pc@ == p@,
            forall|k: int| 0 <= k < i ==> sc@[k] == pc@[k],
        decreases pc.len() - i,
    {
        if sc[i] != pc[i] {
            assert(s@.take(p@.len() as int)[i as int] != p@[i as int]);
            return false;
        }
        i += 1;
    }
    assert(s@.take(p@.len() as int) =~= p@);
    true
}

/// Whether `a` and `b` hold the same text.
pub fn same_text(a: &str, b: &str) -> (r: bool)
    ensures
        r == (a@ == b@),
{
    let ac = to_chars(a);
    let bc = to_chars(b);
    if ac.len() != bc.len() {
        return false;
    }
    let mut i: usize = 0;
    while i < ac.len()
        invariant
            i <= ac.len() == bc.len(),
            ac@ == a@,
            bc@ == b@,
            forall|k: int| 0 <= k < i ==> ac@[k] == bc@[k],
        decreases ac.len() - i,
    {
        if ac[i] != bc[i] {
            return false;
        }
        i += 1;
    }
    assert(a@ =~= b@);
    true
}

/// Whether a line is noise that Python prints about its own state.
pub fn is_noise_line(line: &str) -> (r: bool)
    ensures
        r == noise_line(line@),
{
    same_text(line, "<no Python frame>") || has_prefix(line, "Current thread ") || has_prefix(line, "Python runtime state:")
}

/// The line that explains why a Python process failed, from its error output and
/// its standard output, or `fallback` when they hold nothing.
pub fn extract_python_error_detail(stderr: &str, stdout: &str, fallback: &str) -> (r: String)
    ensures
        r@ == python_error_detail(stderr@, stdout@, fallback@),
{
    let lines = meaningful_lines(stderr, stdout);
    let ghost ls = lines.deep_view();
    let mut i: usize = lines.len();
    assert(ls.take(ls.len() as int) =~= ls);
    while i > 0
        invariant
            i <= lines.len(),
            ls == lines.deep_view(),
            ls == nonblank_trimmed(lines_of(stderr@) + lines_of(stdout@)),
            last_useful(ls) == last_useful(ls.take(i as int)),
        decreases i,
    {
        let line = &lines[i - 1];
        assert(ls.take(i as int).last() == line@);
        if !is_noise_line(line.as_str()) {
            assert(last_useful(ls) == Some(line@));
            return line.clone();
        }
        assert(ls.take(i as int).drop_last() =~= ls.take(i - 1));
        i -= 1;
    }
    assert(ls.take(0) =~= Seq::<Seq<char>>::empty());
    if lines.len() > 0 {
        lines[lines.len() - 1].clone()
    } else {
        String::from_str(fallback)
    }
}

} // verus!
