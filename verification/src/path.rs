//! Paths as strings: their `/`-separated segments, joining, and resolving a
//! relative path against a base the way `PathBuf::push` and `pop` do.
use vstd::prelude::*;

use crate::text::{chars_of, push_char, string_of};

verus! {

/// The pieces of the first `n` characters of `s` between `/` separators,
/// empty pieces included; the last piece is the one still open.
pub open spec fn pieces_upto(s: Seq<char>, n: nat) -> Seq<Seq<char>>
    decreases n,
{
    if n == 0 {
        seq![Seq::empty()]
    } else {
        let p = pieces_upto(s, (n - 1) as nat);
        if s[n - 1] == '/' {
            p.push(Seq::empty())
        } else {
            p.update(p.len() - 1, p.last().push(s[n - 1]))
        }
    }
}

/// A piece that names no segment: empty (from `//` or an end) or `.`.
pub open spec fn is_blank_piece(p: Seq<char>) -> bool {
    p.len() == 0 || p == seq!['.']
}

/// The pieces that name segments, in order.
pub open spec fn plain_pieces(ps: Seq<Seq<char>>) -> Seq<Seq<char>>
    decreases ps.len(),
{
    if ps.len() == 0 {
        Seq::empty()
    } else {
        let rest = plain_pieces(ps.drop_last());
        if is_blank_piece(ps.last()) {
            rest
        } else {
            rest.push(ps.last())
        }
    }
}

/// The segments of a path: what lies between `/` separators, leaving out
/// empty segments and `.`, as the components of a `Path` do.
pub open spec fn path_segments(s: Seq<char>) -> Seq<Seq<char>> {
    plain_pieces(pieces_upto(s, s.len()))
}

pub open spec fn is_absolute_path(s: Seq<char>) -> bool {
    s.len() > 0 && s[0] == '/'
}

/// Applies segments to a base, in order: `..` drops the last base segment
/// (none at the root), every other segment is appended.
pub open spec fn apply_segments(base: Seq<Seq<char>>, segs: Seq<Seq<char>>) -> Seq<Seq<char>>
    decreases segs.len(),
{
    if segs.len() == 0 {
        base
    } else {
        let b = apply_segments(base, segs.drop_last());
        if segs.last() == seq!['.', '.'] {
            if b.len() > 0 {
                b.drop_last()
            } else {
                b
            }
        } else {
            b.push(segs.last())
        }
    }
}

/// The segments joined with `/`.
pub open spec fn join_segments(segs: Seq<Seq<char>>) -> Seq<char>
    decreases segs.len(),
{
    if segs.len() == 0 {
        Seq::empty()
    } else if segs.len() == 1 {
        segs[0]
    } else {
        join_segments(segs.drop_last()) + seq!['/'] + segs.last()
    }
}

/// A path spelled from its segments, with a leading `/` when absolute.
pub open spec fn render_path(absolute: bool, segs: Seq<Seq<char>>) -> Seq<char> {
    if absolute {
        seq!['/'] + join_segments(segs)
    } else {
        join_segments(segs)
    }
}

/// `subpath` resolved against `base`: an absolute `subpath` as it is;
/// otherwise the segments of `subpath` applied to those of `base`.
pub open spec fn normalized_join(base: Seq<char>, subpath: Seq<char>) -> Seq<char> {
    if is_absolute_path(subpath) {
        subpath
    } else {
        render_path(
            is_absolute_path(base),
            apply_segments(path_segments(base), path_segments(subpath)),
        )
    }
}

/// `rel` appended to `base` with one `/` between them, as `Path::join` does
/// for a relative `rel`.
pub open spec fn joined_path(base: Seq<char>, rel: Seq<char>) -> Seq<char> {
    if base.len() == 0 || base.last() == '/' {
        base + rel
    } else {
        base + seq!['/'] + rel
    }
}

proof fn lemma_pieces_nonempty(s: Seq<char>, n: nat)
    requires
        n <= s.len(),
    ensures
        pieces_upto(s, n).len() >= 1,
    decreases n,
{
    if n > 0 {
        lemma_pieces_nonempty(s, (n - 1) as nat);
    }
}

fn is_blank(v: &Vec<char>) -> (r: bool)
    ensures
        r == is_blank_piece(v@),
{
    if v.len() == 0 {
        return true;
    }
    if v.len() == 1 && v[0] == '.' {
        assert(v@ =~= seq!['.']);
        return true;
    }
    if v.len() == 1 {
        assert(v@[0] != seq!['.'][0]);
    }
    false
}

/// The segments of a path, in order.
pub fn segments_of(s: &Vec<char>) -> (r: Vec<Vec<char>>)
    ensures
        r@.map_values(|v: Vec<char>| v@) == path_segments(s@),
{
    let n = s.len();
    let mut done: Vec<Vec<char>> = Vec::new();
    let mut current: Vec<char> = Vec::new();
    let mut i: usize = 0;
    proof {
        assert(done@.map_values(|v: Vec<char>| v@) =~= plain_pieces(pieces_upto(s@, 0).drop_last()));
    }
    while i < n
        invariant
            n == s@.len(),
            i <= n,
            pieces_upto(s@, i as nat).len() >= 1,
            current@ == pieces_upto(s@, i as nat).last(),
            done@.map_values(|v: Vec<char>| v@) == plain_pieces(pieces_upto(s@, i as nat).drop_last()),
        decreases n - i,
    {
        let ghost p = pieces_upto(s@, i as nat);
        let c = s[i];
        if c == '/' {
            proof {
                assert(pieces_upto(s@, (i + 1) as nat) == p.push(Seq::empty()));
                assert(p.push(Seq::<char>::empty()).drop_last() =~= p);
                assert(p == p.drop_last().push(p.last()));
            }
            if !is_blank(&current) {
                let ghost before = done@;
                done.push(current);
                proof {
                    assert(done@.map_values(|v: Vec<char>| v@) =~= before.map_values(|v: Vec<char>| v@).push(p.last()));
                }
            }
            current = Vec::new();
            proof {
                assert(current@ =~= Seq::<char>::empty());
            }
        } else {
            current.push(c);
            proof {
                let q = pieces_upto(s@, (i + 1) as nat);
                assert(q == p.update(p.len() - 1, p.last().push(c)));
                assert(q.drop_last() =~= p.drop_last());
            }
        }
        i = i + 1;
    }
    let ghost p = pieces_upto(s@, n as nat);
    proof {
        assert(p == p.drop_last().push(p.last()));
    }
    if !is_blank(&current) {
        let ghost before = done@;
        done.push(current);
        proof {
            assert(done@.map_values(|v: Vec<char>| v@) =~= before.map_values(|v: Vec<char>| v@).push(p.last()));
        }
    }
    done
}

fn copy_chars(v: &Vec<char>) -> (r: Vec<char>)
    ensures
        r@ == v@,
{
    let mut r: Vec<char> = Vec::new();
    let mut i: usize = 0;
    while i < v.len()
        invariant
            i <= v@.len(),
            r@ == v@.take(i as int),
        decreases v@.len() - i,
    {
        r.push(v[i]);
        assert(v@.take(i as int).push(v@[i as int]) =~= v@.take(i as int + 1));
        i = i + 1;
    }
    assert(v@.take(v@.len() as int) =~= v@);
    r
}

fn is_parent_segment(v: &Vec<char>) -> (r: bool)
    ensures
        r == (v@ == seq!['.', '.']),
{
    if v.len() == 2 && v[0] == '.' && v[1] == '.' {
        assert(v@ =~= seq!['.', '.']);
        true
    } else {
        if v.len() == 2 {
            assert(v@[0] != '.' || v@[1] != '.');
            assert(seq!['.', '.'][0] == '.' && seq!['.', '.'][1] == '.');
        }
        false
    }
}

/// `segs` applied to `base`, segment by segment.
fn apply_all(base: Vec<Vec<char>>, segs: &Vec<Vec<char>>) -> (r: Vec<Vec<char>>)
    ensures
        r@.map_values(|v: Vec<char>| v@) == apply_segments(
            base@.map_values(|v: Vec<char>| v@),
            segs@.map_values(|v: Vec<char>| v@),
        ),
{
    let ghost b0 = base@.map_values(|v: Vec<char>| v@);
    let ghost all = segs@.map_values(|v: Vec<char>| v@);
    let mut acc = base;
    let mut j: usize = 0;
    proof {
        assert(all.take(0) =~= Seq::<Seq<char>>::empty());
    }
    while j < segs.len()
        invariant
            j <= segs@.len(),
            all == segs@.map_values(|v: Vec<char>| v@),
            acc@.map_values(|v: Vec<char>| v@) == apply_segments(b0, all.take(j as int)),
        decreases segs@.len() - j,
    {
        let ghost before = acc@;
        proof {
            assert(all.take(j as int + 1).drop_last() =~= all.take(j as int));
            assert(all.take(j as int + 1).last() == segs@[j as int]@);
        }
        if is_parent_segment(&segs[j]) {
            if acc.len() > 0 {
                acc.pop();
                proof {
                    assert(acc@.map_values(|v: Vec<char>| v@) =~= before.map_values(|v: Vec<char>| v@).drop_last());
                }
            }
        } else {
            let seg = copy_chars(&segs[j]);
            acc.push(seg);
            proof {
                assert(acc@.map_values(|v: Vec<char>| v@) =~= before.map_values(|v: Vec<char>| v@).push(segs@[j as int]@));
            }
        }
        j = j + 1;
    }
    proof {
        assert(all.take(segs@.len() as int) =~= all);
    }
    acc
}

/// The characters of a path spelled from its segments.
fn render(absolute: bool, segs: &Vec<Vec<char>>) -> (r: Vec<char>)
    ensures
        r@ == render_path(absolute, segs@.map_values(|v: Vec<char>| v@)),
{
    let ghost all = segs@.map_values(|v: Vec<char>| v@);
    let mut out: Vec<char> = Vec::new();
    let ghost lead: Seq<char> = if absolute { seq!['/'] } else { Seq::empty() };
    if absolute {
        out.push('/');
    }
    proof {
        assert(out@ =~= lead);
        assert(all.take(0) =~= Seq::<Seq<char>>::empty());
        assert(lead + join_segments(all.take(0)) =~= lead);
    }
    let mut k: usize = 0;
    while k < segs.len()
        invariant
            k <= segs@.len(),
            all == segs@.map_values(|v: Vec<char>| v@),
            lead == (if absolute { seq!['/'] } else { Seq::<char>::empty() }),
            out@ == lead + join_segments(all.take(k as int)),
        decreases segs@.len() - k,
    {
        let ghost before = out@;
        let ghost t = all.take(k as int + 1);
        proof {
            assert(t.drop_last() =~= all.take(k as int));
            assert(t.last() == segs@[k as int]@);
        }
        if k > 0 {
            out.push('/');
        }
        let ghost mid = out@;
        let seg = &segs[k];
        let mut m: usize = 0;
        while m < seg.len()
            invariant
                m <= seg@.len(),
                out@ == mid + seg@.take(m as int),
            decreases seg@.len() - m,
        {
            out.push(seg[m]);
            assert(mid + seg@.take(m as int + 1) =~= (mid + seg@.take(m as int)).push(seg@[m as int]));
            m = m + 1;
        }
        proof {
            assert(seg@.take(seg@.len() as int) =~= seg@);
            if k == 0 {
                assert(t.len() == 1);
                assert(join_segments(t) == t[0]);
                assert(out@ =~= lead + join_segments(t));
            } else {
                assert(join_segments(t) == join_segments(t.drop_last()) + seq!['/'] + t.last());
                assert(out@ =~= lead + join_segments(t));
            }
        }
        k = k + 1;
    }
    proof {
        assert(all.take(segs@.len() as int) =~= all);
        if absolute {
            assert(out@ == render_path(absolute, all));
        } else {
            assert(out@ =~= render_path(absolute, all));
        }
    }
    out
}

/// `subpath` resolved against `base`: an absolute `subpath` stands as it is;
/// otherwise `.` segments are skipped, `..` drops the last segment so far and
/// any other segment is appended.
pub fn normalize_with(base: &str, subpath: &str) -> (r: String)
    ensures
        r@ == normalized_join(base@, subpath@),
{
    let sub = chars_of(subpath);
    if sub.len() > 0 && sub[0] == '/' {
        return subpath.to_owned();
    }
    let b = chars_of(base);
    let base_segments = segments_of(&b);
    let sub_segments = segments_of(&sub);
    let segs = apply_all(base_segments, &sub_segments);
    let absolute = b.len() > 0 && b[0] == '/';
    string_of(&render(absolute, &segs))
}

/// `rel` appended to `base` with one `/` between them.
pub fn join(base: &str, rel: &str) -> (r: String)
    ensures
        r@ == joined_path(base@, rel@),
{
    let b = chars_of(base);
    let mut out = base.to_owned();
    if !(b.len() == 0 || b[b.len() - 1] == '/') {
        push_char(&mut out, '/');
    }
    out.append(rel);
    out
}

/// ASCII letters fold to lower case; every other character stands as it is.
pub open spec fn ascii_fold(c: char) -> char {
    if 'A' <= c && c <= 'Z' {
        ((c as u8) + 32) as u8 as char
    } else {
        c
    }
}

/// Equal up to the case of ASCII letters.
pub open spec fn eq_ignore_ascii_case(a: Seq<char>, b: Seq<char>) -> bool {
    &&& a.len() == b.len()
    &&& forall|i: int| 0 <= i < a.len() ==> #[trigger] ascii_fold(a[i]) == ascii_fold(b[i])
}

/// An exports target that would leave its package or reach into a
/// `node_modules` folder: a `..` segment, or a `node_modules` segment in any
/// ASCII case.
pub open spec fn is_invalid_target_path(t: Seq<char>) -> bool {
    exists|i: int|
        0 <= i < path_segments(t).len() && {
            let seg = #[trigger] path_segments(t)[i];
            seg == seq!['.', '.'] || eq_ignore_ascii_case(seg, "node_modules"@)
        }
}

fn fold_char(c: char) -> (r: char)
    ensures
        r == ascii_fold(c),
{
    if 'A' <= c && c <= 'Z' {
        ((c as u8) + 32) as char
    } else {
        c
    }
}

fn chars_eq_ignore_ascii_case(a: &Vec<char>, b: &Vec<char>) -> (r: bool)
    ensures
        r == eq_ignore_ascii_case(a@, b@),
{
    if a.len() != b.len() {
        return false;
    }
    let mut i: usize = 0;
    while i < a.len()
        invariant
            a@.len() == b@.len(),
            i <= a@.len(),
            forall|j: int| 0 <= j < i ==> #[trigger] ascii_fold(a@[j]) == ascii_fold(b@[j]),
        decreases a@.len() - i,
    {
        if fold_char(a[i]) != fold_char(b[i]) {
            return false;
        }
        i = i + 1;
    }
    true
}

/// Whether an exports target would leave its package or reach into a
/// `node_modules` folder.
pub fn is_invalid_exports_target(target: &str) -> (r: bool)
    ensures
        r == is_invalid_target_path(target@),
{
    let segs = segments_of(&chars_of(target));
    let node_modules = chars_of("node_modules");
    let ghost all = segs@.map_values(|v: Vec<char>| v@);
    let mut i: usize = 0;
    while i < segs.len()
        invariant
            i <= segs@.len(),
            all == segs@.map_values(|v: Vec<char>| v@),
            all == path_segments(target@),
            node_modules@ == "node_modules"@,
            forall|j: int|
                0 <= j < i ==> !(#[trigger] all[j] == seq!['.', '.'] || eq_ignore_ascii_case(
                    all[j],
                    "node_modules"@,
                )),
        decreases segs@.len() - i,
    {
        if is_parent_segment(&segs[i]) || chars_eq_ignore_ascii_case(&segs[i], &node_modules) {
            assert(all[i as int] == segs@[i as int]@);
            return true;
        }
        i = i + 1;
    }
    false
}

/// The segments a path names once `..` is applied.
pub open spec fn resolved_segments(s: Seq<char>) -> Seq<Seq<char>> {
    apply_segments(Seq::empty(), path_segments(s))
}

/// Whether the restriction holds the path: an empty restriction holds every
/// path; otherwise both are absolute and the restriction's segments, `..`
/// applied, begin the path's. A restriction is a directory, so a file beside
/// it whose name merely starts with the directory's name is not inside it.
pub open spec fn restriction_holds(restriction: Seq<char>, path: Seq<char>) -> bool {
    ||| restriction.len() == 0
    ||| {
        &&& is_absolute_path(restriction)
        &&& is_absolute_path(path)
        &&& resolved_segments(restriction).len() <= resolved_segments(path).len()
        &&& resolved_segments(path).subrange(0, resolved_segments(restriction).len() as int) == resolved_segments(restriction)
    }
}

pub(crate) fn chars_eq(a: &Vec<char>, b: &Vec<char>) -> (r: bool)
    ensures
        r == (a@ == b@),
{
    if a.len() != b.len() {
        return false;
    }
    let mut i: usize = 0;
    while i < a.len()
        invariant
            a@.len() == b@.len(),
            i <= a@.len(),
            forall|j: int| 0 <= j < i ==> a@[j] == b@[j],
        decreases a@.len() - i,
    {
        if a[i] != b[i] {
            return false;
        }
        i = i + 1;
    }
    assert(a@ =~= b@);
    true
}

/// Whether `path` lies inside the directory `restriction` (see
/// [`restriction_holds`]).
pub fn is_inside(path: &str, restriction: &str) -> (r: bool)
    ensures
        r == restriction_holds(restriction@, path@),
{
    let rc = chars_of(restriction);
    if rc.len() == 0 {
        return true;
    }
    let pc = chars_of(path);
    if rc[0] != '/' || pc.len() == 0 || pc[0] != '/' {
        return false;
    }
    let empty_r: Vec<Vec<char>> = Vec::new();
    let empty_p: Vec<Vec<char>> = Vec::new();
    proof {
        assert(empty_r@.map_values(|v: Vec<char>| v@) =~= Seq::<Seq<char>>::empty());
        assert(empty_p@.map_values(|v: Vec<char>| v@) =~= Seq::<Seq<char>>::empty());
    }
    let r_segs = apply_all(empty_r, &segments_of(&rc));
    let p_segs = apply_all(empty_p, &segments_of(&pc));
    let ghost rv = r_segs@.map_values(|v: Vec<char>| v@);
    let ghost pv = p_segs@.map_values(|v: Vec<char>| v@);
    proof {
        assert(rv == resolved_segments(restriction@));
        assert(pv == resolved_segments(path@));
    }
    if r_segs.len() > p_segs.len() {
        return false;
    }
    let mut i: usize = 0;
    while i < r_segs.len()
        invariant
            r_segs@.len() <= p_segs@.len(),
            i <= r_segs@.len(),
            rv == r_segs@.map_values(|v: Vec<char>| v@),
            pv == p_segs@.map_values(|v: Vec<char>| v@),
            is_absolute_path(restriction@),
            is_absolute_path(path@),
            rv == resolved_segments(restriction@),
            pv == resolved_segments(path@),
            forall|j: int| 0 <= j < i ==> pv[j] == rv[j],
        decreases r_segs@.len() - i,
    {
        if !chars_eq(&r_segs[i], &p_segs[i]) {
            assert(rv[i as int] == r_segs@[i as int]@);
            assert(pv[i as int] == p_segs@[i as int]@);
            assert(pv.subrange(0, rv.len() as int)[i as int] != rv[i as int]);
            return false;
        }
        assert(rv[i as int] == r_segs@[i as int]@);
        assert(pv[i as int] == p_segs@[i as int]@);
        i = i + 1;
    }
    assert(pv.subrange(0, rv.len() as int) =~= rv);
    true
}

/// Whether `path` lies inside every one of the `restrictions`.
pub fn check_restrictions(path: &str, restrictions: &Vec<String>) -> (r: bool)
    ensures
        r == forall|i: int| 0 <= i < restrictions@.len() ==> restriction_holds(#[trigger] restrictions@[i]@, path@),
{
    let mut i: usize = 0;
    while i < restrictions.len()
        invariant
            i <= restrictions@.len(),
            forall|j: int| 0 <= j < i ==> restriction_holds(#[trigger] restrictions@[j]@, path@),
        decreases restrictions@.len() - i,
    {
        if !is_inside(path, restrictions[i].as_str()) {
            return false;
        }
        i = i + 1;
    }
    true
}

/// The path with trailing separators and trailing `.` segments taken off,
/// down to a root `/` or a lone `.`.
pub open spec fn trim_tail(s: Seq<char>) -> Seq<char>
    decreases s.len(),
{
    if s.len() > 1 && s.last() == '/' {
        trim_tail(s.drop_last())
    } else if s.len() >= 2 && s.last() == '.' && s[s.len() - 2] == '/' {
        trim_tail(s.drop_last())
    } else {
        s
    }
}

/// The index of the last `/` in `s`.
pub open spec fn last_slash(s: Seq<char>) -> Option<int>
    decreases s.len(),
{
    if s.len() == 0 {
        None
    } else if s.last() == '/' {
        Some(s.len() - 1)
    } else {
        last_slash(s.drop_last())
    }
}

/// The parent of a path, as `Path::parent` gives it: the path without its
/// last segment (trailing separators and `.` segments aside), or nothing for
/// the empty path and the root.
pub open spec fn parent_path(p: Seq<char>) -> Option<Seq<char>> {
    let t = trim_tail(p);
    if t.len() == 0 || t == seq!['/'] {
        None
    } else {
        match last_slash(t) {
            None => Some(Seq::empty()),
            Some(i) => Some(trim_tail(t.take(i + 1))),
        }
    }
}

pub(crate) proof fn lemma_last_slash(s: Seq<char>)
    ensures
        match last_slash(s) {
            Some(i) => 0 <= i < s.len() && s[i] == '/' && forall|j: int| i < j < s.len() ==> s[j] != '/',
            None => forall|j: int| 0 <= j < s.len() ==> s[j] != '/',
        },
    decreases s.len(),
{
    if s.len() > 0 && s.last() != '/' {
        let d = s.drop_last();
        lemma_last_slash(d);
        match last_slash(d) {
            Some(i) => {
                assert forall|j: int| i < j < s.len() implies s[j] != '/' by {
                    if j < s.len() - 1 {
                        assert(s[j] == d[j]);
                    }
                }
            },
            None => {
                assert forall|j: int| 0 <= j < s.len() implies s[j] != '/' by {
                    if j < s.len() - 1 {
                        assert(s[j] == d[j]);
                    }
                }
            },
        }
    }
}

proof fn lemma_trim_tail(s: Seq<char>)
    ensures
        trim_tail(s).len() <= s.len(),
        trim_tail(s).len() > 1 ==> trim_tail(s).last() != '/',
    decreases s.len(),
{
    if s.len() > 1 && s.last() == '/' {
        lemma_trim_tail(s.drop_last());
    } else if s.len() >= 2 && s.last() == '.' && s[s.len() - 2] == '/' {
        lemma_trim_tail(s.drop_last());
    }
}

/// The parent of a path is shorter than the path: going up from parent to
/// parent comes to an end.
pub proof fn lemma_parent_is_shorter(p: Seq<char>)
    ensures
        parent_path(p) matches Some(q) ==> q.len() < p.len(),
{
    let t = trim_tail(p);
    lemma_trim_tail(p);
    if t.len() > 0 && t != seq!['/'] {
        lemma_last_slash(t);
        if t.len() == 1 && t[0] == '/' {
            assert(t =~= seq!['/']);
        }
        assert(t.last() != '/');
        match last_slash(t) {
            Some(i) => {
                lemma_trim_tail(t.take(i + 1));
            },
            None => {},
        }
    }
}

/// Takes trailing separators and `.` segments off `v` (see [`trim_tail`]).
pub(crate) fn trim_tail_chars(v: &mut Vec<char>)
    ensures
        final(v)@ == trim_tail(old(v)@),
{
    loop
        invariant
            trim_tail(v@) == trim_tail(old(v)@),
        decreases v@.len(),
    {
        let n = v.len();
        if n > 1 && v[n - 1] == '/' {
            v.pop();
        } else if n >= 2 && v[n - 1] == '.' && v[n - 2] == '/' {
            v.pop();
        } else {
            return;
        }
    }
}

/// The parent of a path (see [`parent_path`]).
pub fn parent_of(p: &str) -> (r: Option<String>)
    ensures
        match r {
            Some(q) => parent_path(p@) == Some(q@),
            None => parent_path(p@).is_none(),
        },
{
    let mut t = chars_of(p);
    trim_tail_chars(&mut t);
    if t.len() == 0 || (t.len() == 1 && t[0] == '/') {
        proof {
            if t@.len() == 1 {
                assert(t@ =~= seq!['/']);
            }
        }
        return None;
    }
    proof {
        assert(t@ != seq!['/']) by {
            if t@.len() == 1 {
                assert(t@[0] != seq!['/'][0]);
            }
        }
        lemma_last_slash(t@);
    }
    let mut i = t.len();
    while i > 0
        invariant
            i <= t@.len(),
            t@ == trim_tail(p@),
            t@.len() > 0,
            t@ != seq!['/'],
            forall|j: int| i <= j < t@.len() ==> t@[j] != '/',
        decreases i,
    {
        if t[i - 1] == '/' {
            proof {
                lemma_last_slash(t@);
                let k = last_slash(t@);
                assert(k == Some(i - 1)) by {
                    if k is None {
                        assert(t@[i - 1] == '/');
                    } else {
                        if k.unwrap() < i - 1 {
                            assert(t@[i - 1] == '/');
                        }
                        if k.unwrap() > i - 1 {
                            assert(t@[k.unwrap()] == '/');
                        }
                    }
                }
            }
            let mut head = t;
            head.truncate(i);
            proof {
                assert(head@ =~= t@.take(i as int));
            }
            trim_tail_chars(&mut head);
            return Some(string_of(&head));
        }
        i = i - 1;
    }
    proof {
        lemma_last_slash(t@);
        if last_slash(t@) is Some {
            assert(t@[last_slash(t@).unwrap()] == '/');
        }
    }
    Some(String::new())
}

/// The components of a path, as `Path::components` gives them: the root
/// `/` of an absolute path, a leading `.` of a relative one, then its
/// segments.
pub open spec fn path_components(p: Seq<char>) -> Seq<Seq<char>> {
    if is_absolute_path(p) {
        seq![seq!['/']] + path_segments(p)
    } else if p == seq!['.'] || (p.len() >= 2 && p[0] == '.' && p[1] == '/') {
        seq![seq!['.']] + path_segments(p)
    } else {
        path_segments(p)
    }
}

/// `p` begins with the components of `base`, as `Path::starts_with` tests.
pub open spec fn path_starts_with(p: Seq<char>, base: Seq<char>) -> bool {
    let a = path_components(p);
    let b = path_components(base);
    b.len() <= a.len() && a.take(b.len() as int) == b
}

/// The components of a path (see [`path_components`]).
fn components_of(p: &Vec<char>) -> (r: Vec<Vec<char>>)
    ensures
        r@.map_values(|v: Vec<char>| v@) == path_components(p@),
{
    let segs = segments_of(p);
    let ghost sv = segs@.map_values(|v: Vec<char>| v@);
    let lead: Option<char> = if p.len() > 0 && p[0] == '/' {
        Some('/')
    } else if (p.len() == 1 && p[0] == '.') || (p.len() >= 2 && p[0] == '.' && p[1] == '/') {
        Some('.')
    } else {
        None
    };
    proof {
        if p@.len() == 1 && p@[0] == '.' {
            assert(p@ =~= seq!['.']);
        }
        if p@ == seq!['.'] {
            assert(p@.len() == 1 && p@[0] == '.');
        }
    }
    match lead {
        None => segs,
        Some(c) => {
            let mut out: Vec<Vec<char>> = Vec::new();
            let mut first: Vec<char> = Vec::new();
            first.push(c);
            out.push(first);
            let mut i: usize = 0;
            while i < segs.len()
                invariant
                    i <= segs@.len(),
                    sv == segs@.map_values(|v: Vec<char>| v@),
                    out@.map_values(|v: Vec<char>| v@) == seq![seq![c]] + sv.take(i as int),
                decreases segs@.len() - i,
            {
                let ghost before = out@;
                out.push(copy_chars(&segs[i]));
                proof {
                    assert(out@.map_values(|v: Vec<char>| v@) =~= before.map_values(|v: Vec<char>| v@).push(sv[i as int]));
                    assert(sv.take(i as int + 1) =~= sv.take(i as int).push(sv[i as int]));
                    assert(seq![seq![c]] + sv.take(i as int + 1) =~= (seq![seq![c]] + sv.take(i as int)).push(sv[i as int]));
                }
                i = i + 1;
            }
            proof {
                assert(sv.take(segs@.len() as int) =~= sv);
            }
            out
        },
    }
}

/// Whether `p` begins with the components of `base` (see
/// [`path_starts_with`]).
pub fn starts_with_path(p: &str, base: &str) -> (r: bool)
    ensures
        r == path_starts_with(p@, base@),
{
    let a = components_of(&chars_of(p));
    let b = components_of(&chars_of(base));
    let ghost av = a@.map_values(|v: Vec<char>| v@);
    let ghost bv = b@.map_values(|v: Vec<char>| v@);
    if b.len() > a.len() {
        return false;
    }
    let mut i: usize = 0;
    while i < b.len()
        invariant
            b@.len() <= a@.len(),
            i <= b@.len(),
            av == a@.map_values(|v: Vec<char>| v@),
            bv == b@.map_values(|v: Vec<char>| v@),
            av == path_components(p@),
            bv == path_components(base@),
            forall|j: int| 0 <= j < i ==> av[j] == bv[j],
        decreases b@.len() - i,
    {
        assert(av[i as int] == a@[i as int]@);
        assert(bv[i as int] == b@[i as int]@);
        if !chars_eq(&a[i], &b[i]) {
            assert(av.take(bv.len() as int)[i as int] != bv[i as int]);
            return false;
        }
        i = i + 1;
    }
    assert(av.take(bv.len() as int) =~= bv);
    true
}

/// `rel` joined onto `base` as `Path::join` does: an absolute `rel` stands
/// as it is, otherwise it is appended with one `/` between.
pub open spec fn join_path(base: Seq<char>, rel: Seq<char>) -> Seq<char> {
    if is_absolute_path(rel) {
        rel
    } else {
        joined_path(base, rel)
    }
}

/// `rel` joined onto `base` (see [`join_path`]).
pub fn join_onto(base: &str, rel: &str) -> (r: String)
    ensures
        r@ == join_path(base@, rel@),
{
    let rc = chars_of(rel);
    if rc.len() > 0 && rc[0] == '/' {
        rel.to_owned()
    } else {
        join(base, rel)
    }
}

proof fn lemma_pieces_prefix(s: Seq<char>, t: Seq<char>, n: nat)
    requires
        n <= s.len(),
        n <= t.len(),
        s.take(n as int) == t.take(n as int),
    ensures
        pieces_upto(s, n) == pieces_upto(t, n),
    decreases n,
{
    if n > 0 {
        assert(s.take(n - 1) =~= s.take(n as int).take(n - 1));
        assert(t.take(n - 1) =~= t.take(n as int).take(n - 1));
        assert(s[n - 1] == s.take(n as int)[n - 1]);
        assert(t[n - 1] == t.take(n as int)[n - 1]);
        lemma_pieces_prefix(s, t, (n - 1) as nat);
    }
}

/// A trailing separator adds no segment.
pub proof fn lemma_segments_trailing_separator(s: Seq<char>)
    ensures
        path_segments(s.push('/')) == path_segments(s),
{
    let t = s.push('/');
    assert(t.take(s.len() as int) =~= s.take(s.len() as int));
    lemma_pieces_prefix(t, s, s.len());
    let ps = pieces_upto(s, s.len());
    assert(pieces_upto(t, t.len()) == pieces_upto(t, s.len()).push(Seq::empty()));
    assert(pieces_upto(t, t.len()).drop_last() =~= ps);
    assert(is_blank_piece(pieces_upto(t, t.len()).last()));
}

/// A restricted directory holds itself.
pub proof fn lemma_restriction_holds_itself(restriction: Seq<char>)
    requires
        is_absolute_path(restriction),
    ensures
        restriction_holds(restriction, restriction),
{
    let r = resolved_segments(restriction);
    assert(r.subrange(0, r.len() as int) =~= r);
}

/// A restriction written with a trailing separator holds exactly the paths
/// it holds without one.
pub proof fn lemma_restriction_trailing_separator(restriction: Seq<char>, path: Seq<char>)
    requires
        is_absolute_path(restriction),
    ensures
        restriction_holds(restriction.push('/'), path) == restriction_holds(restriction, path),
{
    lemma_segments_trailing_separator(restriction);
    assert(restriction.push('/')[0] == restriction[0]);
}

/// The segments of `p` applied to `base`.
pub(crate) fn resolve_segments(base: Vec<Vec<char>>, p: &Vec<char>) -> (r: Vec<Vec<char>>)
    ensures
        r@.map_values(|v: Vec<char>| v@) == apply_segments(base@.map_values(|v: Vec<char>| v@), path_segments(p@)),
{
    apply_all(base, &segments_of(p))
}

/// The path spelled from its segments, with a leading `/` when absolute.
pub(crate) fn render_segments(absolute: bool, segs: &Vec<Vec<char>>) -> (r: String)
    ensures
        r@ == render_path(absolute, segs@.map_values(|v: Vec<char>| v@)),
{
    string_of(&render(absolute, segs))
}

/// Trimming only takes characters off the end.
pub(crate) proof fn lemma_trim_tail_prefix(p: Seq<char>)
    ensures
        trim_tail(p).len() <= p.len(),
        trim_tail(p) == p.take(trim_tail(p).len() as int),
    decreases p.len(),
{
    if (p.len() > 1 && p.last() == '/') || (p.len() >= 2 && p.last() == '.' && p[p.len() - 2] == '/') {
        lemma_trim_tail_prefix(p.drop_last());
        assert(p.drop_last().take(trim_tail(p).len() as int) =~= p.take(trim_tail(p).len() as int));
    } else {
        assert(p.take(p.len() as int) =~= p);
    }
}

/// The components of the path `p` (see [`path_components`]).
pub(crate) fn components_of_str(p: &str) -> (r: Vec<Vec<char>>)
    ensures
        r@.map_values(|v: Vec<char>| v@) == path_components(p@),
{
    components_of(&chars_of(p))
}

/// Every segment names something: it is not empty, holds no `/` and is
/// not `.`.
pub open spec fn plain_segments(segs: Seq<Seq<char>>) -> bool {
    forall|i: int| 0 <= i < segs.len() ==> !is_blank_piece(#[trigger] segs[i]) && !segs[i].contains('/')
}

/// No segment is `..`.
pub open spec fn no_parent_segments(segs: Seq<Seq<char>>) -> bool {
    forall|i: int| 0 <= i < segs.len() ==> #[trigger] segs[i] != seq!['.', '.']
}

proof fn lemma_pieces_no_slash(s: Seq<char>, n: nat)
    requires
        n <= s.len(),
    ensures
        forall|i: int| 0 <= i < pieces_upto(s, n).len() ==> !(#[trigger] pieces_upto(s, n)[i]).contains('/'),
    decreases n,
{
    if n > 0 {
        lemma_pieces_no_slash(s, (n - 1) as nat);
        lemma_pieces_nonempty(s, (n - 1) as nat);
        let p = pieces_upto(s, (n - 1) as nat);
        let q = pieces_upto(s, n);
        if s[n - 1] != '/' {
            assert forall|i: int| 0 <= i < q.len() implies !(#[trigger] q[i]).contains('/') by {
                if i == q.len() - 1 {
                    if q[i].contains('/') {
                        let k = choose|k: int| 0 <= k < q[i].len() && q[i][k] == '/';
                        assert(q[i] == p.last().push(s[n - 1]));
                        if k < p.last().len() {
                            assert(p[p.len() - 1][k] == '/');
                        }
                    }
                } else {
                    assert(q[i] == p[i]);
                }
            }
        } else {
            assert forall|i: int| 0 <= i < q.len() implies !(#[trigger] q[i]).contains('/') by {
                if i < p.len() {
                    assert(q[i] == p[i]);
                }
            }
        }
    }
}

proof fn lemma_plain_pieces_plain(ps: Seq<Seq<char>>)
    requires
        forall|i: int| 0 <= i < ps.len() ==> !(#[trigger] ps[i]).contains('/'),
    ensures
        plain_segments(plain_pieces(ps)),
    decreases ps.len(),
{
    if ps.len() > 0 {
        let d = ps.drop_last();
        assert forall|i: int| 0 <= i < d.len() implies !(#[trigger] d[i]).contains('/') by {
            assert(d[i] == ps[i]);
        }
        lemma_plain_pieces_plain(d);
        assert(!ps[ps.len() - 1].contains('/'));
    }
}

/// The segments of a path are plain.
pub proof fn lemma_path_segments_plain(s: Seq<char>)
    ensures
        plain_segments(path_segments(s)),
{
    lemma_pieces_no_slash(s, s.len());
    lemma_plain_pieces_plain(pieces_upto(s, s.len()));
}

/// Appending segments with no `..` among them puts them after the base.
pub proof fn lemma_apply_without_parents(base: Seq<Seq<char>>, segs: Seq<Seq<char>>)
    requires
        no_parent_segments(segs),
    ensures
        apply_segments(base, segs) == base + segs,
    decreases segs.len(),
{
    if segs.len() == 0 {
        assert(base + segs =~= base);
    } else {
        let d = segs.drop_last();
        assert forall|i: int| 0 <= i < d.len() implies #[trigger] d[i] != seq!['.', '.'] by {
            assert(d[i] == segs[i]);
        }
        lemma_apply_without_parents(base, d);
        assert(segs.last() != seq!['.', '.']);
        assert(base + segs =~= (base + d).push(segs.last()));
    }
}

/// Pieces of `x` followed by characters with no `/`: the last piece grows.
proof fn lemma_pieces_extend(x: Seq<char>, t: Seq<char>, k: nat)
    requires
        k <= t.len(),
        !t.contains('/'),
    ensures
        pieces_upto(x + t, x.len() + k) == pieces_upto(x, x.len()).update(
            pieces_upto(x, x.len()).len() - 1,
            pieces_upto(x, x.len()).last() + t.take(k as int),
        ),
    decreases k,
{
    lemma_pieces_nonempty(x, x.len());
    let p = pieces_upto(x, x.len());
    if k == 0 {
        assert((x + t).take(x.len() as int) =~= x.take(x.len() as int));
        lemma_pieces_prefix(x + t, x, x.len());
        assert(p.last() + t.take(0) =~= p.last());
        assert(p.update(p.len() - 1, p.last()) =~= p);
    } else {
        lemma_pieces_extend(x, t, (k - 1) as nat);
        let c = (x + t)[x.len() + k - 1];
        assert(c == t[k - 1]);
        if c == '/' {
            assert(t.contains('/'));
        }
        let q = pieces_upto(x + t, (x.len() + k - 1) as nat);
        assert(q.last() == p.last() + t.take(k - 1));
        assert(p.last() + t.take(k - 1) + seq![t[k - 1]] =~= p.last() + t.take(k as int));
        assert(q.last().push(c) =~= p.last() + t.take(k as int));
        assert(q.update(q.len() - 1, q.last().push(c)) =~= p.update(p.len() - 1, p.last() + t.take(k as int)));
    }
}

/// The segments of `x` followed by `/` and a plain segment `s`.
proof fn lemma_segments_append(x: Seq<char>, s: Seq<char>)
    requires
        !is_blank_piece(s),
        !s.contains('/'),
    ensures
        path_segments(x + seq!['/'] + s) == path_segments(x).push(s),
{
    let y = x + seq!['/'];
    assert(y.take(x.len() as int) =~= x.take(x.len() as int));
    lemma_pieces_prefix(y, x, x.len());
    lemma_pieces_nonempty(x, x.len());
    let px = pieces_upto(x, x.len());
    assert(pieces_upto(y, y.len()) == px.push(Seq::empty()));
    lemma_pieces_extend(y, s, s.len());
    assert(s.take(s.len() as int) =~= s);
    let py = px.push(Seq::<char>::empty());
    assert(py.update(py.len() - 1, py.last() + s) =~= px.push(s));
    assert(px.push(s).drop_last() =~= px);
}

/// The segments of a plain segment on its own.
proof fn lemma_segments_single(s: Seq<char>)
    requires
        !is_blank_piece(s),
        !s.contains('/'),
    ensures
        path_segments(s) == seq![s],
        path_segments(seq!['/'] + s) == seq![s],
{
    let e = Seq::<char>::empty();
    lemma_pieces_extend(e, s, s.len());
    assert(e + s =~= s);
    assert(s.take(s.len() as int) =~= s);
    assert(pieces_upto(e, 0) == seq![Seq::<char>::empty()]);
    assert(seq![Seq::<char>::empty()].update(0, Seq::<char>::empty() + s) =~= seq![s]);
    assert(pieces_upto(s, s.len()) =~= seq![s]);
    assert(seq![s].drop_last() =~= Seq::<Seq<char>>::empty());
    assert(plain_pieces(Seq::<Seq<char>>::empty()) =~= Seq::<Seq<char>>::empty());
    assert(plain_pieces(seq![s]) == plain_pieces(seq![s].drop_last()).push(s));
    assert(Seq::<Seq<char>>::empty().push(s) =~= seq![s]);
    assert(path_segments(s) =~= seq![s]);
    lemma_segments_append(e, s);
    assert(e + seq!['/'] + s =~= seq!['/'] + s);
    assert(path_segments(e) =~= Seq::<Seq<char>>::empty()) by {
        assert(plain_pieces(Seq::<Seq<char>>::empty()) =~= Seq::<Seq<char>>::empty());
        assert(plain_pieces(seq![Seq::<char>::empty()]) =~= Seq::<Seq<char>>::empty()) by {
            assert(seq![Seq::<char>::empty()].drop_last() =~= Seq::<Seq<char>>::empty());
        }
    }
    assert(Seq::<Seq<char>>::empty().push(s) =~= seq![s]);
}

/// Spelling plain segments out and reading the segments back gives them.
pub proof fn lemma_render_then_segments(absolute: bool, segs: Seq<Seq<char>>)
    requires
        plain_segments(segs),
    ensures
        path_segments(render_path(absolute, segs)) == segs,
    decreases segs.len(),
{
    if segs.len() == 0 {
        if absolute {
            assert(render_path(absolute, segs) =~= seq!['/']);
            assert(pieces_upto(seq!['/'], 0) == seq![Seq::<char>::empty()]);
            assert(seq!['/'][0] == '/');
            assert(pieces_upto(seq!['/'], 1) == seq![Seq::<char>::empty()].push(Seq::<char>::empty()));
            assert(plain_pieces(Seq::<Seq<char>>::empty()) =~= Seq::<Seq<char>>::empty());
            assert(plain_pieces(seq![Seq::<char>::empty(), Seq::<char>::empty()]) =~= Seq::<Seq<char>>::empty()) by {
                let two = seq![Seq::<char>::empty(), Seq::<char>::empty()];
                let one = seq![Seq::<char>::empty()];
                assert(two.drop_last() =~= one);
                assert(one.drop_last() =~= Seq::<Seq<char>>::empty());
                assert(is_blank_piece(one.last()));
                assert(plain_pieces(one) == plain_pieces(one.drop_last()));
                assert(plain_pieces(one) =~= Seq::<Seq<char>>::empty());
                assert(is_blank_piece(two.last()));
                assert(plain_pieces(two) == plain_pieces(two.drop_last()));
            }
            assert(seq![Seq::<char>::empty()].push(Seq::<char>::empty()) =~= seq![Seq::<char>::empty(), Seq::<char>::empty()]);
        } else {
            assert(render_path(absolute, segs) =~= Seq::<char>::empty());
            assert(plain_pieces(Seq::<Seq<char>>::empty()) =~= Seq::<Seq<char>>::empty());
            assert(plain_pieces(seq![Seq::<char>::empty()]) =~= Seq::<Seq<char>>::empty()) by {
                assert(seq![Seq::<char>::empty()].drop_last() =~= Seq::<Seq<char>>::empty());
            }
        }
    } else if segs.len() == 1 {
        assert(!is_blank_piece(segs[0]) && !segs[0].contains('/'));
        lemma_segments_single(segs[0]);
        assert(seq![segs[0]] =~= segs);
    } else {
        let d = segs.drop_last();
        assert(plain_segments(d)) by {
            assert forall|i: int| 0 <= i < d.len() implies !is_blank_piece(#[trigger] d[i]) && !d[i].contains('/') by {
                assert(d[i] == segs[i]);
            }
        }
        lemma_render_then_segments(absolute, d);
        let last = segs.last();
        assert(!is_blank_piece(segs[segs.len() - 1]) && !segs[segs.len() - 1].contains('/'));
        lemma_segments_append(render_path(absolute, d), last);
        assert(render_path(absolute, segs) =~= render_path(absolute, d) + seq!['/'] + last);
        assert(d.push(last) =~= segs);
    }
}

/// A path resolved against an absolute folder with no `..` segments, by a
/// relative path with no `..` segments, lies inside that folder.
pub proof fn lemma_join_stays_inside(base: Seq<char>, sub: Seq<char>)
    requires
        is_absolute_path(base),
        no_parent_segments(path_segments(base)),
        !is_absolute_path(sub),
        no_parent_segments(path_segments(sub)),
    ensures
        restriction_holds(base, normalized_join(base, sub)),
{
    let b = path_segments(base);
    let t = path_segments(sub);
    lemma_apply_without_parents(b, t);
    lemma_path_segments_plain(base);
    lemma_path_segments_plain(sub);
    let all = b + t;
    assert(plain_segments(all)) by {
        assert forall|i: int| 0 <= i < all.len() implies !is_blank_piece(#[trigger] all[i]) && !all[i].contains('/') by {
            if i < b.len() {
                assert(all[i] == b[i]);
            } else {
                assert(all[i] == t[i - b.len()]);
            }
        }
    }
    assert(no_parent_segments(all)) by {
        assert forall|i: int| 0 <= i < all.len() implies #[trigger] all[i] != seq!['.', '.'] by {
            if i < b.len() {
                assert(all[i] == b[i]);
            } else {
                assert(all[i] == t[i - b.len()]);
            }
        }
    }
    let p = normalized_join(base, sub);
    assert(p == render_path(true, all));
    lemma_render_then_segments(true, all);
    lemma_apply_without_parents(Seq::empty(), all);
    lemma_apply_without_parents(Seq::empty(), b);
    assert(Seq::<Seq<char>>::empty() + all =~= all);
    assert(Seq::<Seq<char>>::empty() + b =~= b);
    assert(all.subrange(0, b.len() as int) =~= b);
    assert(p[0] == '/');
}

} // verus!
