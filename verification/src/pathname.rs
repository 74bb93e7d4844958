//! Unix path names as character sequences, read the way `std::path::Path`
//! reads them: an optional root `/` or leading `.`, then pieces separated by
//! `/`, of which empty pieces and `.` pieces are not components.
use vstd::prelude::*;
use crate::text::{chars_of, chars_eq, push_str, string_of_range};

verus! {

pub open spec fn has_root(p: Seq<char>) -> bool {
    p.len() > 0 && p[0] == '/'
}

/// A relative path that starts with the component `.`.
pub open spec fn starts_cur_dir(p: Seq<char>) -> bool {
    !has_root(p) && p.len() > 0 && p[0] == '.' && (p.len() == 1 || p[1] == '/')
}

/// Where the pieces start: after the root or the leading `.`.
pub open spec fn body_start(p: Seq<char>) -> int {
    if has_root(p) || starts_cur_dir(p) {
        1
    } else {
        0
    }
}

/// The start of the piece that ends at `end` (the piece runs up to the
/// previous `/`, not before `bs`).
pub open spec fn piece_start(p: Seq<char>, bs: int, end: int) -> int
    decreases end,
{
    if end <= bs || end <= 0 {
        bs
    } else if p[end - 1] == '/' {
        end
    } else {
        piece_start(p, bs, end - 1)
    }
}

/// A piece that is not a component: empty, or `.`.
pub open spec fn is_void_piece(p: Seq<char>, s: int, e: int) -> bool {
    e == s || (e == s + 1 && p[s] == '.')
}

/// The end that remains once trailing empty and `.` pieces are removed.
pub open spec fn trim_end_at(p: Seq<char>, bs: int, end: int) -> int
    decreases end,
{
    if end <= bs || bs < 0 || end > p.len() {
        end
    } else {
        let s = piece_start(p, bs, end);
        proof {
            lemma_piece_start_bounds(p, bs, end);
        }
        if is_void_piece(p, s, end) {
            if s > bs {
                trim_end_at(p, bs, s - 1)
            } else {
                bs
            }
        } else {
            end
        }
    }
}

pub proof fn lemma_piece_start_bounds(p: Seq<char>, bs: int, end: int)
    requires
        0 <= bs,
        end <= p.len(),
    ensures
        end <= bs ==> piece_start(p, bs, end) == bs,
        end > bs ==> bs <= piece_start(p, bs, end) <= end,
        end > bs && piece_start(p, bs, end) > bs ==> p[piece_start(p, bs, end) - 1] == '/',
        forall|k: int| piece_start(p, bs, end) <= k < end ==> #[trigger] p[k] != '/',
    decreases end,
{
    if end > bs && end > 0 && p[end - 1] != '/' {
        lemma_piece_start_bounds(p, bs, end - 1);
    }
}

pub proof fn lemma_trim_end_bounds(p: Seq<char>, bs: int, end: int)
    requires
        0 <= bs,
        end <= p.len(),
    ensures
        end <= bs ==> trim_end_at(p, bs, end) == end,
        end > bs ==> bs <= trim_end_at(p, bs, end) <= end,
        trim_end_at(p, bs, end) > bs ==> !is_void_piece(
            p,
            piece_start(p, bs, trim_end_at(p, bs, end)),
            trim_end_at(p, bs, end),
        ),
    decreases end,
{
    if end > bs {
        lemma_piece_start_bounds(p, bs, end);
        let s = piece_start(p, bs, end);
        if is_void_piece(p, s, end) && s > bs {
            lemma_trim_end_bounds(p, bs, s - 1);
        }
    }
}

/// The components before `end`: `/` for the root, `.` for a leading current
/// directory, then the non-void pieces.
pub open spec fn comps_at(p: Seq<char>, bs: int, end: int) -> Seq<Seq<char>>
    decreases end,
{
    let t = trim_end_at(p, bs, end);
    if end <= bs || t <= bs || bs < 0 || end > p.len() {
        if has_root(p) {
            seq![seq!['/']]
        } else if starts_cur_dir(p) {
            seq![seq!['.']]
        } else {
            Seq::empty()
        }
    } else {
        let s = piece_start(p, bs, t);
        proof {
            lemma_trim_end_bounds(p, bs, end);
            lemma_piece_start_bounds(p, bs, t);
        }
        let before = if s > bs {
            s - 1
        } else {
            bs
        };
        comps_at(p, bs, before).push(p.subrange(s, t))
    }
}

/// The components of a path; two paths are equal (`Path::eq`) exactly when
/// their components are.
pub open spec fn components(p: Seq<char>) -> Seq<Seq<char>> {
    comps_at(p, body_start(p), p.len() as int)
}

/// `Path::file_name`: the last component, where it is a name.
pub open spec fn file_name(p: Seq<char>) -> Option<Seq<char>> {
    let bs = body_start(p);
    let t = trim_end_at(p, bs, p.len() as int);
    if t > bs {
        let c = p.subrange(piece_start(p, bs, t), t);
        if c == seq!['.', '.'] {
            None
        } else {
            Some(c)
        }
    } else {
        None
    }
}

/// `Path::parent`.
pub open spec fn parent(p: Seq<char>) -> Option<Seq<char>> {
    let bs = body_start(p);
    let t = trim_end_at(p, bs, p.len() as int);
    if t > bs {
        let s = piece_start(p, bs, t);
        let before = if s > bs {
            s - 1
        } else {
            bs
        };
        Some(p.take(trim_end_at(p, bs, before)))
    } else if starts_cur_dir(p) {
        Some(Seq::empty())
    } else {
        None
    }
}

/// The index of the last `.` of a name, if any.
pub open spec fn last_dot(n: Seq<char>) -> Option<int>
    decreases n.len(),
{
    if n.len() == 0 {
        None
    } else if n.last() == '.' {
        Some(n.len() - 1)
    } else {
        last_dot(n.drop_last())
    }
}

/// Where a file name splits into stem and extension (`None`: no extension).
pub open spec fn ext_dot(n: Seq<char>) -> Option<int> {
    match last_dot(n) {
        Some(i) => if i == 0 {
            None
        } else {
            Some(i)
        },
        None => None,
    }
}

/// `Path::file_stem`.
pub open spec fn file_stem(p: Seq<char>) -> Option<Seq<char>> {
    match file_name(p) {
        Some(n) => match ext_dot(n) {
            Some(i) => Some(n.take(i)),
            None => Some(n),
        },
        None => None,
    }
}

/// `Path::extension`.
pub open spec fn extension(p: Seq<char>) -> Option<Seq<char>> {
    match file_name(p) {
        Some(n) => match ext_dot(n) {
            Some(i) => Some(n.skip(i + 1)),
            None => None,
        },
        None => None,
    }
}

/// `Path::join`: a path with a root replaces the base; otherwise a `/` goes
/// between the two unless the base is empty or already ends with one.
pub open spec fn join(base: Seq<char>, name: Seq<char>) -> Seq<char> {
    if has_root(name) {
        name
    } else if base.len() == 0 || base.last() == '/' {
        base + name
    } else {
        base + seq!['/'] + name
    }
}

fn body_start_of(p: &Vec<char>) -> (r: usize)
    ensures
        r == body_start(p@),
        r <= p.len(),
{
    if p.len() > 0 && (p[0] == '/' || (p[0] == '.' && (p.len() == 1 || p[1] == '/'))) {
        1
    } else {
        0
    }
}

fn piece_start_of(p: &Vec<char>, bs: usize, end: usize) -> (r: usize)
    requires
        end <= p.len(),
    ensures
        r == piece_start(p@, bs as int, end as int),
{
    let mut e = end;
    while e > bs && p[e - 1] != '/'
        invariant
            e <= end <= p.len(),
            piece_start(p@, bs as int, e as int) == piece_start(p@, bs as int, end as int),
        decreases e,
    {
        e = e - 1;
    }
    if e <= bs {
        bs
    } else {
        e
    }
}

fn trim_end_of(p: &Vec<char>, bs: usize, end: usize) -> (r: usize)
    requires
        end <= p.len(),
    ensures
        r == trim_end_at(p@, bs as int, end as int),
{
    let mut e = end;
    while e > bs
        invariant
            e <= end <= p.len(),
            trim_end_at(p@, bs as int, e as int) == trim_end_at(p@, bs as int, end as int),
        decreases e,
    {
        let s = piece_start_of(p, bs, e);
        proof {
            lemma_piece_start_bounds(p@, bs as int, e as int);
        }
        if e == s || (e == s + 1 && p[s] == '.') {
            if s > bs {
                e = s - 1;
            } else {
                return bs;
            }
        } else {
            return e;
        }
    }
    e
}

/// The components of a path, in order.
fn components_of(p: &Vec<char>) -> (r: Vec<Vec<char>>)
    ensures
        r@.map_values(|c: Vec<char>| c@) == components(p@),
{
    let bs = body_start_of(p);
    let mut out: Vec<Vec<char>> = Vec::new();
    let mut end = p.len();
    let ghost full = components(p@);
    // Collect the pieces from the back, then reverse.
    let mut rev: Vec<Vec<char>> = Vec::new();
    loop
        invariant
            bs == body_start(p@),
            end <= p.len(),
            full == components(p@),
            full == comps_at(p@, bs as int, end as int) + rev@.map_values(|c: Vec<char>| c@).reverse(),
        ensures
            end <= p.len(),
            full == comps_at(p@, bs as int, end as int) + rev@.map_values(|c: Vec<char>| c@).reverse(),
            end <= bs || trim_end_at(p@, bs as int, end as int) <= bs,
        decreases end,
    {
        let t = trim_end_of(p, bs, end);
        proof {
            lemma_trim_end_bounds(p@, bs as int, end as int);
        }
        if end <= bs || t <= bs {
            break;
        }
        let s = piece_start_of(p, bs, t);
        proof {
            lemma_piece_start_bounds(p@, bs as int, t as int);
        }
        let mut piece: Vec<char> = Vec::new();
        let mut k = s;
        while k < t
            invariant
                s <= k <= t <= p.len(),
                piece@ == p@.subrange(s as int, k as int),
            decreases t - k,
        {
            piece.push(p[k]);
            k = k + 1;
            assert(piece@ =~= p@.subrange(s as int, k as int));
        }
        let ghost old_rev = rev@.map_values(|c: Vec<char>| c@);
        rev.push(piece);
        let before = if s > bs { s - 1 } else { bs };
        proof {
            assert(rev@.map_values(|c: Vec<char>| c@) =~= old_rev.push(p@.subrange(s as int, t as int)));
            assert(old_rev.push(p@.subrange(s as int, t as int)).reverse() =~= seq![p@.subrange(s as int, t as int)] + old_rev.reverse());
            assert(comps_at(p@, bs as int, end as int) == comps_at(p@, bs as int, before as int).push(p@.subrange(s as int, t as int)));
            assert(comps_at(p@, bs as int, before as int).push(p@.subrange(s as int, t as int)) + old_rev.reverse() =~= comps_at(p@, bs as int, before as int) + rev@.map_values(|c: Vec<char>| c@).reverse());
        }
        end = before;
    }
    if p.len() > 0 && p[0] == '/' {
        let mut root: Vec<char> = Vec::new();
        root.push('/');
        assert(root@ =~= seq!['/']);
        out.push(root);
    } else if p.len() > 0 && p[0] == '.' && (p.len() == 1 || p[1] == '/') {
        let mut cur: Vec<char> = Vec::new();
        cur.push('.');
        assert(cur@ =~= seq!['.']);
        out.push(cur);
    }
    assert(out@.map_values(|c: Vec<char>| c@) =~= comps_at(p@, bs as int, end as int));
    let mut i = rev.len();
    while i > 0
        invariant
            i <= rev.len(),
            full == out@.map_values(|c: Vec<char>| c@) + rev@.take(i as int).map_values(|c: Vec<char>| c@).reverse(),
        decreases i,
    {
        let ghost before_out = out@.map_values(|c: Vec<char>| c@);
        let c = rev[i - 1].clone();
        out.push(c);
        proof {
            let tk = rev@.take(i as int).map_values(|c: Vec<char>| c@);
            let tk2 = rev@.take(i - 1).map_values(|c: Vec<char>| c@);
            assert(tk =~= tk2.push(rev@[i - 1]@));
            assert(tk.reverse() =~= seq![rev@[i - 1]@] + tk2.reverse());
            assert(out@.map_values(|c: Vec<char>| c@) =~= before_out.push(rev@[i - 1]@));
            assert(before_out + tk.reverse() =~= out@.map_values(|c: Vec<char>| c@) + tk2.reverse());
        }
        i = i - 1;
    }
    assert(rev@.take(0).map_values(|c: Vec<char>| c@).reverse() =~= Seq::<Seq<char>>::empty());
    assert(full =~= out@.map_values(|c: Vec<char>| c@));
    out
}

/// `Path::eq`: the same components.
pub fn same_path(a: &str, b: &str) -> (r: bool)
    ensures
        r == (components(a@) == components(b@)),
{
    let ca = components_of(&chars_of(a));
    let cb = components_of(&chars_of(b));
    if ca.len() != cb.len() {
        assert(ca@.map_values(|c: Vec<char>| c@).len() != cb@.map_values(|c: Vec<char>| c@).len());
        return false;
    }
    let mut i: usize = 0;
    while i < ca.len()
        invariant
            ca.len() == cb.len(),
            i <= ca.len(),
            ca@.map_values(|c: Vec<char>| c@) == components(a@),
            cb@.map_values(|c: Vec<char>| c@) == components(b@),
            forall|j: int| 0 <= j < i ==> (#[trigger] ca@[j])@ == cb@[j]@,
        decreases ca.len() - i,
    {
        if !chars_eq(&ca[i], &cb[i]) {
            assert(ca@.map_values(|c: Vec<char>| c@)[i as int] != cb@.map_values(|c: Vec<char>| c@)[i as int]);
            return false;
        }
        i = i + 1;
    }
    assert(ca@.map_values(|c: Vec<char>| c@) =~= cb@.map_values(|c: Vec<char>| c@));
    true
}

/// Where the file name of a path lies in it, if it has one.
fn file_name_range(p: &Vec<char>) -> (r: Option<(usize, usize)>)
    ensures
        match r {
            Some((s, e)) => s <= e <= p.len() && file_name(p@) == Some(p@.subrange(s as int, e as int))
                && e == trim_end_at(p@, body_start(p@), p@.len() as int)
                && s == piece_start(p@, body_start(p@), e as int),
            None => file_name(p@) is None,
        },
{
    let bs = body_start_of(p);
    let t = trim_end_of(p, bs, p.len());
    proof {
        lemma_trim_end_bounds(p@, bs as int, p@.len() as int);
    }
    if t > bs {
        let s = piece_start_of(p, bs, t);
        proof {
            lemma_piece_start_bounds(p@, bs as int, t as int);
        }
        if t - s == 2 && p[s] == '.' && p[s + 1] == '.' {
            assert(p@.subrange(s as int, t as int) =~= seq!['.', '.']);
            None
        } else {
            assert(p@.subrange(s as int, t as int) != seq!['.', '.']) by {
                let dd = seq!['.', '.'];
                assert(dd.len() == 2 && dd[0] == '.' && dd[1] == '.');
                if p@.subrange(s as int, t as int) == dd {
                    assert(t - s == 2);
                    assert(p@.subrange(s as int, t as int)[0] == p@[s as int]);
                    assert(p@.subrange(s as int, t as int)[1] == p@[s + 1]);
                }
            }
            Some((s, t))
        }
    } else {
        None
    }
}

/// `Path::file_name`.
pub fn file_name_of(path: &str) -> (r: Option<String>)
    ensures
        match r {
            Some(n) => file_name(path@) == Some(n@),
            None => file_name(path@) is None,
        },
{
    let p = chars_of(path);
    match file_name_range(&p) {
        Some((s, e)) => Some(string_of_range(&p, s, e)),
        None => None,
    }
}

/// The index of the last `.` in `p[s..e]`, relative to `s`.
fn last_dot_in(p: &Vec<char>, s: usize, e: usize) -> (r: Option<usize>)
    requires
        s <= e <= p.len(),
    ensures
        match r {
            Some(i) => last_dot(p@.subrange(s as int, e as int)) == Some(i as int) && i < e - s,
            None => last_dot(p@.subrange(s as int, e as int)) is None,
        },
{
    let mut k = e;
    while k > s
        invariant
            s <= k <= e <= p.len(),
            last_dot(p@.subrange(s as int, e as int)) == last_dot(p@.subrange(s as int, k as int)),
        decreases k,
    {
        assert(p@.subrange(s as int, k as int).drop_last() =~= p@.subrange(s as int, k - 1));
        if p[k - 1] == '.' {
            return Some(k - 1 - s);
        }
        k = k - 1;
    }
    None
}

/// The stem and extension of a path (`Path::file_stem`, `Path::extension`).
pub fn stem_and_extension(path: &str) -> (r: (Option<String>, Option<String>))
    ensures
        match r.0 {
            Some(s) => file_stem(path@) == Some(s@),
            None => file_stem(path@) is None,
        },
        match r.1 {
            Some(x) => extension(path@) == Some(x@),
            None => extension(path@) is None,
        },
{
    let p = chars_of(path);
    match file_name_range(&p) {
        Some((s, e)) => {
            let ghost n = p@.subrange(s as int, e as int);
            match last_dot_in(&p, s, e) {
                Some(i) => {
                    if i == 0 {
                        (Some(string_of_range(&p, s, e)), None)
                    } else {
                        let stem = string_of_range(&p, s, s + i);
                        let ext = string_of_range(&p, s + i + 1, e);
                        assert(stem@ =~= n.take(i as int));
                        assert(ext@ =~= n.skip(i + 1));
                        (Some(stem), Some(ext))
                    }
                },
                None => (Some(string_of_range(&p, s, e)), None),
            }
        },
        None => (None, None),
    }
}

/// Where the stem of the file name ends in the path, if it has a file name.
pub fn stem_end(p: &Vec<char>) -> (r: Option<usize>)
    ensures
        match r {
            Some(k) => file_stem(p@) is Some && k <= p.len() && k == piece_start(
                p@,
                body_start(p@),
                trim_end_at(p@, body_start(p@), p@.len() as int),
            ) + file_stem(p@)->0.len(),
            None => file_stem(p@) is None,
        },
{
    match file_name_range(p) {
        Some((s, e)) => {
            let ghost n = p@.subrange(s as int, e as int);
            match last_dot_in(p, s, e) {
                Some(i) => {
                    if i == 0 {
                        Some(e)
                    } else {
                        assert(n.take(i as int).len() == i);
                        Some(s + i)
                    }
                },
                None => Some(e),
            }
        },
        None => None,
    }
}

/// `Path::parent`.
pub fn parent_of(path: &str) -> (r: Option<String>)
    ensures
        match r {
            Some(q) => parent(path@) == Some(q@),
            None => parent(path@) is None,
        },
{
    let p = chars_of(path);
    let bs = body_start_of(&p);
    let t = trim_end_of(&p, bs, p.len());
    proof {
        lemma_trim_end_bounds(p@, bs as int, p@.len() as int);
    }
    if t > bs {
        let s = piece_start_of(&p, bs, t);
        proof {
            lemma_piece_start_bounds(p@, bs as int, t as int);
        }
        let before = if s > bs { s - 1 } else { bs };
        let k = trim_end_of(&p, bs, before);
        proof {
            lemma_trim_end_bounds(p@, bs as int, before as int);
        }
        let q = string_of_range(&p, 0, k);
        assert(q@ =~= p@.take(k as int));
        Some(q)
    } else if p.len() > 0 && p[0] == '.' && (p.len() == 1 || p[1] == '/') {
        let q = String::new();
        assert(q@ =~= Seq::<char>::empty());
        Some(q)
    } else {
        None
    }
}

/// `Path::join`.
pub fn join_path(base: &str, name: &str) -> (r: String)
    ensures
        r@ == join(base@, name@),
{
    let b = chars_of(base);
    let n = chars_of(name);
    if n.len() > 0 && n[0] == '/' {
        return crate::text::owned(name);
    }
    let mut r = crate::text::owned(base);
    if !(b.len() == 0 || b[b.len() - 1] == '/') {
        crate::text::push_char(&mut r, '/');
    }
    push_str(&mut r, name);
    assert(b@.len() > 0 ==> b@.last() == b@[b.len() - 1]);
    r
}

/// A name that is one normal component: not empty, no `/`, and neither
/// `.` nor `..`.
pub open spec fn plain_name(n: Seq<char>) -> bool {
    &&& n.len() > 0
    &&& forall|i: int| 0 <= i < n.len() ==> #[trigger] n[i] != '/'
    &&& n != seq!['.']
    &&& n != seq!['.', '.']
}

/// The piece that ends at `end` starts at `s` when no `/` lies between them
/// and `s` is the body start or follows a `/`.
pub proof fn lemma_piece_start_at(p: Seq<char>, bs: int, s: int, end: int)
    requires
        0 <= bs <= s <= end <= p.len(),
        forall|k: int| s <= k < end ==> #[trigger] p[k] != '/',
        s == bs || p[s - 1] == '/',
    ensures
        piece_start(p, bs, end) == s,
    decreases end,
{
    if end > s {
        lemma_piece_start_at(p, bs, s, end - 1);
        assert(p[end - 1] != '/');
    }
}

/// Joining a plain name makes it the last component.
pub proof fn lemma_join_plain(base: Seq<char>, name: Seq<char>)
    requires
        plain_name(name),
    ensures
        components(join(base, name)).len() > 0,
        components(join(base, name)).last() == name,
{
    let q = join(base, name);
    assert(!has_root(name)) by {
        assert(name[0] != '/');
    }
    let s = q.len() - name.len();
    if base.len() == 0 {
        assert(q =~= name);
        assert(!starts_cur_dir(q)) by {
            if q.len() == 1 && q[0] == '.' {
                assert(q =~= seq!['.']);
            }
            if q.len() > 1 {
                assert(q[1] != '/');
            }
        }
    } else if base.last() == '/' {
        assert(q =~= base + name);
        assert(q[s - 1] == '/');
    } else {
        assert(q =~= base + seq!['/'] + name);
        assert(q[s - 1] == '/');
    }
    let bs = body_start(q);
    assert(bs <= s);
    assert forall|k: int| s <= k < q.len() implies #[trigger] q[k] != '/' by {
        assert(q[k] == name[k - s]);
    }
    assert(q.subrange(s, q.len() as int) =~= name);
    lemma_piece_start_at(q, bs, s, q.len() as int);
    assert(!is_void_piece(q, s, q.len() as int)) by {
        if q.len() == s + 1 && q[s] == '.' {
            assert(name =~= seq!['.']);
        }
    }
    assert(trim_end_at(q, bs, q.len() as int) == q.len());
}

/// The file name of a path, where it has one, is its last component and
/// holds no `/`; where it has none, the last component (if any) is the
/// root, `.` or `..`.
pub proof fn lemma_file_name_component(p: Seq<char>)
    ensures
        file_name(p) matches Some(n) ==> components(p).len() > 0 && components(p).last() == n
            && n.len() > 0 && forall|i: int| 0 <= i < n.len() ==> #[trigger] n[i] != '/',
        file_name(p) is None ==> components(p).len() == 0 || components(p).last() == seq!['/']
            || components(p).last() == seq!['.'] || components(p).last() == seq!['.', '.'],
{
    let bs = body_start(p);
    let t = trim_end_at(p, bs, p.len() as int);
    lemma_trim_end_bounds(p, bs, p.len() as int);
    if t > bs {
        let s = piece_start(p, bs, t);
        lemma_piece_start_bounds(p, bs, t);
        let c = p.subrange(s, t);
        assert forall|i: int| 0 <= i < c.len() implies #[trigger] c[i] != '/' by {
            assert(c[i] == p[s + i]);
        }
    }
}

} // verus!
