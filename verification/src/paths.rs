//! Unix path text: the final component of a path and joining two paths,
//! as `std::path::Path::file_name` and `std::path::PathBuf::push` do them.

use vstd::prelude::*;

verus! {

/// Index of the last `/` in `p`, or -1 when there is none.
pub open spec fn last_slash(p: Seq<char>) -> int
    decreases p.len(),
{
    if p.len() == 0 {
        -1
    } else if p.last() == '/' {
        p.len() - 1
    } else {
        last_slash(p.drop_last())
    }
}

pub proof fn lemma_last_slash_bounds(p: Seq<char>)
    ensures
        -1 <= last_slash(p) < p.len(),
        last_slash(p) >= 0 ==> p[last_slash(p)] == '/',
        forall|j: int| last_slash(p) < j < p.len() ==> p[j] != '/',
    decreases p.len(),
{
    if p.len() > 0 && p.last() != '/' {
        lemma_last_slash_bounds(p.drop_last());
        assert forall|j: int| last_slash(p) < j < p.len() implies p[j] != '/' by {
            if j < p.len() - 1 {
                assert(p[j] == p.drop_last()[j]);
            }
        }
    }
}

/// The final component of path `p`: trailing `/` and `.` components are
/// skipped; `None` when nothing is left or the final component is `..`.
pub open spec fn file_name_of(p: Seq<char>) -> Option<Seq<char>>
    decreases p.len(),
{
    let k = last_slash(p);
    proof {
        lemma_last_slash_bounds(p);
    }
    let seg = p.subrange(k + 1, p.len() as int);
    if seg == Seq::<char>::empty() || seg == seq!['.'] {
        if k < 0 {
            None
        } else {
            file_name_of(p.subrange(0, k))
        }
    } else if seg == seq!['.', '.'] {
        None
    } else {
        Some(seg)
    }
}

/// `base` extended by `rel`: `rel` alone when it is absolute, otherwise the
/// two with one `/` between them unless `base` is empty or already ends in `/`.
pub open spec fn join_path_of(base: Seq<char>, rel: Seq<char>) -> Seq<char> {
    if rel.len() > 0 && rel[0] == '/' {
        rel
    } else if base.len() == 0 || base.last() == '/' {
        base + rel
    } else {
        base + seq!['/'] + rel
    }
}

proof fn lemma_last_slash_found(p: Seq<char>, k: int)
    requires
        0 <= k < p.len(),
        p[k] == '/',
        forall|j: int| k < j < p.len() ==> p[j] != '/',
    ensures
        last_slash(p) == k,
    decreases p.len(),
{
    if p.last() != '/' {
        lemma_last_slash_found(p.drop_last(), k);
    }
}

proof fn lemma_no_slash(p: Seq<char>)
    requires
        forall|j: int| 0 <= j < p.len() ==> p[j] != '/',
    ensures
        last_slash(p) == -1,
    decreases p.len(),
{
    if p.len() > 0 {
        lemma_no_slash(p.drop_last());
    }
}

/// The final component of `path`, as `std::path::Path::file_name` gives it.
pub fn file_name(path: &str) -> (res: Option<String>)
    ensures
        res.deep_view() == file_name_of(path@),
{
    let ghost p = path@;
    let mut end: usize = path.unicode_len();
    assert(p.subrange(0, end as int) =~= p);
    loop
        invariant
            end <= p.len(),
            p == path@,
            file_name_of(p.subrange(0, end as int)) == file_name_of(p),
        decreases end,
    {
        let ghost q = p.subrange(0, end as int);
        // Move `start` back to just after the last `/` before `end`.
        let mut start: usize = end;
        while start > 0 && path.get_char(start - 1) != '/'
            invariant
                start <= end <= p.len(),
                p == path@,
                forall|j: int| start <= j < end ==> p[j] != '/',
            decreases start,
        {
            start = start - 1;
        }
        let found = start > 0;
        proof {
            lemma_last_slash_bounds(q);
            if found {
                lemma_last_slash_found(q, start - 1);
            } else {
                lemma_no_slash(q);
            }
        }
        let seg = path.substring_char(start, end);
        assert(seg@ =~= q.subrange(last_slash(q) + 1, q.len() as int));
        let seg_len = end - start;
        let is_empty = seg_len == 0;
        let is_dot = seg_len == 1 && path.get_char(start) == '.';
        let is_dot_dot = seg_len == 2 && path.get_char(start) == '.' && path.get_char(start + 1)
            == '.';
        proof {
            if seg_len == 1 {
                assert(seg@ == seq![seg@[0]]);
            }
            if seg_len == 2 {
                assert(seg@ == seq![seg@[0], seg@[1]]);
            }
            assert(seg@.len() == seg_len);
        }
        if is_empty || is_dot {
            proof {
                if is_empty {
                    assert(seg@ =~= Seq::<char>::empty());
                } else {
                    assert(seg@ =~= seq!['.']);
                }
                assert(file_name_of(q) == if !found {
                    None
                } else {
                    file_name_of(q.subrange(0, start - 1))
                });
            }
            if !found {
                return None;
            }
            assert(q.subrange(0, start - 1) =~= p.subrange(0, start - 1));
            end = start - 1;
        } else if is_dot_dot {
            assert(seg@ =~= seq!['.', '.']);
            return None;
        } else {
            assert(seg@ != Seq::<char>::empty() && seg@ != seq!['.'] && seg@ != seq!['.', '.']);
            return Some(String::from_str(seg));
        }
    }
}

/// `base` extended by `rel`, as `std::path::PathBuf::push` does it.
pub fn join_path(base: &str, rel: &str) -> (res: String)
    ensures
        res@ == join_path_of(base@, rel@),
{
    let rel_len = rel.unicode_len();
    let base_len = base.unicode_len();
    if rel_len > 0 && rel.get_char(0) == '/' {
        String::from_str(rel)
    } else if base_len == 0 || base.get_char(base_len - 1) == '/' {
        let mut s = String::from_str(base);
        s.append(rel);
        s
    } else {
        let mut s = String::from_str(base);
        s.append("/");
        proof {
            reveal_strlit("/");
        }
        s.append(rel);
        s
    }
}

proof fn lemma_last_slash_concat(d: Seq<char>, r: Seq<char>)
    ensures
        last_slash(r) >= 0 ==> last_slash(d + r) == d.len() + last_slash(r),
        last_slash(r) < 0 ==> last_slash(d + r) == last_slash(d),
    decreases r.len(),
{
    if r.len() == 0 {
        assert(d + r =~= d);
    } else {
        assert((d + r).drop_last() =~= d + r.drop_last());
        assert((d + r).last() == r.last());
        lemma_last_slash_concat(d, r.drop_last());
    }
}

proof fn lemma_file_name_after_dir(d: Seq<char>, r: Seq<char>)
    requires
        d.len() == 0 || d.last() == '/',
        r.len() == 0 || r[0] != '/',
        file_name_of(r) is Some,
    ensures
        file_name_of(d + r) == file_name_of(r),
    decreases r.len(),
{
    let q = d + r;
    let k = last_slash(r);
    lemma_last_slash_bounds(r);
    lemma_last_slash_bounds(q);
    lemma_last_slash_concat(d, r);
    if k >= 0 {
        assert(q.subrange(last_slash(q) + 1, q.len() as int) =~= r.subrange(k + 1, r.len() as int));
        let seg = r.subrange(k + 1, r.len() as int);
        if seg == Seq::<char>::empty() || seg == seq!['.'] {
            assert(k > 0);
            assert(q.subrange(0, last_slash(q)) =~= d + r.subrange(0, k));
            lemma_file_name_after_dir(d, r.subrange(0, k));
        }
    } else {
        // `r` has no `/`: it is the last segment of `d + r` as well.
        assert(r.subrange(k + 1, r.len() as int) =~= r);
        if d.len() == 0 {
            assert(q =~= r);
        } else {
            assert(last_slash(d) == d.len() - 1);
            assert(q.subrange(last_slash(q) + 1, q.len() as int) =~= r);
        }
    }
}

/// Joining a directory and a path that has a file name keeps that file name:
/// the configuration files found under an unpacked package have the names
/// they are listed by.
pub proof fn lemma_joined_file_name(base: Seq<char>, rel: Seq<char>)
    requires
        file_name_of(rel) is Some,
    ensures
        file_name_of(join_path_of(base, rel)) == file_name_of(rel),
{
    if rel.len() > 0 && rel[0] == '/' {
    } else if base.len() == 0 || base.last() == '/' {
        lemma_file_name_after_dir(base, rel);
    } else {
        let d = base + seq!['/'];
        assert(base + seq!['/'] + rel =~= d + rel);
        lemma_file_name_after_dir(d, rel);
    }
}

/// Joining keeps both parts: a relative `rel` follows `base`, with at most
/// one `/` added between them; an absolute `rel` replaces `base`.
pub proof fn lemma_join_keeps_parts(base: Seq<char>, rel: Seq<char>)
    ensures
        rel.len() > 0 && rel[0] == '/' ==> join_path_of(base, rel) == rel,
        !(rel.len() > 0 && rel[0] == '/') ==> {
            let j = join_path_of(base, rel);
            &&& j.take(base.len() as int) == base
            &&& j.skip(j.len() - rel.len()) == rel
            &&& j.len() == base.len() + rel.len() || (j.len() == base.len() + rel.len() + 1
                && j[base.len() as int] == '/')
        },
{
    let j = join_path_of(base, rel);
    if !(rel.len() > 0 && rel[0] == '/') {
        assert(j.take(base.len() as int) =~= base);
        assert(j.skip(j.len() - rel.len()) =~= rel);
    }
}

/// A file name is a single, ordinary path component that occurs in the path:
/// not empty, without `/`, neither `.` nor `..`.
pub proof fn lemma_file_name_is_component(p: Seq<char>)
    ensures
        file_name_of(p) matches Some(n) ==> {
            &&& n.len() > 0
            &&& n != seq!['.']
            &&& n != seq!['.', '.']
            &&& forall|i: int| 0 <= i < n.len() ==> n[i] != '/'
            &&& exists|k: int| 0 <= k && k + n.len() <= p.len() && #[trigger] p.subrange(k, k + n.len()) == n
        },
    decreases p.len(),
{
    let k = last_slash(p);
    lemma_last_slash_bounds(p);
    let seg = p.subrange(k + 1, p.len() as int);
    if seg == Seq::<char>::empty() || seg == seq!['.'] {
        if k >= 0 {
            let q = p.subrange(0, k);
            assert(file_name_of(p) == file_name_of(q));
            lemma_file_name_is_component(q);
            if let Some(n) = file_name_of(q) {
                let i = choose|i: int| 0 <= i && i + n.len() <= q.len() && #[trigger] q.subrange(i, i + n.len()) == n;
                assert(p.subrange(i, i + n.len()) =~= q.subrange(i, i + n.len()));
            }
        }
    } else if seg != seq!['.', '.'] {
        assert(file_name_of(p) == Some(seg));
        assert(seg.len() > 0) by {
            if seg.len() == 0 {
                assert(seg =~= Seq::<char>::empty());
            }
        }
        assert(p.subrange(k + 1, k + 1 + seg.len()) == seg);
        assert forall|i: int| 0 <= i < seg.len() implies seg[i] != '/' by {
            assert(seg[i] == p[k + 1 + i]);
        }
    }
}

} // verus!
