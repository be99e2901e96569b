//! Unix path joining and file stems, as `std::path` computes them.

use vstd::prelude::*;

use crate::text::{chars_of, string_of};

verus! {

/// `base` joined with `name` (`Path::join` on Unix): an absolute `name`
/// replaces `base`; otherwise a `/` goes between them unless `base` is empty or
/// already ends with one.
pub open spec fn spec_join(base: Seq<char>, name: Seq<char>) -> Seq<char> {
    if name.len() > 0 && name[0] == '/' {
        name
    } else if base.len() > 0 && base.last() != '/' {
        base + seq!['/'] + name
    } else {
        base + name
    }
}

/// The characters after the last `/` of `p` (all of `p` when it has none).
pub open spec fn last_segment(p: Seq<char>) -> Seq<char>
    decreases p.len(),
{
    if p.len() == 0 || p.last() == '/' {
        Seq::empty()
    } else {
        last_segment(p.drop_last()).push(p.last())
    }
}

/// The final segment is a suffix of the path, preceded by `/` unless it is all of it.
pub proof fn lemma_last_segment_bound(p: Seq<char>)
    ensures
        last_segment(p).len() <= p.len(),
        last_segment(p) == p.skip(p.len() - last_segment(p).len()),
        last_segment(p).len() < p.len() ==> p[p.len() - last_segment(p).len() - 1] == '/',
        forall|i: int| 0 <= i < last_segment(p).len() ==> #[trigger] last_segment(p)[i] != '/',
    decreases p.len(),
{
    if p.len() > 0 && p.last() != '/' {
        lemma_last_segment_bound(p.drop_last());
        let s = last_segment(p.drop_last());
        assert(p.skip(p.len() - s.len() - 1) =~= p.drop_last().skip(p.len() - 1 - s.len()).push(
            p.last(),
        ));
        assert forall|i: int| 0 <= i < last_segment(p).len() implies #[trigger] last_segment(p)[i]
            != '/' by {
            if i < s.len() {
                assert(last_segment(p)[i] == s[i]);
            }
        }
    } else {
        assert(p.skip(p.len() as int) =~= Seq::<char>::empty());
    }
}

/// A `/`-free tail after a `/` (or after nothing) is the final segment.
pub proof fn lemma_last_segment_is(p: Seq<char>, k: int)
    requires
        0 <= k <= p.len(),
        k == 0 || p[k - 1] == '/',
        forall|i: int| k <= i < p.len() ==> #[trigger] p[i] != '/',
    ensures
        last_segment(p) == p.skip(k),
    decreases p.len(),
{
    if p.len() == k {
        assert(p.skip(k) =~= Seq::<char>::empty());
    } else {
        lemma_last_segment_is(p.drop_last(), k);
        assert(p.skip(k) =~= p.drop_last().skip(k).push(p.last()));
    }
}

/// The last normal component of `p` (`Path::file_name` on Unix): empty and `.`
/// components are passed over from the end, and a path that ends in `..`, or
/// that has no other component, has none.
pub open spec fn spec_file_name(p: Seq<char>) -> Option<Seq<char>>
    decreases p.len(),
{
    let seg = last_segment(p);
    if seg.len() == 0 || seg == seq!['.'] {
        if seg.len() >= p.len() {
            None
        } else {
            proof {
                lemma_last_segment_bound(p);
            }
            spec_file_name(p.take(p.len() - seg.len() - 1))
        }
    } else if seg == seq!['.', '.'] {
        None
    } else {
        Some(seg)
    }
}

/// Index of the last `.` in `s`, or -1.
pub open spec fn last_dot(s: Seq<char>) -> int
    decreases s.len(),
{
    if s.len() == 0 {
        -1
    } else if s.last() == '.' {
        s.len() - 1
    } else {
        last_dot(s.drop_last())
    }
}

/// The stem of a file name: the part before its last `.`, unless that dot is
/// its first character or it has none, in which case the whole name.
pub open spec fn spec_stem(name: Seq<char>) -> Seq<char> {
    if last_dot(name) <= 0 {
        name
    } else {
        name.take(last_dot(name))
    }
}

/// `Path::file_stem` on Unix.
pub open spec fn spec_file_stem(p: Seq<char>) -> Option<Seq<char>> {
    match spec_file_name(p) {
        Some(name) => Some(spec_stem(name)),
        None => None,
    }
}

/// A dot followed by a dot-free tail is the last dot.
pub proof fn lemma_last_dot_is(a: Seq<char>, b: Seq<char>)
    requires
        forall|i: int| 0 <= i < b.len() ==> #[trigger] b[i] != '.',
    ensures
        last_dot(a + seq!['.'] + b) == a.len(),
    decreases b.len(),
{
    let s = a + seq!['.'] + b;
    if b.len() > 0 {
        assert(s.drop_last() =~= a + seq!['.'] + b.drop_last());
        lemma_last_dot_is(a, b.drop_last());
    } else {
        assert(s.last() == '.');
    }
}

/// `name` joined onto `base` (`Path::join` on Unix).
pub fn join_path(base: &str, name: &str) -> (r: String)
    ensures
        r@ == spec_join(base@, name@),
{
    let b = chars_of(base);
    let n = chars_of(name);
    let mut out: Vec<char> = Vec::new();
    if n.len() > 0 && n[0] == '/' {
        return string_of(n.as_slice());
    }
    let mut i: usize = 0;
    while i < b.len()
        invariant
            i <= b@.len(),
            out@ == b@.take(i as int),
        decreases b@.len() - i,
    {
        out.push(b[i]);
        i = i + 1;
        assert(out@ =~= b@.take(i as int));
    }
    assert(out@ =~= b@);
    if b.len() > 0 && b[b.len() - 1] != '/' {
        out.push('/');
    }
    let ghost before = out@;
    let mut j: usize = 0;
    while j < n.len()
        invariant
            j <= n@.len(),
            out@ == before + n@.take(j as int),
        decreases n@.len() - j,
    {
        out.push(n[j]);
        j = j + 1;
        assert(out@ =~= before + n@.take(j as int));
    }
    assert(n@.take(j as int) =~= n@);
    string_of(out.as_slice())
}

/// The bounds of the last normal component of `p`, if it has one.
fn file_name_bounds(p: &Vec<char>) -> (r: Option<(usize, usize)>)
    ensures
        match r {
            Some((start, end)) => start <= end <= p@.len() && spec_file_name(p@) == Some(
                p@.subrange(start as int, end as int),
            ),
            None => spec_file_name(p@) is None,
        },
{
    let mut end: usize = p.len();
    assert(p@.take(end as int) =~= p@);
    loop
        invariant
            end <= p@.len(),
            spec_file_name(p@.take(end as int)) == spec_file_name(p@),
        decreases end,
    {
        let ghost q = p@.take(end as int);
        let mut start: usize = end;
        while start > 0 && p[start - 1] != '/'
            invariant
                start <= end <= p@.len(),
                forall|i: int| start <= i < end ==> #[trigger] p@[i] != '/',
            decreases start,
        {
            start = start - 1;
        }
        proof {
            lemma_last_segment_is(q, start as int);
            assert(q.skip(start as int) =~= p@.subrange(start as int, end as int));
        }
        let len = end - start;
        if len == 0 || (len == 1 && p[start] == '.') {
            proof {
                if len == 1 {
                    assert(last_segment(q) =~= seq!['.']);
                }
            }
            if start == 0 {
                return None;
            }
            proof {
                assert(q.take(q.len() - last_segment(q).len() - 1) =~= p@.take(start - 1));
            }
            end = start - 1;
        } else if len == 2 && p[start] == '.' && p[start + 1] == '.' {
            proof {
                assert(last_segment(q) =~= seq!['.', '.']);
            }
            return None;
        } else {
            proof {
                let seg = last_segment(q);
                if seg == seq!['.'] {
                    assert(seg[0] == p@[start as int]);
                }
                if seg == seq!['.', '.'] {
                    assert(seg[0] == p@[start as int]);
                    assert(seg[1] == p@[start + 1]);
                }
            }
            return Some((start, end));
        }
    }
}

/// The stem of the last component of `path` (`Path::file_stem` on Unix).
pub fn file_stem(path: &str) -> (r: Option<String>)
    ensures
        match r {
            Some(s) => spec_file_stem(path@) == Some(s@),
            None => spec_file_stem(path@) is None,
        },
{
    let p = chars_of(path);
    match file_name_bounds(&p) {
        None => None,
        Some((start, end)) => {
            let ghost name = p@.subrange(start as int, end as int);
            let mut k: usize = end;
            while k > start && p[k - 1] != '.'
                invariant
                    start <= k <= end <= p@.len(),
                    name == p@.subrange(start as int, end as int),
                    last_dot(name) == last_dot(p@.subrange(start as int, k as int)),
                decreases k,
            {
                proof {
                    let t = p@.subrange(start as int, k as int);
                    assert(t.drop_last() =~= p@.subrange(start as int, k - 1));
                }
                k = k - 1;
            }
            proof {
                let t = p@.subrange(start as int, k as int);
                if k > start {
                    assert(t.last() == '.');
                } else {
                    assert(t.len() == 0);
                }
            }
            let stem_end: usize = if k - start <= 1 { end } else { k - 1 };
            let mut out: Vec<char> = Vec::new();
            let mut i: usize = start;
            while i < stem_end
                invariant
                    start <= i <= stem_end <= end <= p@.len(),
                    out@ == p@.subrange(start as int, i as int),
                decreases stem_end - i,
            {
                out.push(p[i]);
                i = i + 1;
                assert(out@ =~= p@.subrange(start as int, i as int));
            }
            assert(out@ =~= spec_stem(name));
            Some(string_of(out.as_slice()))
        }
    }
}

/// The final component of `base` joined with a plain file name is that name.
pub proof fn lemma_joined_file_name(base: Seq<char>, name: Seq<char>)
    requires
        name.len() > 0,
        forall|i: int| 0 <= i < name.len() ==> #[trigger] name[i] != '/',
        name != seq!['.'],
        name != seq!['.', '.'],
    ensures
        spec_file_name(spec_join(base, name)) == Some(name),
{
    let p = spec_join(base, name);
    let prefix = if base.len() > 0 && base.last() != '/' {
        base + seq!['/']
    } else {
        base
    };
    assert(p =~= prefix + name);
    lemma_last_segment_is(p, prefix.len() as int);
    assert(p.skip(prefix.len() as int) =~= name);
}

} // verus!
