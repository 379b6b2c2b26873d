use vstd::prelude::*;

use crate::strutil::{find_char_from, lemma_first_index_of_unique, split_on};
use vstd::string::StringExecFns;

verus! {

/// A path is absolute when it starts with the separator.
pub open spec fn is_abs_path(s: Seq<char>) -> bool {
    s.len() > 0 && s[0] == '/'
}

pub open spec fn is_cur_dir_seg(seg: Seq<char>) -> bool {
    seg.len() == 1 && seg[0] == '.'
}

pub open spec fn is_parent_dir_seg(seg: Seq<char>) -> bool {
    seg.len() == 2 && seg[0] == '.' && seg[1] == '.'
}

/// One step of normalization: empty pieces (from doubled or trailing
/// separators) and `.` are dropped, `..` removes the last component kept so
/// far if any, and every other piece is kept.
pub open spec fn norm_step(acc: Seq<Seq<char>>, seg: Seq<char>) -> Seq<Seq<char>> {
    if seg.len() == 0 || is_cur_dir_seg(seg) {
        acc
    } else if is_parent_dir_seg(seg) {
        if acc.len() > 0 {
            acc.drop_last()
        } else {
            acc
        }
    } else {
        acc.push(seg)
    }
}

pub open spec fn norm_fold(acc: Seq<Seq<char>>, segs: Seq<Seq<char>>) -> Seq<Seq<char>>
    decreases segs.len(),
{
    if segs.len() == 0 {
        acc
    } else {
        norm_fold(norm_step(acc, segs[0]), segs.skip(1))
    }
}

/// The components that survive normalization of `s`.
pub open spec fn normal_components(s: Seq<char>) -> Seq<Seq<char>> {
    norm_fold(Seq::empty(), split_on(s, '/'))
}

/// Components joined with single separators, without a leading one.
pub open spec fn join_slash(comps: Seq<Seq<char>>) -> Seq<char>
    decreases comps.len(),
{
    if comps.len() == 0 {
        Seq::empty()
    } else if comps.len() == 1 {
        comps[0]
    } else {
        join_slash(comps.drop_last()) + seq!['/'] + comps.last()
    }
}

/// The normalized form of a path: its surviving components joined, with the
/// leading separator kept for an absolute path.
pub open spec fn normalize_spec(s: Seq<char>) -> Seq<char> {
    if is_abs_path(s) {
        seq!['/'] + join_slash(normal_components(s))
    } else {
        join_slash(normal_components(s))
    }
}

/// Views of a vector of borrowed components.
pub open spec fn views_of(v: Seq<&str>) -> Seq<Seq<char>> {
    v.map_values(|x: &str| x@)
}

proof fn lemma_norm_fold_cons(acc: Seq<Seq<char>>, x: Seq<char>, rest: Seq<Seq<char>>)
    ensures
        norm_fold(acc, seq![x] + rest) == norm_fold(norm_step(acc, x), rest),
{
    let segs = seq![x] + rest;
    assert(segs[0] == x);
    assert(segs.skip(1) =~= rest);
}

proof fn lemma_norm_fold_single(acc: Seq<Seq<char>>, x: Seq<char>)
    ensures
        norm_fold(acc, seq![x]) == norm_step(acc, x),
{
    let segs = seq![x];
    assert(segs.len() == 1);
    assert(segs[0] == x);
    assert(segs.skip(1) =~= Seq::<Seq<char>>::empty());
    assert(norm_fold(acc, segs) == norm_fold(norm_step(acc, x), segs.skip(1)));
    assert(norm_fold(norm_step(acc, x), Seq::<Seq<char>>::empty()) == norm_step(acc, x));
}

fn seg_is_empty(seg: &str) -> (r: bool)
    ensures
        r == (seg@.len() == 0),
{
    seg.unicode_len() == 0
}

fn seg_is_cur_dir(seg: &str) -> (r: bool)
    ensures
        r == is_cur_dir_seg(seg@),
{
    seg.unicode_len() == 1 && seg.get_char(0) == '.'
}

fn seg_is_parent_dir(seg: &str) -> (r: bool)
    ensures
        r == is_parent_dir_seg(seg@),
{
    seg.unicode_len() == 2 && seg.get_char(0) == '.' && seg.get_char(1) == '.'
}

/// Normalize a path, removing `.` and `..` segments and doubled separators
/// textually. This never consults the file system, so it does not resolve
/// symbolic links; a `..` is cancelled against the preceding name even when
/// that name is a link.
pub fn normalize_path(path: &str) -> (r: String)
    ensures
        r@ == normalize_spec(path@),
{
    let n = path.unicode_len();
    let abs = n > 0 && path.get_char(0) == '/';
    let mut comps: Vec<&str> = Vec::new();
    let mut start: usize = 0;
    proof {
        assert(path@.skip(0) =~= path@);
        assert(views_of(comps@) =~= Seq::<Seq<char>>::empty());
    }
    loop
        invariant_except_break
            0 <= start <= n,
            normal_components(path@) == norm_fold(
                views_of(comps@),
                split_on(path@.skip(start as int), '/'),
            ),
        invariant
            n == path@.len(),
        ensures
            views_of(comps@) == normal_components(path@),
        decreases n - start,
    {
        let end = find_char_from(path, start, '/');
        let seg = path.substring_char(start, end);
        let ghost rest = path@.skip(start as int);
        proof {
            // the remaining text splits into this segment and the text past `end`
            assert forall|j: int| 0 <= j < end - start implies rest[j] != '/' by {
                assert(rest[j] == path@[start + j]);
            }
            if end < n {
                assert(rest[end - start] == path@[end as int]);
            }
            lemma_first_index_of_unique(rest, '/', end - start);
            assert(seg@ =~= rest.take(end - start));
            if end < n {
                assert(split_on(rest, '/') == seq![rest.take(end - start)] + split_on(
                    rest.skip(end - start + 1),
                    '/',
                ));
                assert(split_on(rest, '/')[0] == seg@);
                assert(split_on(rest, '/').skip(1) =~= split_on(rest.skip(end - start + 1), '/'));
                assert(rest.skip(end - start + 1) =~= path@.skip(end + 1));
            } else {
                assert(seg@ =~= rest);
                assert(split_on(rest, '/') == seq![rest]);
            }
        }
        let ghost old_views = views_of(comps@);
        if seg_is_empty(seg) || seg_is_cur_dir(seg) {
            proof {
                assert(norm_step(old_views, seg@) == old_views);
            }
        } else if seg_is_parent_dir(seg) {
            if comps.len() > 0 {
                comps.pop();
                proof {
                    assert(views_of(comps@) =~= old_views.drop_last());
                }
            }
            proof {
                assert(views_of(comps@) =~= norm_step(old_views, seg@));
            }
        } else {
            comps.push(seg);
            proof {
                assert(views_of(comps@) =~= old_views.push(seg@));
            }
        }
        if end == n {
            proof {
                lemma_norm_fold_single(old_views, seg@);
                assert(views_of(comps@) == normal_components(path@));
            }
            break;
        }
        proof {
            lemma_norm_fold_cons(old_views, seg@, split_on(path@.skip(end + 1), '/'));
            assert(seq![seg@] + split_on(path@.skip(end + 1), '/') == split_on(rest, '/'));
        }
        start = end + 1;
    }
    // join the surviving components
    let mut out = String::new();
    if abs {
        out.append("/");
        proof {
            reveal_strlit("/");
            assert(out@ =~= seq!['/']);
        }
    }
    let ghost prefix = out@;
    let k = comps.len();
    let mut i: usize = 0;
    while i < k
        invariant
            0 <= i <= k,
            k == comps@.len(),
            out@ == prefix + join_slash(views_of(comps@).take(i as int)),
        decreases k - i,
    {
        if i > 0 {
            out.append("/");
            proof {
                reveal_strlit("/");
            }
        }
        out.append(comps[i]);
        proof {
            let vs = views_of(comps@);
            assert(vs.take(i + 1).drop_last() =~= vs.take(i as int));
            assert(vs.take(i + 1).last() == comps@[i as int]@);
            if i == 0 {
                assert(join_slash(vs.take(1)) == vs[0]);
                assert(out@ =~= prefix + join_slash(vs.take(1)));
            } else {
                assert(out@ =~= prefix + join_slash(vs.take(i + 1)));
            }
        }
        i = i + 1;
    }
    proof {
        assert(views_of(comps@).take(k as int) =~= views_of(comps@));
        assert(out@ =~= normalize_spec(path@));
    }
    out
}

} // verus!
