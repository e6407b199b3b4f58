//! Slash-separated paths: splitting into components, normalising `.` and `..`,
//! and joining back into an absolute path.
use vstd::prelude::*;
use crate::text::same_text;

verus! {

/// The components found so far and the component being read, after reading `s`.
pub open spec fn split_state(s: Seq<char>) -> (Seq<Seq<char>>, Seq<char>)
    decreases s.len(),
{
    if s.len() == 0 {
        (Seq::empty(), Seq::empty())
    } else {
        let (done, cur) = split_state(s.drop_last());
        if s.last() == '/' {
            (done.push(cur), Seq::empty())
        } else {
            (done, cur.push(s.last()))
        }
    }
}

/// The components of `s` between its slashes, empty ones included.
pub open spec fn split_path(s: Seq<char>) -> Seq<Seq<char>> {
    split_state(s).0.push(split_state(s).1)
}

/// The views of a sequence of strings.
pub open spec fn views(v: Seq<String>) -> Seq<Seq<char>> {
    v.map_values(|x: String| x@)
}

/// `segs` with empty and `.` components dropped and each `..` taking away the
/// component before it (none above the top).
pub open spec fn normalize(segs: Seq<Seq<char>>) -> Seq<Seq<char>>
    decreases segs.len(),
{
    if segs.len() == 0 {
        Seq::empty()
    } else {
        let prev = normalize(segs.drop_last());
        let last = segs.last();
        if last == Seq::<char>::empty() || last == seq!['.'] {
            prev
        } else if last == seq!['.', '.'] {
            if prev.len() > 0 {
                prev.drop_last()
            } else {
                prev
            }
        } else {
            prev.push(last)
        }
    }
}

/// Each component of `segs` preceded by a slash.
pub open spec fn join_abs(segs: Seq<Seq<char>>) -> Seq<char>
    decreases segs.len(),
{
    if segs.len() == 0 {
        Seq::empty()
    } else {
        join_abs(segs.drop_last()) + seq!['/'] + segs.last()
    }
}

/// The absolute path made of the components `segs`; `/` for none.
pub open spec fn path_of(segs: Seq<Seq<char>>) -> Seq<char> {
    if segs.len() == 0 {
        seq!['/']
    } else {
        join_abs(segs)
    }
}

/// Splits `s` at each slash.
pub fn split_segments(s: &str) -> (r: Vec<String>)
    ensures
        views(r@) == split_path(s@),
{
    let n = s.unicode_len();
    let mut done: Vec<String> = Vec::new();
    let mut start: usize = 0;
    let mut i: usize = 0;
    while i < n
        invariant
            n == s@.len(),
            start <= i <= n,
            (views(done@), s@.subrange(start as int, i as int)) == split_state(
                s@.subrange(0, i as int),
            ),
        decreases n - i,
    {
        assert(s@.subrange(0, i + 1).drop_last() =~= s@.subrange(0, i as int));
        if s.get_char(i) == '/' {
            let seg = s.substring_char(start, i).to_owned();
            let ghost before = done@;
            done.push(seg);
            assert(views(done@) =~= views(before).push(seg@));
            start = i + 1;
            assert(s@.subrange(start as int, i + 1) =~= Seq::<char>::empty());
        } else {
            assert(s@.subrange(start as int, i + 1) =~= s@.subrange(start as int, i as int).push(
                s@[i as int],
            ));
        }
        i += 1;
    }
    assert(s@.subrange(0, n as int) =~= s@);
    let last = s.substring_char(start, n).to_owned();
    let ghost before = done@;
    done.push(last);
    assert(views(done@) =~= views(before).push(last@));
    done
}

/// Drops empty and `.` components and lets each `..` take away the one before.
pub fn normalize_segments(segs: &Vec<String>) -> (r: Vec<String>)
    ensures
        views(r@) == normalize(views(segs@)),
{
    proof {
        reveal_strlit(".");
        reveal_strlit("..");
    }
    let mut out: Vec<String> = Vec::new();
    let mut i: usize = 0;
    while i < segs.len()
        invariant
            i <= segs@.len(),
            views(out@) == normalize(views(segs@.subrange(0, i as int))),
            "."@ == seq!['.'],
            ".."@ == seq!['.', '.'],
        decreases segs@.len() - i,
    {
        let ghost prefix = views(segs@.subrange(0, i + 1));
        assert(prefix.drop_last() =~= views(segs@.subrange(0, i as int)));
        assert(prefix.last() == segs@[i as int]@);
        let seg = &segs[i];
        let ghost before = out@;
        if seg.unicode_len() == 0 || same_text(seg.as_str(), ".") {
            assert(seg@.len() == 0 ==> seg@ =~= Seq::<char>::empty());
        } else if same_text(seg.as_str(), "..") {
            if out.len() > 0 {
                out.pop();
                assert(views(out@) =~= views(before).drop_last());
            }
        } else {
            out.push(seg.clone());
            assert(views(out@) =~= views(before).push(seg@));
        }
        i += 1;
    }
    assert(segs@.subrange(0, segs@.len() as int) =~= segs@);
    out
}

/// Joins components into an absolute path.
pub fn join_segments(segs: &Vec<String>) -> (r: String)
    ensures
        r@ == path_of(views(segs@)),
{
    proof {
        reveal_strlit("/");
    }
    if segs.len() == 0 {
        return String::from_str("/");
    }
    let mut out = String::new();
    let mut i: usize = 0;
    while i < segs.len()
        invariant
            i <= segs@.len(),
            out@ == join_abs(views(segs@.subrange(0, i as int))),
            "/"@ == seq!['/'],
        decreases segs@.len() - i,
    {
        let ghost prefix = views(segs@.subrange(0, i + 1));
        assert(prefix.drop_last() =~= views(segs@.subrange(0, i as int)));
        assert(prefix.last() == segs@[i as int]@);
        out.append("/");
        out.append(segs[i].as_str());
        i += 1;
    }
    assert(segs@.subrange(0, segs@.len() as int) =~= segs@);
    out
}

} // verus!
