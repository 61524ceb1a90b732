//! The list of windows offered to the user, ordered by title the way
//! `String` orders: character by character, by code point (which is the
//! order of their UTF-8 bytes), a proper prefix first; equal titles keep
//! the order in which the windows were found.
use vstd::prelude::*;
use crate::text::chars_of;
use crate::windows::WindowInfo;

verus! {

/// Whether title `a` comes no later than title `b`.
pub open spec fn title_le(a: Seq<char>, b: Seq<char>) -> bool
    decreases a.len(),
{
    if a.len() == 0 {
        true
    } else if b.len() == 0 {
        false
    } else if (a[0] as u32) < (b[0] as u32) {
        true
    } else if (a[0] as u32) > (b[0] as u32) {
        false
    } else {
        title_le(a.drop_first(), b.drop_first())
    }
}

proof fn lemma_title_total(a: Seq<char>, b: Seq<char>)
    ensures
        title_le(a, b) || title_le(b, a),
    decreases a.len(),
{
    if a.len() > 0 && b.len() > 0 {
        lemma_title_total(a.drop_first(), b.drop_first());
    }
}

proof fn lemma_title_transitive(a: Seq<char>, b: Seq<char>, c: Seq<char>)
    ensures
        title_le(a, b) && title_le(b, c) ==> title_le(a, c),
    decreases a.len(),
{
    if a.len() > 0 && b.len() > 0 && c.len() > 0 {
        lemma_title_transitive(a.drop_first(), b.drop_first(), c.drop_first());
    }
}

/// The title order is total and transitive.
pub proof fn lemma_title_order(a: Seq<char>, b: Seq<char>, c: Seq<char>)
    ensures
        title_le(a, b) || title_le(b, a),
        title_le(a, b) && title_le(b, c) ==> title_le(a, c),
{
    lemma_title_total(a, b);
    lemma_title_transitive(a, b, c);
}

/// Whether `s` is ordered by title.
pub open spec fn sorted_by_title(s: Seq<WindowInfo>) -> bool {
    forall|i: int, j: int| 0 <= i < j < s.len() ==> title_le(#[trigger] s[i].title@, #[trigger] s[j].title@)
}

/// The predicate that a window carries title `t`.
pub open spec fn titled(t: Seq<char>) -> spec_fn(WindowInfo) -> bool {
    |w: WindowInfo| w.title@ == t
}

/// Whether title `a` comes no later than title `b`.
pub fn title_le_chars(a: &Vec<char>, b: &Vec<char>) -> (r: bool)
    ensures
        r == title_le(a@, b@),
{
    let mut i: usize = 0;
    assert(a@.skip(0) =~= a@ && b@.skip(0) =~= b@);
    while i < a.len() && i < b.len()
        invariant
            i <= a@.len(),
            i <= b@.len(),
            title_le(a@, b@) == title_le(a@.skip(i as int), b@.skip(i as int)),
        decreases a.len() - i,
    {
        let x = a[i] as u32;
        let y = b[i] as u32;
        if x < y {
            return true;
        }
        if x > y {
            return false;
        }
        proof {
            assert(a@.skip(i as int).drop_first() =~= a@.skip(i + 1));
            assert(b@.skip(i as int).drop_first() =~= b@.skip(i + 1));
        }
        i = i + 1;
    }
    i == a.len()
}

proof fn lemma_filter_none<A>(s: Seq<A>, p: spec_fn(A) -> bool)
    requires
        forall|i: int| 0 <= i < s.len() ==> !p(#[trigger] s[i]),
    ensures
        s.filter(p) == Seq::<A>::empty(),
    decreases s.len(),
{
    if s.len() == 0 {
        s.lemma_filter_len(p);
        assert(s.filter(p) =~= Seq::<A>::empty());
    } else {
        let d = s.drop_last();
        assert forall|i: int| 0 <= i < d.len() implies !p(#[trigger] d[i]) by {
            assert(d[i] == s[i]);
        }
        lemma_filter_none(d, p);
        assert(d.push(s.last()) =~= s);
        d.lemma_filter_push(s.last(), p);
    }
}

proof fn lemma_filter_insert<A>(s: Seq<A>, k: int, x: A, p: spec_fn(A) -> bool)
    requires
        0 <= k <= s.len(),
        p(x) ==> forall|i: int| k <= i < s.len() ==> !p(#[trigger] s[i]),
    ensures
        s.insert(k, x).filter(p) == (if p(x) {
            s.filter(p).push(x)
        } else {
            s.filter(p)
        }),
{
    broadcast use Seq::filter_distributes_over_add;

    let front = s.take(k);
    let back = s.skip(k);
    assert(s =~= front + back);
    assert(s.insert(k, x) =~= front.push(x) + back);
    front.lemma_filter_push(x, p);
    if p(x) {
        assert forall|i: int| 0 <= i < back.len() implies !p(#[trigger] back[i]) by {
            assert(back[i] == s[k + i]);
        }
        lemma_filter_none(back, p);
        assert(s.filter(p) == front.filter(p) + back.filter(p));
        assert(s.filter(p) =~= front.filter(p));
        assert(front.filter(p).push(x) + back.filter(p) =~= front.filter(p).push(x));
    }
}

/// `windows` ordered by title; windows with equal titles keep their order.
pub fn sort_windows_by_title(windows: Vec<WindowInfo>) -> (r: Vec<WindowInfo>)
    ensures
        r@.len() == windows@.len(),
        sorted_by_title(r@),
        forall|t: Seq<char>| #[trigger] r@.filter(titled(t)) == windows@.filter(titled(t)),
{
    let ghost all = windows@;
    let mut out: Vec<WindowInfo> = Vec::new();
    let mut keys: Vec<Vec<char>> = Vec::new();
    for w in it: windows.into_iter()
        invariant
            it.seq() == all,
            0 <= it.index() <= all.len(),
            out@.len() == it.index(),
            keys@.len() == out@.len(),
            forall|k: int| 0 <= k < keys@.len() ==> #[trigger] keys@[k]@ == out@[k].title@,
            sorted_by_title(out@),
            forall|t: Seq<char>|
                #[trigger] out@.filter(titled(t)) == all.take(it.index() as int).filter(titled(t)),
    {
        let ghost idx = it.index();
        let key = chars_of(w.title.as_str());
        let mut p: usize = 0;
        while p < keys.len() && title_le_chars(&keys[p], &key)
            invariant
                p <= keys@.len(),
                keys@.len() == out@.len(),
                forall|k: int| 0 <= k < keys@.len() ==> #[trigger] keys@[k]@ == out@[k].title@,
                forall|k: int| 0 <= k < p ==> title_le(#[trigger] out@[k].title@, key@),
            decreases keys.len() - p,
        {
            p = p + 1;
        }
        let ghost old_out = out@;
        let ghost old_keys = keys@;
        let ghost x = w;
        proof {
            assert forall|k: int| p <= k < old_out.len() implies title_le(
                key@,
                #[trigger] old_out[k].title@,
            ) && key@ != old_out[k].title@ by {
                assert(!title_le(old_out[p as int].title@, key@));
                lemma_title_order(old_out[p as int].title@, key@, key@);
                if k > p {
                    lemma_title_order(key@, old_out[p as int].title@, old_out[k].title@);
                }
                lemma_title_order(key@, old_out[k].title@, key@);
                if key@ == old_out[k].title@ {
                    if k > p {
                        lemma_title_order(old_out[p as int].title@, old_out[k].title@, key@);
                    }
                }
            }
            assert(all.take(idx + 1) =~= all.take(idx).push(x));
            assert forall|t: Seq<char>| #[trigger] old_out.insert(p as int, x).filter(titled(t))
                == all.take(idx + 1).filter(titled(t)) by {
                lemma_filter_insert(old_out, p as int, x, titled(t));
                all.take(idx).lemma_filter_push(x, titled(t));
            }
        }
        out.insert(p, w);
        keys.insert(p, key);
        proof {
            assert(out@ == old_out.insert(p as int, x));
            assert forall|i: int, j: int| 0 <= i < j < out@.len() implies title_le(
                #[trigger] out@[i].title@,
                #[trigger] out@[j].title@,
            ) by {
                if j < p {
                    assert(out@[i] == old_out[i] && out@[j] == old_out[j]);
                } else if j == p {
                    assert(out@[i] == old_out[i]);
                } else if i == p {
                    assert(out@[j] == old_out[j - 1]);
                } else if i < p {
                    assert(out@[i] == old_out[i] && out@[j] == old_out[j - 1]);
                } else {
                    assert(out@[i] == old_out[i - 1] && out@[j] == old_out[j - 1]);
                }
            }
            assert forall|k: int| 0 <= k < keys@.len() implies #[trigger] keys@[k]@ == out@[k].title@ by {
                if k > p {
                    assert(keys@[k] == old_keys[k - 1]);
                    assert(out@[k] == old_out[k - 1]);
                } else if k < p {
                    assert(keys@[k] == old_keys[k]);
                    assert(out@[k] == old_out[k]);
                }
            }
        }
    }
    proof {
        assert(all.take(all.len() as int) =~= all);
    }
    out
}

} // verus!
