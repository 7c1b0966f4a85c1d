//! Wildcard matching: `*` stands for any sequence of characters.

use vstd::prelude::*;

verus! {

/// Whether the whole of `val` is described by the pattern `pat`, where `*`
/// stands for any sequence of characters (the empty one included) and every
/// other character stands for itself.
pub open spec fn glob_accepts(pat: Seq<char>, val: Seq<char>) -> bool
    decreases pat.len() + val.len(),
{
    if pat.len() == 0 {
        val.len() == 0
    } else if pat[0] == '*' {
        ||| glob_accepts(pat.skip(1), val)
        ||| val.len() > 0 && glob_accepts(pat, val.skip(1))
    } else {
        &&& val.len() > 0
        &&& val[0] == pat[0]
        &&& glob_accepts(pat.skip(1), val.skip(1))
    }
}

/// Whether `seg` stands in `val` at position `at`.
pub open spec fn stands_at(seg: Seq<char>, val: Seq<char>, at: int) -> bool {
    &&& 0 <= at
    &&& at + seg.len() <= val.len()
    &&& val.subrange(at, at + seg.len()) == seg
}

/// A leading `*` takes any number of characters and leaves the rest of the text
/// to the rest of the pattern.
pub proof fn lemma_star_takes_any(pat: Seq<char>, val: Seq<char>)
    requires
        pat.len() > 0,
        pat[0] == '*',
    ensures
        glob_accepts(pat, val) <==> exists|k: int|
            0 <= k <= val.len() && #[trigger] glob_accepts(pat.skip(1), val.skip(k)),
    decreases val.len(),
{
    assert(val.skip(0) =~= val);
    if val.len() > 0 {
        let rest = val.skip(1);
        lemma_star_takes_any(pat, rest);
        if glob_accepts(pat, rest) {
            let k = choose|k: int|
                0 <= k <= rest.len() && #[trigger] glob_accepts(pat.skip(1), rest.skip(k));
            assert(rest.skip(k) =~= val.skip(k + 1));
            assert(glob_accepts(pat.skip(1), val.skip(k + 1)));
        }
        if exists|k: int| 0 <= k <= val.len() && #[trigger] glob_accepts(pat.skip(1), val.skip(k)) {
            let k = choose|k: int|
                0 <= k <= val.len() && #[trigger] glob_accepts(pat.skip(1), val.skip(k));
            if k > 0 {
                assert(rest.skip(k - 1) =~= val.skip(k));
                assert(glob_accepts(pat.skip(1), rest.skip(k - 1)));
            }
        }
    } else if exists|k: int|
        0 <= k <= val.len() && #[trigger] glob_accepts(pat.skip(1), val.skip(k)) {
        let k = choose|k: int|
            0 <= k <= val.len() && #[trigger] glob_accepts(pat.skip(1), val.skip(k));
        assert(k == 0);
    }
    if glob_accepts(pat.skip(1), val) {
        assert(glob_accepts(pat.skip(1), val.skip(0)));
    }
}

/// A leading `*` that accepts a suffix of a text accepts the text itself.
proof fn lemma_star_absorbs(pat: Seq<char>, val: Seq<char>, from: int)
    requires
        pat.len() > 0,
        pat[0] == '*',
        0 <= from <= val.len(),
        glob_accepts(pat, val.skip(from)),
    ensures
        glob_accepts(pat, val),
    decreases from,
{
    if from == 0 {
        assert(val.skip(0) =~= val);
    } else {
        assert(val.skip(1).skip(from - 1) =~= val.skip(from));
        lemma_star_absorbs(pat, val.skip(1), from - 1);
    }
}

/// A pattern that starts with `n` literal characters accepts a text exactly when
/// the text starts with those characters and the rest is accepted by the rest.
proof fn lemma_literal_prefix(pat: Seq<char>, n: int, val: Seq<char>)
    requires
        0 <= n <= pat.len(),
        forall|i: int| 0 <= i < n ==> pat[i] != '*',
    ensures
        glob_accepts(pat, val) <==> stands_at(pat.take(n), val, 0) && glob_accepts(
            pat.skip(n),
            val.skip(n),
        ),
    decreases n,
{
    if n == 0 {
        assert(pat.skip(0) =~= pat);
        assert(val.skip(0) =~= val);
        assert(val.subrange(0, 0) =~= pat.take(0));
    } else {
        let pat1 = pat.skip(1);
        if val.len() > 0 && val[0] == pat[0] {
            let val1 = val.skip(1);
            assert forall|i: int| 0 <= i < n - 1 implies pat1[i] != '*' by {
                assert(pat1[i] == pat[i + 1]);
            }
            lemma_literal_prefix(pat1, n - 1, val1);
            assert(pat1.skip(n - 1) =~= pat.skip(n));
            if n <= val.len() {
                assert(val1.skip(n - 1) =~= val.skip(n));
            }
            if stands_at(pat.take(n), val, 0) {
                assert(val1.subrange(0, n - 1) =~= pat1.take(n - 1)) by {
                    assert forall|i: int| 0 <= i < n - 1 implies val1[i] == pat1[i] by {
                        assert(val.subrange(0, n)[i + 1] == pat.take(n)[i + 1]);
                    }
                }
            }
            if stands_at(pat1.take(n - 1), val1, 0) {
                assert(val.subrange(0, n) =~= pat.take(n)) by {
                    assert forall|i: int| 0 <= i < n implies val[i] == pat[i] by {
                        if i > 0 {
                            assert(val1.subrange(0, n - 1)[i - 1] == pat1.take(n - 1)[i - 1]);
                        }
                    }
                }
            }
        } else if stands_at(pat.take(n), val, 0) {
            assert(val.subrange(0, n)[0] == pat.take(n)[0]);
        }
    }
}

/// A `*` followed by `n` literal characters, then by another pattern, accepts a
/// text exactly when the literal stands somewhere and what follows is accepted.
proof fn lemma_star_segment(pat: Seq<char>, n: int, val: Seq<char>)
    requires
        0 <= n,
        n + 1 <= pat.len(),
        pat[0] == '*',
        forall|i: int| 1 <= i <= n ==> pat[i] != '*',
    ensures
        glob_accepts(pat, val) <==> exists|k: int| #[trigger]
            stands_at(pat.subrange(1, n + 1), val, k) && glob_accepts(
                pat.skip(n + 1),
                val.skip(k + n),
            ),
{
    let tail = pat.skip(1);
    let seg = pat.subrange(1, n + 1);
    assert(tail.take(n) =~= seg);
    assert(tail.skip(n) =~= pat.skip(n + 1));
    assert forall|i: int| 0 <= i < n implies tail[i] != '*' by {
        assert(tail[i] == pat[i + 1]);
    }
    assert forall|k: int| 0 <= k <= val.len() implies (glob_accepts(tail, val.skip(k)) <==> (
    stands_at(seg, val, k) && glob_accepts(pat.skip(n + 1), val.skip(k + n)))) by {
        lemma_literal_prefix(tail, n, val.skip(k));
        if k + n <= val.len() {
            assert(val.skip(k).subrange(0, n) =~= val.subrange(k, k + n));
            assert(val.skip(k).skip(n) =~= val.skip(k + n));
        }
    }
    lemma_star_takes_any(pat, val);
    if glob_accepts(pat, val) {
        let k = choose|k: int| 0 <= k <= val.len() && #[trigger] glob_accepts(tail, val.skip(k));
        assert(stands_at(seg, val, k) && glob_accepts(pat.skip(n + 1), val.skip(k + n)));
    }
    if exists|k: int| #[trigger]
        stands_at(seg, val, k) && glob_accepts(pat.skip(n + 1), val.skip(k + n)) {
        let k = choose|k: int| #[trigger]
            stands_at(seg, val, k) && glob_accepts(pat.skip(n + 1), val.skip(k + n));
        assert(glob_accepts(tail, val.skip(k)));
    }
}

/// Between two `*`, the leftmost occurrence of a literal is as good as any.
proof fn lemma_leftmost_is_enough(pat: Seq<char>, n: int, val: Seq<char>, at: int)
    requires
        0 <= n,
        n + 1 < pat.len(),
        pat[0] == '*',
        pat[n + 1] == '*',
        forall|i: int| 1 <= i <= n ==> pat[i] != '*',
        stands_at(pat.subrange(1, n + 1), val, at),
        forall|k: int| 0 <= k < at ==> !(#[trigger] stands_at(pat.subrange(1, n + 1), val, k)),
    ensures
        glob_accepts(pat, val) <==> glob_accepts(pat.skip(n + 1), val.skip(at + n)),
{
    let seg = pat.subrange(1, n + 1);
    lemma_star_segment(pat, n, val);
    if glob_accepts(pat, val) {
        let k = choose|k: int| #[trigger]
            stands_at(seg, val, k) && glob_accepts(pat.skip(n + 1), val.skip(k + n));
        assert(at <= k);
        let rest = val.skip(at + n);
        assert(rest.skip(k - at) =~= val.skip(k + n));
        assert(pat.skip(n + 1)[0] == '*');
        lemma_star_absorbs(pat.skip(n + 1), rest, k - at);
    }
}

/// A `*` followed by nothing but `n` literal characters accepts exactly the
/// texts that end with them.
proof fn lemma_last_segment(pat: Seq<char>, n: int, val: Seq<char>)
    requires
        0 <= n,
        n + 1 == pat.len(),
        pat[0] == '*',
        forall|i: int| 1 <= i <= n ==> pat[i] != '*',
    ensures
        glob_accepts(pat, val) <==> stands_at(pat.subrange(1, n + 1), val, val.len() - n),
{
    let seg = pat.subrange(1, n + 1);
    lemma_star_segment(pat, n, val);
    assert(pat.skip(n + 1).len() == 0);
    if glob_accepts(pat, val) {
        let k = choose|k: int| #[trigger]
            stands_at(seg, val, k) && glob_accepts(pat.skip(n + 1), val.skip(k + n));
        assert(k == val.len() - n);
    }
    if stands_at(seg, val, val.len() - n) {
        assert(glob_accepts(pat.skip(n + 1), val.skip(val.len() - n + n)));
    }
}

/// The characters of a string slice.
pub fn chars_of(text: &str) -> (chars: Vec<char>)
    ensures
        chars@ == text@,
{
    let mut chars: Vec<char> = Vec::new();
    for c in it: text.chars()
        invariant
            it.seq() == text@,
            chars@ == text@.take(it.index()),
    {
        chars.push(c);
    }
    assert(text@.take(text@.len() as int) =~= text@);
    chars
}

/// Whether the characters `lo..hi` of `pat` stand in `val` at position `at`.
fn segment_at(pat: &Vec<char>, lo: usize, hi: usize, val: &Vec<char>, at: usize) -> (found: bool)
    requires
        lo <= hi <= pat.len(),
        at <= val.len(),
    ensures
        found == stands_at(pat@.subrange(lo as int, hi as int), val@, at as int),
{
    let len: usize = hi - lo;
    if len > val.len() - at {
        return false;
    }
    let mut i: usize = 0;
    while i < len
        invariant
            len == hi - lo,
            hi <= pat.len(),
            at + len <= val.len(),
            i <= len,
            val@.subrange(at as int, at + i) == pat@.subrange(lo as int, lo + i),
        decreases len - i,
    {
        if val[at + i] != pat[lo + i] {
            assert(val@.subrange(at as int, at + len)[i as int] != pat@.subrange(
                lo as int,
                hi as int,
            )[i as int]);
            return false;
        }
        proof {
            let seen = val@.subrange(at as int, at + i);
            assert(val@.subrange(at as int, at + i + 1) =~= seen.push(val@[at + i]));
            assert(pat@.subrange(lo as int, lo + i + 1) =~= seen.push(pat@[lo + i]));
        }
        i += 1;
    }
    assert(val@.subrange(at as int, at + len) =~= pat@.subrange(lo as int, hi as int));
    true
}

/// The leftmost position at or after `from` at which the characters `lo..hi` of
/// `pat` stand in `val`.
fn find_segment(pat: &Vec<char>, lo: usize, hi: usize, val: &Vec<char>, from: usize) -> (at: Option<
    usize,
>)
    requires
        lo <= hi <= pat.len(),
        from <= val.len(),
    ensures
        match at {
            Some(at) => {
                &&& from <= at <= val.len()
                &&& stands_at(pat@.subrange(lo as int, hi as int), val@, at as int)
                &&& forall|k: int|
                    from <= k < at ==> !stands_at(pat@.subrange(lo as int, hi as int), val@, k)
            },
            None => forall|k: int|
                from <= k ==> !stands_at(pat@.subrange(lo as int, hi as int), val@, k),
        },
{
    let mut at: usize = from;
    loop
        invariant
            lo <= hi <= pat.len(),
            from <= at <= val.len(),
            forall|k: int|
                from <= k < at ==> !stands_at(pat@.subrange(lo as int, hi as int), val@, k),
        decreases val.len() - at,
    {
        if segment_at(pat, lo, hi, val, at) {
            return Some(at);
        }
        if at == val.len() {
            return None;
        }
        at += 1;
    }
}

/// The position of the first `*` of `pat` at or after `from`, or its length.
fn next_star(pat: &Vec<char>, from: usize) -> (at: usize)
    requires
        from <= pat.len(),
    ensures
        from <= at <= pat.len(),
        forall|i: int| from <= i < at ==> pat@[i] != '*',
        at < pat.len() ==> pat@[at as int] == '*',
{
    let mut at: usize = from;
    while at < pat.len() && pat[at] != '*'
        invariant
            from <= at <= pat.len(),
            forall|i: int| from <= i < at ==> pat@[i] != '*',
        decreases pat.len() - at,
    {
        at += 1;
    }
    at
}

/// Simple glob match: `*` matches any sequence of characters, the empty one
/// included. Several `*` are supported. Case-sensitive.
pub fn glob_matches(pat: &str, val: &str) -> (matched: bool)
    ensures
        matched == glob_accepts(pat@, val@),
{
    let p: Vec<char> = chars_of(pat);
    let v: Vec<char> = chars_of(val);

    // What precedes the first `*` must be an exact prefix.
    let first: usize = next_star(&p, 0);
    proof {
        lemma_literal_prefix(pat@, first as int, val@);
        assert(pat@.subrange(0, first as int) =~= pat@.take(first as int));
    }
    if !segment_at(&p, 0, first, &v, 0) {
        return false;
    }
    let mut star: usize = first;
    let mut from: usize = first;
    while star < p.len()
        invariant
            p@ == pat@,
            v@ == val@,
            star <= p.len(),
            from <= v.len(),
            star < p.len() ==> pat@[star as int] == '*',
            glob_accepts(pat@, val@) <==> glob_accepts(
                pat@.skip(star as int),
                val@.skip(from as int),
            ),
        decreases p.len() - star,
    {
        let next: usize = next_star(&p, star + 1);
        let ghost rest_pat = pat@.skip(star as int);
        let ghost rest_val = val@.skip(from as int);
        let ghost n = next - star - 1;
        let ghost seg = pat@.subrange(star + 1, next as int);
        proof {
            assert(rest_pat.subrange(1, n + 1) =~= seg);
            assert forall|i: int| 1 <= i <= n implies rest_pat[i] != '*' by {
                assert(rest_pat[i] == pat@[star + i]);
            }
            assert forall|k: int| stands_at(seg, rest_val, k) <==> (0 <= k && stands_at(
                seg,
                val@,
                from + k,
            )) by {
                if 0 <= k && from + k + seg.len() <= v.len() {
                    assert(rest_val.subrange(k, k + seg.len()) =~= val@.subrange(
                        from + k,
                        from + k + seg.len(),
                    ));
                }
            }
        }
        if next == p.len() {
            // What follows the last `*` must be an exact suffix.
            proof {
                lemma_last_segment(rest_pat, n, rest_val);
            }
            let len: usize = next - (star + 1);
            if len > v.len() - from {
                return false;
            }
            return segment_at(&p, star + 1, next, &v, v.len() - len);
        }
        // What stands between two `*` may be anywhere in what remains.
        match find_segment(&p, star + 1, next, &v, from) {
            Some(at) => {
                proof {
                    assert(stands_at(seg, rest_val, at - from));
                    assert forall|k: int| 0 <= k < at - from implies !stands_at(
                        seg,
                        rest_val,
                        k,
                    ) by {
                        assert(!stands_at(seg, val@, from + k));
                    }
                    lemma_leftmost_is_enough(rest_pat, n, rest_val, at - from);
                    assert(rest_pat.skip(n + 1) =~= pat@.skip(next as int));
                    assert(rest_val.skip(at - from + n) =~= val@.skip(at + n));
                }
                from = at + (next - (star + 1));
                star = next;
            },
            None => {
                proof {
                    lemma_star_segment(rest_pat, n, rest_val);
                    assert forall|k: int| !stands_at(seg, rest_val, k) by {
                        if 0 <= k {
                            assert(!stands_at(seg, val@, from + k));
                        }
                    }
                }
                return false;
            },
        }
    }
    assert(pat@.skip(star as int).len() == 0);
    from == v.len()
}

/// Without a star a pattern is an exact match, case and all.
pub proof fn lemma_plain_is_exact(pat: Seq<char>, val: Seq<char>)
    requires
        !pat.contains('*'),
    ensures
        glob_accepts(pat, val) <==> pat == val,
{
    assert forall|i: int| 0 <= i < pat.len() implies pat[i] != '*' by {
        assert(pat.contains(pat[i]));
    }
    let n = pat.len() as int;
    lemma_literal_prefix(pat, n, val);
    assert(pat.take(n) =~= pat);
    assert(pat.skip(n) =~= Seq::<char>::empty());
    if glob_accepts(pat, val) {
        assert(val.skip(n).len() == 0);
        assert(val.subrange(0, n) =~= val);
    }
    if pat == val {
        assert(val.subrange(0, n) =~= pat);
        assert(val.skip(n) =~= Seq::<char>::empty());
    }
}

/// A star at the end takes every text that starts with what stands before it.
pub proof fn lemma_trailing_star_is_prefix(start: Seq<char>, val: Seq<char>)
    requires
        !start.contains('*'),
    ensures
        glob_accepts(start.push('*'), val) <==> start.is_prefix_of(val),
{
    let pat = start.push('*');
    let n = start.len() as int;
    assert forall|i: int| 0 <= i < n implies pat[i] != '*' by {
        assert(start.contains(start[i]));
    }
    lemma_literal_prefix(pat, n, val);
    assert(pat.take(n) =~= start);
    let star = pat.skip(n);
    assert(star =~= seq!['*']);
    if n <= val.len() {
        let rest = val.skip(n);
        lemma_star_takes_any(star, rest);
        assert(star.skip(1) =~= Seq::<char>::empty());
        assert(rest.skip(rest.len() as int) =~= Seq::<char>::empty());
        assert(glob_accepts(star.skip(1), rest.skip(rest.len() as int)));
        assert(val.subrange(0, n) =~= val.take(n));
    }
}

} // verus!
