//! Character-level string building blocks with exact specifications.

use vstd::prelude::*;

verus! {

/// Appends `c` to `s` through `String::push`, which std documents as
/// "appends the given char to the end of this String".
#[verifier::external_body]
pub(crate) fn push_char(s: &mut String, c: char)
    ensures
        final(s)@ == old(s)@.push(c),
{
    s.push(c)
}

/// The characters of `s`, in order.
pub fn chars_of(s: &str) -> (cs: Vec<char>)
    ensures
        cs@ == s@,
{
    let n = s.unicode_len();
    let mut cs: Vec<char> = Vec::new();
    let mut i: usize = 0;
    while i < n
        invariant
            n == s@.len(),
            i <= n,
            cs@ == s@.take(i as int),
        decreases n - i,
    {
        cs.push(s.get_char(i));
        i = i + 1;
        assert(cs@ =~= s@.take(i as int));
    }
    assert(cs@ =~= s@);
    cs
}

/// A string holding the characters `cs[from..to]`.
pub fn string_of_range(cs: &Vec<char>, from: usize, to: usize) -> (s: String)
    requires
        from <= to <= cs@.len(),
    ensures
        s@ == cs@.subrange(from as int, to as int),
{
    let mut s = String::new();
    let mut i: usize = from;
    while i < to
        invariant
            from <= i <= to <= cs@.len(),
            s@ == cs@.subrange(from as int, i as int),
        decreases to - i,
    {
        push_char(&mut s, cs[i]);
        i = i + 1;
        assert(s@ =~= cs@.subrange(from as int, i as int));
    }
    s
}

/// The ASCII digit for a value below ten.
pub open spec fn digit_char(d: nat) -> char {
    ((48 + d) as u8) as char
}

/// The view of an optional string.
pub open spec fn option_view(s: Option<String>) -> Option<Seq<char>> {
    match s {
        Some(t) => Some(t@),
        None => None,
    }
}

/// The decimal notation of `n`, most significant digit first, without
/// leading zeros (zero is written `0`).
pub open spec fn decimal(n: nat) -> Seq<char>
    decreases n,
{
    if n < 10 {
        seq![digit_char(n)]
    } else {
        decimal(n / 10).push(digit_char(n % 10))
    }
}

/// Writes `n` in decimal.
pub fn decimal_string(n: u64) -> (s: String)
    ensures
        s@ == decimal(n as nat),
    decreases n,
{
    let d: u8 = (n % 10) as u8;
    let c: char = (d + 48u8) as char;
    if n < 10 {
        let mut s = String::new();
        push_char(&mut s, c);
        assert(s@ =~= seq![c]);
        s
    } else {
        let mut s = decimal_string(n / 10);
        push_char(&mut s, c);
        s
    }
}


/// `s` with every non-overlapping occurrence of `pat`, scanned from the left,
/// replaced by `rep` (the behaviour of `str::replace` for a non-empty pattern).
pub open spec fn replace_all_spec(s: Seq<char>, pat: Seq<char>, rep: Seq<char>) -> Seq<char>
    decreases s.len(),
{
    if pat.len() == 0 || s.len() < pat.len() {
        s
    } else if s.take(pat.len() as int) == pat {
        rep + replace_all_spec(s.skip(pat.len() as int), pat, rep)
    } else {
        seq![s[0]] + replace_all_spec(s.skip(1), pat, rep)
    }
}

/// An occurrence of the pattern at the start is replaced, and replacing
/// goes on after it.
pub proof fn law_replace_at_pattern(pat: Seq<char>, rest: Seq<char>, rep: Seq<char>)
    requires
        pat.len() > 0,
    ensures
        replace_all_spec(pat + rest, pat, rep) == rep + replace_all_spec(rest, pat, rep),
{
    assert((pat + rest).take(pat.len() as int) =~= pat);
    assert((pat + rest).skip(pat.len() as int) =~= rest);
}

/// Text holding no character that starts the pattern is kept as it is, and
/// replacing goes on after it.
pub proof fn law_replace_keeps_plain_text(plain: Seq<char>, rest: Seq<char>, pat: Seq<char>, rep: Seq<char>)
    requires
        pat.len() > 0,
        !plain.contains(pat[0]),
    ensures
        replace_all_spec(plain + rest, pat, rep) == plain + replace_all_spec(rest, pat, rep),
    decreases plain.len(),
{
    if plain.len() > 0 {
        let s = plain + rest;
        assert(s[0] == plain[0]);
        assert(plain[0] != pat[0]);
        assert(s.skip(1) =~= plain.skip(1) + rest);
        assert(!plain.skip(1).contains(pat[0])) by {
            if plain.skip(1).contains(pat[0]) {
                let k = choose|k: int| 0 <= k < plain.skip(1).len() && plain.skip(1)[k] == pat[0];
                assert(plain[k + 1] == pat[0]);
            }
        }
        law_replace_keeps_plain_text(plain.skip(1), rest, pat, rep);
        if s.len() < pat.len() {
            assert(replace_all_spec(s, pat, rep) == s);
            assert(replace_all_spec(rest, pat, rep) == rest);
            assert(replace_all_spec(plain.skip(1) + rest, pat, rep) == plain.skip(1) + rest);
        } else {
            assert(s.take(pat.len() as int)[0] != pat[0]);
            assert(s.take(pat.len() as int) != pat);
        }
        assert(plain =~= seq![plain[0]] + plain.skip(1));
        assert(replace_all_spec(s, pat, rep) =~= plain + replace_all_spec(rest, pat, rep));
    } else {
        assert(plain + rest =~= rest);
    }
}

/// Whether `pat` occurs in `cs` at position `at`.
fn occurs_at(cs: &Vec<char>, at: usize, pat: &Vec<char>) -> (b: bool)
    requires
        at + pat@.len() <= cs@.len(),
    ensures
        b == (cs@.subrange(at as int, at + pat@.len()) == pat@),
{
    let len = cs.len();
    let mut k: usize = 0;
    while k < pat.len()
        invariant
            len == cs@.len(),
            at + pat@.len() <= cs@.len(),
            k <= pat@.len(),
            forall|j: int| 0 <= j < k ==> cs@[at + j] == pat@[j],
        decreases pat@.len() - k,
    {
        if cs[at + k] != pat[k] {
            assert(cs@.subrange(at as int, at + pat@.len())[k as int] != pat@[k as int]);
            return false;
        }
        k = k + 1;
    }
    assert(cs@.subrange(at as int, at + pat@.len()) =~= pat@);
    true
}

/// Replaces every occurrence of the non-empty pattern `pat` in `s` by `rep`.
pub fn replace_all(s: &str, pat: &str, rep: &str) -> (r: String)
    requires
        pat@.len() > 0,
    ensures
        r@ == replace_all_spec(s@, pat@, rep@),
{
    let cs = chars_of(s);
    let ps = chars_of(pat);
    let n = cs.len();
    let m = ps.len();
    let mut out = String::new();
    let mut i: usize = 0;
    assert(cs@.skip(0) =~= cs@);
    assert(out@ + replace_all_spec(cs@.skip(0), ps@, rep@) =~= replace_all_spec(cs@, ps@, rep@));
    while i < n
        invariant
            cs@ == s@,
            ps@ == pat@,
            n == cs@.len(),
            m == ps@.len(),
            m > 0,
            i <= n,
            out@ + replace_all_spec(cs@.skip(i as int), ps@, rep@) == replace_all_spec(cs@, ps@, rep@),
        decreases n - i,
    {
        let ghost t = cs@.skip(i as int);
        if m <= n - i && occurs_at(&cs, i, &ps) {
            assert(t.take(m as int) =~= cs@.subrange(i as int, i + m));
            assert(t.skip(m as int) =~= cs@.skip(i + m));
            out.append(rep);
            i = i + m;
            assert(out@ + replace_all_spec(cs@.skip(i as int), ps@, rep@) =~= replace_all_spec(cs@, ps@, rep@));
        } else {
            let c = cs[i];
            assert(t.skip(1) =~= cs@.skip(i + 1));
            proof {
                if t.len() < m {
                    assert(replace_all_spec(t, ps@, rep@) == t);
                    assert(replace_all_spec(t.skip(1), ps@, rep@) == t.skip(1));
                    assert(t =~= seq![c] + t.skip(1));
                } else {
                    assert(t.take(m as int) =~= cs@.subrange(i as int, i + m));
                }
            }
            push_char(&mut out, c);
            i = i + 1;
            assert(out@ + replace_all_spec(cs@.skip(i as int), ps@, rep@) =~= replace_all_spec(cs@, ps@, rep@));
        }
    }
    assert(cs@.skip(n as int) =~= Seq::<char>::empty());
    assert(out@ =~= replace_all_spec(cs@, ps@, rep@));
    out
}

/// The pieces of `s` between occurrences of `sep` (the behaviour of
/// `str::split` with a character): there is always at least one piece, and
/// a separator at either end yields an empty piece there.
pub open spec fn split_on(s: Seq<char>, sep: char) -> Seq<Seq<char>>
    decreases s.len(),
{
    if s.len() == 0 {
        seq![Seq::<char>::empty()]
    } else {
        let init = split_on(s.drop_last(), sep);
        if s.last() == sep {
            init.push(Seq::<char>::empty())
        } else {
            init.update(init.len() - 1, init.last().push(s.last()))
        }
    }
}

/// The pieces joined back together with `sep` between consecutive pieces.
pub open spec fn join_with(ps: Seq<Seq<char>>, sep: char) -> Seq<char>
    decreases ps.len(),
{
    if ps.len() == 0 {
        Seq::<char>::empty()
    } else if ps.len() == 1 {
        ps[0]
    } else {
        join_with(ps.drop_last(), sep).push(sep) + ps.last()
    }
}

/// The views of a sequence of strings.
pub open spec fn views(v: Seq<String>) -> Seq<Seq<char>> {
    v.map_values(|x: String| x@)
}

/// Splits `s` at every occurrence of `sep`.
pub fn split_char(s: &str, sep: char) -> (parts: Vec<String>)
    ensures
        views(parts@) == split_on(s@, sep),
{
    let cs = chars_of(s);
    let n = cs.len();
    let mut parts: Vec<String> = Vec::new();
    let mut cur = String::new();
    let mut i: usize = 0;
    assert(cs@.take(0) =~= Seq::<char>::empty());
    assert(views(parts@).push(cur@) =~= split_on(cs@.take(0), sep));
    while i < n
        invariant
            cs@ == s@,
            n == cs@.len(),
            i <= n,
            views(parts@).push(cur@) == split_on(cs@.take(i as int), sep),
        decreases n - i,
    {
        let c = cs[i];
        let ghost before = cs@.take(i as int);
        assert(cs@.take(i + 1).drop_last() =~= before);
        assert(cs@.take(i + 1).last() == c);
        if c == sep {
            let ghost old_parts = parts@;
            let ghost old_cur = cur@;
            parts.push(cur);
            cur = String::new();
            assert(views(parts@) =~= views(old_parts).push(old_cur));
        } else {
            push_char(&mut cur, c);
        }
        i = i + 1;
        assert(views(parts@).push(cur@) =~= split_on(cs@.take(i as int), sep));
    }
    assert(cs@.take(n as int) =~= cs@);
    parts.push(cur);
    assert(views(parts@) =~= split_on(cs@, sep));
    parts
}


/// Splitting always yields at least one piece.
pub proof fn lemma_split_nonempty(s: Seq<char>, sep: char)
    ensures
        split_on(s, sep).len() >= 1,
    decreases s.len(),
{
    if s.len() > 0 {
        lemma_split_nonempty(s.drop_last(), sep);
    }
}

/// Joining the pieces of a split with the same separator gives back the
/// original string, and no piece contains the separator.
pub proof fn law_join_undoes_split(s: Seq<char>, sep: char)
    ensures
        join_with(split_on(s, sep), sep) == s,
        forall|i: int| 0 <= i < split_on(s, sep).len() ==> !(#[trigger] split_on(s, sep)[i]).contains(sep),
    decreases s.len(),
{
    if s.len() == 0 {
        assert(split_on(s, sep) =~= seq![Seq::<char>::empty()]);
        assert(s =~= Seq::<char>::empty());
    } else {
        let init = split_on(s.drop_last(), sep);
        law_join_undoes_split(s.drop_last(), sep);
        lemma_split_nonempty(s.drop_last(), sep);
        let x = s.last();
        assert(s =~= s.drop_last().push(x));
        if x == sep {
            let ps = init.push(Seq::<char>::empty());
            assert(ps.drop_last() =~= init);
            assert(join_with(ps, sep) =~= join_with(init, sep).push(sep) + Seq::<char>::empty());
            assert forall|i: int| 0 <= i < ps.len() implies !(#[trigger] ps[i]).contains(sep) by {
                if i < init.len() {
                    assert(ps[i] == init[i]);
                } else {
                    assert(ps[i] =~= Seq::<char>::empty());
                }
            }
        } else {
            let ps = init.update(init.len() - 1, init.last().push(x));
            if init.len() == 1 {
                assert(join_with(init, sep) == init[0]);
                assert(join_with(ps, sep) == ps[0]);
            } else {
                assert(ps.drop_last() =~= init.drop_last());
                assert(join_with(init, sep) == join_with(init.drop_last(), sep).push(sep) + init.last());
                assert(join_with(ps, sep) == join_with(ps.drop_last(), sep).push(sep) + ps.last());
                assert(join_with(ps, sep) =~= join_with(init, sep).push(x));
            }
            assert forall|i: int| 0 <= i < ps.len() implies !(#[trigger] ps[i]).contains(sep) by {
                if i < init.len() - 1 {
                    assert(ps[i] == init[i]);
                } else {
                    assert(!init[i].contains(sep));
                    if ps[i].contains(sep) {
                        let k = choose|k: int| 0 <= k < ps[i].len() && ps[i][k] == sep;
                        assert(ps[i] =~= init[i].push(x));
                        if k < init[i].len() {
                            assert(init[i][k] == sep);
                        }
                    }
                }
            }
        }
    }
}


/// The last piece of `s` split at `sep`: what follows the last separator,
/// or all of `s` when there is none.
pub fn last_piece(s: &str, sep: char) -> (piece: String)
    ensures
        piece@ == split_on(s@, sep).last(),
{
    let mut parts = split_char(s, sep);
    proof {
        lemma_split_nonempty(s@, sep);
    }
    let ghost all = parts@;
    match parts.pop() {
        Some(piece) => {
            assert(views(all).last() == piece@);
            piece
        },
        None => {
            assert(false);
            String::new()
        },
    }
}

/// Whether two strings hold the same characters.
pub fn str_equal(a: &str, b: &str) -> (eq: bool)
    ensures
        eq == (a@ == b@),
{
    let xs = chars_of(a);
    let ys = chars_of(b);
    assert(xs@ == a@ && ys@ == b@);
    if xs.len() != ys.len() {
        return false;
    }
    let mut i: usize = 0;
    while i < xs.len()
        invariant
            xs@.len() == ys@.len(),
            xs@ == a@,
            ys@ == b@,
            i <= xs@.len(),
            forall|j: int| 0 <= j < i ==> xs@[j] == ys@[j],
        decreases xs@.len() - i,
    {
        if xs[i] != ys[i] {
            assert(xs@[i as int] != ys@[i as int]);
            assert(a@ != b@);
            return false;
        }
        i = i + 1;
    }
    assert(xs@ =~= ys@);
    true
}

} // verus!
