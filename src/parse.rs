//! Character-level parsing: splitting into fields and lines, substring
//! search, and unsigned decimal numbers.

use vstd::prelude::*;
use vstd::string::*;
use crate::text::chars_of;

verus! {

/// The character sequences of a sequence of strings.
pub open spec fn views(s: Seq<String>) -> Seq<Seq<char>> {
    s.map_values(|f: String| f@)
}

/// Each sequence without one trailing carriage return.
pub open spec fn strip_cr_all(s: Seq<Seq<char>>) -> Seq<Seq<char>> {
    s.map_values(|p: Seq<char>| strip_cr(p))
}

/// The pieces of `s` between occurrences of `sep`; always at least one.
pub open spec fn split_on(s: Seq<char>, sep: char) -> Seq<Seq<char>>
    decreases s.len(),
{
    if s.len() == 0 {
        seq![Seq::<char>::empty()]
    } else {
        let prev = split_on(s.drop_last(), sep);
        if s.last() == sep {
            prev.push(Seq::<char>::empty())
        } else {
            prev.update(prev.len() - 1, prev.last().push(s.last()))
        }
    }
}

pub proof fn lemma_split_on_nonempty(s: Seq<char>, sep: char)
    ensures
        split_on(s, sep).len() >= 1,
    decreases s.len(),
{
    if s.len() > 0 {
        lemma_split_on_nonempty(s.drop_last(), sep);
    }
}

/// `s` without one trailing carriage return.
pub open spec fn strip_cr(s: Seq<char>) -> Seq<char> {
    if s.len() > 0 && s.last() == '\r' {
        s.drop_last()
    } else {
        s
    }
}

/// The lines of `s`: pieces ended by `\n` (each without one trailing `\r`),
/// then the rest when it is not empty.
pub open spec fn lines_of(s: Seq<char>) -> Seq<Seq<char>> {
    let parts = split_on(s, '\n');
    let ended = strip_cr_all(parts.drop_last());
    if parts.last().len() == 0 {
        ended
    } else {
        ended.push(parts.last())
    }
}

/// Whether `needle` occurs in `hay` starting at position `i`.
pub open spec fn occurs_at(hay: Seq<char>, needle: Seq<char>, i: int) -> bool {
    0 <= i && i + needle.len() <= hay.len() && hay.subrange(i, i + needle.len()) == needle
}

/// Whether `needle` occurs anywhere in `hay`.
pub open spec fn contains_seq(hay: Seq<char>, needle: Seq<char>) -> bool {
    exists|i: int| occurs_at(hay, needle, i)
}

/// Whether `s` begins with `p`.
pub open spec fn starts_with_seq(s: Seq<char>, p: Seq<char>) -> bool {
    p.len() <= s.len() && s.subrange(0, p.len() as int) == p
}

/// Whether every character of `s` is an ASCII digit.
pub open spec fn all_digits(s: Seq<char>) -> bool {
    forall|i: int| 0 <= i < s.len() ==> '0' <= #[trigger] s[i] <= '9'
}

/// The value of a string of decimal digits.
pub open spec fn digits_value(s: Seq<char>) -> nat
    decreases s.len(),
{
    if s.len() == 0 {
        0
    } else {
        digits_value(s.drop_last()) * 10 + ((s.last() as nat) - ('0' as nat)) as nat
    }
}

/// An unsigned 32-bit decimal number: an optional `+`, then one or more
/// digits, with a value that fits.
/// `s` without one leading plus sign.
pub open spec fn strip_plus(s: Seq<char>) -> Seq<char> {
    if s.len() > 0 && s[0] == '+' {
        s.drop_first()
    } else {
        s
    }
}

pub open spec fn u32_of(s: Seq<char>) -> Option<u32> {
    let d = strip_plus(s);
    if d.len() > 0 && all_digits(d) && digits_value(d) <= u32::MAX {
        Some(digits_value(d) as u32)
    } else {
        None
    }
}

/// Splits `s` at every `sep`.
pub fn split_fields(s: &str, sep: char) -> (r: Vec<String>)
    ensures
        views(r@) == split_on(s@, sep),
{
    let cs = chars_of(s);
    let n = cs.len();
    let mut out: Vec<String> = Vec::new();
    let mut start: usize = 0;
    let mut i: usize = 0;
    proof {
        assert(views(out@) =~= Seq::<Seq<char>>::empty());
        assert(s@.subrange(0, 0) =~= Seq::<char>::empty());
        assert(views(out@).push(s@.subrange(0, 0)) =~= split_on(s@.subrange(0, 0), sep));
    }
    while i < n
        invariant
            cs@ == s@,
            n == s@.len(),
            start <= i <= n,
            views(out@).push(s@.subrange(start as int, i as int))
                == split_on(s@.subrange(0, i as int), sep),
        decreases n - i,
    {
        let ghost prev_out = out@;
        if cs[i] == sep {
            let piece = s.substring_char(start, i);
            out.push(String::from_str(piece));
            proof {
                let t = s@.subrange(0, i as int + 1);
                assert(t.drop_last() =~= s@.subrange(0, i as int));
                assert(views(out@) =~= views(prev_out).push(
                    s@.subrange(start as int, i as int)));
                assert(s@.subrange(i as int + 1, i as int + 1) =~= Seq::<char>::empty());
            }
            start = i + 1;
        } else {
            proof {
                let t = s@.subrange(0, i as int + 1);
                assert(t.drop_last() =~= s@.subrange(0, i as int));
                assert(s@.subrange(start as int, i as int + 1) =~= s@.subrange(start as int, i as int).push(
                    t.last()));
                assert(views(out@).push(s@.subrange(start as int, i as int + 1))
                    =~= split_on(t, sep));
            }
        }
        i = i + 1;
    }
    let last = s.substring_char(start, n);
    out.push(String::from_str(last));
    proof {
        assert(s@.subrange(0, n as int) =~= s@);
    }
    out
}

/// Removes one trailing carriage return.
fn strip_cr_exec(s: String) -> (r: String)
    ensures
        r@ == strip_cr(s@),
{
    let n = s.as_str().unicode_len();
    if n > 0 && s.as_str().get_char(n - 1) == '\r' {
        String::from_str(s.as_str().substring_char(0, n - 1))
    } else {
        proof {
            assert(s@.len() > 0 ==> s@.last() == s@[n - 1]);
        }
        s
    }
}

/// The lines of `s`, as `str::lines` gives them.
pub fn split_lines(s: &str) -> (r: Vec<String>)
    ensures
        views(r@) == lines_of(s@),
{
    let mut parts = split_fields(s, '\n');
    proof {
        lemma_split_on_nonempty(s@, '\n');
    }
    let ghost pv = views(parts@);
    let last = parts.pop().unwrap();
    proof {
        assert(views(parts@) =~= pv.drop_last());
    }
    let mut out: Vec<String> = Vec::new();
    let mut i: usize = 0;
    while i < parts.len()
        invariant
            views(parts@) == pv.drop_last(),
            i <= parts@.len(),
            views(out@) == strip_cr_all(pv.drop_last().subrange(0, i as int)),
        decreases parts@.len() - i,
    {
        let ghost before = out@;
        let line = strip_cr_exec(parts[i].clone());
        out.push(line);
        proof {
            assert(parts@[i as int]@ == pv.drop_last()[i as int]);
            assert(views(parts@).len() == parts@.len());
            assert(views(before).len() == before.len());
            let lhs = views(out@);
            let rhs = strip_cr_all(pv.drop_last().subrange(0, i as int + 1));
            let prev = strip_cr_all(pv.drop_last().subrange(0, i as int));
            assert(out@ == before.push(line));
            assert forall|j: int| 0 <= j < lhs.len() implies lhs[j] == rhs[j] by {
                assert(lhs[j] == out@[j]@);
                assert(lhs.len() == rhs.len());
                if j < i {
                    assert(views(before).len() == i);
                    assert(out@[j] == before[j]);
                    assert(views(before)[j] == prev[j]);
                }
            }
            assert(lhs =~= rhs);
        }
        i = i + 1;
    }
    proof {
        assert(pv.drop_last().subrange(0, i as int) =~= pv.drop_last());
    }
    if last.as_str().unicode_len() != 0 {
        out.push(last);
        proof {
            assert(views(out@) =~= lines_of(s@));
        }
    }
    out
}

/// Whether `nd` occurs in `h` at position `i`.
fn matches_at(h: &Vec<char>, nd: &Vec<char>, i: usize) -> (r: bool)
    requires
        i + nd.len() <= h.len(),
    ensures
        r == occurs_at(h@, nd@, i as int),
{
    let mut k: usize = 0;
    while k < nd.len()
        invariant
            i + nd.len() <= h.len(),
            k <= nd@.len(),
            forall|j: int| 0 <= j < k ==> h@[i + j] == nd@[j],
        decreases nd@.len() - k,
    {
        if h[i + k] != nd[k] {
            proof {
                assert(h@.subrange(i as int, i + nd@.len())[k as int] == h@[i + k]);
            }
            return false;
        }
        k = k + 1;
    }
    proof {
        assert(h@.subrange(i as int, i + nd@.len()) =~= nd@);
    }
    true
}

/// Whether `needle` occurs in `hay`.
pub fn contains_str(hay: &str, needle: &str) -> (r: bool)
    ensures
        r == contains_seq(hay@, needle@),
{
    let h = chars_of(hay);
    let nd = chars_of(needle);
    if nd.len() > h.len() {
        return false;
    }
    let last = h.len() - nd.len();
    let mut i: usize = 0;
    loop
        invariant
            h@ == hay@,
            nd@ == needle@,
            last == h@.len() - nd@.len(),
            i <= last,
            forall|j: int| 0 <= j < i ==> !occurs_at(hay@, needle@, j),
        decreases last - i,
    {
        if matches_at(&h, &nd, i) {
            return true;
        }
        if i == last {
            proof {
                assert forall|j: int| !occurs_at(hay@, needle@, j) by {
                    if 0 <= j && j + needle@.len() <= hay@.len() {
                        assert(j <= i);
                    }
                }
            }
            return false;
        }
        i = i + 1;
    }
}

/// Whether `s` begins with `p`.
pub fn starts_with_str(s: &str, p: &str) -> (r: bool)
    ensures
        r == starts_with_seq(s@, p@),
{
    let sc = chars_of(s);
    let pc = chars_of(p);
    if pc.len() > sc.len() {
        return false;
    }
    let mut k: usize = 0;
    while k < pc.len()
        invariant
            sc@ == s@,
            pc@ == p@,
            pc@.len() <= sc@.len(),
            k <= pc@.len(),
            sc@.subrange(0, k as int) == pc@.subrange(0, k as int),
        decreases pc@.len() - k,
    {
        if sc[k] != pc[k] {
            proof {
                if sc@.subrange(0, pc@.len() as int) == pc@ {
                    assert(sc@.subrange(0, pc@.len() as int)[k as int] == sc@[k as int]);
                }
            }
            return false;
        }
        proof {
            assert(sc@.subrange(0, k + 1) =~= sc@.subrange(0, k as int).push(sc@[k as int]));
            assert(pc@.subrange(0, k + 1) =~= pc@.subrange(0, k as int).push(pc@[k as int]));
        }
        k = k + 1;
    }
    proof {
        assert(pc@.subrange(0, k as int) =~= pc@);
    }
    true
}

proof fn lemma_digits_value_monotone(s: Seq<char>)
    requires
        s.len() > 0,
        all_digits(s),
    ensures
        digits_value(s) >= digits_value(s.drop_last()),
{
}

/// Parses an unsigned 32-bit decimal number, as `str::parse::<u32>` does.
pub fn parse_u32(s: &str) -> (r: Option<u32>)
    ensures
        r == u32_of(s@),
{
    let cs = chars_of(s);
    let n = cs.len();
    let mut i: usize = 0;
    if n > 0 && cs[0] == '+' {
        i = 1;
    }
    let ghost d = strip_plus(s@);
    proof {
        assert(d =~= s@.subrange(i as int, n as int));
    }
    if i == n {
        return None;
    }
    let start = i;
    let mut value: u64 = 0;
    let mut too_big = false;
    while i < n
        invariant
            cs@ == s@,
            n == s@.len(),
            d == strip_plus(s@),
            d == s@.subrange(start as int, n as int),
            start < n,
            start <= i <= n,
            all_digits(s@.subrange(start as int, i as int)),
            too_big ==> digits_value(s@.subrange(start as int, i as int)) > u32::MAX,
            !too_big ==> value == digits_value(s@.subrange(start as int, i as int)) && value <= u32::MAX,
        decreases n - i,
    {
        let c = cs[i];
        let ghost t = s@.subrange(start as int, i as int + 1);
        proof {
            assert(t.drop_last() =~= s@.subrange(start as int, i as int));
        }
        if c < '0' || c > '9' {
            proof {
                assert(d[i - start] == c);
                assert(!('0' <= d[i - start] <= '9'));
                assert(!all_digits(d));
                assert(u32_of(s@) is None);
            }
            return None;
        }
        proof {
            assert forall|j: int| 0 <= j < t.len() implies '0' <= #[trigger] t[j] <= '9' by {
                if j < t.len() - 1 {
                    assert(t[j] == s@.subrange(start as int, i as int)[j]);
                }
            }
            lemma_digits_value_monotone(t);
        }
        if !too_big {
            let dv = (c as u32 - '0' as u32) as u64;
            value = value * 10 + dv;
            if value > 4294967295u64 {
                too_big = true;
            }
        }
        i = i + 1;
    }
    if too_big {
        None
    } else {
        Some(value as u32)
    }
}

} // verus!
