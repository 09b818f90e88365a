//! Parsing of the platform's NUMA discovery files: a CPU list of
//! comma-separated ranges and singletons, and the node meminfo line that
//! carries the node's memory in KiB.  Reading the files is the program's
//! job; the grammar lives here.

use vstd::prelude::*;

verus! {

/// An ASCII decimal digit.
pub open spec fn spec_is_digit(b: u8) -> bool {
    0x30 <= b && b <= 0x39
}

/// ASCII whitespace, as the discovery files use it.
pub open spec fn spec_is_space(b: u8) -> bool {
    b == 0x20 || b == 0x09 || b == 0x0A || b == 0x0D
}

/// The value of a digit string, most significant digit first.
pub open spec fn spec_digits_value(s: Seq<u8>) -> int
    decreases s.len(),
{
    if s.len() == 0 {
        0
    } else {
        spec_digits_value(s.drop_last()) * 10 + (s.last() - 0x30)
    }
}

/// A non-empty string of digits.
pub open spec fn spec_all_digits(s: Seq<u8>) -> bool {
    s.len() > 0 && forall|i: int| 0 <= i < s.len() ==> spec_is_digit(#[trigger] s[i])
}

/// The number a token denotes: it must be all digits and fit the machine.
pub open spec fn spec_number(s: Seq<u8>) -> Option<usize> {
    if spec_all_digits(s) && spec_digits_value(s) <= usize::MAX {
        Some(spec_digits_value(s) as usize)
    } else {
        None
    }
}

/// The index of the first occurrence of `b` in `s`, or the length.
pub open spec fn first_byte_at(s: Seq<u8>, b: u8) -> int
    decreases s.len(),
{
    if s.len() == 0 {
        0
    } else if s.first() == b {
        0
    } else {
        1 + first_byte_at(s.drop_first(), b)
    }
}

/// The CPUs a range denotes: `lo` through `hi` inclusive, empty when the
/// bounds are inverted.
pub open spec fn spec_cpu_range(lo: usize, hi: usize) -> Seq<usize> {
    Seq::new(
        if hi >= lo {
            (hi - lo + 1) as nat
        } else {
            0
        },
        |i: int| (lo + i) as usize,
    )
}

/// The CPUs one comma-free token denotes: a singleton number, or an
/// inclusive `lo-hi` range split at the first dash.
pub open spec fn spec_cpu_token(s: Seq<u8>) -> Option<Seq<usize>> {
    let d = first_byte_at(s, 0x2D);
    if d == s.len() {
        match spec_number(s) {
            Some(v) => Some(seq![v]),
            None => None,
        }
    } else {
        match (spec_number(s.take(d)), spec_number(s.skip(d + 1))) {
            (Some(lo), Some(hi)) => Some(spec_cpu_range(lo, hi)),
            _ => None,
        }
    }
}

/// The CPUs a whole list denotes: the concatenation of its
/// comma-separated tokens, or nothing if any token is malformed.
pub open spec fn spec_cpu_list(s: Seq<u8>) -> Option<Seq<usize>>
    decreases s.len(),
{
    let c = first_byte_at(s, 0x2C);
    if 0 <= c < s.len() {
        match (spec_cpu_token(s.take(c)), spec_cpu_list(s.skip(c + 1))) {
            (Some(head), Some(tail)) => Some(head + tail),
            _ => None,
        }
    } else {
        spec_cpu_token(s)
    }
}

/// A first-occurrence scan that passed only mismatches stopped at the
/// first occurrence.
proof fn lemma_first_byte_at(s: Seq<u8>, b: u8, i: int)
    requires
        0 <= i <= s.len(),
        forall|j: int| 0 <= j < i ==> s[j] != b,
        i < s.len() ==> s[i] == b,
    ensures
        first_byte_at(s, b) == i,
    decreases s.len(),
{
    if s.len() == 0 {
    } else if s.first() == b {
        assert(i == 0);
    } else {
        assert(i >= 1);
        lemma_first_byte_at(s.drop_first(), b, i - 1);
    }
}

/// A digit string's value never shrinks as digits are appended.
proof fn lemma_digits_value_grows(s: Seq<u8>)
    requires
        forall|i: int| 0 <= i < s.len() ==> spec_is_digit(#[trigger] s[i]),
    ensures
        spec_digits_value(s) >= 0,
        s.len() > 0 ==> spec_digits_value(s) >= spec_digits_value(s.drop_last()),
    decreases s.len(),
{
    if s.len() == 0 {
    } else {
        assert(forall|i: int|
            0 <= i < s.drop_last().len() ==> spec_is_digit(#[trigger] s.drop_last()[i]));
        lemma_digits_value_grows(s.drop_last());
    }
}

/// Finds the first occurrence of `target` between `start` and `end`.
fn find_byte(bytes: &[u8], start: usize, end: usize, target: u8) -> (r: usize)
    requires
        start <= end <= bytes@.len(),
    ensures
        start <= r <= end,
        r - start == first_byte_at(bytes@.subrange(start as int, end as int), target),
        r < end ==> bytes@[r as int] == target,
        forall|j: int| start <= j < r ==> bytes@[j] != target,
{
    let mut i = start;
    while i < end
        invariant
            start <= i <= end,
            end <= bytes@.len(),
            forall|j: int| start <= j < i ==> bytes@[j] != target,
        decreases end - i,
    {
        if bytes[i] == target {
            proof {
                lemma_first_byte_at(
                    bytes@.subrange(start as int, end as int),
                    target,
                    i - start,
                );
            }
            return i;
        }
        i = i + 1;
    }
    proof {
        lemma_first_byte_at(
            bytes@.subrange(start as int, end as int),
            target,
            (end - start) as int,
        );
    }
    end
}

/// Parses the digits between `start` and `end` as a machine-sized number.
fn parse_number_range(bytes: &[u8], start: usize, end: usize) -> (r: Option<usize>)
    requires
        start <= end <= bytes@.len(),
    ensures
        r == spec_number(bytes@.subrange(start as int, end as int)),
{
    let ghost whole = bytes@.subrange(start as int, end as int);
    if start == end {
        return None;
    }
    let mut acc: usize = 0;
    let mut over = false;
    let mut i = start;
    while i < end
        invariant
            start <= i <= end,
            end <= bytes@.len(),
            whole == bytes@.subrange(start as int, end as int),
            forall|k: int| start <= k < i ==> spec_is_digit(#[trigger] bytes@[k]),
            !over ==> acc == spec_digits_value(bytes@.subrange(start as int, i as int)),
            over ==> spec_digits_value(bytes@.subrange(start as int, i as int)) > usize::MAX,
        decreases end - i,
    {
        let b = bytes[i];
        if b < 0x30 || b > 0x39 {
            proof {
                assert(whole[i - start] == bytes@[i as int]);
                assert(!spec_all_digits(whole));
            }
            return None;
        }
        let d = (b - 0x30) as usize;
        proof {
            let pre = bytes@.subrange(start as int, i as int);
            let post = bytes@.subrange(start as int, i + 1 as int);
            assert(post.drop_last() =~= pre);
            assert(post.last() == bytes@[i as int]);
            assert(forall|k: int| 0 <= k < post.len() ==> spec_is_digit(#[trigger] post[k]));
            lemma_digits_value_grows(post);
        }
        if over {
            proof {
                let pre = bytes@.subrange(start as int, i as int);
                let post = bytes@.subrange(start as int, i + 1 as int);
                assert(spec_digits_value(post) == spec_digits_value(pre) * 10 + d);
                assert(spec_digits_value(pre) * 10 >= spec_digits_value(pre))
                    by (nonlinear_arith)
                    requires spec_digits_value(pre) >= 0,
                ;
            }
        } else if acc > (usize::MAX - d) / 10 {
            proof {
                let m = (usize::MAX - d) as int;
                vstd::arithmetic::div_mod::lemma_fundamental_div_mod(m, 10);
                let q = m / 10;
                let pre = bytes@.subrange(start as int, i as int);
                let post = bytes@.subrange(start as int, i + 1 as int);
                assert(spec_digits_value(post) == spec_digits_value(pre) * 10 + d);
                assert(acc * 10 + d > usize::MAX) by (nonlinear_arith)
                    requires
                        acc > q,
                        m == 10 * q + m % 10,
                        0 <= m % 10 < 10,
                        m == usize::MAX - d,
                ;
            }
            over = true;
        } else {
            proof {
                let m = (usize::MAX - d) as int;
                vstd::arithmetic::div_mod::lemma_fundamental_div_mod(m, 10);
                let q = m / 10;
                assert(acc * 10 + d <= usize::MAX) by (nonlinear_arith)
                    requires
                        acc <= q,
                        m == 10 * q + m % 10,
                        0 <= m % 10,
                        m == usize::MAX - d,
                ;
                let pre = bytes@.subrange(start as int, i as int);
                let post = bytes@.subrange(start as int, i + 1 as int);
                assert(spec_digits_value(post) == spec_digits_value(pre) * 10 + d);
            }
            acc = acc * 10 + d;
        }
        i = i + 1;
    }
    proof {
        assert(whole =~= bytes@.subrange(start as int, end as int));
        assert(spec_all_digits(whole));
    }
    if over {
        None
    } else {
        Some(acc)
    }
}

/// Parses one comma-free token: a CPU number or an inclusive range.
fn parse_cpu_token(bytes: &[u8], start: usize, end: usize) -> (r: Option<Vec<usize>>)
    requires
        start <= end <= bytes@.len(),
    ensures
        match r {
            Some(v) => spec_cpu_token(bytes@.subrange(start as int, end as int)) == Some(v@),
            None => spec_cpu_token(bytes@.subrange(start as int, end as int)) is None,
        },
{
    let ghost whole = bytes@.subrange(start as int, end as int);
    let dash = find_byte(bytes, start, end, 0x2D);
    if dash == end {
        match parse_number_range(bytes, start, end) {
            Some(v) => {
                let mut out: Vec<usize> = Vec::new();
                out.push(v);
                proof {
                    assert(out@ =~= seq![v]);
                }
                Some(out)
            },
            None => None,
        }
    } else {
        proof {
            assert(whole.take(dash - start) =~= bytes@.subrange(start as int, dash as int));
            assert(whole.skip(dash - start + 1) =~= bytes@.subrange(dash + 1 as int, end as int));
        }
        let lo = match parse_number_range(bytes, start, dash) {
            Some(v) => v,
            None => {
                return None;
            },
        };
        let hi = match parse_number_range(bytes, dash + 1, end) {
            Some(v) => v,
            None => {
                return None;
            },
        };
        let mut out: Vec<usize> = Vec::new();
        if lo <= hi {
            let mut c = lo;
            while c < hi
                invariant
                    lo <= c <= hi,
                    out@.len() == c - lo,
                    forall|k: int| 0 <= k < out@.len() ==> #[trigger] out@[k] == lo + k,
                decreases hi - c,
            {
                out.push(c);
                c = c + 1;
            }
            out.push(hi);
        }
        proof {
            assert(out@ =~= spec_cpu_range(lo, hi));
        }
        Some(out)
    }
}

/// Parses a CPU list of comma-separated ranges and singletons, e.g. the
/// contents of a node's CPU-list discovery file with its trailing
/// whitespace already trimmed.  Yields the CPUs of every token in order,
/// or nothing if any token is malformed.
pub fn parse_cpu_list(bytes: &[u8]) -> (r: Option<Vec<usize>>)
    ensures
        match r {
            Some(v) => spec_cpu_list(bytes@) == Some(v@),
            None => spec_cpu_list(bytes@) is None,
        },
{
    let r = parse_cpu_list_from(bytes, 0);
    proof {
        assert(bytes@.subrange(0, bytes@.len() as int) =~= bytes@);
    }
    r
}

/// Parses the list tail that starts at `start`.
fn parse_cpu_list_from(bytes: &[u8], start: usize) -> (r: Option<Vec<usize>>)
    requires
        start <= bytes@.len(),
    ensures
        match r {
            Some(v) => spec_cpu_list(bytes@.subrange(start as int, bytes@.len() as int)) == Some(
                v@,
            ),
            None => spec_cpu_list(bytes@.subrange(start as int, bytes@.len() as int)) is None,
        },
    decreases bytes@.len() - start,
{
    let end = bytes.len();
    let ghost whole = bytes@.subrange(start as int, end as int);
    let comma = find_byte(bytes, start, end, 0x2C);
    if comma == end {
        parse_cpu_token(bytes, start, end)
    } else {
        proof {
            assert(whole.take(comma - start) =~= bytes@.subrange(start as int, comma as int));
            assert(whole.skip(comma - start + 1) =~= bytes@.subrange(
                comma + 1 as int,
                end as int,
            ));
        }
        let mut head = match parse_cpu_token(bytes, start, comma) {
            Some(v) => v,
            None => {
                return None;
            },
        };
        let mut tail = match parse_cpu_list_from(bytes, comma + 1) {
            Some(v) => v,
            None => {
                return None;
            },
        };
        let ghost head_view = head@;
        let ghost tail_view = tail@;
        head.append(&mut tail);
        proof {
            assert(head@ =~= head_view + tail_view);
        }
        Some(head)
    }
}

/// Whether the token `MemTotal:` sits at offset `j` of `s`.
pub open spec fn memtotal_matches_at(s: Seq<u8>, j: int) -> bool {
    0 <= j && j + 9 <= s.len() && s.subrange(j, j + 9) == spec_memtotal_bytes()
}

/// The index where the token `MemTotal:` first occurs in `s`, or the
/// length when it never does.
pub open spec fn first_memtotal_at(s: Seq<u8>) -> int
    decreases s.len(),
{
    if s.len() < 9 {
        s.len() as int
    } else if s.take(9) == spec_memtotal_bytes() {
        0
    } else {
        1 + first_memtotal_at(s.drop_first())
    }
}

/// The bytes of the token `MemTotal:`.
pub open spec fn spec_memtotal_bytes() -> Seq<u8> {
    seq![0x4Du8, 0x65, 0x6D, 0x54, 0x6F, 0x74, 0x61, 0x6C, 0x3A]
}

/// The KiB figure a node meminfo text denotes: the whitespace-separated
/// number token that follows the first `MemTotal:`, or nothing when the
/// marker is missing or no well-formed number follows it.
pub open spec fn spec_meminfo_kb(s: Seq<u8>) -> Option<usize> {
    let m = first_memtotal_at(s);
    if 0 <= m && m + 9 <= s.len() {
        let rest = s.skip(m + 9);
        let a = first_non_space_at(rest);
        if 0 <= a <= rest.len() {
            let token = rest.skip(a);
            spec_number(token.take(first_space_at(token)))
        } else {
            None
        }
    } else {
        None
    }
}

/// The index of the first non-whitespace byte, or the length.
pub open spec fn first_non_space_at(s: Seq<u8>) -> int
    decreases s.len(),
{
    if s.len() == 0 {
        0
    } else if !spec_is_space(s.first()) {
        0
    } else {
        1 + first_non_space_at(s.drop_first())
    }
}

/// The index of the first whitespace byte, or the length.
pub open spec fn first_space_at(s: Seq<u8>) -> int
    decreases s.len(),
{
    if s.len() == 0 {
        0
    } else if spec_is_space(s.first()) {
        0
    } else {
        1 + first_space_at(s.drop_first())
    }
}

/// A scan that passed only whitespace stopped at the first non-space.
proof fn lemma_first_non_space_at(s: Seq<u8>, i: int)
    requires
        0 <= i <= s.len(),
        forall|j: int| 0 <= j < i ==> spec_is_space(#[trigger] s[j]),
        i < s.len() ==> !spec_is_space(s[i]),
    ensures
        first_non_space_at(s) == i,
    decreases s.len(),
{
    if s.len() == 0 {
    } else if !spec_is_space(s.first()) {
        assert(i == 0);
    } else {
        assert(i >= 1);
        lemma_first_non_space_at(s.drop_first(), i - 1);
    }
}

/// A scan that passed only non-whitespace stopped at the first space.
proof fn lemma_first_space_at(s: Seq<u8>, i: int)
    requires
        0 <= i <= s.len(),
        forall|j: int| 0 <= j < i ==> !spec_is_space(#[trigger] s[j]),
        i < s.len() ==> spec_is_space(s[i]),
    ensures
        first_space_at(s) == i,
    decreases s.len(),
{
    if s.len() == 0 {
    } else if spec_is_space(s.first()) {
        assert(i == 0);
    } else {
        assert(i >= 1);
        lemma_first_space_at(s.drop_first(), i - 1);
    }
}

/// A scan that found no marker before `i` and a match at `i` found the
/// first occurrence; a scan that found none at all leaves the marker out
/// of reach.
proof fn lemma_first_memtotal_at(s: Seq<u8>, i: int)
    requires
        0 <= i <= s.len(),
        forall|j: int| 0 <= j < i ==> !(#[trigger] memtotal_matches_at(s, j)),
        memtotal_matches_at(s, i) || i == s.len(),
    ensures
        memtotal_matches_at(s, i) ==> first_memtotal_at(s) == i,
        !memtotal_matches_at(s, i) ==> first_memtotal_at(s) + 9 > s.len(),
    decreases s.len(),
{
    if s.len() < 9 {
        assert(!memtotal_matches_at(s, i) ==> first_memtotal_at(s) + 9 > s.len());
    } else if s.take(9) == spec_memtotal_bytes() {
        assert(s.subrange(0int, 0int + 9) =~= s.take(9));
        assert(memtotal_matches_at(s, 0));
        assert(i == 0);
    } else {
        assert(s.subrange(0int, 0int + 9) =~= s.take(9));
        assert(!memtotal_matches_at(s, 0));
        assert(i >= 1);
        let t = s.drop_first();
        assert forall|j: int| 0 <= j < i - 1 implies !(#[trigger] memtotal_matches_at(t, j)) by {
            if j + 9 <= t.len() {
                assert(t.subrange(j, j + 9) =~= s.subrange(j + 1, (j + 1) + 9));
                assert(!memtotal_matches_at(s, j + 1));
            }
        }
        if memtotal_matches_at(s, i) {
            assert(t.subrange(i - 1, (i - 1) + 9) =~= s.subrange(i, i + 9));
            assert(memtotal_matches_at(t, i - 1));
        }
        lemma_first_memtotal_at(t, i - 1);
    }
}

/// Parses a node meminfo text and yields the KiB figure after the first
/// `MemTotal:` marker.
pub fn parse_meminfo_kb(bytes: &[u8]) -> (r: Option<usize>)
    ensures
        r == spec_meminfo_kb(bytes@),
{
    let n = bytes.len();
    let ghost pat = spec_memtotal_bytes();
    let marker = [0x4Du8, 0x65, 0x6D, 0x54, 0x6F, 0x74, 0x61, 0x6C, 0x3A];
    proof {
        assert(marker@ =~= pat);
    }
    // Find the first occurrence of the marker.
    let mut found = n;
    if n >= 9 {
        let mut i: usize = 0;
        while i <= n - 9 && found == n
            invariant
                n >= 9,
                i <= n - 9 + 1,
                n == bytes@.len(),
                marker@ == pat,
                pat == spec_memtotal_bytes(),
                found == n || memtotal_matches_at(bytes@, found as int),
                found == n ==> forall|j: int|
                    0 <= j < i ==> !(#[trigger] memtotal_matches_at(bytes@, j)),
                found < n ==> forall|j: int|
                    0 <= j < found ==> !(#[trigger] memtotal_matches_at(bytes@, j)),
            decreases n - i,
        {
            let mut k: usize = 0;
            let mut matched = true;
            while k < 9
                invariant
                    k <= 9,
                    i + 9 <= n,
                    n == bytes@.len(),
                    marker@ == pat,
                    pat == spec_memtotal_bytes(),
                    matched ==> forall|t: int| 0 <= t < k ==> bytes@[i + t] == pat[t],
                    !matched ==> bytes@.subrange(i as int, i + 9) != pat,
                decreases 9 - k,
            {
                if bytes[i + k] != marker[k] {
                    proof {
                        assert(bytes@.subrange(i as int, i + 9)[k as int] == bytes@[i + k]);
                    }
                    matched = false;
                }
                k = k + 1;
            }
            if matched {
                proof {
                    assert(bytes@.subrange(i as int, i + 9) =~= pat);
                    assert(memtotal_matches_at(bytes@, i as int));
                }
                found = i;
            } else {
                proof {
                    assert(!memtotal_matches_at(bytes@, i as int));
                }
            }
            i = i + 1;
        }
        proof {
            if found == n {
                assert forall|j: int| 0 <= j < n implies !(#[trigger] memtotal_matches_at(
                    bytes@,
                    j,
                )) by {
                    if memtotal_matches_at(bytes@, j) {
                        assert(j <= n - 9);
                        assert(j < i);
                    }
                }
                lemma_first_memtotal_at(bytes@, n as int);
            } else {
                lemma_first_memtotal_at(bytes@, found as int);
            }
        }
    } else {
        proof {
            assert(first_memtotal_at(bytes@) == n);
        }
    }
    if found == n {
        proof {
            assert(spec_meminfo_kb(bytes@) is None);
        }
        return None;
    }

    // Skip whitespace after the marker, then take the number token.
    let after = found + 9;
    let mut a = after;
    while a < n && (bytes[a] == 0x20 || bytes[a] == 0x09 || bytes[a] == 0x0A || bytes[a] == 0x0D)
        invariant
            after <= a <= n,
            n == bytes@.len(),
            forall|j: int| after <= j < a ==> spec_is_space(#[trigger] bytes@[j]),
        decreases n - a,
    {
        a = a + 1;
    }
    let mut e = a;
    while e < n && !(bytes[e] == 0x20 || bytes[e] == 0x09 || bytes[e] == 0x0A || bytes[e]
        == 0x0D)
        invariant
            a <= e <= n,
            n == bytes@.len(),
            forall|j: int| a <= j < e ==> !spec_is_space(#[trigger] bytes@[j]),
        decreases n - e,
    {
        e = e + 1;
    }
    proof {
        let rest = bytes@.skip(after as int);
        lemma_first_non_space_at(rest, a - after);
        let token = rest.skip(a - after);
        assert(token =~= bytes@.skip(a as int));
        lemma_first_space_at(token, e - a);
        assert(token.take(e - a) =~= bytes@.subrange(a as int, e as int));
    }
    parse_number_range(bytes, a, e)
}

} // verus!
