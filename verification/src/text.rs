//! Byte-level text helpers: trimming, comparison, splitting and decimal
//! numbers.  Header lines and bodies are handled as raw bytes throughout.

use vstd::prelude::*;

verus! {

/// ASCII whitespace: space and the control characters HT, LF, VT, FF, CR.
pub open spec fn is_ws(b: u8) -> bool {
    b == 0x20 || (0x09 <= b && b <= 0x0d)
}

/// `s` with its leading whitespace removed.
pub open spec fn trim_start_spec(s: Seq<u8>) -> Seq<u8>
    decreases s.len(),
{
    if s.len() > 0 && is_ws(s[0]) {
        trim_start_spec(s.skip(1))
    } else {
        s
    }
}

/// `s` with its trailing whitespace removed.
pub open spec fn trim_end_spec(s: Seq<u8>) -> Seq<u8>
    decreases s.len(),
{
    if s.len() > 0 && is_ws(s[s.len() - 1]) {
        trim_end_spec(s.take(s.len() - 1))
    } else {
        s
    }
}

/// `s` with whitespace removed at both ends.
pub open spec fn trim_spec(s: Seq<u8>) -> Seq<u8> {
    trim_end_spec(trim_start_spec(s))
}

proof fn lemma_trim_start_at(s: Seq<u8>, i: int)
    requires
        0 <= i <= s.len(),
        forall|k: int| 0 <= k < i ==> is_ws(s[k]),
        i == s.len() || !is_ws(s[i]),
    ensures
        trim_start_spec(s) == s.skip(i),
    decreases i,
{
    if i == 0 {
        assert(s.skip(0) == s);
    } else {
        assert(is_ws(s[0]));
        lemma_trim_start_at(s.skip(1), i - 1);
        assert(s.skip(1).skip(i - 1) == s.skip(i));
    }
}

proof fn lemma_trim_end_at(s: Seq<u8>, j: int)
    requires
        0 <= j <= s.len(),
        forall|k: int| j <= k < s.len() ==> is_ws(s[k]),
        j == 0 || !is_ws(s[j - 1]),
    ensures
        trim_end_spec(s) == s.take(j),
    decreases s.len() - j,
{
    if j == s.len() {
        assert(s.take(j) == s);
    } else {
        assert(is_ws(s[s.len() - 1]));
        lemma_trim_end_at(s.take(s.len() - 1), j);
        assert(s.take(s.len() - 1).take(j) == s.take(j));
    }
}

/// Exact whitespace test on one byte.
pub fn is_ws_byte(b: u8) -> (r: bool)
    ensures
        r == is_ws(b),
{
    b == 0x20 || (0x09 <= b && b <= 0x0d)
}

/// Copy of `s[from..to]`.
pub fn subvec(s: &[u8], from: usize, to: usize) -> (r: Vec<u8>)
    requires
        from <= to <= s@.len(),
    ensures
        r@ == s@.subrange(from as int, to as int),
{
    let mut r: Vec<u8> = Vec::new();
    let mut i: usize = from;
    while i < to
        invariant
            from <= i <= to <= s@.len(),
            r@ == s@.subrange(from as int, i as int),
        decreases to - i,
    {
        r.push(s[i]);
        i = i + 1;
        proof {
            assert(s@.subrange(from as int, i as int) == s@.subrange(
                from as int,
                i - 1,
            ).push(s@[i - 1]));
        }
    }
    r
}

/// `s` trimmed of ASCII whitespace at both ends.
pub fn trim(s: &[u8]) -> (r: Vec<u8>)
    ensures
        r@ == trim_spec(s@),
{
    let mut i: usize = 0;
    while i < s.len() && is_ws_byte(s[i])
        invariant
            0 <= i <= s@.len(),
            forall|k: int| 0 <= k < i ==> is_ws(s@[k]),
        decreases s@.len() - i,
    {
        i = i + 1;
    }
    let mut j: usize = s.len();
    while j > i && is_ws_byte(s[j - 1])
        invariant
            i <= j <= s@.len(),
            forall|k: int| j <= k < s@.len() ==> is_ws(s@[k]),
        decreases j,
    {
        j = j - 1;
    }
    proof {
        lemma_trim_start_at(s@, i as int);
        if j == i {
            // everything from i on is whitespace
            lemma_trim_end_at(s@.skip(i as int), 0);
        } else {
            lemma_trim_end_at(s@.skip(i as int), j - i);
        }
        assert(s@.skip(i as int).take(j - i) == s@.subrange(i as int, j as int));
    }
    subvec(s, i, j)
}

/// Exact byte-sequence equality.
pub fn bytes_eq(a: &[u8], b: &[u8]) -> (r: bool)
    ensures
        r == (a@ == b@),
{
    if a.len() != b.len() {
        proof {
            assert(a@ != b@);
        }
        return false;
    }
    let mut i: usize = 0;
    while i < a.len()
        invariant
            0 <= i <= a@.len(),
            a@.len() == b@.len(),
            forall|k: int| 0 <= k < i ==> a@[k] == b@[k],
        decreases a@.len() - i,
    {
        if a[i] != b[i] {
            proof {
                assert(a@ != b@);
            }
            return false;
        }
        i = i + 1;
    }
    proof {
        assert(a@ =~= b@);
    }
    true
}

/// Whether `p` is a prefix of `s`.
pub open spec fn has_prefix(s: Seq<u8>, p: Seq<u8>) -> bool {
    p.len() <= s.len() && s.subrange(0, p.len() as int) == p
}

/// Exact prefix test.
pub fn starts_with(s: &[u8], p: &[u8]) -> (r: bool)
    ensures
        r == has_prefix(s@, p@),
{
    if p.len() > s.len() {
        return false;
    }
    let mut i: usize = 0;
    while i < p.len()
        invariant
            0 <= i <= p@.len() <= s@.len(),
            forall|k: int| 0 <= k < i ==> s@[k] == p@[k],
        decreases p@.len() - i,
    {
        if s[i] != p[i] {
            proof {
                assert(s@.subrange(0, p@.len() as int)[i as int] != p@[i as int]);
            }
            return false;
        }
        i = i + 1;
    }
    proof {
        assert(s@.subrange(0, p@.len() as int) =~= p@);
    }
    true
}

/// The parts of `s` between occurrences of `sep`, in order, empty parts
/// kept: splitting `a::b` on `:` gives `a`, the empty part, `b`.
pub open spec fn split_spec(s: Seq<u8>, sep: u8) -> Seq<Seq<u8>>
    decreases s.len(),
{
    if s.len() == 0 {
        seq![Seq::<u8>::empty()]
    } else if s[0] == sep {
        seq![Seq::<u8>::empty()].add(split_spec(s.skip(1), sep))
    } else {
        let rest = split_spec(s.skip(1), sep);
        seq![seq![s[0]].add(rest[0])].add(rest.skip(1))
    }
}

proof fn lemma_split_nonempty(s: Seq<u8>, sep: u8)
    ensures
        split_spec(s, sep).len() >= 1,
    decreases s.len(),
{
    if s.len() > 0 {
        lemma_split_nonempty(s.skip(1), sep);
    }
}

/// What remains of the split while a suffix of the input is still to be
/// read: the parts already closed, then the open part glued onto the
/// split of the suffix.
spec fn split_state(
    done: Seq<Seq<u8>>,
    cur: Seq<u8>,
    rest: Seq<u8>,
    sep: u8,
) -> Seq<Seq<u8>> {
    done.add(seq![cur.add(split_spec(rest, sep)[0])].add(split_spec(rest, sep).skip(1)))
}

/// Split `s` at every occurrence of `sep`.
pub fn split_all(s: &[u8], sep: u8) -> (r: Vec<Vec<u8>>)
    ensures
        r@.map_values(|v: Vec<u8>| v@) == split_spec(s@, sep),
{
    let mut out: Vec<Vec<u8>> = Vec::new();
    let mut cur: Vec<u8> = Vec::new();
    let mut i: usize = 0;
    proof {
        lemma_split_nonempty(s@, sep);
        assert(s@.skip(0) == s@);
        assert(split_state(out@.map_values(|v: Vec<u8>| v@), cur@, s@.skip(0), sep) =~~= split_spec(
            s@,
            sep,
        ));
    }
    while i < s.len()
        invariant
            0 <= i <= s@.len(),
            split_spec(s@, sep) == split_state(
                out@.map_values(|v: Vec<u8>| v@),
                cur@,
                s@.skip(i as int),
                sep,
            ),
        decreases s@.len() - i,
    {
        let ghost out0 = out@.map_values(|v: Vec<u8>| v@);
        let ghost cur0 = cur@;
        let ghost prev = split_spec(s@.skip(i as int), sep);
        let ghost next = split_spec(s@.skip(i + 1), sep);
        proof {
            lemma_split_nonempty(s@.skip(i + 1), sep);
            assert(s@.skip(i as int).skip(1) =~= s@.skip(i + 1));
            assert(s@.skip(i as int)[0] == s@[i as int]);
        }
        let c = s[i];
        if c == sep {
            let done = cur;
            cur = Vec::new();
            out.push(done);
            proof {
                assert(prev =~~= seq![Seq::<u8>::empty()].add(next));
                assert(prev.skip(1) =~~= next);
                assert(out@.map_values(|v: Vec<u8>| v@) =~~= out0.push(cur0));
                assert(cur0.add(prev[0]) =~= cur0);
                assert(split_state(out0, cur0, s@.skip(i as int), sep) =~~= split_state(
                    out@.map_values(|v: Vec<u8>| v@),
                    cur@,
                    s@.skip(i + 1),
                    sep,
                ));
            }
        } else {
            cur.push(c);
            proof {
                assert(prev =~~= seq![seq![c].add(next[0])].add(next.skip(1)));
                assert(prev.skip(1) =~~= next.skip(1));
                assert(cur0.add(prev[0]) =~= cur@.add(next[0]));
                assert(split_state(out0, cur0, s@.skip(i as int), sep) =~~= split_state(
                    out@.map_values(|v: Vec<u8>| v@),
                    cur@,
                    s@.skip(i + 1),
                    sep,
                ));
            }
        }
        i = i + 1;
    }
    let ghost out0 = out@.map_values(|v: Vec<u8>| v@);
    let ghost cur0 = cur@;
    let last = cur;
    out.push(last);
    proof {
        assert(s@.skip(i as int) =~= Seq::<u8>::empty());
        assert(split_spec(Seq::<u8>::empty(), sep) =~~= seq![Seq::<u8>::empty()]);
        assert(out@.map_values(|v: Vec<u8>| v@) =~~= out0.push(cur0));
        assert(split_state(out0, cur0, s@.skip(i as int), sep) =~~= out0.push(cur0));
        assert(out@.map_values(|v: Vec<u8>| v@) =~~= split_spec(s@, sep));
    }
    out
}

/// The whitespace-separated tokens of `s`, in order; separators of any
/// length are collapsed and no token is empty.
pub open spec fn tokens_spec(s: Seq<u8>) -> Seq<Seq<u8>>
    decreases s.len(),
{
    if s.len() == 0 {
        Seq::<Seq<u8>>::empty()
    } else if is_ws(s[0]) {
        tokens_spec(s.skip(1))
    } else {
        let rest = tokens_spec(s.skip(1));
        if s.len() > 1 && !is_ws(s[1]) {
            seq![seq![s[0]].add(rest[0])].add(rest.skip(1))
        } else {
            seq![seq![s[0]]].add(rest)
        }
    }
}

proof fn lemma_tokens_head(s: Seq<u8>)
    requires
        s.len() > 0,
        !is_ws(s[0]),
    ensures
        tokens_spec(s).len() >= 1,
    decreases s.len(),
{
    if s.len() > 1 && !is_ws(s[1]) {
        lemma_tokens_head(s.skip(1));
    }
}

/// What remains of the tokenization while a suffix is still to be read:
/// the tokens already closed, then the open token glued onto the tokens
/// of the suffix.
spec fn token_state(done: Seq<Seq<u8>>, cur: Seq<u8>, rest: Seq<u8>) -> Seq<Seq<u8>> {
    if cur.len() == 0 {
        done.add(tokens_spec(rest))
    } else if rest.len() > 0 && !is_ws(rest[0]) {
        done.add(seq![cur.add(tokens_spec(rest)[0])].add(tokens_spec(rest).skip(1)))
    } else {
        done.add(seq![cur].add(tokens_spec(rest)))
    }
}

/// The whitespace-separated tokens of `s`.
pub fn split_ws(s: &[u8]) -> (r: Vec<Vec<u8>>)
    ensures
        r@.map_values(|v: Vec<u8>| v@) == tokens_spec(s@),
{
    let mut out: Vec<Vec<u8>> = Vec::new();
    let mut cur: Vec<u8> = Vec::new();
    let mut i: usize = 0;
    proof {
        assert(s@.skip(0) == s@);
        assert(token_state(out@.map_values(|v: Vec<u8>| v@), cur@, s@.skip(0)) =~~= tokens_spec(
            s@,
        ));
    }
    while i < s.len()
        invariant
            0 <= i <= s@.len(),
            tokens_spec(s@) == token_state(out@.map_values(|v: Vec<u8>| v@), cur@, s@.skip(
                i as int,
            )),
        decreases s@.len() - i,
    {
        let ghost out0 = out@.map_values(|v: Vec<u8>| v@);
        let ghost cur0 = cur@;
        let ghost rest_i = s@.skip(i as int);
        let ghost rest_n = s@.skip(i + 1);
        proof {
            assert(rest_i.skip(1) =~= rest_n);
            assert(rest_i[0] == s@[i as int]);
            if rest_n.len() > 0 && !is_ws(rest_n[0]) {
                lemma_tokens_head(rest_n);
            }
        }
        let c = s[i];
        if is_ws_byte(c) {
            if cur.len() > 0 {
                let done = cur;
                cur = Vec::new();
                out.push(done);
                proof {
                    assert(out@.map_values(|v: Vec<u8>| v@) =~~= out0.push(cur0));
                    assert(token_state(out0, cur0, rest_i) =~~= token_state(
                        out@.map_values(|v: Vec<u8>| v@),
                        cur@,
                        rest_n,
                    ));
                }
            } else {
                proof {
                    assert(token_state(out0, cur0, rest_i) =~~= token_state(out0, cur0, rest_n));
                }
            }
        } else {
            cur.push(c);
            proof {
                let rest = tokens_spec(rest_n);
                if rest_i.len() > 1 && !is_ws(rest_i[1]) {
                    assert(tokens_spec(rest_i) =~~= seq![seq![c].add(rest[0])].add(rest.skip(1)));
                } else {
                    assert(tokens_spec(rest_i) =~~= seq![seq![c]].add(rest));
                }
                if cur0.len() > 0 {
                    assert(cur0.add(tokens_spec(rest_i)[0]) =~= cur@.add(
                        if rest_n.len() > 0 && !is_ws(rest_n[0]) {
                            rest[0]
                        } else {
                            Seq::<u8>::empty()
                        },
                    ));
                }
                assert(token_state(out0, cur0, rest_i) =~~= token_state(
                    out@.map_values(|v: Vec<u8>| v@),
                    cur@,
                    rest_n,
                ));
            }
        }
        i = i + 1;
    }
    let ghost out0 = out@.map_values(|v: Vec<u8>| v@);
    let ghost cur0 = cur@;
    proof {
        assert(s@.skip(i as int) =~= Seq::<u8>::empty());
        assert(tokens_spec(Seq::<u8>::empty()) =~~= Seq::<Seq<u8>>::empty());
    }
    if cur.len() > 0 {
        let last = cur;
        out.push(last);
        proof {
            assert(out@.map_values(|v: Vec<u8>| v@) =~~= out0.push(cur0));
            assert(token_state(out0, cur0, Seq::<u8>::empty()) =~~= out0.push(cur0));
        }
    } else {
        proof {
            assert(token_state(out0, cur0, Seq::<u8>::empty()) =~~= out0);
        }
    }
    proof {
        assert(out@.map_values(|v: Vec<u8>| v@) =~~= tokens_spec(s@));
    }
    out
}

/// Copy one byte sequence.
pub fn copy_bytes(v: &[u8]) -> (r: Vec<u8>)
    ensures
        r@ == v@,
{
    let r = subvec(v, 0, v.len());
    proof {
        assert(v@.subrange(0, v@.len() as int) == v@);
    }
    r
}

/// The position of the first occurrence of `b` in `s`, if any.
pub open spec fn first_index_of(s: Seq<u8>, b: u8) -> Option<int>
    decreases s.len(),
{
    if s.len() == 0 {
        None
    } else if s[0] == b {
        Some(0)
    } else {
        match first_index_of(s.skip(1), b) {
            Some(i) => Some(i + 1),
            None => None,
        }
    }
}

proof fn lemma_first_index_at(s: Seq<u8>, i: int, b: u8)
    requires
        0 <= i <= s.len(),
        forall|k: int| 0 <= k < i ==> s[k] != b,
        i == s.len() || s[i] == b,
    ensures
        first_index_of(s, b) == if i == s.len() {
            Option::<int>::None
        } else {
            Option::<int>::Some(i)
        },
    decreases i,
{
    if i > 0 {
        lemma_first_index_at(s.skip(1), i - 1, b);
    }
}

/// Find the first occurrence of `b` in `s`.
pub fn find_byte(s: &[u8], b: u8) -> (r: Option<usize>)
    ensures
        match r {
            Some(i) => i < s@.len() && s@[i as int] == b && first_index_of(s@, b) == Some(
                i as int,
            ),
            None => first_index_of(s@, b) is None,
        },
{
    let mut i: usize = 0;
    while i < s.len()
        invariant
            0 <= i <= s@.len(),
            forall|k: int| 0 <= k < i ==> s@[k] != b,
        decreases s@.len() - i,
    {
        if s[i] == b {
            proof {
                lemma_first_index_at(s@, i as int, b);
            }
            return Some(i);
        }
        i = i + 1;
    }
    proof {
        lemma_first_index_at(s@, i as int, b);
    }
    None
}

/// The byte sequences behind a vector of byte vectors.
pub open spec fn views_of(lines: Seq<Vec<u8>>) -> Seq<Seq<u8>> {
    lines.map_values(|v: Vec<u8>| v@)
}

/// ASCII decimal digit.
pub open spec fn is_digit(b: u8) -> bool {
    0x30 <= b && b <= 0x39
}

/// Numeric value of a string of digits, most significant first.
pub open spec fn dec_value(s: Seq<u8>) -> nat
    decreases s.len(),
{
    if s.len() == 0 {
        0
    } else {
        dec_value(s.take(s.len() - 1)) * 10 + (s[s.len() - 1] - 0x30) as nat
    }
}

/// Whether `s` is one or more decimal digits.
pub open spec fn all_digits(s: Seq<u8>) -> bool {
    s.len() > 0 && forall|k: int| 0 <= k < s.len() ==> is_digit(s[k])
}

/// The number that `usize` parsing accepts for `s`: an optional leading
/// `+`, then digits, with a value that fits the machine word.
pub open spec fn parse_usize_spec(s: Seq<u8>) -> Option<nat> {
    let t = if s.len() > 0 && s[0] == 0x2b {
        s.skip(1)
    } else {
        s
    };
    if all_digits(t) && dec_value(t) <= usize::MAX {
        Some(dec_value(t))
    } else {
        None
    }
}

proof fn lemma_dec_value_grows(s: Seq<u8>, i: int)
    requires
        0 <= i <= s.len(),
        all_digits(s),
    ensures
        dec_value(s.take(i)) <= dec_value(s),
    decreases s.len() - i,
{
    if i < s.len() {
        lemma_dec_value_grows(s, i + 1);
        assert(s.take(i + 1).take(i) == s.take(i));
        assert(dec_value(s.take(i + 1)) == dec_value(s.take(i)) * 10 + (s[i] - 0x30));
    } else {
        assert(s.take(i) == s);
    }
}

/// Parse a decimal `usize`; `None` on an empty, non-numeric or
/// overflowing input.
pub fn parse_usize(s: &[u8]) -> (r: Option<usize>)
    ensures
        match r {
            Some(n) => parse_usize_spec(s@) == Some(n as nat),
            None => parse_usize_spec(s@) is None,
        },
{
    let mut start: usize = 0;
    if s.len() > 0 && s[0] == 0x2b {
        start = 1;
    }
    let ghost t = if s@.len() > 0 && s@[0] == 0x2b {
        s@.skip(1)
    } else {
        s@
    };
    if s.len() == start {
        return None;
    }
    let mut acc: usize = 0;
    let mut i: usize = start;
    while i < s.len()
        invariant
            start <= i <= s@.len(),
            start == if s@.len() > 0 && s@[0] == 0x2b {
                1int
            } else {
                0int
            },
            t == s@.skip(start as int),
            forall|k: int| start <= k < i ==> is_digit(s@[k]),
            acc as nat == dec_value(t.take(i - start)),
        decreases s@.len() - i,
    {
        let c = s[i];
        if !(0x30 <= c && c <= 0x39) {
            proof {
                assert(t[i - start] == s@[i as int]);
                assert(!all_digits(t));
            }
            return None;
        }
        let d = (c - 0x30) as usize;
        proof {
            assert(t.take(i + 1 - start).take(i - start) == t.take(i - start));
            assert(t.take(i + 1 - start)[i - start] == s@[i as int]);
            assert(dec_value(t.take(i + 1 - start)) == dec_value(t.take(i - start)) * 10 + (c
                - 0x30));
        }
        let step = match acc.checked_mul(10) {
            Some(x) => x.checked_add(d),
            None => None,
        };
        match step {
            Some(v) => {
                acc = v;
            },
            None => {
                // The true value already exceeds the machine word here,
                // and further digits only increase it.
                proof {
                    assert(dec_value(t.take(i + 1 - start)) > usize::MAX);
                    if all_digits(t) {
                        lemma_dec_value_grows(t, i + 1 - start);
                        assert(dec_value(t) > usize::MAX);
                    }
                    assert(!(all_digits(t) && dec_value(t) <= usize::MAX));
                    assert(parse_usize_spec(s@) is None) by {
                        let tt = if s@.len() > 0 && s@[0] == 0x2b {
                            s@.skip(1)
                        } else {
                            s@
                        };
                        assert(tt == t);
                        assert(!(all_digits(tt) && dec_value(tt) <= usize::MAX));
                    };
                }
                return None;
            },
        }
        i = i + 1;
    }
    proof {
        assert(t.take(i - start) == t);
        assert(all_digits(t));
    }
    Some(acc)
}

/// The decimal digits of `n`, most significant first, no sign and no
/// leading zero except for the number zero itself.
pub open spec fn dec_digits(n: nat) -> Seq<u8>
    decreases n,
{
    if n < 10 {
        seq![(0x30 + n) as u8]
    } else {
        dec_digits(n / 10).add(seq![(0x30 + n % 10) as u8])
    }
}

/// Render `n` in decimal.
pub fn usize_to_dec(n: usize) -> (r: Vec<u8>)
    ensures
        r@ == dec_digits(n as nat),
{
    if n == 0 {
        let mut out: Vec<u8> = Vec::new();
        out.push(0x30);
        proof {
            assert(dec_digits(0) =~= seq![0x30u8]);
            assert(out@ =~= seq![0x30u8]);
        }
        return out;
    }
    let mut rev: Vec<u8> = Vec::new();
    let mut cur: usize = n;
    proof {
        assert(rev@.reverse() =~= Seq::<u8>::empty());
        assert(dec_digits(n as nat) =~= dec_digits(n as nat).add(rev@.reverse()));
    }
    while cur > 0
        invariant
            (cur > 0 && dec_digits(n as nat) == dec_digits(cur as nat).add(rev@.reverse())) || (
            cur == 0 && dec_digits(n as nat) == rev@.reverse()),
        decreases cur,
    {
        let d = (cur % 10) as u8;
        let next = cur / 10;
        rev.push(0x30 + d);
        proof {
            assert(rev@.reverse() =~= seq![(0x30 + d) as u8].add(rev@.subrange(
                0,
                rev@.len() - 1,
            ).reverse()));
            if cur >= 10 {
                assert(dec_digits(cur as nat) == dec_digits((cur / 10) as nat).add(
                    seq![(0x30 + (cur % 10) as nat) as u8],
                ));
                assert(dec_digits(cur as nat).add(rev@.subrange(0, rev@.len() - 1).reverse())
                    =~= dec_digits(next as nat).add(rev@.reverse()));
            } else {
                assert(dec_digits(cur as nat) =~= seq![(0x30 + d) as u8]);
                assert(dec_digits(cur as nat).add(rev@.subrange(0, rev@.len() - 1).reverse())
                    =~= rev@.reverse());
            }
        }
        cur = next;
    }
    let mut out: Vec<u8> = Vec::new();
    let mut i: usize = rev.len();
    while i > 0
        invariant
            0 <= i <= rev@.len(),
            out@ == rev@.subrange(i as int, rev@.len() as int).reverse(),
        decreases i,
    {
        i = i - 1;
        out.push(rev[i]);
        proof {
            assert(rev@.subrange(i as int, rev@.len() as int).reverse() =~= rev@.subrange(
                i + 1,
                rev@.len() as int,
            ).reverse().push(rev@[i as int]));
        }
    }
    proof {
        assert(rev@.subrange(0, rev@.len() as int) == rev@);
    }
    out
}

} // verus!
