//! Character-sequence utilities shared by the encoder, decoder and classifier:
//! whitespace trimming, NUL stripping, line-ending handling, substring search
//! and line splitting, each specified over `Seq<char>`.

use vstd::prelude::*;

verus! {

/// A character with the Unicode `White_Space` property; these are the
/// characters that trimming removes from the ends of a decoded stream.
pub open spec fn is_space(c: char) -> bool {
    let u = c as u32;
    ||| (0x09 <= u && u <= 0x0D)
    ||| u == 0x20
    ||| u == 0x85
    ||| u == 0xA0
    ||| u == 0x1680
    ||| (0x2000 <= u && u <= 0x200A)
    ||| u == 0x2028
    ||| u == 0x2029
    ||| u == 0x202F
    ||| u == 0x205F
    ||| u == 0x3000
}

pub fn is_space_char(c: char) -> (r: bool)
    ensures
        r == is_space(c),
{
    let u = c as u32;
    (0x09 <= u && u <= 0x0D) || u == 0x20 || u == 0x85 || u == 0xA0 || u == 0x1680 || (0x2000 <= u
        && u <= 0x200A) || u == 0x2028 || u == 0x2029 || u == 0x202F || u == 0x205F || u == 0x3000
}

/// The sequence with leading whitespace removed.
pub open spec fn trim_front(s: Seq<char>) -> Seq<char>
    decreases s.len(),
{
    if s.len() > 0 && is_space(s[0]) {
        trim_front(s.drop_first())
    } else {
        s
    }
}

/// The sequence with trailing whitespace removed.
pub open spec fn trim_back(s: Seq<char>) -> Seq<char>
    decreases s.len(),
{
    if s.len() > 0 && is_space(s.last()) {
        trim_back(s.drop_last())
    } else {
        s
    }
}

/// The sequence with surrounding whitespace removed.
pub open spec fn trimmed(s: Seq<char>) -> Seq<char> {
    trim_back(trim_front(s))
}

proof fn lemma_trim_front_skip(s: Seq<char>, i: int)
    requires
        0 <= i <= s.len(),
        forall|j: int| 0 <= j < i ==> is_space(s[j]),
    ensures
        trim_front(s) == trim_front(s.skip(i)),
    decreases i,
{
    if i > 0 {
        assert(s.skip(i - 1).drop_first() =~= s.skip(i));
        lemma_trim_front_skip(s, i - 1);
    } else {
        assert(s.skip(0) =~= s);
    }
}

proof fn lemma_trim_back_take(s: Seq<char>, i: int)
    requires
        0 <= i <= s.len(),
        forall|j: int| i <= j < s.len() ==> is_space(s[j]),
    ensures
        trim_back(s) == trim_back(s.take(i)),
    decreases s.len() - i,
{
    if i < s.len() {
        assert(s.take(i + 1).drop_last() =~= s.take(i));
        lemma_trim_back_take(s, i + 1);
        assert(s.take(s.len() as int) =~= s);
    } else {
        assert(s.take(i) =~= s);
    }
}

pub fn trim_chars(s: &Vec<char>) -> (r: Vec<char>)
    ensures
        r@ == trimmed(s@),
{
    let n = s.len();
    let mut start: usize = 0;
    while start < n && is_space_char(s[start])
        invariant
            n == s@.len(),
            start <= n,
            forall|j: int| 0 <= j < start ==> is_space(s@[j]),
        decreases n - start,
    {
        start += 1;
    }
    proof {
        lemma_trim_front_skip(s@, start as int);
        // at exit the remainder is empty or begins with a non-space
        assert(trim_front(s@.skip(start as int)) == s@.skip(start as int));
    }
    let mut end: usize = n;
    while end > start && is_space_char(s[end - 1])
        invariant
            n == s@.len(),
            start <= end <= n,
            forall|j: int| end <= j < n ==> is_space(s@[j]),
        decreases end,
    {
        end -= 1;
    }
    proof {
        let t = s@.skip(start as int);
        lemma_trim_back_take(t, end - start);
        assert(trim_back(t.take(end - start)) == t.take(end - start));
        assert(t.take(end - start) =~= s@.subrange(start as int, end as int));
    }
    let mut r: Vec<char> = Vec::new();
    let mut i: usize = start;
    while i < end
        invariant
            start <= i <= end <= n,
            n == s@.len(),
            r@ =~= s@.subrange(start as int, i as int),
        decreases end - i,
    {
        r.push(s[i]);
        i += 1;
    }
    proof {
        assert(r@ =~= s@.subrange(start as int, end as int));
    }
    r
}

/// The sequence with every NUL character removed.
pub open spec fn without_nuls(s: Seq<char>) -> Seq<char>
    decreases s.len(),
{
    if s.len() == 0 {
        s
    } else if s[0] == '\0' {
        without_nuls(s.drop_first())
    } else {
        seq![s[0]] + without_nuls(s.drop_first())
    }
}

pub fn strip_nul_chars(s: &Vec<char>) -> (r: Vec<char>)
    ensures
        r@ == without_nuls(s@),
{
    let n = s.len();
    let mut r: Vec<char> = Vec::new();
    let mut i: usize = 0;
    proof {
        assert(s@.skip(0) =~= s@);
    }
    while i < n
        invariant
            i <= n,
            n == s@.len(),
            without_nuls(s@) == r@ + without_nuls(s@.skip(i as int)),
        decreases n - i,
    {
        let c = s[i];
        proof {
            assert(s@.skip(i as int).drop_first() =~= s@.skip(i + 1));
            assert(s@.skip(i as int)[0] == s@[i as int]);
        }
        if c != '\0' {
            let ghost prev = r@;
            r.push(c);
            proof {
                assert(prev + (seq![c] + without_nuls(s@.skip(i + 1))) =~= r@ + without_nuls(
                    s@.skip(i + 1),
                ));
            }
        }
        i += 1;
    }
    proof {
        assert(without_nuls(s@.skip(n as int)) =~= Seq::<char>::empty());
        assert(r@ + Seq::<char>::empty() =~= r@);
    }
    r
}

/// The sequence with every CRLF pair replaced by a single LF.
pub open spec fn crlf_collapsed(s: Seq<char>) -> Seq<char>
    decreases s.len(),
{
    if s.len() >= 2 && s[0] == '\r' && s[1] == '\n' {
        seq!['\n'] + crlf_collapsed(s.skip(2))
    } else if s.len() >= 1 {
        seq![s[0]] + crlf_collapsed(s.drop_first())
    } else {
        s
    }
}

pub fn collapse_crlf_chars(s: &Vec<char>) -> (r: Vec<char>)
    ensures
        r@ == crlf_collapsed(s@),
{
    let n = s.len();
    let mut r: Vec<char> = Vec::new();
    let mut i: usize = 0;
    proof {
        assert(s@.skip(0) =~= s@);
    }
    while i < n
        invariant
            i <= n,
            n == s@.len(),
            crlf_collapsed(s@) == r@ + crlf_collapsed(s@.skip(i as int)),
        decreases n - i,
    {
        let ghost prev = r@;
        let ghost tail = s@.skip(i as int);
        proof {
            assert(tail[0] == s@[i as int]);
            assert(tail.drop_first() =~= s@.skip(i + 1));
        }
        if s[i] == '\r' && i + 1 < n && s[i + 1] == '\n' {
            proof {
                assert(tail[1] == s@[i + 1]);
                assert(tail.skip(2) =~= s@.skip(i + 2));
            }
            r.push('\n');
            i += 2;
            proof {
                assert(prev + (seq!['\n'] + crlf_collapsed(s@.skip(i as int))) =~= r@
                    + crlf_collapsed(s@.skip(i as int)));
            }
        } else {
            r.push(s[i]);
            i += 1;
            proof {
                assert(prev + (seq![tail[0]] + crlf_collapsed(s@.skip(i as int))) =~= r@
                    + crlf_collapsed(s@.skip(i as int)));
            }
        }
    }
    proof {
        assert(crlf_collapsed(s@.skip(n as int)) =~= Seq::<char>::empty());
        assert(r@ + Seq::<char>::empty() =~= r@);
    }
    r
}

/// The sequence with every line break normalized to CRLF: a lone LF becomes
/// CRLF, an existing CRLF is kept as it is (not doubled), and any other
/// character — a stray CR included — is kept verbatim.
pub open spec fn crlf_normalized(s: Seq<char>) -> Seq<char>
    decreases s.len(),
{
    if s.len() >= 2 && s[0] == '\r' && s[1] == '\n' {
        seq!['\r', '\n'] + crlf_normalized(s.skip(2))
    } else if s.len() >= 1 && s[0] == '\n' {
        seq!['\r', '\n'] + crlf_normalized(s.drop_first())
    } else if s.len() >= 1 {
        seq![s[0]] + crlf_normalized(s.drop_first())
    } else {
        s
    }
}

pub fn normalize_crlf_chars(s: &Vec<char>) -> (r: Vec<char>)
    ensures
        r@ == crlf_normalized(s@),
{
    let n = s.len();
    let mut r: Vec<char> = Vec::new();
    let mut i: usize = 0;
    proof {
        assert(s@.skip(0) =~= s@);
    }
    while i < n
        invariant
            i <= n,
            n == s@.len(),
            crlf_normalized(s@) == r@ + crlf_normalized(s@.skip(i as int)),
        decreases n - i,
    {
        let ghost prev = r@;
        let ghost tail = s@.skip(i as int);
        proof {
            assert(tail[0] == s@[i as int]);
            assert(tail.drop_first() =~= s@.skip(i + 1));
        }
        if s[i] == '\r' && i + 1 < n && s[i + 1] == '\n' {
            proof {
                assert(tail[1] == s@[i + 1]);
                assert(tail.skip(2) =~= s@.skip(i + 2));
            }
            r.push('\r');
            r.push('\n');
            i += 2;
            proof {
                assert(prev + (seq!['\r', '\n'] + crlf_normalized(s@.skip(i as int))) =~= r@
                    + crlf_normalized(s@.skip(i as int)));
            }
        } else if s[i] == '\n' {
            r.push('\r');
            r.push('\n');
            i += 1;
            proof {
                assert(prev + (seq!['\r', '\n'] + crlf_normalized(s@.skip(i as int))) =~= r@
                    + crlf_normalized(s@.skip(i as int)));
            }
        } else {
            r.push(s[i]);
            i += 1;
            proof {
                assert(prev + (seq![tail[0]] + crlf_normalized(s@.skip(i as int))) =~= r@
                    + crlf_normalized(s@.skip(i as int)));
            }
        }
    }
    proof {
        assert(crlf_normalized(s@.skip(n as int)) =~= Seq::<char>::empty());
        assert(r@ + Seq::<char>::empty() =~= r@);
    }
    r
}

/// The pattern occurs in `s` starting at position `i`.
pub open spec fn matches_at(s: Seq<char>, pat: Seq<char>, i: int) -> bool {
    0 <= i && i + pat.len() <= s.len() && s.subrange(i, i + pat.len()) == pat
}

/// The pattern occurs somewhere in `s`.
pub open spec fn has_substring(s: Seq<char>, pat: Seq<char>) -> bool {
    exists|i: int| matches_at(s, pat, i)
}

pub fn contains_pattern(s: &Vec<char>, pat: &Vec<char>) -> (r: bool)
    ensures
        r == has_substring(s@, pat@),
{
    let n = s.len();
    let plen = pat.len();
    if plen > n {
        proof {
            assert(forall|k: int| !matches_at(s@, pat@, k));
        }
        return false;
    }
    if plen == 0 {
        proof {
            assert(s@.subrange(0, 0) =~= pat@);
            assert(matches_at(s@, pat@, 0));
        }
        return true;
    }
    let mut i: usize = 0;
    while i <= n - plen
        invariant
            n == s@.len(),
            plen == pat@.len(),
            0 < plen <= n,
            i <= n - plen + 1,
            forall|k: int| 0 <= k < i ==> !matches_at(s@, pat@, k),
        decreases n - i,
    {
        let mut j: usize = 0;
        let mut same = true;
        while same && j < plen
            invariant
                n == s@.len(),
                plen == pat@.len(),
                i + plen <= n,
                j <= plen,
                same ==> forall|m: int| 0 <= m < j ==> s@[i + m] == pat@[m],
                !same ==> !matches_at(s@, pat@, i as int),
            decreases plen - j, (if same { 1int } else { 0int }),
        {
            if s[i + j] != pat[j] {
                proof {
                    let w = j as int;
                    assert(matches_at(s@, pat@, i as int) ==> s@.subrange(
                        i as int,
                        i + plen,
                    )[w] == pat@[w]);
                }
                same = false;
            } else {
                j += 1;
            }
        }
        if same {
            proof {
                assert(s@.subrange(i as int, i + plen) =~= pat@);
                assert(matches_at(s@, pat@, i as int));
            }
            return true;
        }
        i += 1;
    }
    proof {
        assert(forall|k: int| i <= k ==> k + plen > n && !matches_at(s@, pat@, k));
    }
    false
}

/// Position of the first LF in the sequence, or its length when it has none.
pub open spec fn line_break_at(s: Seq<char>) -> nat
    decreases s.len(),
{
    if s.len() == 0 {
        0
    } else if s[0] == '\n' {
        0
    } else {
        1 + line_break_at(s.drop_first())
    }
}

/// The lines of a decoded report, split on LF.  Mirroring how callers iterate
/// over lines, an empty report has no lines and a trailing LF opens no empty
/// final line.
pub open spec fn split_lines(s: Seq<char>) -> Seq<Seq<char>>
    decreases s.len(),
{
    if s.len() == 0 {
        Seq::empty()
    } else {
        let k = line_break_at(s) as int;
        if k >= s.len() {
            seq![s]
        } else {
            seq![s.take(k)] + split_lines(s.skip(k + 1))
        }
    }
}

proof fn lemma_line_break_at(s: Seq<char>, k: int)
    requires
        0 <= k <= s.len(),
        forall|m: int| 0 <= m < k ==> s[m] != '\n',
        k < s.len() ==> s[k] == '\n',
    ensures
        line_break_at(s) == k,
    decreases k,
{
    if s.len() == 0 {
    } else if k == 0 {
    } else {
        lemma_line_break_at(s.drop_first(), k - 1);
    }
}

pub fn split_lines_chars(s: &Vec<char>) -> (r: Vec<Vec<char>>)
    ensures
        r@.len() == split_lines(s@).len(),
        forall|k: int| 0 <= k < r@.len() ==> r@[k]@ == split_lines(s@)[k],
{
    let n = s.len();
    let mut r: Vec<Vec<char>> = Vec::new();
    let mut i: usize = 0;
    proof {
        assert(s@.skip(0) =~= s@);
    }
    while i < n
        invariant
            i <= n,
            n == s@.len(),
            split_lines(s@).len() == r@.len() + split_lines(s@.skip(i as int)).len(),
            forall|k: int| 0 <= k < r@.len() ==> r@[k]@ == split_lines(s@)[k],
            forall|k: int|
                0 <= k < split_lines(s@.skip(i as int)).len() ==> split_lines(s@.skip(i as int))[k]
                    == split_lines(s@)[r@.len() + k],
        decreases n - i,
    {
        let ghost tail = s@.skip(i as int);
        let ghost tail_lines = split_lines(tail);
        let mut j: usize = i;
        while j < n && s[j] != '\n'
            invariant
                i <= j <= n,
                n == s@.len(),
                forall|m: int| i <= m < j ==> s@[m] != '\n',
            decreases n - j,
        {
            j += 1;
        }
        proof {
            assert(forall|m: int| 0 <= m < j - i ==> tail[m] == s@[i + m] && tail[m] != '\n');
            if j < n {
                assert(tail[j - i] == s@[j as int]);
            }
            lemma_line_break_at(tail, j - i);
        }
        let mut line: Vec<char> = Vec::new();
        let mut m: usize = i;
        while m < j
            invariant
                i <= m <= j <= n,
                n == s@.len(),
                line@ =~= s@.subrange(i as int, m as int),
            decreases j - m,
        {
            line.push(s[m]);
            m += 1;
        }
        let ghost old_r = r@;
        let ghost start = i as int;
        r.push(line);
        if j < n {
            i = j + 1;
        } else {
            i = n;
        }
        proof {
            let rest = s@.skip(i as int);
            let k = j - start;
            if j < n {
                // the tail splits into the line just read and what follows the LF
                assert(line@ =~= tail.take(k));
                assert(tail.skip(k + 1) =~= rest);
                assert(tail_lines == seq![tail.take(k)] + split_lines(tail.skip(k + 1)));
            } else {
                assert(line@ =~= tail);
                assert(rest.len() == 0);
                assert(tail_lines == seq![tail]);
            }
            assert(tail_lines.len() == 1 + split_lines(rest).len());
            assert(tail_lines[0] == line@);
            assert(forall|w: int|
                0 <= w < split_lines(rest).len() ==> split_lines(rest)[w] == tail_lines[w + 1]);
            assert(forall|w: int| 0 <= w < r@.len() ==> r@[w]@ == split_lines(s@)[w]) by {
                assert(r@[old_r.len() as int]@ == tail_lines[0]);
                assert(forall|w: int| 0 <= w < old_r.len() ==> r@[w] == old_r[w]);
            }
        }
    }
    proof {
        assert(s@.skip(n as int).len() == 0);
        assert(split_lines(s@.skip(n as int)).len() == 0);
    }
    r
}

/// Relies on `str::chars`: the characters of a string slice, in order.
#[verifier::external_body]
pub(crate) fn chars_of_str(s: &str) -> (r: Vec<char>)
    ensures
        r@ == s@,
{
    s.chars().collect()
}

/// Relies on `String`'s `FromIterator` impl: collecting characters yields the
/// string of exactly those characters.
#[verifier::external_body]
pub(crate) fn string_from_chars(v: &Vec<char>) -> (r: String)
    ensures
        r@ == v@,
{
    v.iter().collect()
}

} // verus!
