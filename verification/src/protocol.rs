//! The wire protocol: one request per line.
//!
//! A line is stripped of trailing CR/LF; an empty result is no request at
//! all. For the memory-hard backend a line may carry a selector before the
//! first `|`; the selector is trimmed of surrounding whitespace, and an empty
//! one counts as absent. Everything after the first `|` is the preimage,
//! verbatim. Other backends take the whole line as the preimage.

use vstd::prelude::*;

verus! {

/// The selector/preimage separator, `|`.
pub const SEPARATOR: u8 = 124;

/// ASCII whitespace: space, tab, carriage return, line feed.
pub open spec fn is_space(b: u8) -> bool {
    b == 32 || b == 9 || b == 13 || b == 10
}

/// A line terminator byte: carriage return or line feed.
pub open spec fn is_line_end(b: u8) -> bool {
    b == 13 || b == 10
}

/// The line with every trailing CR/LF byte removed.
pub open spec fn strip_spec(s: Seq<u8>) -> Seq<u8>
    decreases s.len(),
{
    if s.len() > 0 && is_line_end(s[s.len() - 1]) {
        strip_spec(s.drop_last())
    } else {
        s
    }
}

/// The sequence with leading whitespace removed.
pub open spec fn trim_front_spec(s: Seq<u8>) -> Seq<u8>
    decreases s.len(),
{
    if s.len() > 0 && is_space(s[0]) {
        trim_front_spec(s.drop_first())
    } else {
        s
    }
}

/// The sequence with trailing whitespace removed.
pub open spec fn trim_back_spec(s: Seq<u8>) -> Seq<u8>
    decreases s.len(),
{
    if s.len() > 0 && is_space(s[s.len() - 1]) {
        trim_back_spec(s.drop_last())
    } else {
        s
    }
}

/// The sequence with surrounding whitespace removed.
pub open spec fn trim_spec(s: Seq<u8>) -> Seq<u8> {
    trim_back_spec(trim_front_spec(s))
}

/// Index of the first separator, or the length when there is none.
pub open spec fn first_sep(s: Seq<u8>) -> int
    decreases s.len(),
{
    if s.len() == 0 {
        0
    } else if s[0] == SEPARATOR {
        0
    } else {
        1 + first_sep(s.drop_first())
    }
}

/// `first_sep` points at the first separator: nothing before it is one, and
/// it is one itself unless the line holds none at all.
pub proof fn lemma_first_sep(s: Seq<u8>)
    ensures
        0 <= first_sep(s) <= s.len(),
        forall|j: int| 0 <= j < first_sep(s) ==> s[j] != SEPARATOR,
        first_sep(s) < s.len() ==> s[first_sep(s)] == SEPARATOR,
    decreases s.len(),
{
    if s.len() > 0 && s[0] != SEPARATOR {
        lemma_first_sep(s.drop_first());
        assert forall|j: int| 0 <= j < first_sep(s) implies s[j] != SEPARATOR by {
            if j > 0 {
                assert(s.drop_first()[j - 1] == s[j]);
            }
        }
    }
}

/// The selector of a stripped line: the trimmed text before the first
/// separator, absent when there is no separator or the text is empty.
pub open spec fn selector_spec(line: Seq<u8>) -> Option<Seq<u8>> {
    if first_sep(line) < line.len() {
        let sel = trim_spec(line.take(first_sep(line)));
        if sel.len() == 0 {
            None
        } else {
            Some(sel)
        }
    } else {
        None
    }
}

/// The preimage of a stripped line: everything after the first separator,
/// verbatim, or the whole line when there is none.
pub open spec fn preimage_spec(line: Seq<u8>) -> Seq<u8> {
    if first_sep(line) < line.len() {
        line.skip(first_sep(line) + 1)
    } else {
        line
    }
}

/// Removes every trailing CR/LF byte from a received line.
pub fn strip_line(line: &Vec<u8>) -> (r: Vec<u8>)
    ensures
        r@ == strip_spec(line@),
{
    let mut end: usize = line.len();
    proof {
        assert(line@.take(line@.len() as int) =~= line@);
    }
    while end > 0 && (line[end - 1] == 13 || line[end - 1] == 10)
        invariant
            end <= line@.len(),
            strip_spec(line@) == strip_spec(line@.take(end as int)),
        decreases end,
    {
        proof {
            assert(line@.take(end as int).drop_last() =~= line@.take(end as int - 1));
        }
        end = end - 1;
    }
    let mut r: Vec<u8> = Vec::new();
    let mut i: usize = 0;
    while i < end
        invariant
            i <= end <= line@.len(),
            r@ == line@.take(end as int).take(i as int),
        decreases end - i,
    {
        proof {
            assert(line@.take(end as int).take(i as int).push(line@[i as int]) =~= line@.take(
                end as int,
            ).take(i as int + 1));
        }
        r.push(line[i]);
        i += 1;
    }
    proof {
        assert(line@.take(end as int).take(end as int) =~= line@.take(end as int));
    }
    r
}

/// Removes surrounding whitespace from a byte sequence.
pub fn trim(s: &[u8]) -> (r: Vec<u8>)
    ensures
        r@ == trim_spec(s@),
{
    let mut start: usize = 0;
    proof {
        assert(s@.skip(0) =~= s@);
    }
    while start < s.len() && (s[start] == 32 || s[start] == 9 || s[start] == 13 || s[start] == 10)
        invariant
            start <= s@.len(),
            trim_front_spec(s@) == trim_front_spec(s@.skip(start as int)),
        decreases s@.len() - start,
    {
        proof {
            assert(s@.skip(start as int).drop_first() =~= s@.skip(start as int + 1));
        }
        start += 1;
    }
    let mut r: Vec<u8> = Vec::new();
    let mut i: usize = start;
    while i < s.len()
        invariant
            start <= i <= s@.len(),
            r@ == s@.subrange(start as int, i as int),
        decreases s@.len() - i,
    {
        proof {
            assert(s@.subrange(start as int, i as int).push(s@[i as int]) =~= s@.subrange(
                start as int,
                i as int + 1,
            ));
        }
        r.push(s[i]);
        i += 1;
    }
    proof {
        assert(r@ =~= s@.skip(start as int));
        assert(trim_front_spec(s@) == r@);
    }
    while r.len() > 0 && (r[r.len() - 1] == 32 || r[r.len() - 1] == 9 || r[r.len() - 1] == 13 || r[
        r.len() - 1] == 10)
        invariant
            trim_back_spec(trim_front_spec(s@)) == trim_back_spec(r@),
        decreases r@.len(),
    {
        let _last = r.pop();
    }
    r
}

/// Splits a stripped line into its optional selector and its preimage, at
/// the first separator only.
pub fn parse_request(line: &Vec<u8>) -> (r: (Option<Vec<u8>>, Vec<u8>))
    ensures
        r.0 matches Some(sel) ==> selector_spec(line@) matches Some(s) && sel@ == s,
        r.0 is None ==> selector_spec(line@) is None,
        r.1@ == preimage_spec(line@),
{
    proof {
        lemma_first_sep(line@);
    }
    let mut i: usize = 0;
    while i < line.len() && line[i] != SEPARATOR
        invariant
            i <= line@.len(),
            forall|j: int| 0 <= j < i ==> line@[j] != SEPARATOR,
        decreases line@.len() - i,
    {
        i += 1;
    }
    proof {
        lemma_first_sep_pinned(line@, i as int);
    }
    if i == line.len() {
        // no separator: the whole line is the preimage
        let mut pre: Vec<u8> = Vec::new();
        let mut k: usize = 0;
        while k < line.len()
            invariant
                k <= line@.len(),
                pre@ == line@.take(k as int),
            decreases line@.len() - k,
        {
            proof {
                assert(line@.take(k as int).push(line@[k as int]) =~= line@.take(k as int + 1));
            }
            pre.push(line[k]);
            k += 1;
        }
        proof {
            assert(line@.take(line@.len() as int) =~= line@);
        }
        (None, pre)
    } else {
        let mut head: Vec<u8> = Vec::new();
        let mut k: usize = 0;
        while k < i
            invariant
                k <= i <= line@.len(),
                head@ == line@.take(i as int).take(k as int),
            decreases i - k,
        {
            proof {
                assert(line@.take(i as int).take(k as int).push(line@[k as int]) =~= line@.take(
                    i as int,
                ).take(k as int + 1));
            }
            head.push(line[k]);
            k += 1;
        }
        proof {
            assert(line@.take(i as int).take(i as int) =~= line@.take(i as int));
        }
        let sel = trim(head.as_slice());
        let mut pre: Vec<u8> = Vec::new();
        let mut m: usize = i + 1;
        while m < line.len()
            invariant
                i < m <= line@.len(),
                pre@ == line@.subrange(i as int + 1, m as int),
            decreases line@.len() - m,
        {
            proof {
                assert(line@.subrange(i as int + 1, m as int).push(line@[m as int]) =~= line@
                    .subrange(i as int + 1, m as int + 1));
            }
            pre.push(line[m]);
            m += 1;
        }
        proof {
            assert(pre@ =~= line@.skip(i as int + 1));
        }
        if sel.len() == 0 {
            (None, pre)
        } else {
            (Some(sel), pre)
        }
    }
}

/// An index before which no separator occurs, and which holds one or is the
/// length, is exactly `first_sep`.
proof fn lemma_first_sep_pinned(s: Seq<u8>, i: int)
    requires
        0 <= i <= s.len(),
        forall|j: int| 0 <= j < i ==> s[j] != SEPARATOR,
        i < s.len() ==> s[i] == SEPARATOR,
    ensures
        first_sep(s) == i,
{
    lemma_first_sep(s);
    if first_sep(s) < i {
        assert(s[first_sep(s)] != SEPARATOR);
    }
    if i < first_sep(s) {
        assert(s[i] != SEPARATOR);
    }
}

} // verus!
