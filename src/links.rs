use vstd::prelude::*;

verus! {

/// The byte that ends a line of the link manifest.
pub const NEWLINE: u8 = 10;

/// The byte that a line may carry before its newline.
pub const CARRIAGE_RETURN: u8 = 13;

/// The bytes that separate the tokens of a line: space, tab, line feed,
/// vertical tab, form feed and carriage return.
pub open spec fn is_space(b: u8) -> bool {
    b == 32 || (9 <= b && b <= 13)
}

/// The pieces of `s` between newlines, in order; there is always at least
/// one, and a trailing newline leaves an empty last piece.
pub open spec fn lines_of(s: Seq<u8>) -> Seq<Seq<u8>>
    decreases s.len(),
{
    if s.len() == 0 {
        seq![Seq::empty()]
    } else {
        let p = lines_of(s.drop_last());
        if s.last() == NEWLINE {
            p.push(Seq::empty())
        } else {
            p.update(p.len() - 1, p.last().push(s.last()))
        }
    }
}

/// The maximal runs of non-space bytes of `s`, in order.
pub open spec fn tokens_of(s: Seq<u8>) -> Seq<Seq<u8>>
    decreases s.len(),
{
    if s.len() == 0 {
        Seq::empty()
    } else {
        let p = tokens_of(s.drop_last());
        if is_space(s.last()) {
            p
        } else if s.len() > 1 && !is_space(s[s.len() - 2]) {
            p.update(p.len() - 1, p.last().push(s.last()))
        } else {
            p.push(seq![s.last()])
        }
    }
}

/// A line as it is reported: without a trailing carriage return.
pub open spec fn line_text(line: Seq<u8>) -> Seq<u8> {
    if line.len() > 0 && line.last() == CARRIAGE_RETURN {
        line.drop_last()
    } else {
        line
    }
}

pub proof fn lemma_lines_nonempty(s: Seq<u8>)
    ensures
        lines_of(s).len() >= 1,
    decreases s.len(),
{
    if s.len() > 0 {
        lemma_lines_nonempty(s.drop_last());
    }
}

proof fn lemma_tokens_open(s: Seq<u8>)
    requires
        s.len() > 0,
        !is_space(s.last()),
    ensures
        tokens_of(s).len() >= 1,
    decreases s.len(),
{
    if s.len() > 1 && !is_space(s[s.len() - 2]) {
        lemma_tokens_open(s.drop_last());
    }
}

/// Splits `s` into the pieces between newlines.
pub fn split_lines(s: &[u8]) -> (r: Vec<Vec<u8>>)
    ensures
        r@.map_values(|l: Vec<u8>| l@) == lines_of(s@),
{
    let mut out: Vec<Vec<u8>> = Vec::new();
    let mut cur: Vec<u8> = Vec::new();
    let mut i: usize = 0;
    while i < s.len()
        invariant
            i <= s@.len(),
            out@.map_values(|l: Vec<u8>| l@).push(cur@) == lines_of(s@.take(i as int)),
        decreases s@.len() - i,
    {
        proof {
            lemma_lines_nonempty(s@.take(i as int));
            assert(s@.take(i + 1).drop_last() =~= s@.take(i as int));
        }
        if s[i] == NEWLINE {
            let done = cur;
            out.push(done);
            cur = Vec::new();
            assert(out@.map_values(|l: Vec<u8>| l@).push(cur@) =~= lines_of(s@.take(i + 1)));
        } else {
            let ghost before = out@.map_values(|l: Vec<u8>| l@).push(cur@);
            cur.push(s[i]);
            assert(out@.map_values(|l: Vec<u8>| l@).push(cur@) =~= before.update(
                before.len() - 1,
                before.last().push(s[i as int]),
            ));
        }
        i = i + 1;
    }
    assert(s@.take(s@.len() as int) =~= s@);
    let last = cur;
    out.push(last);
    out
}

/// Splits a line into its tokens.
pub fn split_tokens(s: &[u8]) -> (r: Vec<Vec<u8>>)
    ensures
        r@.map_values(|t: Vec<u8>| t@) == tokens_of(s@),
{
    let mut out: Vec<Vec<u8>> = Vec::new();
    let mut i: usize = 0;
    while i < s.len()
        invariant
            i <= s@.len(),
            out@.map_values(|t: Vec<u8>| t@) == tokens_of(s@.take(i as int)),
        decreases s@.len() - i,
    {
        let b = s[i];
        let space = b == 32 || (9 <= b && b <= 13);
        proof {
            assert(s@.take(i + 1).drop_last() =~= s@.take(i as int));
            assert(s@.take(i + 1).last() == b);
        }
        if space {
        } else if i > 0 && !(s[i - 1] == 32 || (9 <= s[i - 1] && s[i - 1] <= 13)) {
            proof {
                assert(s@.take(i as int).last() == s@[i - 1]);
                lemma_tokens_open(s@.take(i as int));
            }
            let ghost before = out@.map_values(|t: Vec<u8>| t@);
            let last_index = out.len() - 1;
            let mut tok = out.remove(last_index);
            tok.push(b);
            out.push(tok);
            assert(out@.map_values(|t: Vec<u8>| t@) =~= before.update(
                before.len() - 1,
                before.last().push(b),
            ));
        } else {
            let mut tok: Vec<u8> = Vec::new();
            tok.push(b);
            out.push(tok);
            assert(out@.map_values(|t: Vec<u8>| t@) =~= tokens_of(s@.take(i + 1)));
        }
        i = i + 1;
    }
    assert(s@.take(s@.len() as int) =~= s@);
    out
}

} // verus!
