//! Small helpers: output colors and command-line tokenization.

use vstd::prelude::*;
use crate::strutil::{chars_of, string_of};

verus! {

/// Colors the display collaborator can print with.
#[derive(Debug, Clone, Copy, PartialEq, Eq, Structural)]
pub enum ColorEnum {
    Red,
    Green,
}

/// The segments of `s` split at every single space character, in order;
/// consecutive spaces produce empty segments, and the result is never
/// empty.
pub open spec fn split_spaces(s: Seq<char>) -> Seq<Seq<char>>
    decreases s.len(),
{
    if s.len() == 0 {
        seq![Seq::<char>::empty()]
    } else if s[0] == ' ' {
        seq![Seq::<char>::empty()] + split_spaces(s.skip(1))
    } else {
        let rest = split_spaces(s.skip(1));
        seq![seq![s[0]] + rest[0]] + rest.skip(1)
    }
}

/// Splitting yields at least one segment.
pub proof fn lemma_split_spaces_len(s: Seq<char>)
    ensures
        split_spaces(s).len() >= 1,
    decreases s.len(),
{
    if s.len() > 0 {
        lemma_split_spaces_len(s.skip(1));
    }
}

/// A string without spaces is one whole segment.
proof fn lemma_split_no_space(s: Seq<char>)
    requires
        forall|k: int| 0 <= k < s.len() ==> s[k] != ' ',
    ensures
        split_spaces(s) == seq![s],
    decreases s.len(),
{
    if s.len() == 0 {
        assert(s =~= Seq::<char>::empty());
        assert(split_spaces(s) =~= seq![s]);
    } else {
        lemma_split_no_space(s.skip(1));
        lemma_split_spaces_len(s.skip(1));
        let rest = split_spaces(s.skip(1));
        assert(rest[0] == s.skip(1));
        assert(seq![s[0]] + s.skip(1) =~= s);
        assert(rest.skip(1) =~= Seq::<Seq<char>>::empty());
        assert(split_spaces(s) =~= seq![s]);
    }
}

/// Splitting at the first space separates the head segment.
proof fn lemma_split_at_first(s: Seq<char>, q: int)
    requires
        0 <= q < s.len(),
        s[q] == ' ',
        forall|k: int| 0 <= k < q ==> s[k] != ' ',
    ensures
        split_spaces(s) == seq![s.take(q)] + split_spaces(s.skip(q + 1)),
    decreases q,
{
    if q == 0 {
        assert(s.take(0) =~= Seq::<char>::empty());
        assert(split_spaces(s) =~= seq![s.take(0)] + split_spaces(s.skip(1)));
    } else {
        let t = s.skip(1);
        assert(t[q - 1] == ' ');
        assert(forall|k: int| 0 <= k < q - 1 ==> t[k] != ' ');
        lemma_split_at_first(t, q - 1);
        lemma_split_spaces_len(t.skip(q));
        let rest = split_spaces(t);
        assert(rest[0] == t.take(q - 1));
        assert(seq![s[0]] + t.take(q - 1) =~= s.take(q));
        assert(rest.skip(1) =~= split_spaces(t.skip(q)));
        assert(t.skip(q) =~= s.skip(q + 1));
        assert(split_spaces(s) =~= seq![s.take(q)] + split_spaces(s.skip(q + 1)));
    }
}

/// Splits a command line into its leading word and the remaining words,
/// the shape a process spawner wants.
pub fn split_head_from_rest(snek: &str) -> (r: (String, Vec<String>))
    ensures
        split_spaces(snek@).len() == 1 + r.1@.len(),
        r.0@ == split_spaces(snek@)[0],
        forall|k: int| 0 <= k < r.1@.len() ==> (#[trigger] r.1@[k])@ == split_spaces(snek@)[k + 1],
{
    let s = chars_of(snek);
    let mut tokens: Vec<String> = Vec::new();
    let mut p: usize = 0;
    proof {
        assert(s@.skip(0) =~= s@);
    }
    loop
        invariant_except_break
            p <= s@.len(),
            s@ == snek@,
            split_spaces(snek@) == tokens@.map_values(|t: String| t@) + split_spaces(
                s@.skip(p as int),
            ),
        invariant
            s@ == snek@,
        ensures
            split_spaces(snek@) == tokens@.map_values(|t: String| t@),
            tokens@.len() >= 1,
        decreases s@.len() - p + 1,
    {
        let ghost done = tokens@.map_values(|t: String| t@);
        let mut q: usize = p;
        while q < s.len() && s[q] != ' '
            invariant
                p <= q <= s@.len(),
                forall|k: int| p <= k < q ==> s@[k] != ' ',
            decreases s@.len() - q,
        {
            q += 1;
        }
        let mut tok: Vec<char> = Vec::new();
        let mut k: usize = p;
        while k < q
            invariant
                p <= k <= q <= s@.len(),
                tok@ == s@.subrange(p as int, k as int),
            decreases q - k,
        {
            tok.push(s[k]);
            proof {
                assert(tok@ =~= s@.subrange(p as int, k + 1));
            }
            k += 1;
        }
        tokens.push(string_of(&tok));
        if q == s.len() {
            proof {
                let suffix = s@.skip(p as int);
                assert(forall|t: int| 0 <= t < suffix.len() ==> suffix[t] != ' ');
                lemma_split_no_space(suffix);
                assert(suffix =~= s@.subrange(p as int, q as int));
                assert(tokens@.map_values(|t: String| t@) =~= done + seq![suffix]);
                assert(done + seq![suffix] =~= split_spaces(snek@));
            }
            break ;
        }
        proof {
            let suffix = s@.skip(p as int);
            assert(suffix[q - p] == s@[q as int]);
            assert(s@[q as int] == ' ');
            assert(forall|t: int| 0 <= t < q - p ==> suffix[t] != ' ');
            lemma_split_at_first(suffix, q - p);
            assert(suffix.take(q - p) =~= s@.subrange(p as int, q as int));
            assert(suffix.skip(q - p + 1) =~= s@.skip(q + 1));
            assert(tokens@.map_values(|t: String| t@) =~= done + seq![suffix.take(q - p)]);
            assert((done + seq![suffix.take(q - p)]) + split_spaces(s@.skip(q + 1)) =~= done + (
            seq![suffix.take(q - p)] + split_spaces(s@.skip(q + 1))));
        }
        p = q + 1;
    }
    let ghost full = tokens@;
    let head = tokens.remove(0);
    proof {
        assert(tokens@ =~= full.skip(1));
        assert forall|k: int| 0 <= k < tokens@.len() implies (#[trigger] tokens@[k])@
            == split_spaces(snek@)[k + 1] by {
            assert(tokens@[k] == full[k + 1]);
            assert(full.map_values(|t: String| t@)[k + 1] == full[k + 1]@);
        }
    }
    (head, tokens)
}

} // verus!
