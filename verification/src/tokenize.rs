//! Record tokenizer: splits the raw accounting text on whitespace and
//! partitions the token stream into consecutive seven-field records. A short
//! tail that does not fill a record is dropped.

use vstd::prelude::*;

use crate::text::chars_of;
use crate::text::push_char;

verus! {

/// The whitespace characters the tokenizer splits on.
pub open spec fn is_space(c: char) -> bool {
    c == ' ' || c == '\t' || c == '\n' || c == '\r' || c == '\u{b}' || c == '\u{c}'
}

fn is_space_char(c: char) -> (r: bool)
    ensures
        r == is_space(c),
{
    c == ' ' || c == '\t' || c == '\n' || c == '\r' || c == '\u{b}' || c == '\u{c}'
}

/// The maximal non-whitespace runs of `cur + s`, where `cur` is the piece of
/// the current run already read.
pub open spec fn split_tokens(s: Seq<char>, cur: Seq<char>) -> Seq<Seq<char>>
    decreases s.len(),
{
    if s.len() == 0 {
        if cur.len() == 0 {
            seq![]
        } else {
            seq![cur]
        }
    } else if is_space(s[0]) {
        if cur.len() == 0 {
            split_tokens(s.drop_first(), Seq::empty())
        } else {
            seq![cur] + split_tokens(s.drop_first(), Seq::empty())
        }
    } else {
        split_tokens(s.drop_first(), cur.push(s[0]))
    }
}

/// The whitespace-separated tokens of `s`, in order.
pub open spec fn tokens_of(s: Seq<char>) -> Seq<Seq<char>> {
    split_tokens(s, Seq::empty())
}

/// Splits `s` on whitespace into its tokens.
pub fn tokenize(s: &str) -> (toks: Vec<String>)
    ensures
        toks.deep_view() == tokens_of(s@),
{
    let chars = chars_of(s);
    let n = chars.len();
    let mut toks: Vec<String> = Vec::new();
    let mut cur = String::new();
    let mut i: usize = 0;
    proof {
        assert(s@.skip(0) =~= s@);
        assert(toks.deep_view() =~= Seq::<Seq<char>>::empty());
        assert(toks.deep_view() + split_tokens(s@, cur@) =~= split_tokens(s@, cur@));
    }
    while i < n
        invariant
            i <= n,
            n == chars@.len(),
            chars@ == s@,
            tokens_of(s@) == toks.deep_view() + split_tokens(s@.skip(i as int), cur@),
        decreases n - i,
    {
        let c = chars[i];
        proof {
            assert(s@.skip(i as int).len() > 0);
            assert(s@.skip(i as int)[0] == s@[i as int]);
            assert(s@.skip(i as int).drop_first() =~= s@.skip(i + 1));
        }
        if is_space_char(c) {
            if !cur.as_str().is_empty() {
                let ghost prev = toks.deep_view();
                let ghost done = cur@;
                proof {
                    assert(split_tokens(s@.skip(i as int), done) == seq![done] + split_tokens(
                        s@.skip(i + 1),
                        Seq::empty(),
                    ));
                }
                toks.push(cur);
                cur = String::new();
                proof {
                    assert(toks.deep_view() =~= prev + seq![done]);
                    assert((prev + seq![done]) + split_tokens(s@.skip(i + 1), Seq::empty()) =~= prev
                        + (seq![done] + split_tokens(s@.skip(i + 1), Seq::empty())));
                    assert(cur@ =~= Seq::<char>::empty());
                }
            } else {
                proof {
                    assert(cur@ =~= Seq::<char>::empty());
                    assert(split_tokens(s@.skip(i as int), cur@) == split_tokens(
                        s@.skip(i + 1),
                        Seq::empty(),
                    ));
                }
            }
        } else {
            push_char(&mut cur, c);
        }
        i += 1;
    }
    proof {
        assert(s@.skip(n as int) =~= Seq::<char>::empty());
    }
    if !cur.as_str().is_empty() {
        let ghost prev = toks.deep_view();
        let ghost done = cur@;
        toks.push(cur);
        proof {
            assert(toks.deep_view() =~= prev + seq![done]);
        }
    } else {
        proof {
            assert(toks.deep_view() + Seq::<Seq<char>>::empty() =~= toks.deep_view());
        }
    }
    toks
}

/// The consecutive seven-field records of a token stream; a short tail is
/// not a record.
pub open spec fn records_of(toks: Seq<Seq<char>>) -> Seq<Seq<Seq<char>>>
    decreases toks.len(),
{
    if toks.len() < 7 {
        seq![]
    } else {
        seq![toks.take(7)] + records_of(toks.skip(7))
    }
}

/// There are as many records as complete groups of seven tokens.
pub proof fn lemma_records_len(toks: Seq<Seq<char>>)
    ensures
        7 * records_of(toks).len() <= toks.len() < 7 * records_of(toks).len() + 7,
    decreases toks.len(),
{
    if toks.len() >= 7 {
        lemma_records_len(toks.skip(7));
    }
}

pub proof fn lemma_records_index(toks: Seq<Seq<char>>, k: int)
    requires
        0 <= k < records_of(toks).len(),
    ensures
        records_of(toks)[k] == toks.subrange(7 * k, 7 * k + 7),
    decreases toks.len(),
{
    lemma_records_len(toks);
    if k == 0 {
        assert(toks.take(7) =~= toks.subrange(0, 7));
    } else {
        lemma_records_index(toks.skip(7), k - 1);
        assert(toks.skip(7).subrange(7 * (k - 1), 7 * (k - 1) + 7) =~= toks.subrange(
            7 * k,
            7 * k + 7,
        ));
    }
}

} // verus!
