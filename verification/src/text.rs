//! The character-level model of the report: padding, indentation and line
//! counting, with the verified string builders that realize it.

use vstd::prelude::*;

verus! {

use vstd::string::StringExecFns;
use vstd::string::StrSliceExecFns;

/// A run of `n` spaces.
pub open spec fn spaces(n: nat) -> Seq<char>
    decreases n,
{
    if n == 0 {
        Seq::empty()
    } else {
        spaces((n - 1) as nat).push(' ')
    }
}

/// `s` left-aligned in a field of width `w`; a longer `s` is never truncated.
pub open spec fn pad(s: Seq<char>, w: nat) -> Seq<char> {
    if s.len() <= w {
        s + spaces((w - s.len()) as nat)
    } else {
        s
    }
}

/// `msg` with a run of `ind` spaces inserted after every line break, so that
/// continuation lines align under a column that starts `ind` places in.
pub open spec fn indent_message(msg: Seq<char>, ind: nat) -> Seq<char>
    decreases msg.len(),
{
    if msg.len() == 0 {
        Seq::empty()
    } else {
        indent_message(msg.drop_last(), ind) + if msg.last() == '\n' {
            seq!['\n'] + spaces(ind)
        } else {
            seq![msg.last()]
        }
    }
}

/// The number of line breaks in `s`.
pub open spec fn newline_count(s: Seq<char>) -> nat
    decreases s.len(),
{
    if s.len() == 0 {
        0
    } else {
        newline_count(s.drop_last()) + if s.last() == '\n' {
            1nat
        } else {
            0nat
        }
    }
}

/// A run of spaces has the given length and holds spaces only.
pub proof fn lemma_spaces_props(n: nat)
    ensures
        spaces(n).len() == n,
        forall|i: int| 0 <= i < n ==> spaces(n)[i] == ' ',
    decreases n,
{
    if n > 0 {
        lemma_spaces_props((n - 1) as nat);
    }
}

/// Two runs of spaces joined are one longer run.
pub proof fn lemma_spaces_concat(a: nat, b: nat)
    ensures
        spaces(a) + spaces(b) =~= spaces(a + b),
    decreases b,
{
    if b == 0 {
        assert(spaces(a) + spaces(0) =~= spaces(a));
    } else {
        lemma_spaces_concat(a, (b - 1) as nat);
        assert(spaces(a) + spaces(b) =~= (spaces(a) + spaces((b - 1) as nat)).push(' '));
    }
}

/// Line breaks distribute over concatenation.
pub proof fn lemma_newline_count_concat(a: Seq<char>, b: Seq<char>)
    ensures
        newline_count(a + b) == newline_count(a) + newline_count(b),
    decreases b.len(),
{
    if b.len() == 0 {
        assert(a + b =~= a);
    } else {
        lemma_newline_count_concat(a, b.drop_last());
        assert((a + b).drop_last() =~= a + b.drop_last());
        assert((a + b).last() == b.last());
    }
}

/// A sequence without a line break counts none.
pub proof fn lemma_newline_count_zero(s: Seq<char>)
    requires
        forall|i: int| 0 <= i < s.len() ==> s[i] != '\n',
    ensures
        newline_count(s) == 0,
    decreases s.len(),
{
    if s.len() > 0 {
        lemma_newline_count_zero(s.drop_last());
    }
}

/// Indentation inserts only spaces, so the number of line breaks in an
/// indented message equals the number in the message itself.
pub proof fn lemma_indent_newline_count(msg: Seq<char>, ind: nat)
    ensures
        newline_count(indent_message(msg, ind)) == newline_count(msg),
    decreases msg.len(),
{
    if msg.len() > 0 {
        lemma_indent_newline_count(msg.drop_last(), ind);
        lemma_spaces_props(ind);
        if msg.last() == '\n' {
            lemma_newline_count_zero(spaces(ind));
            lemma_newline_count_concat(seq!['\n'], spaces(ind));
            lemma_newline_count_concat(
                indent_message(msg.drop_last(), ind),
                seq!['\n'] + spaces(ind),
            );
            assert(newline_count(Seq::<char>::empty()) == 0);
            assert(seq!['\n'].drop_last() =~= Seq::<char>::empty());
            assert(seq!['\n'].len() == 1 && seq!['\n'].last() == '\n');
            assert(newline_count(seq!['\n']) == 1);
        } else {
            lemma_newline_count_concat(indent_message(msg.drop_last(), ind), seq![msg.last()]);
            assert(newline_count(Seq::<char>::empty()) == 0);
            assert(seq![msg.last()].drop_last() =~= Seq::<char>::empty());
            assert(seq![msg.last()].len() == 1 && seq![msg.last()].last() == msg.last());
            assert(newline_count(seq![msg.last()]) == 0);
        }
    }
}

/// Padding adds spaces only: a padded field has the breaks of its text.
pub proof fn lemma_pad_newline_count(s: Seq<char>, w: nat)
    ensures
        newline_count(pad(s, w)) == newline_count(s),
{
    if s.len() <= w {
        lemma_spaces_props((w - s.len()) as nat);
        lemma_newline_count_zero(spaces((w - s.len()) as nat));
        lemma_newline_count_concat(s, spaces((w - s.len()) as nat));
    }
}

/// Continuation lines always align: every line break in an indented message
/// is followed by exactly the run of `ind` spaces that places the next line
/// under the message column.
pub proof fn lemma_indent_alignment(msg: Seq<char>, ind: nat)
    ensures
        forall|p: int|
            0 <= p < indent_message(msg, ind).len() && indent_message(msg, ind)[p] == '\n'
                ==> p + 1 + ind <= indent_message(msg, ind).len() && indent_message(
                msg,
                ind,
            ).subrange(p + 1, p + 1 + ind) == spaces(ind),
    decreases msg.len(),
{
    if msg.len() > 0 {
        lemma_indent_alignment(msg.drop_last(), ind);
        lemma_spaces_props(ind);
        let a = indent_message(msg.drop_last(), ind);
        let piece = if msg.last() == '\n' {
            seq!['\n'] + spaces(ind)
        } else {
            seq![msg.last()]
        };
        let out = indent_message(msg, ind);
        assert(out == a + piece);
        assert forall|p: int|
            0 <= p < out.len() && out[p] == '\n' implies p + 1 + ind <= out.len() && out.subrange(
            p + 1,
            p + 1 + ind,
        ) == spaces(ind) by {
            if p < a.len() {
                assert(a[p] == '\n');
                assert(p + 1 + ind <= a.len());
                assert(out.subrange(p + 1, p + 1 + ind) =~= a.subrange(p + 1, p + 1 + ind));
            } else {
                if msg.last() == '\n' {
                    assert(out[p] == piece[p - a.len()]);
                    assert forall|j: int| 1 <= j < piece.len() implies piece[j] == ' ' by {
                        assert(piece[j] == spaces(ind)[j - 1]);
                    }
                    assert(p == a.len());
                    assert(out.subrange(p + 1, p + 1 + ind) =~= spaces(ind));
                } else {
                    assert(out[p] == msg.last());
                }
            }
        }
    }
}

/// A string of `n` spaces.
pub fn space_string(n: usize) -> (r: String)
    ensures
        r@ == spaces(n as nat),
{
    let mut r = String::new();
    let mut i: usize = 0;
    while i < n
        invariant
            i <= n,
            r@ == spaces(i as nat),
        decreases n - i,
    {
        r.append(" ");
        proof {
            reveal_strlit(" ");
            assert(r@ =~= spaces((i + 1) as nat));
        }
        i = i + 1;
    }
    r
}

/// Append `s` to `out`, left-aligned in a field of width `w`.
pub(crate) fn append_padded(out: &mut String, s: &str, w: usize)
    requires
        s@.len() <= w,
    ensures
        final(out)@ == old(out)@ + pad(s@, w as nat),
{
    out.append(s);
    let rest: usize = w - s.unicode_len();
    let sp = space_string(rest);
    out.append(sp.as_str());
    proof {
        assert(out@ =~= old(out)@ + pad(s@, w as nat));
    }
}

/// Append `msg` to `out` with every line break re-indented by the width of
/// `ind`, a string of spaces.
pub(crate) fn append_indented(out: &mut String, msg: &str, ind: &str)
    requires
        ind@ == spaces(ind@.len()),
    ensures
        final(out)@ == old(out)@ + indent_message(msg@, ind@.len()),
{
    let n: usize = msg.unicode_len();
    let mut i: usize = 0;
    while i < n
        invariant
            i <= n,
            n == msg@.len(),
            ind@ == spaces(ind@.len()),
            out@ == old(out)@ + indent_message(msg@.take(i as int), ind@.len()),
        decreases n - i,
    {
        let c = msg.get_char(i);
        if c == '\n' {
            out.append("\n");
            out.append(ind);
            proof {
                reveal_strlit("\n");
                assert(msg@.take(i + 1).drop_last() =~= msg@.take(i as int));
                assert(out@ =~= old(out)@ + indent_message(msg@.take(i + 1), ind@.len()));
            }
        } else {
            let piece = msg.substring_char(i, i + 1);
            out.append(piece);
            proof {
                assert(piece@ =~= seq![msg@[i as int]]);
                assert(msg@.take(i + 1).drop_last() =~= msg@.take(i as int));
                assert(out@ =~= old(out)@ + indent_message(msg@.take(i + 1), ind@.len()));
            }
        }
        i = i + 1;
    }
    proof {
        assert(msg@.take(n as int) =~= msg@);
    }
}

} // verus!

