//! Cutting streamed text into lines.
//!
//! Text is split at each `'\n'`. Every piece but the last is a complete line,
//! shown without a `'\r'` that ends it; the last piece is the line still being
//! written.

use crate::text::{split_once_char, strip_last_char};
use vstd::prelude::*;

verus! {

/// The pieces of `s` between its `'\n'` characters: one more than it has
/// newlines, each free of `'\n'`.
pub open spec fn segments(s: Seq<char>) -> Seq<Seq<char>>
    decreases s.len(),
{
    if s.len() == 0 {
        seq![Seq::<char>::empty()]
    } else {
        let rest = segments(s.drop_first());
        if s[0] == '\n' {
            seq![Seq::<char>::empty()] + rest
        } else {
            rest.update(0, seq![s[0]] + rest[0])
        }
    }
}

/// A line as shown: without the `'\r'` of a CRLF ending.
pub open spec fn without_cr(line: Seq<char>) -> Seq<char> {
    if line.len() > 0 && line.last() == '\r' {
        line.drop_last()
    } else {
        line
    }
}

/// The complete lines of `s`, as shown.
pub open spec fn complete_lines(s: Seq<char>) -> Seq<Seq<char>> {
    segments(s).drop_last().map_values(|l: Seq<char>| without_cr(l))
}

/// What follows the last `'\n'` of `s`.
pub open spec fn unfinished_line(s: Seq<char>) -> Seq<char> {
    segments(s).last()
}

/// The texts that a list of strings holds.
pub open spec fn texts(v: Seq<String>) -> Seq<Seq<char>> {
    v.map_values(|l: String| l@)
}

/// The pieces joined again, a `'\n'` between each two.
pub open spec fn join_lines(pieces: Seq<Seq<char>>) -> Seq<char>
    decreases pieces.len(),
{
    if pieces.len() == 0 {
        Seq::empty()
    } else if pieces.len() == 1 {
        pieces[0]
    } else {
        pieces[0] + seq!['\n'] + join_lines(pieces.drop_first())
    }
}

/// `s` with the `'\r'` removed that stands right before each `'\n'`.
pub open spec fn crlf_to_lf(s: Seq<char>) -> Seq<char>
    decreases s.len(),
{
    if s.len() == 0 {
        s
    } else if s.len() >= 2 && s[0] == '\r' && s[1] == '\n' {
        crlf_to_lf(s.drop_first())
    } else {
        seq![s[0]] + crlf_to_lf(s.drop_first())
    }
}

pub proof fn lemma_segments_nonempty(s: Seq<char>)
    ensures
        segments(s).len() >= 1,
    decreases s.len(),
{
    if s.len() > 0 {
        lemma_segments_nonempty(s.drop_first());
    }
}

/// A text without a newline is a single piece.
pub proof fn lemma_segments_no_newline(a: Seq<char>)
    requires
        !a.contains('\n'),
    ensures
        segments(a) == seq![a],
    decreases a.len(),
{
    if a.len() > 0 {
        assert(!a.drop_first().contains('\n')) by {
            if a.drop_first().contains('\n') {
                let k = choose|k: int| 0 <= k < a.drop_first().len() && a.drop_first()[k] == '\n';
                assert(a[k + 1] == '\n');
            }
        }
        lemma_segments_no_newline(a.drop_first());
        assert(a[0] != '\n') by {
            if a[0] == '\n' {
                assert(a.contains('\n'));
            }
        }
        assert(seq![a[0]] + a.drop_first() =~= a);
        assert(segments(a) =~= seq![a]);
    } else {
        assert(a =~= Seq::<char>::empty());
    }
}

/// Splitting at the first newline: the piece before it comes first.
pub proof fn lemma_segments_split(a: Seq<char>, b: Seq<char>)
    requires
        !a.contains('\n'),
    ensures
        segments(a + seq!['\n'] + b) == seq![a] + segments(b),
    decreases a.len(),
{
    let s = a + seq!['\n'] + b;
    if a.len() == 0 {
        assert(s.drop_first() =~= b);
        assert(a =~= Seq::<char>::empty());
        assert(seq![a] =~= seq![Seq::<char>::empty()]);
    } else {
        let a1 = a.drop_first();
        assert(!a1.contains('\n')) by {
            if a1.contains('\n') {
                let k = choose|k: int| 0 <= k < a1.len() && a1[k] == '\n';
                assert(a[k + 1] == '\n');
            }
        }
        lemma_segments_split(a1, b);
        assert(s.drop_first() =~= a1 + seq!['\n'] + b);
        assert(a[0] != '\n') by {
            if a[0] == '\n' {
                assert(a.contains('\n'));
            }
        }
        assert(s[0] == a[0]);
        assert(seq![a[0]] + a1 =~= a);
        assert(segments(s) =~= seq![a] + segments(b));
    }
}

/// The pieces as shown: every piece but the last without a CRLF's `'\r'`.
pub open spec fn shown_pieces(pieces: Seq<Seq<char>>) -> Seq<Seq<char>> {
    pieces.drop_last().map_values(|l: Seq<char>| without_cr(l)).push(pieces.last())
}

proof fn lemma_join_cons(a: Seq<char>, rest: Seq<Seq<char>>)
    requires
        rest.len() >= 1,
    ensures
        join_lines(seq![a] + rest) == a + seq!['\n'] + join_lines(rest),
{
    let p = seq![a] + rest;
    assert(p.drop_first() =~= rest);
    assert(p[0] == a);
}

proof fn lemma_without_cr_cons(c: char, l: Seq<char>)
    requires
        l.len() > 0 || c != '\r',
    ensures
        without_cr(seq![c] + l) == seq![c] + without_cr(l),
{
    let x = seq![c] + l;
    if l.len() > 0 {
        assert(x.last() == l.last());
        if l.last() == '\r' {
            assert(x.drop_last() =~= seq![c] + l.drop_last());
        }
    } else {
        assert(x =~= seq![c]);
        assert(seq![c] + l =~= seq![c]);
    }
}

/// The lines shown for a stream, joined with newlines, give the stream back
/// but for the `'\r'` of each CRLF line ending.
pub proof fn lemma_lines_rejoin(s: Seq<char>)
    ensures
        join_lines(complete_lines(s).push(unfinished_line(s))) == crlf_to_lf(s),
    decreases s.len(),
{
    assert(complete_lines(s).push(unfinished_line(s)) == shown_pieces(segments(s)));
    if s.len() == 0 {
        assert(shown_pieces(segments(s)) =~= seq![Seq::<char>::empty()]);
    } else {
        let c = s[0];
        let rest = s.drop_first();
        let rs = segments(rest);
        lemma_segments_nonempty(rest);
        lemma_lines_rejoin(rest);
        assert(complete_lines(rest).push(unfinished_line(rest)) == shown_pieces(rs));
        let f = |l: Seq<char>| without_cr(l);
        if rest.len() > 0 {
            lemma_segments_nonempty(rest.drop_first());
        }
        if c == '\n' {
            let segs = seq![Seq::<char>::empty()] + rs;
            assert(segments(s) == segs);
            assert(shown_pieces(segs) =~= seq![Seq::<char>::empty()] + shown_pieces(rs));
            lemma_join_cons(Seq::<char>::empty(), shown_pieces(rs));
            assert(crlf_to_lf(s) == seq![c] + crlf_to_lf(rest));
            assert(Seq::<char>::empty() + seq!['\n'] + crlf_to_lf(rest) =~= seq![c] + crlf_to_lf(
                rest,
            ));
        } else {
            let segs = rs.update(0, seq![c] + rs[0]);
            assert(segments(s) == segs);
            if rs.len() == 1 {
                assert(shown_pieces(segs) =~= seq![seq![c] + rs[0]]);
                assert(shown_pieces(rs) =~= seq![rs[0]]);
                assert(rest.len() == 0 || rest[0] != '\n');
                assert(crlf_to_lf(s) == seq![c] + crlf_to_lf(rest));
            } else {
                let t = shown_pieces(rs).drop_first();
                assert(shown_pieces(segs) =~= seq![without_cr(seq![c] + rs[0])] + t);
                assert(shown_pieces(rs) =~= seq![without_cr(rs[0])] + t);
                lemma_join_cons(without_cr(seq![c] + rs[0]), t);
                lemma_join_cons(without_cr(rs[0]), t);
                assert(rest.len() > 0);
                if rest[0] == '\n' {
                    assert(rs[0] =~= Seq::<char>::empty());
                    if c == '\r' {
                        assert(seq![c] + rs[0] =~= seq!['\r']);
                        assert(without_cr(seq!['\r']) =~= Seq::<char>::empty());
                        assert(crlf_to_lf(s) == crlf_to_lf(rest));
                    } else {
                        lemma_without_cr_cons(c, rs[0]);
                        assert(crlf_to_lf(s) == seq![c] + crlf_to_lf(rest));
                        assert(without_cr(seq![c] + rs[0]) + seq!['\n'] + join_lines(t)
                            =~= seq![c] + (without_cr(rs[0]) + seq!['\n'] + join_lines(t)));
                    }
                } else {
                    assert(rs[0].len() > 0);
                    lemma_without_cr_cons(c, rs[0]);
                    assert(crlf_to_lf(s) == seq![c] + crlf_to_lf(rest));
                    assert(without_cr(seq![c] + rs[0]) + seq!['\n'] + join_lines(t) =~= seq![c]
                        + (without_cr(rs[0]) + seq!['\n'] + join_lines(t)));
                }
            }
        }
    }
}

/// Cuts `text` at each newline: the complete lines, shown without a CRLF's
/// `'\r'`, are appended to `lines`; what follows the last newline is returned.
pub fn split_lines_into(text: &str, lines: &mut Vec<String>) -> (rest: String)
    ensures
        texts(final(lines)@) == texts(old(lines)@) + complete_lines(text@),
        rest@ == unfinished_line(text@),
{
    let ghost done: Seq<Seq<char>> = Seq::empty();
    let mut rest: &str = text;
    loop
        invariant
            segments(text@) == done + segments(rest@),
            texts(lines@) == texts(old(lines)@) + done.map_values(|l: Seq<char>| without_cr(l)),
        decreases rest@.len(),
    {
        match split_once_char(rest, '\n') {
            Some((line, tail)) => {
                proof {
                    lemma_segments_split(line@, tail@);
                    assert(done + segments(rest@) =~= done.push(line@) + segments(tail@));
                }
                let shown: &str = match strip_last_char(line, '\r') {
                    Some(t) => t,
                    None => line,
                };
                let ghost before = lines@;
                lines.push(shown.to_owned());
                proof {
                    let f = |l: Seq<char>| without_cr(l);
                    assert(shown@ == f(line@));
                    assert(texts(lines@) =~= texts(before).push(shown@));
                    assert(done.push(line@).map_values(f) =~= done.map_values(f).push(f(line@)));
                    assert(texts(lines@) =~= texts(old(lines)@) + done.push(line@).map_values(f));
                    done = done.push(line@);
                }
                rest = tail;
            },
            None => {
                proof {
                    lemma_segments_no_newline(rest@);
                    assert(segments(text@).drop_last() =~= done);
                }
                return rest.to_owned();
            },
        }
    }
}

} // verus!
