//! Pure text transformations between a flat document and its lines.
//!
//! A document on disk is a single sequence of characters; in memory it is a
//! sequence of lines.  Splitting cuts the document at every `'\n'`; one
//! trailing `'\n'` is treated as a terminator of the last line rather than
//! the start of an extra empty line.  Carriage returns are kept as ordinary
//! characters: the chosen line unit is exactly what stands between `'\n'`
//! separators.  Joining writes the lines back with a single `'\n'` between
//! consecutive lines and no trailing separator.

use vstd::prelude::*;

verus! {

/// The lines of `t`, cut at every `'\n'`.  The empty text has one empty
/// line; a separator at the very end of `t` still opens a final empty line
/// (stripping one trailing separator first is the caller's concern, see
/// `spec_document_lines`).
pub open spec fn spec_split_text(t: Seq<char>) -> Seq<Seq<char>>
    decreases t.len(),
{
    if t.len() == 0 {
        seq![Seq::<char>::empty()]
    } else if t[0] == '\n' {
        seq![Seq::<char>::empty()] + spec_split_text(t.subrange(1, t.len() as int))
    } else {
        let rest = spec_split_text(t.subrange(1, t.len() as int));
        seq![seq![t[0]] + rest[0]] + rest.subrange(1, rest.len() as int)
    }
}

/// The lines rejoined into one text, with a single `'\n'` between
/// consecutive lines and none at the end.
pub open spec fn spec_join_lines(lines: Seq<Seq<char>>) -> Seq<char>
    decreases lines.len(),
{
    if lines.len() == 0 {
        Seq::<char>::empty()
    } else if lines.len() == 1 {
        lines[0]
    } else {
        lines[0] + seq!['\n'] + spec_join_lines(lines.subrange(1, lines.len() as int))
    }
}

/// `t` with one trailing `'\n'` removed, if it has one.
pub open spec fn spec_strip_trailing_newline(t: Seq<char>) -> Seq<char> {
    if t.len() > 0 && t[t.len() - 1] == '\n' {
        t.subrange(0, t.len() - 1)
    } else {
        t
    }
}

/// The lines a loaded document consists of: one trailing newline is a
/// terminator and opens no extra empty line, so the empty document and the
/// document `"\n"` both consist of a single empty line.
pub open spec fn spec_document_lines(t: Seq<char>) -> Seq<Seq<char>> {
    spec_split_text(spec_strip_trailing_newline(t))
}

/// Splitting always produces at least one line.
pub proof fn lemma_split_text_nonempty(t: Seq<char>)
    ensures
        spec_split_text(t).len() >= 1,
    decreases t.len(),
{
    if t.len() == 0 {
    } else if t[0] == '\n' {
    } else {
        lemma_split_text_nonempty(t.subrange(1, t.len() as int));
    }
}

/// Joining the lines of a split text gives the text back unchanged.
pub proof fn lemma_join_split(t: Seq<char>)
    ensures
        spec_join_lines(spec_split_text(t)) == t,
    decreases t.len(),
{
    if t.len() == 0 {
        assert(spec_join_lines(spec_split_text(t)) =~= t);
    } else {
        let rest_t = t.subrange(1, t.len() as int);
        let s = spec_split_text(rest_t);
        lemma_join_split(rest_t);
        lemma_split_text_nonempty(rest_t);
        if t[0] == '\n' {
            let whole = seq![Seq::<char>::empty()] + s;
            assert(whole.subrange(1, whole.len() as int) =~= s);
            assert(spec_join_lines(whole) =~= seq!['\n'] + spec_join_lines(s));
            assert(seq!['\n'] + rest_t =~= t);
        } else {
            let whole = seq![seq![t[0]] + s[0]] + s.subrange(1, s.len() as int);
            assert(spec_split_text(t) == whole);
            if s.len() == 1 {
                assert(spec_join_lines(s) == s[0]);
                assert(whole.len() == 1);
                assert(spec_join_lines(whole) == seq![t[0]] + s[0]);
                assert(seq![t[0]] + s[0] =~= t);
            } else {
                let tail = s.subrange(1, s.len() as int);
                assert(whole.subrange(1, whole.len() as int) =~= tail);
                assert(spec_join_lines(whole) == whole[0] + seq!['\n'] + spec_join_lines(tail));
                assert(spec_join_lines(s) == s[0] + seq!['\n'] + spec_join_lines(tail));
                assert(whole[0] + seq!['\n'] + spec_join_lines(tail) =~= seq![t[0]] + (s[0]
                    + seq!['\n'] + spec_join_lines(tail)));
                assert(seq![t[0]] + rest_t =~= t);
            }
        }
    }
}

/// Extending the text by one ordinary character extends its last line.
pub proof fn lemma_split_text_push_char(t: Seq<char>, c: char)
    requires
        c != '\n',
    ensures
        spec_split_text(t.push(c)) == spec_split_text(t).update(
            spec_split_text(t).len() - 1,
            spec_split_text(t).last().push(c),
        ),
    decreases t.len(),
{
    lemma_split_text_nonempty(t);
    let s = spec_split_text(t);
    if t.len() == 0 {
        assert(t.push(c) =~= seq![c]);
        assert(seq![c].subrange(1, 1) =~= Seq::<char>::empty());
        assert(spec_split_text(Seq::<char>::empty()) == seq![Seq::<char>::empty()]);
        assert(spec_split_text(seq![c]) =~~= seq![seq![c]]);
        assert(s.update(s.len() - 1, s.last().push(c)) =~~= seq![seq![c]]);
    } else {
        let rest_t = t.subrange(1, t.len() as int);
        lemma_split_text_push_char(rest_t, c);
        lemma_split_text_nonempty(rest_t);
        let sr = spec_split_text(rest_t);
        let pushed = t.push(c);
        assert(pushed[0] == t[0]);
        assert(pushed.subrange(1, pushed.len() as int) =~= rest_t.push(c));
        let srp = spec_split_text(rest_t.push(c));
        if t[0] == '\n' {
            assert(spec_split_text(pushed) == seq![Seq::<char>::empty()] + srp);
            assert(s == seq![Seq::<char>::empty()] + sr);
            assert(seq![Seq::<char>::empty()] + sr.update(sr.len() - 1, sr.last().push(c))
                =~= s.update(s.len() - 1, s.last().push(c)));
        } else {
            assert(spec_split_text(pushed) == seq![seq![t[0]] + srp[0]] + srp.subrange(
                1,
                srp.len() as int,
            ));
            assert(s == seq![seq![t[0]] + sr[0]] + sr.subrange(1, sr.len() as int));
            if sr.len() == 1 {
                assert(srp =~= seq![sr[0].push(c)]);
                assert(spec_split_text(pushed) =~= seq![(seq![t[0]] + sr[0]).push(c)]);
                assert((seq![t[0]] + sr[0]).push(c) =~= seq![t[0]] + sr[0].push(c));
                assert(s.update(s.len() - 1, s.last().push(c)) =~= seq![seq![t[0]] + sr[0].push(
                    c,
                )]);
            } else {
                assert(srp == sr.update(sr.len() - 1, sr.last().push(c)));
                assert(srp[0] == sr[0]);
                assert(spec_split_text(pushed) =~= s.update(s.len() - 1, s.last().push(c)));
            }
        }
    }
}

/// Extending the text by a separator opens a new, empty last line.
pub proof fn lemma_split_text_push_newline(t: Seq<char>)
    ensures
        spec_split_text(t.push('\n')) == spec_split_text(t).push(Seq::<char>::empty()),
    decreases t.len(),
{
    lemma_split_text_nonempty(t);
    let s = spec_split_text(t);
    if t.len() == 0 {
        assert(t.push('\n') =~= seq!['\n']);
        assert(seq!['\n'].subrange(1, 1) =~= Seq::<char>::empty());
        assert(spec_split_text(Seq::<char>::empty()) == seq![Seq::<char>::empty()]);
        assert(spec_split_text(seq!['\n']) =~~= s.push(Seq::<char>::empty()));
    } else {
        let rest_t = t.subrange(1, t.len() as int);
        lemma_split_text_push_newline(rest_t);
        lemma_split_text_nonempty(rest_t);
        let sr = spec_split_text(rest_t);
        let pushed = t.push('\n');
        assert(pushed[0] == t[0]);
        assert(pushed.subrange(1, pushed.len() as int) =~= rest_t.push('\n'));
        let srp = spec_split_text(rest_t.push('\n'));
        assert(srp == sr.push(Seq::<char>::empty()));
        if t[0] == '\n' {
            assert(seq![Seq::<char>::empty()] + sr.push(Seq::<char>::empty()) =~= s.push(
                Seq::<char>::empty(),
            ));
        } else {
            assert(srp[0] == sr[0]);
            assert(srp.subrange(1, srp.len() as int) =~= sr.subrange(1, sr.len() as int).push(
                Seq::<char>::empty(),
            ));
            assert(seq![seq![t[0]] + srp[0]] + srp.subrange(1, srp.len() as int) =~= s.push(
                Seq::<char>::empty(),
            ));
        }
    }
}

/// Joining one more line appends a separator and that line.
pub proof fn lemma_join_lines_push(lines: Seq<Seq<char>>, x: Seq<char>)
    requires
        lines.len() >= 1,
    ensures
        spec_join_lines(lines.push(x)) == spec_join_lines(lines) + seq!['\n'] + x,
    decreases lines.len(),
{
    if lines.len() == 1 {
        let whole = lines.push(x);
        assert(whole.subrange(1, whole.len() as int) =~= seq![x]);
        assert(spec_join_lines(whole) == lines[0] + seq!['\n'] + spec_join_lines(seq![x]));
    } else {
        let tail = lines.subrange(1, lines.len() as int);
        lemma_join_lines_push(tail, x);
        let whole = lines.push(x);
        assert(whole.subrange(1, whole.len() as int) =~= tail.push(x));
        assert(spec_join_lines(whole) == lines[0] + seq!['\n'] + spec_join_lines(tail.push(x)));
        assert(lines[0] + seq!['\n'] + (spec_join_lines(tail) + seq!['\n'] + x) =~= (lines[0]
            + seq!['\n'] + spec_join_lines(tail)) + seq!['\n'] + x);
    }
}

/// Law: loading a document and saving it unedited reproduces the loaded
/// characters up to one absent trailing newline — exactly the stripped
/// form of the loaded text is written back.
pub proof fn lemma_load_save_round_trip(t: Seq<char>)
    ensures
        spec_join_lines(spec_document_lines(t)) == spec_strip_trailing_newline(t),
{
    lemma_join_split(spec_strip_trailing_newline(t));
}

/// Cuts a loaded document into its lines: `text` is split at every `'\n'`,
/// after one trailing separator, if present, is dropped as the terminator
/// of the last line.
pub fn split_document(text: &Vec<char>) -> (lines: Vec<Vec<char>>)
    ensures
        lines.deep_view() == spec_document_lines(text@),
        lines@.len() >= 1,
{
    let mut n = text.len();
    if n > 0 && text[n - 1] == '\n' {
        n = n - 1;
    }
    let ghost stripped = spec_strip_trailing_newline(text@);
    proof {
        assert(stripped =~= text@.subrange(0, n as int));
    }
    let mut lines: Vec<Vec<char>> = Vec::new();
    let mut cur: Vec<char> = Vec::new();
    let mut i: usize = 0;
    proof {
        assert(stripped.subrange(0, 0) =~= Seq::<char>::empty());
        assert(lines.deep_view().push(cur@) =~~= seq![Seq::<char>::empty()]);
    }
    while i < n
        invariant
            i <= n,
            n <= text@.len(),
            stripped == text@.subrange(0, n as int),
            lines.deep_view().push(cur@) == spec_split_text(stripped.subrange(0, i as int)),
        decreases n - i,
    {
        let ghost done = stripped.subrange(0, i as int);
        let c = text[i];
        proof {
            assert(stripped.subrange(0, i + 1) =~= done.push(c));
        }
        if c == '\n' {
            proof {
                lemma_split_text_push_newline(done);
            }
            let ghost previous = lines.deep_view();
            let ghost finished = cur@;
            lines.push(cur);
            cur = Vec::new();
            proof {
                assert(lines.deep_view() =~~= previous.push(finished));
                assert(lines.deep_view().push(cur@) =~~= spec_split_text(stripped.subrange(
                    0,
                    i + 1,
                )));
            }
        } else {
            proof {
                lemma_split_text_push_char(done, c);
            }
            let ghost previous = lines.deep_view().push(cur@);
            cur.push(c);
            proof {
                assert(lines.deep_view().push(cur@) =~~= previous.update(
                    previous.len() - 1,
                    previous.last().push(c),
                ));
            }
        }
        i = i + 1;
    }
    proof {
        assert(stripped.subrange(0, n as int) =~= stripped);
        lemma_split_text_nonempty(stripped);
    }
    lines.push(cur);
    proof {
        assert(lines.deep_view() =~~= spec_split_text(stripped));
    }
    lines
}

/// Writes the lines back as one document: a single `'\n'` between
/// consecutive lines, none at the end.
pub fn join_lines(lines: &Vec<Vec<char>>) -> (text: Vec<char>)
    ensures
        text@ == spec_join_lines(lines.deep_view()),
{
    let ghost all = lines.deep_view();
    let mut text: Vec<char> = Vec::new();
    let mut li: usize = 0;
    proof {
        assert(all.subrange(0, 0) =~= Seq::<Seq<char>>::empty());
    }
    while li < lines.len()
        invariant
            li <= all.len(),
            all == lines.deep_view(),
            text@ == spec_join_lines(all.subrange(0, li as int)),
        decreases all.len() - li,
    {
        let ghost before = all.subrange(0, li as int);
        if li > 0 {
            text.push('\n');
        }
        let line = &lines[li];
        proof {
            assert(line@ == all[li as int]);
        }
        let ghost mid = text@;
        let mut ci: usize = 0;
        while ci < line.len()
            invariant
                ci <= line@.len(),
                text@ == mid + line@.subrange(0, ci as int),
            decreases line@.len() - ci,
        {
            let c = line[ci];
            text.push(c);
            proof {
                assert(line@.subrange(0, ci + 1) =~= line@.subrange(0, ci as int).push(c));
                assert(text@ =~= mid + line@.subrange(0, ci + 1));
            }
            ci = ci + 1;
        }
        proof {
            assert(line@.subrange(0, line@.len() as int) =~= line@);
            assert(before.push(all[li as int]) =~= all.subrange(0, li + 1));
            if li == 0 {
                assert(text@ =~= all[0]);
                assert(all.subrange(0, 1).len() == 1);
                assert(spec_join_lines(all.subrange(0, 1)) == all.subrange(0, 1)[0]);
                assert(text@ =~= spec_join_lines(all.subrange(0, li + 1)));
            } else {
                lemma_join_lines_push(before, all[li as int]);
                assert(text@ =~= spec_join_lines(before) + seq!['\n'] + all[li as int]);
                assert(text@ =~= spec_join_lines(all.subrange(0, li + 1)));
            }
        }
        li = li + 1;
    }
    proof {
        assert(all.subrange(0, all.len() as int) =~= all);
    }
    text
}

} // verus!
