//! Parsing of the newline-delimited bootstrap-address file: lines are
//! trimmed of blanks; empty lines and `#` comments are ignored.

use crate::strutil::{is_blank, is_blank_char};
use vstd::prelude::*;
use vstd::string::*;

verus! {

/// `s` without its leading blanks.
pub open spec fn trim_front(s: Seq<char>) -> Seq<char>
    decreases s.len(),
{
    if s.len() == 0 {
        s
    } else if is_blank_char(s.first()) {
        trim_front(s.drop_first())
    } else {
        s
    }
}

/// `s` without its trailing blanks.
pub open spec fn trim_back(s: Seq<char>) -> Seq<char>
    decreases s.len(),
{
    if s.len() == 0 {
        s
    } else if is_blank_char(s.last()) {
        trim_back(s.drop_last())
    } else {
        s
    }
}

/// `s` without leading and trailing blanks.
pub open spec fn trimmed(s: Seq<char>) -> Seq<char> {
    trim_back(trim_front(s))
}

/// A line names an address when something is left after trimming and
/// it is not a comment.
pub open spec fn line_kept(l: Seq<char>) -> bool {
    trimmed(l).len() > 0 && trimmed(l)[0] != '#'
}

/// The lines of `s`, split at every newline; the text has one more
/// line than it has newlines.
pub open spec fn split_lines(s: Seq<char>) -> Seq<Seq<char>>
    decreases s.len(),
{
    if s.len() == 0 {
        seq![s]
    } else if s.first() == '\n' {
        seq![Seq::<char>::empty()] + split_lines(s.drop_first())
    } else {
        let rest = split_lines(s.drop_first());
        rest.update(0, seq![s.first()] + rest[0])
    }
}

/// The kept lines, trimmed, in order.
pub open spec fn kept_trimmed(lines: Seq<Seq<char>>) -> Seq<Seq<char>>
    decreases lines.len(),
{
    if lines.len() == 0 {
        lines
    } else {
        let prefix = kept_trimmed(lines.drop_last());
        if line_kept(lines.last()) {
            prefix.push(trimmed(lines.last()))
        } else {
            prefix
        }
    }
}

/// The addresses a bootstrap file's text names.
pub open spec fn bootstrap_addrs_of(s: Seq<char>) -> Seq<Seq<char>> {
    kept_trimmed(split_lines(s))
}

/// Splitting never yields an empty line list.
proof fn lemma_split_nonempty(s: Seq<char>)
    ensures
        split_lines(s).len() >= 1,
    decreases s.len(),
{
    if s.len() > 0 && s.first() != '\n' {
        lemma_split_nonempty(s.drop_first());
    }
}

/// A text without newlines is one line.
proof fn lemma_split_no_newline(s: Seq<char>)
    requires
        forall|j: int| 0 <= j < s.len() ==> s[j] != '\n',
    ensures
        split_lines(s) =~~= seq![s],
    decreases s.len(),
{
    if s.len() > 0 {
        assert forall|j: int| 0 <= j < s.drop_first().len() implies s.drop_first()[j] != '\n' by {
            assert(s.drop_first()[j] == s[j + 1]);
        }
        lemma_split_no_newline(s.drop_first());
        lemma_split_nonempty(s.drop_first());
        assert(seq![s.first()] + s.drop_first() =~= s);
    }
}

/// Splitting at the first newline: the text before it is the first
/// line, and the rest splits on its own.
proof fn lemma_split_break(s: Seq<char>, i: int)
    requires
        0 <= i < s.len(),
        s[i] == '\n',
        forall|j: int| 0 <= j < i ==> s[j] != '\n',
    ensures
        split_lines(s) =~~= seq![s.subrange(0, i)] + split_lines(
            s.subrange(i + 1, s.len() as int),
        ),
    decreases s.len(),
{
    if i == 0 {
        assert(s.subrange(0, 0) =~= Seq::<char>::empty());
        assert(s.subrange(1, s.len() as int) =~= s.drop_first());
    } else {
        let t = s.drop_first();
        assert(t[i - 1] == '\n');
        assert forall|j: int| 0 <= j < i - 1 implies t[j] != '\n' by {
            assert(t[j] == s[j + 1]);
        }
        lemma_split_break(t, i - 1);
        lemma_split_nonempty(t);
        assert(t.subrange(0, i - 1) =~= s.subrange(1, i));
        assert(t.subrange(i, t.len() as int) =~= s.subrange(i + 1, s.len() as int));
        assert(seq![s.first()] + s.subrange(1, i) =~= s.subrange(0, i));
    }
}

/// Trims the blanks off both ends of a line.
pub fn trim_str(s: &str) -> (r: String)
    ensures
        r@ == trimmed(s@),
{
    let n = s.unicode_len();
    proof {
        assert(s@.subrange(0, n as int) =~= s@);
    }
    let mut start: usize = 0;
    while start < n && is_blank(s.get_char(start))
        invariant
            n == s@.len(),
            0 <= start <= n,
            trim_front(s@) == trim_front(s@.subrange(start as int, n as int)),
        decreases n - start,
    {
        proof {
            assert(s@.subrange(start as int, n as int).drop_first() =~= s@.subrange(
                start + 1,
                n as int,
            ));
        }
        start += 1;
    }
    proof {
        if start < n {
            assert(trim_front(s@) == s@.subrange(start as int, n as int));
        } else {
            assert(s@.subrange(start as int, n as int) =~= Seq::<char>::empty());
        }
    }
    let mut end: usize = n;
    while end > start && is_blank(s.get_char(end - 1))
        invariant
            n == s@.len(),
            0 <= start <= end <= n,
            trim_front(s@) == trim_front(s@.subrange(start as int, n as int)),
            trim_back(s@.subrange(start as int, n as int)) == trim_back(
                s@.subrange(start as int, end as int),
            ),
        decreases end,
    {
        proof {
            assert(s@.subrange(start as int, end as int).drop_last() =~= s@.subrange(
                start as int,
                end - 1,
            ));
        }
        end -= 1;
    }
    proof {
        if end > start {
            assert(trim_back(s@.subrange(start as int, end as int)) == s@.subrange(
                start as int,
                end as int,
            ));
        } else {
            assert(s@.subrange(start as int, end as int) =~= Seq::<char>::empty());
        }
        assert(trimmed(s@) == trim_back(trim_front(s@)));
    }
    String::from_str(s.substring_char(start, end))
}

/// Whether a line, after trimming, names an address.
fn line_accepted(trimmed_line: &String) -> (r: bool)
    ensures
        r == (trimmed_line@.len() > 0 && trimmed_line@[0] != '#'),
{
    let n = trimmed_line.as_str().unicode_len();
    if n == 0 {
        false
    } else {
        trimmed_line.as_str().get_char(0) != '#'
    }
}

/// Splits a text into its lines.
fn split_into_lines(s: &str) -> (r: Vec<String>)
    ensures
        r@.len() == split_lines(s@).len(),
        forall|i: int| 0 <= i < r@.len() ==> #[trigger] r@[i]@ == split_lines(s@)[i],
{
    let n = s.unicode_len();
    let mut out: Vec<String> = Vec::new();
    proof {
        assert(s@.subrange(0, n as int) =~= s@);
        assert(Seq::new(0nat, |k: int| out@[k]@) + split_lines(s@) =~~= split_lines(s@));
    }
    let mut line_start: usize = 0;
    let mut i: usize = 0;
    while i < n
        invariant
            n == s@.len(),
            0 <= line_start <= i <= n,
            forall|j: int| line_start <= j < i ==> s@[j] != '\n',
            split_lines(s@) =~~= Seq::new(out@.len() as nat, |k: int| out@[k]@) + split_lines(
                s@.subrange(line_start as int, n as int),
            ),
        decreases n - i,
    {
        if s.get_char(i) == '\n' {
            let ghost tail = s@.subrange(line_start as int, n as int);
            proof {
                assert(tail[i - line_start as int] == '\n');
                assert forall|j: int| 0 <= j < i - line_start as int implies tail[j] != '\n' by {
                    assert(tail[j] == s@[line_start + j]);
                }
                lemma_split_break(tail, i - line_start as int);
                assert(tail.subrange(0, i - line_start as int) =~= s@.subrange(
                    line_start as int,
                    i as int,
                ));
                assert(tail.subrange(
                    i - line_start as int + 1,
                    tail.len() as int,
                ) =~= s@.subrange(i + 1, n as int));
            }
            let line = String::from_str(s.substring_char(line_start, i));
            out.push(line);
            proof {
                assert(Seq::new(out@.len() as nat, |k: int| out@[k]@) =~= Seq::new(
                    (out@.len() - 1) as nat,
                    |k: int| out@[k]@,
                ).push(s@.subrange(line_start as int, i as int)));
            }
            line_start = i + 1;
        }
        i += 1;
    }
    proof {
        let tail = s@.subrange(line_start as int, n as int);
        assert forall|j: int| 0 <= j < tail.len() implies tail[j] != '\n' by {
            assert(tail[j] == s@[line_start + j]);
        }
        lemma_split_no_newline(tail);
    }
    let last = String::from_str(s.substring_char(line_start, n));
    out.push(last);
    proof {
        assert(Seq::new(out@.len() as nat, |k: int| out@[k]@) =~= Seq::new(
            (out@.len() - 1) as nat,
            |k: int| out@[k]@,
        ).push(s@.subrange(line_start as int, n as int)));
        assert forall|i2: int| 0 <= i2 < out@.len() implies #[trigger] out@[i2]@ == split_lines(
            s@,
        )[i2] by {
            assert(Seq::new(out@.len() as nat, |k: int| out@[k]@)[i2] == out@[i2]@);
        }
    }
    out
}

/// The addresses named by a bootstrap file's text: one per line,
/// trimmed, with empty lines and `#` comments left out.
pub fn parse_bootstrap_lines(contents: &str) -> (r: Vec<String>)
    ensures
        r@.len() == bootstrap_addrs_of(contents@).len(),
        forall|i: int| 0 <= i < r@.len() ==> #[trigger] r@[i]@ == bootstrap_addrs_of(contents@)[i],
{
    let lines = split_into_lines(contents);
    let ghost spec_lines = split_lines(contents@);
    let mut out: Vec<String> = Vec::new();
    let mut i: usize = 0;
    while i < lines.len()
        invariant
            lines@.len() == spec_lines.len(),
            forall|k: int| 0 <= k < lines@.len() ==> #[trigger] lines@[k]@ == spec_lines[k],
            0 <= i <= lines@.len(),
            out@.len() == kept_trimmed(spec_lines.subrange(0, i as int)).len(),
            forall|k: int|
                0 <= k < out@.len() ==> #[trigger] out@[k]@ == kept_trimmed(
                    spec_lines.subrange(0, i as int),
                )[k],
        decreases lines@.len() - i,
    {
        proof {
            assert(spec_lines.subrange(0, i + 1).drop_last() =~= spec_lines.subrange(0, i as int));
            assert(spec_lines.subrange(0, i + 1).last() == spec_lines[i as int]);
        }
        let t = trim_str(lines[i].as_str());
        if line_accepted(&t) {
            out.push(t);
        }
        i += 1;
    }
    proof {
        assert(spec_lines.subrange(0, spec_lines.len() as int) =~= spec_lines);
    }
    out
}

} // verus!
