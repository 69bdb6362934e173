//! Tabular reports: the captured text of an external command-line utility,
//! split into its first line (the header) and the remaining lines, verbatim
//! and in their original order.

use vstd::prelude::*;
use vstd::string::StrSliceExecFns;

verus! {

/// One external tool's captured output: the first line of the text, and
/// every later line verbatim, in the tool's own order, unparsed.
pub struct TabularReport {
    pub header: String,
    pub rows: Vec<String>,
}

/// A line that was terminated by a line feed loses a carriage return that
/// stood just before the terminator; any other carriage return stays.
pub open spec fn strip_trailing_cr(l: Seq<char>) -> Seq<char> {
    if l.len() > 0 && l[l.len() - 1] == '\r' {
        l.drop_last()
    } else {
        l
    }
}

/// Position of the first line feed in `s`, or `s.len()` if there is none.
pub open spec fn first_newline(s: Seq<char>) -> nat
    decreases s.len(),
{
    if s.len() == 0 {
        0
    } else if s[0] == '\n' {
        0
    } else {
        1 + first_newline(s.drop_first())
    }
}

pub proof fn lemma_first_newline(s: Seq<char>)
    ensures
        first_newline(s) <= s.len(),
        first_newline(s) < s.len() ==> s[first_newline(s) as int] == '\n',
        forall|j: int| 0 <= j < first_newline(s) ==> s[j] != '\n',
    decreases s.len(),
{
    if s.len() == 0 {
    } else if s[0] == '\n' {
    } else {
        lemma_first_newline(s.drop_first());
        assert forall|j: int| 0 <= j < first_newline(s) implies s[j] != '\n' by {
            if j > 0 {
                assert(s[j] == s.drop_first()[j - 1]);
            }
        }
    }
}

/// The first line feed is exactly the line feed that nothing precedes.
pub proof fn lemma_first_newline_at(s: Seq<char>, k: int)
    requires
        0 <= k < s.len(),
        s[k] == '\n',
        forall|j: int| 0 <= j < k ==> s[j] != '\n',
    ensures
        first_newline(s) == k,
{
    lemma_first_newline(s);
    if first_newline(s) < k {
        assert(s[first_newline(s) as int] != '\n');
    }
    if first_newline(s) > k {
        assert(s[k] != '\n');
    }
}

pub proof fn lemma_no_newline(s: Seq<char>)
    requires
        forall|j: int| 0 <= j < s.len() ==> s[j] != '\n',
    ensures
        first_newline(s) == s.len(),
{
    lemma_first_newline(s);
    if first_newline(s) < s.len() {
        assert(s[first_newline(s) as int] != '\n');
    }
}

/// The lines of `s`: pieces terminated by a line feed (a carriage return
/// just before the terminator is dropped with it), plus a final
/// unterminated piece if one is left. Text that ends with a terminator has
/// no empty line after it.
pub open spec fn spec_lines(s: Seq<char>) -> Seq<Seq<char>>
    decreases s.len(),
    via spec_lines_decreases
{
    if s.len() == 0 {
        Seq::empty()
    } else {
        let i = first_newline(s) as int;
        if i == s.len() {
            seq![s]
        } else {
            seq![strip_trailing_cr(s.take(i))] + spec_lines(s.skip(i + 1))
        }
    }
}

#[via_fn]
proof fn spec_lines_decreases(s: Seq<char>) {
    lemma_first_newline(s);
}

/// Text has lines exactly when it has characters.
pub proof fn lemma_lines_empty(s: Seq<char>)
    ensures
        spec_lines(s).len() == 0 <==> s.len() == 0,
{
    if s.len() > 0 {
        lemma_first_newline(s);
    }
}

/// Splits captured text into its lines, exactly as `spec_lines` describes
/// them.
pub fn split_lines(s: &str) -> (lines: Vec<String>)
    ensures
        lines.deep_view() == spec_lines(s@),
{
    let n = s.unicode_len();
    let mut lines: Vec<String> = Vec::new();
    let mut start: usize = 0;
    let mut i: usize = 0;
    proof {
        assert(lines.deep_view() =~= Seq::<Seq<char>>::empty());
        assert(s@.skip(0) =~= s@);
        assert(Seq::<Seq<char>>::empty() + spec_lines(s@) =~= spec_lines(s@));
    }
    while i < n
        invariant
            start <= i <= n,
            n == s@.len(),
            forall|j: int| start <= j < i ==> s@[j] != '\n',
            spec_lines(s@) == lines.deep_view() + spec_lines(s@.skip(start as int)),
        decreases n - i,
    {
        let c = s.get_char(i);
        if c == '\n' {
            let line: &str = if i > start && s.get_char(i - 1) == '\r' {
                s.substring_char(start, i - 1)
            } else {
                s.substring_char(start, i)
            };
            let ghost t = s@.skip(start as int);
            let ghost k = i - start;
            proof {
                assert forall|j: int| 0 <= j < k implies t[j] != '\n' by {
                    assert(t[j] == s@[start + j]);
                }
                assert(t[k as int] == s@[i as int]);
                lemma_first_newline_at(t, k as int);
                assert(spec_lines(t) == seq![strip_trailing_cr(t.take(k as int))]
                    + spec_lines(t.skip(k as int + 1)));
                assert(t.take(k as int) =~= s@.subrange(start as int, i as int));
                assert(t.skip(k as int + 1) =~= s@.skip(i as int + 1));
                if i > start && s@[i - 1] == '\r' {
                    assert(strip_trailing_cr(s@.subrange(start as int, i as int)) =~= s@.subrange(
                        start as int,
                        i - 1,
                    ));
                } else {
                    assert(strip_trailing_cr(s@.subrange(start as int, i as int)) =~= s@.subrange(
                        start as int,
                        i as int,
                    ));
                }
                assert(line@ == strip_trailing_cr(t.take(k as int)));
            }
            let ghost dv0 = lines.deep_view();
            let ghost l0 = line@;
            let owned: String = line.to_owned();
            lines.push(owned);
            proof {
                assert(lines.deep_view() =~= dv0.push(l0));
                assert(dv0.push(l0) =~= dv0 + seq![l0]);
                assert((dv0 + seq![l0]) + spec_lines(s@.skip(i as int + 1)) =~= dv0 + (seq![l0]
                    + spec_lines(s@.skip(i as int + 1))));
                assert(spec_lines(s@) == lines.deep_view() + spec_lines(s@.skip(i as int + 1)));
            }
            start = i + 1;
        }
        i = i + 1;
    }
    if start < n {
        let line = s.substring_char(start, n);
        let ghost t = s@.skip(start as int);
        proof {
            assert forall|j: int| 0 <= j < t.len() implies t[j] != '\n' by {
                assert(t[j] == s@[start + j]);
            }
            lemma_no_newline(t);
            assert(spec_lines(t) == seq![t]);
            assert(t =~= s@.subrange(start as int, n as int));
        }
        let ghost dv0 = lines.deep_view();
        let owned: String = line.to_owned();
        lines.push(owned);
        proof {
            assert(lines.deep_view() =~= dv0.push(t));
            assert(dv0.push(t) =~= dv0 + seq![t]);
        }
    } else {
        proof {
            assert(s@.skip(start as int) =~= Seq::<char>::empty());
            assert(spec_lines(s@.skip(start as int)) =~= Seq::<Seq<char>>::empty());
            assert(lines.deep_view() + Seq::<Seq<char>>::empty() =~= lines.deep_view());
        }
    }
    lines
}

/// Splits one tool's captured output into a header (its first line) and
/// rows (every later line, in order). `None` exactly when the text is
/// empty, that is, when it has no lines at all.
pub fn split_tabular(text: &str) -> (r: Option<TabularReport>)
    ensures
        r matches Some(rep) ==> spec_lines(text@).len() >= 1 && rep.header@ == spec_lines(
            text@,
        )[0] && rep.rows.deep_view() == spec_lines(text@).skip(1) && rep.rows@.len() + 1
            == spec_lines(text@).len(),
        r is None <==> text@.len() == 0,
{
    let mut lines = split_lines(text);
    proof {
        lemma_lines_empty(text@);
    }
    if lines.len() == 0 {
        None
    } else {
        let ghost full = spec_lines(text@);
        let ghost dv0 = lines.deep_view();
        let header = lines.remove(0);
        proof {
            assert(header@ == dv0[0]);
            assert(lines.deep_view() =~= full.skip(1));
        }
        Some(TabularReport { header, rows: lines })
    }
}

} // verus!
