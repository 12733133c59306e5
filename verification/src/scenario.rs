//! Scenario file parsing: a scenario document holds a single list field
//! `steps`, each entry an object with the one key `wait-serial`, whose value
//! is the literal substring to await. A document that does not have this
//! shape is a configuration error, fatal before any run starts.

use vstd::prelude::*;
use vstd::string::StrSliceExecFns;
use vstd::string::StringExecFns;
use crate::errors::ErrorKind;
use crate::matcher::ExpectedEvent;
use crate::matcher::Scenario;
use crate::matcher::step_texts;
use crate::strutil::str_eq;
use crate::strutil::str_starts_with;

verus! {

/// The newline separator splits a document into lines; the separator itself
/// belongs to no line.
pub open spec fn split_lines(s: Seq<char>) -> Seq<Seq<char>>
    decreases s.len(),
{
    if s.len() == 0 {
        seq![Seq::<char>::empty()]
    } else if s[0] == '\n' {
        seq![Seq::<char>::empty()] + split_lines(s.drop_first())
    } else {
        let rest = split_lines(s.drop_first());
        seq![seq![s[0]] + rest[0]] + rest.drop_first()
    }
}

/// A split has at least one line.
pub proof fn lemma_split_lines_len(s: Seq<char>)
    ensures
        split_lines(s).len() >= 1,
    decreases s.len(),
{
    if s.len() > 0 {
        lemma_split_lines_len(s.drop_first());
    }
}

/// Up to its first newline, a document is one line followed by the split of
/// what comes after the newline.
proof fn lemma_split_lines_at_newline(s: Seq<char>, j: int)
    requires
        0 <= j < s.len(),
        s[j] == '\n',
        forall|k: int| 0 <= k < j ==> s[k] != '\n',
    ensures
        split_lines(s) == seq![s.take(j)] + split_lines(s.skip(j + 1)),
    decreases j,
{
    if j == 0 {
        assert(s.take(0) =~= Seq::<char>::empty());
        assert(s.drop_first() =~= s.skip(1));
    } else {
        lemma_split_lines_at_newline(s.drop_first(), j - 1);
        lemma_split_lines_len(s.drop_first().skip(j));
        let rest = split_lines(s.drop_first());
        assert(rest[0] == s.drop_first().take(j - 1));
        assert(seq![s[0]] + s.drop_first().take(j - 1) =~= s.take(j));
        assert(rest.drop_first() =~~= split_lines(s.drop_first().skip(j)));
        assert(s.drop_first().skip(j) =~= s.skip(j + 1));
        assert(split_lines(s) =~~= seq![s.take(j)] + split_lines(s.skip(j + 1)));
    }
}

/// A document without a newline is a single line.
proof fn lemma_split_lines_no_newline(s: Seq<char>)
    requires
        forall|k: int| 0 <= k < s.len() ==> s[k] != '\n',
    ensures
        split_lines(s) == seq![s],
    decreases s.len(),
{
    if s.len() == 0 {
        assert(s =~= Seq::<char>::empty());
        assert(seq![Seq::<char>::empty()] =~~= seq![s]);
    } else {
        lemma_split_lines_no_newline(s.drop_first());
        let rest = split_lines(s.drop_first());
        assert(rest[0] == s.drop_first());
        assert(seq![s[0]] + s.drop_first() =~= s);
        assert(rest.drop_first() =~~= Seq::<Seq<char>>::empty());
        assert(split_lines(s) =~~= seq![s]);
    }
}

/// Splits a document into its lines.
fn split_lines_exec(text: &str) -> (r: Vec<String>)
    ensures
        r.deep_view() == split_lines(text@),
{
    let n = text.unicode_len();
    let mut out: Vec<String> = Vec::new();
    let mut start: usize = 0;
    let mut i: usize = 0;
    proof {
        assert(text@.skip(0) =~= text@);
        assert(out.deep_view() =~= Seq::<Seq<char>>::empty());
    }
    while i < n
        invariant
            n == text@.len(),
            start <= i <= n,
            forall|k: int| start <= k < i ==> text@[k] != '\n',
            out.deep_view() + split_lines(text@.skip(start as int)) == split_lines(text@),
        decreases n - i,
    {
        let c = text.get_char(i);
        if c == '\n' {
            let line = text.substring_char(start, i);
            let ghost pre = out.deep_view();
            out.push(String::from_str(line));
            proof {
                let suf = text@.skip(start as int);
                assert forall|k: int| 0 <= k < i - start implies suf[k] != '\n' by {
                    assert(suf[k] == text@[start + k]);
                }
                assert(suf[i - start] == text@[i as int]);
                lemma_split_lines_at_newline(suf, i - start);
                assert(suf.take(i - start) =~= line@);
                assert(suf.skip(i - start + 1) =~= text@.skip(i + 1));
                assert(out.deep_view() =~~= pre.push(line@));
                assert(pre.push(line@) + split_lines(text@.skip(i + 1)) =~~= pre + (seq![line@]
                    + split_lines(text@.skip(i + 1))));
                assert(out.deep_view() + split_lines(text@.skip(i + 1)) == split_lines(text@));
            }
            start = i + 1;
        }
        i = i + 1;
    }
    let line = text.substring_char(start, n);
    let ghost pre = out.deep_view();
    out.push(String::from_str(line));
    proof {
        let suf = text@.skip(start as int);
        assert forall|k: int| 0 <= k < suf.len() implies suf[k] != '\n' by {
            assert(suf[k] == text@[start + k]);
        }
        lemma_split_lines_no_newline(suf);
        assert(suf =~= line@);
        assert(out.deep_view() =~~= pre.push(line@));
        assert(pre.push(line@) =~~= pre + seq![line@]);
    }
    out
}

/// The characters trimming removes at a line's ends.
pub open spec fn is_space(c: char) -> bool {
    c == ' ' || c == '\t' || c == '\r'
}

/// A line with its leading spaces removed.
pub open spec fn trim_front(l: Seq<char>) -> Seq<char>
    decreases l.len(),
{
    if l.len() > 0 && is_space(l[0]) {
        trim_front(l.drop_first())
    } else {
        l
    }
}

/// A line with its trailing spaces removed.
pub open spec fn trim_back(l: Seq<char>) -> Seq<char>
    decreases l.len(),
{
    if l.len() > 0 && is_space(l.last()) {
        trim_back(l.drop_last())
    } else {
        l
    }
}

/// A line with spaces removed at both ends.
pub open spec fn trimmed(l: Seq<char>) -> Seq<char> {
    trim_back(trim_front(l))
}

proof fn lemma_trim_front_at(l: Seq<char>, a: int)
    requires
        0 <= a <= l.len(),
        forall|k: int| 0 <= k < a ==> is_space(l[k]),
        a == l.len() || !is_space(l[a]),
    ensures
        trim_front(l) == l.skip(a),
    decreases a,
{
    if a == 0 {
        assert(l.skip(0) =~= l);
    } else {
        lemma_trim_front_at(l.drop_first(), a - 1);
        assert(l.drop_first().skip(a - 1) =~= l.skip(a));
    }
}

proof fn lemma_trim_back_at(l: Seq<char>, b: int)
    requires
        0 <= b <= l.len(),
        forall|k: int| b <= k < l.len() ==> is_space(l[k]),
        b == 0 || !is_space(l[b - 1]),
    ensures
        trim_back(l) == l.take(b),
    decreases l.len(),
{
    if b == l.len() {
        if l.len() == 0 {
            assert(l.take(0) =~= l);
        } else {
            assert(l.take(b) =~= l);
        }
    } else {
        assert(is_space(l.last()));
        lemma_trim_back_at(l.drop_last(), b);
        assert(l.drop_last().take(b) =~= l.take(b));
    }
}

/// Whether the character at `i` is trimmable space.
fn space_at(line: &str, i: usize) -> (r: bool)
    requires
        i < line@.len(),
    ensures
        r == is_space(line@[i as int]),
{
    let c = line.get_char(i);
    c == ' ' || c == '\t' || c == '\r'
}

/// Trims a line at both ends.
fn trimmed_str<'a>(line: &'a str) -> (r: &'a str)
    ensures
        r@ == trimmed(line@),
{
    let n = line.unicode_len();
    let mut a: usize = 0;
    while a < n && space_at(line, a)
        invariant
            n == line@.len(),
            a <= n,
            forall|k: int| 0 <= k < a ==> is_space(line@[k]),
        decreases n - a,
    {
        a = a + 1;
    }
    proof {
        lemma_trim_front_at(line@, a as int);
    }
    let mut b: usize = n;
    while b > a && space_at(line, b - 1)
        invariant
            n == line@.len(),
            a <= b <= n,
            forall|k: int| b <= k < n ==> is_space(line@[k]),
        decreases b,
    {
        b = b - 1;
    }
    proof {
        let front = line@.skip(a as int);
        assert forall|k: int| b - a <= k < front.len() implies is_space(front[k]) by {
            assert(front[k] == line@[a + k]);
        }
        if b > a {
            assert(front[b - a - 1] == line@[b - 1]);
        }
        lemma_trim_back_at(front, b - a);
        assert(front.take(b - a) =~= line@.subrange(a as int, b as int));
    }
    line.substring_char(a, b)
}

/// The key of a step entry, with the list dash: what every entry line
/// starts with once trimmed.
pub open spec fn wait_serial_prefix() -> Seq<char> {
    "- wait-serial: "@
}

/// A quoted value loses its quotes; anything else is taken literally.
pub open spec fn unquote(v: Seq<char>) -> Seq<char> {
    if v.len() >= 2 && v[0] == '"' && v.last() == '"' {
        v.subrange(1, v.len() - 1)
    } else {
        v
    }
}

/// The awaited substring of a step entry line, if the line is one.
pub open spec fn step_value_of(l: Seq<char>) -> Option<Seq<char>> {
    let t = trimmed(l);
    if t.len() >= wait_serial_prefix().len() && t.take(wait_serial_prefix().len() as int)
        == wait_serial_prefix() {
        Some(unquote(t.skip(wait_serial_prefix().len() as int)))
    } else {
        None
    }
}

/// A line with no content after trimming.
pub open spec fn is_blank(l: Seq<char>) -> bool {
    trimmed(l).len() == 0
}

/// The step values of the lines after the header: blank lines are skipped;
/// a line that is neither blank nor a step entry makes the document
/// malformed.
pub open spec fn parse_step_lines(lines: Seq<Seq<char>>) -> Option<Seq<Seq<char>>>
    decreases lines.len(),
{
    if lines.len() == 0 {
        Some(Seq::empty())
    } else if is_blank(lines[0]) {
        parse_step_lines(lines.drop_first())
    } else {
        match step_value_of(lines[0]) {
            Some(v) => match parse_step_lines(lines.drop_first()) {
                Some(r) => Some(seq![v] + r),
                None => None,
            },
            None => None,
        }
    }
}

/// A scenario document: blank lines, then the `steps:` header, then the
/// entries. A document without the header — the empty document included —
/// is malformed.
pub open spec fn parse_doc_lines(lines: Seq<Seq<char>>) -> Option<Seq<Seq<char>>>
    decreases lines.len(),
{
    if lines.len() == 0 {
        None
    } else if is_blank(lines[0]) {
        parse_doc_lines(lines.drop_first())
    } else if trimmed(lines[0]) == "steps:"@ {
        parse_step_lines(lines.drop_first())
    } else {
        None
    }
}

/// What a scenario document denotes: the awaited texts in order, or nothing
/// when the document is malformed.
pub open spec fn parse_scenario_text(text: Seq<char>) -> Option<Seq<Seq<char>>> {
    parse_doc_lines(split_lines(text))
}

/// Whether a line has no content after trimming.
fn line_blank(line: &str) -> (r: bool)
    ensures
        r == is_blank(line@),
{
    let t = trimmed_str(line);
    t.is_empty()
}

/// The awaited substring of a step entry line, or nothing when the line is
/// no entry.
fn step_value_exec(line: &str) -> (r: Option<String>)
    ensures
        match r {
            Some(v) => step_value_of(line@) == Some(v@),
            None => step_value_of(line@) is None,
        },
{
    let t = trimmed_str(line);
    if !str_starts_with(t, "- wait-serial: ") {
        return None;
    }
    let plen = "- wait-serial: ".unicode_len();
    let tlen = t.unicode_len();
    let v = t.substring_char(plen, tlen);
    proof {
        assert(v@ =~= trimmed(line@).skip(plen as int));
    }
    let vlen = tlen - plen;
    if vlen >= 2 && v.get_char(0) == '"' && v.get_char(vlen - 1) == '"' {
        let inner = v.substring_char(1, vlen - 1);
        proof {
            assert(v@.last() == v@[vlen - 1]);
            assert(inner@ =~= unquote(v@));
        }
        Some(String::from_str(inner))
    } else {
        proof {
            if vlen >= 2 {
                assert(v@.last() == v@[vlen - 1]);
            }
            assert(unquote(v@) =~= v@);
        }
        Some(String::from_str(v))
    }
}

/// Parses a scenario document: the scenario exactly when the document is
/// well-formed, a configuration error otherwise.
pub fn parse_scenario(text: &str) -> (r: Result<Scenario, ErrorKind>)
    ensures
        match r {
            Ok(sc) => parse_scenario_text(text@) == Some(step_texts(sc.steps@)),
            Err(k) => k == ErrorKind::Configuration && parse_scenario_text(text@) is None,
        },
{
    let lines = split_lines_exec(text);
    let n = lines.len();
    proof {
        assert(lines.deep_view().skip(0) =~~= lines.deep_view());
    }
    let mut i: usize = 0;
    while i < n && line_blank(lines[i].as_str())
        invariant
            i <= n,
            n == lines@.len(),
            lines.deep_view() == split_lines(text@),
            parse_doc_lines(lines.deep_view().skip(i as int)) == parse_scenario_text(text@),
        decreases n - i,
    {
        proof {
            let rest = lines.deep_view().skip(i as int);
            assert(rest[0] == lines.deep_view()[i as int]);
            assert(lines.deep_view()[i as int] == lines@[i as int]@);
            assert(rest.drop_first() =~~= lines.deep_view().skip(i + 1));
        }
        i = i + 1;
    }
    if i == n {
        proof {
            assert(lines.deep_view().skip(n as int).len() == 0);
        }
        return Err(ErrorKind::Configuration);
    }
    proof {
        let rest = lines.deep_view().skip(i as int);
        assert(rest[0] == lines.deep_view()[i as int]);
        assert(lines.deep_view()[i as int] == lines@[i as int]@);
        assert(rest.drop_first() =~~= lines.deep_view().skip(i + 1));
    }
    let t = trimmed_str(lines[i].as_str());
    if !str_eq(t, "steps:") {
        return Err(ErrorKind::Configuration);
    }
    i = i + 1;
    let mut steps: Vec<ExpectedEvent> = Vec::new();
    proof {
        assert(step_texts(steps@) =~~= Seq::<Seq<char>>::empty());
        if parse_step_lines(lines.deep_view().skip(i as int)) is Some {
            let rest = parse_step_lines(lines.deep_view().skip(i as int)).unwrap();
            assert(step_texts(steps@) + rest =~~= rest);
        }
    }
    while i < n
        invariant
            i <= n,
            n == lines@.len(),
            lines.deep_view() == split_lines(text@),
            match parse_step_lines(lines.deep_view().skip(i as int)) {
                Some(rest) => parse_scenario_text(text@) == Some(step_texts(steps@) + rest),
                None => parse_scenario_text(text@) is None,
            },
        decreases n - i,
    {
        proof {
            let rest = lines.deep_view().skip(i as int);
            assert(rest[0] == lines.deep_view()[i as int]);
            assert(lines.deep_view()[i as int] == lines@[i as int]@);
            assert(rest.drop_first() =~~= lines.deep_view().skip(i + 1));
        }
        if line_blank(lines[i].as_str()) {
            i = i + 1;
        } else {
            let v = step_value_exec(lines[i].as_str());
            match v {
                Some(value) => {
                    let ghost pre_steps = steps@;
                    let ghost value_view = value@;
                    steps.push(ExpectedEvent { match_text: value });
                    proof {
                        assert(step_texts(steps@) =~~= step_texts(pre_steps).push(value_view));
                        let tail = parse_step_lines(lines.deep_view().skip(i + 1));
                        if tail is Some {
                            let r = tail.unwrap();
                            assert(step_texts(pre_steps) + (seq![value_view] + r) =~~= step_texts(
                                steps@,
                            ) + r);
                        }
                    }
                    i = i + 1;
                },
                None => {
                    return Err(ErrorKind::Configuration);
                },
            }
        }
    }
    proof {
        assert(lines.deep_view().skip(n as int).len() == 0);
        assert(step_texts(steps@) + Seq::<Seq<char>>::empty() =~~= step_texts(steps@));
    }
    Ok(Scenario { steps })
}

} // verus!
