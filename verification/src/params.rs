//! The prover parameter file: a flat key/value text format.
//!
//! The toolchain reads and writes parameter files whose top level is a
//! sequence of `key = "value"` lines — bare or quoted keys, basic quoted
//! strings with backslash escapes, optional blank and comment lines.
//! The writer ([`encode_params`]) materializes a caller's parameter
//! mapping into that shape; the reader ([`parse_params`]) turns a file
//! back into key/value pairs, rejecting anything outside the flat form
//! as malformed.  The two are exact inverses, which is proved in
//! [`lemma_params_roundtrip`].

use vstd::prelude::*;
use vstd::string::*;
use crate::text::push_char;

verus! {

/// A character a bare (unquoted) key may consist of.
pub open spec fn is_bare_char(c: char) -> bool {
    ('a' <= c && c <= 'z') || ('A' <= c && c <= 'Z') || ('0' <= c && c <= '9') || c == '_'
        || c == '-'
}

/// A key the writer may leave unquoted.
pub open spec fn bare_key(k: Seq<char>) -> bool {
    k.len() > 0 && forall|i: int| 0 <= i < k.len() ==> is_bare_char(#[trigger] k[i])
}

/// A character the writer can put into a quoted string: anything except
/// the control characters that have no short escape here.
pub open spec fn encodable_char(c: char) -> bool {
    c == '\n' || c == '\t' || c == '\r' || (32 <= c as u32 && c as u32 != 127)
}

pub open spec fn encodable_str(s: Seq<char>) -> bool {
    forall|i: int| 0 <= i < s.len() ==> encodable_char(#[trigger] s[i])
}

/// How one character appears inside a quoted string.
pub open spec fn esc_char(c: char) -> Seq<char> {
    if c == '\\' {
        seq!['\\', '\\']
    } else if c == '"' {
        seq!['\\', '"']
    } else if c == '\n' {
        seq!['\\', 'n']
    } else if c == '\t' {
        seq!['\\', 't']
    } else if c == '\r' {
        seq!['\\', 'r']
    } else {
        seq![c]
    }
}

/// The body of a quoted string holding `s`.
pub open spec fn escape(s: Seq<char>) -> Seq<char>
    decreases s.len(),
{
    if s.len() == 0 {
        Seq::empty()
    } else {
        esc_char(s[0]) + escape(s.drop_first())
    }
}

/// What a backslash escape decodes to.
pub open spec fn decode_esc(c: char) -> Option<char> {
    if c == '\\' {
        Some('\\')
    } else if c == '"' {
        Some('"')
    } else if c == 'n' {
        Some('\n')
    } else if c == 't' {
        Some('\t')
    } else if c == 'r' {
        Some('\r')
    } else {
        None
    }
}

/// How the writer renders a key: bare when possible, quoted otherwise.
pub open spec fn key_repr(k: Seq<char>) -> Seq<char> {
    if bare_key(k) {
        k
    } else {
        seq!['"'] + escape(k) + seq!['"']
    }
}

/// A pair the writer can render at all.
pub open spec fn encodable_pair(k: Seq<char>, v: Seq<char>) -> bool {
    (bare_key(k) || encodable_str(k)) && encodable_str(v)
}

/// One `key = "value"` line, newline-terminated.
pub open spec fn line_repr(k: Seq<char>, v: Seq<char>) -> Seq<char> {
    key_repr(k) + seq![' ', '=', ' ', '"'] + escape(v) + seq!['"', '\n']
}

/// The whole file for a sequence of pairs, or nothing when some pair
/// cannot be rendered.
pub open spec fn encode_doc(ps: Seq<(Seq<char>, Seq<char>)>) -> Option<Seq<char>>
    decreases ps.len(),
{
    if ps.len() == 0 {
        Some(Seq::empty())
    } else if encodable_pair(ps[0].0, ps[0].1) {
        match encode_doc(ps.drop_first()) {
            Some(rest) => Some(line_repr(ps[0].0, ps[0].1) + rest),
            None => None,
        }
    } else {
        None
    }
}

/// Content of a quoted string read from position `i` (just after the
/// opening quote): the decoded text and the position after the closing
/// quote.
pub open spec fn parse_qbody(s: Seq<char>, i: int) -> Option<(Seq<char>, int)>
    decreases s.len() - i,
{
    if i < 0 || i >= s.len() {
        None
    } else if s[i] == '"' {
        Some((Seq::empty(), i + 1))
    } else if s[i] == '\\' {
        if i + 1 < s.len() {
            match decode_esc(s[i + 1]) {
                Some(c) => match parse_qbody(s, i + 2) {
                    Some((tail, j)) => Some((seq![c] + tail, j)),
                    None => None,
                },
                None => None,
            }
        } else {
            None
        }
    } else if s[i] == '\n' {
        None
    } else {
        match parse_qbody(s, i + 1) {
            Some((tail, j)) => Some((seq![s[i]] + tail, j)),
            None => None,
        }
    }
}

/// End of the run of bare-key characters starting at `i`.
pub open spec fn bare_end(s: Seq<char>, i: int) -> int
    decreases s.len() - i,
{
    if 0 <= i < s.len() && is_bare_char(s[i]) {
        bare_end(s, i + 1)
    } else {
        i
    }
}

/// First position at or after `i` holding something other than a space
/// or tab.
pub open spec fn skip_spaces(s: Seq<char>, i: int) -> int
    decreases s.len() - i,
{
    if 0 <= i < s.len() && (s[i] == ' ' || s[i] == '\t') {
        skip_spaces(s, i + 1)
    } else {
        i
    }
}

/// Position of the next newline at or after `i`, or the end of `s`.
pub open spec fn line_end(s: Seq<char>, i: int) -> int
    decreases s.len() - i,
{
    if 0 <= i < s.len() && s[i] != '\n' {
        line_end(s, i + 1)
    } else {
        i
    }
}

/// A key read at position `i`: bare or quoted.
pub open spec fn parse_key(s: Seq<char>, i: int) -> Option<(Seq<char>, int)> {
    if i < 0 || i >= s.len() {
        None
    } else if s[i] == '"' {
        parse_qbody(s, i + 1)
    } else if is_bare_char(s[i]) {
        Some((s.subrange(i, bare_end(s, i)), bare_end(s, i)))
    } else {
        None
    }
}

/// One `key = "value"` line read at position `i`; the returned position
/// is just past the line's newline (or the end of the file).
pub open spec fn parse_pair(s: Seq<char>, i: int) -> Option<(Seq<char>, Seq<char>, int)> {
    let i0 = skip_spaces(s, i);
    match parse_key(s, i0) {
        None => None,
        Some((k, i1)) => {
            let i2 = skip_spaces(s, i1);
            if i2 < s.len() && s[i2] == '=' {
                let i3 = skip_spaces(s, i2 + 1);
                if i3 < s.len() && s[i3] == '"' {
                    match parse_qbody(s, i3 + 1) {
                        None => None,
                        Some((v, i4)) => {
                            let i5 = skip_spaces(s, i4);
                            if i5 == s.len() {
                                Some((k, v, i5))
                            } else if s[i5] == '\n' {
                                Some((k, v, i5 + 1))
                            } else {
                                None
                            }
                        },
                    }
                } else {
                    None
                }
            } else {
                None
            }
        },
    }
}

proof fn lemma_skip_spaces_bounds(s: Seq<char>, i: int)
    requires
        0 <= i <= s.len(),
    ensures
        i <= skip_spaces(s, i) <= s.len(),
    decreases s.len() - i,
{
    if 0 <= i < s.len() && (s[i] == ' ' || s[i] == '\t') {
        lemma_skip_spaces_bounds(s, i + 1);
    }
}

proof fn lemma_bare_end_bounds(s: Seq<char>, i: int)
    requires
        0 <= i <= s.len(),
    ensures
        i <= bare_end(s, i) <= s.len(),
    decreases s.len() - i,
{
    if 0 <= i < s.len() && is_bare_char(s[i]) {
        lemma_bare_end_bounds(s, i + 1);
    }
}

proof fn lemma_line_end_bounds(s: Seq<char>, i: int)
    requires
        0 <= i <= s.len(),
    ensures
        i <= line_end(s, i) <= s.len(),
        line_end(s, i) == s.len() || s[line_end(s, i)] == '\n',
    decreases s.len() - i,
{
    if 0 <= i < s.len() && s[i] != '\n' {
        lemma_line_end_bounds(s, i + 1);
    }
}

proof fn lemma_parse_qbody_advances(s: Seq<char>, i: int)
    ensures
        parse_qbody(s, i) matches Some((c, j)) ==> i < j <= s.len(),
    decreases s.len() - i,
{
    if 0 <= i < s.len() {
        lemma_parse_qbody_advances(s, i + 1);
        if i + 1 < s.len() {
            lemma_parse_qbody_advances(s, i + 2);
        }
    }
}

proof fn lemma_parse_key_advances(s: Seq<char>, i: int)
    requires
        0 <= i,
    ensures
        parse_key(s, i) matches Some((k, j)) ==> i < j <= s.len(),
{
    if i < s.len() {
        lemma_parse_qbody_advances(s, i + 1);
        if is_bare_char(s[i]) {
            lemma_bare_end_bounds(s, i + 1);
        }
    }
}

proof fn lemma_parse_pair_advances(s: Seq<char>, i: int)
    requires
        0 <= i <= s.len(),
    ensures
        parse_pair(s, i) matches Some((k, v, j)) ==> i < j <= s.len(),
{
    lemma_skip_spaces_bounds(s, i);
    let i0 = skip_spaces(s, i);
    lemma_parse_key_advances(s, i0);
    match parse_key(s, i0) {
        None => {},
        Some((k, i1)) => {
            lemma_skip_spaces_bounds(s, i1);
            let i2 = skip_spaces(s, i1);
            if i2 < s.len() && s[i2] == '=' {
                lemma_skip_spaces_bounds(s, i2 + 1);
                let i3 = skip_spaces(s, i2 + 1);
                if i3 < s.len() && s[i3] == '"' {
                    lemma_parse_qbody_advances(s, i3 + 1);
                    match parse_qbody(s, i3 + 1) {
                        None => {},
                        Some((v, i4)) => {
                            lemma_skip_spaces_bounds(s, i4);
                        },
                    }
                }
            }
        },
    }
}

/// The pairs of a whole file read from position `i`: blank lines and
/// `#` comment lines are skipped; anything else must be a `key = "value"`
/// line.
pub open spec fn parse_doc_from(s: Seq<char>, i: int) -> Option<Seq<(Seq<char>, Seq<char>)>>
    decreases s.len() - i,
        via parse_doc_from_dec
{
    if i < 0 || i > s.len() {
        None
    } else if i == s.len() {
        Some(Seq::empty())
    } else if s[i] == '\n' {
        parse_doc_from(s, i + 1)
    } else if s[i] == '#' {
        parse_doc_from(s, line_end(s, i))
    } else {
        match parse_pair(s, i) {
            Some((k, v, j)) => match parse_doc_from(s, j) {
                Some(rest) => Some(seq![(k, v)] + rest),
                None => None,
            },
            None => None,
        }
    }
}

#[via_fn]
proof fn parse_doc_from_dec(s: Seq<char>, i: int) {
    if 0 <= i < s.len() {
        if s[i] == '#' {
            assert(line_end(s, i) == line_end(s, i + 1));
            lemma_line_end_bounds(s, i + 1);
        }
        lemma_parse_pair_advances(s, i);
    }
}

/// The whole file.
pub open spec fn parse_doc(s: Seq<char>) -> Option<Seq<(Seq<char>, Seq<char>)>> {
    parse_doc_from(s, 0)
}

proof fn lemma_subrange_index(s: Seq<char>, i: int, n: int, e: Seq<char>)
    requires
        0 <= i,
        0 <= n,
        i + n <= s.len(),
        s.subrange(i, i + n) == e,
    ensures
        e.len() == n,
        forall|m: int| 0 <= m < n ==> s[i + m] == #[trigger] e[m],
{
    assert forall|m: int| 0 <= m < n implies s[i + m] == #[trigger] e[m] by {
        assert(e[m] == s.subrange(i, i + n)[m]);
    }
}

proof fn lemma_qbody_roundtrip(s: Seq<char>, v: Seq<char>, i: int)
    requires
        0 <= i,
        i + escape(v).len() + 1 <= s.len(),
        s.subrange(i, i + escape(v).len()) == escape(v),
        s[i + escape(v).len()] == '"',
    ensures
        parse_qbody(s, i) == Some((v, i + escape(v).len() + 1)),
    decreases v.len(),
{
    let e = escape(v);
    lemma_subrange_index(s, i, e.len() as int, e);
    if v.len() == 0 {
        assert(s[i] == '"');
        assert(v =~= Seq::<char>::empty());
    } else {
        let c = v[0];
        let rest = v.drop_first();
        let ec = esc_char(c);
        let erest = escape(rest);
        assert(e == ec + erest);
        assert(forall|m: int| 0 <= m < erest.len() ==> e[ec.len() + m] == #[trigger] erest[m]);
        assert(s.subrange(i + ec.len(), i + ec.len() + erest.len()) =~= erest) by {
            assert(forall|m: int|
                0 <= m < erest.len() ==> s[i + ec.len() + m] == #[trigger] erest[m]);
        }
        assert(s[i + ec.len() + erest.len()] == '"');
        lemma_qbody_roundtrip(s, rest, i + ec.len());
        assert(seq![c] + rest =~= v);
        if c == '\\' || c == '"' || c == '\n' || c == '\t' || c == '\r' {
            assert(ec.len() == 2);
            assert(e[0] == ec[0] && e[1] == ec[1]);
            assert(s[i + 0] == e[0] && s[i + 1] == e[1]);
            assert(s[i] == '\\');
            assert(decode_esc(ec[1]) == Some(c));
            assert(parse_qbody(s, i + 2) == Some((rest, i + e.len() + 1)));
            assert(parse_qbody(s, i) == Some((v, i + e.len() + 1)));
        } else {
            assert(ec =~= seq![c]);
            assert(e[0] == ec[0]);
            assert(s[i + 0] == e[0]);
            assert(s[i] == c);
            assert(s[i] != '"' && s[i] != '\\' && s[i] != '\n');
            assert(parse_qbody(s, i + 1) == Some((rest, i + e.len() + 1)));
            assert(parse_qbody(s, i) == Some((v, i + e.len() + 1)));
        }
    }
}

proof fn lemma_bare_end_run(s: Seq<char>, i: int, j: int)
    requires
        0 <= i <= j < s.len(),
        forall|m: int| i <= m < j ==> is_bare_char(#[trigger] s[m]),
        !is_bare_char(s[j]),
    ensures
        bare_end(s, i) == j,
    decreases j - i,
{
    if i < j {
        assert(is_bare_char(s[i]));
        lemma_bare_end_run(s, i + 1, j);
    }
}

proof fn lemma_key_roundtrip(s: Seq<char>, k: Seq<char>, i: int)
    requires
        0 <= i,
        i + key_repr(k).len() < s.len(),
        s.subrange(i, i + key_repr(k).len()) == key_repr(k),
        s[i + key_repr(k).len()] == ' ',
    ensures
        parse_key(s, i) == Some((k, i + key_repr(k).len())),
{
    let kr = key_repr(k);
    lemma_subrange_index(s, i, kr.len() as int, kr);
    if bare_key(k) {
        assert(kr == k);
        assert forall|m: int| i <= m < i + k.len() implies is_bare_char(#[trigger] s[m]) by {
            assert(s[i + (m - i)] == kr[m - i]);
            assert(is_bare_char(k[m - i]));
        }
        assert(!is_bare_char(s[i + k.len()]));
        lemma_bare_end_run(s, i, i + k.len());
        assert(s[i] == k[0]);
        assert(is_bare_char(s[i]));
        assert(s[i] != '"');
        assert(s.subrange(i, i + k.len()) == k);
    } else {
        let ek = escape(k);
        assert(kr == seq!['"'] + ek + seq!['"']);
        assert(s[i] == kr[0]);
        assert(kr[0] == '"');
        assert(s.subrange(i + 1, i + 1 + ek.len()) =~= ek) by {
            assert(forall|m: int| 0 <= m < ek.len() ==> kr[1 + m] == #[trigger] ek[m]);
        }
        assert(s[i + 1 + ek.len()] == kr[1 + ek.len() as int]);
        assert(kr[1 + ek.len() as int] == '"');
        lemma_qbody_roundtrip(s, k, i + 1);
    }
}

proof fn lemma_line_roundtrip(s: Seq<char>, k: Seq<char>, v: Seq<char>, i: int)
    requires
        0 <= i,
        i + line_repr(k, v).len() <= s.len(),
        s.subrange(i, i + line_repr(k, v).len()) == line_repr(k, v),
    ensures
        parse_pair(s, i) == Some((k, v, i + line_repr(k, v).len())),
{
    let line = line_repr(k, v);
    let kr = key_repr(k);
    let mid = seq![' ', '=', ' ', '"'];
    let ev = escape(v);
    let tail = seq!['"', '\n'];
    lemma_subrange_index(s, i, line.len() as int, line);
    assert(line == kr + mid + ev + tail);
    assert(forall|m: int| 0 <= m < kr.len() ==> line[m] == #[trigger] kr[m]);
    assert(forall|m: int| 0 <= m < 4 ==> line[kr.len() + m] == #[trigger] mid[m]);
    assert(forall|m: int| 0 <= m < ev.len() ==> line[kr.len() + 4 + m] == #[trigger] ev[m]);
    assert(forall|m: int| 0 <= m < 2 ==> line[kr.len() + 4 + ev.len() + m] == #[trigger] tail[m]);
    // the key, followed by a space
    assert(s.subrange(i, i + kr.len()) =~= kr);
    assert(s[i + kr.len()] == ' ');
    lemma_key_roundtrip(s, k, i);
    // the leading character is no space, so nothing is skipped up front
    assert(kr[0] == '"' || is_bare_char(kr[0])) by {
        if bare_key(k) {
            assert(kr[0] == k[0]);
        }
    }
    assert(s[i] == kr[0]);
    assert(skip_spaces(s, i) == i);
    // one space, then the equals sign
    let i1 = i + kr.len();
    assert(s[i1 + 1] == '=');
    assert(skip_spaces(s, i1 + 1) == i1 + 1);
    assert(skip_spaces(s, i1) == i1 + 1);
    // one more space, then the opening quote
    assert(s[i1 + 2] == ' ');
    assert(s[i1 + 3] == '"');
    assert(skip_spaces(s, i1 + 3) == i1 + 3);
    assert(skip_spaces(s, i1 + 2) == i1 + 3);
    // the quoted value
    assert(s.subrange(i1 + 4, i1 + 4 + ev.len()) =~= ev) by {
        assert(forall|m: int| 0 <= m < ev.len() ==> s[i1 + 4 + m] == #[trigger] ev[m]);
    }
    assert(s[i1 + 4 + ev.len()] == '"');
    lemma_qbody_roundtrip(s, v, i1 + 4);
    // the terminating newline
    let i4 = i1 + 4 + ev.len() + 1;
    assert(s[i4] == '\n');
    assert(skip_spaces(s, i4) == i4);
    assert(i4 + 1 == i + line.len());
}

proof fn lemma_doc_roundtrip_from(ps: Seq<(Seq<char>, Seq<char>)>, s: Seq<char>, i: int)
    requires
        0 <= i <= s.len(),
        encode_doc(ps) == Some(s.subrange(i, s.len() as int)),
    ensures
        parse_doc_from(s, i) == Some(ps),
    decreases ps.len(),
{
    let suffix = s.subrange(i, s.len() as int);
    lemma_subrange_index(s, i, s.len() - i, suffix);
    if ps.len() == 0 {
        assert(suffix.len() == 0);
        assert(i == s.len());
        assert(ps =~= Seq::<(Seq<char>, Seq<char>)>::empty());
    } else {
        let k0 = ps[0].0;
        let v0 = ps[0].1;
        let line = line_repr(k0, v0);
        let rest_e = match encode_doc(ps.drop_first()) {
            Some(r) => r,
            None => Seq::empty(),
        };
        assert(encode_doc(ps.drop_first()) == Some(rest_e));
        assert(suffix == line + rest_e);
        assert(forall|m: int| 0 <= m < line.len() ==> suffix[m] == #[trigger] line[m]);
        assert(forall|m: int| 0 <= m < rest_e.len() ==> suffix[line.len() + m] == #[trigger] rest_e[m]);
        assert(key_repr(k0).len() >= 1) by {
            if !bare_key(k0) {
                assert(key_repr(k0) == seq!['"'] + escape(k0) + seq!['"']);
            }
        }
        assert(line[0] == key_repr(k0)[0]);
        assert(key_repr(k0)[0] == '"' || is_bare_char(key_repr(k0)[0])) by {
            if bare_key(k0) {
                assert(key_repr(k0)[0] == k0[0]);
            }
        }
        assert(i < s.len());
        assert(s[i] == line[0]);
        assert(s[i] != '\n' && s[i] != '#');
        assert(s.subrange(i, i + line.len()) =~= line) by {
            assert(forall|m: int| 0 <= m < line.len() ==> s[i + m] == #[trigger] line[m]);
        }
        lemma_line_roundtrip(s, k0, v0, i);
        let j = i + line.len();
        assert(s.subrange(j, s.len() as int) =~= rest_e) by {
            assert(forall|m: int| 0 <= m < rest_e.len() ==> s[j + m] == #[trigger] rest_e[m]);
        }
        lemma_doc_roundtrip_from(ps.drop_first(), s, j);
        assert(seq![(k0, v0)] + ps.drop_first() =~= ps);
    }
}

proof fn lemma_escape_snoc(t: Seq<char>)
    requires
        t.len() > 0,
    ensures
        escape(t) == escape(t.drop_last()) + esc_char(t.last()),
    decreases t.len(),
{
    if t.len() == 1 {
        assert(t.drop_first() =~= Seq::<char>::empty());
        assert(t.drop_last() =~= Seq::<char>::empty());
        assert(esc_char(t[0]) + Seq::<char>::empty() =~= esc_char(t[0]));
        assert(Seq::<char>::empty() + esc_char(t[0]) =~= esc_char(t[0]));
    } else {
        lemma_escape_snoc(t.drop_first());
        assert(t.drop_first().drop_last() =~= t.drop_last().drop_first());
        assert(t.drop_first().last() == t.last());
        assert(t.drop_last()[0] == t[0]);
        assert(esc_char(t[0]) + (escape(t.drop_last().drop_first()) + esc_char(t.last())) =~= (
        esc_char(t[0]) + escape(t.drop_last().drop_first())) + esc_char(t.last()));
        assert(escape(t.drop_last()) == esc_char(t[0]) + escape(t.drop_last().drop_first()));
    }
}

fn is_bare_char_x(c: char) -> (r: bool)
    ensures
        r == is_bare_char(c),
{
    ('a' <= c && c <= 'z') || ('A' <= c && c <= 'Z') || ('0' <= c && c <= '9') || c == '_'
        || c == '-'
}

fn is_encodable_char_x(c: char) -> (r: bool)
    ensures
        r == encodable_char(c),
{
    c == '\n' || c == '\t' || c == '\r' || (32 <= c as u32 && c as u32 != 127)
}

fn is_bare_key(s: &str) -> (r: bool)
    ensures
        r == bare_key(s@),
{
    let cs = crate::text::chars_of(s);
    if cs.len() == 0 {
        return false;
    }
    let n = cs.len();
    let mut i: usize = 0;
    while i < n
        invariant
            cs@ == s@,
            n == cs@.len(),
            i <= n,
            forall|j: int| 0 <= j < i ==> is_bare_char(#[trigger] s@[j]),
        decreases n - i,
    {
        if !is_bare_char_x(cs[i]) {
            return false;
        }
        i = i + 1;
    }
    true
}

fn is_encodable_str(s: &str) -> (r: bool)
    ensures
        r == encodable_str(s@),
{
    let cs = crate::text::chars_of(s);
    let n = cs.len();
    let mut i: usize = 0;
    while i < n
        invariant
            cs@ == s@,
            n == cs@.len(),
            i <= n,
            forall|j: int| 0 <= j < i ==> encodable_char(#[trigger] s@[j]),
        decreases n - i,
    {
        if !is_encodable_char_x(cs[i]) {
            return false;
        }
        i = i + 1;
    }
    true
}

fn escape_into(out: &mut String, s: &str)
    ensures
        final(out)@ == old(out)@ + escape(s@),
{
    let cs = crate::text::chars_of(s);
    let n = cs.len();
    let mut i: usize = 0;
    while i < n
        invariant
            cs@ == s@,
            n == cs@.len(),
            i <= n,
            out@ == old(out)@ + escape(s@.take(i as int)),
        decreases n - i,
    {
        let c = cs[i];
        if c == '\\' {
            push_char(out, '\\');
            push_char(out, '\\');
        } else if c == '"' {
            push_char(out, '\\');
            push_char(out, '"');
        } else if c == '\n' {
            push_char(out, '\\');
            push_char(out, 'n');
        } else if c == '\t' {
            push_char(out, '\\');
            push_char(out, 't');
        } else if c == '\r' {
            push_char(out, '\\');
            push_char(out, 'r');
        } else {
            push_char(out, c);
        }
        proof {
            lemma_escape_snoc(s@.take(i + 1));
            assert(s@.take(i + 1).drop_last() =~= s@.take(i as int));
            assert(s@.take(i + 1).last() == s@[i as int]);
            assert(out@ =~= old(out)@ + escape(s@.take(i + 1)));
        }
        i = i + 1;
    }
    proof {
        assert(s@.take(n as int) =~= s@);
    }
}

/// Renders a parameter mapping as the flat file text the toolchain reads,
/// or nothing when a key or value lies outside what the format can hold.
pub fn encode_params(pairs: &Vec<(String, String)>) -> (r: Option<String>)
    ensures
        match r {
            Some(s) => encode_doc(pairs.deep_view()) == Some(s@),
            None => encode_doc(pairs.deep_view()) is None,
        },
{
    let ghost model = pairs.deep_view();
    let mut out = String::new();
    let mut i: usize = 0;
    proof {
        assert(model.skip(0) =~= model);
        match encode_doc(model) {
            Some(rest) => {
                assert(out@ + rest =~= rest);
            },
            None => {},
        }
    }
    while i < pairs.len()
        invariant
            model == pairs.deep_view(),
            model.len() == pairs@.len(),
            i <= pairs@.len(),
            (match encode_doc(model.skip(i as int)) {
                Some(rest) => encode_doc(model) == Some(out@ + rest),
                None => encode_doc(model) is None,
            }),
        decreases pairs@.len() - i,
    {
        let pair = &pairs[i];
        proof {
            assert(model[i as int] == pairs@[i as int].deep_view());
            assert(model.skip(i as int)[0] == model[i as int]);
            assert(model.skip(i as int).drop_first() =~= model.skip(i + 1));
        }
        let k_bare = is_bare_key(pair.0.as_str());
        let k_ok = k_bare || is_encodable_str(pair.0.as_str());
        let v_ok = is_encodable_str(pair.1.as_str());
        if !(k_ok && v_ok) {
            proof {
                assert(!encodable_pair(model[i as int].0, model[i as int].1));
                assert(encode_doc(model.skip(i as int)) is None);
            }
            return None;
        }
        let ghost out0 = out@;
        if k_bare {
            out.append(pair.0.as_str());
        } else {
            push_char(&mut out, '"');
            escape_into(&mut out, pair.0.as_str());
            push_char(&mut out, '"');
        }
        proof {
            assert(out@ =~= out0 + key_repr(pair.0@));
        }
        push_char(&mut out, ' ');
        push_char(&mut out, '=');
        push_char(&mut out, ' ');
        push_char(&mut out, '"');
        escape_into(&mut out, pair.1.as_str());
        push_char(&mut out, '"');
        push_char(&mut out, '\n');
        proof {
            assert(out@ =~= out0 + line_repr(pair.0@, pair.1@));
            assert(encodable_pair(model[i as int].0, model[i as int].1));
            match encode_doc(model.skip(i + 1)) {
                Some(rest1) => {
                    assert(encode_doc(model.skip(i as int)) == Some(
                        line_repr(pair.0@, pair.1@) + rest1,
                    ));
                    assert(out0 + (line_repr(pair.0@, pair.1@) + rest1) =~= out@ + rest1);
                },
                None => {
                    assert(encode_doc(model.skip(i as int)) is None);
                },
            }
        }
        i = i + 1;
    }
    proof {
        assert(model.skip(model.len() as int) =~= Seq::<(Seq<char>, Seq<char>)>::empty());
        assert(out@ + Seq::<char>::empty() =~= out@);
    }
    Some(out)
}

fn skip_spaces_x(cs: &Vec<char>, start: usize) -> (r: usize)
    requires
        start <= cs@.len(),
    ensures
        r == skip_spaces(cs@, start as int),
        start <= r <= cs@.len(),
{
    let n = cs.len();
    let mut i = start;
    while i < n && (cs[i] == ' ' || cs[i] == '\t')
        invariant
            n == cs@.len(),
            start <= i <= n,
            skip_spaces(cs@, start as int) == skip_spaces(cs@, i as int),
        decreases n - i,
    {
        i = i + 1;
    }
    i
}

fn bare_end_x(cs: &Vec<char>, start: usize) -> (r: usize)
    requires
        start <= cs@.len(),
    ensures
        r == bare_end(cs@, start as int),
        start <= r <= cs@.len(),
{
    let n = cs.len();
    let mut i = start;
    loop
        invariant
            n == cs@.len(),
            start <= i <= n,
            bare_end(cs@, start as int) == bare_end(cs@, i as int),
        decreases n - i,
    {
        if i >= n {
            return i;
        }
        if !is_bare_char_x(cs[i]) {
            return i;
        }
        i = i + 1;
    }
}

fn line_end_x(cs: &Vec<char>, start: usize) -> (r: usize)
    requires
        start <= cs@.len(),
    ensures
        r == line_end(cs@, start as int),
        start <= r <= cs@.len(),
{
    let n = cs.len();
    let mut i = start;
    while i < n && cs[i] != '\n'
        invariant
            n == cs@.len(),
            start <= i <= n,
            line_end(cs@, start as int) == line_end(cs@, i as int),
        decreases n - i,
    {
        i = i + 1;
    }
    i
}

fn decode_esc_x(d: char) -> (r: Option<char>)
    ensures
        r == decode_esc(d),
{
    if d == '\\' {
        Some('\\')
    } else if d == '"' {
        Some('"')
    } else if d == 'n' {
        Some('\n')
    } else if d == 't' {
        Some('\t')
    } else if d == 'r' {
        Some('\r')
    } else {
        None
    }
}

fn parse_qbody_x(cs: &Vec<char>, start: usize) -> (r: Option<(String, usize)>)
    requires
        start <= cs@.len(),
    ensures
        (match r {
            Some(p) => parse_qbody(cs@, start as int) == Some((p.0@, p.1 as int)) && start < p.1
                <= cs@.len(),
            None => parse_qbody(cs@, start as int) is None,
        }),
{
    let n = cs.len();
    let mut i = start;
    let mut acc = String::new();
    loop
        invariant
            n == cs@.len(),
            start <= i <= n,
            (match parse_qbody(cs@, i as int) {
                Some(p) => parse_qbody(cs@, start as int) == Some((acc@ + p.0, p.1)),
                None => parse_qbody(cs@, start as int) is None,
            }),
        decreases n - i,
    {
        if i >= n {
            return None;
        }
        let c = cs[i];
        if c == '"' {
            proof {
                assert(acc@ + Seq::<char>::empty() =~= acc@);
                lemma_parse_qbody_advances(cs@, start as int);
            }
            return Some((acc, i + 1));
        } else if c == '\\' {
            if i + 1 >= n {
                return None;
            }
            match decode_esc_x(cs[i + 1]) {
                None => {
                    return None;
                },
                Some(cc) => {
                    let ghost acc0 = acc@;
                    push_char(&mut acc, cc);
                    proof {
                        match parse_qbody(cs@, i + 2) {
                            Some(p2) => {
                                assert(parse_qbody(cs@, i as int) == Some((seq![cc] + p2.0, p2.1)));
                                assert(acc0 + (seq![cc] + p2.0) =~= acc@ + p2.0);
                            },
                            None => {
                                assert(parse_qbody(cs@, i as int) is None);
                            },
                        }
                    }
                    i = i + 2;
                },
            }
        } else if c == '\n' {
            return None;
        } else {
            let ghost acc0 = acc@;
            push_char(&mut acc, c);
            proof {
                match parse_qbody(cs@, i + 1) {
                    Some(p2) => {
                        assert(parse_qbody(cs@, i as int) == Some((seq![c] + p2.0, p2.1)));
                        assert(acc0 + (seq![c] + p2.0) =~= acc@ + p2.0);
                    },
                    None => {
                        assert(parse_qbody(cs@, i as int) is None);
                    },
                }
            }
            i = i + 1;
        }
    }
}

fn parse_key_x(cs: &Vec<char>, start: usize) -> (r: Option<(String, usize)>)
    requires
        start <= cs@.len(),
    ensures
        (match r {
            Some(p) => parse_key(cs@, start as int) == Some((p.0@, p.1 as int)) && start < p.1
                <= cs@.len(),
            None => parse_key(cs@, start as int) is None,
        }),
{
    if start >= cs.len() {
        return None;
    }
    let c = cs[start];
    if c == '"' {
        parse_qbody_x(cs, start + 1)
    } else if is_bare_char_x(c) {
        let e = bare_end_x(cs, start);
        proof {
            lemma_bare_end_bounds(cs@, start + 1);
        }
        let mut k = String::new();
        let mut i = start;
        while i < e
            invariant
                start <= i <= e <= cs@.len(),
                k@ =~= cs@.subrange(start as int, i as int),
            decreases e - i,
        {
            push_char(&mut k, cs[i]);
            proof {
                assert(k@ =~= cs@.subrange(start as int, i + 1));
            }
            i = i + 1;
        }
        Some((k, e))
    } else {
        None
    }
}

fn parse_pair_x(cs: &Vec<char>, start: usize) -> (r: Option<(String, String, usize)>)
    requires
        start <= cs@.len(),
    ensures
        (match r {
            Some(p) => parse_pair(cs@, start as int) == Some((p.0@, p.1@, p.2 as int)) && start
                < p.2 <= cs@.len(),
            None => parse_pair(cs@, start as int) is None,
        }),
{
    let i0 = skip_spaces_x(cs, start);
    match parse_key_x(cs, i0) {
        None => None,
        Some((k, i1)) => {
            let i2 = skip_spaces_x(cs, i1);
            if i2 < cs.len() && cs[i2] == '=' {
                let i3 = skip_spaces_x(cs, i2 + 1);
                if i3 < cs.len() && cs[i3] == '"' {
                    match parse_qbody_x(cs, i3 + 1) {
                        None => None,
                        Some((v, i4)) => {
                            let i5 = skip_spaces_x(cs, i4);
                            if i5 == cs.len() {
                                Some((k, v, i5))
                            } else if cs[i5] == '\n' {
                                Some((k, v, i5 + 1))
                            } else {
                                None
                            }
                        },
                    }
                } else {
                    None
                }
            } else {
                None
            }
        },
    }
}

/// Reads a parameter file back into key/value pairs, or nothing when the
/// text lies outside the flat format.
pub fn parse_params(text: &str) -> (r: Option<Vec<(String, String)>>)
    ensures
        (match r {
            Some(ps) => parse_doc(text@) == Some(ps.deep_view()),
            None => parse_doc(text@) is None,
        }),
{
    let cs = crate::text::chars_of(text);
    let n = cs.len();
    let mut out: Vec<(String, String)> = Vec::new();
    let mut i: usize = 0;
    loop
        invariant
            cs@ == text@,
            n == cs@.len(),
            i <= n,
            (match parse_doc_from(cs@, i as int) {
                Some(rest) => parse_doc(text@) == Some(out.deep_view() + rest),
                None => parse_doc(text@) is None,
            }),
        decreases n - i,
    {
        if i >= n {
            proof {
                assert(out.deep_view() + Seq::<(Seq<char>, Seq<char>)>::empty()
                    =~= out.deep_view());
            }
            return Some(out);
        }
        let c = cs[i];
        if c == '\n' {
            i = i + 1;
        } else if c == '#' {
            let j = line_end_x(&cs, i);
            proof {
                assert(line_end(cs@, i as int) == line_end(cs@, i + 1));
                lemma_line_end_bounds(cs@, i + 1);
            }
            i = j;
        } else {
            match parse_pair_x(&cs, i) {
                None => {
                    return None;
                },
                Some((k, v, j)) => {
                    let ghost out0 = out.deep_view();
                    let ghost kv = (k@, v@);
                    out.push((k, v));
                    proof {
                        assert(out.deep_view() =~= out0 + seq![kv]);
                        match parse_doc_from(cs@, j as int) {
                            Some(rest2) => {
                                assert(parse_doc_from(cs@, i as int) == Some(seq![kv] + rest2));
                                assert(out0 + (seq![kv] + rest2) =~= out.deep_view() + rest2);
                            },
                            None => {
                                assert(parse_doc_from(cs@, i as int) is None);
                            },
                        }
                    }
                    i = j;
                },
            }
        }
    }
}

/// Law: the parameter codec round-trips.  Any parameter document the
/// writer can render is parsed back to exactly the key/value pairs it
/// was given, in order.
pub proof fn lemma_params_roundtrip(ps: Seq<(Seq<char>, Seq<char>)>)
    ensures
        encode_doc(ps) matches Some(e) ==> parse_doc(e) == Some(ps),
{
    match encode_doc(ps) {
        None => {},
        Some(e) => {
            assert(e.subrange(0, e.len() as int) =~= e);
            lemma_doc_roundtrip_from(ps, e, 0);
        },
    }
}

} // verus!
