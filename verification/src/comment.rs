//! The documentation-comment mini-parser: a raw comment string is split into
//! trimmed lines and fed through a three-state classifier that accumulates the
//! free-text description, the optional type signature and the optional example.
use vstd::prelude::*;
use vstd::string::StrSliceExecFns;
use vstd::string::StringExecFns;

verus! {

/// Parser state while classifying the lines of a documentation comment:
/// text is being accumulated into the description, the type signature,
/// or the example block.
#[derive(Clone, Copy, PartialEq, Eq, Structural, Debug)]
pub enum ParseState {
    Doc,
    Type,
    Example,
}

/// A parsed documentation comment. `doc` is never absent (it may be empty);
/// `doc_type` and `example` are `None` exactly when their accumulated text
/// was empty after trimming.
#[derive(Debug)]
pub struct DocComment {
    /// Primary documentation string.
    pub doc: String,
    /// Optional type annotation for the thing being documented.
    pub doc_type: Option<String>,
    /// Usage example(s), interpreted as a single code block.
    pub example: Option<String>,
}

/// The mathematical shape of a parsed documentation comment.
pub ghost struct DocCommentView {
    pub doc: Seq<char>,
    pub doc_type: Option<Seq<char>>,
    pub example: Option<Seq<char>>,
}

impl View for DocComment {
    type V = DocCommentView;

    open spec fn view(&self) -> DocCommentView {
        DocCommentView {
            doc: self.doc@,
            doc_type: match self.doc_type {
                Some(t) => Some(t@),
                None => None,
            },
            example: match self.example {
                Some(t) => Some(t@),
                None => None,
            },
        }
    }
}

/// The whitespace characters the comment parser trims away: the Unicode
/// White_Space set, as char::is_whitespace draws it.
pub open spec fn is_space_char(c: char) -> bool {
    ||| c == '\t'
    ||| c == '\n'
    ||| c == '\u{b}'
    ||| c == '\u{c}'
    ||| c == '\r'
    ||| c == ' '
    ||| c == '\u{85}'
    ||| c == '\u{a0}'
    ||| c == '\u{1680}'
    ||| ('\u{2000}' <= c && c <= '\u{200a}')
    ||| c == '\u{2028}'
    ||| c == '\u{2029}'
    ||| c == '\u{202f}'
    ||| c == '\u{205f}'
    ||| c == '\u{3000}'
}

/// `s` without its leading whitespace.
pub open spec fn trim_start_rec(s: Seq<char>) -> Seq<char>
    decreases s.len(),
{
    if s.len() > 0 && is_space_char(s[0]) {
        trim_start_rec(s.drop_first())
    } else {
        s
    }
}

/// `s` without its trailing whitespace.
pub open spec fn trim_end_rec(s: Seq<char>) -> Seq<char>
    decreases s.len(),
{
    if s.len() > 0 && is_space_char(s.last()) {
        trim_end_rec(s.drop_last())
    } else {
        s
    }
}

/// `s` without leading and trailing whitespace.
pub open spec fn trimmed(s: Seq<char>) -> Seq<char> {
    trim_end_rec(trim_start_rec(s))
}

/// Index of the first line break in `s`, or `s.len()` if there is none.
pub open spec fn line_break(s: Seq<char>) -> int
    decreases s.len(),
{
    if s.len() == 0 {
        0
    } else if s[0] == '\n' {
        0
    } else {
        1 + line_break(s.drop_first())
    }
}

/// `s` split at its line breaks. A trailing line break opens no further
/// (empty) line, and the empty string has no lines at all.
pub open spec fn split_lines(s: Seq<char>) -> Seq<Seq<char>>
    decreases s.len(),
{
    if s.len() == 0 {
        Seq::empty()
    } else {
        let i = line_break(s);
        if 0 <= i < s.len() {
            seq![s.subrange(0, i)] + split_lines(s.subrange(i + 1, s.len() as int))
        } else {
            seq![s]
        }
    }
}

/// `s` begins with the marker `m`.
pub open spec fn has_marker(s: Seq<char>, m: Seq<char>) -> bool {
    s.len() >= m.len() && s.subrange(0, m.len() as int) == m
}

/// The accumulators of the line classifier.
pub ghost struct ParseAcc {
    pub doc: Seq<char>,
    pub doc_type: Seq<char>,
    pub example: Seq<char>,
    pub state: ParseState,
}

pub open spec fn initial_acc() -> ParseAcc {
    ParseAcc {
        doc: Seq::empty(),
        doc_type: Seq::empty(),
        example: Seq::empty(),
        state: ParseState::Doc,
    }
}

/// One line's classification: the line is trimmed, then each marker check is
/// applied in fixed order to the progressively stripped line; the state after
/// all checks and the remaining trimmed content are returned.
pub open spec fn classify_line(state0: ParseState, line: Seq<char>) -> (ParseState, Seq<char>) {
    let l0 = trimmed(line);
    let (s1, l1) = if has_marker(l0, "@doc "@) {
        (ParseState::Doc, l0.skip("@doc "@.len() as int))
    } else {
        (state0, l0)
    };
    let (s2, l2) = if has_marker(l1, "Type:"@) {
        (ParseState::Type, l1.skip("Type:"@.len() as int))
    } else {
        (s1, l1)
    };
    let (s3, l3) = if has_marker(l2, "Example:"@) {
        (ParseState::Example, l2.skip("Example:"@.len() as int))
    } else {
        (s2, l2)
    };
    (s3, trimmed(l3))
}

/// One step of the classifier: the line's content goes to the accumulator of
/// the state that the marker checks selected. Description and example lines
/// carry a line break; type lines are concatenated without a separator.
pub open spec fn step_line(acc: ParseAcc, line: Seq<char>) -> ParseAcc {
    let (st, content) = classify_line(acc.state, line);
    match st {
        ParseState::Doc => ParseAcc {
            doc: acc.doc + content + "\n"@,
            doc_type: acc.doc_type,
            example: acc.example,
            state: st,
        },
        ParseState::Type => ParseAcc {
            doc: acc.doc,
            doc_type: acc.doc_type + content,
            example: acc.example,
            state: st,
        },
        ParseState::Example => ParseAcc {
            doc: acc.doc,
            doc_type: acc.doc_type,
            example: acc.example + content + "\n"@,
            state: st,
        },
    }
}

/// The classifier run over a sequence of lines.
pub open spec fn run_lines(acc: ParseAcc, ls: Seq<Seq<char>>) -> ParseAcc
    decreases ls.len(),
{
    if ls.len() == 0 {
        acc
    } else {
        run_lines(step_line(acc, ls[0]), ls.drop_first())
    }
}

/// An optional field of the result: absent exactly when the accumulated
/// text is empty after trimming.
pub open spec fn opt_text(s: Seq<char>) -> Option<Seq<char>> {
    if trimmed(s).len() == 0 {
        None
    } else {
        Some(trimmed(s))
    }
}

/// What parsing a raw documentation comment yields: the input is trimmed as
/// a whole, split into lines, run through the classifier, and the three
/// accumulators become the record's fields.
pub open spec fn parsed_doc_comment(raw: Seq<char>) -> DocCommentView {
    let acc = run_lines(initial_acc(), split_lines(trimmed(raw)));
    DocCommentView {
        doc: trimmed(acc.doc),
        doc_type: opt_text(acc.doc_type),
        example: opt_text(acc.example),
    }
}

fn is_space(c: char) -> (b: bool)
    ensures
        b == is_space_char(c),
{
    c == '\t' || c == '\n' || c == '\u{b}' || c == '\u{c}' || c == '\r' || c == ' ' || c
        == '\u{85}' || c == '\u{a0}' || c == '\u{1680}' || ('\u{2000}' <= c && c <= '\u{200a}')
        || c == '\u{2028}' || c == '\u{2029}' || c == '\u{202f}' || c == '\u{205f}' || c
        == '\u{3000}'
}

proof fn lemma_trim_start_at(s: Seq<char>, i: int)
    requires
        0 <= i <= s.len(),
        forall|k: int| 0 <= k < i ==> is_space_char(s[k]),
        i < s.len() ==> !is_space_char(s[i]),
    ensures
        trim_start_rec(s) == s.subrange(i, s.len() as int),
    decreases i,
{
    if i == 0 {
        assert(s.subrange(0, s.len() as int) =~= s);
    } else {
        assert(is_space_char(s[0]));
        lemma_trim_start_at(s.drop_first(), i - 1);
        assert(s.drop_first().subrange(i - 1, s.drop_first().len() as int) =~= s.subrange(
            i,
            s.len() as int,
        ));
    }
}

proof fn lemma_trim_end_at(s: Seq<char>, j: int)
    requires
        0 <= j <= s.len(),
        forall|k: int| j <= k < s.len() ==> is_space_char(s[k]),
        j > 0 ==> !is_space_char(s[j - 1]),
    ensures
        trim_end_rec(s) == s.subrange(0, j),
    decreases s.len() - j,
{
    if j == s.len() {
        assert(s.subrange(0, s.len() as int) =~= s);
    } else {
        assert(is_space_char(s.last()));
        lemma_trim_end_at(s.drop_last(), j);
        assert(s.drop_last().subrange(0, j) =~= s.subrange(0, j));
    }
}

/// `trimmed` leaves no whitespace at either end.
proof fn lemma_trimmed_ends(s: Seq<char>)
    ensures
        trimmed(s).len() > 0 ==> !is_space_char(trimmed(s)[0]),
        trimmed(s).len() > 0 ==> !is_space_char(trimmed(s).last()),
    decreases s.len(),
{
    lemma_trim_start_first(s);
    lemma_trim_end_inside(trim_start_rec(s));
}

/// The first character of a non-empty `trim_start_rec` result is not whitespace.
proof fn lemma_trim_start_first(s: Seq<char>)
    ensures
        trim_start_rec(s).len() > 0 ==> !is_space_char(trim_start_rec(s)[0]),
    decreases s.len(),
{
    if s.len() > 0 && is_space_char(s[0]) {
        lemma_trim_start_first(s.drop_first());
    }
}

/// `trim_end_rec` keeps the first character and ends without whitespace.
proof fn lemma_trim_end_inside(s: Seq<char>)
    ensures
        trim_end_rec(s).len() > 0 ==> !is_space_char(trim_end_rec(s).last()),
        trim_end_rec(s).len() > 0 ==> trim_end_rec(s)[0] == s[0],
    decreases s.len(),
{
    if s.len() > 0 && is_space_char(s.last()) {
        lemma_trim_end_inside(s.drop_last());
    }
}

/// `s` with leading and trailing whitespace removed.
pub fn trim_str<'a>(s: &'a str) -> (r: &'a str)
    ensures
        r@ == trimmed(s@),
{
    let n = s.unicode_len();
    let mut lo: usize = 0;
    while lo < n && is_space(s.get_char(lo))
        invariant
            0 <= lo <= n,
            n == s@.len(),
            forall|k: int| 0 <= k < lo ==> is_space_char(s@[k]),
        decreases n - lo,
    {
        lo = lo + 1;
    }
    proof {
        lemma_trim_start_at(s@, lo as int);
    }
    let mut hi: usize = n;
    while hi > lo && is_space(s.get_char(hi - 1))
        invariant
            lo <= hi <= n,
            n == s@.len(),
            forall|k: int| hi <= k < n ==> is_space_char(s@[k]),
        decreases hi,
    {
        hi = hi - 1;
    }
    proof {
        let u = s@.subrange(lo as int, n as int);
        assert(forall|k: int| hi - lo <= k < u.len() ==> is_space_char(u[k]));
        if hi > lo {
            assert(u[hi - lo - 1] == s@[hi - 1]);
        }
        lemma_trim_end_at(u, hi - lo);
        assert(u.subrange(0, hi - lo) =~= s@.subrange(lo as int, hi as int));
    }
    s.substring_char(lo, hi)
}

/// Whether `s` begins with the marker `p`.
fn str_has_prefix(s: &str, p: &str) -> (b: bool)
    ensures
        b == has_marker(s@, p@),
{
    let np = p.unicode_len();
    let ns = s.unicode_len();
    if ns < np {
        return false;
    }
    let mut i: usize = 0;
    while i < np
        invariant
            0 <= i <= np,
            np == p@.len(),
            ns == s@.len(),
            np <= ns,
            forall|k: int| 0 <= k < i ==> s@[k] == p@[k],
        decreases np - i,
    {
        if s.get_char(i) != p.get_char(i) {
            proof {
                assert(s@.subrange(0, np as int)[i as int] == s@[i as int]);
            }
            return false;
        }
        i = i + 1;
    }
    proof {
        assert(s@.subrange(0, np as int) =~= p@);
    }
    true
}

/// The marker checks of one line, in their fixed order, as `classify_line`
/// states them; returns the selected state and the line's remaining content.
fn classify_line_exec<'a>(state0: ParseState, line: &'a str) -> (res: (ParseState, &'a str))
    ensures
        (res.0, res.1@) == classify_line(state0, line@),
{
    proof {
        reveal_strlit("@doc ");
        reveal_strlit("Type:");
        reveal_strlit("Example:");
    }
    let l0 = trim_str(line);
    let mut state = state0;
    let mut l = l0;
    if str_has_prefix(l, "@doc ") {
        state = ParseState::Doc;
        l = l.substring_char(5, l.unicode_len());
    }
    if str_has_prefix(l, "Type:") {
        state = ParseState::Type;
        l = l.substring_char(5, l.unicode_len());
    }
    if str_has_prefix(l, "Example:") {
        state = ParseState::Example;
        l = l.substring_char(8, l.unicode_len());
    }
    (state, trim_str(l))
}

proof fn lemma_line_break_at(s: Seq<char>, i: int)
    requires
        0 <= i <= s.len(),
        forall|k: int| 0 <= k < i ==> s[k] != '\n',
        i < s.len() ==> s[i] == '\n',
    ensures
        line_break(s) == i,
    decreases i,
{
    if i == 0 {
    } else {
        assert(s[0] != '\n');
        lemma_line_break_at(s.drop_first(), i - 1);
    }
}

proof fn lemma_run_lines_snoc(acc: ParseAcc, ls: Seq<Seq<char>>, i: int)
    requires
        0 <= i < ls.len(),
    ensures
        run_lines(acc, ls.take(i + 1)) == step_line(run_lines(acc, ls.take(i)), ls[i]),
    decreases i,
{
    if i == 0 {
        assert(ls.take(1)[0] == ls[0]);
        assert(ls.take(1).drop_first() =~= Seq::<Seq<char>>::empty());
        assert(ls.take(0) =~= Seq::<Seq<char>>::empty());
        assert(run_lines(acc, ls.take(1)) == run_lines(
            step_line(acc, ls[0]),
            Seq::<Seq<char>>::empty(),
        ));
        assert(run_lines(acc, ls.take(0)) == acc);
    } else {
        let acc1 = step_line(acc, ls[0]);
        assert(ls.take(i + 1)[0] == ls[0]);
        assert(ls.take(i)[0] == ls[0]);
        assert(ls.take(i + 1).drop_first() =~= ls.drop_first().take(i));
        assert(ls.take(i).drop_first() =~= ls.drop_first().take(i - 1));
        assert(run_lines(acc, ls.take(i + 1)) == run_lines(acc1, ls.drop_first().take(i)));
        assert(run_lines(acc, ls.take(i)) == run_lines(acc1, ls.drop_first().take(i - 1)));
        lemma_run_lines_snoc(acc1, ls.drop_first(), i - 1);
        assert(ls.drop_first()[i - 1] == ls[i]);
    }
}

/// Parse one raw documentation-comment string into a `DocComment`.
///
/// The input is trimmed as a whole and split into lines; each line is trimmed,
/// the `@doc `, `Type:` and `Example:` markers switch the classifier state in
/// that fixed order, and the line's remaining content goes to the accumulator
/// of the selected state. Type lines concatenate without a separator;
/// description and example lines keep their line breaks.
pub fn parse_doc_comment(raw: &str) -> (result: DocComment)
    ensures
        result@ == parsed_doc_comment(raw@),
{
    let t = trim_str(raw);
    let n = t.unicode_len();
    let ghost ls = split_lines(t@);
    let mut doc = String::new();
    let mut doc_type = String::new();
    let mut example = String::new();
    let mut state = ParseState::Doc;
    let mut pos: usize = 0;
    let ghost mut k: int = 0;
    proof {
        assert(ls.take(0) =~= Seq::<Seq<char>>::empty());
        assert(t@.skip(0) =~= t@);
        assert(ls.skip(0) =~= ls);
        assert(run_lines(initial_acc(), ls.take(0)) == initial_acc());
    }
    while pos < n
        invariant
            0 <= pos <= n,
            n == t@.len(),
            0 <= k <= ls.len(),
            ls == split_lines(t@),
            ls.skip(k) == split_lines(t@.skip(pos as int)),
            run_lines(initial_acc(), ls.take(k)) == (ParseAcc {
                doc: doc@,
                doc_type: doc_type@,
                example: example@,
                state: state,
            }),
        decreases n - pos,
    {
        let mut j: usize = pos;
        while j < n && t.get_char(j) != '\n'
            invariant
                pos <= j <= n,
                n == t@.len(),
                forall|q: int| pos <= q < j ==> t@[q] != '\n',
            decreases n - j,
        {
            j = j + 1;
        }
        let ghost rem = t@.skip(pos as int);
        proof {
            assert(forall|q: int| 0 <= q < j - pos ==> rem[q] != '\n');
            if j < n {
                assert(rem[j - pos] == t@[j as int]);
            }
            lemma_line_break_at(rem, j as int - pos as int);
        }
        let line = t.substring_char(pos, j);
        proof {
            assert(rem.subrange(0, j - pos) =~= t@.subrange(pos as int, j as int));
            if (j as int) < n as int {
                assert(split_lines(rem) == seq![rem.subrange(0, j - pos)] + split_lines(
                    rem.subrange(j - pos + 1, rem.len() as int),
                ));
                assert(rem.subrange(j - pos + 1, rem.len() as int) =~= t@.skip(j + 1));
            } else {
                assert(split_lines(rem) == seq![rem]);
                assert(rem =~= t@.subrange(pos as int, j as int));
            }
            assert(ls.skip(k)[0] == ls[k]);
            assert(ls[k] == line@);
            lemma_run_lines_snoc(initial_acc(), ls, k);
        }
        let cl = classify_line_exec(state, line);
        state = cl.0;
        match state {
            ParseState::Doc => {
                doc.append(cl.1);
                doc.append("\n");
            },
            ParseState::Type => {
                doc_type.append(cl.1);
            },
            ParseState::Example => {
                example.append(cl.1);
                example.append("\n");
            },
        }
        let ghost oldpos = pos as int;
        if j < n {
            pos = j + 1;
        } else {
            pos = n;
        }
        proof {
            k = k + 1;
            if j < n {
                assert(ls.skip(k) =~= ls.skip(k - 1).drop_first());
                assert(ls.skip(k) == split_lines(t@.skip(pos as int)));
            } else {
                assert(ls.skip(k - 1) =~= seq![rem]);
                assert(ls.skip(k) =~= Seq::<Seq<char>>::empty());
                assert(t@.skip(pos as int) =~= Seq::<char>::empty());
                assert(split_lines(t@.skip(pos as int)) == Seq::<Seq<char>>::empty());
            }
        }
    }
    proof {
        assert(t@.skip(pos as int) =~= Seq::<char>::empty());
        assert(split_lines(t@.skip(pos as int)) == Seq::<Seq<char>>::empty());
        assert(ls.skip(k).len() == 0);
        assert(ls.take(k) =~= ls);
    }
    let doc_trimmed = trim_str(doc.as_str());
    let type_trimmed = trim_str(doc_type.as_str());
    let example_trimmed = trim_str(example.as_str());
    DocComment {
        doc: String::from_str(doc_trimmed),
        doc_type: if type_trimmed.unicode_len() == 0 {
            None
        } else {
            Some(String::from_str(type_trimmed))
        },
        example: if example_trimmed.unicode_len() == 0 {
            None
        } else {
            Some(String::from_str(example_trimmed))
        },
    }
}

/// A line that triggers no transition and carries no whitespace of its own:
/// it is already trimmed and begins with none of the three markers.
pub open spec fn plain_line(l: Seq<char>) -> bool {
    &&& trimmed(l) == l
    &&& !has_marker(l, "@doc "@)
    &&& !has_marker(l, "Type:"@)
    &&& !has_marker(l, "Example:"@)
}

/// The lines joined back together, each closed by its line break.
pub open spec fn joined_lines(ls: Seq<Seq<char>>) -> Seq<char>
    decreases ls.len(),
{
    if ls.len() == 0 {
        Seq::empty()
    } else {
        ls[0] + "\n"@ + joined_lines(ls.drop_first())
    }
}

proof fn lemma_run_plain_lines(acc: ParseAcc, ls: Seq<Seq<char>>)
    requires
        acc.state == ParseState::Doc,
        forall|i: int| 0 <= i < ls.len() ==> plain_line(#[trigger] ls[i]),
    ensures
        run_lines(acc, ls) == (ParseAcc {
            doc: acc.doc + joined_lines(ls),
            doc_type: acc.doc_type,
            example: acc.example,
            state: ParseState::Doc,
        }),
    decreases ls.len(),
{
    if ls.len() == 0 {
        assert(acc.doc + joined_lines(ls) =~= acc.doc);
    } else {
        assert(plain_line(ls[0]));
        let acc1 = step_line(acc, ls[0]);
        assert(acc1.doc == acc.doc + ls[0] + "\n"@);
        assert forall|i: int| 0 <= i < ls.drop_first().len() implies plain_line(
            #[trigger] ls.drop_first()[i],
        ) by {
            assert(ls.drop_first()[i] == ls[i + 1]);
        }
        lemma_run_plain_lines(acc1, ls.drop_first());
        assert((acc.doc + ls[0] + "\n"@) + joined_lines(ls.drop_first()) =~= acc.doc + (ls[0]
            + "\n"@ + joined_lines(ls.drop_first())));
    }
}

proof fn lemma_line_break_props(s: Seq<char>)
    ensures
        0 <= line_break(s) <= s.len(),
        forall|k: int| 0 <= k < line_break(s) ==> s[k] != '\n',
        line_break(s) < s.len() ==> s[line_break(s)] == '\n',
    decreases s.len(),
{
    if s.len() > 0 && s[0] != '\n' {
        lemma_line_break_props(s.drop_first());
        assert forall|k: int| 0 <= k < line_break(s) implies s[k] != '\n' by {
            if k > 0 {
                assert(s.drop_first()[k - 1] == s[k]);
            }
        }
        if line_break(s) < s.len() {
            assert(s.drop_first()[line_break(s) - 1] == s[line_break(s)]);
        }
    }
}

proof fn lemma_joined_split(u: Seq<char>)
    requires
        u.len() == 0 || u.last() != '\n',
    ensures
        joined_lines(split_lines(u)) == if u.len() == 0 {
            Seq::<char>::empty()
        } else {
            u + "\n"@
        },
    decreases u.len(),
{
    reveal_strlit("\n");
    if u.len() == 0 {
        assert(split_lines(u) == Seq::<Seq<char>>::empty());
        assert(joined_lines(split_lines(u)) == Seq::<char>::empty());
    } else {
        lemma_line_break_props(u);
        let i = line_break(u);
        if i < u.len() {
            let rest = u.subrange(i + 1, u.len() as int);
            assert(u[i] == '\n');
            assert(i + 1 < u.len()) by {
                if i + 1 == u.len() {
                    assert(u.last() == u[i]);
                }
            }
            assert(rest.last() == u.last());
            lemma_joined_split(rest);
            let ls = seq![u.subrange(0, i)] + split_lines(rest);
            assert(split_lines(u) == ls);
            assert(ls[0] == u.subrange(0, i));
            assert(ls.len() > 0);
            assert(joined_lines(ls) == ls[0] + "\n"@ + joined_lines(ls.drop_first()));
            assert(ls.drop_first() =~= split_lines(rest));
            assert(joined_lines(ls.drop_first()) == rest + "\n"@);
            assert(u.subrange(0, i) + "\n"@ + (rest + "\n"@) =~= u + "\n"@);
        } else {
            let ls = seq![u];
            assert(split_lines(u) == ls);
            assert(ls[0] == u);
            assert(ls.len() > 0);
            assert(joined_lines(ls) == ls[0] + "\n"@ + joined_lines(ls.drop_first()));
            assert(ls.drop_first() =~= Seq::<Seq<char>>::empty());
            assert(joined_lines(ls.drop_first()) == Seq::<char>::empty());
            assert(u + "\n"@ + Seq::<char>::empty() =~= u + "\n"@);
        }
    }
}

proof fn lemma_trim_append_newline(t: Seq<char>)
    requires
        t.len() > 0,
        !is_space_char(t[0]),
        !is_space_char(t.last()),
    ensures
        trimmed(t + "\n"@) == t,
{
    reveal_strlit("\n");
    let u = t + "\n"@;
    assert(u[0] == t[0]);
    assert(trim_start_rec(u) == u);
    assert(u.len() == t.len() + 1);
    assert(u[t.len() as int] == '\n');
    lemma_trim_end_at(u, t.len() as int);
    assert(u.subrange(0, t.len() as int) =~= t);
}

/// Parsing a comment none of whose lines begins with an `@doc `, `Type:` or
/// `Example:` marker (and whose lines carry no whitespace of their own beyond
/// the line breaks) yields the trimmed input as the description and neither a
/// type nor an example.
pub proof fn lemma_parse_without_markers(raw: Seq<char>)
    requires
        forall|i: int| 0 <= i < split_lines(trimmed(raw)).len() ==> plain_line(
            #[trigger] split_lines(trimmed(raw))[i],
        ),
    ensures
        parsed_doc_comment(raw).doc == trimmed(raw),
        parsed_doc_comment(raw).doc_type is None,
        parsed_doc_comment(raw).example is None,
{
    let t = trimmed(raw);
    let ls = split_lines(t);
    lemma_run_plain_lines(initial_acc(), ls);
    let acc = run_lines(initial_acc(), ls);
    assert(acc.doc =~= joined_lines(ls));
    if t.len() == 0 {
        assert(joined_lines(ls) == Seq::<char>::empty());
    } else {
        lemma_trimmed_ends(raw);
        lemma_joined_split(t);
        lemma_trim_append_newline(t);
    }
}

} // verus!
