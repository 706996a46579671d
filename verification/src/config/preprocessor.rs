//! Multi-line values: a property written `key="""` followed by lines up to a line that is
//! `"""` becomes `key=<the lines>` on one line, with its line breaks written `\n`.

use vstd::prelude::*;

use crate::config::ini_doc::{ini_read, IniDoc, IniModel};
use crate::error::{Application, ErrorView};
use crate::text::{self, pieces, split_once, texts_view, trim, trim_end};

verus! {

/// `s` without a final carriage return.
pub open spec fn strip_cr(s: Seq<char>) -> Seq<char> {
    if s.len() > 0 && s.last() == '\r' {
        s.drop_last()
    } else {
        s
    }
}

/// `str::lines`: the text split at each line feed, a carriage return before a line feed
/// dropped, and no empty line after a final line feed.
pub open spec fn text_lines(s: Seq<char>) -> Seq<Seq<char>> {
    let ps = pieces(s, '\n');
    let body = ps.drop_last().map_values(|p: Seq<char>| strip_cr(p));
    if ps.last().len() == 0 {
        body
    } else {
        body.push(ps.last())
    }
}

/// Every line feed of `s` written as the two characters `\n`.
pub open spec fn escape_newlines(s: Seq<char>) -> Seq<char>
    decreases s.len(),
{
    if s.len() == 0 {
        Seq::empty()
    } else {
        escape_newlines(s.drop_last()) + if s.last() == '\n' {
            seq!['\\', 'n']
        } else {
            seq![s.last()]
        }
    }
}

/// The delimiter of multi-line values.
pub open spec fn delimiter() -> Seq<char> {
    seq!['"', '"', '"']
}

/// Where the preprocessor is after some lines: inside a multi-line value or not, the key
/// and lines of the last multi-line value, and the text written so far.
#[verifier::ext_equal]
pub struct PreState {
    pub in_block: bool,
    pub key: Seq<char>,
    pub current: Seq<char>,
    pub out: Seq<char>,
}

/// Whether the (trimmed) line opens a multi-line value: `key = """`.
pub open spec fn opens_block(t: Seq<char>) -> bool {
    match split_once(t, '=').1 {
        Some(v) => trim(v) == delimiter(),
        None => false,
    }
}

/// The preprocessor after one more line.
pub open spec fn pre_step(st: PreState, line: Seq<char>) -> PreState {
    let t = trim(line);
    if !st.in_block && opens_block(t) {
        PreState { in_block: true, key: trim(split_once(t, '=').0), current: Seq::empty(), out: st.out }
    } else if st.in_block {
        if t == delimiter() {
            PreState {
                in_block: false,
                key: st.key,
                current: st.current,
                out: st.out + st.key + seq!['='] + escape_newlines(trim_end(st.current)) + seq!['\n'],
            }
        } else {
            PreState { in_block: true, key: st.key, current: st.current + line + seq!['\n'], out: st.out }
        }
    } else {
        PreState { in_block: false, key: st.key, current: st.current, out: st.out + line + seq!['\n'] }
    }
}

/// The preprocessor after the lines.
pub open spec fn pre_fold(lines: Seq<Seq<char>>) -> PreState
    decreases lines.len(),
{
    if lines.len() == 0 {
        PreState { in_block: false, key: Seq::empty(), current: Seq::empty(), out: Seq::empty() }
    } else {
        pre_step(pre_fold(lines.drop_last()), lines.last())
    }
}

/// The preprocessed text: each line written with a line feed, multi-line values joined
/// into one line; a multi-line value that is not closed is dropped.
pub open spec fn preprocess_spec(s: Seq<char>) -> Seq<char> {
    pre_fold(text_lines(s)).out
}

/// The lines, each followed by a line feed.
pub open spec fn joined_lines(lines: Seq<Seq<char>>) -> Seq<char>
    decreases lines.len(),
{
    if lines.len() == 0 {
        Seq::empty()
    } else {
        joined_lines(lines.drop_last()) + lines.last() + seq!['\n']
    }
}

proof fn lemma_plain_lines(lines: Seq<Seq<char>>)
    requires
        forall|i: int| 0 <= i < lines.len() ==> !opens_block(trim(#[trigger] lines[i])),
    ensures
        pre_fold(lines) == (PreState {
            in_block: false,
            key: Seq::empty(),
            current: Seq::empty(),
            out: joined_lines(lines),
        }),
    decreases lines.len(),
{
    if lines.len() > 0 {
        let rest = lines.drop_last();
        assert forall|i: int| 0 <= i < rest.len() implies !opens_block(trim(#[trigger] rest[i])) by {
            assert(rest[i] == lines[i]);
        }
        lemma_plain_lines(rest);
        assert(!opens_block(trim(lines[lines.len() - 1])));
    }
}

/// A text with no multi-line value comes out line for line, each line followed by a
/// line feed.
pub proof fn law_plain_text_is_kept(s: Seq<char>)
    requires
        forall|i: int| 0 <= i < text_lines(s).len() ==> !opens_block(trim(#[trigger] text_lines(s)[i])),
    ensures
        preprocess_spec(s) == joined_lines(text_lines(s)),
{
    lemma_plain_lines(text_lines(s));
}

proof fn lemma_pre_fold_push(lines: Seq<Seq<char>>, x: Seq<char>)
    ensures
        pre_fold(lines.push(x)) == pre_step(pre_fold(lines), x),
{
    assert(lines.push(x).drop_last() =~= lines);
}

proof fn lemma_block_lines(before: Seq<Seq<char>>, body: Seq<Seq<char>>, m: int)
    requires
        pre_fold(before).in_block,
        0 <= m <= body.len(),
        forall|k: int| 0 <= k < body.len() ==> trim(#[trigger] body[k]) != delimiter(),
    ensures
        pre_fold(before + body.take(m)) == (PreState {
            in_block: true,
            key: pre_fold(before).key,
            current: pre_fold(before).current + joined_lines(body.take(m)),
            out: pre_fold(before).out,
        }),
    decreases m,
{
    if m == 0 {
        assert(before + body.take(0) =~= before);
        assert(joined_lines(body.take(0)) =~= Seq::<char>::empty());
        assert(pre_fold(before).current + Seq::<char>::empty() =~= pre_fold(before).current);
    } else {
        lemma_block_lines(before, body, m - 1);
        assert(before + body.take(m) =~= (before + body.take(m - 1)).push(body[m - 1]));
        lemma_pre_fold_push(before + body.take(m - 1), body[m - 1]);
        assert(body.take(m).drop_last() =~= body.take(m - 1));
        assert(body.take(m).last() == body[m - 1]);
        assert(pre_fold(before).current + joined_lines(body.take(m)) =~= pre_fold(before).current + joined_lines(
            body.take(m - 1),
        ) + body[m - 1] + seq!['\n']);
    }
}

/// A multi-line value holds only its own lines: whatever came before, a block
/// `key = """`, its lines, and a closing `"""` add one line `key=` followed by those
/// lines (end-trimmed, line feeds escaped), and leave the preprocessor outside a block.
pub proof fn law_block_holds_only_its_lines(
    prefix: Seq<Seq<char>>,
    open: Seq<char>,
    body: Seq<Seq<char>>,
    close: Seq<char>,
)
    requires
        !pre_fold(prefix).in_block,
        opens_block(trim(open)),
        forall|k: int| 0 <= k < body.len() ==> trim(#[trigger] body[k]) != delimiter(),
        trim(close) == delimiter(),
    ensures
        !pre_fold(prefix + seq![open] + body + seq![close]).in_block,
        pre_fold(prefix + seq![open] + body + seq![close]).out == pre_fold(prefix).out + trim(
            split_once(trim(open), '=').0,
        ) + seq!['='] + escape_newlines(trim_end(joined_lines(body))) + seq!['\n'],
{
    let before = prefix.push(open);
    assert(prefix + seq![open] =~= before);
    lemma_pre_fold_push(prefix, open);
    lemma_block_lines(before, body, body.len() as int);
    assert(body.take(body.len() as int) =~= body);
    assert(pre_fold(before).current =~= Seq::<char>::empty());
    assert(Seq::<char>::empty() + joined_lines(body) =~= joined_lines(body));
    assert(prefix + seq![open] + body + seq![close] =~= (before + body).push(close));
    lemma_pre_fold_push(before + body, close);
}

/// The lines of a text (`str::lines`).
pub fn lines_of(s: &str) -> (r: Vec<String>)
    ensures
        texts_view(r@) == text_lines(s@),
{
    let ps = text::pieces_of(s, '\n');
    proof {
        text::lemma_pieces_len(s@, '\n');
    }
    let ghost p = texts_view(ps@);
    let mut out: Vec<String> = Vec::new();
    let mut i: usize = 0;
    while i < ps.len() - 1
        invariant
            p == texts_view(ps@),
            p == pieces(s@, '\n'),
            p.len() >= 1,
            p.len() == ps@.len(),
            i < p.len(),
            texts_view(out@) == p.take(i as int).map_values(|q: Seq<char>| strip_cr(q)),
        decreases ps.len() - i,
    {
        let v = text::chars_of(ps[i].as_str());
        let line = if v.len() > 0 && v[v.len() - 1] == '\r' {
            text::string_of_range(&v, 0, v.len() - 1)
        } else {
            text::string_of_range(&v, 0, v.len())
        };
        assert(line@ == strip_cr(p[i as int])) by {
            assert(v@ == p[i as int]);
            assert(v@.subrange(0, v@.len() as int) == v@);
        }
        let ghost before = texts_view(out@);
        out.push(line);
        assert(texts_view(out@) =~= before.push(line@));
        assert(p.take(i + 1).map_values(|q: Seq<char>| strip_cr(q)) =~= p.take(i as int).map_values(
            |q: Seq<char>| strip_cr(q),
        ).push(strip_cr(p[i as int])));
        i += 1;
    }
    assert(p.take(i as int) == p.drop_last());
    let last = &ps[ps.len() - 1];
    if !last.as_str().is_empty() {
        let ghost before = texts_view(out@);
        let l = last.clone();
        out.push(l);
        assert(texts_view(out@) =~= before.push(p.last()));
    }
    out
}

/// Writes every line feed of `s` as `\n`.
pub fn escape_line_feeds(s: &str) -> (r: String)
    ensures
        r@ == escape_newlines(s@),
{
    let v = text::chars_of(s);
    let mut out = String::new();
    let mut i: usize = 0;
    assert(s@.take(0) =~= Seq::<char>::empty());
    while i < v.len()
        invariant
            v@ == s@,
            i <= v@.len(),
            out@ == escape_newlines(s@.take(i as int)),
        decreases v.len() - i,
    {
        assert(s@.take(i + 1).drop_last() == s@.take(i as int));
        assert(s@.take(i + 1).last() == v@[i as int]);
        if v[i] == '\n' {
            text::push_char(&mut out, '\\');
            text::push_char(&mut out, 'n');
        } else {
            text::push_char(&mut out, v[i]);
        }
        i += 1;
        assert(out@ =~= escape_newlines(s@.take(i as int)));
    }
    assert(s@.take(v@.len() as int) == s@);
    out
}

/// `s` without trailing white space (`str::trim_end`).
fn trimmed_end(s: &str) -> (r: String)
    ensures
        r@ == trim_end(s@),
{
    let v = text::chars_of(s);
    let mut b = v.len();
    while b > 0 && text::is_white_space_char(v[b - 1])
        invariant
            v@ == s@,
            b <= v@.len(),
            forall|i: int| b <= i < v@.len() ==> crate::text::is_white_space(#[trigger] v@[i]),
        decreases b,
    {
        b -= 1;
    }
    proof {
        crate::text::lemma_trim_end_unique(s@, b as int);
    }
    text::string_of_range(&v, 0, b)
}

/// Joins multi-line values (`key="""` ... `"""`) into single lines with `\n` for their
/// line breaks; every other line is kept as it is.
pub fn preprocess(input: &str) -> (r: String)
    ensures
        r@ == preprocess_spec(input@),
{
    let lines = lines_of(input);
    let ghost ls = texts_view(lines@);
    let mut output = String::new();
    let mut in_block = false;
    let mut current_key = String::new();
    let mut current_line = String::new();
    let mut i: usize = 0;
    assert(ls.take(0) =~= Seq::<Seq<char>>::empty());
    assert(output@ =~= Seq::<char>::empty());
    assert(current_key@ =~= Seq::<char>::empty());
    assert(current_line@ =~= Seq::<char>::empty());
    while i < lines.len()
        invariant
            ls == texts_view(lines@),
            ls == text_lines(input@),
            i <= ls.len(),
            pre_fold(ls.take(i as int)) == (PreState {
                in_block,
                key: current_key@,
                current: current_line@,
                out: output@,
            }),
        decreases lines.len() - i,
    {
        assert(ls.take(i + 1).drop_last() == ls.take(i as int));
        assert(ls.take(i + 1).last() == lines@[i as int]@);
        let line = lines[i].as_str();
        let trimmed = text::trimmed(line);
        let ghost t = trimmed@;
        let ghost st = PreState { in_block, key: current_key@, current: current_line@, out: output@ };
        proof {
            reveal_strlit("\"\"\"");
            assert("\"\"\""@ =~= delimiter());
        }
        let mut opened = false;
        if !in_block {
            let (k, v) = text::split_once_at(trimmed.as_str(), '=');
            if let Some(v) = v {
                let value = text::trimmed(v.as_str());
                if text::same_text(value.as_str(), "\"\"\"") {
                    proof {
                        reveal_strlit("\"\"\"");
                    }
                    in_block = true;
                    current_key = text::trimmed(k.as_str());
                    current_line = String::new();
                    assert(current_line@ =~= Seq::<char>::empty());
                    assert(opens_block(t));
                    opened = true;
                } else {
                    proof {
                        reveal_strlit("\"\"\"");
                    }
                }
            }
        }
        if !opened {
            if in_block {
                proof {
                    reveal_strlit("\"\"\"");
                }
                if text::same_text(trimmed.as_str(), "\"\"\"") {
                    let body = trimmed_end(current_line.as_str());
                    let escaped = escape_line_feeds(body.as_str());
                    output.append(current_key.as_str());
                    output.append("=");
                    output.append(escaped.as_str());
                    output.append("\n");
                    proof {
                        reveal_strlit("=");
                        reveal_strlit("\n");
                    }
                    in_block = false;
                    assert(t == delimiter());
                    assert(output@ =~= st.out + st.key + seq!['='] + escape_newlines(trim_end(st.current)) + seq!['\n']);
                } else {
                    current_line.append(line);
                    current_line.append("\n");
                    proof {
                        reveal_strlit("\n");
                    }
                }
            } else {
                output.append(line);
                output.append("\n");
                proof {
                    reveal_strlit("\n");
                }
                assert(!opens_block(t));
                assert(output@ =~= st.out + line@ + seq!['\n']);
            }
        }
        assert(PreState { in_block, key: current_key@, current: current_line@, out: output@ } =~= pre_step(st, line@));
        i += 1;
    }
    assert(ls.take(ls.len() as int) == ls);
    output
}

/// Preprocesses a text and reads it as an ini document; a document the `ini` crate
/// refuses gives `CouldNotLoadFile` with its message.
pub fn preprocess_to_ini(input: &str) -> (r: Result<IniDoc, Application>)
    ensures
        match ini_read(preprocess_spec(input@)) {
            Ok(d) => r is Ok && r->Ok_0@ == d,
            Err(m) => r is Err && r->Err_0@ == ErrorView::CouldNotLoadFile(m),
        },
{
    let preprocessed = preprocess(input);
    match IniDoc::load_from_str(preprocessed.as_str()) {
        Ok(d) => Ok(d),
        Err(m) => Err(Application::CouldNotLoadFile(m)),
    }
}

} // verus!
