//! Documentation comments: parsing free-form doc text into a structured
//! model and rendering that model as JSDoc.

use vstd::prelude::*;

use crate::text::{
    chars_start_with, chars_to_string, lemma_concat_take_succ, slice_range, spec_concat,
    spec_lines, spec_lower_str, spec_starts_with, spec_trim, spec_trim_end, spec_trim_start,
    split_lines, str_chars, str_to_lowercase, trim_chars,
};

verus! {

/// A structured documentation comment.
#[derive(Debug, Clone)]
pub struct DocComment {
    /// The leading summary paragraph.
    pub summary: String,
    /// Free text after the summary, before any heading.
    pub description: Option<String>,
    /// Code blocks found under an `Examples` (or `Example`) heading.
    pub examples: Vec<String>,
    /// Every other heading, with its text, in source order.
    pub sections: Vec<DocSection>,
}

/// One named documentation section.
#[derive(Debug, Clone)]
pub struct DocSection {
    /// The heading text.
    pub name: String,
    /// The section body.
    pub content: String,
}

/// The single-line comment form of a summary.
pub open spec fn spec_inline_jsdoc(summary: Seq<char>) -> Seq<char> {
    if summary.len() == 0 {
        Seq::<char>::empty()
    } else {
        "/** "@ + summary + " */"@
    }
}

// ---------------------------------------------------------------------------
// The parsing state machine
// ---------------------------------------------------------------------------

/// The parser state after some prefix of the input lines.
pub struct DocParseState {
    /// The summary gathered so far, words joined by single spaces.
    pub summary: Seq<char>,
    /// The description gathered so far, lines joined by newlines.
    pub description: Seq<char>,
    /// The example blocks gathered so far.
    pub examples: Seq<Seq<char>>,
    /// The finished sections, name and trimmed content.
    pub sections: Seq<(Seq<char>, Seq<char>)>,
    /// The open section, name and untrimmed content.
    pub current: Option<(Seq<char>, Seq<char>)>,
    /// Whether a fenced code block is open.
    pub in_code: bool,
    /// The raw lines of the open fenced block, joined by newlines.
    pub code: Seq<char>,
    /// Whether lines still belong to the summary.
    pub parsing_summary: bool,
}

/// The state before any line.
pub open spec fn d_init() -> DocParseState {
    DocParseState {
        summary: Seq::<char>::empty(),
        description: Seq::<char>::empty(),
        examples: Seq::<Seq<char>>::empty(),
        sections: Seq::<(Seq<char>, Seq<char>)>::empty(),
        current: None,
        in_code: false,
        code: Seq::<char>::empty(),
        parsing_summary: true,
    }
}

/// A heading that collects examples.
pub open spec fn spec_is_examples_name(n: Seq<char>) -> bool {
    n == "Examples"@ || n == "Example"@
}

/// `acc` extended by `line`, separated by a newline when `acc` is nonempty.
pub open spec fn spec_append_line(acc: Seq<char>, line: Seq<char>) -> Seq<char> {
    if acc.len() > 0 {
        acc + seq!['\n'] + line
    } else {
        line
    }
}

/// `acc` extended by `w`, separated by a space when `acc` is nonempty.
pub open spec fn spec_append_word(acc: Seq<char>, w: Seq<char>) -> Seq<char> {
    if acc.len() > 0 {
        acc + seq![' '] + w
    } else {
        w
    }
}

/// Closing a fenced block: under an `Examples` heading the block becomes an
/// example; under any other heading its raw text joins the section content;
/// outside any heading it is dropped.
pub open spec fn d_close_fence(st: DocParseState) -> DocParseState {
    let st2 = match st.current {
        Some(cur) => {
            if spec_is_examples_name(cur.0) {
                DocParseState { examples: st.examples.push(st.code), ..st }
            } else {
                DocParseState {
                    current: Some((cur.0, spec_append_line(cur.1, st.code))),
                    ..st
                }
            }
        },
        None => st,
    };
    DocParseState { in_code: false, code: Seq::<char>::empty(), ..st2 }
}

/// Saving the open section: a non-example section is appended, with its
/// content trimmed; an `Examples` heading leaves no section entry.
pub open spec fn d_save_section(st: DocParseState) -> DocParseState {
    match st.current {
        Some(cur) => {
            if spec_is_examples_name(cur.0) {
                DocParseState { current: None, ..st }
            } else {
                DocParseState {
                    sections: st.sections.push((cur.0, spec_trim(cur.1))),
                    current: None,
                    ..st
                }
            }
        },
        None => st,
    }
}

/// One parser step, on one input line.
pub open spec fn d_step(st: DocParseState, line: Seq<char>) -> DocParseState {
    let t = spec_trim(line);
    if spec_starts_with(t, "```"@) {
        if st.in_code {
            d_close_fence(st)
        } else {
            DocParseState { in_code: true, ..st }
        }
    } else if st.in_code {
        DocParseState { code: spec_append_line(st.code, line), ..st }
    } else if spec_starts_with(t, "# "@) {
        let st2 = d_save_section(st);
        DocParseState {
            current: Some((t.skip(2), Seq::<char>::empty())),
            parsing_summary: false,
            ..st2
        }
    } else if t.len() == 0 && st.parsing_summary && st.summary.len() > 0 {
        DocParseState { parsing_summary: false, ..st }
    } else {
        match st.current {
            Some(cur) => DocParseState {
                current: Some((cur.0, spec_append_line(cur.1, t))),
                ..st
            },
            None => {
                if st.parsing_summary {
                    DocParseState { summary: spec_append_word(st.summary, t), ..st }
                } else {
                    DocParseState { description: spec_append_line(st.description, t), ..st }
                }
            },
        }
    }
}

/// The parser run over a sequence of lines.
pub open spec fn d_run(st: DocParseState, lines: Seq<Seq<char>>) -> DocParseState
    decreases lines.len(),
{
    if lines.len() == 0 {
        st
    } else {
        d_run(d_step(st, lines[0]), lines.drop_first())
    }
}

/// End of input: an unterminated fenced block is treated as closed, then the
/// open section is saved.
pub open spec fn d_finish(st: DocParseState) -> DocParseState {
    d_save_section(
        if st.in_code {
            d_close_fence(st)
        } else {
            st
        },
    )
}

/// The final parser state for a whole document.
pub open spec fn spec_parse(doc: Seq<char>) -> DocParseState {
    d_finish(d_run(d_init(), spec_lines(doc)))
}

pub proof fn lemma_d_run_take_succ(st0: DocParseState, lines: Seq<Seq<char>>, i: int)
    requires
        0 <= i < lines.len(),
    ensures
        d_run(st0, lines.take(i + 1)) == d_step(d_run(st0, lines.take(i)), lines[i]),
    decreases i,
{
    if i == 0 {
        assert(lines.take(1).drop_first() =~= Seq::<Seq<char>>::empty());
        assert(lines.take(1)[0] == lines[0]);
        assert(lines.take(0) =~= Seq::<Seq<char>>::empty());
        assert(d_run(st0, lines.take(0)) == st0);
        assert(d_run(d_step(st0, lines[0]), Seq::<Seq<char>>::empty()) == d_step(st0, lines[0]));
        assert(d_run(st0, lines.take(1)) == d_run(
            d_step(st0, lines.take(1)[0]),
            lines.take(1).drop_first(),
        ));
    } else {
        let tail = lines.drop_first();
        let st1 = d_step(st0, lines[0]);
        lemma_d_run_take_succ(st1, tail, i - 1);
        assert(lines.take(i + 1).drop_first() =~= tail.take(i));
        assert(lines.take(i).drop_first() =~= tail.take(i - 1));
        assert(d_run(st0, lines.take(i + 1)) == d_run(
            d_step(st0, lines.take(i + 1)[0]),
            lines.take(i + 1).drop_first(),
        ));
        assert(d_run(st0, lines.take(i)) == d_run(
            d_step(st0, lines.take(i)[0]),
            lines.take(i).drop_first(),
        ));
        assert(lines.take(i + 1)[0] == lines[0]);
        assert(lines.take(i)[0] == lines[0]);
        assert(tail[i - 1] == lines[i]);
    }
}


/// Law: parsing a summary-only line and rendering it inline round-trips.
/// For a single line that is not blank, not a fence and not a heading, the
/// parsed summary is the trimmed line, and its inline JSDoc form is exactly
/// that text wrapped as `/** ... */`. (An empty summary renders to the empty
/// string by `spec_inline_jsdoc` directly.)
pub proof fn lemma_inline_roundtrip(doc: Seq<char>)
    requires
        forall|k: int| 0 <= k < doc.len() ==> doc[k] != '\n',
        spec_trim(doc).len() > 0,
        !spec_starts_with(spec_trim(doc), "```"@),
        !spec_starts_with(spec_trim(doc), "# "@),
    ensures
        spec_trim(spec_parse(doc).summary) == spec_trim(doc),
        spec_inline_jsdoc(spec_trim(spec_parse(doc).summary)) == "/** "@ + spec_trim(doc)
            + " */"@,
{
    let t = spec_trim(doc);
    assert(doc.len() > 0) by {
        if doc.len() == 0 {
            assert(spec_trim_start(doc) == doc);
            assert(spec_trim_end(doc) == doc);
        }
    }
    crate::text::lemma_find_props(doc, crate::text::c_nl(), 0);
    let j = crate::text::spec_find(doc, crate::text::c_nl(), 0);
    assert(j == doc.len()) by {
        if j < doc.len() {
            assert(doc[j] == '\n');
        }
    }
    assert(doc.subrange(0, doc.len() as int) =~= doc);
    assert(spec_lines(doc) =~= seq![doc]);
    let lines = spec_lines(doc);
    let st1 = d_step(d_init(), doc);
    assert(lines.drop_first() =~= Seq::<Seq<char>>::empty());
    assert(d_run(st1, Seq::<Seq<char>>::empty()) == st1);
    assert(d_run(d_init(), lines) == st1);
    assert(st1.summary == t);
    assert(st1.current is None);
    assert(!st1.in_code);
    assert(d_finish(st1).summary == t);
    crate::text::lemma_trim_idempotent(doc);
}

/// Each line of `ls` as a continuation line of a JSDoc block.
pub open spec fn spec_starred_lines_parts(ls: Seq<Seq<char>>) -> Seq<Seq<char>> {
    Seq::new(ls.len(), |i: int| "\n * "@ + ls[i])
}

/// One example rendered as a fenced, tagged sub-block.
pub open spec fn spec_example_block(e: Seq<char>) -> Seq<char> {
    "\n *\n * @example\n * ```typescript"@ + spec_concat(spec_starred_lines_parts(spec_lines(e)))
        + "\n * ```"@
}

pub open spec fn spec_example_blocks(es: Seq<String>) -> Seq<Seq<char>> {
    Seq::new(es.len(), |i: int| spec_example_block(es[i]@))
}

/// One section rendered as an at-tag sub-block; the tag is the lowercased
/// section name.
pub open spec fn spec_section_block(name: Seq<char>, content: Seq<char>) -> Seq<char> {
    "\n *\n * @"@ + spec_lower_str(name) + spec_concat(spec_starred_lines_parts(
        spec_lines(content),
    ))
}

pub open spec fn spec_section_blocks(ss: Seq<DocSection>) -> Seq<Seq<char>> {
    Seq::new(ss.len(), |i: int| spec_section_block(ss[i].name@, ss[i].content@))
}

/// The block JSDoc form of a documentation comment: `/**`, the summary line
/// when there is one, the description lines, one example sub-block per
/// example, one at-tag sub-block per section, and the closing `*/`, each
/// element on its own ` * `-prefixed line.
pub open spec fn spec_jsdoc(d: DocComment) -> Seq<char> {
    "/**"@ + (if d.summary@.len() > 0 {
        "\n * "@ + d.summary@
    } else {
        Seq::<char>::empty()
    }) + (match d.description {
        Some(ref desc) => "\n *"@ + spec_concat(spec_starred_lines_parts(spec_lines(desc@))),
        None => Seq::<char>::empty(),
    }) + spec_concat(spec_example_blocks(d.examples@)) + spec_concat(
        spec_section_blocks(d.sections@),
    ) + "\n */"@
}

fn extend_chars(dst: &mut Vec<char>, src: &[char])
    ensures
        final(dst)@ == old(dst)@ + src@,
{
    let n: usize = src.len();
    let mut i: usize = 0;
    while i < n
        invariant
            i <= n,
            n == src@.len(),
            dst@ == old(dst)@ + src@.take(i as int),
        decreases n - i,
    {
        dst.push(src[i]);
        i = i + 1;
        proof {
            assert(dst@ =~= old(dst)@ + src@.take(i as int));
        }
    }
    proof {
        assert(old(dst)@ + src@.take(n as int) =~= old(dst)@ + src@);
    }
}

fn append_line_chars(acc: &mut Vec<char>, line: &[char])
    ensures
        final(acc)@ == spec_append_line(old(acc)@, line@),
{
    if acc.len() > 0 {
        acc.push('\n');
        extend_chars(acc, line);
        proof {
            assert(acc@ =~= old(acc)@ + seq!['\n'] + line@);
        }
    } else {
        extend_chars(acc, line);
        proof {
            assert(acc@ =~= line@);
        }
    }
}

fn append_word_chars(acc: &mut Vec<char>, w: &[char])
    ensures
        final(acc)@ == spec_append_word(old(acc)@, w@),
{
    if acc.len() > 0 {
        acc.push(' ');
        extend_chars(acc, w);
        proof {
            assert(acc@ =~= old(acc)@ + seq![' '] + w@);
        }
    } else {
        extend_chars(acc, w);
        proof {
            assert(acc@ =~= w@);
        }
    }
}

fn chars_eq_str(v: &[char], s: &str) -> (r: bool)
    ensures
        r == (v@ == s@),
{
    let m: usize = s.unicode_len();
    if v.len() != m {
        proof {
            assert(v@ != s@);
        }
        return false;
    }
    let mut i: usize = 0;
    while i < m
        invariant
            i <= m,
            m == s@.len(),
            m == v@.len(),
            forall|k: int| 0 <= k < i ==> v@[k] == s@[k],
        decreases m - i,
    {
        if v[i] != s.get_char(i) {
            return false;
        }
        i = i + 1;
    }
    proof {
        assert(v@ =~= s@);
    }
    true
}

impl DocComment {
    /// A documentation comment with nothing in it.
    pub fn empty() -> (r: Self)
        ensures
            r.summary@.len() == 0,
            r.description is None,
            r.examples@.len() == 0,
            r.sections@.len() == 0,
    {
        Self {
            summary: String::new(),
            description: None,
            examples: Vec::new(),
            sections: Vec::new(),
        }
    }

    /// A documentation comment holding only a summary.
    pub fn summary(text: &str) -> (r: Self)
        ensures
            r.summary@ == text@,
            r.description is None,
            r.examples@.len() == 0,
            r.sections@.len() == 0,
    {
        Self {
            summary: String::from_str(text),
            description: None,
            examples: Vec::new(),
            sections: Vec::new(),
        }
    }

    /// Parses free-form documentation text, line by line: the summary runs
    /// to the first blank line or heading, headed sections collect their
    /// text, fenced code blocks are captured verbatim (those under an
    /// `Examples` heading become examples, those under another heading join
    /// that section's text), and an unterminated fence is closed at end of
    /// input. Whitespace trimming is ASCII.
    pub fn parse(doc: &str) -> (r: Self)
        ensures
            ({
                let fin = spec_parse(doc@);
                &&& r.summary@ == spec_trim(fin.summary)
                &&& (match r.description {
                    Some(ref d) => fin.description.len() > 0 && d@ == spec_trim(fin.description),
                    None => fin.description.len() == 0,
                })
                &&& r.examples.deep_view() == fin.examples
                &&& r.sections@.len() == fin.sections.len()
                &&& (forall|k: int|
                    0 <= k < fin.sections.len() ==> (#[trigger] r.sections@[k]).name@
                        == fin.sections[k].0 && r.sections@[k].content@ == fin.sections[k].1)
            }),
    {
        let cs = str_chars(doc);
        let lines = split_lines(cs.as_slice());
        let n: usize = lines.len();
        let ghost dv = lines.deep_view();
        let mut summary: Vec<char> = Vec::new();
        let mut description: Vec<char> = Vec::new();
        let mut examples: Vec<String> = Vec::new();
        let mut sections: Vec<DocSection> = Vec::new();
        let mut has_current: bool = false;
        let mut cur_name: Vec<char> = Vec::new();
        let mut cur_content: Vec<char> = Vec::new();
        let mut in_code: bool = false;
        let mut code: Vec<char> = Vec::new();
        let mut parsing_summary: bool = true;
        let mut i: usize = 0;
        proof {
            assert(dv.take(0) =~= Seq::<Seq<char>>::empty());
        }
        while i < n
            invariant
                i <= n,
                n == lines@.len(),
                dv == lines.deep_view(),
                dv == spec_lines(doc@),
                ({
                    let st = d_run(d_init(), dv.take(i as int));
                    &&& summary@ == st.summary
                    &&& description@ == st.description
                    &&& examples.deep_view() == st.examples
                    &&& sections@.len() == st.sections.len()
                    &&& (forall|k: int|
                        0 <= k < st.sections.len() ==> (#[trigger] sections@[k]).name@
                            == st.sections[k].0 && sections@[k].content@ == st.sections[k].1)
                    &&& (has_current ==> st.current == Some((cur_name@, cur_content@)))
                    &&& (!has_current ==> st.current is None)
                    &&& in_code == st.in_code
                    &&& code@ == st.code
                    &&& parsing_summary == st.parsing_summary
                }),
            decreases n - i,
        {
            let ghost st = d_run(d_init(), dv.take(i as int));
            let ghost line_spec = dv[i as int];
            let ghost st2 = d_step(st, line_spec);
            proof {
                lemma_d_run_take_succ(d_init(), dv, i as int);
                assert(lines@[i as int]@ == dv[i as int]);
            }
            let line: &Vec<char> = &lines[i];
            let trimmed = trim_chars(line.as_slice());
            let ghost old_sections = sections@;
            let ghost old_examples = examples.deep_view();
            if chars_start_with(trimmed.as_slice(), "```") {
                if in_code {
                    if has_current {
                        if chars_eq_str(cur_name.as_slice(), "Examples") || chars_eq_str(
                            cur_name.as_slice(),
                            "Example",
                        ) {
                            let e = chars_to_string(code.as_slice());
                            examples.push(e);
                            proof {
                                assert(examples.deep_view() =~= old_examples.push(st.code));
                            }
                        } else {
                            append_line_chars(&mut cur_content, code.as_slice());
                        }
                    }
                    in_code = false;
                    code = Vec::new();
                } else {
                    in_code = true;
                }
            } else if in_code {
                append_line_chars(&mut code, line.as_slice());
            } else if chars_start_with(trimmed.as_slice(), "# ") {
                if has_current {
                    if !(chars_eq_str(cur_name.as_slice(), "Examples") || chars_eq_str(
                        cur_name.as_slice(),
                        "Example",
                    )) {
                        let name_s = chars_to_string(cur_name.as_slice());
                        let tc = trim_chars(cur_content.as_slice());
                        let content_s = chars_to_string(tc.as_slice());
                        sections.push(DocSection { name: name_s, content: content_s });
                        proof {
                            let saved = d_save_section(st);
                            assert(sections@.len() == saved.sections.len());
                            assert(forall|k: int|
                                0 <= k < saved.sections.len() ==> (#[trigger] sections@[k]).name@
                                    == saved.sections[k].0 && sections@[k].content@
                                    == saved.sections[k].1);
                        }
                    }
                }
                proof {
                    reveal_strlit("# ");
                }
                cur_name = slice_range(trimmed.as_slice(), 2, trimmed.len());
                cur_content = Vec::new();
                has_current = true;
                parsing_summary = false;
                proof {
                    assert(trimmed@.subrange(2, trimmed@.len() as int) =~= spec_trim(
                        line_spec,
                    ).skip(2));
                }
            } else if trimmed.len() == 0 && parsing_summary && summary.len() > 0 {
                parsing_summary = false;
            } else {
                if has_current {
                    append_line_chars(&mut cur_content, trimmed.as_slice());
                } else if parsing_summary {
                    append_word_chars(&mut summary, trimmed.as_slice());
                } else {
                    append_line_chars(&mut description, trimmed.as_slice());
                }
            }
            proof {
                assert(d_run(d_init(), dv.take(i as int + 1)) == st2);
            }
            i = i + 1;
        }
        proof {
            assert(dv.take(n as int) =~= dv);
        }
        let ghost st_end = d_run(d_init(), dv);
        let ghost old_sections = sections@;
        let ghost old_examples = examples.deep_view();
        if in_code {
            if has_current {
                if chars_eq_str(cur_name.as_slice(), "Examples") || chars_eq_str(
                    cur_name.as_slice(),
                    "Example",
                ) {
                    let e = chars_to_string(code.as_slice());
                    examples.push(e);
                    proof {
                        assert(examples.deep_view() =~= old_examples.push(st_end.code));
                    }
                } else {
                    append_line_chars(&mut cur_content, code.as_slice());
                }
            }
        }
        let ghost st3 = if st_end.in_code {
            d_close_fence(st_end)
        } else {
            st_end
        };
        if has_current {
            if !(chars_eq_str(cur_name.as_slice(), "Examples") || chars_eq_str(
                cur_name.as_slice(),
                "Example",
            )) {
                let name_s = chars_to_string(cur_name.as_slice());
                let tc = trim_chars(cur_content.as_slice());
                let content_s = chars_to_string(tc.as_slice());
                sections.push(DocSection { name: name_s, content: content_s });
            }
        }
        let ghost fin = d_finish(st_end);
        proof {
            assert(fin == d_save_section(st3));
            assert(sections@.len() == fin.sections.len());
            assert(forall|k: int|
                0 <= k < fin.sections.len() ==> (#[trigger] sections@[k]).name@
                    == fin.sections[k].0 && sections@[k].content@ == fin.sections[k].1);
            assert(examples.deep_view() == fin.examples);
        }
        let sum_t = trim_chars(summary.as_slice());
        let summary_s = chars_to_string(sum_t.as_slice());
        let description_o = if description.len() == 0 {
            None
        } else {
            let dt = trim_chars(description.as_slice());
            Some(chars_to_string(dt.as_slice()))
        };
        Self { summary: summary_s, description: description_o, examples, sections }
    }

    /// The block JSDoc form: summary, description, one sub-block per
    /// example, then one at-tag sub-block per section.
    pub fn to_jsdoc(&self) -> (r: String)
        ensures
            r@ == spec_jsdoc(*self),
    {
        let mut r = String::from_str("/**");
        if self.summary.as_str().unicode_len() > 0 {
            r.append("\n * ");
            r.append(self.summary.as_str());
        }
        if let Some(desc) = &self.description {
            r.append("\n *");
            let ghost base = r@;
            let cs = str_chars(desc.as_str());
            let lines = split_lines(cs.as_slice());
            let ghost lparts = spec_starred_lines_parts(spec_lines(desc@));
            proof {
                assert(lparts.take(0) =~= Seq::<Seq<char>>::empty());
                assert(base + spec_concat(lparts.take(0)) =~= base);
            }
            let ln: usize = lines.len();
            let mut i: usize = 0;
            while i < ln
                invariant
                    i <= ln,
                    ln == lines@.len(),
                    lines.deep_view() == spec_lines(desc@),
                    lparts == spec_starred_lines_parts(spec_lines(desc@)),
                    r@ == base + spec_concat(lparts.take(i as int)),
                decreases ln - i,
            {
                let ghost r0 = r@;
                r.append("\n * ");
                let line = chars_to_string(lines[i].as_slice());
                r.append(line.as_str());
                proof {
                    assert(lines@[i as int]@ == lines.deep_view()[i as int]);
                    lemma_concat_take_succ(lparts, i as int);
                    assert(r@ =~= r0 + lparts[i as int]);
                    assert(base + (spec_concat(lparts.take(i as int)) + lparts[i as int]) =~= (base
                        + spec_concat(lparts.take(i as int))) + lparts[i as int]);
                }
                i = i + 1;
            }
            proof {
                assert(lparts.take(ln as int) =~= lparts);
            }
        }
        let ghost eparts = spec_example_blocks(self.examples@);
        proof {
            assert(eparts.take(0) =~= Seq::<Seq<char>>::empty());
            assert(r@ + spec_concat(eparts.take(0)) =~= r@);
        }
        let ghost base_e = r@;
        let en: usize = self.examples.len();
        let mut i: usize = 0;
        while i < en
            invariant
                i <= en,
                en == self.examples@.len(),
                eparts == spec_example_blocks(self.examples@),
                r@ == base_e + spec_concat(eparts.take(i as int)),
            decreases en - i,
        {
            let ghost r0 = r@;
            r.append("\n *\n * @example\n * ```typescript");
            let cs = str_chars(self.examples[i].as_str());
            let lines = split_lines(cs.as_slice());
            let ghost lparts = spec_starred_lines_parts(spec_lines(self.examples@[i as int]@));
            let ghost base_l = r@;
            proof {
                assert(lparts.take(0) =~= Seq::<Seq<char>>::empty());
                assert(base_l + spec_concat(lparts.take(0)) =~= base_l);
            }
            let ln: usize = lines.len();
            let mut k: usize = 0;
            while k < ln
                invariant
                    k <= ln,
                    ln == lines@.len(),
                    lines.deep_view() == spec_lines(self.examples@[i as int]@),
                    lparts == spec_starred_lines_parts(spec_lines(self.examples@[i as int]@)),
                    i < en == self.examples@.len(),
                    r@ == base_l + spec_concat(lparts.take(k as int)),
                decreases ln - k,
            {
                let ghost r1 = r@;
                r.append("\n * ");
                let line = chars_to_string(lines[k].as_slice());
                r.append(line.as_str());
                proof {
                    assert(lines@[k as int]@ == lines.deep_view()[k as int]);
                    lemma_concat_take_succ(lparts, k as int);
                    assert(r@ =~= r1 + lparts[k as int]);
                    assert(base_l + (spec_concat(lparts.take(k as int)) + lparts[k as int]) =~= (
                    base_l + spec_concat(lparts.take(k as int))) + lparts[k as int]);
                }
                k = k + 1;
            }
            r.append("\n * ```");
            proof {
                assert(lparts.take(ln as int) =~= lparts);
                lemma_concat_take_succ(eparts, i as int);
                assert(eparts[i as int] == spec_example_block(self.examples@[i as int]@));
                assert(r@ =~= r0 + eparts[i as int]);
                assert(base_e + (spec_concat(eparts.take(i as int)) + eparts[i as int]) =~= (base_e
                    + spec_concat(eparts.take(i as int))) + eparts[i as int]);
            }
            i = i + 1;
        }
        proof {
            assert(eparts.take(en as int) =~= eparts);
        }
        let ghost sparts = spec_section_blocks(self.sections@);
        proof {
            assert(sparts.take(0) =~= Seq::<Seq<char>>::empty());
            assert(r@ + spec_concat(sparts.take(0)) =~= r@);
        }
        let ghost base_s = r@;
        let sn: usize = self.sections.len();
        let mut i: usize = 0;
        while i < sn
            invariant
                i <= sn,
                sn == self.sections@.len(),
                sparts == spec_section_blocks(self.sections@),
                r@ == base_s + spec_concat(sparts.take(i as int)),
            decreases sn - i,
        {
            let ghost r0 = r@;
            r.append("\n *\n * @");
            let lowered = str_to_lowercase(self.sections[i].name.as_str());
            r.append(lowered.as_str());
            let cs = str_chars(self.sections[i].content.as_str());
            let lines = split_lines(cs.as_slice());
            let ghost lparts = spec_starred_lines_parts(
                spec_lines(self.sections@[i as int].content@),
            );
            let ghost base_l = r@;
            proof {
                assert(lparts.take(0) =~= Seq::<Seq<char>>::empty());
                assert(base_l + spec_concat(lparts.take(0)) =~= base_l);
            }
            let ln: usize = lines.len();
            let mut k: usize = 0;
            while k < ln
                invariant
                    k <= ln,
                    ln == lines@.len(),
                    lines.deep_view() == spec_lines(self.sections@[i as int].content@),
                    lparts == spec_starred_lines_parts(
                        spec_lines(self.sections@[i as int].content@),
                    ),
                    i < sn == self.sections@.len(),
                    r@ == base_l + spec_concat(lparts.take(k as int)),
                decreases ln - k,
            {
                let ghost r1 = r@;
                r.append("\n * ");
                let line = chars_to_string(lines[k].as_slice());
                r.append(line.as_str());
                proof {
                    assert(lines@[k as int]@ == lines.deep_view()[k as int]);
                    lemma_concat_take_succ(lparts, k as int);
                    assert(r@ =~= r1 + lparts[k as int]);
                    assert(base_l + (spec_concat(lparts.take(k as int)) + lparts[k as int]) =~= (
                    base_l + spec_concat(lparts.take(k as int))) + lparts[k as int]);
                }
                k = k + 1;
            }
            proof {
                assert(lparts.take(ln as int) =~= lparts);
                lemma_concat_take_succ(sparts, i as int);
                assert(sparts[i as int] == spec_section_block(
                    self.sections@[i as int].name@,
                    self.sections@[i as int].content@,
                ));
                assert(r@ =~= r0 + sparts[i as int]);
                assert(base_s + (spec_concat(sparts.take(i as int)) + sparts[i as int]) =~= (base_s
                    + spec_concat(sparts.take(i as int))) + sparts[i as int]);
            }
            i = i + 1;
        }
        proof {
            assert(sparts.take(sn as int) =~= sparts);
        }
        r.append("\n */");
        proof {
            assert(r@ =~= spec_jsdoc(*self));
        }
        r
    }

    /// The single-line JSDoc form: the summary alone, or the empty string
    /// when there is no summary.
    pub fn to_inline_jsdoc(&self) -> (r: String)
        ensures
            r@ == spec_inline_jsdoc(self.summary@),
    {
        let n: usize = self.summary.as_str().unicode_len();
        if n == 0 {
            String::new()
        } else {
            let mut r = String::from_str("/** ");
            r.append(self.summary.as_str());
            r.append(" */");
            r
        }
    }
}

} // verus!
