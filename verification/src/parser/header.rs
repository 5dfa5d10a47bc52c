//! The option header of a prompt block: the text between a prompt's name and
//! its `{`.
//!
//! The header is indented along with the block it belongs to. Its first
//! line that is not blank fixes the indentation; that many leading
//! characters are taken off that line and every line after it, and the result
//! is read as one YAML mapping.

use vstd::prelude::*;
use crate::ast::{PromptOptions, PromptOptionsView};
use crate::text::{lemma_lines_view, lines, split_lines, string_of};
use crate::yaml::{yaml_document, YamlDoc, YamlField, YamlFieldView, YamlShape};

verus! {

/// Why a header could not be read as options.
#[derive(Clone, Debug, PartialEq, Eq)]
pub enum OptionsError {
    /// The header is not YAML; the reader's message is kept.
    Malformed(String),
    /// The header is YAML, but neither empty nor a mapping.
    NotAMapping,
    /// The named option holds a value of the wrong kind.
    InvalidField(String),
}

pub enum OptionsErrorView {
    Malformed(Seq<char>),
    NotAMapping,
    InvalidField(Seq<char>),
}

impl View for OptionsError {
    type V = OptionsErrorView;

    open spec fn view(&self) -> OptionsErrorView {
        match self {
            OptionsError::Malformed(m) => OptionsErrorView::Malformed(m@),
            OptionsError::NotAMapping => OptionsErrorView::NotAMapping,
            OptionsError::InvalidField(f) => OptionsErrorView::InvalidField(f@),
        }
    }
}

/// The first position of `line` at or after `i` that holds no space, or the
/// length of the line.
pub open spec fn spaces_from(line: Seq<char>, i: int) -> int
    decreases line.len() - i,
{
    if 0 <= i < line.len() && line[i] == ' ' {
        spaces_from(line, i + 1)
    } else {
        i
    }
}

/// The width of the indentation of `line`: the position of its first
/// character that is not a space, or its length.
pub open spec fn indent_of(line: Seq<char>) -> int {
    spaces_from(line, 0)
}

/// A line is blank when it holds nothing but spaces.
pub open spec fn is_blank(line: Seq<char>) -> bool {
    indent_of(line) >= line.len()
}

/// The index of the first line at or after `i` that is not blank, or
/// the number of lines.
pub open spec fn first_text_line(ls: Seq<Seq<char>>, i: int) -> int
    decreases ls.len() - i,
{
    if 0 <= i < ls.len() && is_blank(ls[i]) {
        first_text_line(ls, i + 1)
    } else {
        i
    }
}

/// The indentation that the header's first line of text sets, 0 if it
/// has none.
pub open spec fn header_indent(ls: Seq<Seq<char>>) -> int {
    let f = first_text_line(ls, 0);
    if 0 <= f < ls.len() {
        indent_of(ls[f])
    } else {
        0
    }
}

/// `line` without its first `width` characters; a line that is not longer
/// than that is left as it is.
pub open spec fn strip_indent(line: Seq<char>, width: int) -> Seq<char> {
    if 0 <= width < line.len() {
        line.skip(width)
    } else {
        line
    }
}

/// The lines of a header with the indentation taken off: the lines before
/// the first line of text stay, that line and the later ones are stripped.
pub open spec fn dedent_lines(ls: Seq<Seq<char>>) -> Seq<Seq<char>> {
    Seq::new(
        ls.len(),
        |i: int|
            if i >= first_text_line(ls, 0) {
                strip_indent(ls[i], header_indent(ls))
            } else {
                ls[i]
            },
    )
}

/// The lines put together again, each followed by a line feed.
pub open spec fn join_lines(ls: Seq<Seq<char>>) -> Seq<char>
    decreases ls.len(),
{
    if ls.len() == 0 {
        Seq::empty()
    } else {
        join_lines(ls.drop_last()) + ls.last() + seq!['\n']
    }
}

/// The YAML text of a header.
pub open spec fn dedent(header: Seq<char>) -> Seq<char> {
    join_lines(dedent_lines(lines(header)))
}

/// An option that holds text: absent or null is `None`, text is itself, and
/// a number or a boolean is the text that spells it. Anything else is
/// refused.
pub open spec fn text_option(field: Option<YamlFieldView>) -> Option<Option<Seq<char>>> {
    match field {
        None => Some(None),
        Some(YamlFieldView::Null) => Some(None),
        Some(YamlFieldView::Text(s)) => Some(Some(s)),
        Some(YamlFieldView::Number(n)) => Some(Some(n)),
        Some(YamlFieldView::Bool(b)) => Some(
            Some(
                if b {
                    "true"@
                } else {
                    "false"@
                },
            ),
        ),
        Some(YamlFieldView::Other) => None,
    }
}

/// An option that holds a flag: absent or null is `None`, a boolean is
/// itself, anything else is refused.
pub open spec fn flag_option(field: Option<YamlFieldView>) -> Option<Option<bool>> {
    match field {
        None => Some(None),
        Some(YamlFieldView::Null) => Some(None),
        Some(YamlFieldView::Bool(b)) => Some(Some(b)),
        _ => None,
    }
}

/// The options that are read from the root kind of a document and the values
/// under its four keys. The first key of the four, in the order in which
/// they are listed here, whose value is of the wrong kind is reported.
pub open spec fn options_of_fields(
    shape: YamlShape,
    description: Option<YamlFieldView>,
    direction: Option<YamlFieldView>,
    eager: Option<YamlFieldView>,
    history: Option<YamlFieldView>,
) -> Result<PromptOptionsView, OptionsErrorView> {
    match shape {
        YamlShape::Null => Ok(PromptOptionsView::none()),
        YamlShape::Other => Err(OptionsErrorView::NotAMapping),
        YamlShape::Mapping => {
            if text_option(description) is None {
                Err(OptionsErrorView::InvalidField("description"@))
            } else if text_option(direction) is None {
                Err(OptionsErrorView::InvalidField("direction"@))
            } else if flag_option(eager) is None {
                Err(OptionsErrorView::InvalidField("eager"@))
            } else if flag_option(history) is None {
                Err(OptionsErrorView::InvalidField("history"@))
            } else {
                Ok(
                    PromptOptionsView {
                        description: text_option(description)->0,
                        direction: text_option(direction)->0,
                        eager: flag_option(eager)->0,
                        history: flag_option(history)->0,
                    },
                )
            }
        },
    }
}

/// The options that a document holds.
pub open spec fn options_of(doc: YamlDoc) -> Result<PromptOptionsView, OptionsErrorView> {
    options_of_fields(
        doc.shape,
        doc.field("description"@),
        doc.field("direction"@),
        doc.field("eager"@),
        doc.field("history"@),
    )
}

/// The options that YAML text holds.
pub open spec fn decoded(yaml: Seq<char>) -> Result<PromptOptionsView, OptionsErrorView> {
    match yaml_document(yaml) {
        Err(m) => Err(OptionsErrorView::Malformed(m)),
        Ok(doc) => options_of(doc),
    }
}

/// The options of a prompt whose header is `header`. An empty header has no
/// options; any other is dedented and read as YAML.
pub open spec fn header_options(header: Seq<char>) -> Result<PromptOptionsView, OptionsErrorView> {
    if dedent(header).len() == 0 {
        Ok(PromptOptionsView::none())
    } else {
        decoded(dedent(header))
    }
}

/// What a result of decoding stands for.
pub open spec fn options_result_view(r: Result<PromptOptions, OptionsError>) -> Result<
    PromptOptionsView,
    OptionsErrorView,
> {
    match r {
        Ok(o) => Ok(o@),
        Err(e) => Err(e@),
    }
}

fn text_field(field: Option<YamlField>) -> (r: Option<Option<String>>)
    ensures
        r.deep_view() == text_option(field.deep_view()),
{
    match field {
        None => Some(None),
        Some(YamlField::Null) => Some(None),
        Some(YamlField::Text(s)) => Some(Some(s)),
        Some(YamlField::Number(n)) => Some(Some(n)),
        Some(YamlField::Bool(b)) => Some(
            Some(
                if b {
                    "true".to_owned()
                } else {
                    "false".to_owned()
                },
            ),
        ),
        Some(YamlField::Other) => None,
    }
}

fn flag_field(field: Option<YamlField>) -> (r: Option<Option<bool>>)
    ensures
        r == flag_option(field.deep_view()),
{
    match field {
        None => Some(None),
        Some(YamlField::Null) => Some(None),
        Some(YamlField::Bool(b)) => Some(Some(b)),
        _ => None,
    }
}

/// Builds the options from the root kind of a document and the values found
/// under `description`, `direction`, `eager` and `history`.
pub fn options_from_fields(
    shape: YamlShape,
    description: Option<YamlField>,
    direction: Option<YamlField>,
    eager: Option<YamlField>,
    history: Option<YamlField>,
) -> (r: Result<PromptOptions, OptionsError>)
    ensures
        options_result_view(r) == options_of_fields(
            shape,
            description.deep_view(),
            direction.deep_view(),
            eager.deep_view(),
            history.deep_view(),
        ),
{
    match shape {
        YamlShape::Null => Ok(PromptOptions::default()),
        YamlShape::Other => Err(OptionsError::NotAMapping),
        YamlShape::Mapping => {
            let description = match text_field(description) {
                Some(v) => v,
                None => { return Err(OptionsError::InvalidField("description".to_owned())); },
            };
            let direction = match text_field(direction) {
                Some(v) => v,
                None => { return Err(OptionsError::InvalidField("direction".to_owned())); },
            };
            let eager = match flag_field(eager) {
                Some(v) => v,
                None => { return Err(OptionsError::InvalidField("eager".to_owned())); },
            };
            let history = match flag_field(history) {
                Some(v) => v,
                None => { return Err(OptionsError::InvalidField("history".to_owned())); },
            };
            Ok(PromptOptions { description, direction, eager, history })
        },
    }
}

fn indent_width(line: &Vec<char>) -> (w: usize)
    ensures
        w == indent_of(line@),
        w <= line.len(),
{
    let mut w: usize = 0;
    while w < line.len() && line[w] == ' '
        invariant
            w <= line.len(),
            indent_of(line@) == spaces_from(line@, w as int),
        decreases line.len() - w,
    {
        w += 1;
    }
    w
}

fn first_text(ls: &Vec<Vec<char>>) -> (f: usize)
    ensures
        f == first_text_line(ls.deep_view(), 0),
        f <= ls.len(),
{
    proof {
        lemma_lines_view(*ls);
    }
    let mut f: usize = 0;
    while f < ls.len()
        invariant
            f <= ls.len(),
            ls.deep_view().len() == ls.len(),
            forall|i: int| 0 <= i < ls.len() ==> #[trigger] ls.deep_view()[i] == ls@[i]@,
            first_text_line(ls.deep_view(), 0) == first_text_line(ls.deep_view(), f as int),
        decreases ls.len() - f,
    {
        let w = indent_width(&ls[f]);
        if w < ls[f].len() {
            return f;
        }
        f += 1;
    }
    f
}

/// Takes the indentation off a header and puts its lines together again.
pub fn dedent_text(header: &Vec<char>) -> (out: Vec<char>)
    ensures
        out@ == dedent(header@),
{
    let ls = split_lines(header);
    let f = first_text(&ls);
    let width = if f < ls.len() {
        indent_width(&ls[f])
    } else {
        0
    };
    proof {
        lemma_lines_view(ls);
    }
    let ghost stripped = dedent_lines(ls.deep_view());
    let mut out: Vec<char> = Vec::new();
    let mut i: usize = 0;
    assert(stripped.take(0) =~= Seq::<Seq<char>>::empty());
    while i < ls.len()
        invariant
            i <= ls.len(),
            f <= ls.len(),
            f == first_text_line(ls.deep_view(), 0),
            width == header_indent(ls.deep_view()),
            ls.deep_view().len() == ls.len(),
            forall|k: int| 0 <= k < ls.len() ==> #[trigger] ls.deep_view()[k] == ls@[k]@,
            stripped == dedent_lines(ls.deep_view()),
            out@ == join_lines(stripped.take(i as int)),
        decreases ls.len() - i,
    {
        let line = &ls[i];
        let from = if i >= f && width < line.len() {
            width
        } else {
            0
        };
        let ghost before = out@;
        let mut j: usize = from;
        while j < line.len()
            invariant
                from <= j <= line.len(),
                out@ == before + line@.subrange(from as int, j as int),
            decreases line.len() - j,
        {
            out.push(line[j]);
            j += 1;
            assert(line@.subrange(from as int, j as int) == line@.subrange(
                from as int,
                j - 1,
            ).push(line@[j - 1]));
        }
        out.push('\n');
        proof {
            assert(line@.subrange(from as int, line.len() as int) =~= stripped[i as int]);
            assert(stripped.take(i + 1).drop_last() =~= stripped.take(i as int));
            assert(stripped.take(i + 1).last() == stripped[i as int]);
            assert(out@ =~= before + stripped[i as int] + seq!['\n']);
        }
        i += 1;
    }
    assert(stripped.take(ls.len() as int) =~= stripped);
    out
}

/// Reads the header of a prompt block as the prompt's options.
pub fn read_header(header: &Vec<char>) -> (r: Result<PromptOptions, OptionsError>)
    ensures
        options_result_view(r) == header_options(header@),
{
    let yaml = dedent_text(header);
    if yaml.len() == 0 {
        Ok(PromptOptions::default())
    } else {
        let text = string_of(&yaml, 0, yaml.len());
        assert(text@ =~= yaml@);
        decode_options(text.as_str())
    }
}

/// Reads YAML text as the options of a prompt.
pub fn decode_options(yaml: &str) -> (r: Result<PromptOptions, OptionsError>)
    ensures
        options_result_view(r) == decoded(yaml@),
{
    match crate::yaml::read(yaml) {
        Err(error) => Err(OptionsError::Malformed(crate::yaml::message(&error))),
        Ok(value) => {
            let shape = crate::yaml::shape(&value);
            let description = crate::yaml::field(&value, "description");
            let direction = crate::yaml::field(&value, "direction");
            let eager = crate::yaml::field(&value, "eager");
            let history = crate::yaml::field(&value, "history");
            options_from_fields(shape, description, direction, eager, history)
        },
    }
}

} // verus!
