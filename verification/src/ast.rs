//! The declaration of the syntax-tree type, written out from a description of
//! its variants.
//!
//! A variant is described by a line such as
//! `Binary: Expr left, Token operator, Expr right`: the variant's name, a
//! colon, and its fields, separated by commas, each a type and a name. A field
//! of the tree's own type becomes a reference.
use vstd::prelude::*;
use vstd::slice::slice_subrange;
use crate::text::{chars_of, push_chars, spells};

verus! {

/// What can be wrong with the description of a variant.
#[derive(Debug, Clone, Copy, PartialEq, Eq, Structural)]
pub enum AstError {
    /// No colon, and so no fields, behind the variant's name.
    MissingFields,
    /// A field without a type: nothing but whitespace between two commas.
    MissingFieldType,
    /// A field without a name: a type and nothing behind it.
    MissingFieldName,
}

impl AstError {
    pub open spec fn message_text(self) -> Seq<char> {
        match self {
            AstError::MissingFields => "type should have fields"@,
            AstError::MissingFieldType => "field should have a type"@,
            AstError::MissingFieldName => "field should have a name"@,
        }
    }

    pub fn message(&self) -> (text: &'static str)
        ensures
            text@ == self.message_text(),
    {
        match self {
            AstError::MissingFields => "type should have fields",
            AstError::MissingFieldType => "field should have a type",
            AstError::MissingFieldName => "field should have a name",
        }
    }
}

/// The whitespace characters of Unicode.
pub open spec fn space(c: char) -> bool {
    ||| '\u{9}' <= c <= '\u{d}'
    ||| c == ' '
    ||| c == '\u{85}'
    ||| c == '\u{a0}'
    ||| c == '\u{1680}'
    ||| '\u{2000}' <= c <= '\u{200a}'
    ||| c == '\u{2028}'
    ||| c == '\u{2029}'
    ||| c == '\u{202f}'
    ||| c == '\u{205f}'
    ||| c == '\u{3000}'
}

#[verifier::when_used_as_spec(space)]
pub fn is_space(c: char) -> (b: bool)
    ensures
        b == space(c),
{
    ('\u{9}' <= c && c <= '\u{d}') || c == ' ' || c == '\u{85}' || c == '\u{a0}' || c
        == '\u{1680}' || ('\u{2000}' <= c && c <= '\u{200a}') || c == '\u{2028}' || c
        == '\u{2029}' || c == '\u{202f}' || c == '\u{205f}' || c == '\u{3000}'
}

/// The stretches of a description that are passed over in one go.
#[derive(Debug, Clone, Copy, PartialEq, Eq, Structural)]
pub enum Stretch {
    /// Everything up to the next occurrence of the given character.
    Until(char),
    /// Whitespace.
    Spaces,
    /// A word: everything up to the next whitespace.
    Word,
}

pub open spec fn in_stretch(stretch: Stretch, c: char) -> bool {
    match stretch {
        Stretch::Until(stop) => c != stop,
        Stretch::Spaces => space(c),
        Stretch::Word => !space(c),
    }
}

/// Where the stretch that starts at `from` ends: the first position from
/// `from` on whose character does not belong to it, or the end of the text.
pub open spec fn stretch_end(text: Seq<char>, from: int, stretch: Stretch) -> int
    decreases text.len() - from,
{
    if 0 <= from < text.len() && in_stretch(stretch, text[from]) {
        stretch_end(text, from + 1, stretch)
    } else {
        from
    }
}

/// Where the text ends once the whitespace at its end is taken off.
pub open spec fn trimmed_end(text: Seq<char>) -> int
    decreases text.len(),
{
    if text.len() > 0 && space(text.last()) {
        trimmed_end(text.drop_last())
    } else {
        text.len() as int
    }
}

/// The text without the whitespace at its start and at its end.
pub open spec fn trimmed(text: Seq<char>) -> Seq<char> {
    let start = stretch_end(text, 0, Stretch::Spaces);
    let end = trimmed_end(text);
    if start < end {
        text.subrange(start, end)
    } else {
        Seq::empty()
    }
}

/// The text that stands for one field: its first word is the field's type, its
/// second the field's name.
pub open spec fn field_text(base_name: Seq<char>, field: Seq<char>) -> Result<Seq<char>, AstError> {
    let type_start = stretch_end(field, 0, Stretch::Spaces);
    let type_end = stretch_end(field, type_start, Stretch::Word);
    let name_start = stretch_end(field, type_end, Stretch::Spaces);
    let name_end = stretch_end(field, name_start, Stretch::Word);
    let field_type = field.subrange(type_start, type_end);
    let field_name = field.subrange(name_start, name_end);
    if type_start >= field.len() {
        Err(AstError::MissingFieldType)
    } else if name_start >= field.len() {
        Err(AstError::MissingFieldName)
    } else if field_type == base_name {
        Ok("        "@ + field_name + ": &'a "@ + field_type + "<'a>,\n"@)
    } else {
        Ok("        "@ + field_name + ": "@ + field_type + ",\n"@)
    }
}

/// `text` followed by what `rest` holds, or the error that `rest` is.
pub open spec fn followed_by(text: Seq<char>, rest: Result<Seq<char>, AstError>) -> Result<
    Seq<char>,
    AstError,
> {
    match rest {
        Ok(rest) => Ok(text + rest),
        Err(error) => Err(error),
    }
}

/// The text that stands for the fields from position `from` of `fields` on:
/// one line for each stretch between commas. The first field that is wrong
/// decides the error.
pub open spec fn fields_text(base_name: Seq<char>, fields: Seq<char>, from: int) -> Result<
    Seq<char>,
    AstError,
>
    decreases fields.len() - from,
{
    let comma = stretch_end(fields, from, Stretch::Until(','));
    if 0 <= from <= comma <= fields.len() {
        match field_text(base_name, fields.subrange(from, comma)) {
            Ok(line) => if comma < fields.len() {
                followed_by(line, fields_text(base_name, fields, comma + 1))
            } else {
                Ok(line)
            },
            Err(error) => Err(error),
        }
    } else {
        Ok(Seq::empty())
    }
}

/// The text that stands for one variant with the given name and fields.
pub open spec fn variant_text(
    base_name: Seq<char>,
    class_name: Seq<char>,
    fields: Seq<char>,
) -> Result<Seq<char>, AstError> {
    match fields_text(base_name, fields, 0) {
        Ok(lines) => Ok("    "@ + class_name + " {\n"@ + lines + "    },\n"@),
        Err(error) => Err(error),
    }
}

/// The text that stands for the variant that `typ` describes: the name is
/// what stands before the first colon, the fields are what stands between the
/// first colon and the second, both without the whitespace around them.
pub open spec fn type_text(base_name: Seq<char>, typ: Seq<char>) -> Result<Seq<char>, AstError> {
    let colon = stretch_end(typ, 0, Stretch::Until(':'));
    let end = stretch_end(typ, colon + 1, Stretch::Until(':'));
    if colon >= typ.len() {
        Err(AstError::MissingFields)
    } else {
        variant_text(
            base_name,
            trimmed(typ.subrange(0, colon)),
            trimmed(typ.subrange(colon + 1, end)),
        )
    }
}

/// The text that stands for the variants from position `from` of `types` on.
/// The first description that is wrong decides the error.
pub open spec fn types_text(base_name: Seq<char>, types: Seq<&str>, from: int) -> Result<
    Seq<char>,
    AstError,
>
    decreases types.len() - from,
{
    if 0 <= from < types.len() {
        match type_text(base_name, types[from]@) {
            Ok(text) => followed_by(text, types_text(base_name, types, from + 1)),
            Err(error) => Err(error),
        }
    } else {
        Ok(Seq::empty())
    }
}

/// What stands before the variants.
pub open spec fn preamble(base_name: Seq<char>) -> Seq<char> {
    "/// AST Definition types (autogenerated by `generate-ast`)\n"@ + "use crate::lexer::Token;\n"@
        + "\n"@ + "#[derive(Debug, Copy, Clone)]\n"@ + "pub struct Object {}\n"@ + "\n"@
        + "#[derive(Debug, Clone)]\n"@ + "pub enum "@ + base_name + "<'a> {\n"@
}

/// The whole declaration: the preamble, the variants, and the closing brace.
pub open spec fn ast_text(base_name: Seq<char>, types: Seq<&str>) -> Result<Seq<char>, AstError> {
    match types_text(base_name, types, 0) {
        Ok(variants) => Ok(preamble(base_name) + variants + "}\n"@),
        Err(error) => Err(error),
    }
}

/// Text followed by text followed by a rest is both texts, joined, followed
/// by the rest.
proof fn lemma_followed_by_twice(
    first: Seq<char>,
    second: Seq<char>,
    rest: Result<Seq<char>, AstError>,
)
    ensures
        followed_by(first, followed_by(second, rest)) == followed_by(first + second, rest),
{
    if let Ok(rest) = rest {
        assert(first + (second + rest) == (first + second) + rest);
    }
}

/// Whether a character belongs to a stretch.
pub fn belongs(stretch: Stretch, c: char) -> (b: bool)
    ensures
        b == in_stretch(stretch, c),
{
    match stretch {
        Stretch::Until(stop) => c != stop,
        Stretch::Spaces => is_space(c),
        Stretch::Word => !is_space(c),
    }
}

/// Passes over the stretch that starts at `from`.
pub fn pass(text: &[char], from: usize, stretch: Stretch) -> (end: usize)
    requires
        from <= text.len(),
    ensures
        end == stretch_end(text@, from as int, stretch),
        from <= end <= text.len(),
{
    let mut end = from;
    while end < text.len() && belongs(stretch, text[end])
        invariant
            from <= end <= text.len(),
            stretch_end(text@, end as int, stretch) == stretch_end(text@, from as int, stretch),
        decreases text.len() - end,
    {
        end += 1;
    }
    end
}

/// Takes the whitespace off both ends of the text.
pub fn trim<'a>(text: &'a [char]) -> (inner: &'a [char])
    ensures
        inner@ == trimmed(text@),
{
    let start = pass(text, 0, Stretch::Spaces);
    let mut end = text.len();
    assert(text@.take(end as int) == text@);
    while end > 0 && is_space(text[end - 1])
        invariant
            end <= text.len(),
            trimmed_end(text@.take(end as int)) == trimmed_end(text@),
        decreases end,
    {
        assert(text@.take(end as int).drop_last() == text@.take(end - 1));
        end -= 1;
    }
    if start < end {
        slice_subrange(text, start, end)
    } else {
        slice_subrange(text, 0, 0)
    }
}

/// Writes the line of one field.
fn field_line(base_name: &str, field: &[char]) -> (line: Result<String, AstError>)
    ensures
        match field_text(base_name@, field@) {
            Ok(text) => line matches Ok(line) && line@ == text,
            Err(error) => line == Err::<String, AstError>(error),
        },
{
    let type_start = pass(field, 0, Stretch::Spaces);
    let type_end = pass(field, type_start, Stretch::Word);
    let name_start = pass(field, type_end, Stretch::Spaces);
    let name_end = pass(field, name_start, Stretch::Word);
    if type_start >= field.len() {
        return Err(AstError::MissingFieldType);
    }
    if name_start >= field.len() {
        return Err(AstError::MissingFieldName);
    }
    let field_type = slice_subrange(field, type_start, type_end);
    let field_name = slice_subrange(field, name_start, name_end);
    let mut line = String::from_str("        ");
    push_chars(&mut line, field_name);
    if spells(field_type, base_name) {
        // This is a recursive definition, so we need to add a 'a reference
        // indirection
        line.append(": &'a ");
        push_chars(&mut line, field_type);
        line.append("<'a>,\n");
    } else {
        line.append(": ");
        push_chars(&mut line, field_type);
        line.append(",\n");
    }
    Ok(line)
}

/// Appends the variant `class_name`, with the fields that `fields` describes,
/// to `text`. Where a field is wrong, `text` stays as it is.
pub fn define_type(
    text: &mut String,
    base_name: &str,
    class_name: &[char],
    fields: &[char],
) -> (done: Result<(), AstError>)
    ensures
        match variant_text(base_name@, class_name@, fields@) {
            Ok(variant) => done is Ok && final(text)@ == old(text)@ + variant,
            Err(error) => done == Err::<(), AstError>(error) && final(text)@ == old(text)@,
        },
{
    let mut variant = String::from_str("    ");
    push_chars(&mut variant, class_name);
    variant.append(" {\n");
    let ghost head = variant@;

    let ghost mut lines = Seq::<char>::empty();
    let mut from: usize = 0;
    assert(head + lines == head);
    loop
        invariant_except_break
            followed_by(lines, fields_text(base_name@, fields@, from as int)) == fields_text(
                base_name@,
                fields@,
                0,
            ),
        invariant
            from <= fields.len(),
            variant@ == head + lines,
            text@ == old(text)@,
        ensures
            fields_text(base_name@, fields@, 0) == Ok::<Seq<char>, AstError>(lines),
        decreases fields.len() - from,
    {
        let comma = pass(fields, from, Stretch::Until(','));
        match field_line(base_name, slice_subrange(fields, from, comma)) {
            Ok(line) => {
                proof {
                    lemma_followed_by_twice(
                        lines,
                        line@,
                        fields_text(base_name@, fields@, comma + 1),
                    );
                    assert(head + lines + line@ == head + (lines + line@));
                    lines = lines + line@;
                }
                variant.append(line.as_str());
            },
            Err(error) => {
                return Err(error);
            },
        }
        if comma >= fields.len() {
            break;
        }
        from = comma + 1;
    }
    variant.append("    },\n");
    text.append(variant.as_str());
    Ok(())
}

/// Writes the declaration of the tree type `base_name` with the variants that
/// `types` describes.
pub fn define_ast(base_name: &str, types: &[&str]) -> (text: Result<String, AstError>)
    ensures
        match ast_text(base_name@, types@) {
            Ok(declaration) => text matches Ok(text) && text@ == declaration,
            Err(error) => text == Err::<String, AstError>(error),
        },
{
    // Write the preamble
    let mut text = String::from_str("/// AST Definition types (autogenerated by `generate-ast`)\n");
    text.append("use crate::lexer::Token;\n");
    text.append("\n");
    text.append("#[derive(Debug, Copy, Clone)]\n");
    text.append("pub struct Object {}\n");
    text.append("\n");
    text.append("#[derive(Debug, Clone)]\n");
    text.append("pub enum ");
    text.append(base_name);
    text.append("<'a> {\n");
    let ghost head = text@;

    let ghost mut variants = Seq::<char>::empty();
    let mut i: usize = 0;
    assert(head + variants == head);
    while i < types.len()
        invariant
            i <= types.len(),
            text@ == head + variants,
            followed_by(variants, types_text(base_name@, types@, i as int)) == types_text(
                base_name@,
                types@,
                0,
            ),
        decreases types.len() - i,
    {
        let typ = chars_of(types[i]);
        let colon = pass(typ.as_slice(), 0, Stretch::Until(':'));
        if colon >= typ.len() {
            return Err(AstError::MissingFields);
        }
        let end = pass(typ.as_slice(), colon + 1, Stretch::Until(':'));
        let class_name = trim(slice_subrange(typ.as_slice(), 0, colon));
        let fields = trim(slice_subrange(typ.as_slice(), colon + 1, end));
        match define_type(&mut text, base_name, class_name, fields) {
            Ok(_) => {},
            Err(error) => {
                return Err(error);
            },
        }
        let ghost variant = type_text(base_name@, types@[i as int]@)->Ok_0;
        proof {
            lemma_followed_by_twice(variants, variant, types_text(base_name@, types@, i + 1));
            assert(head + variants + variant == head + (variants + variant));
            variants = variants + variant;
        }
        i += 1;
    }
    text.append("}\n");
    Ok(text)
}

} // verus!
