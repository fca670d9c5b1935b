//! The relations language: one statement per line,
//!
//! ```text
//! <endpoint> -> <endpoint> [<relation_type>] {<key>: <value>, ...}
//! ```
//!
//! Blank lines and lines whose first character after whitespace is `#` are
//! skipped. A value is a string in double quotes, `true`, `false`, or a number
//! in JSON syntax. Inside a string a backslash introduces one of the escapes
//! `\"`, `\\`, `\/`, `\b`, `\f`, `\n`, `\r` and `\t`. Of two attributes with one
//! key the later counts.
//!
//! The grammar is stated as ghost functions on sequences of characters;
//! `parse_relations` is proved to compute what they say.

use crate::attributes::Attributes;
use crate::error::{RelationsSyntaxError, SyntaxErrorKind, SyntaxErrorModel};
use crate::json::{
    json_bool, json_from_text, json_is_number, json_model, json_parse, json_string, JsonModel,
};
use crate::relation::{relation_models, Relation, RelationModel};
use crate::text::{
    chars_of, find_char, find_char_in, ident_end, ident_end_in, is_ident_start,
    is_ident_start_char, is_space, is_space_char, lemma_find_char, lemma_ident_end,
    lemma_skip_spaces, same_text, skip_spaces, skip_spaces_in, string_of,
};
use vstd::prelude::*;
use vstd::slice::slice_subrange;

verus! {

/// What a line of the language amounts to.
pub enum LineOutcome {
    /// A blank line or a comment.
    Skipped,
    /// A statement, with the relation it declares.
    Statement(RelationModel),
    /// Neither, with what is wrong.
    Malformed(SyntaxErrorKind),
}

/// The arrow `->` stands at position `i`.
pub open spec fn at_arrow(s: Seq<char>, i: int) -> bool {
    0 <= i && i + 1 < s.len() && s[i] == '-' && s[i + 1] == '>'
}

/// Where the source endpoint that starts at `i` ends: at whitespace, at the
/// arrow, or at the end of the line.
pub open spec fn source_end(s: Seq<char>, i: int) -> int
    decreases s.len() - i,
{
    if 0 <= i < s.len() && !is_space(s[i]) && !at_arrow(s, i) {
        source_end(s, i + 1)
    } else {
        i
    }
}

/// Where the target endpoint that starts at `i` ends: at whitespace, at `[`,
/// or at the end of the line.
pub open spec fn target_end(s: Seq<char>, i: int) -> int
    decreases s.len() - i,
{
    if 0 <= i < s.len() && !is_space(s[i]) && s[i] != '[' {
        target_end(s, i + 1)
    } else {
        i
    }
}

/// Where the bare word that starts at `i` ends: at whitespace, at `,`, at
/// `}`, or at the end of the line.
pub open spec fn word_end(s: Seq<char>, i: int) -> int
    decreases s.len() - i,
{
    if 0 <= i < s.len() && !is_space(s[i]) && s[i] != ',' && s[i] != '}' {
        word_end(s, i + 1)
    } else {
        i
    }
}

/// The character that a backslash and `c` stand for inside a string.
pub open spec fn unescaped(c: char) -> Option<char> {
    if c == '"' || c == '\\' || c == '/' {
        Some(c)
    } else if c == 'b' {
        Some('\u{8}')
    } else if c == 'f' {
        Some('\u{c}')
    } else if c == 'n' {
        Some('\n')
    } else if c == 'r' {
        Some('\r')
    } else if c == 't' {
        Some('\t')
    } else {
        None
    }
}

/// The rest of a string from position `i` on, after the characters `sofar`
/// have been read: the whole content and the position after the closing
/// quote.
pub open spec fn string_rest(s: Seq<char>, i: int, sofar: Seq<char>) -> Result<
    (Seq<char>, int),
    SyntaxErrorKind,
>
    decreases s.len() - i,
{
    if i < 0 || i >= s.len() {
        Err(SyntaxErrorKind::UnterminatedString)
    } else if s[i] == '"' {
        Ok((sofar, i + 1))
    } else if s[i] == '\\' {
        if i + 1 >= s.len() {
            Err(SyntaxErrorKind::UnterminatedString)
        } else {
            match unescaped(s[i + 1]) {
                Some(c) => string_rest(s, i + 2, sofar.push(c)),
                None => Err(SyntaxErrorKind::InvalidAttributeValue),
            }
        }
    } else {
        string_rest(s, i + 1, sofar.push(s[i]))
    }
}

/// The value that a bare word denotes: a boolean, or the number that the
/// JSON reader makes of the word.
pub open spec fn bare_value(word: Seq<char>) -> Option<JsonModel> {
    if word.len() == 0 {
        None
    } else if word == "true"@ {
        Some(JsonModel::Bool(true))
    } else if word == "false"@ {
        Some(JsonModel::Bool(false))
    } else {
        match json_parse(word) {
            Some(JsonModel::Number(n)) => Some(JsonModel::Number(n)),
            _ => None,
        }
    }
}

/// The attribute value that starts at `i`, and the position after it.
pub open spec fn value_at(s: Seq<char>, i: int) -> Result<(JsonModel, int), SyntaxErrorKind> {
    if 0 <= i < s.len() && s[i] == '"' {
        match string_rest(s, i + 1, Seq::empty()) {
            Ok((content, end)) => Ok((JsonModel::Str(content), end)),
            Err(kind) => Err(kind),
        }
    } else {
        match bare_value(s.subrange(i, word_end(s, i))) {
            Some(value) => Ok((value, word_end(s, i))),
            None => Err(SyntaxErrorKind::InvalidAttributeValue),
        }
    }
}

/// The attributes from the key at `i` on, added to `sofar`, and the position
/// after the closing `}`.
pub open spec fn entries_from(s: Seq<char>, i: int, sofar: Map<Seq<char>, JsonModel>) -> Result<
    (Map<Seq<char>, JsonModel>, int),
    SyntaxErrorKind,
>
    decreases s.len() - i,
{
    let key_end = ident_end(s, i);
    let colon = skip_spaces(s, key_end);
    if i < 0 || i >= s.len() {
        Err(SyntaxErrorKind::MissingAttributesClose)
    } else if !is_ident_start(s[i]) {
        Err(SyntaxErrorKind::InvalidAttributeKey)
    } else if !(colon < s.len() && s[colon] == ':') {
        Err(SyntaxErrorKind::MissingColon)
    } else {
        match value_at(s, skip_spaces(s, colon + 1)) {
            Err(kind) => Err(kind),
            Ok((value, after)) => {
                let next = skip_spaces(s, after);
                let grown = sofar.insert(s.subrange(i, key_end), value);
                if next < s.len() && s[next] == '}' {
                    Ok((grown, next + 1))
                } else if next < s.len() && s[next] == ',' {
                    proof {
                        lemma_entry_advances(s, i);
                        lemma_skip_spaces(s, next + 1);
                    }
                    entries_from(s, skip_spaces(s, next + 1), grown)
                } else {
                    Err(SyntaxErrorKind::MissingAttributesClose)
                }
            },
        }
    }
}

/// The attribute block whose `{` stands just before `i`, and the position
/// after its `}`.
pub open spec fn attributes_at(s: Seq<char>, i: int) -> Result<
    (Map<Seq<char>, JsonModel>, int),
    SyntaxErrorKind,
> {
    let first = skip_spaces(s, i);
    if first < s.len() && s[first] == '}' {
        Ok((Map::empty(), first + 1))
    } else {
        entries_from(s, first, Map::empty())
    }
}

/// The relation that a line declares, or what keeps the line from being a
/// statement.
pub open spec fn statement(s: Seq<char>) -> Result<RelationModel, SyntaxErrorKind> {
    let from_start = skip_spaces(s, 0);
    let from_end = source_end(s, from_start);
    let arrow = skip_spaces(s, from_end);
    let to_start = skip_spaces(s, arrow + 2);
    let to_end = target_end(s, to_start);
    let open = skip_spaces(s, to_end);
    let type_start = skip_spaces(s, open + 1);
    let type_end = ident_end(s, type_start);
    let close = skip_spaces(s, type_end);
    let brace = skip_spaces(s, close + 1);
    if from_end == from_start {
        Err(SyntaxErrorKind::MissingSource)
    } else if !at_arrow(s, arrow) {
        Err(SyntaxErrorKind::MissingArrow)
    } else if to_end == to_start {
        Err(SyntaxErrorKind::MissingTarget)
    } else if !(open < s.len() && s[open] == '[') {
        Err(SyntaxErrorKind::MissingTypeOpen)
    } else if !(type_start < s.len() && is_ident_start(s[type_start])) {
        Err(SyntaxErrorKind::InvalidRelationType)
    } else if !(close < s.len() && s[close] == ']') {
        Err(SyntaxErrorKind::MissingTypeClose)
    } else if !(brace < s.len() && s[brace] == '{') {
        Err(SyntaxErrorKind::MissingAttributesOpen)
    } else {
        match attributes_at(s, brace + 1) {
            Err(kind) => Err(kind),
            Ok((attributes, end)) => if skip_spaces(s, end) == s.len() {
                Ok(
                    RelationModel {
                        from: s.subrange(from_start, from_end),
                        to: s.subrange(to_start, to_end),
                        relation_type: s.subrange(type_start, type_end),
                        attributes,
                    },
                )
            } else {
                Err(SyntaxErrorKind::TrailingCharacters)
            },
        }
    }
}

/// What a line amounts to.
pub open spec fn line_outcome(line: Seq<char>) -> LineOutcome {
    let first = skip_spaces(line, 0);
    if first >= line.len() || line[first] == '#' {
        LineOutcome::Skipped
    } else {
        match statement(line) {
            Ok(relation) => LineOutcome::Statement(relation),
            Err(kind) => LineOutcome::Malformed(kind),
        }
    }
}

/// The lines of `text` from position `start` on: the pieces between line
/// feeds.
pub open spec fn lines_from(text: Seq<char>, start: int) -> Seq<Seq<char>>
    decreases text.len() - start,
{
    let end = find_char(text, start, '\n');
    if start < 0 || start > text.len() {
        Seq::empty()
    } else if end >= text.len() {
        seq![text.subrange(start, text.len() as int)]
    } else {
        proof {
            lemma_find_char(text, start, '\n');
        }
        seq![text.subrange(start, end)] + lines_from(text, end + 1)
    }
}

/// The lines of `text`. A text without a line feed is one line.
pub open spec fn lines_of(text: Seq<char>) -> Seq<Seq<char>> {
    lines_from(text, 0)
}

/// The relations that the statements among `lines` declare, in order.
pub open spec fn relations_in(lines: Seq<Seq<char>>) -> Seq<RelationModel>
    decreases lines.len(),
{
    if lines.len() == 0 {
        Seq::empty()
    } else {
        match line_outcome(lines.last()) {
            LineOutcome::Statement(relation) => relations_in(lines.drop_last()).push(relation),
            _ => relations_in(lines.drop_last()),
        }
    }
}

/// The errors of the malformed lines among `lines`, in order, each with the
/// number of its line, counted from 1.
pub open spec fn errors_in(lines: Seq<Seq<char>>) -> Seq<SyntaxErrorModel>
    decreases lines.len(),
{
    if lines.len() == 0 {
        Seq::empty()
    } else {
        match line_outcome(lines.last()) {
            LineOutcome::Malformed(kind) => errors_in(lines.drop_last()).push(
                SyntaxErrorModel::of(lines.len(), kind),
            ),
            _ => errors_in(lines.drop_last()),
        }
    }
}

/// The errors of a sequence, each as contracts speak of it.
pub open spec fn error_models(errors: Seq<RelationsSyntaxError>) -> Seq<SyntaxErrorModel> {
    Seq::new(errors.len(), |i: int| errors[i]@)
}

/// A scan never moves backwards.
pub proof fn lemma_scans_advance(s: Seq<char>, i: int)
    ensures
        skip_spaces(s, i) >= i,
        ident_end(s, i) >= i,
        source_end(s, i) >= i,
        target_end(s, i) >= i,
        word_end(s, i) >= i,
        0 <= i <= s.len() ==> source_end(s, i) <= s.len() && target_end(s, i) <= s.len()
            && word_end(s, i) <= s.len(),
    decreases s.len() - i,
{
    if 0 <= i < s.len() {
        lemma_scans_advance(s, i + 1);
    }
}

/// A string ends after the position at which its rest was taken up, inside
/// the line.
pub proof fn lemma_string_rest_advances(s: Seq<char>, i: int, sofar: Seq<char>)
    ensures
        string_rest(s, i, sofar) matches Ok((_, end)) ==> i < end <= s.len(),
    decreases s.len() - i,
{
    if 0 <= i < s.len() {
        if s[i] == '"' {
        } else if s[i] == '\\' {
            if i + 1 < s.len() {
                match unescaped(s[i + 1]) {
                    Some(c) => lemma_string_rest_advances(s, i + 2, sofar.push(c)),
                    None => {},
                }
            }
        } else {
            lemma_string_rest_advances(s, i + 1, sofar.push(s[i]));
        }
    }
}

/// A value ends after the position at which it starts, inside the line.
pub proof fn lemma_value_advances(s: Seq<char>, i: int)
    requires
        0 <= i <= s.len(),
    ensures
        value_at(s, i) matches Ok((_, end)) ==> i < end <= s.len(),
{
    lemma_string_rest_advances(s, i + 1, Seq::empty());
    lemma_scans_advance(s, i);
    if !(i < s.len() && s[i] == '"') {
        if word_end(s, i) == i {
            assert(s.subrange(i, i).len() == 0);
        }
    }
}

/// What follows an attribute lies after the position at which its key starts.
pub proof fn lemma_entry_advances(s: Seq<char>, i: int)
    requires
        0 <= i < s.len(),
        skip_spaces(s, ident_end(s, i)) < s.len(),
    ensures
        ({
            let colon = skip_spaces(s, ident_end(s, i));
            let start = skip_spaces(s, colon + 1);
            &&& i <= colon < start <= s.len()
            &&& value_at(s, start) matches Ok((_, after)) ==> start < after <= s.len() && after
                <= skip_spaces(s, after) <= s.len() && i < skip_spaces(s, skip_spaces(s, after) + 1)
        }),
{
    let key_end = ident_end(s, i);
    let colon = skip_spaces(s, key_end);
    let start = skip_spaces(s, colon + 1);
    lemma_ident_end(s, i);
    lemma_skip_spaces(s, key_end);
    lemma_skip_spaces(s, colon + 1);
    lemma_value_advances(s, start);
    if let Ok((_, after)) = value_at(s, start) {
        lemma_skip_spaces(s, after);
        lemma_scans_advance(s, skip_spaces(s, after) + 1);
    }
}

/// Advances to the end of a source endpoint.
fn source_end_in(s: &[char], i: usize) -> (j: usize)
    requires
        i <= s@.len(),
    ensures
        j == source_end(s@, i as int),
        i <= j <= s@.len(),
{
    let mut j: usize = i;
    while j < s.len() && !is_space_char(s[j]) && !(s[j] == '-' && j + 1 < s.len() && s[j + 1]
        == '>')
        invariant
            i <= j <= s@.len(),
            source_end(s@, i as int) == source_end(s@, j as int),
        decreases s@.len() - j,
    {
        j = j + 1;
    }
    j
}

/// Advances to the end of a target endpoint.
fn target_end_in(s: &[char], i: usize) -> (j: usize)
    requires
        i <= s@.len(),
    ensures
        j == target_end(s@, i as int),
        i <= j <= s@.len(),
{
    let mut j: usize = i;
    while j < s.len() && !is_space_char(s[j]) && s[j] != '['
        invariant
            i <= j <= s@.len(),
            target_end(s@, i as int) == target_end(s@, j as int),
        decreases s@.len() - j,
    {
        j = j + 1;
    }
    j
}

/// Advances to the end of a bare word.
fn word_end_in(s: &[char], i: usize) -> (j: usize)
    requires
        i <= s@.len(),
    ensures
        j == word_end(s@, i as int),
        i <= j <= s@.len(),
{
    let mut j: usize = i;
    while j < s.len() && !is_space_char(s[j]) && s[j] != ',' && s[j] != '}'
        invariant
            i <= j <= s@.len(),
            word_end(s@, i as int) == word_end(s@, j as int),
        decreases s@.len() - j,
    {
        j = j + 1;
    }
    j
}

/// The character that a backslash and `c` stand for inside a string.
fn unescape(c: char) -> (r: Option<char>)
    ensures
        r == unescaped(c),
{
    if c == '"' || c == '\\' || c == '/' {
        Some(c)
    } else if c == 'b' {
        Some('\u{8}')
    } else if c == 'f' {
        Some('\u{c}')
    } else if c == 'n' {
        Some('\n')
    } else if c == 'r' {
        Some('\r')
    } else if c == 't' {
        Some('\t')
    } else {
        None
    }
}

/// Reads a string whose opening quote stands just before `i`.
fn parse_string(s: &[char], i: usize) -> (r: Result<(String, usize), SyntaxErrorKind>)
    requires
        i <= s@.len(),
    ensures
        match string_rest(s@, i as int, Seq::empty()) {
            Ok((content, end)) => r matches Ok((text, e)) && text@ == content && e == end,
            Err(kind) => r == Err::<(String, usize), SyntaxErrorKind>(kind),
        },
{
    let mut content: Vec<char> = Vec::new();
    let mut j: usize = i;
    loop
        invariant
            i <= j <= s@.len(),
            string_rest(s@, i as int, Seq::empty()) == string_rest(s@, j as int, content@),
        decreases s@.len() - j,
    {
        if j >= s.len() {
            return Err(SyntaxErrorKind::UnterminatedString);
        }
        let c = s[j];
        if c == '"' {
            let text = string_of(content.as_slice());
            return Ok((text, j + 1));
        }
        if c == '\\' {
            if j + 1 >= s.len() {
                return Err(SyntaxErrorKind::UnterminatedString);
            }
            match unescape(s[j + 1]) {
                Some(plain) => {
                    content.push(plain);
                    j = j + 2;
                },
                None => {
                    return Err(SyntaxErrorKind::InvalidAttributeValue);
                },
            }
        } else {
            content.push(c);
            j = j + 1;
        }
    }
}

/// Reads a bare word as a boolean or a number.
fn parse_bare(word: &[char]) -> (r: Option<serde_json::Value>)
    ensures
        match bare_value(word@) {
            Some(content) => r matches Some(v) && json_model(v) == content,
            None => r is None,
        },
{
    if word.len() == 0 {
        return None;
    }
    let text = string_of(word);
    if same_text(text.as_str(), "true") {
        return Some(json_bool(true));
    }
    if same_text(text.as_str(), "false") {
        return Some(json_bool(false));
    }
    match json_from_text(text.as_str()) {
        Ok(v) => if json_is_number(&v) {
            Some(v)
        } else {
            None
        },
        Err(_) => None,
    }
}

/// Reads the attribute value that starts at `i`.
fn parse_value(s: &[char], i: usize) -> (r: Result<(serde_json::Value, usize), SyntaxErrorKind>)
    requires
        i <= s@.len(),
    ensures
        match value_at(s@, i as int) {
            Ok((content, end)) => r matches Ok((v, e)) && json_model(v) == content && e == end,
            Err(kind) => r == Err::<(serde_json::Value, usize), SyntaxErrorKind>(kind),
        },
{
    if i < s.len() && s[i] == '"' {
        match parse_string(s, i + 1) {
            Ok((text, end)) => Ok((json_string(text), end)),
            Err(kind) => Err(kind),
        }
    } else {
        let end = word_end_in(s, i);
        match parse_bare(slice_subrange(s, i, end)) {
            Some(v) => Ok((v, end)),
            None => Err(SyntaxErrorKind::InvalidAttributeValue),
        }
    }
}

/// Reads the attributes from the key at `i` on.
fn parse_entries(s: &[char], i: usize) -> (r: Result<(Attributes, usize), SyntaxErrorKind>)
    requires
        i <= s@.len(),
    ensures
        match entries_from(s@, i as int, Map::empty()) {
            Ok((content, end)) => r matches Ok((attributes, e)) && attributes@ == content && e
                == end && e <= s@.len(),
            Err(kind) => r == Err::<(Attributes, usize), SyntaxErrorKind>(kind),
        },
{
    let mut attributes = Attributes::new();
    let mut j: usize = i;
    loop
        invariant
            i <= j <= s@.len(),
            entries_from(s@, i as int, Map::empty()) == entries_from(s@, j as int, attributes@),
        decreases s@.len() - j,
    {
        if j >= s.len() {
            return Err(SyntaxErrorKind::MissingAttributesClose);
        }
        if !is_ident_start_char(s[j]) {
            return Err(SyntaxErrorKind::InvalidAttributeKey);
        }
        let key_end = ident_end_in(s, j);
        let colon = skip_spaces_in(s, key_end);
        if !(colon < s.len() && s[colon] == ':') {
            return Err(SyntaxErrorKind::MissingColon);
        }
        proof {
            lemma_entry_advances(s@, j as int);
        }
        let start = skip_spaces_in(s, colon + 1);
        match parse_value(s, start) {
            Err(kind) => {
                return Err(kind);
            },
            Ok((value, after)) => {
                let next = skip_spaces_in(s, after);
                let key = string_of(slice_subrange(s, j, key_end));
                attributes.insert(key, value);
                if next < s.len() && s[next] == '}' {
                    return Ok((attributes, next + 1));
                }
                if !(next < s.len() && s[next] == ',') {
                    return Err(SyntaxErrorKind::MissingAttributesClose);
                }
                j = skip_spaces_in(s, next + 1);
            },
        }
    }
}

/// Reads the attribute block whose `{` stands just before `i`.
fn parse_attributes(s: &[char], i: usize) -> (r: Result<(Attributes, usize), SyntaxErrorKind>)
    requires
        i <= s@.len(),
    ensures
        match attributes_at(s@, i as int) {
            Ok((content, end)) => r matches Ok((attributes, e)) && attributes@ == content && e
                == end && e <= s@.len(),
            Err(kind) => r == Err::<(Attributes, usize), SyntaxErrorKind>(kind),
        },
{
    let first = skip_spaces_in(s, i);
    if first < s.len() && s[first] == '}' {
        Ok((Attributes::new(), first + 1))
    } else {
        parse_entries(s, first)
    }
}

/// Reads a line that is neither blank nor a comment as a statement.
pub fn parse_statement(s: &[char]) -> (r: Result<Relation, SyntaxErrorKind>)
    ensures
        match statement(s@) {
            Ok(declared) => r matches Ok(relation) && relation@ == declared,
            Err(kind) => r matches Err(k) && k == kind,
        },
{
    let from_start = skip_spaces_in(s, 0);
    let from_end = source_end_in(s, from_start);
    if from_end == from_start {
        return Err(SyntaxErrorKind::MissingSource);
    }
    let arrow = skip_spaces_in(s, from_end);
    if !(arrow < s.len() && s[arrow] == '-' && arrow + 1 < s.len() && s[arrow + 1] == '>') {
        return Err(SyntaxErrorKind::MissingArrow);
    }
    let to_start = skip_spaces_in(s, arrow + 2);
    let to_end = target_end_in(s, to_start);
    if to_end == to_start {
        return Err(SyntaxErrorKind::MissingTarget);
    }
    let open = skip_spaces_in(s, to_end);
    if !(open < s.len() && s[open] == '[') {
        return Err(SyntaxErrorKind::MissingTypeOpen);
    }
    let type_start = skip_spaces_in(s, open + 1);
    if !(type_start < s.len() && is_ident_start_char(s[type_start])) {
        return Err(SyntaxErrorKind::InvalidRelationType);
    }
    let type_end = ident_end_in(s, type_start);
    let close = skip_spaces_in(s, type_end);
    if !(close < s.len() && s[close] == ']') {
        return Err(SyntaxErrorKind::MissingTypeClose);
    }
    let brace = skip_spaces_in(s, close + 1);
    if !(brace < s.len() && s[brace] == '{') {
        return Err(SyntaxErrorKind::MissingAttributesOpen);
    }
    match parse_attributes(s, brace + 1) {
        Err(kind) => Err(kind),
        Ok((attributes, end)) => {
            if skip_spaces_in(s, end) != s.len() {
                return Err(SyntaxErrorKind::TrailingCharacters);
            }
            let from = string_of(slice_subrange(s, from_start, from_end));
            let to = string_of(slice_subrange(s, to_start, to_end));
            let relation_type = string_of(slice_subrange(s, type_start, type_end));
            Ok(Relation { from, to, relation_type, attributes })
        },
    }
}

/// What became of a line.
pub enum ParsedLine {
    /// A blank line or a comment.
    Skipped,
    /// A statement, with the relation it declares.
    Statement(Relation),
    /// Neither, with what is wrong.
    Malformed(SyntaxErrorKind),
}

impl View for ParsedLine {
    type V = LineOutcome;

    open spec fn view(&self) -> LineOutcome {
        match self {
            ParsedLine::Skipped => LineOutcome::Skipped,
            ParsedLine::Statement(relation) => LineOutcome::Statement(relation@),
            ParsedLine::Malformed(kind) => LineOutcome::Malformed(*kind),
        }
    }
}

/// Reads one line.
pub fn parse_line(line: &[char]) -> (r: ParsedLine)
    ensures
        r@ == line_outcome(line@),
{
    let first = skip_spaces_in(line, 0);
    if first >= line.len() || line[first] == '#' {
        return ParsedLine::Skipped;
    }
    match parse_statement(line) {
        Ok(relation) => ParsedLine::Statement(relation),
        Err(kind) => ParsedLine::Malformed(kind),
    }
}

/// Reads a text of the relations language line by line. Every statement
/// yields its relation and every malformed line its error, with the number of
/// the line; one malformed line does not keep the others from being read.
pub fn parse_relations(text: &str) -> (r: (Vec<Relation>, Vec<RelationsSyntaxError>))
    ensures
        reads_as(text@, relation_models(r.0@), error_models(r.1@)),
        forall|i: int|
            0 <= i < r.1@.len() ==> (#[trigger] r.1@[i]).reason@ == r.1@[i].kind.reason(),
{
    let chars = chars_of(text);
    let mut relations: Vec<Relation> = Vec::new();
    let mut errors: Vec<RelationsSyntaxError> = Vec::new();
    let mut start: usize = 0;
    let mut count: usize = 0;
    let ghost mut done: Seq<Seq<char>> = Seq::empty();
    proof {
        assert(lines_of(chars@) =~= done + lines_from(chars@, 0));
        assert(relation_models(relations@) =~= relations_in(done));
        assert(error_models(errors@) =~= errors_in(done));
    }
    loop
        invariant
            chars@ == text@,
            start <= chars@.len(),
            count == done.len(),
            count <= start,
            lines_of(chars@) == done + lines_from(chars@, start as int),
            relation_models(relations@) == relations_in(done),
            error_models(errors@) == errors_in(done),
            forall|i: int|
                0 <= i < errors@.len() ==> (#[trigger] errors@[i]).reason@
                    == errors@[i].kind.reason(),
        decreases chars@.len() - start,
    {
        let end = find_char_in(chars.as_slice(), start, '\n');
        let line = slice_subrange(chars.as_slice(), start, end);
        let ghost seen = done;
        let ghost found = relations@;
        let ghost failed = errors@;
        proof {
            done = seen.push(line@);
            assert(done.drop_last() =~= seen);
            assert(done.last() == line@);
            lemma_skip_spaces(line@, 0);
        }
        match parse_line(line) {
            ParsedLine::Skipped => {},
            ParsedLine::Statement(relation) => {
                relations.push(relation);
                proof {
                    assert(relation_models(relations@) =~= relation_models(found).push(relation@));
                }
            },
            ParsedLine::Malformed(kind) => {
                let error = RelationsSyntaxError::new(count + 1, kind);
                errors.push(error);
                proof {
                    assert(error_models(errors@) =~= error_models(failed).push(error@));
                }
            },
        }
        if end >= chars.len() {
            proof {
                assert(lines_of(chars@) =~= done);
            }
            return (relations, errors);
        }
        proof {
            assert(lines_of(chars@) =~= done + lines_from(chars@, end + 1));
        }
        start = end + 1;
        count = count + 1;
    }
}

/// What reading `text` gives: the relations of its statements and the errors
/// of its malformed lines.
pub open spec fn reads_as(
    text: Seq<char>,
    relations: Seq<RelationModel>,
    errors: Seq<SyntaxErrorModel>,
) -> bool {
    relations == relations_in(lines_of(text)) && errors == errors_in(lines_of(text))
}

/// The errors `errors`, each moved down by `by` lines.
pub open spec fn moved_down(errors: Seq<SyntaxErrorModel>, by: nat) -> Seq<SyntaxErrorModel> {
    Seq::new(
        errors.len(),
        |i: int| SyntaxErrorModel { line: errors[i].line + by, ..errors[i] },
    )
}

/// Reading one text twice gives the same relations and the same errors:
/// nothing but the text enters into what is read.
pub proof fn lemma_reading_repeats(
    text: Seq<char>,
    first: (Seq<RelationModel>, Seq<SyntaxErrorModel>),
    second: (Seq<RelationModel>, Seq<SyntaxErrorModel>),
)
    requires
        reads_as(text, first.0, first.1),
        reads_as(text, second.0, second.1),
    ensures
        first == second,
{
}

/// The empty text declares no relation and has no error.
pub proof fn lemma_empty_text()
    ensures
        reads_as(Seq::empty(), Seq::empty(), Seq::empty()),
{
    let text = Seq::<char>::empty();
    let lines = lines_of(text);
    assert(lines =~= seq![text.subrange(0, 0)]);
    assert(lines.drop_last() =~= Seq::<Seq<char>>::empty());
    assert(line_outcome(lines.last()) is Skipped);
    assert(relations_in(lines.drop_last()) =~= Seq::<RelationModel>::empty());
    assert(errors_in(lines.drop_last()) =~= Seq::<SyntaxErrorModel>::empty());
    assert(relations_in(lines) =~= Seq::<RelationModel>::empty());
    assert(errors_in(lines) =~= Seq::<SyntaxErrorModel>::empty());
}

/// A line whose first character after whitespace is `#` is skipped, whatever
/// follows the `#`. A `#` further on does not make a comment of a line.
pub proof fn lemma_comment_is_skipped(line: Seq<char>)
    requires
        skip_spaces(line, 0) < line.len(),
        line[skip_spaces(line, 0)] == '#',
    ensures
        line_outcome(line) is Skipped,
{
}

/// Each line is read by itself: what the lines `first + second` amount to is
/// what `first` amounts to, followed by what `second` amounts to, the errors
/// of `second` counted from the line at which `second` starts. So a malformed
/// line changes nothing about the lines before and after it.
pub proof fn lemma_lines_read_alone(first: Seq<Seq<char>>, second: Seq<Seq<char>>)
    ensures
        relations_in(first + second) == relations_in(first) + relations_in(second),
        errors_in(first + second) == errors_in(first) + moved_down(
            errors_in(second),
            first.len(),
        ),
    decreases second.len(),
{
    if second.len() == 0 {
        assert(first + second =~= first);
        assert(relations_in(first) + relations_in(second) =~= relations_in(first));
        assert(errors_in(first) + moved_down(errors_in(second), first.len()) =~= errors_in(first));
    } else {
        let all = first + second;
        lemma_lines_read_alone(first, second.drop_last());
        assert(all.drop_last() =~= first + second.drop_last());
        assert(all.last() == second.last());
        assert(relations_in(all) =~= relations_in(first) + relations_in(second));
        assert(errors_in(all) =~= errors_in(first) + moved_down(errors_in(second), first.len()));
    }
}

/// A skipped line, be it blank or a comment, adds neither a relation nor an
/// error.
pub proof fn lemma_skipped_line_adds_nothing(lines: Seq<Seq<char>>, line: Seq<char>)
    requires
        line_outcome(line) is Skipped,
    ensures
        relations_in(lines.push(line)) == relations_in(lines),
        errors_in(lines.push(line)) == errors_in(lines),
{
    assert(lines.push(line).drop_last() =~= lines);
}

/// A malformed line adds one error, which bears the number of that line, and
/// no relation.
pub proof fn lemma_malformed_line_adds_one_error(lines: Seq<Seq<char>>, line: Seq<char>)
    requires
        line_outcome(line) is Malformed,
    ensures
        relations_in(lines.push(line)) == relations_in(lines),
        errors_in(lines.push(line)) == errors_in(lines).push(
            SyntaxErrorModel::of(lines.len() + 1, line_outcome(line)->Malformed_0),
        ),
{
    assert(lines.push(line).drop_last() =~= lines);
}

/// A statement adds its relation, and no error.
pub proof fn lemma_statement_adds_its_relation(lines: Seq<Seq<char>>, line: Seq<char>)
    requires
        line_outcome(line) is Statement,
    ensures
        relations_in(lines.push(line)) == relations_in(lines).push(
            line_outcome(line)->Statement_0,
        ),
        errors_in(lines.push(line)) == errors_in(lines),
{
    assert(lines.push(line).drop_last() =~= lines);
}

/// An attribute value keeps its kind: what stands in quotes is a string with
/// the characters between the quotes, the words `true` and `false` are the
/// booleans, and any other value is a number.
pub proof fn lemma_value_keeps_its_kind(s: Seq<char>, i: int)
    requires
        0 <= i <= s.len(),
    ensures
        match value_at(s, i) {
            Ok((value, _)) => {
                let word = s.subrange(i, word_end(s, i));
                if i < s.len() && s[i] == '"' {
                    value is Str
                } else if word == "true"@ {
                    value == JsonModel::Bool(true)
                } else if word == "false"@ {
                    value == JsonModel::Bool(false)
                } else {
                    value is Number
                }
            },
            Err(_) => true,
        },
{
}

/// A string without a backslash stands for the characters between its
/// quotes, unchanged.
pub proof fn lemma_plain_string(s: Seq<char>, i: int, j: int, sofar: Seq<char>)
    requires
        0 <= i <= j < s.len(),
        s[j] == '"',
        forall|k: int| i <= k < j ==> s[k] != '"' && s[k] != '\\',
    ensures
        string_rest(s, i, sofar) == Ok::<(Seq<char>, int), SyntaxErrorKind>(
            (sofar + s.subrange(i, j), j + 1),
        ),
    decreases j - i,
{
    if i == j {
        assert(sofar + s.subrange(i, j) =~= sofar);
    } else {
        lemma_plain_string(s, i + 1, j, sofar.push(s[i]));
        assert(sofar.push(s[i]) + s.subrange(i + 1, j) =~= sofar + s.subrange(i, j));
    }
}

} // verus!
