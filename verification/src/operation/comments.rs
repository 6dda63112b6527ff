//! Descriptions that stand in the comments of an operation document.

use crate::document::{NameView, OperationDef, OperationView, VariableView};
use crate::string_map::StringMap;
use crate::text::{
    boundary, bounds, byte_len, contains_char, is_bounds, is_white_space, lemma_boundary_range,
    part, slice, text_of, trim, trim_end, trim_start, trimmed,
};
use vstd::prelude::*;
use vstd::utf8::{
    encode_utf8, encode_utf8_valid_utf8, is_char_boundary, is_char_boundary_start_end_of_seq,
};

verus! {

/// Whether a comment sign comes first, but for white space and commas.
pub open spec fn opens_comment(s: Seq<char>) -> bool
    decreases s.len(),
{
    s.len() > 0 && (s[0] == '#' || ((is_white_space(s[0]) || s[0] == ',') && opens_comment(
        s.skip(1),
    )))
}

/// The text after its first comment sign.
pub open spec fn after_sign(s: Seq<char>) -> Seq<char>
    decreases s.len(),
{
    if s.len() == 0 {
        s
    } else if s[0] == '#' {
        s.skip(1)
    } else {
        after_sign(s.skip(1))
    }
}

/// The text with the comment signs taken away that come first after a line break,
/// together with the white space and the commas between the two. The line break stays.
pub open spec fn without_line_signs(s: Seq<char>) -> Seq<char>
    decreases s.len(),
    via without_line_signs_decreases
{
    if s.len() == 0 {
        s
    } else if s[0] == '\n' && opens_comment(s.skip(1)) {
        seq!['\n'] + without_line_signs(after_sign(s.skip(1)))
    } else {
        seq![s[0]] + without_line_signs(s.skip(1))
    }
}

#[via_fn]
proof fn without_line_signs_decreases(s: Seq<char>) {
    if s.len() > 0 {
        lemma_after_sign(s.skip(1));
    }
}

proof fn lemma_after_sign(s: Seq<char>)
    ensures
        after_sign(s).len() <= s.len(),
    decreases s.len(),
{
    if s.len() > 0 && s[0] != '#' {
        lemma_after_sign(s.skip(1));
    }
}

/// The text without the comment signs that start a comment line: those that come first
/// after a line break or in the text.
pub open spec fn without_signs(s: Seq<char>) -> Seq<char> {
    if opens_comment(s) && s[0] != '\n' {
        without_line_signs(after_sign(s))
    } else {
        without_line_signs(s)
    }
}

/// The words of a comment: without the signs and without white space at both ends.
/// There are none where nothing is left.
pub open spec fn comment_words(comments: Option<Seq<char>>) -> Option<Seq<char>> {
    match comments {
        Some(s) => if trimmed(without_signs(s)).len() == 0 {
            None
        } else {
            Some(trimmed(without_signs(s)))
        },
        None => None,
    }
}

/// The pattern of what starts a comment line.
pub open spec fn sign_pattern() -> Seq<char> {
    r"(\n|^)(\s*,*)*#"@
}

/// The pattern of an opening parenthesis that comes first on a line.
pub open spec fn paren_pattern() -> Seq<char> {
    r"(?m)^\s*\("@
}

/// `regex::Regex::replace_all` with the pattern of what starts a comment line. Trusted:
/// from left to right, a match takes in white space and commas up to a comment sign, from
/// a line break on or from the start of the text, and what takes its place is the line
/// break, if it begins with one. The pattern compiles.
#[verifier::external_body]
fn replace_signs(pattern: &str, text: &str, replacement: &str) -> (r: Option<String>)
    requires
        pattern@ == sign_pattern(),
        replacement@ == "$1"@,
    ensures
        r is Some,
        r->0@ == without_signs(text@),
{
    let regex = regex::Regex::new(pattern).ok()?;
    Some(regex.replace_all(text, replacement).into_owned())
}

/// The words of a comment, without comment signs.
pub fn extract_and_format_comments(comments: Option<String>) -> (r: Option<String>)
    ensures
        text_of(r) == comment_words(text_of(comments)),
{
    let comments = match comments {
        Some(comments) => comments,
        None => return None,
    };
    let content = match replace_signs(r"(\n|^)(\s*,*)*#", comments.as_str(), "$1") {
        Some(content) => content,
        None => return None,
    };
    let words = trim(content.as_str());
    if words.is_empty() {
        None
    } else {
        Some(words.to_owned())
    }
}

/// Where an opening parenthesis ends that comes first in the text, but for white space.
pub open spec fn first_paren(s: Seq<char>) -> Option<int>
    decreases s.len(),
{
    if s.len() == 0 {
        None
    } else if s[0] == '(' {
        Some(1)
    } else if is_white_space(s[0]) {
        match first_paren(s.skip(1)) {
            Some(end) => Some(end + 1),
            None => None,
        }
    } else {
        None
    }
}

/// Where the first opening parenthesis ends that comes first on a line. `at_start` says
/// whether a line starts where the text starts.
pub open spec fn line_paren(s: Seq<char>, at_start: bool) -> Option<int>
    decreases s.len(),
{
    if at_start && first_paren(s) is Some {
        first_paren(s)
    } else if s.len() == 0 {
        None
    } else {
        match line_paren(s.skip(1), s[0] == '\n') {
            Some(end) => Some(end + 1),
            None => None,
        }
    }
}

/// The end of `regex::Regex::find` with the pattern of a parenthesis that comes first on a
/// line. Trusted: the leftmost match starts at the first line that begins with white space
/// and a parenthesis; white space takes in line breaks. The pattern compiles.
#[verifier::external_body]
fn find_paren(pattern: &str, text: &str) -> (r: Option<usize>)
    requires
        pattern@ == paren_pattern(),
    ensures
        match r {
            Some(end) => line_paren(text@, true) is Some && end == byte_len(
                text@.take(line_paren(text@, true)->0),
            ),
            None => line_paren(text@, true) is None,
        },
{
    let regex = regex::Regex::new(pattern).ok()?;
    regex.find(text).map(|found| found.end())
}

/// The byte offset after the parenthesis that opens the variables of an operation: the
/// first one after the operation's name that comes first on a line, where the name ends one
/// too. It is 0 where there is none, and unknown where the name is.
pub open spec fn opening_offset(source: Seq<char>, name: Option<NameView>) -> Option<int> {
    match name {
        Some(NameView { text: _, span: Some(span) }) => {
            let rest = part(source, span.end as int, byte_len(source) as int);
            match line_paren(rest, true) {
                Some(end) => Some(span.end + byte_len(rest.take(end))),
                None => Some(0),
            }
        },
        _ => None,
    }
}

/// Whether the name of an operation ends in the source text, where it stands there.
pub open spec fn name_fits(source: Seq<char>, name: Option<NameView>) -> bool {
    match name {
        Some(NameView { text: _, span: Some(span) }) => boundary(source, span.end as int),
        _ => true,
    }
}

proof fn lemma_paren_range(s: Seq<char>, at_start: bool)
    ensures
        line_paren(s, at_start) is Some ==> 0 <= line_paren(s, at_start)->0 <= s.len(),
        first_paren(s) is Some ==> 0 <= first_paren(s)->0 <= s.len(),
    decreases s.len(),
{
    if s.len() > 0 {
        lemma_paren_range(s.skip(1), s[0] == '\n');
    }
}

proof fn lemma_take_len(s: Seq<char>, n: int)
    requires
        0 <= n <= s.len(),
    ensures
        byte_len(s.take(n)) <= byte_len(s),
    decreases n,
{
    if n > 0 {
        lemma_take_len(s.drop_first(), n - 1);
        assert(s.take(n).drop_first() =~= s.drop_first().take(n - 1));
        assert(s.take(n)[0] == s[0]);
    }
}

/// The byte offset after the parenthesis that opens the variables of an operation.
pub fn find_opening_parens_offset(source_text: &str, operation: &OperationDef) -> (r: Option<usize>)
    requires
        name_fits(source_text@, operation@.name),
    ensures
        match r {
            Some(offset) => opening_offset(source_text@, operation@.name) == Some(offset as int),
            None => opening_offset(source_text@, operation@.name) is None,
        },
{
    let span = match &operation.name {
        Some(name) => match name.span {
            Some(span) => span,
            None => return None,
        },
        None => return None,
    };
    let length: usize = source_text.as_bytes().len();
    proof {
        encode_utf8_valid_utf8(source_text@);
        is_char_boundary_start_end_of_seq(encode_utf8(source_text@));
        lemma_boundary_range(source_text@, span.end as int);
    }
    let rest = slice(source_text, span.end, length);
    match find_paren(r"(?m)^\s*\(", rest) {
        Some(end) => {
            proof {
                lemma_paren_range(rest@, true);
                lemma_take_len(rest@, line_paren(rest@, true)->0);
                crate::text::lemma_part_len(source_text@, span.end as int, length as int);
            }
            Some(end + span.end)
        },
        None => Some(0),
    }
}

/// Where the text before a variable starts: after the opening parenthesis, or after the
/// variable before it.
pub open spec fn comment_start(
    opening: Option<int>,
    variables: Seq<VariableView>,
    i: int,
) -> Option<int> {
    if i == 0 {
        opening
    } else {
        match variables[i - 1].span {
            Some(span) => Some(span.end as int),
            None => None,
        }
    }
}

/// The text before a variable.
pub open spec fn text_before(
    source: Seq<char>,
    opening: Option<int>,
    variables: Seq<VariableView>,
    i: int,
) -> Option<Seq<char>> {
    match (comment_start(opening, variables, i), variables[i].span) {
        (Some(start), Some(span)) => Some(part(source, start, span.start as int)),
        _ => None,
    }
}

/// The description that the comment before a variable gives.
pub open spec fn comment_before(
    source: Seq<char>,
    opening: Option<int>,
    variables: Seq<VariableView>,
    i: int,
) -> Option<Seq<char>> {
    match text_before(source, opening, variables, i) {
        Some(s) => if s.contains('#') {
            comment_words(Some(s))
        } else {
            None
        },
        None => None,
    }
}

/// The descriptions that the comments before the first `n` variables give, by variable.
pub open spec fn comments_before(
    source: Seq<char>,
    opening: Option<int>,
    variables: Seq<VariableView>,
    n: nat,
) -> Map<Seq<char>, Seq<char>>
    decreases n,
{
    if n == 0 {
        Map::empty()
    } else {
        let before = comments_before(source, opening, variables, (n - 1) as nat);
        match comment_before(source, opening, variables, n - 1) {
            Some(words) => before.insert(variables[n - 1].name, words),
            None => before,
        }
    }
}

/// The descriptions that the comments before its variables give, by variable.
pub open spec fn variable_comments(source: Seq<char>, operation: OperationView) -> Map<
    Seq<char>,
    Seq<char>,
> {
    comments_before(
        source,
        opening_offset(source, operation.name),
        operation.variables,
        operation.variables.len(),
    )
}

/// Whether the text before a variable is a part of the source text, where it is looked at.
pub open spec fn comment_fits(
    source: Seq<char>,
    opening: Option<int>,
    variables: Seq<VariableView>,
    i: int,
) -> bool {
    match (comment_start(opening, variables, i), variables[i].span) {
        (Some(start), Some(span)) => bounds(source, start, span.start as int),
        _ => true,
    }
}

/// Whether the text before each variable is a part of the source text. It is not where the
/// parenthesis that was taken for the opening one comes after the first variable.
pub open spec fn comments_fit(source: Seq<char>, operation: OperationView) -> bool {
    &&& name_fits(source, operation.name)
    &&& forall|i: int|
        0 <= i < operation.variables.len() ==> #[trigger] comment_fits(
            source,
            opening_offset(source, operation.name),
            operation.variables,
            i,
        )
}

/// Whether the text before each variable is a part of the source text.
pub fn do_comments_fit(source_text: &str, operation: &OperationDef) -> (r: bool)
    ensures
        r == comments_fit(source_text@, operation@),
{
    if let Some(name) = &operation.name {
        if let Some(span) = name.span {
            if !source_text.is_char_boundary(span.end) {
                return false;
            }
        }
    }
    let mut last = find_opening_parens_offset(source_text, operation);
    let ghost opening = opening_offset(source_text@, operation@.name);
    let ghost variables = operation@.variables;
    let n: usize = operation.variables.len();
    for i in 0..n
        invariant
            n == operation.variables@.len(),
            variables == operation@.variables,
            name_fits(source_text@, operation@.name),
            opening == opening_offset(source_text@, operation@.name),
            i < n ==> comment_start(opening, variables, i as int) == match last {
                Some(offset) => Some(offset as int),
                None => None,
            },
            forall|j: int|
                0 <= j < i ==> #[trigger] comment_fits(source_text@, opening, variables, j),
    {
        let span = operation.variables[i].span;
        assert(variables[i as int].span == span);
        if let (Some(start), Some(span)) = (last, span) {
            if !is_bounds(source_text, start, span.start) {
                assert(!comment_fits(source_text@, opening, variables, i as int));
                return false;
            }
        }
        last = match span {
            Some(span) => Some(span.end),
            None => None,
        };
    }
    true
}

/// The texts that a map holds.
pub open spec fn text_map(map: Map<Seq<char>, String>) -> Map<Seq<char>, Seq<char>> {
    map.map_values(|s: String| s@)
}

/// The descriptions that the comments before its variables give, by variable.
pub fn variable_description_overrides(source_text: &str, operation: &OperationDef) -> (r: StringMap<
    String,
>)
    requires
        comments_fit(source_text@, operation@),
    ensures
        text_map(r@) == variable_comments(source_text@, operation@),
{
    let mut r: StringMap<String> = StringMap::new();
    let mut last = find_opening_parens_offset(source_text, operation);
    let ghost opening = opening_offset(source_text@, operation@.name);
    let ghost variables = operation@.variables;
    let n: usize = operation.variables.len();
    assert(text_map(r@) =~= Map::empty());
    for i in 0..n
        invariant
            n == operation.variables@.len(),
            variables == operation@.variables,
            comments_fit(source_text@, operation@),
            opening == opening_offset(source_text@, operation@.name),
            i < n ==> comment_start(opening, variables, i as int) == match last {
                Some(offset) => Some(offset as int),
                None => None,
            },
            text_map(r@) == comments_before(source_text@, opening, variables, i as nat),
    {
        let variable = &operation.variables[i];
        assert(variables[i as int] == variable@);
        assert(comment_fits(source_text@, opening, variables, i as int));
        if let (Some(start), Some(span)) = (last, variable.span) {
            let comment = slice(source_text, start, span.start);
            if contains_char(comment, '#') {
                if let Some(words) = extract_and_format_comments(Some(comment.to_owned())) {
                    let ghost before = r@;
                    r.insert(variable.name.clone(), words);
                    assert(text_map(r@) =~= text_map(before).insert(variable.name@, words@));
                }
            }
        }
        last = match variable.span {
            Some(span) => Some(span.end),
            None => None,
        };
    }
    r
}

/// The words of a comment are not empty and do not begin or end with white space.
pub proof fn law_comment_words_are_trimmed(comments: Option<Seq<char>>)
    ensures
        match comment_words(comments) {
            Some(words) => words.len() > 0 && !is_white_space(words[0]) && !is_white_space(
                words.last(),
            ),
            None => true,
        },
{
    if let Some(s) = comments {
        let start = trim_start(without_signs(s));
        lemma_trim_start(without_signs(s));
        lemma_trim_end(start);
    }
}

proof fn lemma_trim_start(s: Seq<char>)
    ensures
        trim_start(s).len() > 0 ==> !is_white_space(trim_start(s)[0]),
    decreases s.len(),
{
    if s.len() > 0 && is_white_space(s[0]) {
        lemma_trim_start(s.drop_first());
    }
}

proof fn lemma_trim_end(s: Seq<char>)
    ensures
        trim_end(s).len() > 0 ==> !is_white_space(trim_end(s).last()) && trim_end(s)[0] == s[0],
    decreases s.len(),
{
    if s.len() > 0 && is_white_space(s.last()) {
        lemma_trim_end(s.drop_last());
    }
}

/// Whether the character may stand between the start of a line and a comment sign.
pub open spec fn is_padding(c: char) -> bool {
    is_white_space(c) || c == ','
}

/// Whether the first comment sign is at that place, with nothing but padding before it.
pub open spec fn is_first_sign(s: Seq<char>, k: int) -> bool {
    &&& 0 <= k < s.len()
    &&& s[k] == '#'
    &&& forall|j: int| 0 <= j < k ==> is_padding(#[trigger] s[j])
}

proof fn lemma_first_sign(s: Seq<char>)
    ensures
        opens_comment(s) <==> exists|k: int| #[trigger] is_first_sign(s, k),
        forall|k: int| #[trigger] is_first_sign(s, k) ==> after_sign(s) == s.skip(k + 1),
    decreases s.len(),
{
    if s.len() > 0 {
        let rest = s.skip(1);
        lemma_first_sign(rest);
        assert(forall|j: int| 0 <= j < rest.len() ==> #[trigger] rest[j] == s[j + 1]);
        assert forall|k: int| #[trigger] is_first_sign(s, k) implies after_sign(s) == s.skip(k + 1)
            && opens_comment(s) by {
            if k == 0 {
                assert(s.skip(1) =~= rest);
            } else {
                assert(is_padding(s[0]));
                assert forall|j: int| 0 <= j < k - 1 implies is_padding(#[trigger] rest[j]) by {
                    assert(is_padding(s[j + 1]));
                }
                assert(is_first_sign(rest, k - 1));
                assert(rest.skip(k) =~= s.skip(k + 1));
            }
        }
        if opens_comment(s) {
            if s[0] == '#' {
                assert(is_first_sign(s, 0));
            } else {
                let k = choose|k: int| #[trigger] is_first_sign(rest, k);
                assert forall|j: int| 0 <= j < k + 1 implies is_padding(#[trigger] s[j]) by {
                    if j > 0 {
                        assert(is_padding(rest[j - 1]));
                    }
                }
                assert(is_first_sign(s, k + 1));
            }
        }
    } else {
        assert(forall|k: int| !(#[trigger] is_first_sign(s, k)));
    }
}

/// After a line break, the padding and the comment sign behind it are taken away, once; the
/// line break stays. Nothing else is.
pub proof fn law_signs_of_lines_are_taken_away(s: Seq<char>, c: char, k: int)
    ensures
        without_line_signs(Seq::empty()) == Seq::<char>::empty(),
        c != '\n' ==> without_line_signs(seq![c] + s) == seq![c] + without_line_signs(s),
        is_first_sign(s, k) ==> without_line_signs(seq!['\n'] + s) == seq!['\n']
            + without_line_signs(s.skip(k + 1)),
        (forall|j: int| !(#[trigger] is_first_sign(s, j))) ==> without_line_signs(seq!['\n'] + s)
            == seq!['\n'] + without_line_signs(s),
{
    lemma_first_sign(s);
    assert((seq![c] + s).skip(1) =~= s);
    assert((seq!['\n'] + s).skip(1) =~= s);
    assert(without_line_signs(Seq::empty()) =~= Seq::<char>::empty());
}

/// At the start of the text the padding and the comment sign behind it are taken away too,
/// unless a line break comes first.
pub proof fn law_sign_of_the_first_line_is_taken_away(s: Seq<char>, k: int)
    ensures
        is_first_sign(s, k) && s[0] != '\n' ==> without_signs(s) == without_line_signs(
            s.skip(k + 1),
        ),
        (s.len() > 0 && s[0] == '\n') || (forall|j: int| !(#[trigger] is_first_sign(s, j)))
            ==> without_signs(s) == without_line_signs(s),
{
    lemma_first_sign(s);
}

/// The words of a comment are what is left without the signs and the white space at both ends.
/// There are none where nothing is left. A text without a comment sign is only trimmed.
pub proof fn law_comment_words(s: Seq<char>)
    ensures
        comment_words(None) is None,
        comment_words(Some(s)) is None <==> trimmed(without_signs(s)) == Seq::<char>::empty(),
        comment_words(Some(s)) is Some ==> comment_words(Some(s))->0 == trimmed(without_signs(s)),
        !s.contains('#') ==> without_signs(s) == s,
{
    assert(trimmed(without_signs(s)).len() == 0 ==> trimmed(without_signs(s)) =~= Seq::empty());
    if !s.contains('#') {
        lemma_no_signs(s);
        lemma_first_sign(s);
        assert forall|j: int| !(#[trigger] is_first_sign(s, j)) by {
            if is_first_sign(s, j) {
                assert(s.contains(s[j]));
            }
        }
    }
}

proof fn lemma_no_signs(s: Seq<char>)
    requires
        !s.contains('#'),
    ensures
        without_line_signs(s) == s,
    decreases s.len(),
{
    if s.len() > 0 {
        let rest = s.skip(1);
        assert(!rest.contains('#')) by {
            if rest.contains('#') {
                let i = choose|i: int| 0 <= i < rest.len() && rest[i] == '#';
                assert(s[i + 1] == '#');
            }
        }
        lemma_no_signs(rest);
        lemma_first_sign(rest);
        assert forall|j: int| !(#[trigger] is_first_sign(rest, j)) by {
            if is_first_sign(rest, j) {
                assert(rest.contains(rest[j]));
            }
        }
        assert(seq![s[0]] + rest =~= s);
        if s[0] == '\n' {
            assert(seq!['\n'] + rest =~= s);
        }
    }
}

/// Whether an opening parenthesis ends there, with nothing but white space before it from
/// another place on.
pub open spec fn is_paren_from(s: Seq<char>, from: int, end: int) -> bool {
    &&& 0 <= from < end <= s.len()
    &&& s[end - 1] == '('
    &&& forall|j: int| from <= j < end - 1 ==> is_white_space(#[trigger] s[j])
}

/// Whether a line starts there.
pub open spec fn is_line_start(s: Seq<char>, at_start: bool, p: int) -> bool {
    0 <= p <= s.len() && if p == 0 {
        at_start
    } else {
        s[p - 1] == '\n'
    }
}

proof fn lemma_first_paren(s: Seq<char>)
    ensures
        forall|end: int| first_paren(s) == Some(end) <==> #[trigger] is_paren_from(s, 0, end),
    decreases s.len(),
{
    if s.len() > 0 {
        let rest = s.skip(1);
        lemma_first_paren(rest);
        assert(forall|j: int| 0 <= j < rest.len() ==> #[trigger] rest[j] == s[j + 1]);
        assert forall|end: int| first_paren(s) == Some(end) <==> #[trigger] is_paren_from(
            s,
            0,
            end,
        ) by {
            if is_paren_from(s, 0, end) {
                if end > 1 {
                    assert(is_white_space(s[0]));
                    assert forall|j: int| 0 <= j < end - 2 implies is_white_space(
                        #[trigger] rest[j],
                    ) by {
                        assert(is_white_space(s[j + 1]));
                    }
                    assert(rest[end - 2] == s[end - 1]);
                    assert(is_paren_from(rest, 0, end - 1));
                }
            }
            if first_paren(s) == Some(end) && s[0] != '(' {
                assert(is_paren_from(rest, 0, end - 1));
                assert(rest[end - 2] == s[end - 1]);
                assert forall|j: int| 0 <= j < end - 1 implies is_white_space(#[trigger] s[j]) by {
                    if j > 0 {
                        assert(is_white_space(rest[j - 1]));
                    }
                }
            }
        }
    }
}

/// A parenthesis that is found comes first on a line, but for white space, and no earlier line
/// begins with one. It is found wherever a line begins with one.
pub proof fn law_parenthesis_of_a_line(s: Seq<char>, at_start: bool)
    ensures
        match line_paren(s, at_start) {
            Some(end) => exists|p: int|
                #![trigger is_line_start(s, at_start, p)]
                is_line_start(s, at_start, p) && is_paren_from(s, p, end) && forall|q: int, e: int|
                    #![trigger is_line_start(s, at_start, q), is_paren_from(s, q, e)]
                    is_line_start(s, at_start, q) && is_paren_from(s, q, e) ==> p <= q,
            None => forall|q: int, e: int|
                #![trigger is_line_start(s, at_start, q), is_paren_from(s, q, e)]
                !(is_line_start(s, at_start, q) && is_paren_from(s, q, e)),
        },
    decreases s.len(),
{
    lemma_first_paren(s);
    if at_start && first_paren(s) is Some {
        assert(is_line_start(s, at_start, 0));
        assert(is_paren_from(s, 0, first_paren(s)->0));
    } else if s.len() > 0 {
        let rest = s.skip(1);
        let next = s[0] == '\n';
        law_parenthesis_of_a_line(rest, next);
        assert(forall|j: int| 0 <= j < rest.len() ==> #[trigger] rest[j] == s[j + 1]);
        assert forall|q: int, e: int|
            #![trigger is_line_start(s, at_start, q), is_paren_from(s, q, e)]
            is_line_start(s, at_start, q) && is_paren_from(s, q, e) implies q >= 1
            && is_line_start(rest, next, q - 1) && is_paren_from(rest, q - 1, e - 1) by {
            if q == 0 {
                assert(first_paren(s) == Some(e));
            } else {
                if q > 1 {
                    assert(rest[q - 2] == s[q - 1]);
                }
                assert(rest[e - 2] == s[e - 1]);
                assert forall|j: int| q - 1 <= j < e - 2 implies is_white_space(
                    #[trigger] rest[j],
                ) by {
                    assert(is_white_space(s[j + 1]));
                }
            }
        }
        if let Some(end) = line_paren(rest, next) {
            let p = choose|p: int|
                #![trigger is_line_start(rest, next, p)]
                is_line_start(rest, next, p) && is_paren_from(rest, p, end) && forall|q: int, e: int|
                    #![trigger is_line_start(rest, next, q), is_paren_from(rest, q, e)]
                    is_line_start(rest, next, q) && is_paren_from(rest, q, e) ==> p <= q;
            if p > 0 {
                assert(rest[p - 1] == s[p]);
            }
            assert(is_line_start(s, at_start, p + 1));
            assert(rest[end - 1] == s[end]);
            assert forall|j: int| p + 1 <= j < end implies is_white_space(#[trigger] s[j]) by {
                assert(is_white_space(rest[j - 1]));
            }
            assert(is_paren_from(s, p + 1, end + 1));
            assert forall|q: int, e: int|
                #![trigger is_line_start(s, at_start, q), is_paren_from(s, q, e)]
                is_line_start(s, at_start, q) && is_paren_from(s, q, e) implies p + 1 <= q by {
                assert(is_line_start(rest, next, q - 1));
                assert(is_paren_from(rest, q - 1, e - 1));
            }
        } else {
            assert forall|q: int, e: int|
                #![trigger is_line_start(s, at_start, q), is_paren_from(s, q, e)]
                !(is_line_start(s, at_start, q) && is_paren_from(s, q, e)) by {
                if is_line_start(s, at_start, q) && is_paren_from(s, q, e) {
                    assert(is_line_start(rest, next, q - 1));
                    assert(is_paren_from(rest, q - 1, e - 1));
                }
            }
        }
    }
}

/// The variables open after the parenthesis that is found behind the operation's name, at the
/// start of the text where none is, and nowhere where the place of the name is not known.
pub proof fn law_opening_offset(source: Seq<char>, name: Option<NameView>)
    ensures
        name is None || name->0.span is None ==> opening_offset(source, name) is None,
        name is Some && name->0.span is Some ==> {
            let end = name->0.span->0.end as int;
            let rest = part(source, end, encode_utf8(source).len() as int);
            &&& line_paren(rest, true) is None ==> opening_offset(source, name) == Some(0int)
            &&& line_paren(rest, true) is Some ==> opening_offset(source, name) == Some(
                end + encode_utf8(rest.take(line_paren(rest, true)->0)).len(),
            )
        },
{
}

/// A variable is described by the comment before it: the text since the variable before it, or
/// since the parenthesis that opens the variables, where that holds a comment sign and words.
/// Nothing else is described.
pub proof fn law_variables_are_described_by_their_comments(
    source: Seq<char>,
    operation: OperationView,
    i: int,
    name: Seq<char>,
)
    requires
        forall|j: int, k: int|
            0 <= j < k < operation.variables.len() ==> (#[trigger] operation.variables[j]).name != (
            #[trigger] operation.variables[k]).name,
    ensures
        (forall|j: int|
            0 <= j < operation.variables.len() ==> (#[trigger] operation.variables[j]).name != name)
            ==> !variable_comments(source, operation).contains_key(name),
        0 <= i < operation.variables.len() ==> {
            let variable = operation.variables[i];
            let start = if i == 0 {
                opening_offset(source, operation.name)
            } else {
                match operation.variables[i - 1].span {
                    Some(span) => Some(span.end as int),
                    None => None,
                }
            };
            let known = start is Some && variable.span is Some;
            let before = part(source, start->0, variable.span->0.start as int);
            let words = comment_words(Some(before));
            let described = variable_comments(source, operation);
            &&& described.contains_key(variable.name) <==> known && before.contains('#')
                && words is Some
            &&& described.contains_key(variable.name) ==> described[variable.name] == words->0
        },
{
    lemma_described(
        source,
        opening_offset(source, operation.name),
        operation.variables,
        operation.variables.len(),
        name,
    );
    if 0 <= i < operation.variables.len() {
        lemma_described(
            source,
            opening_offset(source, operation.name),
            operation.variables,
            operation.variables.len(),
            operation.variables[i].name,
        );
    }
}

proof fn lemma_described(
    source: Seq<char>,
    opening: Option<int>,
    variables: Seq<VariableView>,
    n: nat,
    name: Seq<char>,
)
    requires
        n <= variables.len(),
        forall|j: int, k: int|
            0 <= j < k < variables.len() ==> (#[trigger] variables[j]).name != (
            #[trigger] variables[k]).name,
    ensures
        (forall|j: int| 0 <= j < n ==> (#[trigger] variables[j]).name != name)
            ==> !comments_before(source, opening, variables, n).contains_key(name),
        forall|i: int|
            0 <= i < n && (#[trigger] variables[i]).name == name ==> match comment_before(
                source,
                opening,
                variables,
                i,
            ) {
                Some(words) => comments_before(source, opening, variables, n).contains_key(name)
                    && comments_before(source, opening, variables, n)[name] == words,
                None => !comments_before(source, opening, variables, n).contains_key(name),
            },
    decreases n,
{
    if n > 0 {
        lemma_described(source, opening, variables, (n - 1) as nat, name);
        assert(variables[n - 1].name == variables[n - 1].name);
    }
}

/// The comments of variables fit in a text where each variable whose comment is looked at starts
/// in it, at a character, and not before the place where the comment starts.
pub proof fn law_comments_fit(source: Seq<char>, operation: OperationView)
    ensures
        comments_fit(source, operation) <==> (operation.name is Some && operation.name->0.span
            is Some ==> is_char_boundary(
            encode_utf8(source),
            operation.name->0.span->0.end as int,
        )) && forall|i: int|
            #![trigger operation.variables[i]]
            0 <= i < operation.variables.len() && operation.variables[i].span is Some ==> {
                let start = if i == 0 {
                    opening_offset(source, operation.name)
                } else {
                    match operation.variables[i - 1].span {
                        Some(span) => Some(span.end as int),
                        None => None,
                    }
                };
                let end = operation.variables[i].span->0.start as int;
                start is Some ==> start->0 <= end && is_char_boundary(
                    encode_utf8(source),
                    start->0,
                ) && is_char_boundary(encode_utf8(source), end)
            },
{
    let opening = opening_offset(source, operation.name);
    let variables = operation.variables;
    if comments_fit(source, operation) {
        assert forall|i: int|
            #![trigger operation.variables[i]]
            0 <= i < operation.variables.len() && operation.variables[i].span is Some implies ({
            let start = if i == 0 {
                opening
            } else {
                match operation.variables[i - 1].span {
                    Some(span) => Some(span.end as int),
                    None => None,
                }
            };
            let end = operation.variables[i].span->0.start as int;
            start is Some ==> start->0 <= end && is_char_boundary(encode_utf8(source), start->0)
                && is_char_boundary(encode_utf8(source), end)
        }) by {
            assert(comment_fits(source, opening, variables, i));
        }
    } else if name_fits(source, operation.name) {
        let i = choose|i: int|
            0 <= i < variables.len() && !(#[trigger] comment_fits(source, opening, variables, i));
        assert(variables[i].span is Some);
        assert(operation.variables[i] == variables[i]);
    }
}

/// The comments count one after the other: the comment before one variable more describes that
/// variable, in the place of what described its name so far, and leaves the others.
pub proof fn law_one_comment_more(
    source: Seq<char>,
    opening: Option<int>,
    variables: Seq<VariableView>,
    n: nat,
)
    requires
        n < variables.len(),
    ensures
        comments_before(source, opening, variables, 0) == Map::<Seq<char>, Seq<char>>::empty(),
        ({
            let start = if n == 0 {
                opening
            } else {
                match variables[n - 1].span {
                    Some(span) => Some(span.end as int),
                    None => None,
                }
            };
            let span = variables[n as int].span;
            let before = part(source, start->0, span->0.start as int);
            let words = comment_words(Some(before));
            let so_far = comments_before(source, opening, variables, n);
            comments_before(source, opening, variables, n + 1) == if start is Some && span is Some
                && before.contains('#') && words is Some {
                so_far.insert(variables[n as int].name, words->0)
            } else {
                so_far
            }
        }),
{
}

} // verus!
