//! The one operation of a document.

use crate::document::{
    self, definition_views, definitions_of, parsed, SOURCE_LIMIT, Definition, DefinitionKind,
    DefinitionView, OperationDef, OperationView, Span,
};
use crate::graphql::OperationType;
use crate::notice::{notice_of, Notice, NoticeLevel, NoticeView};
use crate::operation::error::{OperationError, OperationErrorView};
use crate::text::{bounds, byte_len, is_bounds, part, slice, text_of};
use apollo_compiler::ast::Document;
use vstd::prelude::*;
use vstd::utf8::{encode_utf8, is_char_boundary};

verus! {

/// Which messages are written: an operation that is skipped is told of by name, so a
/// missing name is an error where the message is written.
#[derive(Debug, Clone, Copy, PartialEq, Eq, Structural)]
pub struct LogLevels {
    pub warn: bool,
    pub debug: bool,
}

/// The one operation of a document, and the text before it.
pub struct ParsedOperation {
    pub document: Document,
    pub operation: OperationDef,
    pub comments: Option<String>,
}

/// How many of the definitions are operations.
pub open spec fn operation_count(definitions: Seq<DefinitionView>) -> nat
    decreases definitions.len(),
{
    if definitions.len() == 0 {
        0
    } else {
        operation_count(definitions.drop_last()) + if definitions.last() is Operation {
            1nat
        } else {
            0
        }
    }
}

/// The place of the last operation among the definitions.
pub open spec fn operation_place(definitions: Seq<DefinitionView>) -> int
    decreases definitions.len(),
{
    if definitions.len() == 0 || definitions.last() is Operation {
        definitions.len() - 1
    } else {
        operation_place(definitions.drop_last())
    }
}

/// Where the text before a definition starts: at the start, or after the definition before
/// it.
pub open spec fn text_start(definitions: Seq<DefinitionView>, i: int) -> Option<int> {
    if i == 0 {
        Some(0)
    } else {
        match definitions[i - 1].span() {
            Some(span) => Some(span.end as int),
            None => None,
        }
    }
}

/// The text before a definition.
pub open spec fn text_before(
    source: Seq<char>,
    definitions: Seq<DefinitionView>,
    i: int,
) -> Option<Seq<char>> {
    match (text_start(definitions, i), definitions[i].span()) {
        (Some(start), Some(span)) => Some(part(source, start, span.start as int)),
        _ => None,
    }
}

/// Whether the text before a definition is a part of the source text, where it is looked at.
pub open spec fn text_fits(source: Seq<char>, definitions: Seq<DefinitionView>, i: int) -> bool {
    match (text_start(definitions, i), definitions[i].span()) {
        (Some(start), Some(span)) => bounds(source, start, span.start as int),
        _ => true,
    }
}

/// Whether the definitions stand in the source text one after the other.
pub open spec fn definitions_fit(source: Seq<char>, definitions: Seq<DefinitionView>) -> bool {
    forall|i: int| 0 <= i < definitions.len() ==> #[trigger] text_fits(source, definitions, i)
}

/// What is done with the operation of a document.
#[derive(Debug)]
pub enum Choice {
    /// It is left out, with a notice where its name is known.
    Skip(Option<Notice>),
    /// It is taken, with the text before it.
    Take(OperationDef, Option<String>),
}

/// What a choice says.
pub enum ChoiceView {
    Skip(Option<NoticeView>),
    Take(OperationView, Option<Seq<char>>),
}

impl View for Choice {
    type V = ChoiceView;

    open spec fn view(&self) -> ChoiceView {
        match self {
            Choice::Skip(notice) => ChoiceView::Skip(notice_of(*notice)),
            Choice::Take(operation, comments) => ChoiceView::Take(operation@, text_of(*comments)),
        }
    }
}

/// What the result of a choice says.
pub open spec fn choice_view(r: Result<Choice, OperationError>) -> Result<
    ChoiceView,
    OperationErrorView,
> {
    match r {
        Ok(choice) => Ok(choice@),
        Err(error) => Err(error@),
    }
}

/// What is made of an operation that is skipped: an error where its name is to be written
/// and it has none.
pub open spec fn skipped(
    operation: OperationView,
    source_path: Option<Seq<char>>,
    logged: bool,
    level: NoticeLevel,
    words: Seq<char>,
) -> Result<ChoiceView, OperationErrorView> {
    match operation.name {
        Some(name) => Ok(
            ChoiceView::Skip(Some(NoticeView { level, text: words + name.text })),
        ),
        None => if logged {
            Err(OperationErrorView::MissingName(source_path, operation.text))
        } else {
            Ok(ChoiceView::Skip(None))
        },
    }
}

/// What is done with the one operation of a document. Subscriptions are skipped, and so are
/// mutations unless they are allowed.
pub open spec fn chosen(
    source: Seq<char>,
    definitions: Seq<DefinitionView>,
    allow_mutations: bool,
    source_path: Option<Seq<char>>,
    log: LogLevels,
) -> Result<ChoiceView, OperationErrorView> {
    if operation_count(definitions) == 0 {
        Err(OperationErrorView::NoOperations(source_path))
    } else if operation_count(definitions) > 1 {
        Err(OperationErrorView::TooManyOperations(source_path, operation_count(definitions) as int))
    } else {
        let i = operation_place(definitions);
        let operation = definitions[i]->Operation_0;
        match operation.operation_type {
            OperationType::Subscription => skipped(
                operation,
                source_path,
                log.debug,
                NoticeLevel::Debug,
                "Skipping subscription operation "@,
            ),
            OperationType::Mutation if !allow_mutations => skipped(
                operation,
                source_path,
                log.warn,
                NoticeLevel::Warn,
                "Skipping mutation operation "@,
            ),
            _ => Ok(ChoiceView::Take(operation, text_before(source, definitions, i))),
        }
    }
}

/// The one operation of a document with the text before it, where it is taken.
pub open spec fn selected(
    source: Seq<char>,
    definitions: Seq<DefinitionView>,
    allow_mutations: bool,
    source_path: Option<Seq<char>>,
    log: LogLevels,
) -> Result<Option<(OperationView, Option<Seq<char>>)>, OperationErrorView> {
    match chosen(source, definitions, allow_mutations, source_path, log) {
        Ok(ChoiceView::Take(operation, comments)) => Ok(Some((operation, comments))),
        Ok(ChoiceView::Skip(_)) => Ok(None),
        Err(error) => Err(error),
    }
}

/// What a choice of operation says.
pub open spec fn selection_view(
    r: Result<Option<(OperationDef, Option<String>)>, OperationError>,
) -> Result<Option<(OperationView, Option<Seq<char>>)>, OperationErrorView> {
    match r {
        Ok(Some((operation, comments))) => Ok(Some((operation@, text_of(comments)))),
        Ok(None) => Ok(None),
        Err(error) => Err(error@),
    }
}

/// The name of an operation.
pub fn operation_name(operation: &OperationDef, source_path: Option<String>) -> (r: Result<
    String,
    OperationError,
>)
    ensures
        match r {
            Ok(name) => operation.name is Some && name@ == operation.name->0.text@,
            Err(error) => operation.name is None && error@ == OperationErrorView::MissingName(
                text_of(source_path),
                operation.text@,
            ),
        },
{
    match &operation.name {
        Some(name) => Ok(name.text.clone()),
        None => Err(
            OperationError::MissingName { source_path, operation: operation.text.clone() },
        ),
    }
}

proof fn lemma_place(definitions: Seq<DefinitionView>)
    ensures
        operation_count(definitions) > 0 ==> 0 <= operation_place(definitions) < definitions.len()
            && definitions[operation_place(definitions)] is Operation,
        operation_count(definitions) <= definitions.len(),
    decreases definitions.len(),
{
    if definitions.len() > 0 {
        lemma_place(definitions.drop_last());
    }
}

/// Whether the definitions stand in the source text one after the other.
pub fn do_definitions_fit(source_text: &str, definitions: &Vec<Definition>) -> (r: bool)
    ensures
        r == definitions_fit(source_text@, definition_views(definitions@)),
{
    let ghost views = definition_views(definitions@);
    let mut last: Option<usize> = Some(0);
    let n: usize = definitions.len();
    for i in 0..n
        invariant
            n == definitions@.len(),
            views == definition_views(definitions@),
            i < n ==> text_start(views, i as int) == match last {
                Some(offset) => Some(offset as int),
                None => None,
            },
            forall|j: int| 0 <= j < i ==> #[trigger] text_fits(source_text@, views, j),
    {
        let span = definitions[i].span;
        assert(views[i as int].span() == span);
        if let (Some(start), Some(span)) = (last, span) {
            if !is_bounds(source_text, start, span.start) {
                assert(!text_fits(source_text@, views, i as int));
                return false;
            }
        }
        last = match span {
            Some(span) => Some(span.end),
            None => None,
        };
    }
    true
}

/// Chooses what is done with the one operation among the definitions of a document.
pub fn choose_operation(
    source_text: &str,
    definitions: Vec<Definition>,
    allow_mutations: bool,
    source_path: Option<String>,
    log: LogLevels,
) -> (r: Result<Choice, OperationError>)
    requires
        definitions_fit(source_text@, definition_views(definitions@)),
    ensures
        choice_view(r) == chosen(
            source_text@,
            definition_views(definitions@),
            allow_mutations,
            text_of(source_path),
            log,
        ),
{
    let ghost views = definition_views(definitions@);
    let n: usize = definitions.len();
    let mut rest = definitions;
    let mut count: usize = 0;
    let mut found: Option<(OperationDef, Option<String>)> = None;
    proof {
        lemma_place(views);
        assert(views.take(views.len() as int) =~= views);
    }
    // Taking the definitions from the back: the first operation met is the last one.
    while rest.len() > 0
        invariant
            rest@.len() <= views.len(),
            definition_views(rest@) =~= views.take(rest@.len() as int),
            definitions_fit(source_text@, views),
            count + operation_count(views.take(rest@.len() as int)) == operation_count(views),
            operation_count(views) <= views.len(),
            views.len() == n,
            match found {
                None => count == 0 && operation_place(views) == operation_place(
                    views.take(rest@.len() as int),
                ),
                Some((operation, comments)) => count > 0 && 0 <= operation_place(views)
                    < views.len() && views[operation_place(views)] == DefinitionView::Operation(
                    operation@,
                    views[operation_place(views)].span(),
                ) && text_of(comments) == text_before(source_text@, views, operation_place(views)),
            },
        decreases rest@.len(),
    {
        let ghost k = rest@.len() - 1;
        proof {
            assert(views.take(k + 1).drop_last() =~= views.take(k));
            assert(views.take(k + 1).last() == views[k]);
            assert(definition_views(rest@)[k] == rest@[k]@);
            assert(rest@.last() == rest@[k]);
        }
        let definition = rest.pop().unwrap();
        assert(text_fits(source_text@, views, k));
        if let DefinitionKind::Operation(operation) = definition.kind {
            proof {
                lemma_place(views.take(k));
            }
            count = count + 1;
            if found.is_none() {
                let start: Option<usize> = if rest.len() == 0 {
                    Some(0)
                } else {
                    let previous = &rest[rest.len() - 1];
                    assert(definition_views(rest@)[k - 1] == previous@);
                    match previous.span {
                        Some(span) => Some(span.end),
                        None => None,
                    }
                };
                let comments = match (start, definition.span) {
                    (Some(start), Some(span)) => Some(
                        slice(source_text, start, span.start).to_owned(),
                    ),
                    _ => None,
                };
                found = Some((operation, comments));
            }
        }
    }
    match found {
        None => Err(OperationError::NoOperations { source_path }),
        Some((operation, comments)) => {
            if count > 1 {
                return Err(OperationError::TooManyOperations { source_path, count });
            }
            match operation.operation_type {
                OperationType::Subscription => skip_operation(
                    &operation,
                    source_path,
                    log.debug,
                    NoticeLevel::Debug,
                    "Skipping subscription operation ",
                ),
                OperationType::Mutation if !allow_mutations => skip_operation(
                    &operation,
                    source_path,
                    log.warn,
                    NoticeLevel::Warn,
                    "Skipping mutation operation ",
                ),
                _ => Ok(Choice::Take(operation, comments)),
            }
        },
    }
}

/// What is made of an operation that is skipped.
fn skip_operation(
    operation: &OperationDef,
    source_path: Option<String>,
    logged: bool,
    level: NoticeLevel,
    words: &str,
) -> (r: Result<Choice, OperationError>)
    ensures
        choice_view(r) == skipped(operation@, text_of(source_path), logged, level, words@),
{
    match operation_name(operation, source_path) {
        Ok(name) => {
            let mut text = words.to_owned();
            text.append(name.as_str());
            Ok(Choice::Skip(Some(Notice { level, text })))
        },
        Err(error) => if logged {
            Err(error)
        } else {
            Ok(Choice::Skip(None))
        },
    }
}

/// The one operation among the definitions of a document, with the text before it.
pub fn select_operation(
    source_text: &str,
    definitions: Vec<Definition>,
    allow_mutations: bool,
    source_path: Option<String>,
    log: LogLevels,
) -> (r: Result<Option<(OperationDef, Option<String>)>, OperationError>)
    requires
        definitions_fit(source_text@, definition_views(definitions@)),
    ensures
        selection_view(r) == selected(
            source_text@,
            definition_views(definitions@),
            allow_mutations,
            text_of(source_path),
            log,
        ),
{
    match choose_operation(source_text, definitions, allow_mutations, source_path, log) {
        Ok(Choice::Take(operation, comments)) => Ok(Some((operation, comments))),
        Ok(Choice::Skip(_)) => Ok(None),
        Err(error) => Err(error),
    }
}

/// The message where a definition does not stand where the parser says.
pub open spec fn misplaced_definition() -> OperationErrorView {
    OperationErrorView::Internal("A definition is not where the parser says"@)
}

/// The path that stands for a source without one.
pub open spec fn shown_path(source_path: Option<Seq<char>>) -> Seq<char> {
    match source_path {
        Some(path) => path,
        None => "operation.graphql"@,
    }
}

/// The definitions of a source text, of which the parser says what it holds.
pub open spec fn read_definitions(
    source: Seq<char>,
    definitions: Option<Seq<DefinitionView>>,
    source_path: Option<Seq<char>>,
) -> Result<Seq<DefinitionView>, OperationErrorView> {
    match definitions {
        None => Err(OperationErrorView::GraphQLDocument(shown_path(source_path), source)),
        Some(definitions) => if definitions_fit(source, definitions) {
            Ok(definitions)
        } else {
            Err(misplaced_definition())
        },
    }
}

/// What is made of a source text, of which the parser says what it holds.
pub open spec fn outcome(
    source: Seq<char>,
    definitions: Option<Seq<DefinitionView>>,
    allow_mutations: bool,
    source_path: Option<Seq<char>>,
    log: LogLevels,
) -> Result<Option<(OperationView, Option<Seq<char>>)>, OperationErrorView> {
    match read_definitions(source, definitions, source_path) {
        Ok(definitions) => selected(source, definitions, allow_mutations, source_path, log),
        Err(error) => Err(error),
    }
}

/// A document that has been read, with its definitions.
pub struct ReadDocument {
    pub document: Document,
    pub definitions: Vec<Definition>,
}

/// Parses a source text.
pub fn read_document(source_text: &str, source_path: &Option<String>) -> (r: Result<
    ReadDocument,
    OperationError,
>)
    requires
        byte_len(source_text@) <= SOURCE_LIMIT,
    ensures
        match (
            read_definitions(source_text@, parsed(source_text@), text_of(*source_path)),
            r,
        ) {
            (Ok(definitions), Ok(read)) => definition_views(read.definitions@) == definitions
                && definitions_of(read.document) == definitions,
            (Err(expected), Err(error)) => error@ == expected,
            _ => false,
        },
{
    let path = match source_path {
        Some(path) => path.clone(),
        None => "operation.graphql".to_owned(),
    };
    let document = match document::parse_ast(source_text, path) {
        Ok(document) => document,
        Err(errors) => return Err(OperationError::GraphQLDocument(Box::new(errors))),
    };
    let definitions = document::definitions(&document);
    if !do_definitions_fit(source_text, &definitions) {
        return Err(
            OperationError::Internal("A definition is not where the parser says".to_owned()),
        );
    }
    Ok(ReadDocument { document, definitions })
}

/// How many of the definitions are neither operations nor fragments.
pub open spec fn other_count(definitions: Seq<DefinitionView>) -> nat {
    definitions.filter(|definition: DefinitionView| definition is Other).len()
}

/// How many of the definitions are neither operations nor fragments.
pub fn count_other_definitions(definitions: &Vec<Definition>) -> (count: usize)
    ensures
        count == other_count(definition_views(definitions@)),
{
    let ghost views = definition_views(definitions@);
    let mut count: usize = 0;
    let n: usize = definitions.len();
    proof {
        reveal(Seq::filter);
        assert(views.take(0) =~= Seq::empty());
    }
    for i in 0..n
        invariant
            n == definitions@.len(),
            views == definition_views(definitions@),
            count == other_count(views.take(i as int)),
            count <= i,
    {
        proof {
            reveal(Seq::filter);
            assert(views.take(i + 1).drop_last() =~= views.take(i as int));
            assert(views.take(i + 1).last() == definitions@[i as int]@);
        }
        if let DefinitionKind::Other = definitions[i].kind {
            count = count + 1;
        }
    }
    assert(views.take(n as int) =~= views);
    count
}

/// What a parsed operation says.
pub open spec fn parsed_view(r: Result<Option<ParsedOperation>, OperationError>) -> Result<
    Option<(OperationView, Option<Seq<char>>)>,
    OperationErrorView,
> {
    match r {
        Ok(Some(parsed)) => Ok(Some((parsed.operation@, text_of(parsed.comments)))),
        Ok(None) => Ok(None),
        Err(error) => Err(error@),
    }
}

/// Parses exactly one GraphQL operation and filters disallowed operation types.
///
/// This performs syntactic parsing only; it does not validate the executable document
/// against a schema.
pub fn operation_defs(
    source_text: &str,
    allow_mutations: bool,
    source_path: Option<String>,
    log: LogLevels,
) -> (r: Result<Option<ParsedOperation>, OperationError>)
    requires
        byte_len(source_text@) <= SOURCE_LIMIT,
    ensures
        parsed_view(r) == outcome(
            source_text@,
            parsed(source_text@),
            allow_mutations,
            text_of(source_path),
            log,
        ),
        r is Ok && r->Ok_0 is Some ==> parsed(source_text@) == Some(
            definitions_of(r->Ok_0->0.document),
        ),
{
    let ReadDocument { document, definitions } = match read_document(source_text, &source_path) {
        Ok(read) => read,
        Err(error) => return Err(error),
    };
    match select_operation(source_text, definitions, allow_mutations, source_path, log) {
        Ok(Some((operation, comments))) => Ok(
            Some(ParsedOperation { document, operation, comments }),
        ),
        Ok(None) => Ok(None),
        Err(error) => Err(error),
    }
}

/// What is selected is the only operation of the document. It is no subscription, and no
/// mutation unless they are allowed.
pub proof fn law_only_allowed_operations_are_selected(
    source: Seq<char>,
    definitions: Seq<DefinitionView>,
    allow_mutations: bool,
    source_path: Option<Seq<char>>,
    log: LogLevels,
)
    ensures
        match selected(source, definitions, allow_mutations, source_path, log) {
            Ok(Some((operation, _))) => {
                &&& operation_count(definitions) == 1
                &&& operation.operation_type != OperationType::Subscription
                &&& operation.operation_type == OperationType::Mutation ==> allow_mutations
                &&& exists|i: int|
                    0 <= i < definitions.len() && (#[trigger] definitions[i]) is Operation
                        && definitions[i]->Operation_0 == operation
            },
            _ => true,
        },
{
    lemma_place(definitions);
}

/// Whether the operation at a place is the only one of the definitions.
pub open spec fn is_only_operation(definitions: Seq<DefinitionView>, i: int) -> bool {
    &&& 0 <= i < definitions.len()
    &&& definitions[i] is Operation
    &&& forall|j: int|
        0 <= j < definitions.len() && j != i ==> !((#[trigger] definitions[j]) is Operation)
}

/// The only operation is the one that is looked at.
pub(crate) proof fn lemma_only_operation(definitions: Seq<DefinitionView>)
    ensures
        operation_count(definitions) == definitions.filter(
            |definition: DefinitionView| definition is Operation,
        ).len(),
        operation_count(definitions) == 0 <==> forall|j: int|
            0 <= j < definitions.len() ==> !((#[trigger] definitions[j]) is Operation),
        operation_count(definitions) == 1 <==> exists|i: int|
            #[trigger] is_only_operation(definitions, i),
        forall|i: int| #[trigger]
            is_only_operation(definitions, i) ==> operation_place(definitions) == i,
    decreases definitions.len(),
{
    reveal(Seq::filter);
    let n = definitions.len();
    if n > 0 {
        let front = definitions.drop_last();
        let last = definitions.last();
        lemma_only_operation(front);
        assert(definitions[n - 1] == last);
        assert(forall|j: int| 0 <= j < front.len() ==> #[trigger] front[j] == definitions[j]);
        if operation_count(front) == 0 {
            assert forall|j: int| 0 <= j < n - 1 implies !((
            #[trigger] definitions[j]) is Operation) by {
                assert(!(front[j] is Operation));
            }
        } else {
            lemma_place(front);
            let k = operation_place(front);
            assert(definitions[k] is Operation);
        }
        assert forall|i: int| #[trigger] is_only_operation(definitions, i) implies operation_place(
            definitions,
        ) == i && operation_count(definitions) == 1 by {
            if i < n - 1 {
                assert(!(definitions[n - 1] is Operation));
                assert forall|j: int| 0 <= j < front.len() && j != i implies !((
                #[trigger] front[j]) is Operation) by {
                    assert(definitions[j] == front[j]);
                }
                assert(is_only_operation(front, i));
            } else {
                assert forall|j: int| 0 <= j < front.len() implies !((
                #[trigger] front[j]) is Operation) by {
                    assert(!(definitions[j] is Operation));
                }
            }
        }
        if operation_count(definitions) == 1 {
            if last is Operation {
                assert(is_only_operation(definitions, n - 1));
            } else {
                let i = choose|i: int| #[trigger] is_only_operation(front, i);
                assert forall|j: int| 0 <= j < n && j != i implies !((
                #[trigger] definitions[j]) is Operation) by {
                    if j < n - 1 {
                        assert(!(front[j] is Operation));
                    }
                }
                assert(is_only_operation(definitions, i));
            }
        }
    } else {
        assert forall|i: int| !(#[trigger] is_only_operation(definitions, i)) by {}
    }
}

/// A document without an operation is refused, and so is one with more than one; the error tells
/// how many there are.
pub proof fn law_exactly_one_operation(
    source: Seq<char>,
    definitions: Seq<DefinitionView>,
    allow_mutations: bool,
    source_path: Option<Seq<char>>,
    log: LogLevels,
    i: int,
    j: int,
)
    ensures
        (forall|k: int| 0 <= k < definitions.len() ==> !((#[trigger] definitions[k]) is Operation))
            ==> chosen(source, definitions, allow_mutations, source_path, log) == Err::<
            ChoiceView,
            OperationErrorView,
        >(OperationErrorView::NoOperations(source_path)),
        0 <= i < j < definitions.len() && definitions[i] is Operation && definitions[j] is Operation
            ==> chosen(source, definitions, allow_mutations, source_path, log) == Err::<
            ChoiceView,
            OperationErrorView,
        >(
            OperationErrorView::TooManyOperations(
                source_path,
                definitions.filter(|definition: DefinitionView| definition is Operation).len()
                    as int,
            ),
        ),
{
    lemma_only_operation(definitions);
    if 0 <= i < j < definitions.len() && definitions[i] is Operation
        && definitions[j] is Operation {
        assert(operation_count(definitions) != 0);
        if operation_count(definitions) == 1 {
            let k = choose|k: int| #[trigger] is_only_operation(definitions, k);
            assert(i == k || !(definitions[i] is Operation));
            assert(j == k || !(definitions[j] is Operation));
        }
    }
}

/// The only operation of a document is taken if it is a query, or a mutation and mutations are
/// allowed. Its comment is the text before it, from the end of the definition before it on, or
/// from the start of the text; nothing is known of it where one of these places is not.
pub proof fn law_operations_that_are_taken(
    source: Seq<char>,
    definitions: Seq<DefinitionView>,
    allow_mutations: bool,
    source_path: Option<Seq<char>>,
    log: LogLevels,
    i: int,
    operation: OperationView,
    span: Option<Span>,
)
    requires
        is_only_operation(definitions, i),
        definitions[i] == DefinitionView::Operation(operation, span),
    ensures
        (operation.operation_type == OperationType::Query || (operation.operation_type
            == OperationType::Mutation && allow_mutations)) <==> (chosen(
            source,
            definitions,
            allow_mutations,
            source_path,
            log,
        ) is Ok && chosen(source, definitions, allow_mutations, source_path, log)->Ok_0 is Take),
        operation.operation_type == OperationType::Query || (operation.operation_type
            == OperationType::Mutation && allow_mutations) ==> chosen(
            source,
            definitions,
            allow_mutations,
            source_path,
            log,
        ) == Ok::<ChoiceView, OperationErrorView>(
            ChoiceView::Take(
                operation,
                match span {
                    Some(place) => if i == 0 {
                        Some(part(source, 0, place.start as int))
                    } else {
                        match definitions[i - 1] {
                            DefinitionView::Operation(_, Some(before)) => Some(
                                part(source, before.end as int, place.start as int),
                            ),
                            DefinitionView::Fragment(Some(before)) => Some(
                                part(source, before.end as int, place.start as int),
                            ),
                            DefinitionView::Other(Some(before)) => Some(
                                part(source, before.end as int, place.start as int),
                            ),
                            _ => None,
                        }
                    },
                    None => None,
                },
            ),
        ),
{
    lemma_only_operation(definitions);
}

/// The only operation of a document is skipped if it is a subscription, or a mutation and
/// mutations are not allowed. It is told of by name. One without a name is an error where the
/// message is written, and is skipped in silence where it is not.
pub proof fn law_operations_that_are_skipped(
    source: Seq<char>,
    definitions: Seq<DefinitionView>,
    source_path: Option<Seq<char>>,
    log: LogLevels,
    allow_mutations: bool,
    i: int,
    operation: OperationView,
    span: Option<Span>,
)
    requires
        is_only_operation(definitions, i),
        definitions[i] == DefinitionView::Operation(operation, span),
    ensures
        operation.operation_type == OperationType::Subscription && operation.name is Some
            ==> chosen(source, definitions, allow_mutations, source_path, log) == Ok::<
            ChoiceView,
            OperationErrorView,
        >(
            ChoiceView::Skip(
                Some(
                    NoticeView {
                        level: NoticeLevel::Debug,
                        text: "Skipping subscription operation "@ + operation.name->0.text,
                    },
                ),
            ),
        ),
        operation.operation_type == OperationType::Mutation && operation.name is Some ==> chosen(
            source,
            definitions,
            false,
            source_path,
            log,
        ) == Ok::<ChoiceView, OperationErrorView>(
            ChoiceView::Skip(
                Some(
                    NoticeView {
                        level: NoticeLevel::Warn,
                        text: "Skipping mutation operation "@ + operation.name->0.text,
                    },
                ),
            ),
        ),
        operation.operation_type == OperationType::Subscription && operation.name is None
            ==> chosen(source, definitions, allow_mutations, source_path, log) == if log.debug {
            Err(OperationErrorView::MissingName(source_path, operation.text))
        } else {
            Ok(ChoiceView::Skip(None))
        },
        operation.operation_type == OperationType::Mutation && operation.name is None ==> chosen(
            source,
            definitions,
            false,
            source_path,
            log,
        ) == if log.warn {
            Err(OperationErrorView::MissingName(source_path, operation.text))
        } else {
            Ok(ChoiceView::Skip(None))
        },
{
    lemma_only_operation(definitions);
}

/// What is selected is what is taken: what is skipped gives nothing, and errors stay.
pub proof fn law_selection_follows_the_choice(
    source: Seq<char>,
    definitions: Seq<DefinitionView>,
    allow_mutations: bool,
    source_path: Option<Seq<char>>,
    log: LogLevels,
    operation: OperationView,
    comments: Option<Seq<char>>,
    notice: Option<NoticeView>,
    error: OperationErrorView,
)
    ensures
        ({
            let choice = chosen(source, definitions, allow_mutations, source_path, log);
            let result = selected(source, definitions, allow_mutations, source_path, log);
            &&& choice == Ok::<ChoiceView, OperationErrorView>(
                ChoiceView::Take(operation, comments),
            ) ==> result == Ok::<
                Option<(OperationView, Option<Seq<char>>)>,
                OperationErrorView,
            >(Some((operation, comments)))
            &&& choice == Ok::<ChoiceView, OperationErrorView>(ChoiceView::Skip(notice)) ==> result
                == Ok::<Option<(OperationView, Option<Seq<char>>)>, OperationErrorView>(None)
            &&& choice == Err::<ChoiceView, OperationErrorView>(error) ==> result == Err::<
                Option<(OperationView, Option<Seq<char>>)>,
                OperationErrorView,
            >(error)
        }),
{
}

/// A text that is no GraphQL document is an error that tells of the text, under its path or
/// under "operation.graphql". A document is read with all its definitions, as they stand one
/// after the other in the text; only where they do not, that is an error.
pub proof fn law_documents_are_read(
    source: Seq<char>,
    definitions: Seq<DefinitionView>,
    source_path: Option<Seq<char>>,
    allow_mutations: bool,
    log: LogLevels,
)
    ensures
        read_definitions(source, None, source_path) == Err::<
            Seq<DefinitionView>,
            OperationErrorView,
        >(
            OperationErrorView::GraphQLDocument(
                match source_path {
                    Some(path) => path,
                    None => "operation.graphql"@,
                },
                source,
            ),
        ),
        outcome(source, None, allow_mutations, source_path, log) is Err,
        definitions_fit(source, definitions) ==> read_definitions(
            source,
            Some(definitions),
            source_path,
        ) == Ok::<Seq<DefinitionView>, OperationErrorView>(definitions),
        definitions_fit(source, definitions) ==> outcome(
            source,
            Some(definitions),
            allow_mutations,
            source_path,
            log,
        ) == selected(source, definitions, allow_mutations, source_path, log),
        !definitions_fit(source, definitions) ==> read_definitions(
            source,
            Some(definitions),
            source_path,
        ) == Err::<Seq<DefinitionView>, OperationErrorView>(
            OperationErrorView::Internal("A definition is not where the parser says"@),
        ),
{
}

/// Definitions fit in a text where each starts in it, at a character, and not before the end of
/// the one before it, as far as these places are known.
pub proof fn law_definitions_fit(source: Seq<char>, definitions: Seq<DefinitionView>)
    ensures
        (forall|i: int|
            #![trigger definitions[i]]
            0 <= i < definitions.len() && definitions[i].span() is Some && (i == 0
                || definitions[i - 1].span() is Some) ==> {
                let start = if i == 0 {
                    0
                } else {
                    definitions[i - 1].span()->0.end as int
                };
                let end = definitions[i].span()->0.start as int;
                &&& start <= end
                &&& is_char_boundary(encode_utf8(source), start)
                &&& is_char_boundary(encode_utf8(source), end)
            }) <==> definitions_fit(source, definitions),
{
    if definitions_fit(source, definitions) {
        assert forall|i: int|
            #![trigger definitions[i]]
            0 <= i < definitions.len() && definitions[i].span() is Some && (i == 0
                || definitions[i - 1].span() is Some) implies ({
            let start = if i == 0 {
                0
            } else {
                definitions[i - 1].span()->0.end as int
            };
            let end = definitions[i].span()->0.start as int;
            &&& start <= end
            &&& is_char_boundary(encode_utf8(source), start)
            &&& is_char_boundary(encode_utf8(source), end)
        }) by {
            assert(text_fits(source, definitions, i));
        }
    } else {
        let i = choose|i: int|
            0 <= i < definitions.len() && !(#[trigger] text_fits(source, definitions, i));
        assert(definitions[i].span() is Some);
    }
}

/// Each definition that is neither an operation nor a fragment is counted, and no other.
pub proof fn law_other_definitions_are_counted(
    definitions: Seq<DefinitionView>,
    definition: DefinitionView,
)
    ensures
        other_count(Seq::empty()) == 0,
        other_count(definitions.push(definition)) == match definition {
            DefinitionView::Operation(_, _) => other_count(definitions),
            DefinitionView::Fragment(_) => other_count(definitions),
            DefinitionView::Other(_) => other_count(definitions) + 1,
        },
{
    reveal(Seq::filter);
    assert(definitions.push(definition).drop_last() =~= definitions);
}

} // verus!
