//! The requests that an operation makes.

use crate::json::{self, Json, Object, Ordered, Parts};
use crate::notice::{notice_views, Notice, NoticeLevel, NoticeView};
use crate::operation::headers::{
    headers_in, merged_headers, no_headers, overwrites, overwritten_headers, own_headers,
    request_headers, HEADER_LIMIT,
};
use crate::operation::load::keeps_private_fields;
use crate::operation::{tree_view, Analysis, Operation, PrivateFieldTree, RawOperation};
use crate::schema_walker::layout::Entries;
use crate::text::views;
use http::header::MaxSizeReached;
use http::{HeaderMap, HeaderValue};
use serde_json::Value;
use vstd::prelude::*;

verus! {

/// Why a request is refused.
#[derive(Debug)]
pub struct ValidationError(pub String);

/// The document of a request.
#[derive(Debug)]
pub struct OperationDetails {
    pub query: String,
    pub operation_name: Option<String>,
    pub private_fields: Option<PrivateFieldTree>,
}

/// The variables that a caller gives, in order: an object, or null for none.
pub open spec fn caller_variables(input: Ordered) -> Option<Entries> {
    match input {
        Ordered::Null => Some(json::no_entries()),
        Ordered::Object(entries) => Some(entries),
        _ => None,
    }
}

/// Whether this is the first of an operation's variables that the caller gives.
pub open spec fn first_conflict(given: Entries, own: Entries, i: int) -> bool {
    &&& 0 <= i < own.len()
    &&& json::has_member(given, own[i].0)
    &&& forall|j: int| 0 <= j < i ==> !json::has_member(given, (#[trigger] own[j]).0)
}

/// Whether the caller gives none of an operation's variables.
pub open spec fn no_conflict(given: Entries, own: Entries) -> bool {
    forall|i: int| 0 <= i < own.len() ==> !json::has_member(given, (#[trigger] own[i]).0)
}

/// Whether the message tells of the first of an operation's variables that the caller gives.
pub open spec fn tells_of_conflict(message: Seq<char>, given: Entries, own: Entries) -> bool {
    exists|i: int| #[trigger]
        first_conflict(given, own, i) && message == conflict_message(own[i].0)
}

/// Whether the result is what is made of the variables that a caller gives.
pub open spec fn sends_variables(
    operation: Operation,
    input_variables: Value,
    r: Result<Value, ValidationError>,
) -> bool {
    match operation.inner.variables {
        None => r == Ok::<Value, ValidationError>(input_variables),
        Some(defined) => match caller_variables(json::ordered(input_variables)) {
            None => r is Err && r->Err_0.0@ == "Variables must be a JSON object or null"@,
            Some(given) => match r {
                Ok(value) => {
                    &&& no_conflict(given, json::ordered_members(defined))
                    &&& json::ordered(value) == Ordered::Object(
                        given + json::ordered_members(defined),
                    )
                    &&& json::json(value) == Json::Object(
                        json::plain_members(given).union_prefer_right(
                            json::members(defined),
                        ),
                    )
                },
                Err(error) => tells_of_conflict(
                    error.0@,
                    given,
                    json::ordered_members(defined),
                ),
            },
        },
    }
}

/// Which names have members once some of the operation's variables stand behind the caller's.
proof fn lemma_sent_so_far(given: Entries, own: Entries, i: int)
    requires
        0 <= i <= own.len(),
    ensures
        forall|name: Seq<char>| #[trigger]
            json::has_member(given + own.take(i), name) <==> json::has_member(given, name)
                || exists|j: int| 0 <= j < i && (#[trigger] own[j]).0 == name,
{
    let both = given + own.take(i);
    assert forall|name: Seq<char>| #[trigger]
        json::has_member(both, name) <==> json::has_member(given, name) || exists|j: int|
            0 <= j < i && (#[trigger] own[j]).0 == name by {
        if json::has_member(both, name) {
            let k = choose|k: int| 0 <= k < both.len() && (#[trigger] both[k]).0 == name;
            if k < given.len() {
                assert(given[k].0 == name);
            } else {
                assert(own[k - given.len()].0 == name);
            }
        }
        if json::has_member(given, name) {
            let k = choose|k: int| 0 <= k < given.len() && (#[trigger] given[k]).0 == name;
            assert(both[k].0 == name);
        }
        if exists|j: int| 0 <= j < i && (#[trigger] own[j]).0 == name {
            let j = choose|j: int| 0 <= j < i && (#[trigger] own[j]).0 == name;
            assert(both[given.len() + j].0 == name);
        }
    }
}

/// The message that tells of a variable that the caller gave and the operation defines.
pub open spec fn conflict_message(name: Seq<char>) -> Seq<char> {
    "Parameter '"@ + name + "' conflicts with operation-defined variable"@
}

/// The notice of a header that is there already and that an operation's takes the place of.
pub open spec fn overwrite_notice(name: Seq<char>) -> NoticeView {
    NoticeView {
        level: NoticeLevel::Debug,
        text: "Header "@ + name + " has a default value, overwriting with operation value"@,
    }
}

/// The notices of the headers of those names.
pub open spec fn overwrite_notices(names: Seq<Seq<char>>) -> Seq<NoticeView> {
    names.map_values(|name: Seq<char>| overwrite_notice(name))
}

/// The document that is sent: the text without the marks of private fields where there are
/// any, else the source text.
pub open spec fn sent_text(operation: Operation) -> Seq<char> {
    match operation.stripped_source_text {
        Some(text) => text@,
        None => operation.inner.source_text@,
    }
}

impl Operation {
    /// The document that is sent: the text without the marks of private fields where there
    /// are any, else the source text. What the caller gives does not select it.
    pub fn operation(&self, _input: Value) -> (r: Result<OperationDetails, ValidationError>)
        ensures
            r is Ok,
            r->Ok_0.query@ == sent_text(*self),
            r->Ok_0.operation_name is Some,
            r->Ok_0.operation_name->0@ == self.operation_name@,
            tree_view(r->Ok_0.private_fields) == tree_view(self.private_fields),
    {
        Ok(
            OperationDetails {
                query: match &self.stripped_source_text {
                    Some(text) => text.clone(),
                    None => self.inner.source_text.clone(),
                },
                operation_name: Some(self.operation_name.clone()),
                private_fields: match &self.private_fields {
                    Some(tree) => Some(tree.clone()),
                    None => None,
                },
            },
        )
    }

    /// The variables that are sent: those of the caller, and behind them those that the
    /// operation defines, which the caller may not give.
    pub fn variables(&self, input_variables: Value) -> (r: Result<Value, ValidationError>)
        ensures
            sends_variables(*self, input_variables, r),
    {
        let defined = match &self.inner.variables {
            Some(defined) => defined,
            None => return Ok(input_variables),
        };
        let mut variables = match json::into_parts(input_variables) {
            Parts::Null => json::new_object(),
            Parts::Object(object) => object,
            _ => return Err(
                ValidationError("Variables must be a JSON object or null".to_owned()),
            ),
        };
        let ghost given = json::ordered_members(variables);
        let ghost own = json::ordered_members(*defined);
        let list = json::entries(defined);
        let n: usize = list.len();
        assert(given + own.take(0) =~= given);
        for i in 0..n
            invariant
                n == list@.len(),
                n == own.len(),
                self.inner.variables == Some(*defined),
                own == json::ordered_members(*defined),
                caller_variables(json::ordered(input_variables)) == Some(given),
                forall|j: int|
                    0 <= j < n ==> own[j] == (
                        (#[trigger] list@[j]).0@,
                        json::ordered(*list@[j].1),
                    ),
                forall|j: int, k: int|
                    0 <= j < k < n ==> (#[trigger] list@[j]).0@ != (#[trigger] list@[k]).0@,
                forall|j: int| 0 <= j < i ==> !json::has_member(given, (#[trigger] own[j]).0),
                json::ordered_members(variables) == given + own.take(i as int),
        {
            let (key, value) = list[i];
            let ghost before = json::ordered_members(variables);
            proof {
                assert(own[i as int] == (list@[i as int].0@, json::ordered(*list@[i as int].1)));
                lemma_sent_so_far(given, own, i as int);
                json::lemma_members(variables);
                json::lemma_has(before, key@);
                assert forall|j: int| 0 <= j < i implies (#[trigger] own[j]).0 != key@ by {
                    assert(own[j].0 == list@[j].0@);
                }
            }
            if json::get(&variables, key.as_str()).is_some() {
                let mut message = "Parameter '".to_owned();
                message.append(key.as_str());
                message.append("' conflicts with operation-defined variable");
                assert(message@ == conflict_message(key@));
                proof {
                    assert(first_conflict(given, own, i as int));
                    assert(tells_of_conflict(message@, given, own));
                }
                return Err(ValidationError(message));
            }
            json::insert(&mut variables, key.clone(), json::clone_value(value));
            proof {
                assert(before.push(own[i as int]) =~= given + own.take(i + 1));
            }
        }
        proof {
            assert(own.take(n as int) =~= own);
            json::lemma_members(*defined);
            json::lemma_members(variables);
            json::lemma_plain_add(given, own);
        }
        Ok(json::object(variables))
    }

    /// The headers that are sent: those of the operation, and the default ones that it does
    /// not have.
    pub fn headers(&self, default_headers: &HeaderMap<HeaderValue>) -> (r: Result<
        HeaderMap<HeaderValue>,
        MaxSizeReached,
    >)
        ensures
            ({
                let merged = merged_headers(
                    own_headers(self.inner.headers),
                    headers_in(*default_headers),
                );
                match r {
                    Ok(headers) => headers_in(headers) == merged,
                    Err(_) => merged.dom().len() >= HEADER_LIMIT,
                }
            }),
            self.inner.headers is None || headers_in(*default_headers) == no_headers() ==> r is Ok,
    {
        request_headers(&self.inner.headers, default_headers)
    }

    /// What is to be told of the headers that are sent: each value of the operation's that takes
    /// the place of one that is there already.
    pub fn header_notices(&self, default_headers: &HeaderMap<HeaderValue>) -> (r: Vec<Notice>)
        ensures
            exists|names: Seq<Seq<char>>|
                notice_views(r@) == #[trigger] overwrite_notices(names) && forall|name: Seq<char>|
                    #[trigger] names.to_multiset().count(name) == overwrites(
                        own_headers(self.inner.headers),
                        headers_in(*default_headers),
                        name,
                    ),
    {
        let names = overwritten_headers(&self.inner.headers, default_headers);
        let ghost texts = views(names@);
        let mut r: Vec<Notice> = Vec::new();
        let n: usize = names.len();
        for i in 0..n
            invariant
                n == names@.len(),
                texts == views(names@),
                r@.len() == i,
                forall|j: int| 0 <= j < i ==> (#[trigger] r@[j])@ == overwrite_notice(texts[j]),
        {
            let mut text = "Header ".to_owned();
            text.append(names[i].as_str());
            text.append(" has a default value, overwriting with operation value");
            assert(text@ == overwrite_notice(texts[i as int]).text);
            r.push(Notice { level: NoticeLevel::Debug, text });
        }
        assert(notice_views(r@) =~= overwrite_notices(texts));
        r
    }
}

/// Marks of private fields are never sent: the document that is sent for an operation with
/// private fields is the one without the marks, and the private fields go with it. Without
/// private fields it is the source text.
pub proof fn law_private_marks_are_not_sent(
    operation: Operation,
    raw: RawOperation,
    analysis: Analysis,
)
    requires
        operation.inner == raw,
        keeps_private_fields(operation, analysis),
    ensures
        sent_text(operation) == if analysis.private_fields@.len() > 0 {
            analysis.stripped_source_text@
        } else {
            raw.source_text@
        },
        tree_view(operation.private_fields) == if analysis.private_fields@.len() > 0 {
            Some(analysis.private_fields@)
        } else {
            None
        },
{
}

/// Where the operation defines variables, every object that the caller gives, the empty one too,
/// and null are taken, unless the caller gives one of those variables: then the caller's
/// members are sent, and behind them the operation's. Any other value is refused.
pub proof fn law_variables_are_joined(
    operation: Operation,
    input: Value,
    own: Object,
    given: Entries,
    r: Result<Value, ValidationError>,
)
    requires
        sends_variables(operation, input, r),
        operation.inner.variables == Some(own),
    ensures
        ({
            let conflict = exists|i: int, j: int|
                #![trigger given[i], json::ordered_members(own)[j]]
                0 <= i < given.len() && 0 <= j < json::ordered_members(own).len() && given[i].0
                    == json::ordered_members(own)[j].0;
            let taken = json::ordered(input) == Ordered::Object(given) || (json::ordered(input)
                == Ordered::Null && given == Seq::<(Seq<char>, Ordered)>::empty());
            &&& taken && !conflict ==> r is Ok && json::ordered(r->Ok_0) == Ordered::Object(
                given + json::ordered_members(own),
            )
            &&& taken && conflict ==> r is Err
            &&& !(json::ordered(input) is Object) && !(json::ordered(input) is Null) ==> r is Err
                && r->Err_0.0@ == "Variables must be a JSON object or null"@
        }),
{
    let all = json::ordered_members(own);
    if json::ordered(input) == Ordered::Object(given) || (json::ordered(input) == Ordered::Null
        && given == Seq::<(Seq<char>, Ordered)>::empty()) {
        assert(given =~= caller_variables(json::ordered(input))->0);
        if r is Ok {
            assert forall|i: int, j: int|
                #![trigger given[i], all[j]]
                0 <= i < given.len() && 0 <= j < all.len() implies given[i].0 != all[j].0 by {
                assert(!json::has_member(given, all[j].0));
            }
        } else {
            let j = choose|j: int| #[trigger]
                first_conflict(given, all, j) && r->Err_0.0@ == conflict_message(all[j].0);
            let i = choose|i: int| 0 <= i < given.len() && (#[trigger] given[i]).0 == all[j].0;
            assert(given[i].0 == all[j].0);
        }
    }
}

/// The message of a refusal names a variable that both give, and of those the first of the
/// operation's.
pub proof fn law_conflict_is_named(
    operation: Operation,
    input: Value,
    own: Object,
    given: Entries,
    r: Result<Value, ValidationError>,
)
    requires
        sends_variables(operation, input, r),
        operation.inner.variables == Some(own),
        json::ordered(input) == Ordered::Object(given),
        r is Err,
    ensures
        exists|i: int, j: int|
            #![trigger given[i], json::ordered_members(own)[j]]
            0 <= i < given.len() && 0 <= j < json::ordered_members(own).len() && given[i].0
                == json::ordered_members(own)[j].0 && r->Err_0.0@ == "Parameter '"@
                + json::ordered_members(own)[j].0 + "' conflicts with operation-defined variable"@
                && forall|k: int, l: int|
                #![trigger given[k], json::ordered_members(own)[l]]
                0 <= k < given.len() && 0 <= l < j ==> given[k].0 != json::ordered_members(
                    own,
                )[l].0,
{
    let all = json::ordered_members(own);
    let j = choose|j: int| #[trigger]
        first_conflict(given, all, j) && r->Err_0.0@ == conflict_message(all[j].0);
    let i = choose|i: int| 0 <= i < given.len() && (#[trigger] given[i]).0 == all[j].0;
    assert(given[i].0 == all[j].0);
    assert forall|k: int, l: int|
        #![trigger given[k], all[l]]
        0 <= k < given.len() && 0 <= l < j implies given[k].0 != all[l].0 by {
        assert(!json::has_member(given, all[l].0));
    }
}

/// Where the operation defines no variables, whatever the caller gives is sent.
pub proof fn law_variables_are_passed_on(
    operation: Operation,
    input: Value,
    r: Result<Value, ValidationError>,
)
    requires
        sends_variables(operation, input, r),
        operation.inner.variables is None,
    ensures
        r == Ok::<Value, ValidationError>(input),
{
}

/// The document that is sent is the text without the marks of private fields where it is kept,
/// else the source text.
pub proof fn law_sent_text(operation: Operation)
    ensures
        operation.stripped_source_text is Some ==> sent_text(operation)
            == operation.stripped_source_text->0@,
        operation.stripped_source_text is None ==> sent_text(operation)
            == operation.inner.source_text@,
{
}

/// The notice of an overwritten header names it and is for debugging.
pub proof fn law_overwrite_notices(names: Seq<Seq<char>>, i: int)
    requires
        0 <= i < names.len(),
    ensures
        overwrite_notices(names).len() == names.len(),
        overwrite_notices(names)[i].level == NoticeLevel::Debug,
        overwrite_notices(names)[i].text == "Header "@ + names[i]
            + " has a default value, overwriting with operation value"@,
{
}

} // verus!
