//! What the requests of an operation return.

use crate::json::{self, Object, Ordered};
use crate::notice::{notice_views, Notice};
use crate::operation::execute::{
    law_variables_are_joined, overwrite_notices, OperationDetails, ValidationError,
};
use crate::operation::headers::{
    headers_in, law_headers_of_both_are_sent, law_how_often_a_header_is_overwritten, overwrites,
    own_headers, HeaderText,
};
use crate::operation::{tree_view, Operation};
use crate::schema_walker::layout::Entries;
use http::header::MaxSizeReached;
use http::{HeaderMap, HeaderValue};
use serde_json::Value;
use vstd::prelude::*;

verus! {

/// Where the operation defines variables, every object that the caller gives, the empty one too,
/// and null are taken, unless the caller gives one of those variables: then the caller's
/// members are sent, and behind them the operation's. Any other value is refused.
pub proof fn law_sent_variables(
    operation: Operation,
    input: Value,
    own: Object,
    given: Entries,
    r: Result<Value, ValidationError>,
)
    requires
        call_ensures(Operation::variables, (&operation, input), r),
        operation.inner.variables == Some(own),
    ensures
        ({
            let conflict = exists|i: int, j: int|
                #![trigger given[i], json::ordered_members(own)[j]]
                0 <= i < given.len() && 0 <= j < json::ordered_members(own).len() && given[i].0
                    == json::ordered_members(own)[j].0;
            let taken = json::ordered(input) == Ordered::Object(given) || (json::ordered(input)
                == Ordered::Null && given == Seq::<(Seq<char>, Ordered)>::empty());
            &&& taken && !conflict ==> r is Ok && json::ordered(r->Ok_0) == Ordered::Object(
                given + json::ordered_members(own),
            )
            &&& taken && conflict ==> r is Err
            &&& !(json::ordered(input) is Object) && !(json::ordered(input) is Null) ==> r is Err
                && r->Err_0.0@ == "Variables must be a JSON object or null"@
        }),
{
    law_variables_are_joined(operation, input, own, given, r);
}

/// Where the operation defines no variables, whatever the caller gives is sent.
pub proof fn law_sent_variables_of_the_caller(
    operation: Operation,
    input: Value,
    r: Result<Value, ValidationError>,
)
    requires
        call_ensures(Operation::variables, (&operation, input), r),
        operation.inner.variables is None,
    ensures
        r == Ok::<Value, ValidationError>(input),
{
}

/// The document is the operation's, under the operation's name, whatever the caller gives: without
/// the marks of private fields where there are any, and with the private fields.
pub proof fn law_sent_document(
    operation: Operation,
    input: Value,
    r: Result<OperationDetails, ValidationError>,
)
    requires
        call_ensures(Operation::operation, (&operation, input), r),
    ensures
        r is Ok,
        operation.stripped_source_text is Some ==> r->Ok_0.query@
            == operation.stripped_source_text->0@,
        operation.stripped_source_text is None ==> r->Ok_0.query@ == operation.inner.source_text@,
        r->Ok_0.operation_name is Some,
        r->Ok_0.operation_name->0@ == operation.operation_name@,
        tree_view(r->Ok_0.private_fields) == tree_view(operation.private_fields),
{
}

/// Without headers of its own an operation sends the default ones, and without default ones its
/// own, as they are.
pub proof fn law_sent_headers_of_one_side(
    operation: Operation,
    default: HeaderMap<HeaderValue>,
    r: Result<HeaderMap<HeaderValue>, MaxSizeReached>,
)
    requires
        call_ensures(Operation::headers, (&operation, &default), r),
    ensures
        operation.inner.headers is None ==> r is Ok && headers_in(r->Ok_0) == headers_in(default),
        operation.inner.headers is Some && headers_in(default) == Map::<
            Seq<char>,
            Seq<HeaderText>,
        >::empty() ==> r is Ok && headers_in(r->Ok_0) == headers_in(operation.inner.headers->0),
{
}

/// Where both have headers, exactly the names of the two are sent: the last value of each of the
/// operation's, and every value of a default header that the operation does not have.
pub proof fn law_sent_headers_of_both_sides(
    operation: Operation,
    default: HeaderMap<HeaderValue>,
    r: Result<HeaderMap<HeaderValue>, MaxSizeReached>,
    own: HeaderMap<HeaderValue>,
    name: Seq<char>,
)
    requires
        call_ensures(Operation::headers, (&operation, &default), r),
        operation.inner.headers == Some(own),
        exists|other: Seq<char>| #[trigger] headers_in(default).contains_key(other),
        headers_in(own).contains_key(name) ==> headers_in(own)[name].len() > 0,
        r is Ok,
    ensures
        ({
            let sent = headers_in(r->Ok_0);
            let ours = headers_in(own);
            let theirs = headers_in(default);
            &&& sent.contains_key(name) <==> ours.contains_key(name) || theirs.contains_key(name)
            &&& ours.contains_key(name) ==> sent[name].len() == 1 && sent[name][0]
                == ours[name][ours[name].len() - 1]
            &&& theirs.contains_key(name) && !ours.contains_key(name) ==> sent[name]
                == theirs[name]
        }),
{
    law_headers_of_both_are_sent(headers_in(own), headers_in(default), name);
}

/// One notice is given for each value of an operation's header that takes the place of one that
/// is there already, and none for anything else.
pub proof fn law_notices_of_headers(
    operation: Operation,
    default: HeaderMap<HeaderValue>,
    r: Vec<Notice>,
)
    requires
        call_ensures(Operation::header_notices, (&operation, &default), r),
    ensures
        exists|names: Seq<Seq<char>>|
            notice_views(r@) == #[trigger] overwrite_notices(names) && forall|name: Seq<char>|
                #[trigger] names.to_multiset().count(name) == {
                    let theirs = headers_in(default);
                    let ours = headers_in(operation.inner.headers->0);
                    if operation.inner.headers is None || !ours.contains_key(name) || theirs
                        == Map::<Seq<char>, Seq<HeaderText>>::empty() || ours[name].len() == 0 {
                        0
                    } else if theirs.contains_key(name) {
                        ours[name].len() as int
                    } else {
                        ours[name].len() - 1
                    }
                },
{
    let theirs = headers_in(default);
    let names = choose|names: Seq<Seq<char>>|
        notice_views(r@) == #[trigger] overwrite_notices(names) && forall|name: Seq<char>| #[trigger]
            names.to_multiset().count(name) == overwrites(
                own_headers(operation.inner.headers),
                theirs,
                name,
            );
    assert forall|name: Seq<char>| #[trigger]
        names.to_multiset().count(name) == ({
            let ours = headers_in(operation.inner.headers->0);
            if operation.inner.headers is None || !ours.contains_key(name) || theirs == Map::<
                Seq<char>,
                Seq<HeaderText>,
            >::empty() || ours[name].len() == 0 {
                0
            } else if theirs.contains_key(name) {
                ours[name].len() as int
            } else {
                ours[name].len() - 1
            }
        }) by {
        law_how_often_a_header_is_overwritten(
            headers_in(operation.inner.headers->0),
            theirs,
            name,
        );
    }
}

} // verus!
