//! The headers of the requests that an operation makes.

use crate::string_map::StringMap;
use crate::text::views;
use http::header::MaxSizeReached;
use http::{HeaderMap, HeaderName, HeaderValue};
use vstd::prelude::*;

verus! {

/// The headers of `http`. They are opaque here; [`headers_in`] names what they hold.
#[verifier::external_type_specification]
#[verifier::external_body]
#[verifier::reject_recursive_types(T)]
pub struct ExHeaderMap<T>(http::HeaderMap<T>);

/// The name of a header. It is opaque here; [`header_name`] names its text.
#[verifier::external_type_specification]
#[verifier::external_body]
pub struct ExHeaderName(http::HeaderName);

/// The value of a header. It is opaque here; [`header_value`] names what it holds.
#[verifier::external_type_specification]
#[verifier::external_body]
pub struct ExHeaderValue(http::HeaderValue);

/// The error of `http` where headers would be too many.
#[verifier::external_type_specification]
#[verifier::external_body]
pub struct ExMaxSizeReached(http::header::MaxSizeReached);

/// What the value of a header is: its bytes, and whether it is to be kept out of logs.
pub struct HeaderText {
    pub bytes: Seq<u8>,
    pub sensitive: bool,
}

/// The text of the name of a header.
pub uninterp spec fn header_name(name: http::HeaderName) -> Seq<char>;

/// What the value of a header holds.
pub uninterp spec fn header_value(value: http::HeaderValue) -> HeaderText;

/// The values of each header, in order.
pub uninterp spec fn headers_in(headers: http::HeaderMap<http::HeaderValue>) -> Map<
    Seq<char>,
    Seq<HeaderText>,
>;

/// No headers.
pub open spec fn no_headers() -> Map<Seq<char>, Seq<HeaderText>> {
    Map::empty()
}

/// The values that a list of headers gives for a name, in order.
pub open spec fn values_for(list: Seq<(&HeaderName, &HeaderValue)>, name: Seq<char>) -> Seq<
    HeaderText,
>
    decreases list.len(),
{
    if list.len() == 0 {
        Seq::empty()
    } else if header_name(*list.last().0) == name {
        values_for(list.drop_last(), name).push(header_value(*list.last().1))
    } else {
        values_for(list.drop_last(), name)
    }
}

/// The number of different names from which on `http` may refuse another header.
pub const HEADER_LIMIT: usize = 6554;

/// `http::HeaderMap::clone`. Trusted: the copy holds the same headers.
#[verifier::external_body]
pub(crate) fn clone_headers(headers: &HeaderMap<HeaderValue>) -> (copy: HeaderMap<HeaderValue>)
    ensures
        headers_in(copy) == headers_in(*headers),
{
    headers.clone()
}

/// `http::HeaderValue::clone`. Trusted: the copy holds the same.
#[verifier::external_body]
fn clone_header_value(value: &HeaderValue) -> (copy: HeaderValue)
    ensures
        header_value(copy) == header_value(*value),
{
    value.clone()
}

/// `http::HeaderMap::is_empty`. Trusted: true where there are no headers, and only there.
#[verifier::external_body]
fn is_empty(headers: &HeaderMap<HeaderValue>) -> (empty: bool)
    ensures
        empty == (headers_in(*headers) == no_headers()),
{
    headers.is_empty()
}

/// `http::HeaderMap::contains_key`. Trusted: whether there is a header of that name.
#[verifier::external_body]
fn contains_header(headers: &HeaderMap<HeaderValue>, name: &HeaderName) -> (found: bool)
    ensures
        found == headers_in(*headers).contains_key(header_name(*name)),
{
    headers.contains_key(name)
}

/// `http::HeaderName::as_str`. Trusted: it is the text of the name.
#[verifier::external_body]
fn name_text(name: &HeaderName) -> (text: &str)
    ensures
        text@ == header_name(*name),
{
    name.as_str()
}

/// `http::HeaderMap::iter`. Trusted: it hands out each header once for each of its values,
/// and the values of a header in order. The order of the headers is left open.
#[verifier::external_body]
fn header_list(headers: &HeaderMap<HeaderValue>) -> (list: Vec<(&HeaderName, &HeaderValue)>)
    ensures
        forall|name: Seq<char>| #[trigger]
            headers_in(*headers).contains_key(name) ==> headers_in(*headers)[name] == values_for(
                list@,
                name,
            ),
        forall|name: Seq<char>|
            headers_in(*headers).contains_key(name) == (#[trigger] values_for(list@, name).len()
                > 0),
{
    headers.iter().collect()
}

/// `http::HeaderMap::try_insert`. Trusted: the header has the one given value afterwards, in
/// place of any that it had, and the others are as they were. It is refused only where there
/// are many headers already: the table is never made larger than 32768 places, and with
/// fewer names than a fifth of that it need not be.
#[verifier::external_body]
fn insert_header(
    headers: &mut HeaderMap<HeaderValue>,
    name: &HeaderName,
    value: HeaderValue,
) -> (r: Result<(), MaxSizeReached>)
    ensures
        match r {
            Ok(_) => headers_in(*final(headers)) == headers_in(*old(headers)).insert(
                header_name(*name),
                seq![header_value(value)],
            ),
            Err(_) => headers_in(*old(headers)).dom().finite() && headers_in(
                *old(headers),
            ).dom().len() >= HEADER_LIMIT,
        },
{
    headers.try_insert(name, value).map(|_| ())
}

/// The headers of a request: those of the operation, and the default ones that it does not
/// have. Where both have headers, one value of each of the operation's is sent: the last.
pub open spec fn merged_headers(
    operation: Option<Map<Seq<char>, Seq<HeaderText>>>,
    default: Map<Seq<char>, Seq<HeaderText>>,
) -> Map<Seq<char>, Seq<HeaderText>> {
    match operation {
        None => default,
        Some(own) => if default == no_headers() {
            own
        } else {
            Map::new(
                |name: Seq<char>| own.contains_key(name) || default.contains_key(name),
                |name: Seq<char>|
                    if own.contains_key(name) {
                        seq![own[name].last()]
                    } else {
                        default[name]
                    },
            )
        },
    }
}

/// What an operation's headers hold.
pub open spec fn own_headers(headers: Option<HeaderMap<HeaderValue>>) -> Option<
    Map<Seq<char>, Seq<HeaderText>>,
> {
    match headers {
        Some(headers) => Some(headers_in(headers)),
        None => None,
    }
}

/// The headers once those of a list have been put in one after the other.
spec fn overlaid(
    headers: Map<Seq<char>, Seq<HeaderText>>,
    list: Seq<(&HeaderName, &HeaderValue)>,
) -> Map<Seq<char>, Seq<HeaderText>>
    decreases list.len(),
{
    if list.len() == 0 {
        headers
    } else {
        overlaid(headers, list.drop_last()).insert(
            header_name(*list.last().0),
            seq![header_value(*list.last().1)],
        )
    }
}

proof fn lemma_overlaid(
    headers: Map<Seq<char>, Seq<HeaderText>>,
    list: Seq<(&HeaderName, &HeaderValue)>,
    name: Seq<char>,
)
    ensures
        overlaid(headers, list).contains_key(name) == (headers.contains_key(name) || values_for(
            list,
            name,
        ).len() > 0),
        overlaid(headers, list).contains_key(name) ==> overlaid(headers, list)[name] == if values_for(
            list, name).len() > 0 {
            seq![values_for(list, name).last()]
        } else {
            headers[name]
        },
    decreases list.len(),
{
    if list.len() > 0 {
        lemma_overlaid(headers, list.drop_last(), name);
    }
}

/// The names of a list, with those of a part of it among them.
proof fn lemma_names_finite(list: Seq<(&HeaderName, &HeaderValue)>)
    ensures
        Set::new(|name: Seq<char>| values_for(list, name).len() > 0).finite(),
    decreases list.len(),
{
    let names = Set::new(|name: Seq<char>| values_for(list, name).len() > 0);
    if list.len() == 0 {
        assert(names =~= Set::empty());
    } else {
        let front = Set::new(|name: Seq<char>| values_for(list.drop_last(), name).len() > 0);
        lemma_names_finite(list.drop_last());
        assert(names =~= front.insert(header_name(*list.last().0)));
    }
}

proof fn lemma_values_take(list: Seq<(&HeaderName, &HeaderValue)>, n: int, name: Seq<char>)
    requires
        0 <= n <= list.len(),
        values_for(list.take(n), name).len() > 0,
    ensures
        values_for(list, name).len() > 0,
    decreases list.len(),
{
    if n < list.len() {
        assert(list.drop_last().take(n) =~= list.take(n));
        lemma_values_take(list.drop_last(), n, name);
    } else {
        assert(list.take(n) =~= list);
    }
}

/// The headers of a request. `http` refuses only where the names of the two together are
/// very many.
pub fn request_headers(
    operation: &Option<HeaderMap<HeaderValue>>,
    default_headers: &HeaderMap<HeaderValue>,
) -> (r: Result<HeaderMap<HeaderValue>, MaxSizeReached>)
    ensures
        match r {
            Ok(headers) => headers_in(headers) == merged_headers(
                own_headers(*operation),
                headers_in(*default_headers),
            ),
            Err(_) => merged_headers(
                own_headers(*operation),
                headers_in(*default_headers),
            ).dom().len() >= HEADER_LIMIT,
        },
        *operation is None || headers_in(*default_headers) == no_headers() ==> r is Ok,
{
    let own = match operation {
        Some(own) => own,
        None => return Ok(clone_headers(default_headers)),
    };
    if is_empty(default_headers) {
        return Ok(clone_headers(own));
    }
    let list = header_list(own);
    let mut headers = clone_headers(default_headers);
    let ghost default = headers_in(*default_headers);
    let ghost merged = merged_headers(Some(headers_in(*own)), default);
    let n: usize = list.len();
    assert(list@.take(0) =~= Seq::empty());
    for i in 0..n
        invariant
            n == list@.len(),
            *operation == Some(*own),
            default == headers_in(*default_headers),
            default != no_headers(),
            merged == merged_headers(Some(headers_in(*own)), default),
            headers_in(headers) == overlaid(default, list@.take(i as int)),
            forall|name: Seq<char>|
                headers_in(*own).contains_key(name) == (#[trigger] values_for(list@, name).len()
                    > 0),
    {
        let (name, value) = list[i];
        let copy = clone_header_value(value);
        let ghost before = headers_in(headers);
        proof {
            assert(list@.take(i + 1).drop_last() =~= list@.take(i as int));
            assert(list@.take(i + 1).last() == list@[i as int]);
        }
        match insert_header(&mut headers, name, copy) {
            Ok(_) => {},
            Err(error) => {
                proof {
                    let own_names = Set::new(|name: Seq<char>| values_for(list@, name).len() > 0);
                    lemma_names_finite(list@);
                    assert forall|name: Seq<char>| before.contains_key(
                        name,
                    ) implies merged.contains_key(name) by {
                        lemma_overlaid(default, list@.take(i as int), name);
                        if values_for(list@.take(i as int), name).len() > 0 {
                            lemma_values_take(list@, i as int, name);
                        }
                    }
                    assert forall|name: Seq<char>| merged.contains_key(
                        name,
                    ) implies before.dom().union(own_names).contains(name) by {
                        lemma_overlaid(default, list@.take(i as int), name);
                    }
                    vstd::set_lib::lemma_set_subset_finite(
                        before.dom().union(own_names),
                        merged.dom(),
                    );
                    vstd::set_lib::lemma_len_subset(before.dom(), merged.dom());
                }
                return Err(error);
            },
        }
    }
    proof {
        assert(list@.take(n as int) =~= list@);
        assert forall|name: Seq<char>| #[trigger]
            headers_in(headers).contains_key(name) == merged.contains_key(name) && (
            merged.contains_key(name) ==> headers_in(headers)[name] == merged[name]) by {
            lemma_overlaid(default, list@, name);
        }
        assert(headers_in(headers) =~= merged);
    }
    Ok(headers)
}

/// How many values of an operation's header take the place of one that is there already:
/// where there are default headers, each value of one that has a default, and each but the
/// first of one that has none.
pub open spec fn overwrites(
    operation: Option<Map<Seq<char>, Seq<HeaderText>>>,
    default: Map<Seq<char>, Seq<HeaderText>>,
    name: Seq<char>,
) -> nat {
    match operation {
        Some(own) if default != no_headers() && own.contains_key(name) => replacing(
            own[name].len(),
            default.contains_key(name),
        ),
        _ => 0,
    }
}

/// How many of some values of a header take the place of one that is there already.
pub open spec fn replacing(values: nat, has_default: bool) -> nat {
    if has_default || values == 0 {
        values
    } else {
        (values - 1) as nat
    }
}

/// The names of the headers that a value of an operation's header takes the place of, once for
/// each such value. `http` calls the order in which it hands out headers arbitrary, and so is
/// the order here.
pub fn overwritten_headers(
    operation: &Option<HeaderMap<HeaderValue>>,
    default_headers: &HeaderMap<HeaderValue>,
) -> (r: Vec<String>)
    ensures
        forall|name: Seq<char>|
            #[trigger] views(r@).to_multiset().count(name) == overwrites(
                own_headers(*operation),
                headers_in(*default_headers),
                name,
            ),
{
    broadcast use vstd::seq_lib::group_to_multiset_ensures;

    let mut r: Vec<String> = Vec::new();
    assert(views(r@) =~= Seq::empty());
    let own = match operation {
        Some(own) => own,
        None => return r,
    };
    if is_empty(default_headers) {
        return r;
    }
    let list = header_list(own);
    let ghost default = headers_in(*default_headers);
    let mut sent: StringMap<bool> = StringMap::new();
    let n: usize = list.len();
    assert(list@.take(0) =~= Seq::empty());
    for i in 0..n
        invariant
            n == list@.len(),
            default == headers_in(*default_headers),
            forall|name: Seq<char>| #[trigger]
                sent@.contains_key(name) <==> values_for(list@.take(i as int), name).len() > 0,
            forall|name: Seq<char>| #[trigger]
                views(r@).to_multiset().count(name) == replacing(
                    values_for(list@.take(i as int), name).len(),
                    default.contains_key(name),
                ),
    {
        let (name, _) = list[i];
        let ghost here = header_name(*name);
        let ghost before = views(r@);
        proof {
            assert(list@.take(i + 1).drop_last() =~= list@.take(i as int));
            assert(list@.take(i + 1).last() == list@[i as int]);
        }
        let text = name_text(name);
        let there: bool = contains_header(default_headers, name) || sent.contains_key(text);
        assert(there == (default.contains_key(here) || values_for(
            list@.take(i as int),
            here,
        ).len() > 0));
        if there {
            r.push(text.to_owned());
            assert(views(r@) =~= before.push(here));
        }
        sent.insert(text.to_owned(), true);
        proof {
            before.to_multiset_ensures();
            assert forall|x: Seq<char>| #[trigger]
                views(r@).to_multiset().count(x) == replacing(
                    values_for(list@.take(i + 1), x).len(),
                    default.contains_key(x),
                ) by {
                assert(before.to_multiset().count(x) == replacing(
                    values_for(list@.take(i as int), x).len(),
                    default.contains_key(x),
                ));
            }
        }
    }
    proof {
        assert(list@.take(n as int) =~= list@);
        assert forall|name: Seq<char>| #[trigger]
            views(r@).to_multiset().count(name) == overwrites(
                own_headers(*operation),
                default,
                name,
            ) by {
            assert(headers_in(*own).contains_key(name) == (values_for(list@, name).len() > 0));
        }
    }
    r
}

/// An operation's headers win over the default ones: of a header that both have, the last
/// value of the operation's is sent, and a default header that the operation does not have
/// is sent as it is.
pub proof fn law_operation_headers_win(
    own: Map<Seq<char>, Seq<HeaderText>>,
    default: Map<Seq<char>, Seq<HeaderText>>,
    name: Seq<char>,
)
    requires
        default.contains_key(name),
    ensures
        merged_headers(Some(own), default).contains_key(name),
        own.contains_key(name) ==> merged_headers(Some(own), default)[name] == seq![
            own[name].last(),
        ],
        !own.contains_key(name) ==> merged_headers(Some(own), default)[name] == default[name],
{
}

/// Where both the operation and the defaults have headers, exactly the names of the two are
/// sent: the last value of each of the operation's, and every value of a default header that
/// the operation does not have.
pub proof fn law_headers_of_both_are_sent(
    own: Map<Seq<char>, Seq<HeaderText>>,
    default: Map<Seq<char>, Seq<HeaderText>>,
    name: Seq<char>,
)
    requires
        exists|other: Seq<char>| #[trigger] default.contains_key(other),
        own.contains_key(name) ==> own[name].len() > 0,
    ensures
        ({
            let sent = merged_headers(Some(own), default);
            &&& sent.contains_key(name) <==> own.contains_key(name) || default.contains_key(name)
            &&& own.contains_key(name) ==> sent[name].len() == 1 && sent[name][0]
                == own[name][own[name].len() - 1]
            &&& default.contains_key(name) && !own.contains_key(name) ==> sent[name]
                == default[name]
        }),
{
    let other = choose|other: Seq<char>| #[trigger] default.contains_key(other);
    assert(!no_headers().contains_key(other));
}

/// Where only one of the two has headers, they are sent as they are, with all their values.
pub proof fn law_headers_of_one_are_sent_as_they_are(headers: Map<Seq<char>, Seq<HeaderText>>)
    ensures
        merged_headers(None, headers) == headers,
        merged_headers(Some(headers), Map::empty()) == headers,
{
}

/// How often a header is overwritten: with each value where it has a default, with each but the
/// first where it has none, and never where there are no defaults at all or the operation does
/// not have it.
pub proof fn law_how_often_a_header_is_overwritten(
    own: Map<Seq<char>, Seq<HeaderText>>,
    default: Map<Seq<char>, Seq<HeaderText>>,
    name: Seq<char>,
)
    ensures
        overwrites(None, default, name) == 0,
        overwrites(Some(own), Map::empty(), name) == 0,
        !own.contains_key(name) ==> overwrites(Some(own), default, name) == 0,
        own.contains_key(name) && default.contains_key(name) ==> overwrites(
            Some(own),
            default,
            name,
        ) == own[name].len(),
        own.contains_key(name) && own[name].len() > 0 && !default.contains_key(name) && (
        exists|other: Seq<char>| #[trigger] default.contains_key(other)) ==> overwrites(
            Some(own),
            default,
            name,
        ) == own[name].len() - 1,
{
    if default.contains_key(name) {
        assert(!no_headers().contains_key(name));
    }
    if exists|other: Seq<char>| #[trigger] default.contains_key(other) {
        let other = choose|other: Seq<char>| #[trigger] default.contains_key(other);
        assert(!no_headers().contains_key(other));
    }
}

} // verus!
