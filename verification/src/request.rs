//! What a request shows the policy: its endpoint and its headers, and the
//! screening of its User-Agent before the allow-list is consulted.

use vstd::prelude::*;
use vstd::utf8::{
    is_char_boundary_iff_not_is_continuation_byte, pop_first_scalar, valid_utf8, valid_utf8_concat,
    valid_utf8_split,
};

use crate::text::{
    ascii_lowercase, ascii_text, chars_match_at, chars_of, lemma_ascii_is_utf8, str_from_utf8,
    to_ascii_lowercase,
};

verus! {

/// The largest User-Agent value, in bytes, that is looked at.
pub const MAX_UA_BYTES: usize = 4096;

/// A request header as the gateway hands it over: its name and its raw value.
pub struct MiddlewareHeader {
    pub name: String,
    pub value: Vec<u8>,
}

/// Why a request's User-Agent is refused.
#[derive(Clone, Copy, Debug, PartialEq, Eq, Structural)]
pub enum RejectReason {
    /// No User-Agent header.
    MissingUa,
    /// More than one User-Agent header.
    DuplicateUa,
    /// A value longer than `MAX_UA_BYTES`.
    OversizedUa,
    /// A value that is not UTF-8, or holds a byte outside printable ASCII.
    InvalidUa,
    /// A value that is empty once spaces and tabs are trimmed.
    EmptyUa,
    /// A well-formed value that no allowed pattern matches as a whole.
    UnmatchedUa,
}

/// The name under which a reason is reported.
pub open spec fn reason_text(reason: RejectReason) -> Seq<char> {
    match reason {
        RejectReason::MissingUa => "missing_ua"@,
        RejectReason::DuplicateUa => "duplicate_ua"@,
        RejectReason::OversizedUa => "oversized_ua"@,
        RejectReason::InvalidUa => "invalid_ua"@,
        RejectReason::EmptyUa => "empty_ua"@,
        RejectReason::UnmatchedUa => "unmatched_ua"@,
    }
}

impl RejectReason {
    /// The name under which this reason is reported.
    pub fn as_str(self) -> (name: &'static str)
        ensures
            name@ == reason_text(self),
    {
        match self {
            RejectReason::MissingUa => "missing_ua",
            RejectReason::DuplicateUa => "duplicate_ua",
            RejectReason::OversizedUa => "oversized_ua",
            RejectReason::InvalidUa => "invalid_ua",
            RejectReason::EmptyUa => "empty_ua",
            RejectReason::UnmatchedUa => "unmatched_ua",
        }
    }
}

/// A header name is `User-Agent` when it equals `user-agent` up to ASCII case.
pub open spec fn is_user_agent_name(name: Seq<char>) -> bool {
    &&& name.len() == "user-agent"@.len()
    &&& forall|i: int| 0 <= i < name.len() ==> ascii_lowercase(name[i]) == "user-agent"@[i]
}

/// Header names that differ only in ASCII case are both `User-Agent` or
/// neither.
pub proof fn lemma_user_agent_name_ignores_case(name: Seq<char>, other: Seq<char>)
    requires
        name.len() == other.len(),
        forall|i: int| 0 <= i < name.len() ==> ascii_lowercase(name[i]) == ascii_lowercase(other[i]),
    ensures
        is_user_agent_name(name) == is_user_agent_name(other),
{
}

/// The values of the User-Agent headers, in the order the headers come.
pub open spec fn user_agent_values(headers: Seq<MiddlewareHeader>) -> Seq<Seq<u8>>
    decreases headers.len(),
{
    if headers.len() == 0 {
        seq![]
    } else {
        let earlier = user_agent_values(headers.drop_last());
        if is_user_agent_name(headers.last().name@) {
            earlier.push(headers.last().value@)
        } else {
            earlier
        }
    }
}

/// The id that follows `/v1/models/` in a model query: one nonempty path
/// segment with no query, fragment or escape, and not a dot segment.
pub open spec fn is_model_id(id: Seq<char>) -> bool {
    &&& id.len() > 0
    &&& forall|i: int|
        0 <= i < id.len() ==> id[i] != '/' && id[i] != '?' && id[i] != '#' && id[i] != '%'
    &&& id != "."@
    &&& id != ".."@
}

/// An endpoint that lists the models or reads one of them.
pub open spec fn is_model_query_path(endpoint: Seq<char>) -> bool {
    ||| endpoint == "/v1/models"@
    ||| ("/v1/models/"@.is_prefix_of(endpoint) && is_model_id(
        endpoint.skip("/v1/models/"@.len() as int),
    ))
}

/// Every model id is exempt, however long: `/v1/models/` followed by any
/// nonempty id that holds none of `/`, `?`, `#`, `%` and is neither `.` nor
/// `..` is a model query.
pub proof fn lemma_every_model_id_is_a_model_query(id: Seq<char>)
    requires
        id.len() > 0,
        forall|i: int|
            0 <= i < id.len() ==> id[i] != '/' && id[i] != '?' && id[i] != '#' && id[i] != '%',
        id != seq!['.'],
        id != seq!['.', '.'],
    ensures
        is_model_query_path("/v1/models/"@ + id),
{
    reveal_strlit(".");
    reveal_strlit("..");
    assert("."@ =~= seq!['.']);
    assert(".."@ =~= seq!['.', '.']);
    let e = "/v1/models/"@ + id;
    assert(e.subrange(0, "/v1/models/"@.len() as int) =~= "/v1/models/"@);
    assert(e.skip("/v1/models/"@.len() as int) =~= id);
}

/// A model query is the listing itself or `/v1/models/` followed by such an
/// id: an id with a further segment, a query, a fragment, an escape, or a
/// dot segment is never exempt.
pub proof fn lemma_model_queries_have_one_plain_id(endpoint: Seq<char>)
    requires
        is_model_query_path(endpoint),
        endpoint != "/v1/models"@,
    ensures
        "/v1/models/"@.len() < endpoint.len(),
        endpoint.take("/v1/models/"@.len() as int) == "/v1/models/"@,
        forall|i: int|
            "/v1/models/"@.len() <= i < endpoint.len() ==> endpoint[i] != '/' && endpoint[i]
                != '?' && endpoint[i] != '#' && endpoint[i] != '%',
        endpoint.skip("/v1/models/"@.len() as int) != seq!['.'],
        endpoint.skip("/v1/models/"@.len() as int) != seq!['.', '.'],
{
    reveal_strlit(".");
    reveal_strlit("..");
    assert("."@ =~= seq!['.']);
    assert(".."@ =~= seq!['.', '.']);
    let n = "/v1/models/"@.len() as int;
    let id = endpoint.skip(n);
    assert(endpoint.take(n) =~= endpoint.subrange(0, n));
    assert forall|i: int| n <= i < endpoint.len() implies endpoint[i] != '/' && endpoint[i]
        != '?' && endpoint[i] != '#' && endpoint[i] != '%' by {
        assert(endpoint[i] == id[i - n]);
    }
}

/// HTTP optional whitespace: space or horizontal tab.
pub open spec fn is_ows(b: u8) -> bool {
    b == 0x20 || b == 0x09
}

/// A printable ASCII byte, space included.
pub open spec fn is_visible_ascii(b: u8) -> bool {
    0x20 <= b <= 0x7e
}

/// The bytes without their leading spaces and tabs.
pub open spec fn trim_ows_start(bytes: Seq<u8>) -> Seq<u8>
    decreases bytes.len(),
{
    if bytes.len() > 0 && is_ows(bytes[0]) {
        trim_ows_start(bytes.drop_first())
    } else {
        bytes
    }
}

/// The bytes without their trailing spaces and tabs.
pub open spec fn trim_ows_end(bytes: Seq<u8>) -> Seq<u8>
    decreases bytes.len(),
{
    if bytes.len() > 0 && is_ows(bytes.last()) {
        trim_ows_end(bytes.drop_last())
    } else {
        bytes
    }
}

/// The bytes without leading and trailing spaces and tabs.
pub open spec fn trim_ows(bytes: Seq<u8>) -> Seq<u8> {
    trim_ows_end(trim_ows_start(bytes))
}

/// What the screening of a request leaves to decide.
pub enum ScreeningView {
    /// The endpoint is exempt from the check.
    Exempt,
    /// The request is refused for this reason.
    Refused(RejectReason),
    /// The trimmed User-Agent that the allow-list decides on.
    Candidate(Seq<char>),
}

/// The screening of one User-Agent value.
pub open spec fn value_screening(value: Seq<u8>) -> ScreeningView {
    if value.len() > MAX_UA_BYTES {
        ScreeningView::Refused(RejectReason::OversizedUa)
    } else if !valid_utf8(value) {
        ScreeningView::Refused(RejectReason::InvalidUa)
    } else if trim_ows(value).len() == 0 {
        ScreeningView::Refused(RejectReason::EmptyUa)
    } else if !(forall|i: int|
        0 <= i < trim_ows(value).len() ==> is_visible_ascii(#[trigger] trim_ows(value)[i])) {
        ScreeningView::Refused(RejectReason::InvalidUa)
    } else {
        ScreeningView::Candidate(ascii_text(trim_ows(value)))
    }
}

/// The screening of a request: the model exemption first, then the number of
/// User-Agent headers, then the form of the one value.
pub open spec fn request_screening(
    allow_models: bool,
    endpoint: Seq<char>,
    headers: Seq<MiddlewareHeader>,
) -> ScreeningView {
    if allow_models && is_model_query_path(endpoint) {
        ScreeningView::Exempt
    } else {
        let values = user_agent_values(headers);
        if values.len() == 0 {
            ScreeningView::Refused(RejectReason::MissingUa)
        } else if values.len() > 1 {
            ScreeningView::Refused(RejectReason::DuplicateUa)
        } else {
            value_screening(values[0])
        }
    }
}

/// The screening of a request, with the candidate borrowed from the header value.
pub enum Screening<'a> {
    Exempt,
    Refused(RejectReason),
    Candidate(&'a str),
}

impl<'a> View for Screening<'a> {
    type V = ScreeningView;

    open spec fn view(&self) -> ScreeningView {
        match self {
            Screening::Exempt => ScreeningView::Exempt,
            Screening::Refused(reason) => ScreeningView::Refused(*reason),
            Screening::Candidate(ua) => ScreeningView::Candidate(ua@),
        }
    }
}

/// Whether a header name is `User-Agent`, ignoring ASCII case.
pub fn names_user_agent(name: &String) -> (found: bool)
    ensures
        found == is_user_agent_name(name@),
{
    let target = "user-agent";
    let chars = chars_of(name.as_str());
    let n = target.unicode_len();
    if chars.len() != n {
        return false;
    }
    let mut i: usize = 0;
    while i < n
        invariant
            target@ == "user-agent"@,
            n == target@.len(),
            chars@.len() == n,
            chars@ == name@,
            i <= n,
            forall|j: int| 0 <= j < i ==> ascii_lowercase(chars@[j]) == target@[j],
        decreases n - i,
    {
        if to_ascii_lowercase(chars[i]) != target.get_char(i) {
            assert(ascii_lowercase(name@[i as int]) != "user-agent"@[i as int]);
            return false;
        }
        i = i + 1;
    }
    true
}

/// Whether an endpoint lists the models or reads one of them.
pub fn is_model_query(endpoint: &str) -> (query: bool)
    ensures
        query == is_model_query_path(endpoint@),
{
    let chars = chars_of(endpoint);
    let ghost e = endpoint@;
    let whole = "/v1/models";
    let exact = chars.len() == whole.unicode_len() && chars_match_at(&chars, 0, whole);
    proof {
        if e.len() == whole@.len() {
            assert(e =~= e.subrange(0, whole@.len() as int));
        }
    }
    if exact {
        return true;
    }
    assert(e != "/v1/models"@);
    let prefix = "/v1/models/";
    if !chars_match_at(&chars, 0, prefix) {
        return false;
    }
    let start = prefix.unicode_len();
    let ghost id = e.skip(start as int);
    let n = chars.len();
    if start == n {
        assert(id.len() == 0);
        return false;
    }
    let mut i = start;
    while i < n
        invariant
            start <= i <= n,
            n == chars@.len(),
            chars@ == e,
            e == endpoint@,
            id == e.skip(start as int),
            start == "/v1/models/"@.len(),
            "/v1/models/"@.is_prefix_of(e),
            e != "/v1/models"@,
            forall|j: int|
                start <= j < i ==> chars@[j] != '/' && chars@[j] != '?' && chars@[j] != '#'
                    && chars@[j] != '%',
        decreases n - i,
    {
        let c = chars[i];
        if c == '/' || c == '?' || c == '#' || c == '%' {
            assert(id[i - start] == c);
            return false;
        }
        i = i + 1;
    }
    proof {
        reveal_strlit(".");
        reveal_strlit("..");
    }
    if n - start == 1 && chars[start] == '.' {
        assert(id =~= "."@);
        return false;
    }
    if n - start == 2 && chars[start] == '.' && chars[start + 1] == '.' {
        assert(id =~= ".."@);
        return false;
    }
    assert(forall|j: int| 0 <= j < id.len() ==> id[j] == chars@[start + j]);
    assert(id.len() == n - start);
    proof {
        if id.len() == 2 {
            assert(id[0] == chars@[start as int] && id[1] == chars@[start + 1]);
        }
        if id.len() == 1 {
            assert(id[0] == chars@[start as int]);
        }
        assert(id != "."@);
        assert(id != ".."@);
    }
    true
}

/// The screening of one User-Agent value: its size, its encoding, its
/// trimmed form and its bytes.
pub fn screen_value<'a>(value: &'a Vec<u8>) -> (screening: Screening<'a>)
    ensures
        screening@ == value_screening(value@),
{
    if value.len() > MAX_UA_BYTES {
        return Screening::Refused(RejectReason::OversizedUa);
    }
    let bytes = value.as_slice();
    match str_from_utf8(bytes) {
        Err(_) => {
            return Screening::Refused(RejectReason::InvalidUa);
        },
        Ok(_) => {},
    }
    let ghost v = value@;
    let n = bytes.len();
    let mut start: usize = 0;
    assert(v.subrange(0, n as int) =~= v);
    while start < n && (bytes[start] == 0x20 || bytes[start] == 0x09)
        invariant
            n == v.len(),
            bytes@ == v,
            start <= n,
            trim_ows_start(v) == trim_ows_start(v.subrange(start as int, n as int)),
        decreases n - start,
    {
        assert(v.subrange(start as int, n as int).drop_first() =~= v.subrange(
            start + 1,
            n as int,
        ));
        start = start + 1;
    }
    assert(trim_ows_start(v) == v.subrange(start as int, n as int));
    let mut end: usize = n;
    while end > start && (bytes[end - 1] == 0x20 || bytes[end - 1] == 0x09)
        invariant
            n == v.len(),
            bytes@ == v,
            start <= end <= n,
            trim_ows(v) == trim_ows_end(v.subrange(start as int, end as int)),
        decreases end,
    {
        assert(v.subrange(start as int, end as int).drop_last() =~= v.subrange(
            start as int,
            end - 1,
        ));
        end = end - 1;
    }
    let ghost t = v.subrange(start as int, end as int);
    assert(trim_ows(v) == t);
    if start == end {
        return Screening::Refused(RejectReason::EmptyUa);
    }
    let mut i = start;
    while i < end
        invariant
            bytes@ == v,
            start <= i <= end <= n,
            n == v.len(),
            t == v.subrange(start as int, end as int),
            t == trim_ows(v),
            start < end,
            v == value@,
            v.len() <= MAX_UA_BYTES,
            valid_utf8(v),
            forall|j: int| 0 <= j < i - start ==> is_visible_ascii(t[j]),
        decreases end - i,
    {
        if bytes[i] < 0x20 || bytes[i] > 0x7e {
            assert(trim_ows(v)[i - start] == bytes[i as int]);
            return Screening::Refused(RejectReason::InvalidUa);
        }
        i = i + 1;
    }
    let trimmed = vstd::slice::slice_subrange(bytes, start, end);
    proof {
        lemma_ascii_is_utf8(trimmed@);
    }
    match str_from_utf8(trimmed) {
        Ok(ua) => Screening::Candidate(ua),
        Err(_) => Screening::Refused(RejectReason::InvalidUa),
    }
}

/// The screening of a request: the model exemption, the User-Agent headers
/// and the form of the one value.
pub fn screen_request<'a>(
    allow_models: bool,
    endpoint: &str,
    headers: &'a [MiddlewareHeader],
) -> (screening: Screening<'a>)
    ensures
        screening@ == request_screening(allow_models, endpoint@, headers@),
{
    if allow_models && is_model_query(endpoint) {
        return Screening::Exempt;
    }
    let n = headers.len();
    let mut count: usize = 0;
    let mut first: usize = 0;
    for i in 0..n
        invariant
            n == headers@.len(),
            count <= 2,
            count == (if user_agent_values(headers@.take(i as int)).len() < 2 {
                user_agent_values(headers@.take(i as int)).len()
            } else {
                2
            }),
            count >= 1 ==> first < n && user_agent_values(headers@.take(i as int))[0]
                == headers@[first as int].value@,
    {
        assert(headers@.take(i + 1).drop_last() =~= headers@.take(i as int));
        assert(headers@.take(i + 1).last() == headers@[i as int]);
        if names_user_agent(&headers[i].name) {
            if count == 0 {
                first = i;
            }
            if count < 2 {
                count = count + 1;
            }
        }
    }
    assert(headers@.take(n as int) =~= headers@);
    if count == 0 {
        Screening::Refused(RejectReason::MissingUa)
    } else if count > 1 {
        Screening::Refused(RejectReason::DuplicateUa)
    } else {
        screen_value(&headers[first].value)
    }
}

/// Leading spaces and tabs do not survive the start trim.
proof fn lemma_trim_start_skips_ows(pad: Seq<u8>, rest: Seq<u8>)
    requires
        forall|i: int| 0 <= i < pad.len() ==> is_ows(pad[i]),
    ensures
        trim_ows_start(pad + rest) == trim_ows_start(rest),
    decreases pad.len(),
{
    if pad.len() == 0 {
        assert(pad + rest =~= rest);
    } else {
        assert((pad + rest)[0] == pad[0]);
        assert((pad + rest).drop_first() =~= pad.drop_first() + rest);
        lemma_trim_start_skips_ows(pad.drop_first(), rest);
    }
}

/// Trailing spaces and tabs do not survive the end trim.
proof fn lemma_trim_end_skips_ows(rest: Seq<u8>, pad: Seq<u8>)
    requires
        forall|i: int| 0 <= i < pad.len() ==> is_ows(pad[i]),
    ensures
        trim_ows_end(rest + pad) == trim_ows_end(rest),
    decreases pad.len(),
{
    if pad.len() == 0 {
        assert(rest + pad =~= rest);
    } else {
        assert((rest + pad).last() == pad.last());
        assert((rest + pad).drop_last() =~= rest + pad.drop_last());
        lemma_trim_end_skips_ows(rest, pad.drop_last());
    }
}

/// The start trim of a concatenation stops in its first part, unless that
/// part is all spaces and tabs.
proof fn lemma_trim_start_of_concat(first: Seq<u8>, second: Seq<u8>)
    ensures
        trim_ows_start(first + second) == if trim_ows_start(first).len() > 0 {
            trim_ows_start(first) + second
        } else {
            trim_ows_start(second)
        },
    decreases first.len(),
{
    if first.len() == 0 {
        assert(first + second =~= second);
    } else {
        assert((first + second)[0] == first[0]);
        if is_ows(first[0]) {
            assert((first + second).drop_first() =~= first.drop_first() + second);
            lemma_trim_start_of_concat(first.drop_first(), second);
        }
    }
}

/// Spaces and tabs alone trim to nothing.
proof fn lemma_trim_start_of_ows(pad: Seq<u8>)
    requires
        forall|i: int| 0 <= i < pad.len() ==> is_ows(pad[i]),
    ensures
        trim_ows_start(pad).len() == 0,
    decreases pad.len(),
{
    if pad.len() > 0 {
        lemma_trim_start_of_ows(pad.drop_first());
    }
}

/// A UTF-8 prefix of ASCII bytes can be dropped without losing validity.
proof fn lemma_ascii_prefix_utf8(prefix: Seq<u8>, rest: Seq<u8>)
    requires
        forall|i: int| 0 <= i < prefix.len() ==> prefix[i] < 0x80,
        valid_utf8(prefix + rest),
    ensures
        valid_utf8(rest),
    decreases prefix.len(),
{
    if prefix.len() == 0 {
        assert(prefix + rest =~= rest);
    } else {
        let whole = prefix + rest;
        assert(whole[0] == prefix[0]);
        assert(pop_first_scalar(whole) =~= prefix.drop_first() + rest);
        lemma_ascii_prefix_utf8(prefix.drop_first(), rest);
    }
}

/// Spaces and tabs around a User-Agent value change nothing about its
/// screening, as long as the padded value stays within the size limit:
/// they are ignored for matching and never make a value invalid.
pub proof fn lemma_ows_padding_is_ignored(before: Seq<u8>, value: Seq<u8>, after: Seq<u8>)
    requires
        forall|i: int| 0 <= i < before.len() ==> is_ows(before[i]),
        forall|i: int| 0 <= i < after.len() ==> is_ows(after[i]),
        before.len() + value.len() + after.len() <= MAX_UA_BYTES,
    ensures
        value_screening(before + value + after) == value_screening(value),
{
    let padded = before + value + after;
    lemma_trim_start_skips_ows(before, value);
    lemma_trim_start_of_concat(before + value, after);
    if trim_ows_start(value).len() > 0 {
        lemma_trim_end_skips_ows(trim_ows_start(value), after);
    } else {
        lemma_trim_start_of_ows(after);
    }
    assert(trim_ows(padded) == trim_ows(value));
    lemma_ascii_is_utf8(before);
    lemma_ascii_is_utf8(after);
    if valid_utf8(value) {
        valid_utf8_concat(before, value);
        valid_utf8_concat(before + value, after);
    }
    if valid_utf8(padded) {
        let cut = (before.len() + value.len()) as int;
        if after.len() > 0 {
            is_char_boundary_iff_not_is_continuation_byte(padded, cut);
            assert(padded[cut] == after[0]);
            valid_utf8_split(padded, cut);
            assert(padded.subrange(0, cut) =~= before + value);
        } else {
            assert(padded =~= before + value);
        }
        lemma_ascii_prefix_utf8(before, value);
    }
}

/// Spaces and tabs around the one User-Agent value of a request change
/// nothing about its screening, while the padded value stays within the
/// size limit.
pub proof fn lemma_padded_user_agent_is_ignored(
    allow_models: bool,
    endpoint: Seq<char>,
    headers: Seq<MiddlewareHeader>,
    padded_headers: Seq<MiddlewareHeader>,
    before: Seq<u8>,
    value: Seq<u8>,
    after: Seq<u8>,
)
    requires
        user_agent_values(headers) == seq![value],
        user_agent_values(padded_headers) == seq![before + value + after],
        forall|i: int| 0 <= i < before.len() ==> is_ows(before[i]),
        forall|i: int| 0 <= i < after.len() ==> is_ows(after[i]),
        before.len() + value.len() + after.len() <= MAX_UA_BYTES,
    ensures
        request_screening(allow_models, endpoint, padded_headers) == request_screening(
            allow_models,
            endpoint,
            headers,
        ),
{
    lemma_ows_padding_is_ignored(before, value, after);
}

/// The User-Agent values of two runs of headers, one after the other, are
/// those of the first run followed by those of the second.
pub proof fn lemma_user_agents_of_concat(first: Seq<MiddlewareHeader>, second: Seq<MiddlewareHeader>)
    ensures
        user_agent_values(first + second) == user_agent_values(first) + user_agent_values(second),
    decreases second.len(),
{
    if second.len() == 0 {
        assert(first + second =~= first);
        assert(user_agent_values(first) + user_agent_values(second) =~= user_agent_values(first));
    } else {
        let all = first + second;
        assert(all.last() == second.last());
        assert(all.drop_last() =~= first + second.drop_last());
        lemma_user_agents_of_concat(first, second.drop_last());
        let u1 = user_agent_values(first);
        let u2 = user_agent_values(second.drop_last());
        assert((u1 + u2).push(second.last().value@) =~= u1 + u2.push(second.last().value@));
    }
}

/// Headers none of which is named `User-Agent` have no User-Agent values.
proof fn lemma_user_agents_of_others(others: Seq<MiddlewareHeader>)
    requires
        forall|i: int| 0 <= i < others.len() ==> !is_user_agent_name(#[trigger] others[i].name@),
    ensures
        user_agent_values(others) == Seq::<Seq<u8>>::empty(),
    decreases others.len(),
{
    if others.len() > 0 {
        assert(others.last() == others[others.len() - 1]);
        assert forall|i: int| 0 <= i < others.drop_last().len() implies !is_user_agent_name(
            #[trigger] others.drop_last()[i].name@,
        ) by {
            assert(others.drop_last()[i] == others[i]);
        }
        lemma_user_agents_of_others(others.drop_last());
    }
}

/// Headers not named `User-Agent`, added or removed anywhere in the list,
/// play no part in the screening.
pub proof fn lemma_other_headers_are_ignored(
    allow_models: bool,
    endpoint: Seq<char>,
    before: Seq<MiddlewareHeader>,
    others: Seq<MiddlewareHeader>,
    after: Seq<MiddlewareHeader>,
)
    requires
        forall|i: int| 0 <= i < others.len() ==> !is_user_agent_name(#[trigger] others[i].name@),
    ensures
        user_agent_values(before + others + after) == user_agent_values(before + after),
        request_screening(allow_models, endpoint, before + others + after) == request_screening(
            allow_models,
            endpoint,
            before + after,
        ),
{
    lemma_user_agents_of_concat(before + others, after);
    lemma_user_agents_of_concat(before, others);
    lemma_user_agents_of_concat(before, after);
    lemma_user_agents_of_others(others);
    assert(user_agent_values(before) + Seq::<Seq<u8>>::empty() =~= user_agent_values(before));
}

/// Two headers that differ at most in the ASCII case of their names.
pub open spec fn same_header_up_to_name_case(a: MiddlewareHeader, b: MiddlewareHeader) -> bool {
    &&& a.value@ == b.value@
    &&& a.name@.len() == b.name@.len()
    &&& forall|i: int|
        0 <= i < a.name@.len() ==> ascii_lowercase(a.name@[i]) == ascii_lowercase(b.name@[i])
}

/// Changing the ASCII case of header names leaves the User-Agent values,
/// and so the screening, as they were.
pub proof fn lemma_name_case_is_ignored(
    allow_models: bool,
    endpoint: Seq<char>,
    headers: Seq<MiddlewareHeader>,
    renamed: Seq<MiddlewareHeader>,
)
    requires
        headers.len() == renamed.len(),
        forall|i: int|
            0 <= i < headers.len() ==> same_header_up_to_name_case(
                #[trigger] headers[i],
                renamed[i],
            ),
    ensures
        user_agent_values(headers) == user_agent_values(renamed),
        request_screening(allow_models, endpoint, headers) == request_screening(
            allow_models,
            endpoint,
            renamed,
        ),
    decreases headers.len(),
{
    if headers.len() > 0 {
        let n = headers.len() - 1;
        assert(same_header_up_to_name_case(headers[n], renamed[n]));
        lemma_user_agent_name_ignores_case(headers[n].name@, renamed[n].name@);
        lemma_name_case_is_ignored(
            allow_models,
            endpoint,
            headers.drop_last(),
            renamed.drop_last(),
        );
    }
}

/// The screening sees the headers only through their User-Agent values,
/// counted with repetition and in no particular order: equal multisets of
/// values give equal screenings.
pub proof fn lemma_screening_depends_only_on_user_agent_values(
    allow_models: bool,
    endpoint: Seq<char>,
    headers: Seq<MiddlewareHeader>,
    other_headers: Seq<MiddlewareHeader>,
)
    requires
        user_agent_values(headers).to_multiset() == user_agent_values(other_headers).to_multiset(),
    ensures
        request_screening(allow_models, endpoint, headers) == request_screening(
            allow_models,
            endpoint,
            other_headers,
        ),
{
    broadcast use vstd::seq_lib::group_to_multiset_ensures;

    let u = user_agent_values(headers);
    let w = user_agent_values(other_headers);
    assert(u.len() == u.to_multiset().len());
    assert(w.len() == w.to_multiset().len());
    if u.len() == 1 {
        assert(u.contains(u[0]));
        assert(u.to_multiset().count(u[0]) > 0);
        assert(w.to_multiset().count(u[0]) > 0);
        assert(w.contains(u[0]));
        let k = choose|k: int| 0 <= k < w.len() && w[k] == u[0];
        assert(w[0] == u[0]);
    }
}

/// Reordering the headers leaves the multiset of User-Agent values, and so
/// the screening, as they were.
pub proof fn lemma_header_order_is_ignored(
    allow_models: bool,
    endpoint: Seq<char>,
    headers: Seq<MiddlewareHeader>,
    reordered: Seq<MiddlewareHeader>,
)
    requires
        headers.to_multiset() == reordered.to_multiset(),
    ensures
        user_agent_values(headers).to_multiset() == user_agent_values(reordered).to_multiset(),
        request_screening(allow_models, endpoint, headers) == request_screening(
            allow_models,
            endpoint,
            reordered,
        ),
    decreases headers.len(),
{
    broadcast use vstd::seq_lib::group_to_multiset_ensures;

    assert(headers.len() == headers.to_multiset().len());
    assert(reordered.len() == reordered.to_multiset().len());
    if headers.len() == 0 {
        assert(reordered.len() == 0);
        assert(reordered =~= headers);
    } else {
        let last = headers.last();
        let rest = headers.drop_last();
        assert(headers =~= rest.push(last));
        assert(headers =~= rest + seq![last]);
        assert(headers[headers.len() - 1] == last);
        assert(headers.contains(last));
        assert(headers.to_multiset().count(last) > 0);
        assert(reordered.to_multiset().count(last) > 0);
        assert(reordered.contains(last));
        let k = choose|k: int| 0 <= k < reordered.len() && reordered[k] == last;
        let pre = reordered.take(k);
        let post = reordered.skip(k + 1);
        let single = seq![last];
        assert(reordered.remove(k) =~= pre + post);
        assert(reordered =~= pre + single + post);
        assert(rest.to_multiset() =~= reordered.remove(k).to_multiset());
        lemma_header_order_is_ignored(allow_models, endpoint, rest, pre + post);
        lemma_user_agents_of_concat(pre + single, post);
        lemma_user_agents_of_concat(pre, single);
        lemma_user_agents_of_concat(pre, post);
        lemma_user_agents_of_concat(rest, single);
        assert(single.drop_last() =~= Seq::<MiddlewareHeader>::empty());
        let up = user_agent_values(pre);
        let um = user_agent_values(single);
        let uq = user_agent_values(post);
        let ur = user_agent_values(rest);
        vstd::seq_lib::lemma_multiset_commutative(up + um, uq);
        vstd::seq_lib::lemma_multiset_commutative(up, um);
        vstd::seq_lib::lemma_multiset_commutative(up, uq);
        vstd::seq_lib::lemma_multiset_commutative(ur, um);
        assert(user_agent_values(rest).to_multiset() == (up + uq).to_multiset());
        assert(user_agent_values(headers) == ur + um);
        assert(user_agent_values(reordered) == (up + um) + uq);
        assert(user_agent_values(headers).to_multiset() =~= user_agent_values(
            reordered,
        ).to_multiset());
        lemma_screening_depends_only_on_user_agent_values(
            allow_models,
            endpoint,
            headers,
            reordered,
        );
    }
}

} // verus!
