//! Finding the handlers of a request.
use vstd::prelude::*;
use crate::applications::async_web::default::INTERNAL_SERVER_ERROR;
use crate::table::{Key, Table};
use crate::text::{
    copy_text, join, join_first, law_first_pieces_are_a_prefix, law_join_split, law_split_concat,
    lemma_split_some, split, split_at_char, texts,
};

verus! {

/// An action together with the method and the endpoint for which it stands.
pub struct Handler<M, A> {
    pub method: M,
    pub endpoint: String,
    pub action: A,
}

impl<M, A> Handler<M, A> {
    /// A handler.
    pub fn new(method: M, endpoint: &str, action: A) -> (handler: Self)
        ensures
            handler.method == method,
            handler.endpoint@ == endpoint@,
            handler.action == action,
    {
        Self { method, endpoint: copy_text(endpoint), action }
    }
}

impl<M: Key> Key for (M, String) {
    fn same(&self, other: &Self) -> (same: bool) {
        self.0.same(&other.0) && self.1.same(&other.1)
    }
}

/// The pattern for everything at or below `prefix`.
pub open spec fn wildcard(prefix: Seq<char>) -> Seq<char> {
    prefix + "/*"@
}

/// Writes the pattern for everything at or below `prefix`.
fn write_wildcard(prefix: String) -> (pattern: String)
    ensures
        pattern@ == wildcard(prefix@),
{
    let mut pattern = prefix;
    pattern.append("/*");
    pattern
}

/// The wildcard handler for the longest of the leading runs of `parts` that has one.
pub open spec fn wildcard_handler<M, H>(
    routes: Map<(M, Seq<char>), H>,
    method: M,
    parts: Seq<Seq<char>>,
) -> Option<H>
    decreases parts.len(),
{
    if parts.len() == 0 {
        None
    } else {
        let key = (method, wildcard(join(parts, '/')));
        if routes.contains_key(key) {
            Some(routes[key])
        } else {
            wildcard_handler(routes, method, parts.drop_last())
        }
    }
}

/// The handler of a request: that of the endpoint itself, else that of the most specific
/// wildcard pattern.
pub open spec fn request_handler<M, H>(
    routes: Map<(M, Seq<char>), H>,
    method: M,
    endpoint: Seq<char>,
) -> Option<H> {
    if routes.contains_key((method, endpoint)) {
        Some(routes[(method, endpoint)])
    } else {
        wildcard_handler(routes, method, split(endpoint, '/'))
    }
}

/// The filter for everything at or below `prefix`: that of the prefix itself, else that of
/// its wildcard pattern.
pub open spec fn filter_at<H>(filters: Map<Seq<char>, H>, prefix: Seq<char>) -> Option<H> {
    if filters.contains_key(prefix) {
        Some(filters[prefix])
    } else if filters.contains_key(wildcard(prefix)) {
        Some(filters[wildcard(prefix)])
    } else {
        None
    }
}

/// The filters of the leading runs of `parts`, from the shortest to the longest.
pub open spec fn filters_along<H>(filters: Map<Seq<char>, H>, parts: Seq<Seq<char>>) -> Seq<H>
    decreases parts.len(),
{
    if parts.len() == 0 {
        Seq::empty()
    } else {
        let shorter = filters_along(filters, parts.drop_last());
        match filter_at(filters, join(parts, '/')) {
            Some(filter) => shorter.push(filter),
            None => shorter,
        }
    }
}

/// The values behind a list of references.
pub open spec fn targets<T>(list: Seq<&T>) -> Seq<T> {
    Seq::new(list.len(), |i: int| *list[i])
}

/// Finds the wildcard handler of an endpoint.
pub fn find_wildcard<'a, M: Key + Copy, H>(
    routes: &'a Table<(M, String), H>,
    method: &M,
    endpoint: &str,
) -> (found: Option<&'a H>)
    ensures
        match found {
            Some(handler) => wildcard_handler(routes@, method@, split(endpoint@, '/')) == Some(
                *handler,
            ),
            None => wildcard_handler(routes@, method@, split(endpoint@, '/')) is None,
        },
{
    let parts = split_at_char(endpoint, '/');
    let ghost all = texts(parts@);
    let mut count: usize = parts.len();
    assert(all.take(count as int) == all);
    while count > 0
        invariant
            count <= parts@.len(),
            all == texts(parts@),
            all == split(endpoint@, '/'),
            wildcard_handler(routes@, method@, all) == wildcard_handler(
                routes@,
                method@,
                all.take(count as int),
            ),
        decreases count,
    {
        let search = write_wildcard(join_first(&parts, count, '/'));
        let key = (*method, search);
        match routes.get(&key) {
            Some(handler) => {
                return Some(handler);
            },
            None => {},
        }
        assert(all.take(count as int).drop_last() == all.take(count - 1));
        count -= 1;
    }
    None
}

/// Finds the handler of a request.
pub fn find_handler<'a, M: Key + Copy, H>(
    routes: &'a Table<(M, String), H>,
    method: &M,
    endpoint: &str,
) -> (found: Option<&'a H>)
    ensures
        match found {
            Some(handler) => request_handler(routes@, method@, endpoint@) == Some(*handler),
            None => request_handler(routes@, method@, endpoint@) is None,
        },
{
    let key = (*method, copy_text(endpoint));
    match routes.get(&key) {
        Some(handler) => Some(handler),
        None => find_wildcard(routes, method, endpoint),
    }
}

/// Finds the filters of an endpoint in the order in which they run.
pub fn find_filters<'a, H>(filters: &'a Table<String, H>, endpoint: &str) -> (found: Vec<&'a H>)
    ensures
        targets(found@) == filters_along(filters@, split(endpoint@, '/')),
{
    let parts = split_at_char(endpoint, '/');
    let ghost all = texts(parts@);
    let mut found: Vec<&'a H> = Vec::new();
    let mut count: usize = 0;
    assert(targets(found@) =~= filters_along(filters@, all.take(0)));
    while count < parts.len()
        invariant
            count <= parts@.len(),
            all == texts(parts@),
            targets(found@) == filters_along(filters@, all.take(count as int)),
        decreases parts@.len() - count,
    {
        let ghost before = found@;
        let search = join_first(&parts, count + 1, '/');
        assert(all.take(count + 1).drop_last() == all.take(count as int));
        match filters.get(&search) {
            Some(filter) => {
                found.push(filter);
                assert(targets(found@) =~= targets(before).push(*filter));
            },
            None => {
                let pattern = write_wildcard(search);
                match filters.get(&pattern) {
                    Some(filter) => {
                        found.push(filter);
                        assert(targets(found@) =~= targets(before).push(*filter));
                    },
                    None => {},
                }
            },
        }
        count += 1;
    }
    assert(all.take(count as int) == all);
    found
}

/// What to do next while filters run.
#[derive(Clone, Copy, Debug)]
pub enum FilterStep {
    /// Run the filter at this place.
    Run(usize),
    /// All filters have passed the request on.
    Pass,
    /// A filter has answered the request.
    Stop,
    /// A filter has failed: send this response.
    Fail(&'static str),
}

/// What to do after `ran` of `count` filters have run, the last of them with `result`: the
/// number of bytes that it has sent, or a failure.
pub open spec fn filter_step<E>(count: usize, ran: usize, result: Result<usize, E>) -> FilterStep {
    match result {
        Ok(sent) => if sent > 0 {
            FilterStep::Stop
        } else if ran < count {
            FilterStep::Run(ran)
        } else {
            FilterStep::Pass
        },
        Err(_) => FilterStep::Fail(INTERNAL_SERVER_ERROR),
    }
}

/// Decides what to do after `ran` of `count` filters have run, the last of them with
/// `result`; before the first of them the result is that nothing has been sent.
pub fn next_filter<E>(count: usize, ran: usize, result: &Result<usize, E>) -> (step: FilterStep)
    ensures
        step == filter_step(count, ran, *result),
{
    match result {
        Ok(sent) => {
            if *sent > 0 {
                FilterStep::Stop
            } else if ran < count {
                FilterStep::Run(ran)
            } else {
                FilterStep::Pass
            }
        },
        Err(_) => FilterStep::Fail(INTERNAL_SERVER_ERROR),
    }
}

/// How running filters ends, given the result of each filter, after `ran` of them have
/// passed the request on.
pub open spec fn filters_end<E>(results: Seq<Result<usize, E>>, ran: int) -> FilterStep
    decreases results.len() - ran,
{
    if 0 <= ran < results.len() {
        let step = filter_step(results.len() as usize, (ran + 1) as usize, results[ran]);
        if step is Run {
            filters_end(results, ran + 1)
        } else {
            step
        }
    } else {
        FilterStep::Pass
    }
}

/// A request passes its filters exactly when every one of them succeeds without sending
/// anything.
pub proof fn law_filters_pass_together<E>(results: Seq<Result<usize, E>>, ran: int)
    requires
        results.len() <= usize::MAX,
        0 <= ran <= results.len(),
    ensures
        filters_end(results, ran) is Pass <==> (forall|i: int|
            ran <= i < results.len() ==> #[trigger] results[i] == Ok::<usize, E>(0)),
    decreases results.len() - ran,
{
    if ran < results.len() {
        law_filters_pass_together(results, ran + 1);
        let step = filter_step(results.len() as usize, (ran + 1) as usize, results[ran]);
        if step is Run || step is Pass {
            assert(results[ran] == Ok::<usize, E>(0));
        }
    }
}

/// The first filter that sends something or fails decides, whatever the later ones would do.
pub proof fn law_first_refusal_decides<E>(results: Seq<Result<usize, E>>, ran: int, first: int)
    requires
        results.len() <= usize::MAX,
        0 <= ran <= first < results.len(),
        forall|i: int| ran <= i < first ==> #[trigger] results[i] == Ok::<usize, E>(0),
        results[first] != Ok::<usize, E>(0),
    ensures
        filters_end(results, ran) == (if results[first] is Ok {
            FilterStep::Stop
        } else {
            FilterStep::Fail(INTERNAL_SERVER_ERROR)
        }),
    decreases first - ran,
{
    if ran < first {
        assert(results[ran] == Ok::<usize, E>(0));
        law_first_refusal_decides(results, ran + 1, first);
    }
}

/// A route for the endpoint itself beats every wildcard route.
pub proof fn law_exact_route_wins<M, H>(
    routes: Map<(M, Seq<char>), H>,
    method: M,
    endpoint: Seq<char>,
)
    requires
        routes.contains_key((method, endpoint)),
    ensures
        request_handler(routes, method, endpoint) == Some(routes[(method, endpoint)]),
{
}

/// The wildcard route of the longest leading run that has one is taken; where none has
/// one, none is taken.
pub proof fn law_longest_wildcard_wins<M, H>(
    routes: Map<(M, Seq<char>), H>,
    method: M,
    parts: Seq<Seq<char>>,
    count: int,
)
    requires
        0 <= count <= parts.len(),
        forall|longer: int|
            count < longer <= parts.len() ==> !routes.contains_key(
                (method, wildcard(join(#[trigger] parts.take(longer), '/'))),
            ),
        count > 0 ==> routes.contains_key((method, wildcard(join(parts.take(count), '/')))),
    ensures
        wildcard_handler(routes, method, parts) == (if count > 0 {
            Some(routes[(method, wildcard(join(parts.take(count), '/')))])
        } else {
            None
        }),
    decreases parts.len(),
{
    assert(parts.take(parts.len() as int) =~= parts);
    if count < parts.len() {
        let shorter = parts.drop_last();
        assert(!routes.contains_key(
            (method, wildcard(join(parts.take(parts.len() as int), '/'))),
        ));
        assert forall|longer: int| count < longer <= shorter.len() implies !routes.contains_key(
            (method, wildcard(join(#[trigger] shorter.take(longer), '/'))),
        ) by {
            assert(shorter.take(longer) =~= parts.take(longer));
        }
        assert(shorter.take(count) =~= parts.take(count));
        law_longest_wildcard_wins(routes, method, shorter, count);
    }
}

/// Whether some leading run of `parts` has a wildcard route.
pub proof fn lemma_wildcard_found<M, H>(
    routes: Map<(M, Seq<char>), H>,
    method: M,
    parts: Seq<Seq<char>>,
    count: int,
)
    requires
        0 < count <= parts.len(),
        routes.contains_key((method, wildcard(join(parts.take(count), '/')))),
    ensures
        wildcard_handler(routes, method, parts) is Some,
    decreases parts.len(),
{
    if count == parts.len() {
        assert(parts.take(count) =~= parts);
    } else {
        assert(parts.drop_last().take(count) =~= parts.take(count));
        lemma_wildcard_found(routes, method, parts.drop_last(), count);
    }
}

/// A wildcard route for `prefix` serves the prefix itself and everything below it: no such
/// request goes without a handler.
pub proof fn law_wildcard_serves_below<M, H>(
    routes: Map<(M, Seq<char>), H>,
    method: M,
    prefix: Seq<char>,
    rest: Seq<char>,
)
    requires
        routes.contains_key((method, wildcard(prefix))),
    ensures
        request_handler(routes, method, prefix) is Some,
        request_handler(routes, method, prefix.push('/') + rest) is Some,
{
    let run = split(prefix, '/');
    let whole = split(prefix.push('/') + rest, '/');
    lemma_split_some(prefix, '/');
    law_first_pieces_are_a_prefix(prefix, '/', run.len() as int);
    assert(run.take(run.len() as int) =~= run);
    lemma_wildcard_found(routes, method, run, run.len() as int);
    law_split_concat(prefix, rest, '/');
    assert(whole.take(run.len() as int) =~= run);
    lemma_wildcard_found(routes, method, whole, run.len() as int);
}

/// A request is handled only by a route registered for its own method, and for its own
/// endpoint or for a wildcard pattern over a leading part of it that ends before a slash
/// or at its end.
pub proof fn law_only_matching_routes<M, H>(
    routes: Map<(M, Seq<char>), H>,
    method: M,
    endpoint: Seq<char>,
)
    requires
        request_handler(routes, method, endpoint) is Some,
    ensures
        ({
            let handler = request_handler(routes, method, endpoint)->Some_0;
            ||| routes.contains_key((method, endpoint)) && handler == routes[(method, endpoint)]
            ||| exists|length: int|
                #![trigger endpoint.take(length)]
                0 <= length <= endpoint.len() && (length == endpoint.len() || endpoint[length]
                    == '/') && routes.contains_key((method, wildcard(endpoint.take(length))))
                    && handler == routes[(method, wildcard(endpoint.take(length)))]
        }),
{
    if !routes.contains_key((method, endpoint)) {
        let parts = split(endpoint, '/');
        let count = lemma_wildcard_origin(routes, method, parts);
        law_first_pieces_are_a_prefix(endpoint, '/', count);
        let head = join(parts.take(count), '/');
        assert(endpoint.take(head.len() as int) =~= head);
    }
}

/// The leading run from which a wildcard handler comes.
proof fn lemma_wildcard_origin<M, H>(
    routes: Map<(M, Seq<char>), H>,
    method: M,
    parts: Seq<Seq<char>>,
) -> (count: int)
    requires
        wildcard_handler(routes, method, parts) is Some,
    ensures
        0 < count <= parts.len(),
        routes.contains_key((method, wildcard(join(parts.take(count), '/')))),
        wildcard_handler(routes, method, parts) == Some(
            routes[(method, wildcard(join(parts.take(count), '/')))],
        ),
    decreases parts.len(),
{
    assert(parts.take(parts.len() as int) =~= parts);
    if routes.contains_key((method, wildcard(join(parts, '/')))) {
        parts.len() as int
    } else {
        let count = lemma_wildcard_origin(routes, method, parts.drop_last());
        assert(parts.drop_last().take(count) =~= parts.take(count));
        count
    }
}

/// The filters of a leading run come first.
proof fn lemma_filters_come_first<H>(
    filters: Map<Seq<char>, H>,
    parts: Seq<Seq<char>>,
    more: Seq<Seq<char>>,
)
    ensures
        filters_along(filters, parts).is_prefix_of(filters_along(filters, parts + more)),
    decreases more.len(),
{
    if more.len() == 0 {
        assert(parts + more =~= parts);
    } else {
        lemma_filters_come_first(filters, parts, more.drop_last());
        assert((parts + more).drop_last() =~= parts + more.drop_last());
    }
}

/// The filters of a path run for everything below it too, in the same order, before any
/// further filters; the filter for the path itself is the last of them.
pub proof fn law_outer_filters_run_first<H>(
    filters: Map<Seq<char>, H>,
    path: Seq<char>,
    rest: Seq<char>,
)
    ensures
        filters_along(filters, split(path, '/')).is_prefix_of(
            filters_along(filters, split(path.push('/') + rest, '/')),
        ),
        filter_at(filters, path) matches Some(filter) ==> filters_along(
            filters,
            split(path, '/'),
        ).len() > 0 && filters_along(filters, split(path, '/')).last() == filter,
{
    lemma_split_some(path, '/');
    law_join_split(path, '/');
    law_split_concat(path, rest, '/');
    lemma_filters_come_first(filters, split(path, '/'), split(rest, '/'));
}

/// Every leading part of a text that ends before a separator or at its end is made up of its
/// first pieces.
proof fn lemma_pieces_of_a_part(s: Seq<char>, sep: char, length: int) -> (count: int)
    requires
        0 <= length <= s.len(),
        length == s.len() || s[length] == sep,
    ensures
        0 < count <= split(s, sep).len(),
        join(split(s, sep).take(count), sep) == s.take(length),
{
    let head = s.take(length);
    let run = split(head, sep);
    lemma_split_some(head, sep);
    law_join_split(head, sep);
    if length == s.len() {
        assert(head =~= s);
        assert(run.take(run.len() as int) =~= run);
    } else {
        let rest = s.skip(length + 1);
        assert(s =~= head.push(sep) + rest);
        law_split_concat(head, rest, sep);
        assert(split(s, sep).take(run.len() as int) =~= run);
    }
    run.len() as int
}

/// More pieces make a longer text.
proof fn lemma_heads_grow(parts: Seq<Seq<char>>, fewer: int, more: int, sep: char)
    requires
        0 < fewer < more <= parts.len(),
    ensures
        join(parts.take(fewer), sep).len() < join(parts.take(more), sep).len(),
    decreases more,
{
    let longer = parts.take(more);
    assert(longer.drop_last() =~= parts.take(more - 1));
    if fewer < more - 1 {
        lemma_heads_grow(parts, fewer, more - 1, sep);
    }
}

/// A request without a route of its own is served by the wildcard route over the longest leading
/// part of its endpoint that has one, where a leading part ends before a slash or at the end.
pub proof fn law_longest_wildcard_is_served<M, H>(
    routes: Map<(M, Seq<char>), H>,
    method: M,
    endpoint: Seq<char>,
    length: int,
)
    requires
        0 <= length <= endpoint.len(),
        length == endpoint.len() || endpoint[length] == '/',
        routes.contains_key((method, endpoint.take(length) + "/*"@)),
        forall|longer: int|
            length < longer <= endpoint.len() && (longer == endpoint.len() || endpoint[longer]
                == '/') ==> !routes.contains_key(
                (method, #[trigger] endpoint.take(longer) + "/*"@),
            ),
    ensures
        wildcard_handler(routes, method, split(endpoint, '/')) == Some(
            routes[(method, endpoint.take(length) + "/*"@)],
        ),
        !routes.contains_key((method, endpoint)) ==> request_handler(routes, method, endpoint)
            == Some(routes[(method, endpoint.take(length) + "/*"@)]),
{
    let parts = split(endpoint, '/');
    let count = lemma_pieces_of_a_part(endpoint, '/', length);
    assert forall|longer: int| count < longer <= parts.len() implies !routes.contains_key(
        (method, wildcard(join(#[trigger] parts.take(longer), '/'))),
    ) by {
        lemma_heads_grow(parts, count, longer, '/');
        law_first_pieces_are_a_prefix(endpoint, '/', longer);
        let head = join(parts.take(longer), '/');
        assert(endpoint.take(head.len() as int) =~= head);
    }
    law_longest_wildcard_wins(routes, method, parts, count);
}

/// A request has no handler where neither its endpoint has a route nor any leading part of it,
/// up to a slash or to the end, has a wildcard route.
pub proof fn law_request_without_route_is_not_served<M, H>(
    routes: Map<(M, Seq<char>), H>,
    method: M,
    endpoint: Seq<char>,
)
    requires
        forall|length: int|
            0 <= length <= endpoint.len() && (length == endpoint.len() || endpoint[length] == '/')
                ==> !routes.contains_key((method, #[trigger] endpoint.take(length) + "/*"@)),
    ensures
        wildcard_handler(routes, method, split(endpoint, '/')) is None,
        !routes.contains_key((method, endpoint)) ==> request_handler(
            routes,
            method,
            endpoint,
        ) is None,
{
    let parts = split(endpoint, '/');
    assert forall|longer: int| 0 < longer <= parts.len() implies !routes.contains_key(
        (method, wildcard(join(#[trigger] parts.take(longer), '/'))),
    ) by {
        law_first_pieces_are_a_prefix(endpoint, '/', longer);
        let head = join(parts.take(longer), '/');
        assert(endpoint.take(head.len() as int) =~= head);
    }
    law_longest_wildcard_wins(routes, method, parts, 0);
}

/// The filters of the first pieces of an endpoint, and where the leading parts end to which they
/// belong.
proof fn lemma_filters_so_far<H>(filters: Map<Seq<char>, H>, endpoint: Seq<char>, count: int) -> (
    ends: Seq<int>)
    requires
        0 <= count <= split(endpoint, '/').len(),
    ensures
        ({
            let parts = split(endpoint, '/');
            let found = filters_along(filters, parts.take(count));
            &&& found.len() == ends.len()
            &&& forall|i: int, j: int|
                0 <= i < j < ends.len() ==> #[trigger] ends[i] < #[trigger] ends[j]
            &&& forall|i: int|
                0 <= i < ends.len() ==> count > 0 && 0 <= #[trigger] ends[i] <= join(
                    parts.take(count),
                    '/',
                ).len()
            &&& forall|i: int|
                0 <= i < ends.len() ==> (#[trigger] ends[i] == endpoint.len() || (ends[i]
                    < endpoint.len() && endpoint[ends[i]] == '/'))
            &&& forall|i: int|
                #![trigger ends[i]]
                0 <= i < ends.len() ==> {
                    let part = endpoint.take(ends[i]);
                    if filters.contains_key(part) {
                        found[i] == filters[part]
                    } else {
                        filters.contains_key(part + "/*"@) && found[i] == filters[part + "/*"@]
                    }
                }
            &&& forall|some: int|
                0 < some <= count && filter_at(
                    filters,
                    join(#[trigger] parts.take(some), '/'),
                ) is Some ==> ends.contains(join(parts.take(some), '/').len() as int)
        }),
    decreases count,
{
    let parts = split(endpoint, '/');
    if count == 0 {
        Seq::empty()
    } else {
        let before = lemma_filters_so_far(filters, endpoint, count - 1);
        let run = parts.take(count);
        assert(run.drop_last() =~= parts.take(count - 1));
        law_first_pieces_are_a_prefix(endpoint, '/', count);
        let head = join(run, '/');
        let length = head.len() as int;
        assert(endpoint.take(length) =~= head);
        if count > 1 {
            lemma_heads_grow(parts, count - 1, count, '/');
        }
        let ends = if filter_at(filters, head) is Some {
            before.push(length)
        } else {
            before
        };
        assert forall|some: int|
            0 < some <= count && filter_at(
                filters,
                join(#[trigger] parts.take(some), '/'),
            ) is Some implies ends.contains(join(parts.take(some), '/').len() as int) by {
            if some < count {
                let end = join(parts.take(some), '/').len() as int;
                assert(before.contains(end));
                let k = choose|k: int| 0 <= k < before.len() && before[k] == end;
                assert(ends[k] == end);
            } else {
                assert(ends[ends.len() - 1] == length);
            }
        }
        ends
    }
}

/// The filters that run for an endpoint are those of its leading parts, where a leading part ends
/// before a slash or at the end, from the shortest part to the longest. Of each part the filter
/// of the part itself runs, else that of the pattern for everything below it; every part that has
/// one of the two has its filter run, and no others run. `ends` tells where the parts end whose
/// filters run.
pub proof fn law_filters_of_an_endpoint<H>(filters: Map<Seq<char>, H>, endpoint: Seq<char>) -> (ends:
    Seq<int>)
    ensures
        filters_along(filters, split(endpoint, '/')).len() == ends.len(),
        forall|i: int, j: int| 0 <= i < j < ends.len() ==> #[trigger] ends[i] < #[trigger] ends[j],
        forall|i: int|
            0 <= i < ends.len() ==> 0 <= #[trigger] ends[i] <= endpoint.len() && (ends[i]
                == endpoint.len() || endpoint[ends[i]] == '/'),
        forall|i: int|
            #![trigger ends[i]]
            0 <= i < ends.len() ==> {
                let part = endpoint.take(ends[i]);
                let found = filters_along(filters, split(endpoint, '/'))[i];
                if filters.contains_key(part) {
                    found == filters[part]
                } else {
                    filters.contains_key(part + "/*"@) && found == filters[part + "/*"@]
                }
            },
        forall|end: int|
            0 <= end <= endpoint.len() && (end == endpoint.len() || endpoint[end] == '/') && (
            filters.contains_key(#[trigger] endpoint.take(end)) || filters.contains_key(
                endpoint.take(end) + "/*"@,
            )) ==> ends.contains(end),
{
    let parts = split(endpoint, '/');
    let ends = lemma_filters_so_far(filters, endpoint, parts.len() as int);
    assert(parts.take(parts.len() as int) =~= parts);
    law_join_split(endpoint, '/');
    assert forall|end: int|
        0 <= end <= endpoint.len() && (end == endpoint.len() || endpoint[end] == '/') && (
        filters.contains_key(#[trigger] endpoint.take(end)) || filters.contains_key(
            endpoint.take(end) + "/*"@,
        )) implies ends.contains(end) by {
        let some = lemma_pieces_of_a_part(endpoint, '/', end);
        assert(filter_at(filters, join(parts.take(some), '/')) is Some);
    }
    ends
}

/// Filters run one after the other, each once, as long as they pass the request on, and the next
/// is always the one after those that have run.
pub proof fn law_filters_take_turns<E>(count: usize, ran: usize, sent: usize, error: E)
    ensures
        ran < count ==> filter_step(count, ran, Ok::<usize, E>(0)) == FilterStep::Run(ran),
        ran >= count ==> filter_step(count, ran, Ok::<usize, E>(0)) is Pass,
        sent > 0 ==> filter_step(count, ran, Ok::<usize, E>(sent)) is Stop,
        filter_step(count, ran, Err::<usize, E>(error)) == FilterStep::Fail(INTERNAL_SERVER_ERROR),
{
}

/// What stands behind a list of references is in the order of the list.
pub proof fn law_targets_keep_their_order<T>(list: Seq<&T>)
    ensures
        targets(list).len() == list.len(),
        forall|i: int| 0 <= i < list.len() ==> #[trigger] targets(list)[i] == *list[i],
{
}

} // verus!
