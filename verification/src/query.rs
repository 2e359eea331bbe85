//! Query strings.
use vstd::prelude::*;
use serde_json::Value;
use crate::json::{is_object, members, set_text_member, text_members};

verus! {

/// The pairs that `form_urlencoded::parse` reads from a query string, in order.
pub uninterp spec fn query_pairs(text: Seq<char>) -> Seq<(Seq<char>, Seq<char>)>;

/// The contents of a list of pairs of strings.
pub open spec fn pair_texts(pairs: Seq<(String, String)>) -> Seq<(Seq<char>, Seq<char>)> {
    Seq::new(pairs.len(), |i: int| (pairs[i].0@, pairs[i].1@))
}

/// Calls `form_urlencoded::parse` on the bytes of the text and collects the owned pairs.
/// Claims that the pairs depend on the text alone and that the empty text has none.
#[verifier::external_body]
pub(crate) fn parse_pairs(text: &str) -> (pairs: Vec<(String, String)>)
    ensures
        pair_texts(pairs@) == query_pairs(text@),
        text@.len() == 0 ==> pairs@.len() == 0,
{
    form_urlencoded::parse(text.as_bytes()).into_owned().collect()
}

/// `members` after the pairs have been put in one after the other: the last pair of a
/// name counts.
pub open spec fn with_pairs(
    members: Map<Seq<char>, Seq<char>>,
    pairs: Seq<(Seq<char>, Seq<char>)>,
) -> Map<Seq<char>, Seq<char>>
    decreases pairs.len(),
{
    if pairs.len() == 0 {
        members
    } else {
        with_pairs(members, pairs.drop_last()).insert(pairs.last().0, pairs.last().1)
    }
}

/// Whether a value has the same members as before but for those that the pairs name.
pub open spec fn others_kept(
    before: Value,
    after: Value,
    pairs: Seq<(Seq<char>, Seq<char>)>,
) -> bool {
    forall|name: Seq<char>|
        (forall|i: int| 0 <= i < pairs.len() ==> (#[trigger] pairs[i]).0 != name) ==> {
            &&& #[trigger] members(after).contains_key(name) == members(before).contains_key(name)
            &&& members(before).contains_key(name) ==> members(after)[name] == members(before)[name]
        }
}

/// Puts pairs into a JSON object as string members; any other value stays as it is.
pub fn insert_pairs(pairs: &Vec<(String, String)>, params: &mut Value)
    ensures
        is_object(*final(params)) == is_object(*old(params)),
        is_object(*old(params)) ==> others_kept(*old(params), *final(params), pair_texts(pairs@)),
        is_object(*old(params)) ==> text_members(*final(params)) == with_pairs(
            text_members(*old(params)),
            pair_texts(pairs@),
        ),
        !is_object(*old(params)) ==> *final(params) == *old(params),
{
    let mut i: usize = 0;
    let ghost all = pair_texts(pairs@);
    assert(all.take(0) =~= Seq::<(Seq<char>, Seq<char>)>::empty());
    while i < pairs.len()
        invariant
            i <= pairs@.len(),
            all == pair_texts(pairs@),
            is_object(*params) == is_object(*old(params)),
            is_object(*old(params)) ==> others_kept(*old(params), *params, all.take(i as int)),
            is_object(*old(params)) ==> text_members(*params) == with_pairs(
                text_members(*old(params)),
                all.take(i as int),
            ),
            !is_object(*old(params)) ==> *params == *old(params),
        decreases pairs@.len() - i,
    {
        let ghost before = *params;
        set_text_member(params, pairs[i].0.clone(), pairs[i].1.clone());
        proof {
            let shorter = all.take(i as int);
            let longer = all.take(i + 1);
            assert(longer.drop_last() == shorter);
            if is_object(*old(params)) {
                assert(text_members(*params) =~= text_members(before).insert(
                    all[i as int].0,
                    all[i as int].1,
                ));
                assert forall|name: Seq<char>|
                    (forall|k: int| 0 <= k < longer.len() ==> (#[trigger] longer[k]).0
                        != name) implies {
                    &&& #[trigger] members(*params).contains_key(name) == members(
                        *old(params),
                    ).contains_key(name)
                    &&& members(*old(params)).contains_key(name) ==> members(*params)[name]
                        == members(*old(params))[name]
                } by {
                    assert(longer[i as int].0 != name);
                    assert forall|k: int| 0 <= k < shorter.len() implies (#[trigger] shorter[k]).0
                        != name by {
                        assert(longer[k].0 != name);
                    }
                    assert(members(before).contains_key(name) == members(
                        *old(params),
                    ).contains_key(name));
                }
            }
        }
        i += 1;
    }
    assert(all.take(i as int) == all);
}

/// Puts the parameters of the query string `qs` into the JSON object `params`.
pub fn decode_query(qs: &str, params: &mut Value)
    ensures
        is_object(*final(params)) == is_object(*old(params)),
        is_object(*old(params)) ==> others_kept(*old(params), *final(params), query_pairs(qs@)),
        is_object(*old(params)) ==> text_members(*final(params)) == with_pairs(
            text_members(*old(params)),
            query_pairs(qs@),
        ),
        !is_object(*old(params)) ==> *final(params) == *old(params),
        qs@.len() == 0 && is_object(*old(params)) ==> members(*final(params)) == members(
            *old(params),
        ),
{
    let pairs = parse_pairs(qs);
    insert_pairs(&pairs, params);
    proof {
        if qs@.len() == 0 && is_object(*old(params)) {
            assert(members(*params).dom() =~= members(*old(params)).dom());
            assert(members(*params) =~= members(*old(params)));
        }
    }
}

/// A parameter has the value of the last pair of its name.
pub proof fn law_last_pair_counts(
    members: Map<Seq<char>, Seq<char>>,
    pairs: Seq<(Seq<char>, Seq<char>)>,
    at: int,
)
    requires
        0 <= at < pairs.len(),
        forall|later: int| at < later < pairs.len() ==> (#[trigger] pairs[later]).0 != pairs[at].0,
    ensures
        with_pairs(members, pairs).contains_key(pairs[at].0),
        with_pairs(members, pairs)[pairs[at].0] == pairs[at].1,
    decreases pairs.len(),
{
    if at < pairs.len() - 1 {
        assert(pairs[pairs.len() - 1].0 != pairs[at].0);
        assert forall|later: int| at < later < pairs.drop_last().len() implies (
        #[trigger] pairs.drop_last()[later]).0 != pairs.drop_last()[at].0 by {
            assert(pairs[later].0 != pairs[at].0);
        }
        law_last_pair_counts(members, pairs.drop_last(), at);
    }
}

/// A parameter that a pair names is there.
pub proof fn lemma_named_is_there(
    members: Map<Seq<char>, Seq<char>>,
    pairs: Seq<(Seq<char>, Seq<char>)>,
    at: int,
)
    requires
        0 <= at < pairs.len(),
    ensures
        with_pairs(members, pairs).contains_key(pairs[at].0),
    decreases pairs.len(),
{
    if at < pairs.len() - 1 {
        lemma_named_is_there(members, pairs.drop_last(), at);
    }
}

/// A member that no pair names keeps its value.
pub proof fn law_other_members_stay(
    members: Map<Seq<char>, Seq<char>>,
    pairs: Seq<(Seq<char>, Seq<char>)>,
    name: Seq<char>,
)
    requires
        forall|i: int| 0 <= i < pairs.len() ==> (#[trigger] pairs[i]).0 != name,
    ensures
        with_pairs(members, pairs).contains_key(name) == members.contains_key(name),
        members.contains_key(name) ==> with_pairs(members, pairs)[name] == members[name],
    decreases pairs.len(),
{
    if pairs.len() > 0 {
        assert(pairs[pairs.len() - 1].0 != name);
        assert forall|i: int| 0 <= i < pairs.drop_last().len() implies (
        #[trigger] pairs.drop_last()[i]).0 != name by {
            assert(pairs[i].0 != name);
        }
        law_other_members_stay(members, pairs.drop_last(), name);
    }
}

/// The contents of a list of pairs are the names and the values of the pairs, in order.
pub proof fn law_pairs_are_listed_in_order(pairs: Seq<(String, String)>)
    ensures
        pair_texts(pairs).len() == pairs.len(),
        forall|i: int|
            0 <= i < pairs.len() ==> (#[trigger] pair_texts(pairs)[i]).0 == pairs[i].0@
                && pair_texts(pairs)[i].1 == pairs[i].1@,
{
}

/// What is put into an object leaves alone every member that no pair names.
pub proof fn law_other_members_are_kept(
    before: Value,
    after: Value,
    pairs: Seq<(Seq<char>, Seq<char>)>,
    name: Seq<char>,
)
    requires
        others_kept(before, after, pairs),
        forall|i: int| 0 <= i < pairs.len() ==> (#[trigger] pairs[i]).0 != name,
    ensures
        members(after).contains_key(name) <==> members(before).contains_key(name),
        members(before).contains_key(name) ==> members(after)[name] == members(before)[name],
{
    assert(members(after).contains_key(name) == members(before).contains_key(name));
}

} // verus!
