//! The dispatcher's decisions: which single HTTP call a command stands
//! for. Making the call is left to the caller.

use vstd::prelude::*;
use crate::input::Command;
use crate::input::FormPair;

verus! {

/// Seconds after which a call is given up.
pub const TIMEOUT_SECS: u64 = 10;

/// The HTTP method of a call.
#[derive(Clone, Copy, Debug, PartialEq, Eq, Structural)]
pub enum Method {
    Get,
    Post,
}

/// The key-to-value mapping that a list of pairs stands for: the pairs are
/// entered in order, so a later pair replaces an earlier one of the same
/// key.
pub open spec fn request_mapping(pairs: Seq<FormPair>) -> Map<Seq<char>, Seq<char>>
    decreases pairs.len(),
{
    if pairs.len() == 0 {
        Map::empty()
    } else {
        request_mapping(pairs.drop_last()).insert(pairs.last().key@, pairs.last().value@)
    }
}

/// Whether no key occurs twice.
pub open spec fn keys_distinct(entries: Seq<FormPair>) -> bool {
    forall|i: int, j: int|
        0 <= i < j < entries.len() ==> (#[trigger] entries[i]).key@ != (#[trigger] entries[j]).key@
}

/// Whether `key` is the key of some pair.
pub open spec fn has_key(pairs: Seq<FormPair>, key: Seq<char>) -> bool {
    exists|i: int| 0 <= i < pairs.len() && (#[trigger] pairs[i]).key@ == key
}

/// The mapping's keys are the keys of the pairs.
pub proof fn lemma_mapping_keys(pairs: Seq<FormPair>)
    ensures
        forall|key: Seq<char>| request_mapping(pairs).contains_key(key) <==> has_key(pairs, key),
    decreases pairs.len(),
{
    if pairs.len() > 0 {
        let before = pairs.drop_last();
        lemma_mapping_keys(before);
        assert forall|key: Seq<char>| request_mapping(pairs).contains_key(key) implies has_key(
            pairs,
            key,
        ) by {
            if key == pairs.last().key@ {
                assert(pairs[pairs.len() - 1].key@ == key);
            } else {
                assert(has_key(before, key));
                let i = choose|i: int| 0 <= i < before.len() && (#[trigger] before[i]).key@ == key;
                assert(pairs[i].key@ == key);
            }
        }
        assert forall|key: Seq<char>| has_key(pairs, key) implies request_mapping(
            pairs,
        ).contains_key(key) by {
            let i = choose|i: int| 0 <= i < pairs.len() && (#[trigger] pairs[i]).key@ == key;
            if i < pairs.len() - 1 {
                assert(before[i].key@ == key);
                assert(has_key(before, key));
                assert(request_mapping(before).contains_key(key));
            } else {
                assert(pairs.last().key@ == key);
            }
        }
    }
}

/// Last write wins: a key is mapped to the value of the last pair that
/// has it.
pub proof fn lemma_last_write_wins(pairs: Seq<FormPair>, at: int)
    requires
        0 <= at < pairs.len(),
        forall|later: int| at < later < pairs.len() ==> (#[trigger] pairs[later]).key@ != pairs[at].key@,
    ensures
        request_mapping(pairs).contains_key(pairs[at].key@),
        request_mapping(pairs)[pairs[at].key@] == pairs[at].value@,
    decreases pairs.len(),
{
    if at < pairs.len() - 1 {
        let before = pairs.drop_last();
        assert(pairs[pairs.len() - 1].key@ != pairs[at].key@);
        assert forall|later: int| at < later < before.len() implies (#[trigger] before[later]).key@
            != before[at].key@ by {
            assert(pairs[later].key@ != pairs[at].key@);
        }
        lemma_last_write_wins(before, at);
    }
}

/// Replacing the value of a key that occurs once replaces it in the
/// mapping.
proof fn lemma_replace_value(entries: Seq<FormPair>, at: int, pair: FormPair)
    requires
        keys_distinct(entries),
        0 <= at < entries.len(),
        pair.key@ == entries[at].key@,
    ensures
        keys_distinct(entries.update(at, pair)),
        request_mapping(entries.update(at, pair)) == request_mapping(entries).insert(
            pair.key@,
            pair.value@,
        ),
    decreases entries.len(),
{
    let changed = entries.update(at, pair);
    assert(keys_distinct(changed)) by {
        assert forall|i: int, j: int| 0 <= i < j < changed.len() implies (#[trigger] changed[i]).key@
            != (#[trigger] changed[j]).key@ by {
            assert(entries[i].key@ != entries[j].key@);
        }
    }
    if at == entries.len() - 1 {
        assert(changed.drop_last() =~= entries.drop_last());
        assert(request_mapping(changed) =~= request_mapping(entries).insert(pair.key@, pair.value@));
    } else {
        let before = entries.drop_last();
        assert(keys_distinct(before)) by {
            assert forall|i: int, j: int| 0 <= i < j < before.len() implies (#[trigger] before[i]).key@
                != (#[trigger] before[j]).key@ by {
                assert(entries[i].key@ != entries[j].key@);
            }
        }
        lemma_replace_value(before, at, pair);
        assert(changed.drop_last() =~= before.update(at, pair));
        assert(entries[at].key@ != entries[entries.len() - 1].key@);
        assert(request_mapping(changed) =~= request_mapping(entries).insert(pair.key@, pair.value@));
    }
}

/// The body of a POST: a mapping from keys to values, kept as a list in
/// which no key occurs twice.
#[derive(Debug, PartialEq, Eq)]
pub struct RequestBody {
    entries: Vec<FormPair>,
}

impl View for RequestBody {
    type V = Map<Seq<char>, Seq<char>>;

    closed spec fn view(&self) -> Map<Seq<char>, Seq<char>> {
        request_mapping(self.entries@)
    }
}

impl RequestBody {
    #[verifier::type_invariant]
    spec fn unique(self) -> bool {
        keys_distinct(self.entries@)
    }

    /// The mapping's entries, each key once.
    pub fn entries(&self) -> (entries: &Vec<FormPair>)
        ensures
            keys_distinct(entries@),
            request_mapping(entries@) == self@,
    {
        proof {
            use_type_invariant(self);
        }
        &self.entries
    }
}

/// Where `key` stands among `entries`, if it does.
fn position_of(entries: &Vec<FormPair>, key: &String) -> (found: Option<usize>)
    ensures
        match found {
            Some(at) => at < entries.len() && entries@[at as int].key@ == key@,
            None => !has_key(entries@, key@),
        },
{
    let mut i: usize = 0;
    while i < entries.len()
        invariant
            i <= entries.len(),
            forall|j: int| 0 <= j < i ==> (#[trigger] entries@[j]).key@ != key@,
        decreases entries.len() - i,
    {
        if entries[i].key == *key {
            return Some(i);
        }
        i = i + 1;
    }
    None
}

/// Collapses the pairs of a POST into its body: each key once, with the
/// value of its last pair.
pub fn collapse(pairs: &Vec<FormPair>) -> (body: RequestBody)
    ensures
        body@ == request_mapping(pairs@),
{
    let mut entries: Vec<FormPair> = Vec::new();
    let mut i: usize = 0;
    while i < pairs.len()
        invariant
            i <= pairs.len(),
            keys_distinct(entries@),
            request_mapping(entries@) == request_mapping(pairs@.take(i as int)),
        decreases pairs.len() - i,
    {
        let pair = FormPair { key: pairs[i].key.clone(), value: pairs[i].value.clone() };
        proof {
            assert(pairs@.take(i + 1).drop_last() =~= pairs@.take(i as int));
        }
        match position_of(&entries, &pair.key) {
            Some(at) => {
                proof {
                    lemma_replace_value(entries@, at as int, pair);
                }
                entries.set(at, pair);
            },
            None => {
                proof {
                    assert(entries@.push(pair).drop_last() =~= entries@);
                    assert forall|a: int, b: int| 0 <= a < b < entries@.len() + 1 implies (
                    #[trigger] entries@.push(pair)[a]).key@ != (#[trigger] entries@.push(
                        pair,
                    )[b]).key@ by {
                        if b < entries@.len() {
                            assert(entries@[a].key@ != entries@[b].key@);
                        } else {
                            assert(entries@[a].key@ != pair.key@);
                        }
                    }
                }
                entries.push(pair);
            },
        }
        i = i + 1;
    }
    proof {
        assert(pairs@.take(pairs.len() as int) =~= pairs@);
    }
    RequestBody { entries }
}

/// The one HTTP call that a command stands for.
#[derive(Debug, PartialEq, Eq)]
pub struct RequestPlan {
    pub method: Method,
    pub url: String,
    pub timeout_secs: u64,
    /// The mapping to send as a JSON object, for a POST.
    pub body: Option<RequestBody>,
}

/// Plans the call for a command. A GET goes to the command's URL without a
/// body; a POST goes there with the collapsed pairs as its body. Either is
/// given up after [`TIMEOUT_SECS`] seconds.
pub fn plan_request(command: &Command) -> (plan: RequestPlan)
    ensures
        plan.url@ == command.url(),
        plan.timeout_secs == TIMEOUT_SECS,
        match *command {
            Command::Get { .. } => plan.method == Method::Get && plan.body is None,
            Command::Post { body, .. } => plan.method == Method::Post && (plan.body matches Some(
                sent,
            ) && sent@ == request_mapping(body@)),
        },
{
    match command {
        Command::Get { url } => RequestPlan {
            method: Method::Get,
            url: url.as_str().to_owned(),
            timeout_secs: TIMEOUT_SECS,
            body: None,
        },
        Command::Post { url, body } => RequestPlan {
            method: Method::Post,
            url: url.as_str().to_owned(),
            timeout_secs: TIMEOUT_SECS,
            body: Some(collapse(body)),
        },
    }
}

} // verus!
