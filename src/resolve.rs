use vstd::prelude::*;
use crate::error::ParameterError;
use crate::identifier::IdentifierOption;
use crate::record::PureRecord;
use crate::vec_util::reversed;

verus! {

/// The texts of a sequence of strings.
pub open spec fn views(s: Seq<String>) -> Seq<Seq<char>> {
    s.map_values(|x: String| x@)
}

/// Some substance occurs twice in the request.
pub open spec fn has_duplicates(requested: Seq<String>) -> bool {
    exists|a: int, b: int| 0 <= a < b < requested.len() && requested[a]@ == requested[b]@
}

/// `record` is known as `key` under `option`.
pub open spec fn matches_key<M>(record: PureRecord<M>, key: Seq<char>, option: IdentifierOption) -> bool {
    record.identifier.key(option) == Some(key)
}

/// Some record is known as `key` under `option`.
pub open spec fn has_match<M>(records: Seq<PureRecord<M>>, key: Seq<char>, option: IdentifierOption) -> bool {
    exists|k: int| 0 <= k < records.len() && matches_key(records[k], key, option)
}

/// `k` is the position of the first record known as `key` under `option`.
pub open spec fn is_first_match<M>(
    records: Seq<PureRecord<M>>,
    key: Seq<char>,
    option: IdentifierOption,
    k: int,
) -> bool {
    &&& 0 <= k < records.len()
    &&& matches_key(records[k], key, option)
    &&& forall|l: int| 0 <= l < k ==> !matches_key(#[trigger] records[l], key, option)
}

/// Every requested substance has a record.
pub open spec fn all_matched<M>(
    requested: Seq<String>,
    records: Seq<PureRecord<M>>,
    option: IdentifierOption,
) -> bool {
    forall|j: int| 0 <= j < requested.len() ==> has_match(records, #[trigger] requested[j]@, option)
}

/// The position of the first record known as `key`.
pub open spec fn first_index<M>(records: Seq<PureRecord<M>>, key: Seq<char>, option: IdentifierOption) -> int {
    choose|k: int| is_first_match(records, key, option, k)
}

/// For each requested substance, in the order of the request, the first record
/// known by its name.
pub open spec fn resolved<M>(
    requested: Seq<String>,
    records: Seq<PureRecord<M>>,
    option: IdentifierOption,
) -> Seq<PureRecord<M>> {
    Seq::new(requested.len(), |j: int| records[first_index(records, requested[j]@, option)])
}

/// The requested substances that no record is known as, in the order of the request.
pub open spec fn unmatched<M>(
    requested: Seq<String>,
    records: Seq<PureRecord<M>>,
    option: IdentifierOption,
) -> Seq<Seq<char>>
    decreases requested.len(),
{
    if requested.len() == 0 {
        Seq::empty()
    } else {
        let rest = unmatched(requested.drop_last(), records, option);
        if has_match(records, requested.last()@, option) {
            rest
        } else {
            rest.push(requested.last()@)
        }
    }
}

/// The number of empty places.
pub open spec fn count_none<T>(s: Seq<Option<T>>) -> nat
    decreases s.len(),
{
    if s.len() == 0 {
        0
    } else {
        count_none(s.drop_last()) + if s.last() is None { 1nat } else { 0nat }
    }
}

proof fn lemma_count_none_fill<T>(s: Seq<Option<T>>, j: int, v: T)
    requires
        0 <= j < s.len(),
        s[j] is None,
    ensures
        count_none(s.update(j, Some(v))) + 1 == count_none(s),
    decreases s.len(),
{
    let u = s.update(j, Some(v));
    if j == s.len() - 1 {
        assert(u.drop_last() =~= s.drop_last());
    } else {
        assert(u.drop_last() =~= s.drop_last().update(j, Some(v)));
        lemma_count_none_fill(s.drop_last(), j, v);
    }
}

proof fn lemma_count_none_zero<T>(s: Seq<Option<T>>)
    ensures
        count_none(s) == 0 <==> forall|j: int| 0 <= j < s.len() ==> s[j] is Some,
    decreases s.len(),
{
    if s.len() > 0 {
        lemma_count_none_zero(s.drop_last());
        if count_none(s) == 0 {
            assert forall|j: int| 0 <= j < s.len() implies s[j] is Some by {
                if j < s.len() - 1 {
                    assert(s[j] == s.drop_last()[j]);
                }
            }
        }
        if forall|j: int| 0 <= j < s.len() ==> s[j] is Some {
            assert forall|j: int| 0 <= j < s.drop_last().len() implies s.drop_last()[j] is Some by {
                assert(s[j] == s.drop_last()[j]);
            }
        }
    }
}

/// Two first matches are one.
proof fn lemma_first_match_unique<M>(
    records: Seq<PureRecord<M>>,
    key: Seq<char>,
    option: IdentifierOption,
    k1: int,
    k2: int,
)
    requires
        is_first_match(records, key, option, k1),
        is_first_match(records, key, option, k2),
    ensures
        k1 == k2,
{
    if k1 < k2 {
        assert(!matches_key(records[k1], key, option));
    } else if k2 < k1 {
        assert(!matches_key(records[k2], key, option));
    }
}

/// Where some record is known as `key`, `first_index` is the first such record.
proof fn lemma_first_index<M>(records: Seq<PureRecord<M>>, key: Seq<char>, option: IdentifierOption, k: int)
    requires
        0 <= k < records.len(),
        matches_key(records[k], key, option),
    ensures
        is_first_match(records, key, option, first_index(records, key, option)),
    decreases k,
{
    if exists|l: int| 0 <= l < k && matches_key(records[l], key, option) {
        let l = choose|l: int| 0 <= l < k && matches_key(records[l], key, option);
        lemma_first_index(records, key, option, l);
    } else {
        assert(is_first_match(records, key, option, k));
    }
}

/// Where every requested substance has a record, the resolved records are
/// known by exactly the requested names, in the order of the request, whatever
/// the order of the records.
pub proof fn lemma_order_preserved<M>(
    requested: Seq<String>,
    records: Seq<PureRecord<M>>,
    option: IdentifierOption,
)
    requires
        all_matched(requested, records, option),
    ensures
        resolved(requested, records, option).len() == requested.len(),
        forall|j: int|
            0 <= j < requested.len() ==> (#[trigger] resolved(requested, records, option)[j]).identifier.key(
                option,
            ) == Some(requested[j]@),
{
    assert forall|j: int| 0 <= j < requested.len() implies (#[trigger] resolved(
        requested,
        records,
        option,
    )[j]).identifier.key(option) == Some(requested[j]@) by {
        assert(has_match(records, requested[j]@, option));
        let k = choose|k: int| 0 <= k < records.len() && matches_key(records[k], requested[j]@, option);
        lemma_first_index(records, requested[j]@, option, k);
    }
}

/// A request that names one substance at two places is a duplicate request,
/// whatever the records are.
pub proof fn lemma_repeated_request(requested: Seq<String>, a: int, b: int)
    requires
        0 <= a < b < requested.len(),
        requested[a]@ == requested[b]@,
    ensures
        has_duplicates(requested),
{
}

/// Of two records known by the same name, the first one is selected.
pub proof fn lemma_first_match_wins<M>(
    key: String,
    first: PureRecord<M>,
    second: PureRecord<M>,
    option: IdentifierOption,
)
    requires
        matches_key(first, key@, option),
        matches_key(second, key@, option),
    ensures
        all_matched(seq![key], seq![first, second], option),
        resolved(seq![key], seq![first, second], option) == seq![first],
{
    let records = seq![first, second];
    assert(matches_key(records[0], seq![key][0]@, option));
    lemma_first_index(records, key@, option, 0);
    assert(resolved(seq![key], records, option) =~= seq![first]);
}

/// Records that follow a list in which every requested substance already has a
/// record never change the result.
pub proof fn lemma_trailing_records_ignored<M>(
    requested: Seq<String>,
    prefix: Seq<PureRecord<M>>,
    rest: Seq<PureRecord<M>>,
    option: IdentifierOption,
)
    requires
        all_matched(requested, prefix, option),
    ensures
        all_matched(requested, prefix + rest, option),
        resolved(requested, prefix + rest, option) == resolved(requested, prefix, option),
{
    let all = prefix + rest;
    assert forall|j: int| 0 <= j < requested.len() implies all[first_index(all, requested[j]@, option)]
        == prefix[first_index(prefix, requested[j]@, option)] && has_match(all, #[trigger] requested[j]@, option) by {
        let key = requested[j]@;
        assert(has_match(prefix, key, option));
        let k = choose|k: int| 0 <= k < prefix.len() && matches_key(prefix[k], key, option);
        lemma_first_index(prefix, key, option, k);
        let f = first_index(prefix, key, option);
        assert(all[f] == prefix[f]);
        assert(is_first_match(all, key, option, f)) by {
            assert forall|l: int| 0 <= l < f implies !matches_key(#[trigger] all[l], key, option) by {
                assert(all[l] == prefix[l]);
            }
        }
        lemma_first_index(all, key, option, f);
        lemma_first_match_unique(all, key, option, f, first_index(all, key, option));
    }
    assert(resolved(requested, all, option) =~= resolved(requested, prefix, option));
}

/// Decides whether some substance occurs twice in the request.
fn find_duplicate(requested: &[String]) -> (r: bool)
    ensures
        r == has_duplicates(requested@),
{
    let m = requested.len();
    let mut b: usize = 0;
    while b < m
        invariant
            m == requested@.len(),
            b <= m,
            forall|x: int, y: int| 0 <= x < y < b ==> requested@[x]@ != requested@[y]@,
        decreases m - b,
    {
        let mut a: usize = 0;
        while a < b
            invariant
                m == requested@.len(),
                a <= b < m,
                forall|x: int| 0 <= x < a ==> requested@[x]@ != requested@[b as int]@,
            decreases b - a,
        {
            if requested[a] == requested[b] {
                return true;
            }
            a += 1;
        }
        b += 1;
    }
    false
}

/// The place of the still unfilled request named `id`, if there is one.
fn pending_index<M>(requested: &[String], slots: &Vec<Option<PureRecord<M>>>, id: &String) -> (r: Option<usize>)
    requires
        slots@.len() == requested@.len(),
    ensures
        r matches Some(j) ==> j < requested@.len() && slots@[j as int] is None && requested@[j as int]@ == id@,
        r is None ==> forall|j: int|
            0 <= j < requested@.len() && slots@[j] is None ==> requested@[j]@ != id@,
{
    let mut j: usize = 0;
    while j < requested.len()
        invariant
            slots@.len() == requested@.len(),
            forall|x: int| 0 <= x < j && slots@[x] is None ==> requested@[x]@ != id@,
        decreases requested@.len() - j,
    {
        if slots[j].is_none() && requested[j] == *id {
            return Some(j);
        }
        j += 1;
    }
    None
}

impl<M> PureRecord<M> {
    /// Selects, for each requested substance in the order of the request, the
    /// first of `records` that is known by its name under `option`.
    ///
    /// A request that names a substance twice fails with `DuplicateRequest`
    /// before any record is looked at. Substances without a record are all
    /// reported at once in `UnresolvedSubstances`.
    pub fn resolve(requested: &[String], records: Vec<Self>, option: IdentifierOption) -> (r: Result<
        Vec<Self>,
        ParameterError,
    >)
        ensures
            match r {
                Ok(v) => !has_duplicates(requested@) && all_matched(requested@, records@, option)
                    && v@ == resolved(requested@, records@, option),
                Err(ParameterError::DuplicateRequest) => has_duplicates(requested@),
                Err(ParameterError::UnresolvedSubstances(u)) => !has_duplicates(requested@)
                    && !all_matched(requested@, records@, option) && views(u@) == unmatched(
                    requested@,
                    records@,
                    option,
                ),
                Err(_) => false,
            },
    {
        if find_duplicate(requested) {
            return Err(ParameterError::DuplicateRequest);
        }
        let ghost cands = records@;
        let ghost req = requested@;
        let m = requested.len();
        let n = records.len();
        let mut stack = reversed(records);
        let mut slots: Vec<Option<Self>> = Vec::new();
        let mut k: usize = 0;
        while k < m
            invariant
                k <= m,
                slots@.len() == k,
                count_none(slots@) == k,
                forall|j: int| 0 <= j < k ==> slots@[j] is None,
            decreases m - k,
        {
            let ghost before = slots@;
            slots.push(None);
            assert(slots@.drop_last() =~= before);
            k += 1;
        }
        let ghost mut idx: Seq<int> = Seq::new(m as nat, |j: int| 0);
        let mut pending: usize = m;
        let mut i: usize = 0;
        while pending > 0 && i < n
            invariant
                m == req.len(),
                n == cands.len(),
                req == requested@,
                !has_duplicates(req),
                i <= n,
                stack@.len() == n - i,
                forall|t: int| 0 <= t < n - i ==> stack@[t] == cands[n - 1 - t],
                slots@.len() == m,
                idx.len() == m,
                pending == count_none(slots@),
                forall|j: int|
                    0 <= j < m && slots@[j] is Some ==> 0 <= idx[j] < i && is_first_match(
                        cands,
                        req[j]@,
                        option,
                        idx[j],
                    ) && slots@[j] == Some(cands[idx[j]]),
                forall|j: int, l: int|
                    0 <= j < m && slots@[j] is None && 0 <= l < i ==> !#[trigger] matches_key(cands[l], req[j]@, option),
            decreases n - i,
        {
            let cand = stack.pop().unwrap();
            assert(cand == cands[i as int]);
            let hit = match cand.identifier.as_str(option) {
                Some(id) => pending_index(requested, &slots, id),
                None => None,
            };
            match hit {
                Some(j) => {
                    proof {
                        lemma_count_none_fill(slots@, j as int, cand);
                        idx = idx.update(j as int, i as int);
                        assert forall|x: int| 0 <= x < m && x != j && slots@[x] is None implies !matches_key(
                            cands[i as int],
                            req[x]@,
                            option,
                        ) by {
                            if matches_key(cands[i as int], req[x]@, option) {
                                if x < j {
                                    assert(req[x]@ == req[j as int]@);
                                } else {
                                    assert(req[j as int]@ == req[x]@);
                                }
                            }
                        }
                    }
                    slots[j] = Some(cand);
                    pending -= 1;
                },
                None => {},
            }
            i += 1;
        }
        proof {
            lemma_count_none_zero(slots@);
        }
        if pending == 0 {
            assert forall|j: int| 0 <= j < m implies has_match(cands, #[trigger] req[j]@, option) by {
                assert(matches_key(cands[idx[j]], req[j]@, option));
            }
            let ghost filled = slots@;
            let mut rev: Vec<Self> = Vec::new();
            while slots.len() > 0
                invariant
                    filled.len() == m,
                    forall|j: int| 0 <= j < m ==> filled[j] is Some,
                    slots@ == filled.take(slots@.len() as int),
                    rev@.len() + slots@.len() == m,
                    forall|t: int| 0 <= t < rev@.len() ==> Some(rev@[t]) == filled[m - 1 - t],
                decreases slots@.len(),
            {
                let s = slots.pop().unwrap();
                rev.push(s.unwrap());
            }
            let out = reversed(rev);
            proof {
                assert forall|j: int| 0 <= j < m implies out@[j] == resolved(req, cands, option)[j] by {
                    let f = first_index(cands, req[j]@, option);
                    assert(is_first_match(cands, req[j]@, option, idx[j]));
                    lemma_first_match_unique(cands, req[j]@, option, f, idx[j]);
                }
                assert(out@ =~= resolved(req, cands, option));
            }
            Ok(out)
        } else {
            let mut missing: Vec<String> = Vec::new();
            let mut j: usize = 0;
            while j < m
                invariant
                    i == n,
                    n == cands.len(),
                    m == req.len(),
                    req == requested@,
                    j <= m,
                    slots@.len() == m,
                    idx.len() == m,
                    forall|x: int| 0 <= x < m && slots@[x] is Some ==> is_first_match(cands, req[x]@, option, idx[x]),
                    forall|x: int, l: int|
                        0 <= x < m && slots@[x] is None && 0 <= l < n ==> !#[trigger] matches_key(cands[l], req[x]@, option),
                    views(missing@) == unmatched(req.take(j as int), cands, option),
                decreases m - j,
            {
                let ghost before = missing@;
                assert(req.take(j as int + 1).drop_last() =~= req.take(j as int));
                assert(req.take(j as int + 1).last() == req[j as int]);
                if slots[j].is_none() {
                    assert(!has_match(cands, req[j as int]@, option));
                    missing.push(requested[j].clone());
                    assert(views(missing@) =~= views(before).push(req[j as int]@));
                } else {
                    assert(matches_key(cands[idx[j as int]], req[j as int]@, option));
                }
                j += 1;
            }
            assert(req.take(m as int) =~= req);
            let ghost jj = choose|jj: int| 0 <= jj < m && slots@[jj] is None;
            assert(!has_match(cands, req[jj]@, option));
            Err(ParameterError::UnresolvedSubstances(missing))
        }
    }
}

} // verus!
