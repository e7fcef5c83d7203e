//! The reports collected for each request slot, and their aggregation by
//! majority vote.
//!
//! A slot holds one entry per reporter, in arrival order. An entry is
//! absent when the reporter did not answer. An entry that is present but
//! is not text counts as an abstention. Among the remaining texts the
//! value that occurs strictly more often than every other value wins.
use vstd::prelude::*;
use crate::codec::{decode_report, report_parse};
use crate::error::{AggregationError, RegistryMisuseError, ScriptError};

verus! {

/// The texts of a sequence of strings.
pub open spec fn texts(v: Seq<String>) -> Seq<Seq<char>> {
    Seq::new(v.len(), |i: int| v[i]@)
}

/// The entries of one slot as plain values.
pub open spec fn entries(v: Seq<Option<Vec<u8>>>) -> Seq<Option<Seq<u8>>> {
    Seq::new(
        v.len(),
        |i: int|
            match v[i] {
                Some(b) => Some(b@),
                None => None,
            },
    )
}

/// The slots of a store as plain values.
pub open spec fn slots(v: Seq<Vec<Option<Vec<u8>>>>) -> Seq<Seq<Option<Seq<u8>>>> {
    Seq::new(v.len(), |i: int| entries(v[i]@))
}

/// How often `value` occurs among `votes`.
pub open spec fn occurrences(votes: Seq<Seq<char>>, value: Seq<char>) -> nat
    decreases votes.len(),
{
    if votes.len() == 0 {
        0
    } else {
        occurrences(votes.drop_last(), value) + if votes.last() == value {
            1nat
        } else {
            0nat
        }
    }
}

/// True when `value` was voted for, and more often than any other value.
pub open spec fn wins(votes: Seq<Seq<char>>, value: Seq<char>) -> bool {
    &&& occurrences(votes, value) > 0
    &&& forall|other: Seq<char>|
        other != value ==> #[trigger] occurrences(votes, other) < occurrences(votes, value)
}

/// The winning value, if there is one.
pub open spec fn winner(votes: Seq<Seq<char>>) -> Option<Seq<char>> {
    if exists|value: Seq<char>| wins(votes, value) {
        Some(choose|value: Seq<char>| wins(votes, value))
    } else {
        None
    }
}

/// The votes cast in one slot: the texts of the decodable entries, in
/// arrival order.
pub open spec fn decoded_votes(raw: Seq<Option<Seq<u8>>>) -> Seq<Seq<char>>
    decreases raw.len(),
{
    if raw.len() == 0 {
        Seq::empty()
    } else {
        let rest = decoded_votes(raw.drop_last());
        match raw.last() {
            Some(bytes) => match report_parse(bytes) {
                Some(text) => rest.push(text),
                None => rest,
            },
            None => rest,
        }
    }
}

/// True when the store holds reports for `slot`. Slots count from one.
pub open spec fn slot_issued(store: Seq<Seq<Option<Seq<u8>>>>, slot: u64) -> bool {
    1 <= slot <= store.len()
}

/// What aggregation of `slot` yields.
pub open spec fn majority_outcome(store: Seq<Seq<Option<Seq<u8>>>>, slot: u64) -> Result<
    Seq<char>,
    ScriptError,
> {
    if !slot_issued(store, slot) {
        Err(ScriptError::RegistryMisuse(RegistryMisuseError::Misuse))
    } else {
        match winner(decoded_votes(store[slot - 1])) {
            Some(value) => Ok(value),
            None => Err(ScriptError::Aggregation(AggregationError::NoMajority)),
        }
    }
}

/// At most one value wins.
pub proof fn lemma_winner_unique(votes: Seq<Seq<char>>, a: Seq<char>, b: Seq<char>)
    requires
        wins(votes, a),
        wins(votes, b),
    ensures
        a == b,
{
    if a != b {
        assert(occurrences(votes, b) < occurrences(votes, a));
        assert(occurrences(votes, a) < occurrences(votes, b));
    }
}

/// A value that wins is the winner.
pub proof fn lemma_winner_is(votes: Seq<Seq<char>>, value: Seq<char>)
    requires
        wins(votes, value),
    ensures
        winner(votes) == Some(value),
{
    let chosen = choose|v: Seq<char>| wins(votes, v);
    lemma_winner_unique(votes, value, chosen);
}

/// A value occurs among the votes exactly when some vote equals it.
pub proof fn lemma_occurrences_positive(votes: Seq<Seq<char>>, value: Seq<char>)
    ensures
        occurrences(votes, value) > 0 <==> exists|k: int|
            0 <= k < votes.len() && #[trigger] votes[k] == value,
    decreases votes.len(),
{
    if votes.len() > 0 {
        let front = votes.drop_last();
        lemma_occurrences_positive(front, value);
        if occurrences(votes, value) > 0 {
            if votes.last() == value {
                assert(votes[votes.len() - 1] == value);
            } else {
                let k = choose|k: int| 0 <= k < front.len() && #[trigger] front[k] == value;
                assert(votes[k] == value);
            }
        }
        if exists|k: int| 0 <= k < votes.len() && #[trigger] votes[k] == value {
            let k = choose|k: int| 0 <= k < votes.len() && #[trigger] votes[k] == value;
            if k < front.len() {
                assert(front[k] == value);
            }
        }
    }
}

/// Two different values cannot both have more votes than fit.
pub proof fn lemma_occurrences_share(votes: Seq<Seq<char>>, a: Seq<char>, b: Seq<char>)
    requires
        a != b,
    ensures
        occurrences(votes, a) + occurrences(votes, b) <= votes.len(),
    decreases votes.len(),
{
    if votes.len() > 0 {
        lemma_occurrences_share(votes.drop_last(), a, b);
    }
}

/// A value with more than half of the votes wins.
pub proof fn lemma_absolute_majority_wins(votes: Seq<Seq<char>>, value: Seq<char>)
    requires
        2 * occurrences(votes, value) > votes.len(),
    ensures
        winner(votes) == Some(value),
{
    assert forall|other: Seq<char>| other != value implies #[trigger] occurrences(votes, other)
        < occurrences(votes, value) by {
        lemma_occurrences_share(votes, value, other);
    }
    lemma_winner_is(votes, value);
}

/// The number of occurrences of a value is its multiplicity in the
/// multiset of the votes.
pub proof fn lemma_occurrences_is_multiplicity(votes: Seq<Seq<char>>, value: Seq<char>)
    ensures
        occurrences(votes, value) == votes.to_multiset().count(value),
    decreases votes.len(),
{
    if votes.len() == 0 {
        votes.to_multiset_ensures();
        assert(votes.to_multiset().len() == 0);
    } else {
        let front = votes.drop_last();
        lemma_occurrences_is_multiplicity(front, value);
        vstd::seq_lib::to_multiset_build(front, votes.last());
        assert(votes =~= front.push(votes.last()));
    }
}

/// The winner depends on the votes as a multiset: the order in which
/// the reports arrived does not matter.
pub proof fn lemma_winner_ignores_order(a: Seq<Seq<char>>, b: Seq<Seq<char>>)
    requires
        a.to_multiset() == b.to_multiset(),
    ensures
        winner(a) == winner(b),
{
    assert forall|value: Seq<char>| occurrences(a, value) == occurrences(b, value) by {
        lemma_occurrences_is_multiplicity(a, value);
        lemma_occurrences_is_multiplicity(b, value);
    }
    if exists|value: Seq<char>| wins(a, value) {
        let value = choose|value: Seq<char>| wins(a, value);
        assert(wins(b, value));
        lemma_winner_is(b, value);
    } else if exists|value: Seq<char>| wins(b, value) {
        let value = choose|value: Seq<char>| wins(b, value);
        assert(wins(a, value));
    }
}

/// Without votes there is no winner.
pub proof fn lemma_no_votes_no_winner(votes: Seq<Seq<char>>)
    requires
        votes.len() == 0,
    ensures
        winner(votes) is None,
{
    assert forall|value: Seq<char>| !wins(votes, value) by {}
}

/// Counts the votes for `value`.
pub fn count_votes(votes: &Vec<String>, value: &String) -> (r: usize)
    ensures
        r == occurrences(texts(votes@), value@),
{
    let ghost all = texts(votes@);
    let mut count: usize = 0;
    let mut i: usize = 0;
    while i < votes.len()
        invariant
            i <= votes.len(),
            all == texts(votes@),
            count <= i,
            count == occurrences(all.take(i as int), value@),
        decreases votes.len() - i,
    {
        proof {
            assert(all.take(i + 1).drop_last() =~= all.take(i as int));
            assert(all.take(i + 1).last() == votes@[i as int]@);
        }
        if votes[i] == *value {
            count = count + 1;
        }
        i = i + 1;
    }
    proof {
        assert(all.take(i as int) =~= all);
    }
    count
}

/// Selects the value that occurs strictly more often than every other
/// value. There is none when the votes are empty or the lead is shared.
pub fn plurality(votes: &Vec<String>) -> (r: Option<String>)
    ensures
        match r {
            Some(value) => winner(texts(votes@)) == Some(value@),
            None => winner(texts(votes@)) is None,
        },
{
    let ghost all = texts(votes@);
    let n = votes.len();
    if n == 0 {
        proof {
            lemma_no_votes_no_winner(all);
        }
        return None;
    }
    let mut best: usize = 0;
    let mut best_count = count_votes(votes, &votes[0]);
    let mut i: usize = 1;
    while i < n
        invariant
            n == votes.len(),
            all == texts(votes@),
            1 <= i <= n,
            best < n,
            best_count == occurrences(all, all[best as int]),
            forall|j: int| 0 <= j < i ==> occurrences(all, #[trigger] all[j]) <= best_count,
        decreases n - i,
    {
        let c = count_votes(votes, &votes[i]);
        if c > best_count {
            best = i;
            best_count = c;
        }
        i = i + 1;
    }
    let ghost lead = all[best as int];
    let mut j: usize = 0;
    while j < n
        invariant
            n == votes.len(),
            all == texts(votes@),
            j <= n,
            best < n,
            lead == all[best as int],
            best_count == occurrences(all, lead),
            forall|k: int| 0 <= k < n ==> occurrences(all, #[trigger] all[k]) <= best_count,
            forall|k: int|
                0 <= k < j && all[k] != lead ==> occurrences(all, #[trigger] all[k]) < best_count,
        decreases n - j,
    {
        if votes[j] != votes[best] {
            let c = count_votes(votes, &votes[j]);
            if c == best_count {
                proof {
                    let rival = all[j as int];
                    assert forall|value: Seq<char>| !wins(all, value) by {
                        if wins(all, value) {
                            lemma_occurrences_positive(all, value);
                            let k = choose|k: int| 0 <= k < all.len() && #[trigger] all[k] == value;
                            assert(occurrences(all, all[k]) <= best_count);
                            if value != lead {
                                assert(occurrences(all, lead) < occurrences(all, value));
                            } else {
                                assert(occurrences(all, rival) < occurrences(all, value));
                            }
                        }
                    }
                }
                return None;
            }
        }
        j = j + 1;
    }
    proof {
        lemma_occurrences_positive(all, lead);
        assert(all[best as int] == lead);
        assert forall|other: Seq<char>| other != lead implies #[trigger] occurrences(all, other)
            < occurrences(all, lead) by {
            lemma_occurrences_positive(all, other);
            if occurrences(all, other) > 0 {
                let k = choose|k: int| 0 <= k < all.len() && #[trigger] all[k] == other;
                assert(occurrences(all, all[k]) < best_count);
            }
        }
        lemma_winner_is(all, lead);
    }
    Some(votes[best].clone())
}

/// Decodes the entries of one slot, leaving out the absent and the
/// undecodable ones.
pub fn decode_reports(raw: &Vec<Option<Vec<u8>>>) -> (r: Vec<String>)
    ensures
        texts(r@) == decoded_votes(entries(raw@)),
{
    let ghost all = entries(raw@);
    let mut out: Vec<String> = Vec::new();
    let mut i: usize = 0;
    proof {
        assert(texts(out@) =~= decoded_votes(all.take(0)));
    }
    while i < raw.len()
        invariant
            i <= raw.len(),
            all == entries(raw@),
            texts(out@) == decoded_votes(all.take(i as int)),
        decreases raw.len() - i,
    {
        let ghost before = out@;
        proof {
            assert(all.take(i + 1).drop_last() =~= all.take(i as int));
            assert(all.take(i + 1).last() == all[i as int]);
        }
        match &raw[i] {
            Some(bytes) => {
                match decode_report(bytes.as_slice()) {
                    Ok(text) => {
                        out.push(text);
                        proof {
                            assert(texts(out@) =~= texts(before).push(text@));
                        }
                    },
                    Err(_) => {},
                }
            },
            None => {},
        }
        i = i + 1;
    }
    proof {
        assert(all.take(i as int) =~= all);
    }
    out
}

/// The reports that the host collected, one sequence per request slot.
#[derive(Debug)]
pub struct ReportStore {
    slots: Vec<Vec<Option<Vec<u8>>>>,
}

impl View for ReportStore {
    type V = Seq<Seq<Option<Seq<u8>>>>;

    closed spec fn view(&self) -> Seq<Seq<Option<Seq<u8>>>> {
        slots(self.slots@)
    }
}

impl ReportStore {
    /// A store whose first element holds the reports for slot one, the
    /// second those for slot two, and so on.
    pub fn new(reports: Vec<Vec<Option<Vec<u8>>>>) -> (r: ReportStore)
        ensures
            r@ == slots(reports@),
    {
        ReportStore { slots: reports }
    }

    /// The number of slots that have reports.
    pub fn slot_count(&self) -> (r: usize)
        ensures
            r == self@.len(),
    {
        self.slots.len()
    }

    /// Every reporter's entry for `slot`, in arrival order. Fails exactly
    /// when the slot was never requested.
    pub fn reports_for(&self, slot: u64) -> (r: Result<&Vec<Option<Vec<u8>>>, RegistryMisuseError>)
        ensures
            slot_issued(self@, slot) ==> r is Ok && entries(r.unwrap()@) == self@[slot - 1],
            !slot_issued(self@, slot) ==> r is Err && r.unwrap_err() == RegistryMisuseError::Misuse,
    {
        if slot == 0 || slot > self.slots.len() as u64 {
            Err(RegistryMisuseError::Misuse)
        } else {
            Ok(&self.slots[(slot - 1) as usize])
        }
    }

    /// The majority value of `slot`. Fails with a misuse error when the
    /// slot was never requested, and with `NoMajority` when no value
    /// leads alone.
    pub fn majority(&self, slot: u64) -> (r: Result<String, ScriptError>)
        ensures
            match majority_outcome(self@, slot) {
                Ok(value) => r is Ok && r.unwrap()@ == value,
                Err(e) => r is Err && r.unwrap_err() == e,
            },
    {
        match self.reports_for(slot) {
            Err(e) => Err(ScriptError::RegistryMisuse(e)),
            Ok(raw) => {
                let votes = decode_reports(raw);
                match plurality(&votes) {
                    Some(value) => Ok(value),
                    None => Err(ScriptError::Aggregation(AggregationError::NoMajority)),
                }
            },
        }
    }
}

} // verus!
