use vstd::prelude::*;

verus! {

/// What serde_json makes of a text when asked for a JSON string:
/// the string's characters, or `None` when the text is not one.
pub uninterp spec fn json_string_of(text: Seq<char>) -> Option<Seq<char>>;

/// Relies on `serde_json::from_str::<String>`: the outcome depends on the text alone.
#[verifier::external_body]
fn parse_json_string(text: &str) -> (r: Option<String>)
    ensures
        match r {
            Some(s) => json_string_of(text@) == Some(s@),
            None => json_string_of(text@) is None,
        },
{
    serde_json::from_str::<String>(text).ok()
}

/// The characters of each string.
pub open spec fn views(s: Seq<String>) -> Seq<Seq<char>> {
    s.map_values(|a: String| a@)
}

/// How many different strings the sequence holds.
pub open spec fn distinct_count(s: Seq<Seq<char>>) -> nat {
    s.to_set().len()
}

/// Every row is a JSON string.
pub open spec fn all_decode(rows: Seq<String>) -> bool {
    forall|i: int| 0 <= i < rows.len() ==> (#[trigger] json_string_of(rows[i]@)) is Some
}

/// The address that each row holds.
pub open spec fn decoded(rows: Seq<String>) -> Seq<Seq<char>> {
    rows.map_values(|t: String| json_string_of(t@)->0)
}

fn contains_address(seen: &Vec<String>, a: &String) -> (r: bool)
    ensures
        r == views(seen@).contains(a@),
{
    let mut j: usize = 0;
    while j < seen.len()
        invariant
            j <= seen.len(),
            forall|k: int| 0 <= k < j ==> seen@[k]@ != a@,
        decreases seen.len() - j,
    {
        if seen[j] == *a {
            assert(views(seen@)[j as int] == a@);
            return true;
        }
        j += 1;
    }
    proof {
        if views(seen@).contains(a@) {
            let k = choose|k: int| 0 <= k < views(seen@).len() && views(seen@)[k] == a@;
            assert(seen@[k]@ == a@);
        }
    }
    false
}

/// Counts the different addresses in `addresses`.
pub fn count_distinct(addresses: &Vec<String>) -> (r: usize)
    ensures
        r == distinct_count(views(addresses@)),
{
    let mut seen: Vec<String> = Vec::new();
    let mut i: usize = 0;
    while i < addresses.len()
        invariant
            i <= addresses.len(),
            seen.len() <= i,
            views(seen@).no_duplicates(),
            views(seen@).to_set() == views(addresses@.subrange(0, i as int)).to_set(),
        decreases addresses.len() - i,
    {
        let ghost before = seen@;
        let a = &addresses[i];
        assert(views(addresses@.subrange(0, i + 1)) == views(addresses@.subrange(0, i as int)).push(a@));
        proof {
            views(addresses@.subrange(0, i as int)).lemma_push_to_set_commute(a@);
        }
        if !contains_address(&seen, a) {
            seen.push(a.clone());
            assert(views(seen@) == views(before).push(a@));
            proof {
                views(before).lemma_push_to_set_commute(a@);
            }
        } else {
            assert(views(seen@).to_set().contains(a@));
            assert(views(seen@).to_set().insert(a@) == views(seen@).to_set());
        }
        i += 1;
    }
    assert(addresses@.subrange(0, addresses.len() as int) == addresses@);
    proof {
        views(seen@).unique_seq_to_set();
    }
    seen.len()
}

/// Decodes each row into the address it holds; `None` when a row is not a
/// JSON string, which marks the stored data as malformed.
pub fn decode_addresses(rows: &Vec<String>) -> (r: Option<Vec<String>>)
    ensures
        match r {
            Some(v) => all_decode(rows@) && views(v@) == decoded(rows@),
            None => !all_decode(rows@),
        },
{
    let mut out: Vec<String> = Vec::new();
    let mut i: usize = 0;
    while i < rows.len()
        invariant
            i <= rows.len(),
            out.len() == i,
            forall|k: int| 0 <= k < i ==> (#[trigger] json_string_of(rows@[k]@)) is Some,
            forall|k: int| 0 <= k < i ==> out@[k]@ == (#[trigger] json_string_of(rows@[k]@))->0,
        decreases rows.len() - i,
    {
        match parse_json_string(rows[i].as_str()) {
            Some(a) => out.push(a),
            None => {
                assert(json_string_of(rows@[i as int]@) is None);
                return None;
            },
        }
        i += 1;
    }
    assert(views(out@) == decoded(rows@));
    Some(out)
}

/// Counts the different addresses that the rows hold, or `None` when a row
/// does not decode.
pub fn active_address_count(rows: &Vec<String>) -> (r: Option<usize>)
    ensures
        r is Some <==> all_decode(rows@),
        r matches Some(n) ==> n == distinct_count(decoded(rows@)) && n <= rows.len(),
{
    match decode_addresses(rows) {
        Some(addresses) => {
            let n = count_distinct(&addresses);
            proof {
                views(addresses@).lemma_cardinality_of_set();
            }
            Some(n)
        },
        None => None,
    }
}

/// The number of distinct addresses does not depend on the order of the
/// records, nor on how often an address repeats beyond once: two sequences
/// with the same elements have the same count.
pub proof fn lemma_distinct_count_order_independent(a: Seq<Seq<char>>, b: Seq<Seq<char>>)
    requires
        a.to_multiset() == b.to_multiset(),
    ensures
        distinct_count(a) == distinct_count(b),
{
    assert forall|x: Seq<char>| a.to_set().contains(x) <==> b.to_set().contains(x) by {
        vstd::seq_lib::to_multiset_contains(a, x);
        vstd::seq_lib::to_multiset_contains(b, x);
        assert(a.to_set().contains(x) == a.contains(x));
        assert(b.to_set().contains(x) == b.contains(x));
    }
    assert(a.to_set() == b.to_set());
}

} // verus!
