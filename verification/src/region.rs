//! Regions of the service: finding the project name that a user means.

use crate::text::option_text;
use vstd::prelude::*;

verus! {

/// How far the name of a city may be from what the user wrote and still be
/// taken for it.
pub const LEVENSHTEIN_THRESHOLD: usize = 4;

/// How many regions are known.
pub const REGION_COUNT: usize = 12;

/// The city of each known region.
pub open spec fn region_names() -> Seq<Seq<char>> {
    seq![
        "santiago"@,
        "johannesburg"@,
        "bangkok"@,
        "hong-kong"@,
        "singapore"@,
        "beijing"@,
        "guiyang"@,
        "shanghai"@,
        "mexico-city"@,
        "sao-paulo"@,
        "riyadh"@,
        "istanbul"@,
    ]
}

/// The project name of each known region, in the order of `region_names`.
pub open spec fn region_codes() -> Seq<Seq<char>> {
    seq![
        "la-south-2"@,
        "af-south-1"@,
        "ap-southeast-2"@,
        "ap-southeast-1"@,
        "ap-southeast-3"@,
        "cn-north-4"@,
        "cn-southwest-2"@,
        "cn-east-3"@,
        "la-north-1"@,
        "sa-brazil-1"@,
        "me-west-1"@,
        "tr-west-1"@,
    ]
}

/// The city of the region at position `i`.
pub fn region_name(i: usize) -> (r: &'static str)
    requires
        i < REGION_COUNT,
    ensures
        r@ == region_names()[i as int],
{
    if i == 0 {
        "santiago"
    } else if i == 1 {
        "johannesburg"
    } else if i == 2 {
        "bangkok"
    } else if i == 3 {
        "hong-kong"
    } else if i == 4 {
        "singapore"
    } else if i == 5 {
        "beijing"
    } else if i == 6 {
        "guiyang"
    } else if i == 7 {
        "shanghai"
    } else if i == 8 {
        "mexico-city"
    } else if i == 9 {
        "sao-paulo"
    } else if i == 10 {
        "riyadh"
    } else {
        "istanbul"
    }
}

/// The project name of the region at position `i`.
pub fn region_code(i: usize) -> (r: &'static str)
    requires
        i < REGION_COUNT,
    ensures
        r@ == region_codes()[i as int],
{
    if i == 0 {
        "la-south-2"
    } else if i == 1 {
        "af-south-1"
    } else if i == 2 {
        "ap-southeast-2"
    } else if i == 3 {
        "ap-southeast-1"
    } else if i == 4 {
        "ap-southeast-3"
    } else if i == 5 {
        "cn-north-4"
    } else if i == 6 {
        "cn-southwest-2"
    } else if i == 7 {
        "cn-east-3"
    } else if i == 8 {
        "la-north-1"
    } else if i == 9 {
        "sa-brazil-1"
    } else if i == 10 {
        "me-west-1"
    } else {
        "tr-west-1"
    }
}

/// The least of three numbers.
pub open spec fn least_of(a: nat, b: nat, c: nat) -> nat {
    if a <= b && a <= c {
        a
    } else if b <= c {
        b
    } else {
        c
    }
}

/// The Levenshtein distance of two texts: the least number of characters to
/// insert, delete or replace that turns the one into the other.
pub open spec fn edit_distance(a: Seq<char>, b: Seq<char>) -> nat
    decreases a.len() + b.len(),
{
    if a.len() == 0 {
        b.len()
    } else if b.len() == 0 {
        a.len()
    } else {
        least_of(
            edit_distance(a.drop_last(), b) + 1,
            edit_distance(a, b.drop_last()) + 1,
            edit_distance(a.drop_last(), b.drop_last()) + if a.last() == b.last() {
                0nat
            } else {
                1nat
            },
        )
    }
}

/// Calls `strsim::levenshtein`.
///
/// Trusted: the result is the Levenshtein distance of the two texts, counted
/// in characters.
#[verifier::external_body]
pub(crate) fn levenshtein(a: &str, b: &str) -> (r: usize)
    ensures
        r == edit_distance(a@, b@),
{
    strsim::levenshtein(a, b)
}

/// Whether position `i` is the first whose distance is the least of all and
/// within the threshold.
pub open spec fn is_closest(distances: Seq<usize>, i: int) -> bool {
    &&& 0 <= i < distances.len()
    &&& distances[i] <= LEVENSHTEIN_THRESHOLD
    &&& forall|j: int| 0 <= j < i ==> distances[j] > distances[i]
    &&& forall|j: int| i < j < distances.len() ==> distances[j] >= distances[i]
}

/// Picks the position of the least distance, the first one among equals,
/// where that distance is within the threshold.
pub fn closest(distances: &Vec<usize>) -> (r: Option<usize>)
    ensures
        match r {
            Some(i) => is_closest(distances@, i as int),
            None => forall|j: int|
                0 <= j < distances@.len() ==> distances@[j] > LEVENSHTEIN_THRESHOLD,
        },
{
    let mut best: Option<usize> = None;
    let mut i: usize = 0;
    while i < distances.len()
        invariant
            i <= distances@.len(),
            match best {
                Some(b) => is_closest(distances@.take(i as int), b as int),
                None => forall|j: int| 0 <= j < i ==> distances@[j] > LEVENSHTEIN_THRESHOLD,
            },
        decreases distances@.len() - i,
    {
        let d = distances[i];
        let better = match best {
            Some(b) => d < distances[b],
            None => d <= LEVENSHTEIN_THRESHOLD,
        };
        if better {
            best = Some(i);
        }
        i = i + 1;
    }
    proof {
        assert(distances@.take(distances@.len() as int) =~= distances@);
    }
    best
}

/// Whether position `i` is the first region whose project name is `input`.
pub open spec fn is_exact_match(input: Seq<char>, i: int) -> bool {
    &&& 0 <= i < REGION_COUNT
    &&& region_codes()[i] == input
    &&& forall|j: int| 0 <= j < i ==> region_codes()[j] != input
}

/// The distance of `input` from the city of each region.
pub open spec fn name_distances(input: Seq<char>) -> Seq<usize> {
    Seq::new(REGION_COUNT as nat, |i: int| edit_distance(input, region_names()[i]) as usize)
}

/// Whether the region at position `i` is the one that `input` stands for: the
/// first whose project name it is, or, where it is no project name, the first
/// among those whose city is closest to it and within the threshold.
pub open spec fn is_chosen_region(input: Seq<char>, i: int) -> bool {
    &&& 0 <= i < REGION_COUNT
    &&& is_exact_match(input, i) || ((forall|j: int|
        0 <= j < REGION_COUNT ==> region_codes()[j] != input) && is_closest(
        name_distances(input),
        i,
    ))
}

/// Why no region was found.
#[derive(Debug, Clone, Copy, PartialEq, Eq, Structural)]
pub enum RegionError {
    /// Neither the command line nor the environment names a region.
    NotProvided,
    /// The input is no project name, and no city is close enough to it.
    NoCloseMatch,
}

/// Whether `outcome` is what the search for `input` gives: the project name of
/// the region that is chosen, or a failure where the input is no project name
/// and no city lies within the threshold.
pub open spec fn is_region_outcome(input: Seq<char>, outcome: Result<Seq<char>, RegionError>)
    -> bool {
    match outcome {
        Ok(code) => exists|i: int| #[trigger] is_chosen_region(input, i) && code == region_codes()[i],
        Err(e) => {
            &&& e == RegionError::NoCloseMatch
            &&& forall|j: int| 0 <= j < REGION_COUNT ==> region_codes()[j] != input
            &&& forall|j: int|
                0 <= j < REGION_COUNT ==> edit_distance(input, region_names()[j])
                    > LEVENSHTEIN_THRESHOLD
        },
    }
}

/// The outcome of a search, by its mathematical value.
pub open spec fn region_text(r: Result<String, RegionError>) -> Result<Seq<char>, RegionError> {
    match r {
        Ok(code) => Ok(code@),
        Err(e) => Err(e),
    }
}

/// Finds the project name that `input_region` stands for: itself where it is
/// one; else that of the city whose name is closest to it, the first of the
/// table among equally close ones, where it is within the threshold.
pub fn fuzzy_match_region(input_region: &str) -> (r: Result<String, RegionError>)
    ensures
        is_region_outcome(input_region@, region_text(r)),
{
    let wanted = input_region.to_owned();
    let mut i: usize = 0;
    while i < REGION_COUNT
        invariant
            i <= REGION_COUNT,
            wanted@ == input_region@,
            forall|j: int| 0 <= j < i ==> region_codes()[j] != input_region@,
        decreases REGION_COUNT - i,
    {
        let code = region_code(i).to_owned();
        if code == wanted {
            proof {
                assert(is_chosen_region(input_region@, i as int));
            }
            return Ok(code);
        }
        i = i + 1;
    }
    let mut distances: Vec<usize> = Vec::new();
    let mut k: usize = 0;
    while k < REGION_COUNT
        invariant
            k <= REGION_COUNT,
            distances@.len() == k,
            forall|j: int| 0 <= j < REGION_COUNT ==> region_codes()[j] != input_region@,
            forall|j: int|
                0 <= j < k ==> distances@[j] == edit_distance(input_region@, region_names()[j]),
        decreases REGION_COUNT - k,
    {
        distances.push(levenshtein(input_region, region_name(k)));
        k = k + 1;
    }
    proof {
        assert(distances@ =~= name_distances(input_region@));
    }
    match closest(&distances) {
        Some(at) => {
            let code = region_code(at).to_owned();
            proof {
                assert(is_chosen_region(input_region@, at as int));
            }
            Ok(code)
        },
        None => {
            proof {
                assert forall|j: int| 0 <= j < REGION_COUNT implies edit_distance(
                    input_region@,
                    region_names()[j],
                ) > LEVENSHTEIN_THRESHOLD by {
                    assert(distances@[j] > LEVENSHTEIN_THRESHOLD);
                }
            }
            Err(RegionError::NoCloseMatch)
        },
    }
}

/// `text` with each letter in lower case, as `str::to_lowercase` gives it.
pub uninterp spec fn lowercase_text(text: Seq<char>) -> Seq<char>;

/// Calls `str::to_lowercase`.
///
/// Trusted: the result is the text named `lowercase_text`.
#[verifier::external_body]
pub(crate) fn to_lowercase(text: &str) -> (r: String)
    ensures
        r@ == lowercase_text(text@),
{
    text.to_lowercase()
}

/// The region that the user names: the one of the command line, or else the
/// one of the environment.
pub open spec fn named_region(cli_region: Option<Seq<char>>, env_region: Option<Seq<char>>)
    -> Option<Seq<char>> {
    match cli_region {
        Some(r) => Some(r),
        None => env_region,
    }
}

/// Finds the project name of the region that the user names, on the command
/// line or else in the environment; the name is looked up in lower case.
pub fn resolve_region(cli_region: &Option<String>, env_region: &Option<String>) -> (r: Result<
    String,
    RegionError,
>)
    ensures
        match named_region(option_text(*cli_region), option_text(*env_region)) {
            Some(input) => is_region_outcome(lowercase_text(input), region_text(r)),
            None => r == Err::<String, RegionError>(RegionError::NotProvided),
        },
{
    let input = match cli_region {
        Some(region) => region,
        None => match env_region {
            Some(region) => region,
            None => {
                return Err(RegionError::NotProvided);
            },
        },
    };
    let lowered = to_lowercase(input.as_str());
    fuzzy_match_region(lowered.as_str())
}

} // verus!
