use vstd::prelude::*;

use crate::matcher::fuzzy_score;
use crate::matcher::fuzzy_score_of;
use crate::models::Friend;
use crate::models::UserSummary;
use crate::service::Error;
use crate::text::eq_ignore_ascii_case;
use crate::text::is_valid_u64_string;
use crate::text::lower_chars;
use crate::text::parse_u64;
use crate::text::parsed_u64;

verus! {

/// A summary matches an input name strictly: the persona name equals
/// the input once both are ASCII lower-cased.
pub open spec fn strict_matches(summary: UserSummary, name: Seq<char>) -> bool {
    lower_chars(summary.personaname@) == lower_chars(name)
}

/// `s[j]` is the first summary strictly matching `name`.
pub open spec fn is_first_strict_match(s: Seq<UserSummary>, name: Seq<char>, j: int) -> bool {
    &&& 0 <= j < s.len()
    &&& strict_matches(s[j], name)
    &&& forall|k: int| 0 <= k < j ==> !strict_matches(#[trigger] s[k], name)
}

pub open spec fn has_strict_match(s: Seq<UserSummary>, name: Seq<char>) -> bool {
    exists|j: int| is_first_strict_match(s, name, j)
}

/// A name strictly resolves to an id: its first match's string id is
/// a valid decimal.
pub open spec fn strict_resolvable(s: Seq<UserSummary>, name: Seq<char>) -> bool {
    exists|j: int| is_first_strict_match(s, name, j) && is_valid_u64_string(s[j].steamid@)
}

/// `id` is the parsed string id of the first summary strictly
/// matching `name`.
pub open spec fn strictly_resolved_id(s: Seq<UserSummary>, name: Seq<char>, id: u64) -> bool {
    exists|j: int| #[trigger] is_first_strict_match(s, name, j) && id == parsed_u64(s[j].steamid@)
}

fn find_strict_match(summaries: &Vec<UserSummary>, name: &str) -> (r: Option<usize>)
    ensures
        r matches Some(j) ==> is_first_strict_match(summaries@, name@, j as int),
        r is None ==> !has_strict_match(summaries@, name@),
{
    let mut j: usize = 0;
    while j < summaries.len()
        invariant
            j <= summaries@.len(),
            forall|k: int| 0 <= k < j ==> !strict_matches(#[trigger] summaries@[k], name@),
        decreases summaries@.len() - j,
    {
        if eq_ignore_ascii_case(summaries[j].personaname.as_str(), name) {
            return Some(j);
        }
        j += 1;
    }
    proof {
        if has_strict_match(summaries@, name@) {
            let x = choose|x: int| is_first_strict_match(summaries@, name@, x);
            assert(strict_matches(summaries@[x], name@));
            assert(false);
        }
    }
    None
}

/// Resolves each input name to an account id by a strict,
/// case-insensitive match against the persona names.
///
/// One output id per input name, in the same positional order; the
/// id is the first strictly matching summary's string id, parsed.
/// Fails as a whole on the first name with no match (`User`, carrying
/// that name), or — once every name has matched — on the first
/// matched summary whose string id is not a valid decimal (`Parse`,
/// carrying that string).
pub fn resolve_usernames_strictly(usernames: &Vec<String>, summaries: &Vec<UserSummary>) -> (r:
    Result<Vec<u64>, Error>)
    ensures
        (r is Ok) == (forall|i: int|
            0 <= i < usernames@.len() ==> strict_resolvable(summaries@, #[trigger] usernames@[i]@)),
        r matches Ok(ids) ==> {
            &&& ids@.len() == usernames@.len()
            &&& forall|i: int|
                #![trigger usernames@[i]]
                0 <= i < usernames@.len() ==> strictly_resolved_id(
                    summaries@,
                    usernames@[i]@,
                    ids@[i],
                )
        },
        r matches Err(e) ==> match e {
            Error::User(nm) => exists|i: int|
                {
                    &&& 0 <= i < usernames@.len()
                    &&& !has_strict_match(summaries@, #[trigger] usernames@[i]@)
                    &&& forall|k: int| 0 <= k < i ==> has_strict_match(summaries@, #[trigger] usernames@[k]@)
                    &&& nm@ == usernames@[i]@
                },
            Error::Parse(sid) => {
                &&& forall|i: int|
                    0 <= i < usernames@.len() ==> has_strict_match(
                        summaries@,
                        #[trigger] usernames@[i]@,
                    )
                &&& exists|i: int, j: int|
                    {
                        &&& 0 <= i < usernames@.len()
                        &&& #[trigger] is_first_strict_match(summaries@, usernames@[i]@, j)
                        &&& !is_valid_u64_string(summaries@[j].steamid@)
                        &&& sid@ == summaries@[j].steamid@
                    }
            },
            _ => false,
        },
{
    let mut matched: Vec<usize> = Vec::new();
    let mut i: usize = 0;
    while i < usernames.len()
        invariant
            i <= usernames@.len(),
            matched@.len() == i,
            forall|k: int|
                0 <= k < i ==> is_first_strict_match(
                    summaries@,
                    #[trigger] usernames@[k]@,
                    matched@[k] as int,
                ),
        decreases usernames@.len() - i,
    {
        match find_strict_match(summaries, usernames[i].as_str()) {
            Option::Some(j) => {
                matched.push(j);
            },
            Option::None => {
                assert forall|k: int| 0 <= k < i implies has_strict_match(
                    summaries@,
                    #[trigger] usernames@[k]@,
                ) by {
                    assert(is_first_strict_match(summaries@, usernames@[k]@, matched@[k] as int));
                }
                return Err(Error::User(usernames[i].clone()));
            },
        }
        i += 1;
    }
    assert forall|k: int| 0 <= k < usernames@.len() implies has_strict_match(
        summaries@,
        #[trigger] usernames@[k]@,
    ) by {
        assert(is_first_strict_match(summaries@, usernames@[k]@, matched@[k] as int));
    }
    let mut ids: Vec<u64> = Vec::new();
    let mut i2: usize = 0;
    while i2 < matched.len()
        invariant
            i2 <= matched@.len(),
            matched@.len() == usernames@.len(),
            ids@.len() == i2,
            forall|k: int|
                0 <= k < usernames@.len() ==> is_first_strict_match(
                    summaries@,
                    #[trigger] usernames@[k]@,
                    matched@[k] as int,
                ),
            forall|k: int|
                0 <= k < i2 ==> is_valid_u64_string(
                    summaries@[#[trigger] matched@[k] as int].steamid@,
                ) && ids@[k] == parsed_u64(summaries@[matched@[k] as int].steamid@),
        decreases matched@.len() - i2,
    {
        let j = matched[i2];
        assert(is_first_strict_match(summaries@, usernames@[i2 as int]@, j as int));
        match parse_u64(summaries[j].steamid.as_str()) {
            Option::Some(v) => {
                ids.push(v);
            },
            Option::None => {
                assert(is_first_strict_match(summaries@, usernames@[i2 as int]@, j as int));
                return Err(Error::Parse(summaries[j].steamid.clone()));
            },
        }
        i2 += 1;
    }
    assert forall|i3: int| 0 <= i3 < usernames@.len() implies strict_resolvable(
        summaries@,
        #[trigger] usernames@[i3]@,
    ) by {
        assert(is_first_strict_match(summaries@, usernames@[i3]@, matched@[i3] as int));
        assert(is_valid_u64_string(summaries@[matched@[i3] as int].steamid@));
    }
    assert forall|i3: int|
        #![trigger usernames@[i3]]
        0 <= i3 < usernames@.len() implies strictly_resolved_id(
        summaries@,
        usernames@[i3]@,
        ids@[i3],
    ) by {
        assert(is_first_strict_match(summaries@, usernames@[i3]@, matched@[i3] as int) && ids@[i3]
            == parsed_u64(summaries@[matched@[i3] as int].steamid@));
    }
    Ok(ids)
}

/// Law: strict resolution is case-insensitive. A name whose ASCII
/// lower-casing equals some persona name's lower-casing has a strict
/// match; a name strictly matching no summary has none.
pub proof fn lemma_strict_case_insensitive(s: Seq<UserSummary>, name: Seq<char>)
    ensures
        (exists|j: int|
            0 <= j < s.len() && lower_chars((#[trigger] s[j]).personaname@) == lower_chars(name))
            ==> has_strict_match(s, name),
        (forall|j: int| 0 <= j < s.len() ==> !strict_matches(#[trigger] s[j], name))
            ==> !has_strict_match(s, name),
{
    if exists|j: int|
        0 <= j < s.len() && lower_chars((#[trigger] s[j]).personaname@) == lower_chars(name) {
        let j = choose|j: int|
            0 <= j < s.len() && lower_chars((#[trigger] s[j]).personaname@) == lower_chars(name);
        lemma_some_match_gives_first(s, name, j);
    }
}

proof fn lemma_some_match_gives_first(s: Seq<UserSummary>, name: Seq<char>, j: int)
    requires
        0 <= j < s.len(),
        strict_matches(s[j], name),
    ensures
        has_strict_match(s, name),
    decreases j,
{
    if forall|k: int| 0 <= k < j ==> !strict_matches(#[trigger] s[k], name) {
        assert(is_first_strict_match(s, name, j));
    } else {
        let k = choose|k: int| 0 <= k < j && strict_matches(#[trigger] s[k], name);
        lemma_some_match_gives_first(s, name, k);
    }
}

/// The fuzzy score of `name` against a summary's persona name.
pub open spec fn persona_score(s: Seq<UserSummary>, name: Seq<char>, j: int) -> Option<u32> {
    fuzzy_score_of(name, s[j].personaname@)
}

/// The fuzzy score of `name` against a summary's real name; no score
/// where the summary has none.
pub open spec fn real_score(s: Seq<UserSummary>, name: Seq<char>, j: int) -> Option<u32> {
    match s[j].realname {
        Option::Some(rn) => fuzzy_score_of(name, rn@),
        Option::None => Option::None,
    }
}

pub open spec fn score_at_most(os: Option<u32>, sc: u32) -> bool {
    match os {
        Option::Some(v) => v <= sc,
        Option::None => true,
    }
}

pub open spec fn score_below(os: Option<u32>, sc: u32) -> bool {
    match os {
        Option::Some(v) => v < sc,
        Option::None => true,
    }
}

/// `s[j]` scores `sc` against `name` on persona names, no candidate
/// scores higher, and no earlier candidate scores as high: `j` is the
/// best match, ties going to the earliest candidate.
pub open spec fn is_best_persona(s: Seq<UserSummary>, name: Seq<char>, j: int, sc: u32) -> bool {
    &&& 0 <= j < s.len()
    &&& persona_score(s, name, j) == Option::Some(sc)
    &&& forall|k: int| 0 <= k < s.len() ==> score_at_most(#[trigger] persona_score(s, name, k), sc)
    &&& forall|k: int| 0 <= k < j ==> score_below(#[trigger] persona_score(s, name, k), sc)
}

/// As `is_best_persona`, over the real-name fallback tier.
pub open spec fn is_best_real(s: Seq<UserSummary>, name: Seq<char>, j: int, sc: u32) -> bool {
    &&& 0 <= j < s.len()
    &&& real_score(s, name, j) == Option::Some(sc)
    &&& forall|k: int| 0 <= k < s.len() ==> score_at_most(#[trigger] real_score(s, name, k), sc)
    &&& forall|k: int| 0 <= k < j ==> score_below(#[trigger] real_score(s, name, k), sc)
}

/// `name` resolves to `s[j]` on the persona tier: `j` is the best
/// persona match and its score clears the threshold strictly.
pub open spec fn persona_resolves(s: Seq<UserSummary>, name: Seq<char>, th: u32, j: int) -> bool {
    exists|sc: u32| #[trigger] is_best_persona(s, name, j, sc) && sc > th
}

/// `name` resolves to `s[j]` on the real-name fallback tier.
pub open spec fn real_resolves(s: Seq<UserSummary>, name: Seq<char>, th: u32, j: int) -> bool {
    exists|sc: u32| #[trigger] is_best_real(s, name, j, sc) && sc > th
}

pub open spec fn no_persona_resolution(s: Seq<UserSummary>, name: Seq<char>, th: u32) -> bool {
    forall|j: int| !(#[trigger] persona_resolves(s, name, th, j))
}

/// `name` fuzzily resolves to `s[j]`: the persona tier takes it, or
/// no candidate clears the threshold on the persona tier and the
/// real-name fallback takes it. The persona tier always has priority.
pub open spec fn fuzzy_resolves_to(s: Seq<UserSummary>, name: Seq<char>, th: u32, j: int) -> bool {
    ||| persona_resolves(s, name, th, j)
    ||| (no_persona_resolution(s, name, th) && real_resolves(s, name, th, j))
}

/// A resolution target is a real candidate index.
pub proof fn lemma_fuzzy_resolves_bound(s: Seq<UserSummary>, name: Seq<char>, th: u32, j: int)
    requires
        fuzzy_resolves_to(s, name, th, j),
    ensures
        0 <= j < s.len(),
{
    if persona_resolves(s, name, th, j) {
        let sc = choose|sc: u32| #[trigger] is_best_persona(s, name, j, sc) && sc > th;
    } else {
        let sc = choose|sc: u32| #[trigger] is_best_real(s, name, j, sc) && sc > th;
    }
}

pub open spec fn fuzzy_resolvable(s: Seq<UserSummary>, name: Seq<char>, th: u32) -> bool {
    exists|j: int| #[trigger] fuzzy_resolves_to(s, name, th, j)
}

/// A name fuzzily resolves to a summary whose string id is a valid
/// decimal.
pub open spec fn fuzzy_target_resolvable(s: Seq<UserSummary>, name: Seq<char>, th: u32) -> bool {
    exists|j: int| #[trigger] fuzzy_resolves_to(s, name, th, j) && is_valid_u64_string(
        s[j].steamid@,
    )
}

/// `id` is the parsed string id of the summary `name` fuzzily
/// resolves to.
pub open spec fn fuzzily_resolved_id(
    s: Seq<UserSummary>,
    name: Seq<char>,
    th: u32,
    id: u64,
) -> bool {
    exists|j: int| #[trigger] fuzzy_resolves_to(s, name, th, j) && id == parsed_u64(s[j].steamid@)
}

fn best_persona_match(summaries: &Vec<UserSummary>, name: &str) -> (r: Option<(usize, u32)>)
    ensures
        r matches Some(p) ==> is_best_persona(summaries@, name@, p.0 as int, p.1),
        r is None ==> forall|k: int|
            0 <= k < summaries@.len() ==> persona_score(summaries@, name@, k) is None,
{
    let mut best: Option<(usize, u32)> = None;
    let mut k: usize = 0;
    while k < summaries.len()
        invariant
            k <= summaries@.len(),
            match best {
                Option::Some(p) => {
                    &&& (p.0 as int) < k
                    &&& persona_score(summaries@, name@, p.0 as int) == Option::Some(p.1)
                    &&& forall|x: int|
                        0 <= x < k ==> score_at_most(
                            #[trigger] persona_score(summaries@, name@, x),
                            p.1,
                        )
                    &&& forall|x: int|
                        0 <= x < p.0 ==> score_below(
                            #[trigger] persona_score(summaries@, name@, x),
                            p.1,
                        )
                },
                Option::None => forall|x: int|
                    0 <= x < k ==> (#[trigger] persona_score(summaries@, name@, x)) is None,
            },
        decreases summaries@.len() - k,
    {
        let sc = fuzzy_score(name, summaries[k].personaname.as_str());
        match sc {
            Option::Some(v) => {
                let replace = match &best {
                    Option::Some(p) => v > p.1,
                    Option::None => true,
                };
                if replace {
                    best = Some((k, v));
                }
            },
            Option::None => {},
        }
        k += 1;
    }
    best
}

fn best_real_match(summaries: &Vec<UserSummary>, name: &str) -> (r: Option<(usize, u32)>)
    ensures
        r matches Some(p) ==> is_best_real(summaries@, name@, p.0 as int, p.1),
        r is None ==> forall|k: int|
            0 <= k < summaries@.len() ==> real_score(summaries@, name@, k) is None,
{
    let mut best: Option<(usize, u32)> = None;
    let mut k: usize = 0;
    while k < summaries.len()
        invariant
            k <= summaries@.len(),
            match best {
                Option::Some(p) => {
                    &&& (p.0 as int) < k
                    &&& real_score(summaries@, name@, p.0 as int) == Option::Some(p.1)
                    &&& forall|x: int|
                        0 <= x < k ==> score_at_most(
                            #[trigger] real_score(summaries@, name@, x),
                            p.1,
                        )
                    &&& forall|x: int|
                        0 <= x < p.0 ==> score_below(
                            #[trigger] real_score(summaries@, name@, x),
                            p.1,
                        )
                },
                Option::None => forall|x: int|
                    0 <= x < k ==> (#[trigger] real_score(summaries@, name@, x)) is None,
            },
        decreases summaries@.len() - k,
    {
        let sc = match &summaries[k].realname {
            Option::Some(rn) => fuzzy_score(name, rn.as_str()),
            Option::None => None,
        };
        match sc {
            Option::Some(v) => {
                let replace = match &best {
                    Option::Some(p) => v > p.1,
                    Option::None => true,
                };
                if replace {
                    best = Some((k, v));
                }
            },
            Option::None => {},
        }
        k += 1;
    }
    best
}

proof fn lemma_best_persona_unique(
    s: Seq<UserSummary>,
    name: Seq<char>,
    j1: int,
    sc1: u32,
    j2: int,
    sc2: u32,
)
    requires
        is_best_persona(s, name, j1, sc1),
        is_best_persona(s, name, j2, sc2),
    ensures
        j1 == j2,
        sc1 == sc2,
{
    if j1 < j2 {
        assert(score_below(persona_score(s, name, j1), sc2));
        assert(score_at_most(persona_score(s, name, j2), sc1));
        assert(false);
    }
    if j2 < j1 {
        assert(score_below(persona_score(s, name, j2), sc1));
        assert(score_at_most(persona_score(s, name, j1), sc2));
        assert(false);
    }
}

proof fn lemma_best_real_unique(
    s: Seq<UserSummary>,
    name: Seq<char>,
    j1: int,
    sc1: u32,
    j2: int,
    sc2: u32,
)
    requires
        is_best_real(s, name, j1, sc1),
        is_best_real(s, name, j2, sc2),
    ensures
        j1 == j2,
        sc1 == sc2,
{
    if j1 < j2 {
        assert(score_below(real_score(s, name, j1), sc2));
        assert(score_at_most(real_score(s, name, j2), sc1));
        assert(false);
    }
    if j2 < j1 {
        assert(score_below(real_score(s, name, j2), sc1));
        assert(score_at_most(real_score(s, name, j1), sc2));
        assert(false);
    }
}

/// Law: a name fuzzily resolves to at most one summary.
pub proof fn lemma_fuzzy_target_unique(
    s: Seq<UserSummary>,
    name: Seq<char>,
    th: u32,
    j1: int,
    j2: int,
)
    requires
        fuzzy_resolves_to(s, name, th, j1),
        fuzzy_resolves_to(s, name, th, j2),
    ensures
        j1 == j2,
{
    if persona_resolves(s, name, th, j1) {
        assert(!no_persona_resolution(s, name, th));
        assert(persona_resolves(s, name, th, j2));
        let sc1 = choose|sc: u32| #[trigger] is_best_persona(s, name, j1, sc) && sc > th;
        let sc2 = choose|sc: u32| #[trigger] is_best_persona(s, name, j2, sc) && sc > th;
        lemma_best_persona_unique(s, name, j1, sc1, j2, sc2);
    } else {
        assert(no_persona_resolution(s, name, th) && real_resolves(s, name, th, j1));
        assert(real_resolves(s, name, th, j2));
        let sc1 = choose|sc: u32| #[trigger] is_best_real(s, name, j1, sc) && sc > th;
        let sc2 = choose|sc: u32| #[trigger] is_best_real(s, name, j2, sc) && sc > th;
        lemma_best_real_unique(s, name, j1, sc1, j2, sc2);
    }
}

/// Resolves each input name to an account id by fuzzy text matching
/// against the persona names, falling back to real names.
///
/// One output id per input name, in the same positional order. For
/// each name the best-scoring persona name wins if its score clears
/// `threshold` strictly; otherwise, the best-scoring real name is
/// tried against the same threshold; a persona match that clears the
/// threshold always takes priority over any real-name match. Fails as
/// a whole on the first name neither tier resolves (`User`, carrying
/// that name), or — once every name has resolved — on the first
/// resolved summary whose string id is not a valid decimal (`Parse`,
/// carrying that string).
pub fn resolve_usernames_fuzzily(
    usernames: &Vec<String>,
    summaries: &Vec<UserSummary>,
    threshold: u32,
) -> (r: Result<Vec<u64>, Error>)
    ensures
        (r is Ok) == (forall|i: int|
            0 <= i < usernames@.len() ==> fuzzy_target_resolvable(
                summaries@,
                #[trigger] usernames@[i]@,
                threshold,
            )),
        r matches Ok(ids) ==> {
            &&& ids@.len() == usernames@.len()
            &&& forall|i: int|
                #![trigger usernames@[i]]
                0 <= i < usernames@.len() ==> fuzzily_resolved_id(
                    summaries@,
                    usernames@[i]@,
                    threshold,
                    ids@[i],
                )
        },
        r matches Err(e) ==> match e {
            Error::User(nm) => exists|i: int|
                {
                    &&& 0 <= i < usernames@.len()
                    &&& !fuzzy_resolvable(summaries@, #[trigger] usernames@[i]@, threshold)
                    &&& forall|k: int|
                        0 <= k < i ==> fuzzy_resolvable(
                            summaries@,
                            #[trigger] usernames@[k]@,
                            threshold,
                        )
                    &&& nm@ == usernames@[i]@
                },
            Error::Parse(sid) => {
                &&& forall|i: int|
                    0 <= i < usernames@.len() ==> fuzzy_resolvable(
                        summaries@,
                        #[trigger] usernames@[i]@,
                        threshold,
                    )
                &&& exists|i: int, j: int|
                    {
                        &&& 0 <= i < usernames@.len()
                        &&& #[trigger] fuzzy_resolves_to(
                            summaries@,
                            usernames@[i]@,
                            threshold,
                            j,
                        )
                        &&& !is_valid_u64_string(summaries@[j].steamid@)
                        &&& sid@ == summaries@[j].steamid@
                    }
            },
            _ => false,
        },
{
    let mut matched: Vec<usize> = Vec::new();
    let mut i: usize = 0;
    while i < usernames.len()
        invariant
            i <= usernames@.len(),
            matched@.len() == i,
            forall|k: int|
                #![trigger usernames@[k]]
                0 <= k < i ==> fuzzy_resolves_to(
                    summaries@,
                    usernames@[k]@,
                    threshold,
                    matched@[k] as int,
                ),
        decreases usernames@.len() - i,
    {
        let name = usernames[i].as_str();
        let mut pick: Option<usize> = None;
        match best_persona_match(summaries, name) {
            Option::Some(p) => {
                if p.1 > threshold {
                    proof {
                        assert(persona_resolves(summaries@, name@, threshold, p.0 as int));
                    }
                    pick = Some(p.0);
                }
            },
            Option::None => {},
        }
        if pick.is_none() {
            proof {
                assert forall|j: int| !(#[trigger] persona_resolves(
                    summaries@,
                    name@,
                    threshold,
                    j,
                )) by {
                    if persona_resolves(summaries@, name@, threshold, j) {
                        let sc = choose|sc: u32|
                            #[trigger] is_best_persona(summaries@, name@, j, sc) && sc > threshold;
                        assert(score_at_most(persona_score(summaries@, name@, j), sc));
                    }
                }
            }
            match best_real_match(summaries, name) {
                Option::Some(p) => {
                    if p.1 > threshold {
                        proof {
                            assert(real_resolves(summaries@, name@, threshold, p.0 as int));
                        }
                        pick = Some(p.0);
                    }
                },
                Option::None => {},
            }
        }
        match pick {
            Option::Some(j) => {
                assert(fuzzy_resolves_to(summaries@, name@, threshold, j as int));
                proof {
                    if persona_resolves(summaries@, name@, threshold, j as int) {
                        let sc = choose|sc: u32|
                            #[trigger] is_best_persona(summaries@, name@, j as int, sc) && sc
                                > threshold;
                    } else {
                        let sc = choose|sc: u32|
                            #[trigger] is_best_real(summaries@, name@, j as int, sc) && sc
                                > threshold;
                    }
                    assert((j as int) < summaries@.len());
                }
                matched.push(j);
            },
            Option::None => {
                proof {
                    assert forall|j: int| !(#[trigger] fuzzy_resolves_to(
                        summaries@,
                        name@,
                        threshold,
                        j,
                    )) by {
                        if real_resolves(summaries@, name@, threshold, j) {
                            let sc = choose|sc: u32|
                                #[trigger] is_best_real(summaries@, name@, j, sc) && sc
                                    > threshold;
                            assert(score_at_most(real_score(summaries@, name@, j), sc));
                        }
                    }
                    assert forall|k: int|
                        #![trigger usernames@[k]]
                        0 <= k < i implies fuzzy_resolvable(
                        summaries@,
                        usernames@[k]@,
                        threshold,
                    ) by {
                        assert(fuzzy_resolves_to(
                            summaries@,
                            usernames@[k]@,
                            threshold,
                            matched@[k] as int,
                        ));
                    }
                }
                return Err(Error::User(usernames[i].clone()));
            },
        }
        i += 1;
    }
    assert forall|k: int|
        #![trigger usernames@[k]]
        0 <= k < usernames@.len() implies fuzzy_resolvable(
        summaries@,
        usernames@[k]@,
        threshold,
    ) by {
        assert(fuzzy_resolves_to(summaries@, usernames@[k]@, threshold, matched@[k] as int));
    }
    let mut ids: Vec<u64> = Vec::new();
    let mut i2: usize = 0;
    while i2 < matched.len()
        invariant
            i2 <= matched@.len(),
            matched@.len() == usernames@.len(),
            ids@.len() == i2,
            forall|k: int|
                #![trigger usernames@[k]]
                0 <= k < usernames@.len() ==> fuzzy_resolves_to(
                    summaries@,
                    usernames@[k]@,
                    threshold,
                    matched@[k] as int,
                ),
            forall|k: int|
                0 <= k < i2 ==> is_valid_u64_string(
                    summaries@[#[trigger] matched@[k] as int].steamid@,
                ) && ids@[k] == parsed_u64(summaries@[matched@[k] as int].steamid@),
        decreases matched@.len() - i2,
    {
        let j = matched[i2];
        assert(fuzzy_resolves_to(summaries@, usernames@[i2 as int]@, threshold, j as int));
        proof {
            lemma_fuzzy_resolves_bound(summaries@, usernames@[i2 as int]@, threshold, j as int);
        }
        match parse_u64(summaries[j].steamid.as_str()) {
            Option::Some(v) => {
                ids.push(v);
            },
            Option::None => {
                return Err(Error::Parse(summaries[j].steamid.clone()));
            },
        }
        i2 += 1;
    }
    assert forall|i3: int|
        #![trigger usernames@[i3]]
        0 <= i3 < usernames@.len() implies fuzzy_target_resolvable(
        summaries@,
        usernames@[i3]@,
        threshold,
    ) && fuzzily_resolved_id(summaries@, usernames@[i3]@, threshold, ids@[i3]) by {
        assert(fuzzy_resolves_to(summaries@, usernames@[i3]@, threshold, matched@[i3] as int)
            && is_valid_u64_string(summaries@[matched@[i3] as int].steamid@) && ids@[i3]
            == parsed_u64(summaries@[matched@[i3] as int].steamid@));
    }
    Ok(ids)
}

/// Law: the fuzzy threshold is a strict boundary, and the persona
/// tier has priority. A best persona score at or below the threshold
/// resolves nothing on the persona tier; a best persona score above
/// it resolves its name to that candidate; and whenever some
/// candidate resolves on the persona tier, the real-name fallback is
/// ignored entirely.
pub proof fn lemma_fuzzy_threshold_boundary(
    s: Seq<UserSummary>,
    name: Seq<char>,
    th: u32,
    j: int,
    sc: u32,
)
    requires
        is_best_persona(s, name, j, sc),
    ensures
        sc <= th ==> forall|k: int| !(#[trigger] persona_resolves(s, name, th, k)),
        sc > th ==> fuzzy_resolves_to(s, name, th, j),
{
    if sc <= th {
        assert forall|k: int| !(#[trigger] persona_resolves(s, name, th, k)) by {
            if persona_resolves(s, name, th, k) {
                let sc2 = choose|sc2: u32| #[trigger] is_best_persona(s, name, k, sc2) && sc2 > th;
                assert(score_at_most(persona_score(s, name, k), sc));
            }
        }
    }
    if sc > th {
        assert(persona_resolves(s, name, th, j));
    }
}

/// Law: a persona-tier resolution shuts out the real-name tier; in
/// its presence a candidate fuzzily resolves exactly when it is the
/// persona-tier resolution.
pub proof fn lemma_persona_priority(
    s: Seq<UserSummary>,
    name: Seq<char>,
    th: u32,
    j: int,
    k: int,
)
    requires
        persona_resolves(s, name, th, j),
    ensures
        fuzzy_resolves_to(s, name, th, k) <==> persona_resolves(s, name, th, k),
{
    assert(!no_persona_resolution(s, name, th));
}

/// The numeric ids of a fetched friend list plus the querying
/// account's own id, appended last.
///
/// Parses each friend's string-encoded id; the first one that is not
/// a valid decimal fails the whole call (`Parse`, carrying that
/// string).
pub fn friend_ids_with_self(friends: &Vec<Friend>, my_steamid: u64) -> (r: Result<Vec<u64>, Error>)
    ensures
        (r is Ok) == (forall|i: int|
            0 <= i < friends@.len() ==> is_valid_u64_string((#[trigger] friends@[i]).steamid@)),
        r matches Ok(ids) ==> {
            &&& ids@.len() == friends@.len() + 1
            &&& forall|i: int|
                0 <= i < friends@.len() ==> ids@[i] == parsed_u64(
                    (#[trigger] friends@[i]).steamid@,
                )
            &&& ids@.last() == my_steamid
        },
        r matches Err(e) ==> match e {
            Error::Parse(sid) => exists|i: int|
                {
                    &&& 0 <= i < friends@.len()
                    &&& !is_valid_u64_string((#[trigger] friends@[i]).steamid@)
                    &&& forall|k: int|
                        0 <= k < i ==> is_valid_u64_string((#[trigger] friends@[k]).steamid@)
                    &&& sid@ == friends@[i].steamid@
                },
            _ => false,
        },
{
    let mut ids: Vec<u64> = Vec::new();
    let mut i: usize = 0;
    while i < friends.len()
        invariant
            i <= friends@.len(),
            ids@.len() == i,
            forall|k: int|
                0 <= k < i ==> is_valid_u64_string((#[trigger] friends@[k]).steamid@) && ids@[k]
                    == parsed_u64(friends@[k].steamid@),
        decreases friends@.len() - i,
    {
        match parse_u64(friends[i].steamid.as_str()) {
            Option::Some(v) => {
                ids.push(v);
            },
            Option::None => {
                return Err(Error::Parse(friends[i].steamid.clone()));
            },
        }
        i += 1;
    }
    ids.push(my_steamid);
    Ok(ids)
}

} // verus!
