use vstd::prelude::*;

use crate::client;
use crate::models::Game;
use crate::models::GameInfo;
use crate::models::GetGameInfoResponse;
use crate::models::PlayStyleCategories;

verus! {

/// Error taxonomy of the aggregation and resolution layer: a failed
/// upstream query, a numeric field that did not parse, or an input
/// name that could not be resolved (the unresolved name is carried).
#[derive(Debug)]
pub enum Error {
    Client(client::Error),
    Parse(String),
    User(String),
}

/// The outcome of fetching one account's owned-games library.
pub type FetchResult = Result<Vec<Game>, client::Error>;

/// An account's library contains a game with this appid.
pub open spec fn lib_owns(lib: Seq<Game>, appid: u64) -> bool {
    exists|i: int| 0 <= i < lib.len() && lib[i].appid == appid
}

pub open spec fn fetched_lib(f: FetchResult) -> Seq<Game> {
    f->Ok_0@
}

pub open spec fn all_fetches_ok(fs: Seq<FetchResult>) -> bool {
    forall|j: int| 0 <= j < fs.len() ==> fs[j] is Ok
}

/// Every fetched library contains a game with this appid.
pub open spec fn owned_by_all(fs: Seq<FetchResult>, appid: u64) -> bool {
    forall|j: int| 0 <= j < fs.len() ==> lib_owns(fetched_lib(#[trigger] fs[j]), appid)
}

pub open spec fn unique_appids(s: Seq<Game>) -> bool {
    forall|i: int, k: int| 0 <= i < k < s.len() ==> s[i].appid != s[k].appid
}

/// `fs[j]` is the first failed fetch.
pub open spec fn first_error_at(fs: Seq<FetchResult>, j: int) -> bool {
    &&& 0 <= j < fs.len()
    &&& fs[j] is Err
    &&& forall|k: int| 0 <= k < j ==> fs[k] is Ok
}

fn lib_contains_appid(lib: &Vec<Game>, appid: u64) -> (r: bool)
    ensures
        r == lib_owns(lib@, appid),
{
    let mut i: usize = 0;
    while i < lib.len()
        invariant
            i <= lib@.len(),
            forall|k: int| 0 <= k < i ==> lib@[k].appid != appid,
        decreases lib@.len() - i,
    {
        if lib[i].appid == appid {
            assert(lib_owns(lib@, appid)) by {
                assert(lib@[i as int].appid == appid);
            }
            return true;
        }
        i += 1;
    }
    false
}

fn all_fetches_own(fetches: &Vec<FetchResult>, appid: u64) -> (r: bool)
    requires
        all_fetches_ok(fetches@),
    ensures
        r == owned_by_all(fetches@, appid),
{
    let mut j: usize = 0;
    while j < fetches.len()
        invariant
            j <= fetches@.len(),
            all_fetches_ok(fetches@),
            forall|k: int| 0 <= k < j ==> lib_owns(fetched_lib(#[trigger] fetches@[k]), appid),
        decreases fetches@.len() - j,
    {
        match &fetches[j] {
            Result::Ok(lib) => {
                if !lib_contains_appid(lib, appid) {
                    return false;
                }
            },
            Result::Err(_) => {
                assert(false);
            },
        }
        j += 1;
    }
    true
}

/// The set intersection of the fetched libraries, keyed by appid.
///
/// The intersection is defined over a non-empty group of accounts
/// only. Succeeds exactly when every fetch succeeded, and then
/// contains one game per appid owned by every account, with its name
/// and order taken from the first account's library. Any failed fetch
/// is fatal for the whole call: the first fetch error is surfaced.
pub fn find_games_in_common(fetches: Vec<FetchResult>) -> (r: Result<Vec<Game>, Error>)
    requires
        fetches@.len() >= 1,
    ensures
        (r is Ok) == all_fetches_ok(fetches@),
        r matches Ok(games) ==> {
            &&& forall|a: u64| #[trigger] lib_owns(games@, a) <==> owned_by_all(fetches@, a)
            &&& unique_appids(games@)
            &&& forall|i: int|
                0 <= i < games@.len() ==> fetched_lib(fetches@[0]).contains(#[trigger] games@[i])
        },
        r matches Err(e) ==> exists|j: int|
            #[trigger] first_error_at(fetches@, j) && e == Error::Client(fetches@[j]->Err_0),
{
    let mut j: usize = 0;
    while j < fetches.len()
        invariant
            j <= fetches@.len(),
            forall|k: int| 0 <= k < j ==> fetches@[k] is Ok,
        decreases fetches@.len() - j,
    {
        match &fetches[j] {
            Result::Err(e) => {
                let err = *e;
                assert(first_error_at(fetches@, j as int));
                return Err(Error::Client(err));
            },
            Result::Ok(_) => {},
        }
        j += 1;
    }
    let mut games: Vec<Game> = Vec::new();
    let first: &Vec<Game> = match &fetches[0] {
        Result::Ok(lib) => lib,
        Result::Err(_) => vstd::pervasive::unreached(),
    };
    let mut i: usize = 0;
    while i < first.len()
        invariant
            i <= first@.len(),
            fetches@.len() > 0,
            all_fetches_ok(fetches@),
            first@ == fetched_lib(fetches@[0]),
            unique_appids(games@),
            forall|k: int|
                0 <= k < games@.len() ==> fetched_lib(fetches@[0]).contains(#[trigger] games@[k]),
            forall|a: u64|
                #[trigger] lib_owns(games@, a) <==> (lib_owns(first@.take(i as int), a)
                    && owned_by_all(fetches@, a)),
        decreases first@.len() - i,
    {
        let g = &first[i];
        let ghost prev = games@;
        if !lib_contains_appid(&games, g.appid) && all_fetches_own(&fetches, g.appid) {
            games.push(g.clone());
            assert(first@.contains(games@[games@.len() - 1])) by {
                assert(games@[games@.len() - 1] == first@[i as int]);
            }
        }
        proof {
            assert(first@.take(i + 1) =~= first@.take(i as int).push(first@[i as int]));
            assert forall|a: u64| #[trigger] lib_owns(games@, a) implies (lib_owns(
                first@.take(i + 1),
                a,
            ) && owned_by_all(fetches@, a)) by {
                let w = choose|x: int| 0 <= x < games@.len() && games@[x].appid == a;
                if w < prev.len() {
                    assert(lib_owns(prev, a));
                    assert(lib_owns(first@.take(i as int), a));
                    let v = choose|x: int|
                        0 <= x < first@.take(i as int).len() && first@.take(i as int)[x].appid
                            == a;
                    assert(first@.take(i + 1)[v].appid == a);
                } else {
                    assert(games@[w] == first@[i as int]);
                    assert(first@.take(i + 1)[i as int].appid == a);
                }
            }
            assert forall|a: u64| (lib_owns(first@.take(i + 1), a) && owned_by_all(fetches@, a))
                implies #[trigger] lib_owns(games@, a) by {
                let v = choose|x: int|
                    0 <= x < first@.take(i + 1).len() && (#[trigger] first@.take(i + 1)[x]).appid
                        == a;
                if v < i {
                    assert(first@.take(i as int)[v].appid == a);
                    assert(lib_owns(first@.take(i as int), a));
                    assert(lib_owns(prev, a));
                    let w = choose|x: int| 0 <= x < prev.len() && prev[x].appid == a;
                    assert(games@[w].appid == a);
                } else {
                    // the current game's appid: either it was already present, or
                    // it was just pushed
                    assert(first@[i as int].appid == a);
                    if lib_owns(prev, a) {
                        let w = choose|x: int| 0 <= x < prev.len() && prev[x].appid == a;
                        assert(games@[w].appid == a);
                    } else {
                        assert(games@[games@.len() - 1].appid == a);
                    }
                }
            }
        }
        i += 1;
    }
    proof {
        assert(first@.take(first@.len() as int) =~= first@);
        assert forall|a: u64| #[trigger] lib_owns(games@, a) <==> owned_by_all(fetches@, a) by {
            if owned_by_all(fetches@, a) {
                assert(lib_owns(fetched_lib(fetches@[0]), a));
            }
        }
    }
    Ok(games)
}

/// The games owned by every account in the group but not by the focus
/// account.
///
/// The group is non-empty. Computes the intersection of
/// `other_fetches` and removes every game the focus account owns.
/// Fails fast on either side failing; a failure of the group
/// intersection takes precedence over a failure of the focus fetch.
pub fn games_missing_from_group(focus_fetch: FetchResult, other_fetches: Vec<FetchResult>) -> (r:
    Result<Vec<Game>, Error>)
    requires
        other_fetches@.len() >= 1,
    ensures
        (r is Ok) == (all_fetches_ok(other_fetches@) && focus_fetch is Ok),
        r matches Ok(games) ==> {
            &&& forall|a: u64|
                #[trigger] lib_owns(games@, a) <==> (owned_by_all(other_fetches@, a) && !lib_owns(
                    fetched_lib(focus_fetch),
                    a,
                ))
            &&& unique_appids(games@)
            &&& forall|i: int|
                0 <= i < games@.len() ==> fetched_lib(other_fetches@[0]).contains(
                    #[trigger] games@[i],
                )
        },
        r matches Err(e) ==> {
            ||| exists|j: int|
                #[trigger] first_error_at(other_fetches@, j) && e == Error::Client(
                    other_fetches@[j]->Err_0,
                )
            ||| (all_fetches_ok(other_fetches@) && focus_fetch is Err && e == Error::Client(
                focus_fetch->Err_0,
            ))
        },
{
    let in_common = find_games_in_common(other_fetches)?;
    let focus_lib: Vec<Game> = match focus_fetch {
        Result::Ok(lib) => lib,
        Result::Err(e) => {
            return Err(Error::Client(e));
        },
    };
    let mut games: Vec<Game> = Vec::new();
    let mut i: usize = 0;
    while i < in_common.len()
        invariant
            i <= in_common@.len(),
            forall|k: int|
                0 <= k < games@.len() ==> in_common@.take(i as int).contains(
                    #[trigger] games@[k],
                ),
            forall|a: u64|
                #[trigger] lib_owns(games@, a) <==> (lib_owns(in_common@.take(i as int), a)
                    && !lib_owns(focus_lib@, a)),
            unique_appids(in_common@),
            unique_appids(games@),
        decreases in_common@.len() - i,
    {
        let g = &in_common[i];
        let ghost prev = games@;
        if !lib_contains_appid(&focus_lib, g.appid) {
            games.push(g.clone());
        }
        proof {
            assert(in_common@.take(i + 1) =~= in_common@.take(i as int).push(
                in_common@[i as int],
            ));
            assert forall|a: u64| #[trigger] lib_owns(games@, a) implies (lib_owns(
                in_common@.take(i + 1),
                a,
            ) && !lib_owns(focus_lib@, a)) by {
                let w = choose|x: int| 0 <= x < games@.len() && games@[x].appid == a;
                if w < prev.len() {
                    assert(lib_owns(prev, a));
                    let v = choose|x: int|
                        0 <= x < in_common@.take(i as int).len() && (#[trigger] in_common@.take(
                            i as int,
                        )[x]).appid == a;
                    assert(in_common@.take(i + 1)[v].appid == a);
                } else {
                    assert(games@[w] == in_common@[i as int]);
                    assert(in_common@.take(i + 1)[i as int].appid == a);
                }
            }
            assert forall|a: u64| (lib_owns(in_common@.take(i + 1), a) && !lib_owns(
                focus_lib@,
                a,
            )) implies #[trigger] lib_owns(games@, a) by {
                let v = choose|x: int|
                    0 <= x < in_common@.take(i + 1).len() && (#[trigger] in_common@.take(i + 1)[x]).appid
                        == a;
                if v < i {
                    assert(in_common@.take(i as int)[v].appid == a);
                    assert(lib_owns(in_common@.take(i as int), a));
                    assert(lib_owns(prev, a));
                    let w = choose|x: int| 0 <= x < prev.len() && prev[x].appid == a;
                    assert(games@[w].appid == a);
                } else {
                    assert(in_common@[i as int].appid == a);
                    if lib_owns(prev, a) {
                        let w = choose|x: int| 0 <= x < prev.len() && prev[x].appid == a;
                        assert(games@[w].appid == a);
                    } else {
                        assert(games@[games@.len() - 1] == in_common@[i as int]);
                        assert(games@[games@.len() - 1].appid == a);
                    }
                }
            }
            assert forall|k: int| 0 <= k < games@.len() implies in_common@.take(i + 1).contains(
                #[trigger] games@[k],
            ) by {
                if k < prev.len() {
                    let v = choose|x: int|
                        0 <= x < in_common@.take(i as int).len() && in_common@.take(i as int)[x]
                            == games@[k];
                    assert(in_common@.take(i + 1)[v] == games@[k]);
                } else {
                    assert(in_common@.take(i + 1)[i as int] == games@[k]);
                }
            }
        }
        i += 1;
    }
    proof {
        assert(in_common@.take(in_common@.len() as int) =~= in_common@);
    }
    Ok(games)
}

/// The ids among `fetches` whose fetch succeeded and whose library
/// contains `appid`, in input order.
pub open spec fn owners_among(appid: u64, fetches: Seq<(u64, FetchResult)>) -> Seq<u64>
    decreases fetches.len(),
{
    if fetches.len() == 0 {
        Seq::empty()
    } else {
        let rest = owners_among(appid, fetches.drop_last());
        if fetches.last().1 is Ok && lib_owns(fetches.last().1->Ok_0@, appid) {
            rest.push(fetches.last().0)
        } else {
            rest
        }
    }
}

/// The accounts whose owned-games fetch succeeded and whose library
/// contains `appid`, in input order.
///
/// Individual fetch failures are tolerated: a failed account is
/// dropped from consideration rather than failing the whole call.
/// This is deliberately more fault-tolerant than the intersection and
/// difference queries; the caller is expected to log the dropped
/// failures.
pub fn find_friends_who_own_game(appid: u64, fetches: &Vec<(u64, FetchResult)>) -> (r: Vec<u64>)
    ensures
        r@ == owners_among(appid, fetches@),
{
    let mut out: Vec<u64> = Vec::new();
    let mut i: usize = 0;
    while i < fetches.len()
        invariant
            i <= fetches@.len(),
            out@ == owners_among(appid, fetches@.take(i as int)),
        decreases fetches@.len() - i,
    {
        match &fetches[i].1 {
            Result::Ok(lib) => {
                if lib_contains_appid(lib, appid) {
                    out.push(fetches[i].0);
                }
            },
            Result::Err(_) => {},
        }
        proof {
            assert(fetches@.take(i + 1).drop_last() =~= fetches@.take(i as int));
            assert(fetches@.take(i + 1).last() == fetches@[i as int]);
        }
        i += 1;
    }
    proof {
        assert(fetches@.take(fetches@.len() as int) =~= fetches@);
    }
    out
}

/// The outcome of fetching one title's catalogue metadata.
pub type InfoFetchResult = Result<GetGameInfoResponse, client::Error>;

pub open spec fn all_infos_ok(fs: Seq<InfoFetchResult>) -> bool {
    forall|j: int| 0 <= j < fs.len() ==> fs[j] is Ok
}

/// `fs[j]` is the first failed metadata fetch.
pub open spec fn first_info_error_at(fs: Seq<InfoFetchResult>, j: int) -> bool {
    &&& 0 <= j < fs.len()
    &&& fs[j] is Err
    &&& forall|k: int| 0 <= k < j ==> fs[k] is Ok
}

/// The metadata entry for `appid` in a decoded response, if present:
/// the first entry keyed by that appid.
pub open spec fn entry_for(entries: Seq<(u64, GameInfo)>, appid: u64) -> Option<GameInfo>
    decreases entries.len(),
{
    if entries.len() == 0 {
        Option::None
    } else if entries[0].0 == appid {
        Option::Some(entries[0].1)
    } else {
        entry_for(entries.drop_first(), appid)
    }
}

pub open spec fn wanted_contains(wanted: Seq<u8>, id: u8) -> bool {
    exists|k: int| 0 <= k < wanted.len() && wanted[k] == id
}

pub open spec fn categories_intersect(cats: Seq<PlayStyleCategories>, wanted: Seq<u8>) -> bool {
    exists|i: int| 0 <= i < cats.len() && wanted_contains(wanted, (#[trigger] cats[i]).id)
}

/// A game passes the category filter: its response carries an entry
/// for its appid, that entry has catalogue data, and the data's
/// category ids meet the wanted set. A title without data (delisted or
/// region-restricted) is excluded, not an error.
pub open spec fn keeps_game(resp: GetGameInfoResponse, appid: u64, wanted: Seq<u8>) -> bool {
    match entry_for(resp.games@, appid) {
        Option::Some(info) => match info.data {
            Option::Some(d) => categories_intersect(d.categories@, wanted),
            Option::None => false,
        },
        Option::None => false,
    }
}

/// The subsequence of `games` kept by the category filter, given the
/// positionally aligned metadata fetches.
pub open spec fn filtered_games(
    games: Seq<Game>,
    infos: Seq<InfoFetchResult>,
    wanted: Seq<u8>,
) -> Seq<Game>
    decreases games.len(),
{
    if games.len() == 0 || games.len() != infos.len() {
        Seq::empty()
    } else {
        let rest = filtered_games(games.drop_last(), infos.drop_last(), wanted);
        if infos.last() is Ok && keeps_game(infos.last()->Ok_0, games.last().appid, wanted) {
            rest.push(games.last())
        } else {
            rest
        }
    }
}

fn wanted_contains_id(wanted: &Vec<u8>, id: u8) -> (r: bool)
    ensures
        r == wanted_contains(wanted@, id),
{
    let mut k: usize = 0;
    while k < wanted.len()
        invariant
            k <= wanted@.len(),
            forall|x: int| 0 <= x < k ==> wanted@[x] != id,
        decreases wanted@.len() - k,
    {
        if wanted[k] == id {
            assert(wanted@[k as int] == id);
            return true;
        }
        k += 1;
    }
    false
}

fn cats_intersect(cats: &Vec<PlayStyleCategories>, wanted: &Vec<u8>) -> (r: bool)
    ensures
        r == categories_intersect(cats@, wanted@),
{
    let mut i: usize = 0;
    while i < cats.len()
        invariant
            i <= cats@.len(),
            forall|x: int| 0 <= x < i ==> !wanted_contains(wanted@, (#[trigger] cats@[x]).id),
        decreases cats@.len() - i,
    {
        if wanted_contains_id(wanted, cats[i].id) {
            assert(wanted_contains(wanted@, cats@[i as int].id));
            return true;
        }
        i += 1;
    }
    false
}

fn response_keeps(resp: &GetGameInfoResponse, appid: u64, wanted: &Vec<u8>) -> (r: bool)
    ensures
        r == keeps_game(*resp, appid, wanted@),
{
    let mut i: usize = 0;
    proof {
        assert(resp.games@.skip(0) =~= resp.games@);
    }
    while i < resp.games.len()
        invariant
            i <= resp.games@.len(),
            entry_for(resp.games@, appid) == entry_for(resp.games@.skip(i as int), appid),
        decreases resp.games@.len() - i,
    {
        proof {
            assert(resp.games@.skip(i as int)[0] == resp.games@[i as int]);
            assert(resp.games@.skip(i as int).drop_first() =~= resp.games@.skip(i + 1));
        }
        if resp.games[i].0 == appid {
            let info = &resp.games[i].1;
            assert(entry_for(resp.games@, appid) == Option::Some(resp.games@[i as int].1));
            match &info.data {
                Option::Some(d) => {
                    return cats_intersect(&d.categories, wanted);
                },
                Option::None => {
                    return false;
                },
            }
        }
        i += 1;
    }
    assert(resp.games@.skip(resp.games@.len() as int) =~= Seq::<(u64, GameInfo)>::empty());
    false
}

/// Keeps the games whose catalogue categories meet the wanted set.
///
/// `infos[i]` must be the metadata fetch for `games[i]`. Succeeds
/// exactly when every metadata fetch succeeded (fail-fast: the first
/// fetch error is surfaced, unlike the owners query) and then keeps a
/// game exactly when its metadata entry has data whose category ids
/// intersect `wanted`.
pub fn filter_games(games: Vec<Game>, wanted: Vec<u8>, infos: Vec<InfoFetchResult>) -> (r: Result<
    Vec<Game>,
    Error,
>)
    requires
        games@.len() == infos@.len(),
    ensures
        (r is Ok) == all_infos_ok(infos@),
        r matches Ok(kept) ==> kept@ == filtered_games(games@, infos@, wanted@),
        r matches Err(e) ==> exists|j: int|
            #[trigger] first_info_error_at(infos@, j) && e == Error::Client(infos@[j]->Err_0),
{
    let mut j: usize = 0;
    while j < infos.len()
        invariant
            j <= infos@.len(),
            forall|k: int| 0 <= k < j ==> infos@[k] is Ok,
        decreases infos@.len() - j,
    {
        match &infos[j] {
            Result::Err(e) => {
                let err = *e;
                assert(first_info_error_at(infos@, j as int));
                return Err(Error::Client(err));
            },
            Result::Ok(_) => {},
        }
        j += 1;
    }
    let mut kept: Vec<Game> = Vec::new();
    let mut i: usize = 0;
    while i < games.len()
        invariant
            i <= games@.len(),
            games@.len() == infos@.len(),
            all_infos_ok(infos@),
            kept@ == filtered_games(games@.take(i as int), infos@.take(i as int), wanted@),
        decreases games@.len() - i,
    {
        match &infos[i] {
            Result::Ok(resp) => {
                if response_keeps(resp, games[i].appid, &wanted) {
                    let g = games[i].clone();
                    kept.push(g);
                }
            },
            Result::Err(_) => {
                assert(false);
            },
        }
        proof {
            assert(games@.take(i + 1).drop_last() =~= games@.take(i as int));
            assert(infos@.take(i + 1).drop_last() =~= infos@.take(i as int));
            assert(games@.take(i + 1).last() == games@[i as int]);
            assert(infos@.take(i + 1).last() == infos@[i as int]);
        }
        i += 1;
    }
    proof {
        assert(games@.take(games@.len() as int) =~= games@);
        assert(infos@.take(infos@.len() as int) =~= infos@);
    }
    Ok(kept)
}

/// Law: a single account's intersection is that account's own library.
/// Being owned by every account of a one-element group is owning by
/// that account, so together with the membership contract of
/// `find_games_in_common` the intersection of one library contains a
/// game id exactly when the library does.
pub proof fn lemma_intersection_identity(fetches: Seq<FetchResult>, a: u64)
    requires
        fetches.len() == 1,
    ensures
        owned_by_all(fetches, a) <==> lib_owns(fetched_lib(fetches[0]), a),
{
}

/// Law: the intersection is commutative. Two fetch lists holding the
/// same libraries (as a multiset, in any order) are owned-by-all by
/// exactly the same game ids, so two results meeting the membership
/// contract of `find_games_in_common` contain exactly the same ids.
pub proof fn lemma_intersection_commutative(
    fs1: Seq<FetchResult>,
    fs2: Seq<FetchResult>,
    games1: Seq<Game>,
    games2: Seq<Game>,
)
    requires
        fs1.to_multiset() == fs2.to_multiset(),
        forall|a: u64| #[trigger] lib_owns(games1, a) <==> owned_by_all(fs1, a),
        forall|a: u64| #[trigger] lib_owns(games2, a) <==> owned_by_all(fs2, a),
    ensures
        forall|a: u64| #[trigger] lib_owns(games1, a) <==> lib_owns(games2, a),
{
    fs1.to_multiset_ensures();
    fs2.to_multiset_ensures();
    assert(fs1.len() == fs2.len());
    assert forall|a: u64| owned_by_all(fs1, a) implies owned_by_all(fs2, a) by {
        lemma_owned_by_all_permuted(fs1, fs2, a);
    }
    assert forall|a: u64| owned_by_all(fs2, a) implies owned_by_all(fs1, a) by {
        lemma_owned_by_all_permuted(fs2, fs1, a);
    }
}

proof fn lemma_owned_by_all_permuted(fs1: Seq<FetchResult>, fs2: Seq<FetchResult>, a: u64)
    requires
        fs1.to_multiset() == fs2.to_multiset(),
        owned_by_all(fs1, a),
    ensures
        owned_by_all(fs2, a),
{
    fs1.to_multiset_ensures();
    fs2.to_multiset_ensures();
    assert forall|j: int| 0 <= j < fs2.len() implies lib_owns(
        fetched_lib(#[trigger] fs2[j]),
        a,
    ) by {
        assert(fs2.to_multiset().contains(fs2[j]));
        assert(fs1.contains(fs2[j]));
        let k = choose|k: int| 0 <= k < fs1.len() && fs1[k] == fs2[j];
        assert(lib_owns(fetched_lib(fs1[k]), a));
    }
}

/// Law: the difference is the group intersection minus the focus
/// library. A result meeting the membership contract of
/// `games_missing_from_group` contains a game id exactly when a result
/// meeting the contract of `find_games_in_common` on the same group
/// contains it and the focus library does not; in particular no game
/// of the difference is owned by the focus account.
pub proof fn lemma_difference_correctness(
    others: Seq<FetchResult>,
    focus: FetchResult,
    inter_games: Seq<Game>,
    diff_games: Seq<Game>,
)
    requires
        forall|a: u64| #[trigger] lib_owns(inter_games, a) <==> owned_by_all(others, a),
        forall|a: u64| #[trigger] lib_owns(diff_games, a) <==> (owned_by_all(others, a)
            && !lib_owns(fetched_lib(focus), a)),
    ensures
        forall|a: u64| #[trigger] lib_owns(diff_games, a) <==> (lib_owns(inter_games, a)
            && !lib_owns(fetched_lib(focus), a)),
        forall|a: u64| #[trigger] lib_owns(diff_games, a) ==> !lib_owns(fetched_lib(focus), a),
{
}

/// The category ids a named filter selects: `multiplayer` covers the
/// co-op and multiplayer tags, `controller` the controller-support
/// tag; any other name selects nothing.
pub fn filter_categories(filter: &str) -> (r: Option<Vec<u8>>)
    ensures
        filter@ == ("multiplayer")@ ==> (r matches Some(v) && v@ == seq![27u8, 36u8, 38u8]),
        filter@ == ("controller")@ ==> (r matches Some(v) && v@ == seq![28u8]),
        filter@ != ("multiplayer")@ && filter@ != ("controller")@ ==> r is None,
{
    proof {
        reveal_strlit("multiplayer");
        reveal_strlit("controller");
        assert(("multiplayer")@.len() != ("controller")@.len());
    }
    if crate::text::str_eq(filter, "multiplayer") {
        let mut v: Vec<u8> = Vec::new();
        v.push(27);
        v.push(36);
        v.push(38);
        proof {
            assert(v@ =~= seq![27u8, 36u8, 38u8]);
        }
        Some(v)
    } else if crate::text::str_eq(filter, "controller") {
        let mut v: Vec<u8> = Vec::new();
        v.push(28);
        proof {
            assert(v@ =~= seq![28u8]);
        }
        Some(v)
    } else {
        None
    }
}

} // verus!
