use vstd::prelude::*;
use vstd::multiset::Multiset;
use vstd::string::*;

use crate::models::Game;
use crate::models::GameInfo;
use crate::models::GetGameInfoResponse;
use crate::text::chars_le;
use crate::text::lemma_chars_le_total;
use crate::text::lemma_chars_le_trans;
use crate::text::dec_chars;
use crate::text::str_le;
use crate::text::u64_to_string;

verus! {

/// `g` inserted into `s` before the first entry whose name is not
/// below `g`'s: insertion into a name-sorted sequence keeps it sorted,
/// equal names keeping their existing order ahead of the new entry.
pub open spec fn insert_by_name(g: Game, s: Seq<Game>) -> Seq<Game>
    decreases s.len(),
{
    if s.len() == 0 {
        seq![g]
    } else if chars_le(g.name@, s[0].name@) {
        seq![g] + s
    } else {
        seq![s[0]] + insert_by_name(g, s.drop_first())
    }
}

/// Insertion sort of the games by name.
pub open spec fn sort_by_name(s: Seq<Game>) -> Seq<Game>
    decreases s.len(),
{
    if s.len() == 0 {
        Seq::empty()
    } else {
        insert_by_name(s[0], sort_by_name(s.drop_first()))
    }
}

fn insert_pos(res: &Vec<Game>, g: &Game) -> (p: usize)
    ensures
        p <= res@.len(),
        forall|k: int| 0 <= k < p ==> !chars_le(g.name@, (#[trigger] res@[k]).name@),
        p < res@.len() ==> chars_le(g.name@, res@[p as int].name@),
{
    let mut p: usize = 0;
    while p < res.len()
        invariant
            p <= res@.len(),
            forall|k: int| 0 <= k < p ==> !chars_le(g.name@, (#[trigger] res@[k]).name@),
        decreases res@.len() - p,
    {
        if str_le(g.name.as_str(), res[p].name.as_str()) {
            return p;
        }
        p += 1;
    }
    p
}

proof fn lemma_insert_by_name_at(g: Game, s: Seq<Game>, p: int)
    requires
        0 <= p <= s.len(),
        forall|k: int| 0 <= k < p ==> !chars_le(g.name@, (#[trigger] s[k]).name@),
        p < s.len() ==> chars_le(g.name@, s[p].name@),
    ensures
        insert_by_name(g, s) == s.insert(p, g),
    decreases p,
{
    if p == 0 {
        if s.len() == 0 {
            assert(seq![g] =~= s.insert(0, g));
        } else {
            assert(seq![g] + s =~= s.insert(0, g));
        }
    } else {
        assert(!chars_le(g.name@, s[0].name@));
        let t = s.drop_first();
        assert forall|k: int| 0 <= k < p - 1 implies !chars_le(
            g.name@,
            (#[trigger] t[k]).name@,
        ) by {
            assert(t[k] == s[k + 1]);
        }
        if p - 1 < t.len() {
            assert(t[p - 1] == s[p]);
        }
        lemma_insert_by_name_at(g, t, p - 1);
        assert(seq![s[0]] + t.insert(p - 1, g) =~= s.insert(p, g));
    }
}

fn insert_sorted(res: &mut Vec<Game>, g: Game)
    ensures
        final (res)@ == insert_by_name(g, old(res)@),
{
    let p = insert_pos(res, &g);
    proof {
        lemma_insert_by_name_at(g, res@, p as int);
    }
    res.insert(p, g);
}

fn sort_games(games: &Vec<Game>) -> (r: Vec<Game>)
    ensures
        r@ == sort_by_name(games@),
{
    let mut res: Vec<Game> = Vec::new();
    let mut i: usize = games.len();
    proof {
        assert(games@.skip(games@.len() as int) =~= Seq::<Game>::empty());
    }
    while i > 0
        invariant
            i <= games@.len(),
            res@ == sort_by_name(games@.skip(i as int)),
        decreases i,
    {
        i -= 1;
        let g = games[i].clone();
        insert_sorted(&mut res, g);
        proof {
            assert(games@.skip(i as int).drop_first() =~= games@.skip(i + 1));
            assert(games@.skip(i as int)[0] == games@[i as int]);
        }
    }
    proof {
        assert(games@.skip(0) =~= games@);
    }
    res
}

/// One line of the games listing.
pub open spec fn render_game(g: Game) -> Seq<char> {
    ("Game { appid: ")@ + dec_chars(g.appid as int) + (", name: \"")@ + g.name@ + ("\" }")@
}

/// The games listing's lines joined by newlines.
pub open spec fn render_games_lines(s: Seq<Game>) -> Seq<char>
    decreases s.len(),
{
    if s.len() == 0 {
        Seq::empty()
    } else if s.len() == 1 {
        render_game(s[0])
    } else {
        render_games_lines(s.drop_last()) + ("\n")@ + render_game(s.last())
    }
}

/// The whole listing: the games sorted by name, one line each, then a
/// total count.
pub open spec fn sorted_games_string(games: Seq<Game>) -> Seq<char> {
    render_games_lines(sort_by_name(games)) + ("\n\tTotal: ")@ + dec_chars(games.len() as int)
        + ("\n")@
}

fn append_game(out: &mut String, g: &Game)
    ensures
        final (out)@ == old(out)@ + render_game(*g),
{
    out.append("Game { appid: ");
    let ds = u64_to_string(g.appid);
    out.append(ds.as_str());
    out.append(", name: \"");
    out.append(g.name.as_str());
    out.append("\" }");
}

/// Renders the games sorted by name, one `Game { appid: .., name: ".." }`
/// line per game, followed by a line with the total count.
pub fn compute_sorted_games_string(games: &Vec<Game>) -> (r: String)
    ensures
        r@ == sorted_games_string(games@),
{
    let sorted = sort_games(games);
    let mut out = String::new();
    let mut i: usize = 0;
    while i < sorted.len()
        invariant
            i <= sorted@.len(),
            out@ == render_games_lines(sorted@.take(i as int)),
        decreases sorted@.len() - i,
    {
        if i > 0 {
            out.append("\n");
        }
        append_game(&mut out, &sorted[i]);
        proof {
            assert(sorted@.take(i + 1).drop_last() =~= sorted@.take(i as int));
            assert(sorted@.take(i + 1).last() == sorted@[i as int]);
            if i == 0 {
                assert(sorted@.take(1)[0] == sorted@[0]);
            }
        }
        i += 1;
    }
    proof {
        assert(sorted@.take(sorted@.len() as int) =~= sorted@);
    }
    out.append("\n\tTotal: ");
    let total = u64_to_string(games.len() as u64);
    out.append(total.as_str());
    out.append("\n");
    out
}

/// One line of the catalogue-metadata listing: `No info` for a title
/// without data, else the name, numeric id and recommended-hardware
/// text, comma-separated.
pub open spec fn render_info(info: GameInfo) -> Seq<char> {
    match info.data {
        Option::None => ("No info")@,
        Option::Some(d) => d.name@ + (",")@ + dec_chars(d.steam_appid as int) + (",")@ + (
        match d.pc_requirements {
            Option::None => ("No requirements")@,
            Option::Some(p) => match p.recommended {
                Option::None => ("No recommendations")@,
                Option::Some(rec) => rec@,
            },
        }),
    }
}

pub open spec fn render_info_lines(s: Seq<GameInfo>) -> Seq<char>
    decreases s.len(),
{
    if s.len() == 0 {
        Seq::empty()
    } else if s.len() == 1 {
        render_info(s[0])
    } else {
        render_info_lines(s.drop_last()) + ("\n")@ + render_info(s.last())
    }
}

/// The metadata entries of one decoded response, in order.
pub open spec fn infos_list(r: GetGameInfoResponse) -> Seq<GameInfo> {
    r.games@.map_values(|e: (u64, GameInfo)| e.1)
}

/// All metadata entries of the given responses, flattened in order.
pub open spec fn flatten_infos(rs: Seq<GetGameInfoResponse>) -> Seq<GameInfo>
    decreases rs.len(),
{
    if rs.len() == 0 {
        Seq::empty()
    } else {
        flatten_infos(rs.drop_last()) + infos_list(rs.last())
    }
}

/// The whole metadata listing: one line per entry, then a total count.
pub open spec fn game_info_string(rs: Seq<GetGameInfoResponse>) -> Seq<char> {
    render_info_lines(flatten_infos(rs)) + ("\n\tTotal: ")@ + dec_chars(
        flatten_infos(rs).len() as int,
    ) + ("\n")@
}

fn append_info(out: &mut String, info: &GameInfo)
    ensures
        final (out)@ == old(out)@ + render_info(*info),
{
    match &info.data {
        Option::None => {
            out.append("No info");
        },
        Option::Some(d) => {
            out.append(d.name.as_str());
            out.append(",");
            let ds = u64_to_string(d.steam_appid);
            out.append(ds.as_str());
            out.append(",");
            match &d.pc_requirements {
                Option::None => {
                    out.append("No requirements");
                },
                Option::Some(p) => {
                    match &p.recommended {
                        Option::None => {
                            out.append("No recommendations");
                        },
                        Option::Some(rec) => {
                            out.append(rec.as_str());
                        },
                    }
                },
            }
        },
    }
}

proof fn lemma_render_lines_push(s: Seq<GameInfo>, x: GameInfo)
    ensures
        render_info_lines(s.push(x)) == if s.len() == 0 {
            render_info(x)
        } else {
            render_info_lines(s) + ("\n")@ + render_info(x)
        },
{
    assert(s.push(x).drop_last() =~= s);
    assert(s.push(x).last() == x);
    if s.len() == 0 {
        assert(s.push(x)[0] == x);
    }
}

proof fn lemma_flatten_prefix_len(rs: Seq<GetGameInfoResponse>, k: int)
    requires
        0 <= k <= rs.len(),
    ensures
        flatten_infos(rs.take(k)).len() <= flatten_infos(rs).len(),
    decreases rs.len() - k,
{
    if k < rs.len() {
        lemma_flatten_prefix_len(rs, k + 1);
        assert(rs.take(k + 1).drop_last() =~= rs.take(k));
        assert(rs.take(k + 1).last() == rs[k]);
    } else {
        assert(rs.take(k) =~= rs);
    }
}

/// Renders the catalogue metadata of the given responses, one line
/// per entry in response order, followed by a line with the total
/// count of entries.
pub fn compute_game_info_string(responses: &Vec<GetGameInfoResponse>) -> (r: String)
    requires
        flatten_infos(responses@).len() <= usize::MAX,
    ensures
        r@ == game_info_string(responses@),
{
    let mut out = String::new();
    let mut count: usize = 0;
    let ghost mut acc: Seq<GameInfo> = Seq::empty();
    let mut oi: usize = 0;
    proof {
        assert(flatten_infos(responses@.take(0)) =~= Seq::<GameInfo>::empty());
    }
    while oi < responses.len()
        invariant
            oi <= responses@.len(),
            flatten_infos(responses@).len() <= usize::MAX,
            acc == flatten_infos(responses@.take(oi as int)),
            count == acc.len(),
            out@ == render_info_lines(acc),
        decreases responses@.len() - oi,
    {
        let resp = &responses[oi];
        let mut ii: usize = 0;
        proof {
            assert(acc + infos_list(*resp).take(0) =~= acc);
        }
        while ii < resp.games.len()
            invariant
                ii <= resp.games@.len(),
                oi < responses@.len(),
                resp == &responses@[oi as int],
                flatten_infos(responses@).len() <= usize::MAX,
                acc == flatten_infos(responses@.take(oi as int)) + infos_list(*resp).take(
                    ii as int,
                ),
                count == acc.len(),
                out@ == render_info_lines(acc),
            decreases resp.games@.len() - ii,
        {
            proof {
                lemma_flatten_prefix_len(responses@, oi + 1);
                assert(responses@.take(oi + 1).drop_last() =~= responses@.take(oi as int));
                assert(responses@.take(oi + 1).last() == responses@[oi as int]);
                assert(infos_list(responses@[oi as int]).take(resp.games@.len() as int)
                    =~= infos_list(responses@[oi as int]));
                assert(acc.len() < flatten_infos(responses@.take(oi + 1)).len()) by {
                    assert(infos_list(responses@[oi as int]).take(ii as int).len() == ii);
                }
            }
            if count > 0 {
                out.append("\n");
            }
            let info = &resp.games[ii].1;
            append_info(&mut out, info);
            count += 1;
            proof {
                let x = infos_list(*resp)[ii as int];
                assert(x == resp.games@[ii as int].1);
                lemma_render_lines_push(acc, x);
                acc = acc.push(x);
                assert(acc =~= flatten_infos(responses@.take(oi as int)) + infos_list(
                    *resp,
                ).take(ii + 1));
            }
            ii += 1;
        }
        proof {
            assert(infos_list(*resp).take(resp.games@.len() as int) =~= infos_list(*resp));
            assert(responses@.take(oi + 1).drop_last() =~= responses@.take(oi as int));
            assert(responses@.take(oi + 1).last() == responses@[oi as int]);
            assert(acc =~= flatten_infos(responses@.take(oi + 1)));
        }
        oi += 1;
    }
    proof {
        assert(responses@.take(responses@.len() as int) =~= responses@);
    }
    out.append("\n\tTotal: ");
    let total = u64_to_string(count as u64);
    out.append(total.as_str());
    out.append("\n");
    out
}

/// The games stand in non-decreasing name order.
pub open spec fn sorted_by_name(s: Seq<Game>) -> bool {
    forall|i: int, j: int| 0 <= i < j < s.len() ==> chars_le(s[i].name@, s[j].name@)
}

proof fn lemma_insert_by_name_ordered(g: Game, s: Seq<Game>)
    requires
        sorted_by_name(s),
    ensures
        sorted_by_name(insert_by_name(g, s)),
        insert_by_name(g, s).to_multiset() == s.to_multiset().insert(g),
    decreases s.len(),
{
    broadcast use vstd::seq_lib::group_to_multiset_ensures;
    broadcast use vstd::multiset::group_multiset_axioms;

    if s.len() == 0 {
        let r = insert_by_name(g, s);
        assert(r =~= Seq::<Game>::empty().push(g));
        assert(Seq::<Game>::empty().to_multiset() =~= Multiset::<Game>::empty());
        assert(r.to_multiset() =~= s.to_multiset().insert(g));
    } else if chars_le(g.name@, s[0].name@) {
        let r = seq![g] + s;
        assert forall|i: int, j: int| 0 <= i < j < r.len() implies chars_le(
            r[i].name@,
            r[j].name@,
        ) by {
            if i == 0 {
                assert(r[j] == s[j - 1]);
                if j > 1 {
                    lemma_chars_le_trans(g.name@, s[0].name@, s[j - 1].name@);
                }
            } else {
                assert(r[i] == s[i - 1] && r[j] == s[j - 1]);
            }
        }
        vstd::seq_lib::lemma_multiset_commutative(seq![g], s);
        assert(seq![g] =~= Seq::<Game>::empty().push(g));
        assert(seq![g].to_multiset() =~= Multiset::<Game>::empty().insert(g));
        assert(r.to_multiset() =~= s.to_multiset().insert(g));
    } else {
        let t = s.drop_first();
        assert(sorted_by_name(t)) by {
            assert(forall|i: int, j: int|
                0 <= i < j < t.len() ==> t[i] == s[i + 1] && t[j] == s[j + 1]);
        }
        lemma_insert_by_name_ordered(g, t);
        let rest = insert_by_name(g, t);
        let r = seq![s[0]] + rest;
        assert(insert_by_name(g, s) == r);
        lemma_chars_le_total(g.name@, s[0].name@);
        assert(chars_le(s[0].name@, g.name@));
        assert forall|i: int, j: int| 0 <= i < j < r.len() implies chars_le(
            r[i].name@,
            r[j].name@,
        ) by {
            if i == 0 {
                let x = r[j];
                assert(rest[j - 1] == x);
                assert(rest.contains(x));
                assert(rest.to_multiset().count(x) > 0);
                if x == g {
                    assert(chars_le(s[0].name@, x.name@));
                } else {
                    assert(t.to_multiset().insert(g).count(x) > 0);
                    assert(t.to_multiset().count(x) > 0);
                    assert(t.contains(x));
                    let k = choose|k: int| 0 <= k < t.len() && t[k] == x;
                    assert(t[k] == s[k + 1]);
                    assert(chars_le(s[0].name@, s[k + 1].name@));
                }
            } else {
                assert(r[i] == rest[i - 1] && r[j] == rest[j - 1]);
            }
        }
        vstd::seq_lib::lemma_multiset_commutative(seq![s[0]], rest);
        assert(seq![s[0]] =~= Seq::<Game>::empty().push(s[0]));
        assert(seq![s[0]].to_multiset() =~= Multiset::<Game>::empty().insert(s[0]));
        assert(s =~= seq![s[0]] + t);
        vstd::seq_lib::lemma_multiset_commutative(seq![s[0]], t);
        assert(r.to_multiset() =~= s.to_multiset().insert(g));
    }
}

/// Law: the listing's sort really sorts. The sorted sequence stands
/// in non-decreasing name order and holds exactly the given games,
/// multiplicity included.
pub proof fn lemma_sort_by_name_ordered(s: Seq<Game>)
    ensures
        sorted_by_name(sort_by_name(s)),
        sort_by_name(s).to_multiset() == s.to_multiset(),
    decreases s.len(),
{
    broadcast use vstd::seq_lib::group_to_multiset_ensures;
    broadcast use vstd::multiset::group_multiset_axioms;

    if s.len() == 0 {
    } else {
        let t = s.drop_first();
        lemma_sort_by_name_ordered(t);
        lemma_insert_by_name_ordered(s[0], sort_by_name(t));
        assert(s =~= seq![s[0]] + t);
        vstd::seq_lib::lemma_multiset_commutative(seq![s[0]], t);
        assert(seq![s[0]] =~= Seq::<Game>::empty().push(s[0]));
        assert(seq![s[0]].to_multiset() =~= Multiset::<Game>::empty().insert(s[0]));
        assert(sort_by_name(s).to_multiset() =~= s.to_multiset());
    }
}

} // verus!
