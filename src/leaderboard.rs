//! The ranker: one entry per player, ordered by descending score, equal
//! scores keeping their relative order; a player's score only ever rises.

use vstd::prelude::*;
use crate::field::eq32;

verus! {

/// A ranked result: the player's best score and the wave it came with.
#[derive(Clone, Copy, Debug)]
pub struct LeaderboardEntry {
    pub player: [u8; 32],
    pub wave: u32,
    pub score: u32,
}

pub open spec fn sorted_desc(s: Seq<LeaderboardEntry>) -> bool {
    forall|i: int, j: int| 0 <= i < j < s.len() ==> s[i].score >= s[j].score
}

pub open spec fn players_distinct(s: Seq<LeaderboardEntry>) -> bool {
    forall|i: int, j: int| 0 <= i < j < s.len() ==> s[i].player@ != s[j].player@
}

/// The index of the first entry scoring below `v` (the length if none does).
pub open spec fn first_below(s: Seq<LeaderboardEntry>, v: u32) -> int
    decreases s.len(),
{
    if s.len() == 0 {
        0
    } else if s[0].score < v {
        0
    } else {
        1 + first_below(s.drop_first(), v)
    }
}

/// `e` placed after every entry scoring at least as much.
pub open spec fn insert_ranked(s: Seq<LeaderboardEntry>, e: LeaderboardEntry) -> Seq<LeaderboardEntry> {
    s.insert(first_below(s, e.score), e)
}

/// The stable descending sort: the entries placed one by one, in order.
pub open spec fn stable_sorted(s: Seq<LeaderboardEntry>) -> Seq<LeaderboardEntry>
    decreases s.len(),
{
    if s.len() == 0 {
        s
    } else {
        insert_ranked(stable_sorted(s.drop_last()), s.last())
    }
}

/// The index of the player's entry, or -1.
pub open spec fn find_player(s: Seq<LeaderboardEntry>, p: Seq<u8>) -> int
    decreases s.len(),
{
    if s.len() == 0 {
        -1
    } else if s[0].player@ == p {
        0
    } else {
        let r = find_player(s.drop_first(), p);
        if r < 0 {
            -1
        } else {
            r + 1
        }
    }
}

/// A result applied to the table before the resort: a new player is
/// appended, a better score replaces the old entry in place, a worse or
/// equal one changes nothing.
pub open spec fn upserted(s: Seq<LeaderboardEntry>, e: LeaderboardEntry) -> Seq<LeaderboardEntry> {
    let i = find_player(s, e.player@);
    if i < 0 {
        s.push(e)
    } else if e.score > s[i].score {
        s.update(i, e)
    } else {
        s
    }
}

proof fn lemma_first_below(s: Seq<LeaderboardEntry>, v: u32)
    ensures
        0 <= first_below(s, v) <= s.len(),
        forall|i: int| 0 <= i < first_below(s, v) ==> s[i].score >= v,
        first_below(s, v) < s.len() ==> s[first_below(s, v)].score < v,
    decreases s.len(),
{
    if s.len() > 0 && s[0].score >= v {
        lemma_first_below(s.drop_first(), v);
        assert forall|i: int| 0 <= i < first_below(s, v) implies s[i].score >= v by {
            if i > 0 {
                assert(s[i] == s.drop_first()[i - 1]);
            }
        }
    }
}

proof fn lemma_first_below_at(s: Seq<LeaderboardEntry>, v: u32, j: int)
    requires
        0 <= j <= s.len(),
        forall|i: int| 0 <= i < j ==> s[i].score >= v,
        j < s.len() ==> s[j].score < v,
    ensures
        first_below(s, v) == j,
    decreases s.len(),
{
    if s.len() > 0 && j > 0 {
        assert forall|i: int| 0 <= i < j - 1 implies s.drop_first()[i].score >= v by {
            assert(s.drop_first()[i] == s[i + 1]);
        }
        lemma_first_below_at(s.drop_first(), v, j - 1);
    }
}

proof fn lemma_insert_ranked_sorted(s: Seq<LeaderboardEntry>, e: LeaderboardEntry)
    requires
        sorted_desc(s),
    ensures
        sorted_desc(insert_ranked(s, e)),
        insert_ranked(s, e).to_multiset() == s.to_multiset().insert(e),
{
    lemma_first_below(s, e.score);
    let k = first_below(s, e.score);
    let r = insert_ranked(s, e);
    assert forall|i: int, j: int| 0 <= i < j < r.len() implies r[i].score >= r[j].score by {
        if j < k {
        } else if j == k {
        } else if i < k {
            if k < s.len() {
                assert(s[k].score < e.score);
            }
        } else if i == k {
            assert(s[k].score < e.score);
            assert(s[k].score >= s[j - 1].score || k == j - 1);
        } else {
        }
    }
    vstd::seq_lib::to_multiset_insert(s, k, e);
}

proof fn lemma_stable_sorted(s: Seq<LeaderboardEntry>)
    ensures
        sorted_desc(stable_sorted(s)),
        stable_sorted(s).to_multiset() == s.to_multiset(),
    decreases s.len(),
{
    if s.len() > 0 {
        lemma_stable_sorted(s.drop_last());
        lemma_insert_ranked_sorted(stable_sorted(s.drop_last()), s.last());
        assert(s.drop_last().push(s.last()) =~= s);
        vstd::seq_lib::to_multiset_build(s.drop_last(), s.last());
    }
}

/// Sorts by descending score, entries with equal scores keeping their
/// relative order.
pub fn sort_leaderboard_desc(entries: &mut Vec<LeaderboardEntry>)
    ensures
        final(entries)@ == stable_sorted(old(entries)@),
        sorted_desc(final(entries)@),
        final(entries)@.to_multiset() == old(entries)@.to_multiset(),
{
    let ghost input = entries@;
    let mut out: Vec<LeaderboardEntry> = Vec::new();
    let mut i: usize = 0;
    while i < entries.len()
        invariant
            entries@ == input,
            0 <= i <= input.len(),
            out@ == stable_sorted(input.subrange(0, i as int)),
            sorted_desc(out@),
        decreases input.len() - i,
    {
        let e = entries[i];
        let mut k: usize = 0;
        while k < out.len() && out[k].score >= e.score
            invariant
                0 <= k <= out@.len(),
                forall|t: int| 0 <= t < k ==> out@[t].score >= e.score,
            decreases out@.len() - k,
        {
            k = k + 1;
        }
        proof {
            lemma_first_below_at(out@, e.score, k as int);
            lemma_insert_ranked_sorted(out@, e);
            assert(input.subrange(0, i + 1).drop_last() =~= input.subrange(0, i as int));
        }
        out.insert(k, e);
        i = i + 1;
    }
    proof {
        assert(input.subrange(0, input.len() as int) =~= input);
        lemma_stable_sorted(input);
    }
    *entries = out;
}

proof fn lemma_find_player_at(s: Seq<LeaderboardEntry>, p: Seq<u8>, j: int)
    requires
        0 <= j <= s.len(),
        forall|t: int| 0 <= t < j ==> s[t].player@ != p,
        j < s.len() ==> s[j].player@ == p,
    ensures
        find_player(s, p) == if j < s.len() { j } else { -1 },
    decreases s.len(),
{
    if s.len() > 0 && j > 0 {
        assert forall|t: int| 0 <= t < j - 1 implies s.drop_first()[t].player@ != p by {
            assert(s.drop_first()[t] == s[t + 1]);
        }
        lemma_find_player_at(s.drop_first(), p, j - 1);
    }
}

/// Applies a result to the table before the resort.
pub fn upsert(entries: &mut Vec<LeaderboardEntry>, e: LeaderboardEntry)
    ensures
        final(entries)@ == upserted(old(entries)@, e),
{
    let mut i: usize = 0;
    while i < entries.len()
        invariant
            entries@ == old(entries)@,
            0 <= i <= entries@.len(),
            forall|t: int| 0 <= t < i ==> (#[trigger] entries@[t]).player@ != e.player@,
        decreases entries@.len() - i,
    {
        if eq32(&entries[i].player, &e.player) {
            proof {
                lemma_find_player_at(entries@, e.player@, i as int);
            }
            if e.score > entries[i].score {
                entries.remove(i);
                entries.insert(i, e);
                proof {
                    assert(entries@ =~= old(entries)@.update(i as int, e));
                }
            }
            return;
        }
        i = i + 1;
    }
    proof {
        lemma_find_player_at(entries@, e.player@, i as int);
    }
    entries.push(e);
}

/// A table after admitting `e`: applied in place, then resorted.
pub open spec fn admitted(s: Seq<LeaderboardEntry>, e: LeaderboardEntry) -> Seq<LeaderboardEntry> {
    stable_sorted(upserted(s, e))
}

/// Admits a result into one season's table.
pub fn admit_entry(entries: &mut Vec<LeaderboardEntry>, e: LeaderboardEntry)
    ensures
        final(entries)@ == admitted(old(entries)@, e),
{
    upsert(entries, e);
    sort_leaderboard_desc(entries);
}

/// The first `limit` entries (all, when there are fewer).
pub fn first_n(entries: &Vec<LeaderboardEntry>, limit: usize) -> (r: Vec<LeaderboardEntry>)
    ensures
        r@ == entries@.take(if limit as int <= entries@.len() { limit as int } else { entries@.len() as int }),
{
    let n: usize = if limit <= entries.len() { limit } else { entries.len() };
    let mut out: Vec<LeaderboardEntry> = Vec::new();
    let mut i: usize = 0;
    while i < n
        invariant
            n <= entries@.len(),
            0 <= i <= n,
            out@ == entries@.take(i as int),
        decreases n - i,
    {
        out.push(entries[i]);
        i = i + 1;
        assert(out@ =~= entries@.take(i as int));
    }
    out
}

/// The key of a season's table.
#[derive(Clone, Copy, Debug, PartialEq, Eq, Structural)]
pub struct LeaderboardKey {
    pub season_id: u32,
}

/// One season's table.
pub struct SeasonTable {
    pub key: LeaderboardKey,
    pub entries: Vec<LeaderboardEntry>,
}

/// The index of the season's table, or -1.
pub open spec fn find_season(t: Seq<SeasonTable>, id: u32) -> int
    decreases t.len(),
{
    if t.len() == 0 {
        -1
    } else if t.last().key.season_id == id {
        t.len() - 1
    } else {
        find_season(t.drop_last(), id)
    }
}

proof fn lemma_find_season(t: Seq<SeasonTable>, id: u32)
    ensures
        -1 <= find_season(t, id) < t.len(),
        find_season(t, id) >= 0 ==> t[find_season(t, id)].key.season_id == id,
        find_season(t, id) < 0 ==> forall|i: int| 0 <= i < t.len() ==> t[i].key.season_id != id,
    decreases t.len(),
{
    if t.len() > 0 && t.last().key.season_id != id {
        lemma_find_season(t.drop_last(), id);
        assert forall|i: int| 0 <= i < t.len() - 1 implies t[i] == t.drop_last()[i] by {}
    }
}

proof fn lemma_find_season_update(t: Seq<SeasonTable>, i: int, x: SeasonTable, id: u32)
    requires
        0 <= i < t.len(),
        x.key.season_id == t[i].key.season_id,
    ensures
        find_season(t.update(i, x), id) == find_season(t, id),
    decreases t.len(),
{
    if i < t.len() - 1 {
        assert(t.update(i, x).drop_last() =~= t.drop_last().update(i, x));
        lemma_find_season_update(t.drop_last(), i, x, id);
    } else {
        assert(t.update(i, x).drop_last() =~= t.drop_last());
    }
}

proof fn lemma_find_player(s: Seq<LeaderboardEntry>, p: Seq<u8>)
    ensures
        -1 <= find_player(s, p) < s.len(),
        find_player(s, p) >= 0 ==> s[find_player(s, p)].player@ == p,
        find_player(s, p) < 0 ==> forall|i: int| 0 <= i < s.len() ==> s[i].player@ != p,
    decreases s.len(),
{
    if s.len() > 0 && s[0].player@ != p {
        lemma_find_player(s.drop_first(), p);
        assert forall|i: int| 0 < i < s.len() implies s[i] == s.drop_first()[i - 1] by {}
    }
}

proof fn lemma_stable_sorted_members(s: Seq<LeaderboardEntry>)
    ensures
        forall|x: LeaderboardEntry| stable_sorted(s).contains(x) <==> s.contains(x),
        stable_sorted(s).len() == s.len(),
{
    broadcast use vstd::seq_lib::to_multiset_contains, vstd::seq_lib::to_multiset_len;
    lemma_stable_sorted(s);
    assert forall|x: LeaderboardEntry| stable_sorted(s).contains(x) <==> s.contains(x) by {
        vstd::seq_lib::to_multiset_contains(s, x);
        vstd::seq_lib::to_multiset_contains(stable_sorted(s), x);
    }
    vstd::seq_lib::to_multiset_len(s);
    vstd::seq_lib::to_multiset_len(stable_sorted(s));
}

proof fn lemma_stable_sorted_distinct(s: Seq<LeaderboardEntry>)
    requires
        players_distinct(s),
    ensures
        players_distinct(stable_sorted(s)),
    decreases s.len(),
{
    if s.len() > 0 {
        let t = s.drop_last();
        let e = s.last();
        assert(players_distinct(t));
        lemma_stable_sorted_distinct(t);
        lemma_stable_sorted_members(t);
        let u = stable_sorted(t);
        lemma_first_below(u, e.score);
        let k = first_below(u, e.score);
        let r = u.insert(k, e);
        assert forall|x: LeaderboardEntry| u.contains(x) implies x.player@ != e.player@ by {
            assert(t.contains(x));
            let j = choose|j: int| 0 <= j < t.len() && t[j] == x;
            assert(s[j] == x);
            assert(s[j].player@ != s[s.len() - 1].player@);
        }
        assert forall|i: int, j: int| 0 <= i < j < r.len() implies r[i].player@ != r[j].player@ by {
            if i == k {
                assert(u.contains(r[j]));
            } else if j == k {
                assert(u.contains(r[i]));
            }
        }
    }
}

/// The score a player's entry holds after `e` is applied.
pub open spec fn best_score(s: Seq<LeaderboardEntry>, e: LeaderboardEntry) -> u32 {
    let i = find_player(s, e.player@);
    if i < 0 || e.score > s[i].score {
        e.score
    } else {
        s[i].score
    }
}

/// Admitting a result into a table holding one entry per player keeps one
/// entry per player and the descending order; the player's entry then holds
/// the better of its old and the new score (a score never goes down), and
/// the other players' entries are those from before.
pub proof fn lemma_admitted_ranked(s: Seq<LeaderboardEntry>, e: LeaderboardEntry)
    requires
        players_distinct(s),
    ensures
        sorted_desc(admitted(s, e)),
        players_distinct(admitted(s, e)),
        exists|k: int|
            0 <= k < admitted(s, e).len() && (#[trigger] admitted(s, e)[k]).player@ == e.player@
                && admitted(s, e)[k].score == best_score(s, e),
        forall|x: LeaderboardEntry| x.player@ != e.player@ ==> (admitted(s, e).contains(x) <==> s.contains(x)),
{
    let u = upserted(s, e);
    lemma_find_player(s, e.player@);
    let i = find_player(s, e.player@);
    assert(players_distinct(u));
    lemma_stable_sorted(u);
    lemma_stable_sorted_distinct(u);
    lemma_stable_sorted_members(u);
    let x = if i < 0 || e.score > s[i].score { e } else { s[i] };
    let ix = if i < 0 { s.len() as int } else { i };
    assert(u[ix] == x);
    assert(u.contains(x));
    let r = admitted(s, e);
    let k = choose|k: int| 0 <= k < r.len() && r[k] == x;
    assert(r[k].player@ == e.player@ && r[k].score == best_score(s, e));
    assert forall|y: LeaderboardEntry| y.player@ != e.player@ implies (r.contains(y) <==> s.contains(y)) by {
        if s.contains(y) {
            let j = choose|j: int| 0 <= j < s.len() && s[j] == y;
            assert(u[j] == y);
        }
        if u.contains(y) {
            let j = choose|j: int| 0 <= j < u.len() && u[j] == y;
            if j < s.len() {
                assert(s[j] == y);
            }
        }
    }
}

/// Per-season ranked tables.
pub struct Leaderboard {
    tables: Vec<SeasonTable>,
}

impl Leaderboard {
    /// The season's table, empty when nothing was admitted into it.
    pub closed spec fn season(&self, id: u32) -> Seq<LeaderboardEntry> {
        let i = find_season(self.tables@, id);
        if i < 0 {
            Seq::empty()
        } else {
            self.tables@[i].entries@
        }
    }

    /// Every season's table holds one entry per player, by descending score.
    pub open spec fn well_ranked(&self) -> bool {
        forall|id: u32| sorted_desc(#[trigger] self.season(id)) && players_distinct(self.season(id))
    }

    pub fn new() -> (r: Leaderboard)
        ensures
            forall|id: u32| r.season(id) == Seq::<LeaderboardEntry>::empty(),
            r.well_ranked(),
    {
        Leaderboard { tables: Vec::new() }
    }

    fn index_of(&self, id: u32) -> (r: Option<usize>)
        ensures
            match r {
                Some(i) => i as int == find_season(self.tables@, id),
                None => find_season(self.tables@, id) < 0,
            },
    {
        let mut i: usize = self.tables.len();
        assert(self.tables@.subrange(0, i as int) =~= self.tables@);
        while i > 0
            invariant
                0 <= i <= self.tables@.len(),
                find_season(self.tables@, id) == find_season(self.tables@.subrange(0, i as int), id),
            decreases i,
        {
            proof {
                assert(self.tables@.subrange(0, i as int).drop_last() =~= self.tables@.subrange(0, i - 1));
            }
            if self.tables[i - 1].key.season_id == id {
                return Some(i - 1);
            }
            i = i - 1;
        }
        None
    }

    /// Admits `(player, score, wave)` into the season's table.
    pub fn record_result(&mut self, season_id: u32, player: [u8; 32], score: u32, wave: u32)
        requires
            old(self).well_ranked(),
        ensures
            final(self).well_ranked(),
            final(self).season(season_id) == admitted(
                old(self).season(season_id),
                LeaderboardEntry { player, wave, score },
            ),
            forall|id: u32| id != season_id ==> final(self).season(id) == old(self).season(id),
    {
        let e = LeaderboardEntry { player, wave, score };
        proof {
            lemma_find_season(self.tables@, season_id);
            lemma_admitted_ranked(self.season(season_id), e);
        }
        match self.index_of(season_id) {
            Some(i) => {
                let mut t = self.tables.remove(i);
                admit_entry(&mut t.entries, e);
                self.tables.insert(i, t);
                proof {
                    let old_t = old(self).tables@;
                    assert(self.tables@ =~= old_t.update(i as int, t));
                    assert forall|id: u32| id != season_id implies #[trigger] final(self).season(id) == old(self).season(id) by {
                        lemma_find_season_update(old_t, i as int, t, id);
                        lemma_find_season(old_t, id);
                    }
                    lemma_find_season_update(old_t, i as int, t, season_id);
                }
            },
            None => {
                let mut entries: Vec<LeaderboardEntry> = Vec::new();
                admit_entry(&mut entries, e);
                self.tables.push(SeasonTable { key: LeaderboardKey { season_id }, entries });
                proof {
                    assert(self.tables@.drop_last() =~= old(self).tables@);
                    assert(Seq::<LeaderboardEntry>::empty() =~= old(self).season(season_id));
                    assert forall|id: u32| id != season_id implies #[trigger] self.season(id) == old(self).season(id) by {
                        assert(find_season(self.tables@, id) == find_season(old(self).tables@, id));
                        lemma_find_season(old(self).tables@, id);
                    }
                }
            },
        }
    }

    /// The season's whole table.
    pub fn entries(&self, season_id: u32) -> (r: Vec<LeaderboardEntry>)
        ensures
            r@ == self.season(season_id),
    {
        proof {
            lemma_find_season(self.tables@, season_id);
        }
        match self.index_of(season_id) {
            Some(i) => {
                let r = first_n(&self.tables[i].entries, self.tables[i].entries.len());
                assert(r@ =~= self.season(season_id));
                r
            },
            None => {
                let r: Vec<LeaderboardEntry> = Vec::new();
                assert(r@ =~= self.season(season_id));
                r
            },
        }
    }

    /// The season's first `limit` entries.
    pub fn top(&self, season_id: u32, limit: u32) -> (r: Vec<LeaderboardEntry>)
        ensures
            r@ == self.season(season_id).take(
                if limit as int <= self.season(season_id).len() { limit as int } else { self.season(season_id).len() as int },
            ),
    {
        proof {
            lemma_find_season(self.tables@, season_id);
        }
        match self.index_of(season_id) {
            Some(i) => first_n(&self.tables[i].entries, limit as usize),
            None => {
                let r: Vec<LeaderboardEntry> = Vec::new();
                assert(r@ =~= self.season(season_id).take(0));
                r
            },
        }
    }
}

} // verus!
