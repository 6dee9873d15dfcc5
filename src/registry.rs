use vstd::prelude::*;

use crate::error::GameError;
use crate::instance::{GameInstance, Player};
use crate::tile::Tile;

verus! {

/// A character of nanoid's URL-safe alphabet.
pub open spec fn is_id_char(c: char) -> bool {
    c == '_' || c == '-' || ('0' <= c <= '9') || ('a' <= c <= 'z') || ('A' <= c <= 'Z')
}

/// Relies on nanoid::format with nanoid's default random source and its
/// URL-safe alphabet, as `nanoid!()` calls it: a random identifier of 21
/// characters, each from that alphabet.
#[verifier::external_body]
fn fresh_id() -> (r: String)
    ensures
        r@.len() == 21,
        forall|i: int| 0 <= i < r@.len() ==> is_id_char(#[trigger] r@[i]),
{
    nanoid::format(nanoid::rngs::default, &nanoid::alphabet::SAFE, 21)
}

/// Some match of `games` has the identifier `id`.
pub open spec fn has_id(games: Seq<GameInstance>, id: Seq<char>) -> bool {
    exists|i: int| 0 <= i < games.len() && (#[trigger] games[i]).id@ == id
}

/// The slot of the connection that creates the match `id`.
pub open spec fn creator_slot(id: String, creator: String) -> Player {
    Player { tile: Tile::X, addr: Some(creator), game_id: id }
}

/// `g` is the match that `creator` has just created under the identifier `id`:
/// an empty board, the creator on the first slot with `X`, the second slot
/// open with `O`.
pub open spec fn is_new_match(g: GameInstance, id: String, creator: String) -> bool {
    &&& g.id == id
    &&& g.board.is_empty()
    &&& g.players@[0] == creator_slot(id, creator)
    &&& g.players@[1] == (Player { tile: Tile::O, addr: None, game_id: id })
}

/// `after` is `before` with one match added: the one that `creator` created
/// under `id`, an identifier that no match of `before` has.
pub open spec fn created(
    before: Seq<GameInstance>,
    after: Seq<GameInstance>,
    id: String,
    creator: String,
) -> bool {
    &&& !has_id(before, id@)
    &&& after.len() == before.len() + 1
    &&& after.drop_last() == before
    &&& is_new_match(after.last(), id, creator)
}

/// Two matches created one after the other, by the same connection or by
/// different ones, get different identifiers, and the registry keeps every
/// identifier unique.
pub proof fn lemma_created_ids_distinct(
    r0: Registry,
    r1: Registry,
    r2: Registry,
    id1: String,
    creator1: String,
    id2: String,
    creator2: String,
)
    requires
        r0.wf(),
        created(r0@, r1@, id1, creator1),
        created(r1@, r2@, id2, creator2),
    ensures
        id1@ != id2@,
        r1.wf(),
        r2.wf(),
{
    lemma_created_wf(r0, r1, id1, creator1);
    lemma_created_wf(r1, r2, id2, creator2);
    assert(r1@[r1@.len() - 1].id@ == id1@);
}

/// Adding a created match keeps a registry well formed.
proof fn lemma_created_wf(before: Registry, after: Registry, id: String, creator: String)
    requires
        before.wf(),
        created(before@, after@, id, creator),
    ensures
        after.wf(),
{
    let n = before@.len();
    assert forall|i: int| 0 <= i < n implies after@[i] == before@[i] by {
        assert(after@.drop_last()[i] == after@[i]);
    }
    assert forall|i: int, j: int|
        0 <= i < after@.len() && 0 <= j < after@.len() && i != j implies (#[trigger] after@[i]).id@
        != (#[trigger] after@[j]).id@ by {
        if i < n && j < n {
            assert(before@[i] == after@[i] && before@[j] == after@[j]);
        } else if i < n {
            assert(before@[i] == after@[i]);
        } else {
            assert(before@[j] == after@[j]);
        }
    }
    assert forall|i: int| 0 <= i < after@.len() implies (#[trigger] after@[i]).wf() by {
        if i < n {
            assert(before@[i] == after@[i]);
        }
    }
}

/// `after` is `before` with the match at `i` replaced by `g`.
pub open spec fn replaced(
    before: Seq<GameInstance>,
    after: Seq<GameInstance>,
    i: int,
    g: GameInstance,
) -> bool {
    &&& after.len() == before.len()
    &&& after[i] == g
    &&& forall|j: int| 0 <= j < before.len() && j != i ==> after[j] == before[j]
}

/// The matches of a server by identifier. Identifiers are unique; matches are
/// only ever added.
pub struct Registry {
    games: Vec<GameInstance>,
}

impl View for Registry {
    type V = Seq<GameInstance>;

    closed spec fn view(&self) -> Seq<GameInstance> {
        self.games@
    }
}

impl Registry {
    /// Every match is well formed and no two share an identifier.
    pub open spec fn wf(&self) -> bool {
        &&& forall|i: int| 0 <= i < self@.len() ==> (#[trigger] self@[i]).wf()
        &&& forall|i: int, j: int|
            0 <= i < self@.len() && 0 <= j < self@.len() && i != j ==> (#[trigger] self@[i]).id@
                != (#[trigger] self@[j]).id@
    }

    /// A registry without matches.
    pub fn new() -> (r: Registry)
        ensures
            r.wf(),
            r@.len() == 0,
    {
        Registry { games: Vec::new() }
    }

    /// The number of matches.
    pub fn len(&self) -> (r: usize)
        ensures
            r == self@.len(),
    {
        self.games.len()
    }

    /// The position of the match `id`.
    fn find(&self, id: &String) -> (r: Option<usize>)
        ensures
            r matches Some(i) ==> i < self@.len() && self@[i as int].id@ == id@,
            r is None ==> !has_id(self@, id@),
    {
        let mut i: usize = 0;
        while i < self.games.len()
            invariant
                i <= self.games@.len(),
                forall|j: int| 0 <= j < i ==> (#[trigger] self.games@[j]).id@ != id@,
            decreases self.games@.len() - i,
        {
            if self.games[i].id == *id {
                return Some(i);
            }
            i = i + 1;
        }
        None
    }

    /// The match `id`.
    pub fn get_match(&self, id: &String) -> (r: Result<&GameInstance, GameError>)
        ensures
            r is Err <==> !has_id(self@, id@),
            r is Err ==> r == Err::<&GameInstance, GameError>(GameError::NotFound),
            r matches Ok(g) ==> g.id@ == id@ && exists|i: int|
                0 <= i < self@.len() && self@[i] == *g,
    {
        match self.find(id) {
            Some(i) => Ok(&self.games[i]),
            None => Err(GameError::NotFound),
        }
    }

    /// Adds a match under the identifier `id`, created by the connection
    /// `creator`, and returns the creator's slot.
    pub fn insert_match(&mut self, id: String, creator: String) -> (r: Result<Player, GameError>)
        requires
            old(self).wf(),
        ensures
            final(self).wf(),
            has_id(old(self)@, id@) ==> r == Err::<Player, GameError>(GameError::IdTaken)
                && final(self)@ == old(self)@,
            !has_id(old(self)@, id@) ==> r == Ok::<Player, GameError>(creator_slot(id, creator))
                && created(old(self)@, final(self)@, id, creator),
    {
        if self.find(&id).is_some() {
            return Err(GameError::IdTaken);
        }
        let creator_player = Player { tile: Tile::X, addr: Some(creator), game_id: id.clone() };
        let open_slot = Player { tile: Tile::O, addr: None, game_id: id.clone() };
        let game = match GameInstance::new(id, [creator_player.clone(), open_slot]) {
            Ok(g) => g,
            Err(e) => return Err(e),
        };
        self.games.push(game);
        proof {
            assert(self@.drop_last() =~= old(self)@);
            assert forall|i: int, j: int|
                0 <= i < self@.len() && 0 <= j < self@.len() && i != j implies (#[trigger] self@[i]).id@
                != (#[trigger] self@[j]).id@ by {
                if i < old(self)@.len() && j < old(self)@.len() {
                    assert(old(self)@[i] == self@[i] && old(self)@[j] == self@[j]);
                } else if i < old(self)@.len() {
                    assert(old(self)@[i] == self@[i]);
                } else {
                    assert(old(self)@[j] == self@[j]);
                }
            }
        }
        Ok(creator_player)
    }

    /// Creates a match for the connection `creator` under a freshly drawn
    /// identifier; returns the identifier and the creator's slot.
    pub fn create_match(&mut self, creator: String) -> (r: Result<(String, Player), GameError>)
        requires
            old(self).wf(),
        ensures
            final(self).wf(),
            r is Err ==> r == Err::<(String, Player), GameError>(GameError::IdTaken)
                && final(self)@ == old(self)@,
            r matches Ok((id, p)) ==> p == creator_slot(id, creator) && created(
                old(self)@,
                final(self)@,
                id,
                creator,
            ),
            r matches Ok((id, _)) ==> id@.len() == 21 && forall|i: int|
                0 <= i < 21 ==> is_id_char(#[trigger] id@[i]),
            old(self)@.len() == 0 ==> r is Ok,
    {
        let id = fresh_id();
        match self.insert_match(id.clone(), creator) {
            Ok(p) => Ok((id, p)),
            Err(e) => Err(e),
        }
    }

    /// The connection `addr` joins the match `id`.
    pub fn join_match(&mut self, id: &String, addr: String) -> (r: Result<Player, GameError>)
        requires
            old(self).wf(),
        ensures
            final(self).wf(),
            !has_id(old(self)@, id@) ==> r == Err::<Player, GameError>(GameError::NotFound)
                && final(self)@ == old(self)@,
            forall|i: int|
                0 <= i < old(self)@.len() && (#[trigger] old(self)@[i]).id@ == id@ ==> {
                    &&& r == old(self)@[i].joined(addr).1
                    &&& replaced(old(self)@, final(self)@, i, final(self)@[i])
                    &&& final(self)@[i].id == old(self)@[i].id
                    &&& final(self)@[i].board == old(self)@[i].board
                    &&& final(self)@[i].players@ == old(self)@[i].joined(addr).0
                },
    {
        match self.find(id) {
            None => Err(GameError::NotFound),
            Some(i) => {
                let r = self.games[i].add_player(addr);
                proof {
                    self.lemma_one_changed(*old(self), i as int);
                }
                r
            },
        }
    }

    /// The connection `addr` plays cell `tile_idx` in the match `id`.
    pub fn set_tile(&mut self, id: &String, addr: String, tile_idx: usize) -> (r: Result<
        (),
        GameError,
    >)
        requires
            old(self).wf(),
        ensures
            final(self).wf(),
            !has_id(old(self)@, id@) ==> r == Err::<(), GameError>(GameError::NotFound)
                && final(self)@ == old(self)@,
            forall|i: int|
                0 <= i < old(self)@.len() && (#[trigger] old(self)@[i]).id@ == id@ ==> {
                    &&& replaced(old(self)@, final(self)@, i, final(self)@[i])
                    &&& crate::instance::move_made(
                        old(self)@[i],
                        final(self)@[i],
                        addr@,
                        tile_idx as int,
                        r,
                    )
                },
    {
        match self.find(id) {
            None => Err(GameError::NotFound),
            Some(i) => {
                let r = self.games[i].apply_move(addr, tile_idx);
                proof {
                    self.lemma_one_changed(*old(self), i as int);
                }
                r
            },
        }
    }

    /// `self` differs from `before` at most in the match at `i`, which kept its
    /// identifier and stayed well formed; so `self` is well formed and `i` is
    /// the only position of that identifier.
    proof fn lemma_one_changed(&self, before: Registry, i: int)
        requires
            before.wf(),
            0 <= i < before@.len(),
            self@.len() == before@.len(),
            self@[i].id == before@[i].id,
            self@[i].wf(),
            forall|j: int| 0 <= j < before@.len() && j != i ==> self@[j] == before@[j],
        ensures
            self.wf(),
            forall|j: int| 0 <= j < before@.len() && before@[j].id@ == before@[i].id@ ==> j == i,
    {
        assert forall|a: int, b: int|
            0 <= a < self@.len() && 0 <= b < self@.len() && a != b implies (#[trigger] self@[a]).id@
            != (#[trigger] self@[b]).id@ by {
            assert(self@[a].id == before@[a].id);
            assert(self@[b].id == before@[b].id);
        }
        assert forall|j: int| 0 <= j < self@.len() implies (#[trigger] self@[j]).wf() by {
            if j != i {
                assert(before@[j].wf());
            }
        }
    }
}

} // verus!
