//! The game registry: the single shared index of in-progress games, keyed
//! by participant name. Every operation is one atomic read-modify-write
//! against `&mut self`; a caller that shares the registry across threads
//! wraps it in a mutual-exclusion primitive and holds the lock for the
//! whole call, which serialises requests addressing the same game.

use vstd::prelude::*;

use crate::ttt::{
    after_move, fresh_game, game_wf, has_player, in_turn, lemma_after_move_wf,
    lemma_move_accepted, lemma_no_double_move, move_err, pos_of, GameError, GameState, GameV,
    Player, TicTTGame,
};

verus! {

/// A name is a participant of some registered game.
pub open spec fn registered(s: Seq<GameV>, name: Seq<char>) -> bool {
    exists|i: int| 0 <= i < s.len() && has_player(#[trigger] s[i], name)
}

/// Well-formedness of the registry: every game is well-formed, and no
/// participant name appears in two different games.
pub open spec fn registry_wf(s: Seq<GameV>) -> bool {
    &&& forall|i: int| 0 <= i < s.len() ==> game_wf(#[trigger] s[i])
    &&& forall|i: int, j: int|
        0 <= i < s.len() && 0 <= j < s.len() && i != j ==> !has_player(
            #[trigger] s[j],
            (#[trigger] s[i]).player1.name,
        ) && !has_player(s[j], s[i].player2.name)
}

/// The authoritative collection of in-progress games. Games enter through
/// `start_game`, change only through `place_move`, and leave through
/// `quit_game` or by reaching a terminal state.
pub struct GameRegistry {
    games: Vec<TicTTGame>,
}

impl View for GameRegistry {
    type V = Seq<GameV>;

    closed spec fn view(&self) -> Seq<GameV> {
        self.games.deep_view()
    }
}

impl GameRegistry {
    /// An empty registry. Each service owns its instance; there is no
    /// process-wide one.
    pub fn new() -> (r: GameRegistry)
        ensures
            r@ =~= Seq::<GameV>::empty(),
            registry_wf(r@),
    {
        GameRegistry { games: Vec::new() }
    }

    /// How many games are in progress.
    pub fn len(&self) -> (n: usize)
        ensures
            n == self@.len(),
    {
        self.games.len()
    }

    /// Start a game between two named players, the first mover drawn at
    /// random. Checking that neither name is already playing and inserting
    /// the new game is one atomic step against the registry. Fails with
    /// `AlreadyInGame` — naming `name1` when it is the taken one, else
    /// `name2` — exactly when either name is already a participant
    /// anywhere.
    pub fn start_game(&mut self, name1: String, piece1: String, name2: String, piece2: String) -> (r:
        Result<(), GameError>)
        requires
            registry_wf(old(self)@),
        ensures
            registry_wf(final(self)@),
            match r {
                Ok(()) => {
                    &&& !registered(old(self)@, name1@)
                    &&& !registered(old(self)@, name2@)
                    &&& final(self)@.len() == old(self)@.len() + 1
                    &&& final(self)@ =~= old(self)@.push(final(self)@.last())
                    &&& fresh_game(final(self)@.last(), name1@, piece1@, name2@, piece2@)
                },
                Err(e) => {
                    &&& final(self)@ =~= old(self)@
                    &&& (registered(old(self)@, name1@) || registered(old(self)@, name2@))
                    &&& e matches GameError::AlreadyInGame(n) && ((n@ == name1@ && registered(
                        old(self)@,
                        name1@,
                    )) || (n@ == name2@ && registered(old(self)@, name2@)))
                },
            },
    {
        let n = self.games.len();
        let mut i: usize = 0;
        while i < n
            invariant
                i <= n,
                self == old(self),
                registry_wf(self@),
                n == self.games.len(),
                forall|j: int| 0 <= j < i ==> !has_player(#[trigger] self@[j], name1@),
                forall|j: int| 0 <= j < i ==> !has_player(#[trigger] self@[j], name2@),
            decreases n - i,
        {
            if TicTTGame::player_is_in_game(&name1, &self.games[i]) {
                proof {
                    assert(has_player(self@[i as int], name1@));
                }
                return Err(GameError::AlreadyInGame(name1));
            }
            if TicTTGame::player_is_in_game(&name2, &self.games[i]) {
                proof {
                    assert(has_player(self@[i as int], name2@));
                }
                return Err(GameError::AlreadyInGame(name2));
            }
            i += 1;
        }
        let game = TicTTGame::new(Player::new(name1, piece1), Player::new(name2, piece2));
        proof {
            assert(!registered(self@, name1@));
            assert(!registered(self@, name2@));
        }
        self.games.push(game);
        proof {
            assert(self@ =~= old(self)@.push(game@));
            assert forall|j: int| 0 <= j < old(self)@.len() implies !has_player(
                game@,
                (#[trigger] old(self)@[j]).player1.name,
            ) && !has_player(game@, old(self)@[j].player2.name) by {
                assert(!has_player(old(self)@[j], name1@));
                assert(!has_player(old(self)@[j], name2@));
            }
        }
        Ok(())
    }

    /// Apply `PlaceMove` for `mover` against the mover's game, as one
    /// atomic checkout: look the game up, validate and apply the move, and
    /// keep the updated game — or evict it when the move ended it — all
    /// under the same exclusive access. No intermediate state in which the
    /// game is absent can be observed, and requests for the same game are
    /// serialised. Fails with `NotInGame` exactly when `mover` has no game.
    pub fn place_move(&mut self, mover: &String, pos: &String) -> (r: Result<
        GameState,
        GameError,
    >)
        requires
            registry_wf(old(self)@),
        ensures
            registry_wf(final(self)@),
            !registered(old(self)@, mover@) ==> r == Err::<GameState, GameError>(
                GameError::NotInGame,
            ) && final(self)@ =~= old(self)@,
            forall|i: int|
                0 <= i < old(self)@.len() && has_player(#[trigger] old(self)@[i], mover@)
                    ==> place_move_post(old(self)@, final(self)@, i, mover@, pos@, r),
    {
        let n = self.games.len();
        let mut i: usize = 0;
        while i < n
            invariant
                i <= n,
                self == old(self),
                registry_wf(self@),
                n == self.games.len(),
                forall|j: int| 0 <= j < i ==> !has_player(#[trigger] self@[j], mover@),
            decreases n - i,
        {
            if TicTTGame::player_is_in_game(mover, &self.games[i]) {
                proof {
                    lemma_unique_index(self@, i as int, mover@);
                }
                let mut game = self.games.remove(i);
                let res = game.update_board(mover, pos);
                match res {
                    Ok(st) => {
                        proof {
                            lemma_move_accepted(old(self)@[i as int], mover@, pos@);
                            lemma_after_move_wf(
                                old(self)@[i as int],
                                match pos_of(pos@) {
                                    Some(p) => p,
                                    None => 0,
                                },
                            );
                        }
                        let keep = match game.state {
                            GameState::TurnPlayer1 | GameState::TurnPlayer2 => true,
                            _ => false,
                        };
                        if keep {
                            self.games.insert(i, game);
                            proof {
                                assert(self@ =~= old(self)@.update(i as int, game@));
                                lemma_registry_wf_update(old(self)@, i as int, game@);
                            }
                        } else {
                            proof {
                                assert(self@ =~= old(self)@.remove(i as int));
                                lemma_registry_wf_remove(old(self)@, i as int);
                            }
                        }
                        return Ok(st);
                    },
                    Err(e) => {
                        self.games.insert(i, game);
                        proof {
                            assert(self@ =~= old(self)@);
                        }
                        return Err(e);
                    },
                }
            }
            i += 1;
        }
        proof {
            assert(!registered(self@, mover@));
        }
        Err(GameError::NotInGame)
    }

    /// End the named player's game, removing it from the registry and
    /// handing both participants back. One atomic step; fails with
    /// `NotInGame` exactly when the name has no game.
    pub fn quit_game(&mut self, name: &String) -> (r: Result<(Player, Player), GameError>)
        requires
            registry_wf(old(self)@),
        ensures
            registry_wf(final(self)@),
            match r {
                Err(e) => {
                    &&& e == GameError::NotInGame
                    &&& !registered(old(self)@, name@)
                    &&& final(self)@ =~= old(self)@
                },
                Ok(pp) => {
                    &&& registered(old(self)@, name@)
                    &&& forall|i: int|
                        0 <= i < old(self)@.len() && has_player(#[trigger] old(self)@[i], name@)
                            ==> pp.0@ =~= old(self)@[i].player1 && pp.1@ =~= old(
                            self,
                        )@[i].player2 && final(self)@ =~= old(self)@.remove(i)
                },
            },
    {
        let n = self.games.len();
        let mut i: usize = 0;
        while i < n
            invariant
                i <= n,
                self == old(self),
                registry_wf(self@),
                n == self.games.len(),
                forall|j: int| 0 <= j < i ==> !has_player(#[trigger] self@[j], name@),
            decreases n - i,
        {
            if TicTTGame::player_is_in_game(name, &self.games[i]) {
                proof {
                    lemma_unique_index(self@, i as int, name@);
                    lemma_registry_wf_remove(self@, i as int);
                }
                let game = self.games.remove(i);
                proof {
                    assert(self@ =~= old(self)@.remove(i as int));
                }
                return Ok((game.player1, game.player2));
            }
            i += 1;
        }
        proof {
            assert(!registered(self@, name@));
        }
        Err(GameError::NotInGame)
    }

    /// Read access to the named player's game, for display. The borrow
    /// ends before any further registry operation can run, so no caller
    /// holds a game outside a registry operation.
    pub fn game_for(&self, name: &String) -> (r: Result<&TicTTGame, GameError>)
        requires
            registry_wf(self@),
        ensures
            match r {
                Ok(g) => registered(self@, name@) && has_player(g@, name@) && forall|i: int|
                    0 <= i < self@.len() && has_player(#[trigger] self@[i], name@) ==> g@ =~= self@[i],
                Err(e) => e == GameError::NotInGame && !registered(self@, name@),
            },
    {
        let n = self.games.len();
        let mut i: usize = 0;
        while i < n
            invariant
                i <= n,
                registry_wf(self@),
                n == self.games.len(),
                forall|j: int| 0 <= j < i ==> !has_player(#[trigger] self@[j], name@),
            decreases n - i,
        {
            if TicTTGame::player_is_in_game(name, &self.games[i]) {
                proof {
                    lemma_unique_index(self@, i as int, name@);
                }
                let game = &self.games[i];
                proof {
                    assert(game@ =~= self@[i as int]);
                    assert(has_player(self@[i as int], name@));
                }
                return Ok(game);
            }
            i += 1;
        }
        proof {
            assert(!registered(self@, name@));
        }
        Err(GameError::NotInGame)
    }
}

/// What one `PlaceMove` does to the registry when the mover's game stands
/// at index `i`: a game-level error leaves everything as it was; a valid
/// move replaces the game with its successor, or evicts it when the move
/// ended it.
pub open spec fn place_move_post(
    s: Seq<GameV>,
    s2: Seq<GameV>,
    i: int,
    mover: Seq<char>,
    pos: Seq<char>,
    r: Result<GameState, GameError>,
) -> bool {
    match move_err(s[i], mover, pos) {
        Some(e) => r == Err::<GameState, GameError>(e) && s2 =~= s,
        None => match pos_of(pos) {
            Some(p) => {
                let g2 = after_move(s[i], p);
                &&& r == Ok::<GameState, GameError>(g2.state)
                &&& if in_turn(g2) {
                    s2 =~= s.update(i, g2)
                } else {
                    s2 =~= s.remove(i)
                }
            },
            None => false,
        },
    }
}

/// In a well-formed registry a participant's game is unique: a name found
/// at index `i` appears in no other game.
proof fn lemma_unique_index(s: Seq<GameV>, i: int, name: Seq<char>)
    requires
        registry_wf(s),
        0 <= i < s.len(),
        has_player(s[i], name),
    ensures
        forall|k: int| 0 <= k < s.len() && k != i ==> !has_player(#[trigger] s[k], name),
{
    assert forall|k: int| 0 <= k < s.len() && k != i implies !has_player(
        #[trigger] s[k],
        name,
    ) by {
        assert(!has_player(s[k], s[i].player1.name));
        assert(!has_player(s[k], s[i].player2.name));
    }
}

proof fn lemma_registry_wf_remove(s: Seq<GameV>, i: int)
    requires
        registry_wf(s),
        0 <= i < s.len(),
    ensures
        registry_wf(s.remove(i)),
{
    let s2 = s.remove(i);
    assert forall|a: int| 0 <= a < s2.len() implies game_wf(#[trigger] s2[a]) by {
        if a < i {
            assert(s2[a] == s[a]);
        } else {
            assert(s2[a] == s[a + 1]);
        }
    }
    assert forall|a: int, b: int|
        0 <= a < s2.len() && 0 <= b < s2.len() && a != b implies !has_player(
        #[trigger] s2[b],
        (#[trigger] s2[a]).player1.name,
    ) && !has_player(s2[b], s2[a].player2.name) by {
        let a0 = if a < i {
            a
        } else {
            a + 1
        };
        let b0 = if b < i {
            b
        } else {
            b + 1
        };
        assert(s2[a] == s[a0]);
        assert(s2[b] == s[b0]);
        assert(!has_player(s[b0], s[a0].player1.name));
        assert(!has_player(s[b0], s[a0].player2.name));
    }
}

proof fn lemma_registry_wf_update(s: Seq<GameV>, i: int, g2: GameV)
    requires
        registry_wf(s),
        0 <= i < s.len(),
        game_wf(g2),
        g2.player1.name == s[i].player1.name,
        g2.player2.name == s[i].player2.name,
    ensures
        registry_wf(s.update(i, g2)),
{
    let s2 = s.update(i, g2);
    assert forall|a: int, b: int|
        0 <= a < s2.len() && 0 <= b < s2.len() && a != b implies !has_player(
        #[trigger] s2[b],
        (#[trigger] s2[a]).player1.name,
    ) && !has_player(s2[b], s2[a].player2.name) by {
        assert(!has_player(s[b], s[a].player1.name));
        assert(!has_player(s[b], s[a].player2.name));
    }
}

/// Starting a game registers both names: once the fresh game stands in the
/// registry, either participant is registered, so by `start_game`'s
/// contract a further start naming either of them is refused.
pub proof fn lemma_start_registers(
    s: Seq<GameV>,
    g: GameV,
    name1: Seq<char>,
    piece1: Seq<char>,
    name2: Seq<char>,
    piece2: Seq<char>,
)
    requires
        fresh_game(g, name1, piece1, name2, piece2),
    ensures
        registered(s.push(g), name1),
        registered(s.push(g), name2),
{
    assert(has_player(s.push(g)[s.len() as int], name1));
    assert(has_player(s.push(g)[s.len() as int], name2));
}

/// Two `PlaceMove` requests for the same player and cell never both
/// succeed. The registry serialises requests that address the same game,
/// so the later request runs against the earlier's post-registry: there it
/// either finds no game any more (the move ended the game, which was
/// evicted) or finds the moved game and is refused, the cell being taken
/// now. Either way the later request observes the earlier's post-state.
pub proof fn lemma_no_double_move_registry(
    s: Seq<GameV>,
    i: int,
    mover: Seq<char>,
    pos: Seq<char>,
)
    requires
        registry_wf(s),
        0 <= i < s.len(),
        has_player(s[i], mover),
        move_err(s[i], mover, pos) is None,
    ensures
        match pos_of(pos) {
            Some(p) => {
                let g2 = after_move(s[i], p);
                &&& (!in_turn(g2) ==> !registered(s.remove(i), mover))
                &&& (in_turn(g2) ==> move_err(s.update(i, g2)[i], mover, pos) is Some)
            },
            None => false,
        },
{
    lemma_move_accepted(s[i], mover, pos);
    lemma_no_double_move(s[i], mover, pos);
    lemma_quit_deregisters(s, i, mover);
}

/// Quitting deregisters: removing the one game that holds a participant
/// leaves both its names free, so by `start_game`'s contract a later start
/// reusing either name succeeds.
pub proof fn lemma_quit_deregisters(s: Seq<GameV>, i: int, name: Seq<char>)
    requires
        registry_wf(s),
        0 <= i < s.len(),
        has_player(s[i], name),
    ensures
        !registered(s.remove(i), name),
        !registered(s.remove(i), s[i].player1.name),
        !registered(s.remove(i), s[i].player2.name),
{
    lemma_name_leaves(s, i, name);
    lemma_name_leaves(s, i, s[i].player1.name);
    lemma_name_leaves(s, i, s[i].player2.name);
}

proof fn lemma_name_leaves(s: Seq<GameV>, i: int, name: Seq<char>)
    requires
        registry_wf(s),
        0 <= i < s.len(),
        has_player(s[i], name),
    ensures
        !registered(s.remove(i), name),
{
    lemma_unique_index(s, i, name);
    let s2 = s.remove(i);
    assert forall|j: int| 0 <= j < s2.len() implies !has_player(#[trigger] s2[j], name) by {
        if j < i {
            assert(s2[j] == s[j]);
        } else {
            assert(s2[j] == s[j + 1]);
        }
    }
}

} // verus!
