//! The start of a pong game on top of the plane: two paddles and two players.
use vstd::prelude::*;
use crate::object::{Coords, Mass, Movement, Object};
use crate::plane::{Id, Plane};

verus! {

pub const PADDLE_WIDTH: i32 = 5;

pub const PADDLE_HEIGHT: i32 = 50;

/// The `x` of the board's right edge.
pub const BOARD_RIGHT: i32 = 1000;

/// A rigid, massless, collidable paddle with its top left corner at `(x, 0)`.
pub open spec fn paddle_at(x: i32) -> Object {
    Object {
        width: PADDLE_WIDTH,
        height: PADDLE_HEIGHT,
        coords: Coords { x, y: 0 },
        movement: Movement::Rigid,
        mass: Mass::Massless,
        is_collidable: true,
        is_rigid: true,
    }
}

/// One side of the game: the paddle it controls and its score.
pub struct Player {
    pub paddle_id: Id,
    pub score: i32,
    /// Raised when this player wins a point; read and cleared between ticks.
    pub just_scored: bool,
}

/// The board with its paddles, the ball once there is one, and the players.
pub struct GameState {
    board: Plane,
    ball_id: Option<Id>,
    player_1: Player,
    player_2: Player,
}

impl GameState {
    pub closed spec fn board(&self) -> Plane {
        self.board
    }

    pub closed spec fn ball_id(&self) -> Option<Id> {
        self.ball_id
    }

    pub closed spec fn player_1(&self) -> Player {
        self.player_1
    }

    pub closed spec fn player_2(&self) -> Player {
        self.player_2
    }

    /// A fresh board holding the first player's paddle at the left edge and
    /// the second player's at the right edge, no ball, and both scores at 0.
    pub fn new() -> (r: Self)
        ensures
            r.board().wf(),
            r.board().objects() == Map::<Id, Object>::empty().insert(1, paddle_at(0)).insert(
                2,
                paddle_at((BOARD_RIGHT - PADDLE_WIDTH) as i32),
            ),
            r.board().collidables() == Set::<Id>::empty().insert(1).insert(2),
            r.ball_id() is None,
            r.player_1().paddle_id == 1,
            r.player_2().paddle_id == 2,
            r.player_1().score == 0,
            r.player_2().score == 0,
            !r.player_1().just_scored,
            !r.player_2().just_scored,
    {
        let mut plane = Plane::new();
        let paddle_1 = Object {
            width: PADDLE_WIDTH,
            height: PADDLE_HEIGHT,
            coords: Coords { x: 0, y: 0 },
            movement: Movement::Rigid,
            mass: Mass::Massless,
            is_collidable: true,
            is_rigid: true,
        };
        let paddle_2 = Object {
            width: PADDLE_WIDTH,
            height: PADDLE_HEIGHT,
            coords: Coords { x: BOARD_RIGHT - PADDLE_WIDTH, y: 0 },
            movement: Movement::Rigid,
            mass: Mass::Massless,
            is_collidable: true,
            is_rigid: true,
        };
        let paddle_1_id = plane.attach_object(paddle_1);
        let paddle_2_id = plane.attach_object(paddle_2);
        GameState {
            board: plane,
            ball_id: None,
            player_1: Player::new(paddle_1_id),
            player_2: Player::new(paddle_2_id),
        }
    }

    /// Puts the paddles and the ball back for the next point. Nothing is
    /// moved yet.
    #[allow(non_snake_case)]
    fn ResetPoint(&mut self)
        ensures
            *final(self) == *old(self),
    {
    }

    /// Advances the game by a tick. The game rules are not in place yet, so
    /// the state is left as it is.
    #[allow(non_snake_case)]
    pub fn Tick(&mut self)
        ensures
            *final(self) == *old(self),
    {
    }

    /// Whether the player owning this flag has just scored.
    fn get_scored(player_scored: &bool) -> (r: bool)
        ensures
            r == *player_scored,
    {
        *player_scored
    }

    /// Moves a player's paddle. Paddle control is not in place yet, so the
    /// state is left as it is.
    #[allow(non_snake_case)]
    pub fn MovePlayer(&mut self)
        ensures
            *final(self) == *old(self),
    {
    }

    /// Reports the paddles, players and score. Nothing is reported yet.
    #[allow(non_snake_case)]
    pub fn GetBoard(&mut self)
        ensures
            *final(self) == *old(self),
    {
    }

    /// Resets the board and the score. Nothing is reset yet.
    #[allow(non_snake_case)]
    pub fn ResetGame(&mut self)
        ensures
            *final(self) == *old(self),
    {
    }
}

impl Player {
    /// A player controlling the paddle `paddle_id`, with no points.
    pub fn new(paddle_id: Id) -> (r: Self)
        ensures
            r.paddle_id == paddle_id,
            r.score == 0,
            !r.just_scored,
    {
        Player { paddle_id: paddle_id, score: 0, just_scored: false }
    }
}

/// Raises a player's scoring flag, to be read between ticks.
pub fn set_scored(scored: &mut bool)
    ensures
        *final(scored),
{
    *scored = true;
}

/// The collision callbacks the game hands to its driver. There are none yet.
pub fn get_callbacks() {
}

} // verus!
