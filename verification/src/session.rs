//! One game from start to game over: the board, the snake, the food, the
//! score and the state, and what a tick and a frame do to them.

use vstd::prelude::*;
use crate::board::{lemma_stepped_inside, Board};
use crate::dice::Dice;
use crate::entity::{Entity, FOOD_BLOCK, SNAKE_BLOCK};
use crate::geometry::Vector2;
use crate::input::{
    lemma_no_reversal, map_input, mapped, steer, steered, Control, Heading, Key,
};
use crate::snake::{
    advance, bites, bitten, first_vacant, grow, grown, has_vacancy,
    lemma_short_snake_leaves_room, moved, occupied, occupies, respawn, sprout, trailed,
};

verus! {

/// Where a session stands.
#[derive(Clone, Copy, Debug, PartialEq, Eq, Structural)]
pub enum GameState {
    AwaitingStart,
    Playing,
    GameOver,
}

/// The line under the board.
#[derive(Clone, Copy, Debug, PartialEq, Eq, Structural)]
pub enum Prompt {
    /// How to steer and how to leave.
    Controls,
    /// The score, once it is above zero.
    Score(u64),
    /// How to start and how to leave.
    Start,
}

/// What a frame leaves for the loop that drives it.
#[derive(Clone, Copy, Debug, PartialEq, Eq)]
pub struct FrameReport {
    /// The loop ends after this frame is shown.
    pub quit: bool,
    pub prompt: Prompt,
}

/// A session as plain values.
pub struct SessionModel {
    pub board: Board,
    pub snake: Seq<Entity>,
    pub food: Entity,
    pub score: nat,
    pub state: GameState,
}

/// A game of snake. Its parts change only through the methods below, which
/// keep it well formed.
#[derive(Debug)]
pub struct GameSession {
    board: Board,
    snake: Vec<Entity>,
    food: Entity,
    score: u64,
    state: GameState,
}

impl SessionModel {
    /// What holds of a session at all times: the board has cells, every
    /// segment and the food stand on it, every segment's step is a
    /// direction, and the snake has one segment more than the score.
    pub open spec fn valid(self) -> bool {
        &&& self.board.valid()
        &&& self.snake.len() == self.score + 1
        &&& forall|i: int|
            0 <= i < self.snake.len() ==> self.board.contains((#[trigger] self.snake[i]).position)
                && self.snake[i].direction.is_direction()
        &&& self.board.contains(self.food.position)
    }

    /// A session before its first game: a head that points right, the food,
    /// no score.
    pub open spec fn fresh(board: Board, head: Vector2, food: Vector2) -> SessionModel {
        SessionModel {
            board,
            snake: seq![
                Entity { position: head, direction: Vector2 { x: 1, y: 0 }, glyph: SNAKE_BLOCK },
            ],
            food: Entity { position: food, direction: Vector2 { x: 1, y: 0 }, glyph: FOOD_BLOCK },
            score: 0,
            state: GameState::AwaitingStart,
        }
    }

    /// The session in another state.
    pub open spec fn in_state(self, state: GameState) -> SessionModel {
        SessionModel { state, ..self }
    }

    /// The session after the snake has moved once.
    pub open spec fn slithered(self, turn: Option<Heading>) -> SessionModel {
        SessionModel { snake: moved(self.board, self.snake, turn), ..self }
    }

    /// Whether the head stands on the food.
    pub open spec fn on_food(self) -> bool {
        self.snake[0].position == self.food.position
    }

    /// Whether `site` can take the food after a meal: the head stands on
    /// the food, and `site` is a cell of the board that the snake leaves
    /// free.
    pub open spec fn accepts(self, site: Vector2) -> bool {
        self.on_food() && self.board.contains(site) && !occupied(self.snake, site)
    }

    /// The session after a meal that puts the food on `site`.
    pub open spec fn fed(self, site: Vector2) -> SessionModel {
        SessionModel {
            snake: grown(self.board, self.snake),
            food: Entity { position: site, ..self.food },
            score: self.score + 1,
            ..self
        }
    }

    /// The session after one tick, in which a meal puts the food on `site`.
    pub open spec fn ticked(self, turn: Option<Heading>, site: Vector2) -> SessionModel {
        let after = self.slithered(turn);
        if after.on_food() {
            after.fed(site)
        } else {
            after
        }
    }

    /// Whether a tick can be made: where it ends in a meal, the snake
    /// leaves a cell free for the food.
    pub open spec fn can_tick(self, turn: Option<Heading>) -> bool {
        self.slithered(turn).on_food() ==> has_vacancy(self.board, self.slithered(turn).snake)
    }

    /// Whether the keys of a frame leave the session able to make it.
    pub open spec fn can_frame(self, keys: Seq<Key>) -> bool {
        self.state == GameState::Playing ==> self.can_tick(
            mapped(keys, self.snake[0].direction).turn,
        )
    }

    /// The session after one frame with these keys, in which a meal puts
    /// the food on `site` and a new game starts with the given `head` and
    /// `food`.
    pub open spec fn framed(
        self,
        keys: Seq<Key>,
        site: Vector2,
        head: Vector2,
        food: Vector2,
    ) -> SessionModel {
        let input = mapped(keys, self.snake[0].direction);
        match self.state {
            GameState::Playing => {
                if bitten(self.slithered(input.turn).snake) {
                    self.ticked(input.turn, site).in_state(GameState::GameOver)
                } else {
                    self.ticked(input.turn, site)
                }
            },
            GameState::AwaitingStart => {
                if input.control == Some(Control::Confirm) {
                    self.in_state(GameState::Playing)
                } else {
                    self
                }
            },
            GameState::GameOver => {
                if input.control == Some(Control::Confirm) {
                    SessionModel::fresh(self.board, head, food).in_state(GameState::Playing)
                } else {
                    self
                }
            },
        }
    }

    /// The line under the board after a frame that began in `began` and
    /// left the session as it is.
    pub open spec fn prompt(self, began: GameState) -> Prompt {
        if began == GameState::Playing {
            if self.score == 0 {
                Prompt::Controls
            } else {
                Prompt::Score(self.score as u64)
            }
        } else {
            Prompt::Start
        }
    }
}

/// A move keeps a valid session valid.
pub proof fn lemma_slithered_valid(model: SessionModel, turn: Option<Heading>)
    requires
        model.valid(),
    ensures
        model.slithered(turn).valid(),
{
    let after = model.slithered(turn);
    let heading = steered(model.snake[0].direction, turn);
    lemma_no_reversal(model.snake[0].direction, turn);
    lemma_stepped_inside(model.board, model.snake[0].position, heading);
    assert forall|i: int| 0 <= i < after.snake.len() implies model.board.contains(
        (#[trigger] after.snake[i]).position,
    ) && after.snake[i].direction.is_direction() by {
        if i > 0 {
            assert(after.snake[i] == trailed(model.snake)[i]);
            assert(model.board.contains(model.snake[i - 1].position));
        }
    }
}

/// A meal keeps a valid session valid wherever on the board it puts the
/// food.
pub proof fn lemma_fed_valid(model: SessionModel, site: Vector2)
    requires
        model.valid(),
        model.board.contains(site),
    ensures
        model.fed(site).valid(),
{
    let after = model.fed(site);
    let tail = model.snake.last();
    lemma_stepped_inside(model.board, tail.position, tail.direction);
    assert forall|i: int| 0 <= i < after.snake.len() implies model.board.contains(
        (#[trigger] after.snake[i]).position,
    ) && after.snake[i].direction.is_direction() by {
        if i < model.snake.len() {
            assert(after.snake[i] == model.snake[i]);
        }
    }
}

/// While the snake is shorter than the board has cells, every tick and
/// every frame can be made.
pub proof fn lemma_room_to_move(model: SessionModel, turn: Option<Heading>, keys: Seq<Key>)
    requires
        model.valid(),
        model.snake.len() < model.board.area(),
    ensures
        model.can_tick(turn),
        model.can_frame(keys),
{
    lemma_short_snake_leaves_room(model.board, model.slithered(turn).snake);
    let asked = mapped(keys, model.snake[0].direction).turn;
    lemma_short_snake_leaves_room(model.board, model.slithered(asked).snake);
}

/// After a tick every segment behind the head, the new one of a meal
/// apart, holds the place and the step that the segment in front of it had
/// before the tick, and the head has gone one step the way it was steered.
pub proof fn lemma_tick_trails(model: SessionModel, turn: Option<Heading>, site: Vector2)
    requires
        model.valid(),
    ensures
        forall|i: int|
            1 <= i < model.snake.len() ==> (#[trigger] model.ticked(turn, site).snake[i]).position
                == model.snake[i - 1].position && model.ticked(turn, site).snake[i].direction
                == model.snake[i - 1].direction,
        model.ticked(turn, site).snake[0].direction == steered(
            model.snake[0].direction,
            turn,
        ),
        model.ticked(turn, site).snake[0].position == model.board.stepped(
            model.snake[0].position,
            model.ticked(turn, site).snake[0].direction,
        ),
        model.board.contains(model.ticked(turn, site).snake[0].position),
{
    lemma_slithered_valid(model, turn);
    let after = model.slithered(turn);
    assert forall|i: int| 1 <= i < model.snake.len() implies (#[trigger] model.ticked(
        turn,
        site,
    ).snake[i]).position == model.snake[i - 1].position && model.ticked(
        turn,
        site,
    ).snake[i].direction == model.snake[i - 1].direction by {
        assert(after.snake[i] == trailed(model.snake)[i]);
    }
}

/// A meal raises the score by one and the length by one, and puts the food
/// where it is told; a tick without a meal leaves score, length and food as
/// they were. The snake never gets shorter.
pub proof fn lemma_tick_meal(model: SessionModel, turn: Option<Heading>, site: Vector2)
    requires
        model.valid(),
    ensures
        model.slithered(turn).on_food() ==> {
            &&& model.ticked(turn, site).score == model.score + 1
            &&& model.ticked(turn, site).snake.len() == model.snake.len() + 1
            &&& model.ticked(turn, site).food.position == site
        },
        !model.slithered(turn).on_food() ==> {
            &&& model.ticked(turn, site).score == model.score
            &&& model.ticked(turn, site).snake.len() == model.snake.len()
            &&& model.ticked(turn, site).food == model.food
        },
        model.ticked(turn, site).snake.len() >= model.snake.len(),
        model.board.contains(site) ==> model.ticked(turn, site).valid(),
{
    lemma_slithered_valid(model, turn);
    if model.board.contains(site) {
        lemma_fed_valid(model.slithered(turn), site);
    }
}

/// After a meal the food lies under no segment of the snake, unless it
/// was put on the cell where the new segment grows.
pub proof fn lemma_meal_food_is_free(model: SessionModel, turn: Option<Heading>, site: Vector2)
    requires
        model.valid(),
        model.slithered(turn).accepts(site),
        site != sprout(model.board, model.slithered(turn).snake).position,
    ensures
        !occupied(model.ticked(turn, site).snake, model.ticked(turn, site).food.position),
{
    let before = model.slithered(turn).snake;
    let after = model.ticked(turn, site).snake;
    if occupied(after, site) {
        let i: int = choose|i: int|
            0 <= i < after.len() && (#[trigger] after[i]).position == site;
        if i < before.len() {
            assert(before[i].position == site);
        }
    }
}

/// A snake of one segment does not bite itself, whatever it does.
pub proof fn lemma_single_never_bites(model: SessionModel, turn: Option<Heading>)
    requires
        model.snake.len() == 1,
    ensures
        !bitten(model.slithered(turn).snake),
{
}

/// The states follow one another in one way only: `Confirm` starts the
/// first game as the session stands, a bite ends a game, and nothing but
/// `Confirm` leaves a game that is over. Outside a game the snake, the food
/// and the score rest.
pub proof fn lemma_transitions(
    model: SessionModel,
    keys: Seq<Key>,
    site: Vector2,
    head: Vector2,
    food: Vector2,
)
    ensures
        model.state == GameState::AwaitingStart ==> model.framed(keys, site, head, food)
            == model.in_state(
            if mapped(keys, model.snake[0].direction).control == Some(Control::Confirm) {
                GameState::Playing
            } else {
                GameState::AwaitingStart
            },
        ),
        model.state == GameState::Playing ==> model.framed(keys, site, head, food).state == (
        if bitten(model.slithered(mapped(keys, model.snake[0].direction).turn).snake) {
            GameState::GameOver
        } else {
            GameState::Playing
        }),
        model.state == GameState::GameOver && mapped(keys, model.snake[0].direction).control
            != Some(Control::Confirm) ==> model.framed(keys, site, head, food) == model,
        model.state == GameState::GameOver && mapped(keys, model.snake[0].direction).control
            == Some(Control::Confirm) ==> model.framed(keys, site, head, food).state
            == GameState::Playing,
        model.framed(keys, site, head, food).board == model.board,
{
}

/// `Confirm` after a game is over starts a new game: one segment, no
/// score, head and food where they were newly put.
pub proof fn lemma_new_game(
    model: SessionModel,
    keys: Seq<Key>,
    site: Vector2,
    head: Vector2,
    food: Vector2,
)
    requires
        model.valid(),
        model.state == GameState::GameOver,
        mapped(keys, model.snake[0].direction).control == Some(Control::Confirm),
        model.board.contains(head),
        model.board.contains(food),
    ensures
        model.framed(keys, site, head, food).state == GameState::Playing,
        model.framed(keys, site, head, food).snake.len() == 1,
        model.framed(keys, site, head, food).score == 0,
        model.framed(keys, site, head, food).snake[0].position == head,
        model.framed(keys, site, head, food).food.position == food,
        model.framed(keys, site, head, food).valid(),
{
}

impl View for GameSession {
    type V = SessionModel;

    closed spec fn view(&self) -> SessionModel {
        SessionModel {
            board: self.board,
            snake: self.snake@,
            food: self.food,
            score: self.score as nat,
            state: self.state,
        }
    }
}

impl GameSession {
    /// What every session that this module hands out satisfies.
    pub open spec fn wf(&self) -> bool {
        self@.valid()
    }

    /// A session before its first game, with the head and the food on the
    /// given cells; none where one of them is off the board.
    pub fn with_cells(board: Board, head: Vector2, food: Vector2) -> (made: Option<GameSession>)
        ensures
            made is Some <==> board.contains(head) && board.contains(food),
            made matches Some(session) ==> session.wf() && session@ == SessionModel::fresh(
                board,
                head,
                food,
            ),
    {
        if !board.contains(head) || !board.contains(food) {
            return None;
        }
        let mut snake: Vec<Entity> = Vec::new();
        snake.push(Entity { position: head, direction: Vector2 { x: 1, y: 0 }, glyph: SNAKE_BLOCK });
        let session = GameSession {
            board,
            snake,
            food: Entity { position: food, direction: Vector2 { x: 1, y: 0 }, glyph: FOOD_BLOCK },
            score: 0,
            state: GameState::AwaitingStart,
        };
        assert(session@.snake =~= SessionModel::fresh(board, head, food).snake);
        Some(session)
    }

    /// A session before its first game, with the head and then the food
    /// drawn from the whole board.
    pub fn new(board: Board, dice: &mut Dice) -> (made: GameSession)
        ensures
            made.wf(),
            made@ == SessionModel::fresh(board, made@.snake[0].position, made@.food.position),
    {
        let head = board.random_cell(dice);
        let food = board.random_cell(dice);
        GameSession::with_cells(board, head, food).unwrap()
    }

    /// The board, which a session keeps for all its games.
    pub fn board(&self) -> (board: Board)
        ensures
            board == self@.board,
    {
        self.board
    }

    /// The segments, head first.
    pub fn snake(&self) -> (snake: &Vec<Entity>)
        ensures
            snake@ == self@.snake,
    {
        &self.snake
    }

    /// The segment that is steered.
    pub fn head(&self) -> (head: Entity)
        requires
            self.wf(),
        ensures
            head == self@.snake[0],
    {
        self.snake[0]
    }

    /// The food.
    pub fn food(&self) -> (food: Entity)
        ensures
            food == self@.food,
    {
        self.food
    }

    /// The meals of the game that is played or was played last.
    pub fn score(&self) -> (score: u64)
        ensures
            score == self@.score,
    {
        self.score
    }

    /// Where the session stands.
    pub fn state(&self) -> (state: GameState)
        ensures
            state == self@.state,
    {
        self.state
    }

    /// Whether the head stands on the food.
    pub fn on_food(&self) -> (meal: bool)
        requires
            self.wf(),
        ensures
            meal == self@.on_food(),
    {
        self.snake[0].position == self.food.position
    }

    /// The move of a tick: the body follows, the head turns as the guard
    /// allows and goes one step with wrap-around, and the head is looked
    /// for among the segments behind it.
    pub fn slither(&mut self, turn: Option<Heading>) -> (hit: bool)
        requires
            old(self).wf(),
        ensures
            final(self).wf(),
            final(self)@ == old(self)@.slithered(turn),
            hit == bitten(final(self)@.snake),
            old(self)@.snake.len() == 1 ==> !hit,
    {
        proof {
            lemma_slithered_valid(self@, turn);
        }
        advance(&self.board, &mut self.snake, turn);
        bites(self.snake.as_slice())
    }

    /// The meal of a tick, with the place of the new food given: where the
    /// head stands on the food and `site` is a free cell of the board, the
    /// score goes up by one, the food goes to `site` and the snake grows by
    /// one segment behind its tail. Otherwise nothing changes.
    pub fn feed(&mut self, site: Vector2) -> (fed: bool)
        requires
            old(self).wf(),
        ensures
            final(self).wf(),
            fed == old(self)@.accepts(site),
            final(self)@ == (if fed {
                old(self)@.fed(site)
            } else {
                old(self)@
            }),
    {
        if !self.on_food() || !self.board.contains(site) || occupies(self.snake.as_slice(), site) {
            return false;
        }
        proof {
            lemma_fed_valid(self@, site);
            // The score is one less than a length that fits a `usize`.
            assert(self.score + 1 == self.snake.len());
        }
        self.score = self.score + 1;
        self.food.position = site;
        grow(&self.board, &mut self.snake);
        true
    }

    /// Whether the snake is shorter than the board has cells, so that it
    /// leaves a cell free wherever it lies.
    pub fn has_room(&self) -> (room: bool)
        requires
            self.wf(),
        ensures
            room == (self@.snake.len() < self@.board.area()),
            room ==> forall|turn: Option<Heading>| self@.can_tick(turn),
            room ==> forall|keys: Seq<Key>| self@.can_frame(keys),
    {
        let room = (self.snake.len() as u64) < self.board.cells();
        proof {
            if room {
                assert forall|turn: Option<Heading>| self@.can_tick(turn) by {
                    lemma_room_to_move(self@, turn, Seq::empty());
                }
                assert forall|keys: Seq<Key>| self@.can_frame(keys) by {
                    lemma_room_to_move(self@, None, keys);
                }
            }
        }
        room
    }

    /// Whether a tick with this turn can be made: it can unless it ends in
    /// a meal on a board that the snake covers.
    pub fn can_tick(&self, turn: Option<Heading>) -> (able: bool)
        requires
            self.wf(),
        ensures
            able == self@.can_tick(turn),
    {
        let heading = steer(self.snake[0].direction, turn);
        let next = self.board.step(self.snake[0].position, heading);
        if next != self.food.position {
            return true;
        }
        let mut ahead = self.snake.clone();
        assert(ahead@ =~= self.snake@);
        advance(&self.board, &mut ahead, turn);
        first_vacant(&self.board, ahead.as_slice()).is_some()
    }

    /// Whether a frame with these keys can be made: it can unless the game
    /// is being played and the tick cannot be made.
    pub fn can_frame(&self, keys: &[Key]) -> (able: bool)
        requires
            self.wf(),
        ensures
            able == self@.can_frame(keys@),
    {
        if self.state != GameState::Playing {
            return true;
        }
        let input = map_input(keys, self.snake[0].direction);
        self.can_tick(input.turn)
    }

    /// One tick of the simulation. A meal puts the food on a free cell that
    /// the dice pick. Reports whether the head has bitten the body.
    pub fn tick(&mut self, turn: Option<Heading>, dice: &mut Dice) -> (hit: bool)
        requires
            old(self).wf(),
            old(self)@.can_tick(turn),
        ensures
            final(self).wf(),
            final(self)@ == old(self)@.ticked(turn, final(self)@.food.position),
            hit == bitten(old(self)@.slithered(turn).snake),
            old(self)@.snake.len() == 1 ==> !hit,
            old(self)@.slithered(turn).on_food() ==> {
                &&& final(self)@.score == old(self)@.score + 1
                &&& final(self)@.snake.len() == old(self)@.snake.len() + 1
                &&& !occupied(old(self)@.slithered(turn).snake, final(self)@.food.position)
            },
            !old(self)@.slithered(turn).on_food() ==> {
                &&& final(self)@.score == old(self)@.score
                &&& final(self)@.snake.len() == old(self)@.snake.len()
                &&& final(self)@.food == old(self)@.food
            },
    {
        let hit = self.slither(turn);
        if self.on_food() {
            match respawn(&self.board, self.snake.as_slice(), dice) {
                Some(site) => {
                    self.feed(site);
                },
                None => {
                    proof {
                        assert(false);
                    }
                },
            }
        }
        hit
    }

    /// Starts a new game: one segment that points right, the food, no
    /// score, both drawn from the whole board, the food first.
    pub fn restart(&mut self, dice: &mut Dice)
        requires
            old(self).wf(),
        ensures
            final(self).wf(),
            final(self)@ == SessionModel::fresh(
                old(self)@.board,
                final(self)@.snake[0].position,
                final(self)@.food.position,
            ).in_state(GameState::Playing),
            final(self)@.state == GameState::Playing,
            final(self)@.snake.len() == 1,
            final(self)@.score == 0,
    {
        let food = self.board.random_cell(dice);
        let head = self.board.random_cell(dice);
        self.score = 0;
        self.food = Entity { position: food, direction: Vector2 { x: 1, y: 0 }, glyph: FOOD_BLOCK };
        self.snake.clear();
        self.snake.push(
            Entity { position: head, direction: Vector2 { x: 1, y: 0 }, glyph: SNAKE_BLOCK },
        );
        self.state = GameState::Playing;
        assert(self@.snake =~= SessionModel::fresh(self.board, head, food).snake);
    }

    /// One frame: the keys are read, and the state decides what they do.
    /// While playing, the snake makes one tick and a bite ends the game;
    /// before a game, `Confirm` starts it; after one, `Confirm` starts a new
    /// one. `Quit` is reported in every state.
    pub fn frame(&mut self, keys: &[Key], dice: &mut Dice) -> (report: FrameReport)
        requires
            old(self).wf(),
            old(self)@.can_frame(keys@),
        ensures
            final(self).wf(),
            final(self)@ == old(self)@.framed(
                keys@,
                final(self)@.food.position,
                final(self)@.snake[0].position,
                final(self)@.food.position,
            ),
            report.quit == (mapped(keys@, old(self)@.snake[0].direction).control == Some(
                Control::Quit,
            )),
            report.prompt == final(self)@.prompt(old(self)@.state),
            old(self)@.state == GameState::Playing && old(self)@.slithered(
                mapped(keys@, old(self)@.snake[0].direction).turn,
            ).on_food() ==> !occupied(
                old(self)@.slithered(mapped(keys@, old(self)@.snake[0].direction).turn).snake,
                final(self)@.food.position,
            ),
    {
        let input = map_input(keys, self.snake[0].direction);
        let began = self.state;
        match began {
            GameState::Playing => {
                let hit = self.tick(input.turn, dice);
                if hit {
                    self.state = GameState::GameOver;
                }
            },
            GameState::AwaitingStart => {
                if input.control == Some(Control::Confirm) {
                    self.state = GameState::Playing;
                }
            },
            GameState::GameOver => {
                if input.control == Some(Control::Confirm) {
                    self.restart(dice);
                }
            },
        }
        let prompt = if began == GameState::Playing {
            if self.score == 0 {
                Prompt::Controls
            } else {
                Prompt::Score(self.score)
            }
        } else {
            Prompt::Start
        };
        FrameReport { quit: input.control == Some(Control::Quit), prompt }
    }

    /// What a frame shows: the segments, head first, and then the food.
    pub fn visible(&self) -> (shown: Vec<Entity>)
        ensures
            shown@ == self@.snake.push(self@.food),
    {
        let mut shown: Vec<Entity> = Vec::new();
        let mut index: usize = 0;
        while index < self.snake.len()
            invariant
                index <= self.snake@.len(),
                shown@ == self.snake@.take(index as int),
            decreases self.snake@.len() - index,
        {
            shown.push(self.snake[index]);
            assert(shown@ =~= self.snake@.take(index + 1));
            index += 1;
        }
        assert(self.snake@.take(index as int) =~= self.snake@);
        shown.push(self.food);
        shown
    }
}

} // verus!
