//! The dice: one number die and two special dice, rolled together, and the
//! single result that the three faces give.

use crate::random::RandomSource;
use vstd::arithmetic::div_mod::{lemma_add_mod_noop_right, lemma_fundamental_div_mod, lemma_mod_bound, lemma_small_mod};
use vstd::prelude::*;

verus! {

/// The face that a special die shows.
#[derive(Clone, Copy, Debug, PartialEq, Eq, Structural)]
pub enum EEDieState {
    Eel,
    Escalator,
}

impl EEDieState {
    /// The number of faces of a special die.
    pub const FACES: u32 = 2;

    /// The face with the given number: 0 is the eel, 1 the escalator.
    pub open spec fn of_index(value: u32) -> EEDieState {
        if value == 0 {
            EEDieState::Eel
        } else {
            EEDieState::Escalator
        }
    }

    /// The face with the given number. A special die has no face numbered 2
    /// or more.
    pub fn from(value: u32) -> (state: EEDieState)
        requires
            value < EEDieState::FACES,
        ensures
            state == EEDieState::of_index(value),
    {
        if value == 0 {
            EEDieState::Eel
        } else {
            EEDieState::Escalator
        }
    }
}

impl Default for EEDieState {
    fn default() -> (state: EEDieState)
        ensures
            state == EEDieState::Eel,
    {
        EEDieState::Eel
    }
}

/// A die with the two faces eel and escalator.
#[derive(Clone, Copy, Debug)]
pub struct EEDie {
    state: EEDieState,
}

impl EEDie {
    /// The face that the die shows.
    pub closed spec fn face(self) -> EEDieState {
        self.state
    }

    /// The face that a draw puts up: the eel on an even draw, the escalator
    /// on an odd one.
    pub open spec fn face_of_draw(draw: u32) -> EEDieState {
        EEDieState::of_index(draw % EEDieState::FACES)
    }

    /// A die that shows the eel.
    pub fn new() -> (die: EEDie)
        ensures
            die.face() == EEDieState::Eel,
    {
        EEDie { state: EEDieState::default() }
    }

    /// The face that the die shows.
    pub fn state(&self) -> (state: EEDieState)
        ensures
            state == self.face(),
    {
        self.state
    }

    /// Turns the die to the face that `draw` puts up.
    pub fn roll_with(&mut self, draw: u32)
        ensures
            final(self).face() == EEDie::face_of_draw(draw),
    {
        let index: u32 = draw % EEDieState::FACES;
        self.state = EEDieState::from(index);
    }

    /// Rolls the die with one draw from `rng`.
    pub fn roll<R: RandomSource>(&mut self, rng: &mut R)
        ensures
            exists|draw: u32| final(self).face() == EEDie::face_of_draw(draw),
    {
        let draw: u32 = rng.draw();
        self.roll_with(draw);
    }
}

/// A die whose faces are the `sides` numbers that follow each other from
/// `start`.
#[derive(Clone, Copy, Debug)]
pub struct NumberDie {
    start: u32,
    sides: u32,
    state: u32,
}

impl NumberDie {
    /// The smallest face of the die.
    pub closed spec fn lowest(self) -> int {
        self.start as int
    }

    /// The number of faces of the die.
    pub closed spec fn faces(self) -> int {
        self.sides as int
    }

    /// The face that the die shows.
    pub closed spec fn face(self) -> int {
        self.state as int
    }

    /// The largest face of the die.
    pub open spec fn highest(self) -> int {
        self.lowest() + self.faces() - 1
    }

    /// The die has a face, every face fits the machine's integers, and the
    /// die shows one of its faces.
    pub open spec fn wf(self) -> bool {
        &&& 1 <= self.faces()
        &&& self.highest() <= u32::MAX
        &&& self.lowest() <= self.face() <= self.highest()
    }

    /// The face that a draw puts up on a die with the faces `lowest` to
    /// `lowest + faces - 1`: each of them comes up for some draw, and the
    /// draws are shared out among them as evenly as a remainder does it.
    pub open spec fn face_of_draw(lowest: int, faces: int, draw: u32) -> int {
        lowest + draw as int % faces
    }

    /// A die with the faces 1 to 6, showing 1.
    pub fn new_sixed_sided() -> (die: NumberDie)
        ensures
            die.wf(),
            die.lowest() == 1,
            die.faces() == 6,
            die.face() == 1,
    {
        NumberDie { start: 1, sides: 6, state: 1 }
    }

    /// The face that the die shows.
    pub fn state(&self) -> (state: u32)
        ensures
            state == self.face(),
    {
        self.state
    }

    /// Turns the die to the face that `draw` puts up.
    pub fn roll_with(&mut self, draw: u32)
        requires
            old(self).wf(),
        ensures
            final(self).wf(),
            final(self).lowest() == old(self).lowest(),
            final(self).faces() == old(self).faces(),
            final(self).face() == NumberDie::face_of_draw(old(self).lowest(), old(self).faces(), draw),
    {
        let offset: u32 = draw % self.sides;
        self.state = self.start + offset;
    }

    /// Rolls the die with one draw from `rng`.
    pub fn roll<R: RandomSource>(&mut self, rng: &mut R)
        requires
            old(self).wf(),
        ensures
            final(self).wf(),
            final(self).lowest() == old(self).lowest(),
            final(self).faces() == old(self).faces(),
            exists|draw: u32|
                final(self).face() == NumberDie::face_of_draw(old(self).lowest(), old(self).faces(), draw),
    {
        let draw: u32 = rng.draw();
        self.roll_with(draw);
    }
}

/// The draws are shared out evenly among the faces of a number die: among
/// any draws that follow one another, as many as the die has faces, each
/// face comes up for exactly one.
pub proof fn lemma_each_face_once_in_a_run(lowest: int, faces: int, first: u32, face: int)
    requires
        1 <= faces,
        first + faces - 1 <= u32::MAX,
        lowest <= face < lowest + faces,
    ensures
        exists|draw: u32|
            first <= draw < first + faces && #[trigger] NumberDie::face_of_draw(lowest, faces, draw) == face,
        forall|a: u32, b: u32|
            first <= a < first + faces && first <= b < first + faces && #[trigger] NumberDie::face_of_draw(
                lowest,
                faces,
                a,
            ) == #[trigger] NumberDie::face_of_draw(lowest, faces, b) ==> a == b,
{
    let offset = face - lowest;
    let shift = (offset - first) % faces;
    lemma_mod_bound(offset - first, faces);
    let draw = (first + shift) as u32;
    lemma_add_mod_noop_right(first as int, offset - first, faces);
    lemma_small_mod(offset as nat, faces as nat);
    assert(NumberDie::face_of_draw(lowest, faces, draw) == face);
    assert forall|a: u32, b: u32|
        first <= a < first + faces && first <= b < first + faces && #[trigger] NumberDie::face_of_draw(
            lowest,
            faces,
            a,
        ) == #[trigger] NumberDie::face_of_draw(lowest, faces, b) implies a == b by {
        lemma_fundamental_div_mod(a as int, faces);
        lemma_fundamental_div_mod(b as int, faces);
        let qa = a as int / faces;
        let qb = b as int / faces;
        assert(qa == qb) by (nonlinear_arith)
            requires
                faces > 0,
                -faces < faces * qa - faces * qb < faces,
        ;
    }
}

/// What one roll of the three dice comes to.
#[derive(Clone, Copy, Debug, PartialEq, Eq, Structural)]
pub enum RollResult {
    Eels(u32),
    Escalator(u32),
    Number(u32),
}

impl RollResult {
    /// The face of the number die that the result carries.
    pub open spec fn number(self) -> int {
        match self {
            RollResult::Eels(n) => n as int,
            RollResult::Escalator(n) => n as int,
            RollResult::Number(n) => n as int,
        }
    }

    /// The face of the number die that the result carries.
    pub fn value(&self) -> (n: u32)
        ensures
            n == self.number(),
    {
        match self {
            RollResult::Eels(n) => *n,
            RollResult::Escalator(n) => *n,
            RollResult::Number(n) => *n,
        }
    }
}

/// What a set of dice is: the faces that the number die has, and the face
/// that each of the three dice shows.
pub struct DiceFaces {
    /// The smallest face of the number die.
    pub lowest: int,
    /// The number of faces of the number die.
    pub sides: int,
    /// The face that the number die shows.
    pub number: int,
    /// The face that the first special die shows.
    pub first: EEDieState,
    /// The face that the second special die shows.
    pub second: EEDieState,
}

/// The result that three faces come to: eels where both special dice show
/// the eel, an escalator where both show the escalator, and the bare number
/// otherwise; each carries the face of the number die.
pub open spec fn roll_of(faces: DiceFaces) -> RollResult {
    match (faces.first, faces.second) {
        (EEDieState::Eel, EEDieState::Eel) => RollResult::Eels(faces.number as u32),
        (EEDieState::Escalator, EEDieState::Escalator) => RollResult::Escalator(faces.number as u32),
        _ => RollResult::Number(faces.number as u32),
    }
}

/// The number die and the two special dice of one game.
#[derive(Clone, Copy, Debug)]
pub struct DiceSet {
    number_die: NumberDie,
    ee_die1: EEDie,
    ee_die2: EEDie,
}

impl View for DiceSet {
    type V = DiceFaces;

    closed spec fn view(&self) -> DiceFaces {
        DiceFaces {
            lowest: self.number_die.lowest(),
            sides: self.number_die.faces(),
            number: self.number_die.face(),
            first: self.ee_die1.face(),
            second: self.ee_die2.face(),
        }
    }
}

impl DiceSet {
    /// The smallest face of the number die.
    pub open spec fn lowest(self) -> int {
        self@.lowest
    }

    /// The number of faces of the number die.
    pub open spec fn faces(self) -> int {
        self@.sides
    }

    /// The largest face of the number die.
    pub open spec fn highest(self) -> int {
        self.lowest() + self.faces() - 1
    }

    /// The number die has a face, every face of it fits the machine's
    /// integers, and the die shows one of its faces.
    pub open spec fn wf(self) -> bool {
        &&& 1 <= self.faces()
        &&& self.highest() <= u32::MAX
        &&& self.lowest() <= self@.number <= self.highest()
    }

    /// The result that the dice show.
    pub open spec fn result(self) -> RollResult {
        roll_of(self@)
    }

    /// The faces that three draws put up on dice whose number die has the
    /// faces `lowest` to `lowest + faces - 1`.
    pub open spec fn faces_of_draws(lowest: int, faces: int, number: u32, first: u32, second: u32) -> DiceFaces {
        DiceFaces {
            lowest,
            sides: faces,
            number: NumberDie::face_of_draw(lowest, faces, number),
            first: EEDie::face_of_draw(first),
            second: EEDie::face_of_draw(second),
        }
    }

    /// A six-sided number die that shows 1, and two special dice that show
    /// the eel.
    pub fn new() -> (dice: DiceSet)
        ensures
            dice.wf(),
            dice.lowest() == 1,
            dice.faces() == 6,
            dice@ == (DiceFaces {
                lowest: 1,
                sides: 6,
                number: 1,
                first: EEDieState::Eel,
                second: EEDieState::Eel,
            }),
    {
        DiceSet { number_die: NumberDie::new_sixed_sided(), ee_die1: EEDie::new(), ee_die2: EEDie::new() }
    }

    /// Turns the three dice to the faces that the three draws put up.
    pub fn roll_all_with(&mut self, number: u32, first: u32, second: u32)
        requires
            old(self).wf(),
        ensures
            final(self).wf(),
            final(self).lowest() == old(self).lowest(),
            final(self).faces() == old(self).faces(),
            final(self)@ == DiceSet::faces_of_draws(
                old(self).lowest(),
                old(self).faces(),
                number,
                first,
                second,
            ),
    {
        self.number_die.roll_with(number);
        self.ee_die1.roll_with(first);
        self.ee_die2.roll_with(second);
    }

    /// Rolls the three dice, each with a draw of its own from `rng`: first
    /// the number die, then the two special dice.
    pub fn roll_all<R: RandomSource>(&mut self, rng: &mut R)
        requires
            old(self).wf(),
        ensures
            final(self).wf(),
            final(self).lowest() == old(self).lowest(),
            final(self).faces() == old(self).faces(),
            exists|number: u32, first: u32, second: u32|
                final(self)@ == DiceSet::faces_of_draws(
                    old(self).lowest(),
                    old(self).faces(),
                    number,
                    first,
                    second,
                ),
    {
        let number: u32 = rng.draw();
        let first: u32 = rng.draw();
        let second: u32 = rng.draw();
        self.roll_all_with(number, first, second);
    }

    /// The result that the dice show.
    pub fn get_result(&self) -> (result: RollResult)
        ensures
            result == self.result(),
            result is Eels <==> self@.first == EEDieState::Eel && self@.second == EEDieState::Eel,
            result is Escalator <==> self@.first == EEDieState::Escalator && self@.second
                == EEDieState::Escalator,
            result.number() == self@.number,
            self.wf() ==> self.lowest() <= result.number() <= self.highest(),
    {
        let number: u32 = self.number_die.state();
        match (self.ee_die1.state(), self.ee_die2.state()) {
            (EEDieState::Eel, EEDieState::Eel) => RollResult::Eels(number),
            (EEDieState::Escalator, EEDieState::Escalator) => RollResult::Escalator(number),
            _ => RollResult::Number(number),
        }
    }
}

} // verus!
