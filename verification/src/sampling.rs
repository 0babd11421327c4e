//! The random source, and the two kinds of sample the tracer draws from it.
use crate::scalar::{Scalar, ONE_RAW};
use crate::vec3::{dot_exact, Vec3, V3};
use rand::rngs::StdRng;
use rand::{RngCore, SeedableRng};
use vstd::prelude::*;

verus! {

#[verifier::external_type_specification]
#[verifier::external_body]
pub struct ExStdRng(StdRng);

/// How many candidate points are tried before the centre of the ball is
/// returned instead.
pub const MAX_TRIES: u32 = 64;

/// Whether a raw value is a draw from `[0, 1)`.
pub open spec fn is_unit_draw(x: int) -> bool {
    0 <= x < ONE_RAW
}

/// Whether a point lies strictly inside the unit ball: its squared
/// length is less than the square of one.
pub open spec fn in_unit_ball(v: V3) -> bool {
    dot_exact(v, v) < 0x1_0000_0000
}

/// The centre of the unit ball lies inside it.
pub proof fn lemma_centre_in_unit_ball()
    ensures
        in_unit_ball(V3 { x: 0, y: 0, z: 0 }),
{
    let centre = V3 { x: 0, y: 0, z: 0 };
    assert(centre.x * centre.x + centre.y * centre.y + centre.z * centre.z == 0)
        by (nonlinear_arith)
        requires
            centre.x == 0,
            centre.y == 0,
            centre.z == 0,
    ;
}

/// The draw from `[0, 1)` that a random word stands for: its upper sixteen bits.
pub open spec fn unit_draw_spec(word: u32) -> int {
    word as int / 65536
}

/// The coordinate in `[-1, 1)` that a random word stands for: its upper
/// seventeen bits, shifted down by one.
pub open spec fn coordinate_spec(word: u32) -> int {
    word as int / 32768 - 65536
}

pub open spec fn candidate_spec(wx: u32, wy: u32, wz: u32) -> V3 {
    V3 { x: coordinate_spec(wx), y: coordinate_spec(wy), z: coordinate_spec(wz) }
}

/// `rand`'s `StdRng::seed_from_u64`: a generator whose stream is fixed by
/// the seed. Nothing is claimed of the generator it returns.
#[verifier::external_body]
fn seeded_generator(seed: u64) -> StdRng {
    StdRng::seed_from_u64(seed)
}

/// `rand`'s `RngCore::next_u32` on `StdRng`: the next 32 bits of the stream.
/// Nothing is claimed of the word or of the generator's new state.
#[verifier::external_body]
fn next_word(rng: &mut StdRng) -> u32 {
    rng.next_u32()
}

pub fn unit_from_word(word: u32) -> (s: Scalar)
    ensures
        s@ == unit_draw_spec(word),
        is_unit_draw(s@),
{
    let raw: u32 = word / 65536;
    Scalar::from_raw(raw as i64)
}

pub fn coordinate_from_word(word: u32) -> (s: Scalar)
    ensures
        s@ == coordinate_spec(word),
        -ONE_RAW <= s@ < ONE_RAW,
{
    let raw: u32 = word / 32768;
    Scalar::from_raw(raw as i64 - 65536)
}

/// The point of the cube `[-1, 1)^3` that three random words stand for.
pub fn ball_candidate(wx: u32, wy: u32, wz: u32) -> (p: Vec3)
    ensures
        p@ == candidate_spec(wx, wy, wz),
{
    Vec3(coordinate_from_word(wx), coordinate_from_word(wy), coordinate_from_word(wz))
}

/// Whether a point lies strictly inside the unit ball.
pub fn inside_unit_ball(p: &Vec3) -> (inside: bool)
    ensures
        inside == in_unit_ball(p@),
{
    p.dot_wide(p) < 0x1_0000_0000
}

/// The mathematical value of a random source: the seed that fixes its
/// stream, and how many words of that stream have been drawn.
pub struct SourceV {
    pub seed: u64,
    pub drawn: nat,
}

/// Whether a source has gone from `before` to `after` by drawing at least
/// `least` and at most `most` words of its stream.
pub open spec fn advanced(before: SourceV, after: SourceV, least: nat, most: nat) -> bool {
    after.seed == before.seed && before.drawn + least <= after.drawn <= before.drawn + most
}

/// The most words that one point of the unit ball can take: three for
/// each candidate.
pub open spec fn most_ball_words() -> nat {
    192
}

/// A stream of random words.
pub struct RandomSource {
    rng: StdRng,
    seed: Ghost<u64>,
    drawn: Ghost<nat>,
}

impl View for RandomSource {
    type V = SourceV;

    closed spec fn view(&self) -> SourceV {
        SourceV { seed: self.seed@, drawn: self.drawn@ }
    }
}

impl RandomSource {
    /// A source whose stream is fixed by `seed`, with nothing drawn yet.
    pub fn seeded(seed: u64) -> (source: RandomSource)
        ensures
            source@ == (SourceV { seed, drawn: 0 }),
    {
        RandomSource { rng: seeded_generator(seed), seed: Ghost(seed), drawn: Ghost(0) }
    }

    /// The next word of the stream.
    fn draw_word(&mut self) -> (word: u32)
        ensures
            advanced(old(self)@, final(self)@, 1, 1),
    {
        let word: u32 = next_word(&mut self.rng);
        self.drawn = Ghost(self.drawn@ + 1);
        word
    }

    /// A draw from `[0, 1)`, made of one word of the stream.
    pub fn next_unit(&mut self) -> (s: Scalar)
        ensures
            is_unit_draw(s@),
            advanced(old(self)@, final(self)@, 1, 1),
    {
        let word: u32 = self.draw_word();
        unit_from_word(word)
    }

    /// A point strictly inside the unit ball, found by rejection: points of
    /// the enclosing cube are drawn, three words each, until one falls
    /// inside. After `MAX_TRIES` rejections the centre of the ball is
    /// returned.
    pub fn random_in_unit_sphere(&mut self) -> (p: Vec3)
        ensures
            in_unit_ball(p@),
            advanced(old(self)@, final(self)@, 3, most_ball_words()),
    {
        let ghost before = self@;
        let mut tries: u32 = 0;
        while tries < MAX_TRIES
            invariant
                tries <= MAX_TRIES,
                before == old(self)@,
                self@.seed == before.seed,
                self@.drawn == before.drawn + 3 * tries,
            decreases MAX_TRIES - tries,
        {
            let wx: u32 = self.draw_word();
            let wy: u32 = self.draw_word();
            let wz: u32 = self.draw_word();
            let p = ball_candidate(wx, wy, wz);
            if inside_unit_ball(&p) {
                return p;
            }
            tries = tries + 1;
        }
        Vec3::zero()
    }
}

} // verus!
