use vstd::prelude::*;

use crate::game_object::{GameObject, GameObjectId};
use crate::geometry::{Rotation, Vector2Int};
use crate::movement::MoveDirection;
use crate::render::{Render, RenderItem, RenderSpace, Texture, TextureCharacter, TextureColor, ZIndex};
use crate::text_format::{decimal_digits, lemma_decimal_digits_len, lemma_u32_digits_len, pow10, push_char, push_decimal, push_str};

verus! {

/// Points earned in a game.
#[derive(Debug, Clone, Copy, PartialEq, Eq, PartialOrd, Ord, Structural)]
pub struct Score(pub u32);

/// `a + b` capped at `u32::MAX`.
pub open spec fn saturating_u32_sum(a: u32, b: u32) -> u32 {
    if a + b > u32::MAX {
        u32::MAX
    } else {
        (a + b) as u32
    }
}

/// The capped sum of the first `upto` scores.
pub open spec fn spec_total(scores: Seq<Score>, upto: int) -> u32
    decreases upto,
{
    if upto <= 0 {
        0
    } else {
        saturating_u32_sum(spec_total(scores, upto - 1), scores[upto - 1].0)
    }
}

/// The highest of the first `upto` scores, or zero.
pub open spec fn spec_high(scores: Seq<Score>, upto: int) -> u32
    decreases upto,
{
    if upto <= 0 {
        0
    } else {
        let before = spec_high(scores, upto - 1);
        if scores[upto - 1].0 > before { scores[upto - 1].0 } else { before }
    }
}

/// The high score is the best of the saved scores: no saved score exceeds it, and it is
/// one of them when any is saved, zero when none is.
pub proof fn lemma_high_is_the_best_score(scores: Seq<Score>, upto: int)
    requires
        0 <= upto <= scores.len(),
    ensures
        forall|i: int| 0 <= i < upto ==> #[trigger] scores[i].0 <= spec_high(scores, upto),
        upto == 0 ==> spec_high(scores, upto) == 0,
        upto > 0 ==> exists|i: int| 0 <= i < upto && #[trigger] scores[i].0 == spec_high(scores, upto),
    decreases upto,
{
    if upto > 0 {
        lemma_high_is_the_best_score(scores, upto - 1);
        if upto > 1 && scores[upto - 1].0 <= spec_high(scores, upto - 1) {
            let i = choose|i: int| 0 <= i < upto - 1 && #[trigger] scores[i].0 == spec_high(scores, upto - 1);
            assert(scores[i].0 == spec_high(scores, upto));
        } else {
            assert(scores[upto - 1].0 == spec_high(scores, upto));
        }
    }
}

/// The text of a score: the value below a thousand, else whole thousands, a point, the
/// hundreds digit and `k`.
pub open spec fn spec_score_text(value: u32) -> Seq<char> {
    if value < 1000 {
        decimal_digits(value as nat)
    } else {
        decimal_digits((value / 1000) as nat) + seq!['.'] + decimal_digits((value % 1000 / 100) as nat) + seq!['k']
    }
}

impl Score {
    pub const UNIT_POINTS: u32 = 100;

    pub fn empty() -> (r: Self)
        ensures
            r.0 == 0,
    {
        Score(0)
    }

    pub fn new(value: u32) -> (r: Self)
        ensures
            r.0 == value,
    {
        Self(value)
    }

    /// adds a unit of score: `Score::UNIT_POINTS`
    pub fn add_unit(&mut self)
        requires
            old(self).0 + Self::UNIT_POINTS <= u32::MAX,
        ensures
            final(self).0 == old(self).0 + Self::UNIT_POINTS,
    {
        self.0 = self.0 + Self::UNIT_POINTS;
    }

    pub fn reset(&mut self)
        ensures
            final(self).0 == 0,
    {
        self.0 = 0;
    }

    /// Adds `rhs`, capped at `u32::MAX`.
    pub fn add_assign(&mut self, rhs: Self)
        ensures
            final(self).0 == saturating_u32_sum(old(self).0, rhs.0),
    {
        self.0 = self.0.saturating_add(rhs.0);
    }

    /// The capped sum of `scores`.
    pub fn sum(scores: &[Score]) -> (r: Self)
        ensures
            r.0 == spec_total(scores@, scores@.len() as int),
    {
        let mut sum = Self::empty();
        let mut i: usize = 0;
        while i < scores.len()
            invariant
                i <= scores@.len(),
                sum.0 == spec_total(scores@, i as int),
            decreases scores@.len() - i,
        {
            sum.add_assign(scores[i]);
            i = i + 1;
        }
        sum
    }

    /// The score as text, as `format_score` writes it.
    pub fn to_string(&self) -> (r: String)
        ensures
            r@ == spec_score_text(self.0),
    {
        let mut text = String::new();
        format_score(*self, &mut text);
        proof {
            assert(text@ =~= spec_score_text(self.0));
        }
        text
    }
}

impl Default for Score {
    fn default() -> (r: Self)
        ensures
            r.0 == 0,
    {
        Self::empty()
    }
}

impl core::ops::Add for Score {
    type Output = Self;

    fn add(self, rhs: Self) -> (r: Self) {
        Score(self.0.saturating_add(rhs.0))
    }
}

impl vstd::std_specs::ops::AddSpecImpl for Score {
    open spec fn obeys_add_spec() -> bool {
        true
    }

    open spec fn add_req(self, rhs: Self) -> bool {
        true
    }

    open spec fn add_spec(self, rhs: Self) -> Self {
        Score(saturating_u32_sum(self.0, rhs.0))
    }
}

/// Appends the text of a score to `output`.
pub fn format_score(score: Score, output: &mut String)
    ensures
        final(output)@ == old(output)@ + spec_score_text(score.0),
{
    let value = score.0;
    if value < 1000 {
        push_decimal(output, value as u64);
    } else {
        let thousands = value / 1000;
        let hundreds = value % 1000 / 100;
        push_decimal(output, thousands as u64);
        push_char(output, '.');
        push_decimal(output, hundreds as u64);
        push_char(output, 'k');
        proof {
            assert(final(output)@ =~= old(output)@ + spec_score_text(score.0));
        }
    }
}

/// The line a scorebar shows for its score, high score and saved total.
pub open spec fn spec_scorebar_text(score: u32, high: u32, total: u32) -> Seq<char> {
    "Score: "@ + spec_score_text(score) + " | High: "@ + spec_score_text(high) + " | Total: "@ + spec_score_text(total)
}

/// The score of the current game and the scores of completed games.
#[derive(Debug, Clone)]
pub struct Scorebar {
    id: GameObjectId,
    pub score: Score,
    /// saved scores of completed games
    saved_scores: Vec<Score>,
    position: Vector2Int,
}

impl Scorebar {
    pub const SCORES_CAPACITY: usize = 100;

    pub closed spec fn spec_saved_scores(&self) -> Seq<Score> {
        self.saved_scores@
    }

    pub closed spec fn spec_score(&self) -> Score {
        self.score
    }

    pub closed spec fn spec_position(&self) -> Vector2Int {
        self.position
    }

    pub closed spec fn spec_id(&self) -> GameObjectId {
        self.id
    }

    pub fn new(position: Vector2Int) -> (r: Self)
        ensures
            r.spec_score().0 == 0,
            r.spec_saved_scores() == Seq::<Score>::empty(),
            r.spec_position() == position,
    {
        Self { id: GameObjectId::new(), score: Score::empty(), saved_scores: Vec::with_capacity(Self::SCORES_CAPACITY), position }
    }

    /// The best saved score, or zero when none is saved.
    pub fn compute_high_score(&self) -> (r: Score)
        ensures
            r.0 == spec_high(self.spec_saved_scores(), self.spec_saved_scores().len() as int),
    {
        let mut high: u32 = 0;
        let mut i: usize = 0;
        while i < self.saved_scores.len()
            invariant
                i <= self.saved_scores@.len(),
                high == spec_high(self.saved_scores@, i as int),
            decreases self.saved_scores@.len() - i,
        {
            if self.saved_scores[i].0 > high {
                high = self.saved_scores[i].0;
            }
            i = i + 1;
        }
        Score(high)
    }

    /// The capped sum of the saved scores.
    pub fn compute_saved_score_total(&self) -> (r: Score)
        ensures
            r.0 == spec_total(self.spec_saved_scores(), self.spec_saved_scores().len() as int),
    {
        Score::sum(self.saved_scores.as_slice())
    }

    pub fn reset(&mut self)
        ensures
            final(self).spec_score().0 == 0,
            final(self).spec_saved_scores() == old(self).spec_saved_scores(),
            final(self).spec_position() == old(self).spec_position(),
            final(self).spec_id() == old(self).spec_id(),
    {
        self.score.reset();
    }

    /// resets score and adds to total
    pub fn save_and_reset(&mut self)
        ensures
            final(self).spec_score().0 == 0,
            final(self).spec_saved_scores() == old(self).spec_saved_scores().push(old(self).spec_score()),
            final(self).spec_position() == old(self).spec_position(),
            final(self).spec_id() == old(self).spec_id(),
    {
        self.save_score();
        self.score.reset();
    }

    fn save_score(&mut self)
        ensures
            final(self).spec_score() == old(self).spec_score(),
            final(self).spec_saved_scores() == old(self).spec_saved_scores().push(old(self).spec_score()),
            final(self).spec_position() == old(self).spec_position(),
            final(self).spec_id() == old(self).spec_id(),
    {
        self.saved_scores.push(self.score);
    }

    /// The text the scorebar shows.
    pub fn content(&self) -> (r: String)
        ensures
            r@ == spec_scorebar_text(
                self.spec_score().0,
                spec_high(self.spec_saved_scores(), self.spec_saved_scores().len() as int),
                spec_total(self.spec_saved_scores(), self.spec_saved_scores().len() as int),
            ),
    {
        let high_score = self.compute_high_score();
        let saved_score_total = self.compute_saved_score_total();
        let mut content = String::new();
        push_str(&mut content, "Score: ");
        format_score(self.score, &mut content);
        push_str(&mut content, " | High: ");
        format_score(high_score, &mut content);
        push_str(&mut content, " | Total: ");
        format_score(saved_score_total, &mut content);
        proof {
            assert(content@ =~= spec_scorebar_text(self.score.0, high_score.0, saved_score_total.0));
        }
        content
    }
}

/// A score text is at most 12 characters long.
proof fn lemma_score_text_len(value: u32)
    ensures
        spec_score_text(value).len() <= 12,
{
    if value < 1000 {
        lemma_u32_digits_len(value);
    } else {
        assert(pow10(7) == 10000000) by {
            reveal_with_fuel(pow10, 8);
        }
        lemma_decimal_digits_len((value / 1000) as nat, 7);
        assert(decimal_digits((value % 1000 / 100) as nat).len() == 1);
    }
}

impl GameObject for Scorebar {
    fn id(&self) -> (r: GameObjectId)
        ensures
            r == self.spec_id(),
    {
        self.id
    }

    fn position(&self) -> (r: Vector2Int)
        ensures
            r == self.spec_position(),
    {
        self.position
    }

    fn rotation(&self) -> (r: Rotation)
        ensures
            r.degrees() == 0,
    {
        Rotation::right()
    }
}

/// A white glyph of `c`.
pub open spec fn white_glyph(c: char) -> Texture {
    Texture { character: TextureCharacter::Fixed(c), color: TextureColor::White }
}

/// One white screen glyph per character of `text`, right-aligned so that the text ends
/// just left of the object's column.
pub open spec fn scorebar_items(text: Seq<char>) -> Seq<RenderItem> {
    Seq::new(
        text.len(),
        |i: int| RenderItem {
            position_local: Vector2Int { x: (i - text.len()) as i32, y: 0 },
            texture: white_glyph(text[i]),
            rotation: Rotation::spec_from_direction(MoveDirection::Right),
            z_index: ZIndex(1i32),
            fills_cell: false,
            space: RenderSpace::Screen,
        },
    )
}

impl Render for Scorebar {
    /// One white screen glyph per character of the scorebar text, right-aligned so that
    /// the text ends just left of the object's column.
    open spec fn spec_render_items(&self) -> Seq<RenderItem> {
        scorebar_items(
            spec_scorebar_text(
                self.spec_score().0,
                spec_high(self.spec_saved_scores(), self.spec_saved_scores().len() as int),
                spec_total(self.spec_saved_scores(), self.spec_saved_scores().len() as int),
            ),
        )
    }

    fn render_items(&self) -> (r: Vec<RenderItem>) {
        let content = self.content();
        proof {
            lemma_score_text_len(self.score.0);
            lemma_score_text_len(spec_high(self.saved_scores@, self.saved_scores@.len() as int));
            lemma_score_text_len(spec_total(self.saved_scores@, self.saved_scores@.len() as int));
            reveal_strlit("Score: ");
            reveal_strlit(" | High: ");
            reveal_strlit(" | Total: ");
        }
        let length = content.as_str().unicode_len();
        let mut items: Vec<RenderItem> = Vec::new();
        let mut i: usize = 0;
        while i < length
            invariant
                i <= length,
                length == content@.len(),
                length <= 100,
                content@ == spec_scorebar_text(
                    self.score.0,
                    spec_high(self.saved_scores@, self.saved_scores@.len() as int),
                    spec_total(self.saved_scores@, self.saved_scores@.len() as int),
                ),
                items@ == scorebar_items(content@).take(i as int),
            decreases length - i,
        {
            let character = content.as_str().get_char(i);
            let column = (i as i32) - (length as i32);
            items.push(RenderItem::screen_glyph(Vector2Int::new(column, 0), Texture::new(character, TextureColor::White), ZIndex::new(1)));
            proof {
                assert(items@ =~= scorebar_items(content@).take(i + 1));
            }
            i = i + 1;
        }
        proof {
            assert(items@ =~= scorebar_items(content@));
        }
        items
    }
}

} // verus!
