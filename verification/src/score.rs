//! The score, and the text the score board shows.
use vstd::prelude::*;
use vstd::string::*;
use crate::Player;
use crate::wall::Wall;
use crate::window::Reset;

verus! {

/// How often each side's goal was entered since the game started.
#[derive(Clone, Copy, Debug, PartialEq, Eq, Structural)]
pub struct Score {
    pub left: usize,
    pub right: usize,
}

/// Marks the entity that displays the score.
#[derive(Clone, Copy, Debug, PartialEq, Eq, Structural)]
pub struct ScoreBoard;

impl ScoreBoard {
    /// Distance between the top of the surface and the score board: twice the
    /// thickness of a wall, so that the text stands clear of the top wall.
    pub const TOP_MARGIN: i64 = 2 * Wall::THICKNESS;
}

/// One run of text with a single style.
#[derive(Debug)]
pub struct TextSection {
    pub value: String,
}

/// The text of a display entity, section by section.
#[derive(Debug)]
pub struct Text {
    pub sections: Vec<TextSection>,
}

/// How many of the goal events belong to `player`'s goal.
pub open spec fn tally(events: Seq<Player>, player: Player) -> nat
    decreases events.len(),
{
    if events.len() == 0 {
        0
    } else {
        tally(events.drop_last(), player) + if events.last() == player {
            1nat
        } else {
            0nat
        }
    }
}

/// The character for a single decimal digit.
pub open spec fn digit_char(d: nat) -> char {
    if d == 0 {
        '0'
    } else if d == 1 {
        '1'
    } else if d == 2 {
        '2'
    } else if d == 3 {
        '3'
    } else if d == 4 {
        '4'
    } else if d == 5 {
        '5'
    } else if d == 6 {
        '6'
    } else if d == 7 {
        '7'
    } else if d == 8 {
        '8'
    } else {
        '9'
    }
}

/// The decimal digits of `n`, most significant first, without leading zeros.
pub open spec fn decimal(n: nat) -> Seq<char>
    decreases n,
{
    if n < 10 {
        seq![digit_char(n)]
    } else {
        decimal(n / 10).push(digit_char(n % 10))
    }
}

/// The score as shown: the left count, a colon between two spaces, the right
/// count.
pub open spec fn score_text(score: Score) -> Seq<char> {
    decimal(score.left as nat) + seq![' ', ':', ' '] + decimal(score.right as nat)
}

fn digit_str(d: usize) -> (s: &'static str)
    requires
        d < 10,
    ensures
        s@ == seq![digit_char(d as nat)],
{
    proof {
        reveal_strlit("0");
        reveal_strlit("1");
        reveal_strlit("2");
        reveal_strlit("3");
        reveal_strlit("4");
        reveal_strlit("5");
        reveal_strlit("6");
        reveal_strlit("7");
        reveal_strlit("8");
        reveal_strlit("9");
    }
    let s: &'static str = if d == 0 {
        "0"
    } else if d == 1 {
        "1"
    } else if d == 2 {
        "2"
    } else if d == 3 {
        "3"
    } else if d == 4 {
        "4"
    } else if d == 5 {
        "5"
    } else if d == 6 {
        "6"
    } else if d == 7 {
        "7"
    } else if d == 8 {
        "8"
    } else {
        "9"
    };
    assert(s@ =~= seq![digit_char(d as nat)]);
    s
}

fn append_decimal(text: &mut String, n: usize)
    ensures
        final(text)@ == old(text)@ + decimal(n as nat),
    decreases n,
{
    if n >= 10 {
        append_decimal(text, n / 10);
    }
    text.append(digit_str(n % 10));
    assert(text@ =~= old(text)@ + decimal(n as nat));
}

impl Score {
    /// The score after the ball entered `player`'s goal once: that side's own
    /// count is one higher, the other side's count is as before.
    pub open spec fn scored(self, player: Player) -> Score {
        match player {
            Player::Left => Score { left: (self.left + 1) as usize, right: self.right },
            Player::Right => Score { left: self.left, right: (self.right + 1) as usize },
        }
    }

    /// Whether `player`'s count can grow by one without leaving the range of
    /// the counter.
    pub open spec fn can_score(self, player: Player) -> bool {
        match player {
            Player::Left => self.left < usize::MAX,
            Player::Right => self.right < usize::MAX,
        }
    }

    /// Whether both counts can grow by the given goal events without leaving
    /// the range of the counters.
    pub open spec fn has_room_for(self, events: Seq<Player>) -> bool {
        &&& self.left + tally(events, Player::Left) <= usize::MAX
        &&& self.right + tally(events, Player::Right) <= usize::MAX
    }

    /// The score after the given goal events, in order.
    pub open spec fn after(self, events: Seq<Player>) -> Score {
        Score {
            left: (self.left + tally(events, Player::Left)) as usize,
            right: (self.right + tally(events, Player::Right)) as usize,
        }
    }

    /// Tells whether both counts can grow by the given goal events without
    /// leaving the range of the counters.
    pub fn has_room(&self, events: &Vec<Player>) -> (room: bool)
        ensures
            room == self.has_room_for(events@),
    {
        let mut left: usize = 0;
        let mut right: usize = 0;
        let mut i: usize = 0;
        while i < events.len()
            invariant
                i <= events@.len(),
                left == tally(events@.take(i as int), Player::Left),
                right == tally(events@.take(i as int), Player::Right),
                left + right == i,
            decreases events@.len() - i,
        {
            proof {
                let upto = events@.take(i as int + 1);
                assert(upto.drop_last() == events@.take(i as int));
                assert(upto.last() == events@[i as int]);
            }
            match events[i] {
                Player::Left => {
                    left += 1;
                },
                Player::Right => {
                    right += 1;
                },
            }
            i += 1;
        }
        proof {
            assert(events@.take(events@.len() as int) == events@);
        }
        left <= usize::MAX - self.left && right <= usize::MAX - self.right
    }

    /// Counts one entry of the ball into `player`'s goal.
    pub fn goal(&mut self, player: Player)
        requires
            old(self).can_score(player),
        ensures
            *final(self) == old(self).scored(player),
    {
        match player {
            Player::Left => {
                self.left += 1;
            },
            Player::Right => {
                self.right += 1;
            },
        }
    }

    /// The text the score board shows for this score.
    pub fn to_text(&self) -> (text: String)
        ensures
            text@ == score_text(*self),
    {
        let mut text: String = String::new();
        append_decimal(&mut text, self.left);
        proof {
            reveal_strlit(" : ");
        }
        text.append(" : ");
        append_decimal(&mut text, self.right);
        assert(text@ =~= score_text(*self));
        text
    }
}

impl Default for Score {
    fn default() -> (score: Score)
        ensures
            score == (Score { left: 0, right: 0 }),
    {
        Score { left: 0, right: 0 }
    }
}

/// Counting goal events one at a time comes to the same as counting them
/// all at once: a score that has room for some events and one more has room
/// for that one after the others, and then stands where all of them lead.
pub proof fn lemma_after_one_more(score: Score, events: Seq<Player>, event: Player)
    requires
        score.has_room_for(events.push(event)),
    ensures
        score.has_room_for(events),
        score.after(events).can_score(event),
        score.after(events).scored(event) == score.after(events.push(event)),
{
    let all = events.push(event);
    assert(all.drop_last() == events);
    assert(all.last() == event);
}

/// Goals of one side, counted over two runs of events one after the other,
/// add up.
pub proof fn lemma_tally_concat(first: Seq<Player>, second: Seq<Player>, player: Player)
    ensures
        tally(first + second, player) == tally(first, player) + tally(second, player),
    decreases second.len(),
{
    if second.len() == 0 {
        assert(first + second =~= first);
    } else {
        assert((first + second).drop_last() =~= first + second.drop_last());
        assert((first + second).last() == second.last());
        lemma_tally_concat(first, second.drop_last(), player);
    }
}

/// Every goal event is counted exactly once: after any sequence of events
/// the two counts have grown by the number of events between them.
pub proof fn lemma_every_goal_counts_once(events: Seq<Player>)
    ensures
        tally(events, Player::Left) + tally(events, Player::Right) == events.len(),
    decreases events.len(),
{
    if events.len() > 0 {
        lemma_every_goal_counts_once(events.drop_last());
    }
}

/// Neither count ever decreases: after more of the events each side has at
/// least what it had after fewer of them.
pub proof fn lemma_score_never_decreases(
    score: Score,
    events: Seq<Player>,
    earlier: int,
    later: int,
)
    requires
        0 <= earlier <= later <= events.len(),
        score.has_room_for(events),
    ensures
        score.has_room_for(events.take(earlier)),
        score.has_room_for(events.take(later)),
        score.left <= score.after(events.take(earlier)).left <= score.after(
            events.take(later),
        ).left <= score.after(events).left,
        score.right <= score.after(events.take(earlier)).right <= score.after(
            events.take(later),
        ).right <= score.after(events).right,
        score.after(events).left + score.after(events).right == score.left + score.right
            + events.len(),
{
    let head = events.take(earlier);
    let middle = events.subrange(earlier, later);
    let tail = events.skip(later);
    assert(events.take(later) =~= head + middle);
    assert(events =~= events.take(later) + tail);
    lemma_tally_concat(head, middle, Player::Left);
    lemma_tally_concat(head, middle, Player::Right);
    lemma_tally_concat(events.take(later), tail, Player::Left);
    lemma_tally_concat(events.take(later), tail, Player::Right);
    lemma_every_goal_counts_once(events);
}

/// Shows the current score on every score board, if a reset was raised this
/// frame. Only the first text section of a board is written; a board without
/// sections stays empty.
pub fn scoreboard_update_system(
    resets: &Vec<Reset>,
    score: &Score,
    boards: &mut Vec<(Text, ScoreBoard)>,
)
    ensures
        final(boards)@.len() == old(boards)@.len(),
        resets@.len() == 0 ==> final(boards)@ == old(boards)@,
        resets@.len() > 0 ==> forall|i: int|
            #![trigger final(boards)@[i]]
            0 <= i < old(boards)@.len() ==> shows_score(
                old(boards)@[i].0,
                final(boards)@[i].0,
                *score,
            ),
{
    if resets.len() == 0 {
        return ;
    }
    let ghost before_all = boards@;
    let mut i: usize = 0;
    while i < boards.len()
        invariant
            i <= boards@.len(),
            boards@.len() == before_all.len(),
            forall|k: int| #![trigger boards@[k]] i <= k < boards@.len() ==> boards@[k] == before_all[k],
            forall|k: int|
                #![trigger boards@[k]]
                0 <= k < i ==> shows_score(before_all[k].0, boards@[k].0, *score),
        decreases boards@.len() - i,
    {
        if boards[i].0.sections.len() > 0 {
            let section = TextSection { value: score.to_text() };
            boards[i].0.sections.set(0, section);
        }
        i += 1;
    }
}

/// Relates a board's text before and after it was brought up to date: the
/// first section reads the score, the others are as they were.
pub open spec fn shows_score(before: Text, after: Text, score: Score) -> bool {
    &&& after.sections@.len() == before.sections@.len()
    &&& after.sections@.len() > 0 ==> after.sections@[0].value@ == score_text(score)
    &&& forall|s: int|
        #![trigger after.sections@[s]]
        1 <= s < after.sections@.len() ==> after.sections@[s] == before.sections@[s]
}

/// The text and tag of a new score board, reading the score of a game that
/// has just begun.
pub fn spawn_score_board() -> (board: (Text, ScoreBoard))
    ensures
        board.0.sections@.len() == 1,
        board.0.sections@[0].value@ == score_text(Score { left: 0, right: 0 }),
{
    let score = Score::default();
    let mut sections: Vec<TextSection> = Vec::new();
    sections.push(TextSection { value: score.to_text() });
    (Text { sections }, ScoreBoard)
}

} // verus!
