//! A deck of punch cards: the cards in their order and the place of the
//! card in hand. What a card is stays open; a card is stored in a frame
//! of 108 bytes.

use vstd::prelude::*;

verus! {

/// Number of bytes of one stored card.
pub const CARD_SIZE: usize = 108;

/// A deck of cards of the kind `C`, one of which is in hand.
#[derive(Debug, Clone, PartialEq)]
pub struct Deck<C> {
    /// The cards, in order.
    pub cards: Vec<C>,
    /// The place of the card in hand, counted from 0.
    pub current_card: usize,
}

impl<C> Deck<C> {
    /// What holds of a deck in use: it has a card, and the card in hand is
    /// one of its cards.
    pub open spec fn wf(&self) -> bool {
        self.current_card < self.cards@.len()
    }

    /// A deck of one card, which is in hand.
    pub fn new(card: C) -> (r: Self)
        ensures
            r.wf(),
            r.cards@ == seq![card],
            r.current_card == 0,
    {
        let mut cards: Vec<C> = Vec::new();
        cards.push(card);
        Deck { cards, current_card: 0 }
    }

    /// A deck of the given cards with the first in hand; where there is no
    /// card, a deck of the one card `blank`.
    pub fn from_cards(cards: Vec<C>, blank: C) -> (r: Self)
        ensures
            r.wf(),
            r.current_card == 0,
            r.cards@ == if cards@.len() == 0 {
                seq![blank]
            } else {
                cards@
            },
    {
        if cards.len() == 0 {
            Self::new(blank)
        } else {
            Deck { cards, current_card: 0 }
        }
    }

    /// The card in hand.
    pub fn current(&self) -> (r: &C)
        requires
            self.wf(),
        ensures
            *r == self.cards@[self.current_card as int],
    {
        &self.cards[self.current_card]
    }

    /// The card in hand, to be changed in its place.
    pub fn current_mut(&mut self) -> (r: &mut C)
        requires
            old(self).wf(),
        ensures
            *r == old(self).cards@[old(self).current_card as int],
            final(self).cards@ == old(self).cards@.update(
                old(self).current_card as int,
                *final(r),
            ),
            final(self).current_card == old(self).current_card,
    {
        let at = self.current_card;
        &mut self.cards[at]
    }

    /// Puts `card` behind the last card and takes it in hand.
    pub fn add_card(&mut self, card: C)
        ensures
            final(self).cards@ == old(self).cards@.push(card),
            final(self).current_card == old(self).cards@.len(),
            final(self).wf(),
    {
        self.cards.push(card);
        self.current_card = self.cards.len() - 1;
    }

    /// Takes the next card in hand, if there is one.
    pub fn next_card(&mut self)
        requires
            old(self).cards@.len() > 0,
        ensures
            final(self).cards@ == old(self).cards@,
            final(self).current_card == if old(self).current_card < old(self).cards@.len() - 1 {
                old(self).current_card + 1
            } else {
                old(self).current_card as int
            },
            old(self).wf() ==> final(self).wf(),
    {
        if self.current_card < self.cards.len() - 1 {
            self.current_card += 1;
        }
    }

    /// Takes the card before in hand, if there is one.
    pub fn prev_card(&mut self)
        ensures
            final(self).cards@ == old(self).cards@,
            final(self).current_card == if old(self).current_card > 0 {
                old(self).current_card - 1
            } else {
                0
            },
            old(self).wf() ==> final(self).wf(),
    {
        if self.current_card > 0 {
            self.current_card -= 1;
        }
    }

    /// Takes the card in hand out of the deck, unless it is the only one.
    /// The card behind it comes in hand, or the last card where there is
    /// none behind it.
    pub fn delete_card(&mut self)
        requires
            old(self).wf(),
        ensures
            old(self).cards@.len() == 1 ==> final(self).cards@ == old(self).cards@
                && final(self).current_card == old(self).current_card,
            old(self).cards@.len() > 1 ==> final(self).cards@ == old(self).cards@.remove(
                old(self).current_card as int,
            ) && final(self).current_card == if old(self).current_card < old(self).cards@.len()
                - 1 {
                old(self).current_card as int
            } else {
                old(self).cards@.len() - 2
            },
            final(self).wf(),
    {
        if self.cards.len() > 1 {
            let _ = self.cards.remove(self.current_card);
            if self.current_card >= self.cards.len() {
                self.current_card = self.cards.len() - 1;
            }
        }
    }
}

/// The frames of the stored cards in `data`: its pieces of 108 bytes, in
/// order. Bytes behind the last whole frame belong to no card.
pub open spec fn frames_of(data: Seq<u8>) -> Seq<Seq<u8>> {
    Seq::new(
        (data.len() / CARD_SIZE as nat) as nat,
        |i: int| data.subrange(i * CARD_SIZE, (i + 1) * CARD_SIZE),
    )
}

/// The bytes of the given frames, one behind the other.
pub open spec fn joined(frames: Seq<Seq<u8>>) -> Seq<u8>
    decreases frames.len(),
{
    if frames.len() == 0 {
        Seq::empty()
    } else {
        joined(frames.drop_last()) + frames.last()
    }
}

/// Cuts stored cards into their frames.
pub fn split_frames(data: &[u8]) -> (r: Vec<Vec<u8>>)
    ensures
        r.deep_view() == frames_of(data@),
{
    let mut r: Vec<Vec<u8>> = Vec::new();
    let mut at: usize = 0;
    while data.len() - at >= CARD_SIZE
        invariant
            at <= data@.len(),
            at == r@.len() * CARD_SIZE,
            forall|i: int|
                0 <= i < r@.len() ==> (#[trigger] r@[i])@ == data@.subrange(
                    i * CARD_SIZE,
                    (i + 1) * CARD_SIZE,
                ),
        decreases data@.len() - at,
    {
        let mut frame: Vec<u8> = Vec::new();
        let mut k: usize = 0;
        while k < CARD_SIZE
            invariant
                k <= CARD_SIZE,
                at + CARD_SIZE <= data@.len() <= usize::MAX,
                frame@ == data@.subrange(at as int, at + k),
            decreases CARD_SIZE - k,
        {
            frame.push(data[at + k]);
            assert(frame@ == data@.subrange(at as int, at + k + 1));
            k += 1;
        }
        r.push(frame);
        at += CARD_SIZE;
    }
    assert(r@.len() == data@.len() / CARD_SIZE as nat);
    assert(r.deep_view() =~~= frames_of(data@));
    r
}

/// Puts the frames of cards one behind the other.
pub fn join_frames(frames: &Vec<Vec<u8>>) -> (r: Vec<u8>)
    ensures
        r@ == joined(frames.deep_view()),
{
    let mut r: Vec<u8> = Vec::new();
    let mut i: usize = 0;
    while i < frames.len()
        invariant
            i <= frames@.len(),
            r@ == joined(frames.deep_view().take(i as int)),
        decreases frames@.len() - i,
    {
        let frame = &frames[i];
        let ghost before = r@;
        let mut k: usize = 0;
        while k < frame.len()
            invariant
                k <= frame@.len(),
                r@ == before + frame@.take(k as int),
            decreases frame@.len() - k,
        {
            r.push(frame[k]);
            assert(frame@.take(k + 1) == frame@.take(k as int).push(frame@[k as int]));
            k += 1;
        }
        proof {
            let view = frames.deep_view();
            assert(frame@.take(frame@.len() as int) == frame@);
            assert(view.take(i + 1).drop_last() == view.take(i as int));
            assert(view.take(i + 1).last() == frame@);
        }
        i += 1;
    }
    assert(frames.deep_view().take(frames@.len() as int) == frames.deep_view());
    r
}

/// Frames of the full size, put one behind the other, are cut into the
/// same frames again.
pub proof fn lemma_frames_of_joined(frames: Seq<Seq<u8>>)
    requires
        forall|i: int| 0 <= i < frames.len() ==> (#[trigger] frames[i]).len() == CARD_SIZE,
    ensures
        joined(frames).len() == frames.len() * CARD_SIZE,
        frames_of(joined(frames)) == frames,
    decreases frames.len(),
{
    if frames.len() > 0 {
        let head = frames.drop_last();
        lemma_frames_of_joined(head);
        let data = joined(frames);
        assert(data == joined(head) + frames.last());
        assert(data.len() == frames.len() * CARD_SIZE);
        assert(data.len() / CARD_SIZE as nat == frames.len());
        assert forall|i: int| 0 <= i < frames.len() implies frames_of(data)[i] == frames[i] by {
            if i < head.len() {
                assert(frames_of(joined(head))[i] == head[i]);
                assert(data.subrange(i * CARD_SIZE, (i + 1) * CARD_SIZE) == joined(head).subrange(
                    i * CARD_SIZE,
                    (i + 1) * CARD_SIZE,
                ));
            } else {
                assert(data.subrange(i * CARD_SIZE, (i + 1) * CARD_SIZE) == frames.last());
            }
        }
        assert(frames_of(data) == frames);
    } else {
        assert(frames_of(joined(frames)) == frames);
    }
}

} // verus!
