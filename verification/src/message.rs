//! Message content translation for forwarded copies: of the element kinds a
//! group message can carry, a known, finite set is carried over into the
//! forwarded copy, and every unrecognized kind is silently dropped.

use vstd::prelude::*;

verus! {

/// One element of a message's content, reduced to the plain values the
/// relay reads. The wire-level encoding stays with the IM backend; its
/// caller converts each wire element into this shape, with every kind
/// outside the known set mapped to [`MessageElement::Other`].
#[derive(Debug)]
pub enum MessageElement {
    At { target: i64 },
    Text { content: String },
    Face { index: i32 },
    MarketFace { name: String },
    Dice { value: i32 },
    FingerGuessing { value: i32 },
    LightApp { content: String },
    RichMsg { content: String },
    FriendImage { url: String },
    GroupImage { url: String },
    FlashImage { url: String },
    VideoFile { name: String },
    /// An element kind outside the known set.
    Other,
}

impl Clone for MessageElement {
    fn clone(&self) -> (r: Self)
        ensures
            r == *self,
    {
        match self {
            MessageElement::At { target } => MessageElement::At { target: *target },
            MessageElement::Text { content } => MessageElement::Text { content: content.clone() },
            MessageElement::Face { index } => MessageElement::Face { index: *index },
            MessageElement::MarketFace { name } => MessageElement::MarketFace {
                name: name.clone(),
            },
            MessageElement::Dice { value } => MessageElement::Dice { value: *value },
            MessageElement::FingerGuessing { value } => MessageElement::FingerGuessing {
                value: *value,
            },
            MessageElement::LightApp { content } => MessageElement::LightApp {
                content: content.clone(),
            },
            MessageElement::RichMsg { content } => MessageElement::RichMsg {
                content: content.clone(),
            },
            MessageElement::FriendImage { url } => MessageElement::FriendImage {
                url: url.clone(),
            },
            MessageElement::GroupImage { url } => MessageElement::GroupImage { url: url.clone() },
            MessageElement::FlashImage { url } => MessageElement::FlashImage { url: url.clone() },
            MessageElement::VideoFile { name } => MessageElement::VideoFile { name: name.clone() },
            MessageElement::Other => MessageElement::Other,
        }
    }
}

/// Is this element of a kind the forwarded copy carries over?
pub open spec fn spec_carried(e: MessageElement) -> bool {
    !(e is Other)
}

/// Exactly the carried elements, in their order: every recognized element
/// stays, every unrecognized one is dropped.
pub fn translate_elements(elems: &Vec<MessageElement>) -> (r: Vec<MessageElement>)
    ensures
        r@ == elems@.filter(|e: MessageElement| spec_carried(e)),
{
    let n = elems.len();
    let mut out: Vec<MessageElement> = Vec::new();
    let mut k: usize = 0;
    proof {
        assert(elems@.take(0).filter(|e: MessageElement| spec_carried(e)) =~= Seq::<MessageElement>::empty()) by {
            reveal(Seq::filter);
            assert(elems@.take(0) =~= Seq::<MessageElement>::empty());
        }
    }
    while k < n
        invariant
            n == elems@.len(),
            k <= n,
            out@ == elems@.take(k as int).filter(|e: MessageElement| spec_carried(e)),
        decreases n - k,
    {
        let keep = !matches!(&elems[k], MessageElement::Other);
        if keep {
            out.push(elems[k].clone());
        }
        proof {
            reveal(Seq::filter);
            let prev = elems@.take(k as int);
            let cur = elems@.take(k + 1);
            assert(cur.len() == k + 1);
            assert(cur.drop_last() =~= prev);
            assert(cur.drop_last() == prev);
            assert(cur.last() == elems@[k as int]);
            assert(spec_carried(cur.last()) == spec_carried(elems@[k as int]));
            assert(cur.filter(|e: MessageElement| spec_carried(e)) == (if spec_carried(cur.last()) {
                cur.drop_last().filter(|e: MessageElement| spec_carried(e)).push(cur.last())
            } else {
                cur.drop_last().filter(|e: MessageElement| spec_carried(e))
            }));
            assert(out@ =~= cur.filter(|e: MessageElement| spec_carried(e)));
        }
        k += 1;
    }
    proof {
        assert(elems@.take(n as int) =~= elems@);
    }
    out
}

} // verus!
