//! The bot's answers to ordinary chat messages.
use vstd::prelude::*;
use vstd::string::*;
use vstd::utf8::{encode_utf8, is_char_boundary};
use crate::text::{contains_text, has_substring, same_text};

verus! {

/// Flips a fair coin.
///
/// Trusted: wraps `rand::random::<bool>()`. Its result rests on chance,
/// so nothing is claimed of it. The call can panic when the thread's
/// generator cannot be seeded from the operating system, a condition no
/// argument controls.
#[verifier::external_body]
fn coin_flip() -> bool {
    rand::random::<bool>()
}

/// The penguin picture sent for "pain".
pub open spec fn painguin_link() -> Seq<char> {
    "https://i.imgur.com/Mb5EzYr.png"@
}

/// The Pekora picture sent for "pain".
pub open spec fn painpeko_link() -> Seq<char> {
    "https://i.imgur.com/qSC3eMf.jpeg"@
}

/// The picture sent for a message that contains "pain": the one it names
/// exactly ("painguin" or "painpeko"), else the one the coin picks.
pub open spec fn pain_reply(content: Seq<char>, coin: bool) -> Seq<char> {
    if content == "painguin"@ {
        painguin_link()
    } else if content == "painpeko"@ {
        painpeko_link()
    } else if coin {
        painpeko_link()
    } else {
        painguin_link()
    }
}

/// The replies to a message, in the order they are sent: "pong!" when it
/// contains "ping", the shark's cry when it contains "tiburonsin", and a
/// picture when it contains "pain".
pub open spec fn replies(content: Seq<char>, coin: bool) -> Seq<Seq<char>> {
    (if has_substring(content, "ping"@) { seq!["pong!"@] } else { Seq::empty() })
        + (if has_substring(content, "tiburonsin"@) { seq!["HU HA HA!"@] } else { Seq::empty() })
        + (if has_substring(content, "pain"@) { seq![pain_reply(content, coin)] } else { Seq::empty() })
}

fn owned(s: &str) -> (r: String)
    ensures
        r@ == s@,
{
    s.to_owned()
}

/// The replies to a message with `content`, with `coin` as the coin that
/// picks the picture for "pain".
pub fn responses_for(content: &str, coin: bool) -> (out: Vec<String>)
    ensures
        out@.len() == replies(content@, coin).len(),
        forall|i: int| 0 <= i < out@.len() ==> #[trigger] out@[i]@ == replies(content@, coin)[i],
{
    let mut out: Vec<String> = Vec::new();
    let ghost mut expected: Seq<Seq<char>> = Seq::empty();
    if contains_text(content, "ping") {
        out.push(owned("pong!"));
        proof { expected = expected.push("pong!"@); }
    }
    if contains_text(content, "tiburonsin") {
        out.push(owned("HU HA HA!"));
        proof { expected = expected.push("HU HA HA!"@); }
    }
    if contains_text(content, "pain") {
        let reply = if same_text(content, "painguin") {
            owned("https://i.imgur.com/Mb5EzYr.png")
        } else if same_text(content, "painpeko") {
            owned("https://i.imgur.com/qSC3eMf.jpeg")
        } else if coin {
            owned("https://i.imgur.com/qSC3eMf.jpeg")
        } else {
            owned("https://i.imgur.com/Mb5EzYr.png")
        };
        out.push(reply);
        proof { expected = expected.push(pain_reply(content@, coin)); }
    }
    assert(expected =~= replies(content@, coin));
    assert forall|i: int| 0 <= i < out@.len() implies #[trigger] out@[i]@ == replies(content@, coin)[i] by {
        assert(out@[i]@ == expected[i]);
    }
    out
}

/// The replies to a message with `content`; the coin for "pain" is
/// flipped only when the message contains "pain".
pub fn response_handler(content: &str) -> (out: Vec<String>)
    ensures
        exists|coin: bool|
            out@.len() == #[trigger] replies(content@, coin).len() && forall|i: int|
                0 <= i < out@.len() ==> #[trigger] out@[i]@ == replies(content@, coin)[i],
        !has_substring(content@, "pain"@) ==> out@.len() == replies(content@, false).len()
            && forall|i: int| 0 <= i < out@.len() ==> #[trigger] out@[i]@ == replies(content@, false)[i],
{
    let coin = if contains_text(content, "pain") { coin_flip() } else { false };
    let out = responses_for(content, coin);
    assert(out@.len() == replies(content@, coin).len());
    out
}

/// The text of a message after the mention of the bot that opens it
/// (its first 23 bytes). The cut must fall between two characters.
pub fn strip_mention(content: &str) -> (rest: String)
    requires
        is_char_boundary(content.spec_bytes(), 23),
    ensures
        encode_utf8(rest@) == content.spec_bytes().subrange(23, content.spec_bytes().len() as int),
{
    let (_, tail) = content.split_at(23);
    tail.to_owned()
}


/// A message that holds "ping" anywhere gets "pong!" as its first reply;
/// one that holds "tiburonsin" anywhere gets the shark's cry; one that
/// holds "pain" anywhere ends with a picture.
pub proof fn law_keywords_anywhere(pre: Seq<char>, post: Seq<char>, coin: bool)
    ensures
        replies(pre + "ping"@ + post, coin).len() >= 1,
        replies(pre + "ping"@ + post, coin)[0] == "pong!"@,
        replies(pre + "tiburonsin"@ + post, coin).contains("HU HA HA!"@),
        ({
            let r = replies(pre + "pain"@ + post, coin);
            r.len() >= 1 && (r.last() == painguin_link() || r.last() == painpeko_link())
        }),
{
    let c = pre + "ping"@ + post;
    assert(c.subrange(pre.len() as int, pre.len() + "ping"@.len() as int) =~= "ping"@);
    assert(has_substring(c, "ping"@));
    let t = pre + "tiburonsin"@ + post;
    assert(t.subrange(pre.len() as int, pre.len() + "tiburonsin"@.len() as int) =~= "tiburonsin"@);
    assert(has_substring(t, "tiburonsin"@));
    let rt = replies(t, coin);
    let head = if has_substring(t, "ping"@) { seq!["pong!"@] } else { Seq::<Seq<char>>::empty() };
    assert(rt[head.len() as int] == "HU HA HA!"@);
    let p = pre + "pain"@ + post;
    assert(p.subrange(pre.len() as int, pre.len() + "pain"@.len() as int) =~= "pain"@);
    assert(has_substring(p, "pain"@));
}

} // verus!
