//! Typed representation of one chat-export document: a guild, a channel, and
//! the channel's messages in their delivered (chronological) order.

use vstd::prelude::*;

verus! {

/// One structured attachment on a message; only its optional description
/// text is consulted by the aggregation logic.
pub struct Embed {
    pub description: Option<String>,
}

/// Mathematical view of an `Embed`.
pub ghost struct EmbedView {
    pub description: Option<Seq<char>>,
}

impl View for Embed {
    type V = EmbedView;

    open spec fn view(&self) -> EmbedView {
        EmbedView {
            description: match self.description {
                Some(s) => Some(s@),
                None => None,
            },
        }
    }
}

/// One chat message: its instant (nanoseconds since the Unix epoch, UTC),
/// its full text content, and its embeds in order.
pub struct Message {
    pub timestamp: i64,
    pub content: String,
    pub embeds: Vec<Embed>,
}

/// Mathematical view of a `Message`.
pub ghost struct MessageView {
    pub timestamp: int,
    pub content: Seq<char>,
    pub embeds: Seq<EmbedView>,
}

impl View for Message {
    type V = MessageView;

    open spec fn view(&self) -> MessageView {
        MessageView {
            timestamp: self.timestamp as int,
            content: self.content@,
            embeds: self.embeds@.map_values(|e: Embed| e@),
        }
    }
}

/// The views of a sequence of messages, in order.
pub open spec fn views_of_messages(ms: Seq<Message>) -> Seq<MessageView> {
    ms.map_values(|m: Message| m@)
}

/// Identity of the guild an export was taken from; used only to name the
/// output artifact and for progress reporting.
pub struct Guild {
    pub id: String,
    pub name: String,
}

/// Identity of the exported channel; the category is genuinely optional.
pub struct Channel {
    pub id: String,
    pub category: Option<String>,
    pub name: String,
}

impl Channel {
    /// The category name, or the fixed placeholder where none is present.
    pub fn category_or_placeholder(&self) -> (r: &str)
        ensures
            r@ == match self.category {
                Some(c) => c@,
                None => "N/A"@,
            },
    {
        match &self.category {
            Some(c) => c.as_str(),
            None => "N/A",
        }
    }
}

/// One decoded export document.
pub struct Root {
    pub guild: Guild,
    pub channel: Channel,
    pub messages: Vec<Message>,
}

/// Character-for-character string equality, so that contracts can speak
/// exactly about when two strings agree.
pub fn str_eq(a: &str, b: &str) -> (r: bool)
    ensures
        r == (a@ == b@),
{
    let an = a.unicode_len();
    let bn = b.unicode_len();
    if an != bn {
        return false;
    }
    let mut i: usize = 0;
    while i < an
        invariant
            i <= an,
            an == a@.len(),
            an == b@.len(),
            forall|j: int| 0 <= j < i ==> a@[j] == b@[j],
        decreases an - i,
    {
        if a.get_char(i) != b.get_char(i) {
            return false;
        }
        i += 1;
    }
    proof {
        assert(a@ =~= b@);
    }
    true
}

} // verus!
