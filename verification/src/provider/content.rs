//! The text of messages.
use vstd::prelude::*;

use crate::json::bridge::display_text;
use crate::json::{has_field, items_view, lemma_array_view, text_field, Json, JsonView};
use crate::text::text_eq;
use crate::types::openai_request::{content_view, Message};

verus! {

/// The text of one content block, where it is a text block.
pub open spec fn text_block(block: JsonView) -> Option<Seq<char>> {
    if text_field(block, "type"@) == Some("text"@) {
        text_field(block, "text"@)
    } else {
        None
    }
}

/// The text of a content: nothing for an absent or null content, a text as it is, the text
/// blocks of an array one after the other, and the JSON text of anything else.
pub open spec fn text_content(content: Option<JsonView>) -> Seq<char> {
    match content {
        None => Seq::empty(),
        Some(JsonView::Null) => Seq::empty(),
        Some(JsonView::Text(s)) => s,
        Some(JsonView::Array(blocks)) => blocks.filter_map(
            |b: JsonView| text_block(b),
        ).flatten_alt(),
        Some(other) => display_text(other),
    }
}

/// The text of a message.
pub open spec fn message_text(m: Message) -> Seq<char> {
    text_content(content_view(m))
}

/// `text` as a further paragraph of `prompt`.
pub open spec fn with_system_text(prompt: Seq<char>, text: Seq<char>) -> Seq<char> {
    if prompt.len() == 0 {
        text
    } else {
        prompt + "\n"@ + text
    }
}

/// The texts of all system messages, one line after the other.
pub open spec fn system_prompt(messages: Seq<Message>) -> Seq<char>
    decreases messages.len(),
{
    if messages.len() == 0 {
        Seq::empty()
    } else {
        let prompt = system_prompt(messages.drop_last());
        if messages.last().role@ == "system"@ {
            with_system_text(prompt, message_text(messages.last()))
        } else {
            prompt
        }
    }
}

/// The text of one content block, where it is a text block.
fn block_text(block: &Json) -> (r: Option<String>)
    ensures
        match r {
            Some(s) => text_block(block@) == Some(s@),
            None => text_block(block@) is None,
        },
{
    match block.get_str("type") {
        Some(t) => if text_eq(t, "text") {
            match block.get_str("text") {
                Some(s) => Some(s.to_string()),
                None => None,
            }
        } else {
            None
        },
        None => None,
    }
}

/// Extracts the text of a content. Images are left out; an unexpected kind of value is shown
/// as JSON so that nothing is dropped in silence.
pub fn extract_text_content(content: &Option<Json>) -> (r: String)
    ensures
        r@ == text_content(
            match *content {
                Some(j) => Some(j@),
                None => None,
            },
        ),
{
    match content {
        None => String::new(),
        Some(Json::Null) => String::new(),
        Some(Json::Text(s)) => s.clone(),
        Some(Json::Array(items)) => {
            let mut out = String::new();
            let mut i: usize = 0;
            let ghost blocks = items_view(items@);
            let ghost pick = |b: JsonView| text_block(b);
            assert(blocks.take(0).filter_map(pick) =~= Seq::empty());
            while i < items.len()
                invariant
                    i <= items@.len(),
                    blocks == items_view(items@),
                    pick == (|b: JsonView| text_block(b)),
                    out@ == blocks.take(i as int).filter_map(pick).flatten_alt(),
                decreases items@.len() - i,
            {
                proof {
                    let longer = blocks.take(i + 1);
                    assert(longer.drop_last() =~= blocks.take(i as int));
                    let texts = blocks.take(i as int).filter_map(pick);
                    match pick(longer.last()) {
                        Some(s) => {
                            assert(longer.filter_map(pick) =~= texts.push(s));
                            assert(texts.push(s).drop_last() =~= texts);
                        },
                        None => {
                            assert(longer.filter_map(pick) =~= texts);
                        },
                    }
                }
                match block_text(&items[i]) {
                    Some(s) => {
                        out.append(s.as_str());
                    },
                    None => {},
                }
                i += 1;
            }
            proof {
                lemma_array_view(*items);
                assert(blocks.take(blocks.len() as int) =~= blocks);
            }
            out
        },
        Some(other) => other.display(),
    }
}

/// Whether a block is a text block with the text `t`.
pub open spec fn is_text_block(block: JsonView, t: Seq<char>) -> bool {
    has_field(block, "type"@, JsonView::Text("text"@)) && has_field(
        block,
        "text"@,
        JsonView::Text(t),
    )
}

/// A text is taken as it is; nothing and null have no text, and any other value is shown.
pub proof fn lemma_text_is_taken_as_it_is(t: Seq<char>, b: bool, n: serde_json::Number, m: Map<Seq<char>, JsonView>)
    ensures
        text_content(None) == Seq::<char>::empty(),
        text_content(Some(JsonView::Null)) == Seq::<char>::empty(),
        text_content(Some(JsonView::Text(t))) == t,
        text_content(Some(JsonView::Array(Seq::empty()))) == Seq::<char>::empty(),
        text_content(Some(JsonView::Bool(b))) == display_text(JsonView::Bool(b)),
        text_content(Some(JsonView::Number(n))) == display_text(JsonView::Number(n)),
        text_content(Some(JsonView::Object(m))) == display_text(JsonView::Object(m)),
{
    let none = Seq::<JsonView>::empty();
    assert(none.filter_map(|b: JsonView| text_block(b)) =~= Seq::<Seq<char>>::empty());
    assert(Seq::<Seq<char>>::empty().flatten_alt() =~= Seq::<char>::empty());
}

/// A further text block adds its text, unchanged, behind the others; any other block adds nothing.
pub proof fn lemma_text_block_is_added(blocks: Seq<JsonView>, block: JsonView, t: Seq<char>)
    ensures
        is_text_block(block, t) ==> text_content(Some(JsonView::Array(blocks.push(block))))
            == text_content(Some(JsonView::Array(blocks))) + t,
        (forall|u: Seq<char>| !#[trigger] is_text_block(block, u)) ==> text_content(
            Some(JsonView::Array(blocks.push(block))),
        ) == text_content(Some(JsonView::Array(blocks))),
{
    let convert = |b: JsonView| text_block(b);
    assert(blocks.push(block).drop_last() =~= blocks);
    if let Some(u) = text_block(block) {
        assert(is_text_block(block, u));
        let before = blocks.filter_map(convert);
        let after = blocks.push(block).filter_map(convert);
        assert(after == before + seq![u]);
        assert(after.drop_last() =~= before);
        assert(after.last() == u);
    }
}

/// The text of a message is that of its content.
pub proof fn lemma_message_has_its_text(m: Message)
    ensures
        m.content matches Some(c) ==> message_text(m) == text_content(Some(c@)),
        m.content is None ==> message_text(m) == Seq::<char>::empty(),
{
}

/// The system prompt is made of all system messages, unchanged, each on lines of its own; other
/// messages leave it as it is.
pub proof fn lemma_prompt_grows(messages: Seq<Message>, m: Message)
    ensures
        system_prompt(Seq::empty()) == Seq::<char>::empty(),
        m.role@ != "system"@ ==> system_prompt(messages.push(m)) == system_prompt(messages),
        m.role@ == "system"@ && system_prompt(messages).len() == 0 ==> system_prompt(
            messages.push(m),
        ) == message_text(m),
        m.role@ == "system"@ && system_prompt(messages).len() > 0 ==> system_prompt(
            messages.push(m),
        ) == system_prompt(messages) + "\n"@ + message_text(m),
{
    assert(messages.push(m).drop_last() =~= messages);
}

/// The roles differ.
pub proof fn lemma_roles()
    ensures
        "system"@ != "user"@,
        "system"@ != "assistant"@,
        "system"@ != "tool"@,
        "user"@ != "assistant"@,
        "user"@ != "tool"@,
        "assistant"@ != "tool"@,
{
    reveal_strlit("system");
    reveal_strlit("user");
    reveal_strlit("assistant");
    reveal_strlit("tool");
    assert("system"@.len() != "user"@.len());
    assert("system"@.len() != "assistant"@.len());
    assert("system"@.len() != "tool"@.len());
    assert("user"@.len() != "assistant"@.len());
    assert("user"@[0] != "tool"@[0]);
    assert("assistant"@.len() != "tool"@.len());
}

} // verus!
