//! What holds of every request to DashScope.
use vstd::prelude::*;

use crate::json::{JsonView};
use crate::provider::dashscope::request_builder::{
    assistant_blocks, image_source, is_tool_result, media_type, takes_results, tool_result_block,
    tool_use_block, turns_of, user_block, user_content, with_result, Speaker, TurnView,
};
use crate::text::{first_position, lemma_first_position, trim_end, trim_start};
use crate::types::openai_request::{content_view, Message};

verus! {

/// The tool results among blocks.
pub open spec fn results_among(blocks: Seq<JsonView>) -> Seq<JsonView> {
    blocks.filter(|b: JsonView| is_tool_result(b))
}

/// The tool results in a message.
pub open spec fn results_in(t: TurnView) -> Seq<JsonView> {
    match t.content {
        JsonView::Array(blocks) => results_among(blocks),
        _ => Seq::empty(),
    }
}

/// The tool results in messages, in their order.
pub open spec fn results_of(turns: Seq<TurnView>) -> Seq<JsonView>
    decreases turns.len(),
{
    if turns.len() == 0 {
        Seq::empty()
    } else {
        results_of(turns.drop_last()) + results_in(turns.last())
    }
}

/// The results that the tool messages of a conversation bring, in their order.
pub open spec fn tool_results(messages: Seq<Message>) -> Seq<JsonView>
    decreases messages.len(),
{
    if messages.len() == 0 {
        Seq::empty()
    } else {
        let before = tool_results(messages.drop_last());
        if messages.last().role@ == "tool"@ {
            before.push(tool_result_block(messages.last()))
        } else {
            before
        }
    }
}

/// The kinds of blocks differ.
proof fn lemma_block_kinds()
    ensures
        "tool_result"@ != "text"@,
        "tool_result"@ != "image"@,
        "tool_result"@ != "tool_use"@,
        "type"@ != "text"@,
        "type"@ != "source"@,
        "type"@ != "id"@,
        "type"@ != "name"@,
        "type"@ != "input"@,
        "type"@ != "tool_use_id"@,
        "type"@ != "content"@,
{
    reveal_strlit("tool_result");
    reveal_strlit("text");
    reveal_strlit("image");
    reveal_strlit("tool_use");
    reveal_strlit("type");
    reveal_strlit("source");
    reveal_strlit("id");
    reveal_strlit("name");
    reveal_strlit("input");
    reveal_strlit("tool_use_id");
    reveal_strlit("content");
    assert("tool_result"@.len() == 11 && "text"@.len() == 4 && "image"@.len() == 5);
    assert("tool_use"@.len() == 8 && "source"@.len() == 6 && "id"@.len() == 2);
    assert("type"@.len() == 4 && "input"@.len() == 5 && "tool_use_id"@.len() == 11);
    assert("content"@.len() == 7);
    assert("type"@[1] == 'y' && "text"@[1] == 'e' && "name"@[1] == 'a');
}

/// The block of a tool message is a tool result.
pub proof fn lemma_result_block(m: Message)
    ensures
        is_tool_result(tool_result_block(m)),
{
    lemma_block_kinds();
}

/// No block of a user message is a tool result.
pub proof fn lemma_user_block_is_no_result(block: JsonView)
    ensures
        user_block(block) matches Some(b) ==> !is_tool_result(b),
{
    lemma_block_kinds();
}

proof fn lemma_user_content_has_no_results(blocks: Seq<JsonView>)
    ensures
        results_among(blocks.filter_map(|b: JsonView| user_block(b))) == Seq::<JsonView>::empty(),
    decreases blocks.len(),
{
    reveal(Seq::filter);
    let convert = |b: JsonView| user_block(b);
    if blocks.len() > 0 {
        lemma_user_content_has_no_results(blocks.drop_last());
        lemma_user_block_is_no_result(blocks.last());
        let before = blocks.drop_last().filter_map(convert);
        if let Some(b) = user_block(blocks.last()) {
            let after = blocks.filter_map(convert);
            assert(after == before + seq![b]);
            assert(after.drop_last() =~= before);
            assert(after.last() == b);
        }
    }
}

proof fn lemma_no_results_among(blocks: Seq<JsonView>)
    requires
        forall|i: int| 0 <= i < blocks.len() ==> !is_tool_result(#[trigger] blocks[i]),
    ensures
        results_among(blocks) == Seq::<JsonView>::empty(),
    decreases blocks.len(),
{
    reveal(Seq::filter);
    if blocks.len() > 0 {
        assert(!is_tool_result(blocks[blocks.len() - 1]));
        let before = blocks.drop_last();
        assert forall|i: int| 0 <= i < before.len() implies !is_tool_result(#[trigger] before[i]) by {
            assert(before[i] == blocks[i]);
        }
        lemma_no_results_among(before);
    }
}

proof fn lemma_assistant_has_no_results(m: Message)
    ensures
        results_among(assistant_blocks(m)) == Seq::<JsonView>::empty(),
{
    lemma_block_kinds();
    let blocks = assistant_blocks(m);
    assert forall|i: int| 0 <= i < blocks.len() implies !is_tool_result(#[trigger] blocks[i]) by {
        if let Some(calls) = m.tool_calls {
            assert forall|k: int| 0 <= k < calls@.len() implies !is_tool_result(
                #[trigger] tool_use_block(calls@[k]),
            ) by {}
        }
    }
    lemma_no_results_among(blocks);
}

proof fn lemma_results_push(turns: Seq<TurnView>, t: TurnView)
    ensures
        results_of(turns.push(t)) == results_of(turns) + results_in(t),
{
    assert(turns.push(t).drop_last() =~= turns);
}

proof fn lemma_with_result(turns: Seq<TurnView>, m: Message)
    ensures
        results_of(with_result(turns, tool_result_block(m))) == results_of(turns).push(
            tool_result_block(m),
        ),
{
    reveal(Seq::filter);
    lemma_result_block(m);
    let result = tool_result_block(m);
    if turns.len() > 0 && takes_results(turns.last()) {
        let blocks = turns.last().content->Array_0;
        let joined = TurnView {
            speaker: Speaker::User,
            content: JsonView::Array(blocks.push(result)),
        };
        lemma_results_push(turns.drop_last(), joined);
        assert(blocks.push(result).drop_last() =~= blocks);
        assert(results_among(blocks.push(result)) == results_among(blocks).push(result));
        assert(results_of(with_result(turns, result)) =~= results_of(turns).push(result));
    } else {
        let alone = TurnView { speaker: Speaker::User, content: JsonView::Array(seq![result]) };
        lemma_results_push(turns, alone);
        assert(seq![result].drop_last() =~= Seq::<JsonView>::empty());
        assert(results_among(seq![result].drop_last()) =~= Seq::<JsonView>::empty());
        assert(results_among(seq![result]) =~= seq![result]);
        assert(results_of(with_result(turns, result)) =~= results_of(turns).push(result));
    }
}

/// Every tool message becomes one tool result; none is lost, doubled or moved.
pub proof fn lemma_results_are_kept(messages: Seq<Message>)
    ensures
        results_of(turns_of(messages)) == tool_results(messages),
    decreases messages.len(),
{
    if messages.len() > 0 {
        let before = turns_of(messages.drop_last());
        let m = messages.last();
        lemma_results_are_kept(messages.drop_last());
        reveal_strlit("user");
        reveal_strlit("assistant");
        reveal_strlit("tool");
        assert("user"@[0] == 'u' && "assistant"@[0] == 'a' && "tool"@[0] == 't');
        if m.role@ == "user"@ {
            let content = user_content(content_view(m));
            lemma_results_push(before, TurnView { speaker: Speaker::User, content });
            if let Some(JsonView::Array(blocks)) = content_view(m) {
                lemma_user_content_has_no_results(blocks);
            }
            assert(results_of(turns_of(messages)) =~= results_of(before));
        } else if m.role@ == "assistant"@ {
            lemma_results_push(
                before,
                TurnView {
                    speaker: Speaker::Assistant,
                    content: JsonView::Array(assistant_blocks(m)),
                },
            );
            lemma_assistant_has_no_results(m);
            assert(results_of(turns_of(messages)) =~= results_of(before));
        } else if m.role@ == "tool"@ {
            lemma_with_result(before, m);
        }
    }
}

/// Whether a message brings tool results and nothing else.
pub open spec fn is_results_turn(t: TurnView) -> bool {
    takes_results(t) && t.content->Array_0.len() > 0
}

/// Whether no two neighbours among the messages bring tool results and nothing else.
pub open spec fn results_are_joined(turns: Seq<TurnView>) -> bool {
    forall|k: int|
        0 < k < turns.len() ==> !(is_results_turn(turns[k - 1]) && is_results_turn(
            #[trigger] turns[k],
        ))
}

proof fn lemma_user_turn_is_no_results_turn(m: Message)
    ensures
        !is_results_turn(
            TurnView { speaker: Speaker::User, content: user_content(content_view(m)) },
        ),
{
    reveal(Seq::filter);
    if let Some(JsonView::Array(blocks)) = content_view(m) {
        let converted = blocks.filter_map(|b: JsonView| user_block(b));
        lemma_user_content_has_no_results(blocks);
        if converted.len() > 0 {
            let last = converted.len() - 1;
            if is_tool_result(converted[last]) {
                assert(results_among(converted).last() == converted[last]);
            }
        }
    }
}

/// Whether a message says something in the list of its blocks, where it has one.
pub open spec fn has_blocks(t: TurnView) -> bool {
    t.content matches JsonView::Array(blocks) ==> blocks.len() > 0
}

/// Whether every user message says something in the list of its blocks, where it has one.
pub open spec fn users_have_blocks(messages: Seq<Message>) -> bool {
    forall|i: int|
        0 <= i < messages.len() && (#[trigger] messages[i]).role@ == "user"@ ==> user_content(
            content_view(messages[i]),
        ) != JsonView::Array(Seq::empty())
}

/// Tool results that follow each other stand in one message, as long as no user message between
/// them is an empty list.
pub proof fn lemma_results_are_joined(messages: Seq<Message>)
    requires
        users_have_blocks(messages),
    ensures
        results_are_joined(turns_of(messages)),
        forall|k: int|
            0 <= k < turns_of(messages).len() ==> has_blocks(#[trigger] turns_of(messages)[k]),
    decreases messages.len(),
{
    if messages.len() > 0 {
        let shorter = messages.drop_last();
        let before = turns_of(shorter);
        let m = messages.last();
        let after = turns_of(messages);
        assert forall|i: int|
            0 <= i < shorter.len() && (#[trigger] shorter[i]).role@ == "user"@ implies user_content(
            content_view(shorter[i]),
        ) != JsonView::Array(Seq::empty()) by {
            assert(shorter[i] == messages[i]);
        }
        lemma_results_are_joined(shorter);
        lemma_user_turn_is_no_results_turn(m);
        assert(messages[messages.len() - 1] == m);
        if m.role@ == "user"@ {
            if let JsonView::Array(blocks) = user_content(content_view(m)) {
                if blocks.len() == 0 {
                    assert(blocks =~= Seq::<JsonView>::empty());
                }
            }
        }
        assert forall|k: int| 0 <= k < after.len() implies has_blocks(#[trigger] after[k]) by {
            if k < before.len() {
                assert(has_blocks(before[k]));
            }
        }
        assert forall|k: int| 0 < k < after.len() implies !(is_results_turn(after[k - 1])
            && is_results_turn(#[trigger] after[k])) by {
            assert(has_blocks(after[k]));
            assert(after[k - 1] == before[k - 1]);
            assert(has_blocks(before[k - 1]));
            if k < before.len() {
                assert(has_blocks(before[k]));
                assert(!(is_results_turn(before[k - 1]) && is_results_turn(before[k])));
            }
        }
    }
}

/// The type and the data of a data URL come out as they went in.
pub proof fn lemma_data_url(kind: Seq<char>, data: Seq<char>)
    requires
        first_position(kind, ',') is None,
        !"data:"@.is_prefix_of(kind),
        !";base64"@.is_suffix_of(kind),
    ensures
        image_source("data:"@ + kind + ";base64"@ + ","@ + data) == Some(
            JsonView::Object(
                map![
                    "type"@ => JsonView::Text("base64"@),
                    "media_type"@ => JsonView::Text(kind),
                    "data"@ => JsonView::Text(data)
                ],
            ),
        ),
{
    reveal_strlit("data:");
    reveal_strlit(";base64");
    reveal_strlit(",");
    let url = "data:"@ + kind + ";base64"@ + ","@ + data;
    let head = "data:"@ + kind + ";base64"@;
    let tail = kind + ";base64"@;
    let n = head.len() as int;
    assert("data:"@.len() == 5 && ";base64"@.len() == 7 && ","@.len() == 1);
    assert("data:"@.is_prefix_of(url)) by {
        assert(url.take(5) =~= "data:"@);
    }
    lemma_first_position(kind, ',');
    lemma_first_position(url, ',');
    assert(url[n] == ',');
    assert forall|j: int| 0 <= j < n implies url[j] != ',' by {
        if 5 <= j < 5 + kind.len() {
            assert(url[j] == kind[j - 5]);
        }
    }
    assert(first_position(url, ',') == Some(n));
    assert(url.take(n) =~= head);
    assert(url.skip(n + 1) =~= data);
    assert("data:"@.is_prefix_of(head)) by {
        assert(head.take(5) =~= "data:"@);
    }
    assert(head.skip(5) =~= tail);
    assert(!"data:"@.is_prefix_of(tail)) by {
        if "data:"@.is_prefix_of(tail) {
            if kind.len() >= 5 {
                assert(kind.take(5) =~= tail.take(5));
                assert("data:"@.is_prefix_of(kind));
            } else {
                assert(tail[kind.len() as int] == ';');
                assert("data:"@[kind.len() as int] == tail[kind.len() as int]);
            }
        }
    }
    assert(trim_start(tail, "data:"@) == tail);
    assert(trim_start(head, "data:"@) == tail);
    assert(";base64"@.is_suffix_of(tail)) by {
        assert(tail.skip(kind.len() as int) =~= ";base64"@);
    }
    assert(tail.take(tail.len() - 7) =~= kind);
    assert(trim_end(kind, ";base64"@) == kind);
    assert(media_type(head) == kind);
}

} // verus!
