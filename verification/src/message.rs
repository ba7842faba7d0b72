//! The text of an incoming message.

use crate::json;
use crate::json::{Json, JsonView};
use crate::text;
use crate::text::{is_blank, same_text};
use vstd::prelude::*;
use vstd::string::*;

verus! {

/// The text of a message part. A part without a kind counts as text; parts of other
/// kinds, and those whose text is missing, have none.
pub open spec fn part_text(part: JsonView) -> Option<Seq<char>> {
    if part.text_member_or("kind"@, "text"@) == "text"@ {
        match part.get("text"@) {
            Some(member) => member.text(),
            None => None,
        }
    } else {
        None
    }
}

/// The texts of message parts, in order, without the parts that have none.
pub open spec fn part_texts(parts: Seq<JsonView>) -> Seq<Seq<char>>
    decreases parts.len(),
{
    if parts.len() == 0 {
        Seq::empty()
    } else {
        match part_text(parts.last()) {
            Some(s) => part_texts(parts.drop_last()).push(s),
            None => part_texts(parts.drop_last()),
        }
    }
}

/// Texts with a space between each two of them.
pub open spec fn joined(texts: Seq<Seq<char>>) -> Seq<char>
    decreases texts.len(),
{
    if texts.len() == 0 {
        Seq::empty()
    } else if texts.len() == 1 {
        texts[0]
    } else {
        joined(texts.drop_last()) + " "@ + texts.last()
    }
}

/// The parts of the message in the parameters of `message/send`.
pub open spec fn message_parts(params: JsonView) -> Option<Seq<JsonView>> {
    match params.pointer(seq!["message"@, "parts"@]) {
        Some(parts) => parts.items(),
        None => None,
    }
}

/// A message that is a plain text.
pub open spec fn plain_message(params: JsonView) -> Option<Seq<char>> {
    match params.get("message"@) {
        Some(message) => message.text(),
        None => None,
    }
}

/// The text in the parameters of `message/send`: that of the message's parts, or,
/// where these come to nothing but white space, the message as a plain text.
pub open spec fn message_text(params: JsonView) -> Option<Seq<char>> {
    match message_parts(params) {
        Some(parts) => if text::blank(joined(part_texts(parts))) {
            plain_message(params)
        } else {
            Some(joined(part_texts(parts)))
        },
        None => plain_message(params),
    }
}

/// The text of a message part.
fn text_of_part(part: &Json) -> (found: Option<&str>)
    ensures
        match found {
            Some(s) => part_text(part@) == Some(s@),
            None => part_text(part@) is None,
        },
{
    let kind: &str = match part.get("kind") {
        Some(member) => match member.as_str() {
            Some(s) => s,
            None => "text",
        },
        None => "text",
    };
    if same_text(kind, "text") {
        match part.get("text") {
            Some(member) => member.as_str(),
            None => None,
        }
    } else {
        None
    }
}

/// The texts of message parts, with a space between each two of them.
fn join_parts(parts: &Vec<Json>) -> (text: String)
    ensures
        text@ == joined(part_texts(json::items_view(parts@))),
{
    let ghost views = json::items_view(parts@);
    proof {
        json::lemma_items_view(parts@);
    }
    let mut text: String = String::new();
    let mut first: bool = true;
    let mut i: usize = 0;
    while i < parts.len()
        invariant
            i <= parts.len(),
            views.len() == parts@.len(),
            forall|k: int| 0 <= k < parts@.len() ==> #[trigger] views[k] == parts@[k]@,
            first == (part_texts(views.take(i as int)).len() == 0),
            text@ == joined(part_texts(views.take(i as int))),
        decreases parts.len() - i,
    {
        let ghost before = part_texts(views.take(i as int));
        proof {
            assert(views.take(i + 1).drop_last() =~= views.take(i as int));
            assert(views.take(i + 1).last() == views[i as int]);
        }
        if let Some(s) = text_of_part(&parts[i]) {
            if !first {
                text.append(" ");
            }
            text.append(s);
            first = false;
            proof {
                assert(before.push(s@).drop_last() =~= before);
                assert(before.len() == 0 ==> text@ =~= s@);
            }
        }
        i += 1;
    }
    assert(views.take(views.len() as int) =~= views);
    text
}

/// Extracts the text from the parameters of `message/send`. Simple clients may send
/// the message as a plain string.
pub fn extract_text(params: &Json) -> (found: Option<String>)
    ensures
        match found {
            Some(s) => message_text(params@) == Some(s@),
            None => message_text(params@) is None,
        },
{
    let tokens: [&str; 2] = ["message", "parts"];
    assert(json::tokens_view(tokens@) =~= seq!["message"@, "parts"@]);
    if let Some(value) = params.pointer(&tokens) {
        if let Some(parts) = value.as_array() {
            let text: String = join_parts(parts);
            if !is_blank(text.as_str()) {
                return Some(text);
            }
        }
    }
    match params.get("message") {
        Some(message) => match message.as_str() {
            Some(s) => Some(s.to_owned()),
            None => None,
        },
        None => None,
    }
}

/// The parts stand under `parts` in the member `message`.
proof fn lemma_parts_path(params: JsonView)
    ensures
        message_parts(params) == (match params.get("message"@) {
            Some(message) => match message.get("parts"@) {
                Some(parts) => parts.items(),
                None => None,
            },
            None => None,
        }),
{
    reveal_strlit("message");
    reveal_strlit("parts");
    let path = seq!["message"@, "parts"@];
    assert(path.drop_first() =~= seq!["parts"@]);
    assert(seq!["parts"@].drop_first() =~= Seq::<Seq<char>>::empty());
    assert("message"@[0] == 'm' && !json::is_index_token("message"@));
    assert("parts"@[0] == 'p' && !json::is_index_token("parts"@));
    assert(params.child("message"@) == params.get("message"@));
    reveal_with_fuel(JsonView::pointer, 3);
    if let Some(message) = params.get("message"@) {
        assert(message.child("parts"@) == message.get("parts"@));
    }
}

/// The texts of two runs of parts, one behind the other.
proof fn lemma_part_texts_add(a: Seq<JsonView>, b: Seq<JsonView>)
    ensures
        part_texts(a + b) == part_texts(a) + part_texts(b),
    decreases b.len(),
{
    if b.len() == 0 {
        assert(a + b =~= a);
        assert(part_texts(a) + part_texts(b) =~= part_texts(a));
    } else {
        lemma_part_texts_add(a, b.drop_last());
        assert((a + b).drop_last() =~= a + b.drop_last());
        assert((a + b).last() == b.last());
        assert(part_texts(a + b) =~= part_texts(a) + part_texts(b));
    }
}

/// The texts of parts that are all texts.
proof fn lemma_part_texts_all(parts: Seq<JsonView>, texts: Seq<Seq<char>>)
    requires
        parts.len() == texts.len(),
        forall|i: int| 0 <= i < parts.len() ==> part_text(#[trigger] parts[i]) == Some(texts[i]),
    ensures
        part_texts(parts) == texts,
    decreases parts.len(),
{
    if parts.len() > 0 {
        lemma_part_texts_all(parts.drop_last(), texts.drop_last());
        assert(part_text(parts[parts.len() - 1]) == Some(texts[texts.len() - 1]));
        assert(texts.drop_last().push(texts.last()) =~= texts);
    } else {
        assert(texts =~= Seq::empty());
    }
}

/// Texts with a space between each two of them are blank where each of them is.
proof fn lemma_joined_blank(texts: Seq<Seq<char>>)
    ensures
        text::blank(joined(texts)) <==> forall|k: int|
            0 <= k < texts.len() ==> text::blank(#[trigger] texts[k]),
    decreases texts.len(),
{
    if texts.len() > 1 {
        let rest = texts.drop_last();
        lemma_joined_blank(rest);
        reveal_strlit(" ");
        assert(" "@ =~= seq![' ']);
        text::law_blank(joined(rest), " "@, ' ');
        text::law_blank(joined(rest) + " "@, texts.last(), ' ');
        assert forall|k: int| 0 <= k < rest.len() implies rest[k] == #[trigger] texts[k] by {
        }
        if forall|k: int| 0 <= k < rest.len() ==> text::blank(#[trigger] rest[k]) {
            if text::blank(texts.last()) {
                assert forall|k: int| 0 <= k < texts.len() implies text::blank(
                    #[trigger] texts[k],
                ) by {
                    if k < rest.len() {
                        assert(text::blank(rest[k]));
                    }
                }
            }
        }
        if forall|k: int| 0 <= k < texts.len() ==> text::blank(#[trigger] texts[k]) {
            assert forall|k: int| 0 <= k < rest.len() implies text::blank(#[trigger] rest[k]) by {
                assert(text::blank(texts[k]));
            }
            assert(text::blank(texts[texts.len() - 1]));
        }
    } else if texts.len() == 1 {
        assert(text::blank(texts[0]) ==> forall|k: int|
            0 <= k < texts.len() ==> text::blank(#[trigger] texts[k]));
    }
}

/// Where a text starts, when texts stand one behind the other with one character between
/// each two of them.
pub open spec fn offset(texts: Seq<Seq<char>>, k: int) -> int
    decreases k,
{
    if k <= 0 {
        0
    } else {
        offset(texts, k - 1) + texts[k - 1].len() + 1
    }
}

proof fn lemma_offset(texts: Seq<Seq<char>>, longer: Seq<Seq<char>>, k: int)
    requires
        0 <= k <= texts.len() <= longer.len(),
        forall|i: int| 0 <= i < texts.len() ==> #[trigger] longer[i] == texts[i],
    ensures
        offset(texts, k) == offset(longer, k),
        k < texts.len() ==> offset(texts, k) + texts[k].len() + 1 <= offset(texts, texts.len() as int),
        offset(texts, k) >= k,
    decreases texts.len() - k,
{
    lemma_offset_same(texts, longer, k);
    if k < texts.len() {
        lemma_offset(texts, longer, k + 1);
        assert(offset(texts, k + 1) == offset(texts, k) + texts[k].len() + 1);
        if k + 1 < texts.len() {
            assert(texts[k + 1].len() >= 0);
        }
    }
}

proof fn lemma_offset_same(texts: Seq<Seq<char>>, longer: Seq<Seq<char>>, k: int)
    requires
        0 <= k <= texts.len() <= longer.len(),
        forall|i: int| 0 <= i < texts.len() ==> #[trigger] longer[i] == texts[i],
    ensures
        offset(texts, k) == offset(longer, k),
        offset(texts, k) >= k,
    decreases k,
{
    if k > 0 {
        lemma_offset_same(texts, longer, k - 1);
        assert(longer[k - 1] == texts[k - 1]);
    }
}

/// Texts with a space between each two of them hold each of the texts where it starts.
proof fn lemma_joined(texts: Seq<Seq<char>>)
    requires
        texts.len() > 0,
    ensures
        joined(texts).len() == offset(texts, texts.len() as int) - 1,
        forall|k: int, i: int|
            0 <= k < texts.len() && 0 <= i < texts[k].len() ==> joined(texts)[offset(texts, k) + i]
                == #[trigger] texts[k][i],
        forall|k: int| 0 < k < texts.len() ==> joined(texts)[#[trigger] offset(texts, k) - 1] == ' ',
    decreases texts.len(),
{
    reveal_strlit(" ");
    reveal_with_fuel(offset, 2);
    if texts.len() > 1 {
        let rest = texts.drop_last();
        let n = rest.len() as int;
        lemma_joined(rest);
        lemma_offset(rest, texts, n);
        assert(joined(texts).len() == offset(texts, n) + texts[n].len());
        assert forall|k: int, i: int| 0 <= k < texts.len() && 0 <= i < texts[k].len() implies joined(
            texts,
        )[offset(texts, k) + i] == #[trigger] texts[k][i] by {
            if k < n {
                lemma_offset(rest, texts, k);
                assert(rest[k][i] == texts[k][i]);
                assert(joined(rest)[offset(rest, k) + i] == rest[k][i]);
            }
        }
        assert forall|k: int| 0 < k < texts.len() implies joined(texts)[#[trigger] offset(texts, k)
            - 1] == ' ' by {
            if k < n {
                lemma_offset(rest, texts, k);
                assert(joined(rest)[offset(rest, k) - 1] == ' ');
            }
        }
    }
}

/// A message whose parts are all texts is read as these texts, in order, with one space
/// between each two of them: none is lost, none is changed and nothing else comes in. Where
/// all of them are blank, there is no message.
pub proof fn law_text_parts(
    params: JsonView,
    message: JsonView,
    parts: Seq<JsonView>,
    texts: Seq<Seq<char>>,
)
    requires
        params.get("message"@) == Some(message),
        message.get("parts"@) == Some(JsonView::Array(parts)),
        parts.len() == texts.len(),
        forall|k: int|
            0 <= k < parts.len() ==> {
                &&& (#[trigger] parts[k]).get("text"@) == Some(JsonView::Text(texts[k]))
                &&& parts[k].get("kind"@) matches Some(JsonView::Text(kind)) ==> kind == "text"@
            },
    ensures
        message_text(params) is None <==> forall|k: int, i: int|
            0 <= k < texts.len() && 0 <= i < texts[k].len() ==> text::is_white_space(
                #[trigger] texts[k][i],
            ),
        message_text(params) matches Some(s) ==> {
            &&& s.len() == offset(texts, texts.len() as int) - 1
            &&& forall|k: int, i: int|
                0 <= k < texts.len() && 0 <= i < texts[k].len() ==> s[offset(texts, k) + i]
                    == #[trigger] texts[k][i]
            &&& forall|k: int| 0 < k < texts.len() ==> s[#[trigger] offset(texts, k) - 1] == ' '
        },
{
    lemma_parts_path(params);
    assert forall|i: int| 0 <= i < parts.len() implies part_text(#[trigger] parts[i]) == Some(
        texts[i],
    ) by {
    }
    lemma_part_texts_all(parts, texts);
    lemma_joined_blank(texts);
    if texts.len() > 0 {
        lemma_joined(texts);
    }
    if forall|k: int| 0 <= k < texts.len() ==> text::blank(#[trigger] texts[k]) {
        assert forall|k: int, i: int|
            0 <= k < texts.len() && 0 <= i < texts[k].len() implies text::is_white_space(
            #[trigger] texts[k][i],
        ) by {
            assert(text::blank(texts[k]));
        }
    }
    if forall|k: int, i: int|
        0 <= k < texts.len() && 0 <= i < texts[k].len() ==> text::is_white_space(
            #[trigger] texts[k][i],
        ) {
        assert forall|k: int| 0 <= k < texts.len() implies text::blank(#[trigger] texts[k]) by {
            assert forall|i: int| 0 <= i < texts[k].len() implies #[trigger] text::is_white_space(
                texts[k][i],
            ) by {
                let c = texts[k][i];
            }
        }
    }
}

/// A part that is no text, because it is of another kind or its text is missing, makes no
/// difference to how a message is read, wherever it stands.
pub proof fn law_other_parts(
    params: JsonView,
    message: JsonView,
    other_params: JsonView,
    other_message: JsonView,
    front: Seq<JsonView>,
    part: JsonView,
    back: Seq<JsonView>,
)
    requires
        params.get("message"@) == Some(message),
        message.get("parts"@) == Some(JsonView::Array(front + seq![part] + back)),
        other_params.get("message"@) == Some(other_message),
        other_message.get("parts"@) == Some(JsonView::Array(front + back)),
        (part.get("kind"@) matches Some(JsonView::Text(kind)) && kind != "text"@) || !(part.get(
            "text"@,
        ) matches Some(JsonView::Text(_))),
    ensures
        message_text(params) == message_text(other_params),
{
    lemma_parts_path(params);
    lemma_parts_path(other_params);
    assert(part_text(part) is None);
    assert(seq![part].drop_last() =~= Seq::<JsonView>::empty());
    assert(part_texts(seq![part]) =~= Seq::<Seq<char>>::empty()) by {
        reveal_with_fuel(part_texts, 2);
    }
    lemma_part_texts_add(front, seq![part]);
    lemma_part_texts_add(front + seq![part], back);
    lemma_part_texts_add(front, back);
    assert(part_texts(front) + part_texts(seq![part]) =~= part_texts(front));
}

/// A further text part comes behind what was read before, after one space.
pub proof fn law_further_part(
    params: JsonView,
    message: JsonView,
    longer_params: JsonView,
    longer_message: JsonView,
    parts: Seq<JsonView>,
    part: JsonView,
    more: Seq<char>,
    read: Seq<char>,
)
    requires
        params.get("message"@) == Some(message),
        message.get("parts"@) == Some(JsonView::Array(parts)),
        longer_params.get("message"@) == Some(longer_message),
        longer_message.get("parts"@) == Some(JsonView::Array(parts.push(part))),
        part.get("text"@) == Some(JsonView::Text(more)),
        part.get("kind"@) matches Some(JsonView::Text(kind)) ==> kind == "text"@,
        message_text(params) == Some(read),
    ensures
        message_text(longer_params) == Some(read.push(' ') + more),
{
    lemma_parts_path(params);
    lemma_parts_path(longer_params);
    reveal_strlit(" ");
    let texts = part_texts(parts);
    assert(part_text(part) == Some(more));
    assert(parts.push(part).drop_last() =~= parts);
    assert(part_texts(parts.push(part)) == texts.push(more));
    assert(texts.push(more).drop_last() =~= texts);
    lemma_joined_blank(texts);
    lemma_joined_blank(texts.push(more));
    assert(joined(texts) == read);
    assert(texts.len() > 0);
    assert(joined(texts.push(more)) == joined(texts) + " "@ + more);
    assert(joined(texts) + " "@ + more =~= read.push(' ') + more);
    text::law_blank(read, " "@ + more, ' ');
    assert(read + (" "@ + more) =~= read.push(' ') + more);
}

/// A message that is a plain text is read as it is. There is none where the message is
/// neither a text nor has a list of parts.
pub proof fn law_plain_message(params: JsonView, plain: Seq<char>)
    ensures
        params.get("message"@) == Some(JsonView::Text(plain)) ==> message_text(params) == Some(
            plain,
        ),
        params.get("message"@) is None ==> message_text(params) is None,
        params.get("message"@) matches Some(message) ==> !(message is Text) && !(message.get(
            "parts"@,
        ) matches Some(JsonView::Array(_))) ==> message_text(params) is None,
{
    lemma_parts_path(params);
}

} // verus!
