//! What the contracts see of a value is all that it holds.

use vstd::prelude::*;

use crate::api;
use crate::api::{ApiError, ChatMessage};
use crate::app;
use crate::chars;
use crate::config;
use crate::config::Value;
use crate::loading;
use crate::process;
use crate::process::Output;

verus! {

/// Every piece of a list of texts is seen, in its place.
pub proof fn law_every_piece_is_seen(
    texts: Seq<String>,
    rows: Seq<Vec<char>>,
    views: Seq<&[char]>,
    messages: Seq<ChatMessage>,
)
    ensures
        chars::texts(texts).len() == texts.len(),
        forall|i: int| 0 <= i < texts.len() ==> (#[trigger] chars::texts(texts)[i]) == texts[i]@,
        chars::rows(rows).len() == rows.len(),
        forall|i: int| 0 <= i < rows.len() ==> (#[trigger] chars::rows(rows)[i]) == rows[i]@,
        chars::views(views).len() == views.len(),
        forall|i: int| 0 <= i < views.len() ==> (#[trigger] chars::views(views)[i]) == views[i]@,
        api::messages_view(messages).len() == messages.len(),
        forall|i: int|
            0 <= i < messages.len() ==> (#[trigger] api::messages_view(messages)[i]).role
                == messages[i].role@ && api::messages_view(messages)[i].content
                == messages[i].content@,
{
}

/// A text that is there is seen as it is, and a text that is not there is not
/// seen.
pub proof fn law_an_optional_text_is_seen(piece: String)
    ensures
        chars::optional(Some(piece)) == Some(piece@),
        chars::optional(None) is None,
{
}

/// What an action came to is seen as it is.
pub proof fn law_an_answer_is_seen(
    output: Output,
    content: String,
    status: u16,
    choices: Vec<Option<String>>,
    error: ApiError,
)
    ensures
        process::ran_view(Ok(output)) == Ok::<process::OutputView, Seq<char>>(output@),
        output@.success == output.success && output@.stdout == output.stdout@ && output@.stderr
            == output.stderr@,
        process::ran_view(Err(content)) == Err::<process::OutputView, Seq<char>>(content@),
        loading::done_view(Ok(())) == Ok::<(), Seq<char>>(()),
        loading::done_view(Err(content)) == Err::<(), Seq<char>>(content@),
        loading::read_view(Ok(content)) == Ok::<Seq<char>, Seq<char>>(content@),
        loading::read_view(Err(content)) == Err::<Seq<char>, Seq<char>>(content@),
        app::answer_view(Ok(status)) == Ok::<u16, Seq<char>>(status),
        app::answer_view(Err(content)) == Err::<u16, Seq<char>>(content@),
        app::reply_view(Ok(content)) == Ok::<Seq<char>, api::ApiErrorView>(content@),
        app::reply_view(Err(error)) == Err::<Seq<char>, api::ApiErrorView>(error@),
        api::choices_view(Err(content)) == Err::<Seq<Option<Seq<char>>>, Seq<char>>(content@),
        api::choices_view(Ok(choices)) matches Ok(seen) && seen.len() == choices@.len() && forall|
            i: int,
        |
            0 <= i < seen.len() ==> (#[trigger] seen[i]) == chars::optional(choices@[i]),
{
}

/// Every key and value of a document is seen, in its place.
pub proof fn law_every_entry_is_seen(
    document: Seq<(String, Value)>,
    table: Seq<(String, Option<String>)>,
    items: Seq<Option<String>>,
)
    ensures
        config::document_view(document).len() == document.len(),
        forall|i: int|
            0 <= i < document.len() ==> (#[trigger] config::document_view(document)[i]) == (
                document[i].0@,
                document[i].1@,
            ),
        config::table_view(table).len() == table.len(),
        forall|i: int|
            0 <= i < table.len() ==> (#[trigger] config::table_view(table)[i]) == (
                table[i].0@,
                chars::optional(table[i].1),
            ),
        config::array_view(items).len() == items.len(),
        forall|i: int|
            0 <= i < items.len() ==> (#[trigger] config::array_view(items)[i]) == chars::optional(
                items[i],
            ),
{
}

} // verus!
