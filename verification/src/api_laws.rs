//! What holds of every call to the model.

use vstd::prelude::*;

use crate::api;
use crate::api::{ApiErrorView, ChatView};
use crate::auth::AuthorizationView;
use crate::text;
use crate::text_laws;

verus! {

/// The call goes to the endpoint below the base URL, of which only the slashes
/// at its end are left out.
pub proof fn law_the_call_goes_below_the_base_url(
    chat: ChatView,
    base: Seq<char>,
    slashes: Seq<char>,
)
    requires
        chat.base_url == base + slashes,
        base.len() > 0 ==> base.last() != '/',
        forall|i: int| 0 <= i < slashes.len() ==> (#[trigger] slashes[i]) == '/',
    ensures
        chat.url() == base + "/chat/completions"@,
    decreases slashes.len(),
{
    if slashes.len() > 0 {
        let fewer = slashes.drop_last();
        assert(slashes[slashes.len() - 1] == '/');
        assert forall|i: int| 0 <= i < fewer.len() implies (#[trigger] fewer[i]) == '/' by {
            assert(slashes[i] == '/');
        }
        let shorter = ChatView { base_url: base + fewer, ..chat };
        law_the_call_goes_below_the_base_url(shorter, base, fewer);
        assert((base + slashes).drop_last() == base + fewer);
    } else {
        assert(base + slashes == base);
    }
}

/// A call carries a key as a bearer token, unchanged, and without a key no
/// Authorization header at all.
pub proof fn law_a_call_carries_its_key(chat: ChatView, key: Seq<char>)
    ensures
        chat.authorization == AuthorizationView::NoAuth ==> chat.authorization_header() is None,
        chat.authorization == AuthorizationView::Bearer(key) ==> chat.authorization_header() == Some(
            "Bearer "@ + key,
        ),
{
}

/// A status is a success exactly from 200 to 299.
pub proof fn law_a_status_in_the_two_hundreds_is_a_success(status: u16)
    ensures
        api::is_success(status) <==> status / 100 == 2,
{
}

/// The provider's own message says what was refused. Without one it is the
/// first line of the body, without the white space around it.
pub proof fn law_a_refusal_says_why(
    body: Seq<char>,
    message: Seq<char>,
    line: Seq<char>,
    below: Seq<Seq<char>>,
)
    requires
        text::lines(body) == seq![line] + below,
    ensures
        api::detail_of(body, Some(message)) == message,
        api::detail_of(body, None) == text::trim(line),
        api::detail_of(Seq::empty(), None).len() == 0,
{
    assert(text::lines(body)[0] == line);
    assert(text::lines(Seq::<char>::empty()).len() == 0);
}

/// The reply is the content of the first choice as it stands, whatever the
/// other choices are, unless it is blank.
pub proof fn law_the_reply_is_the_first_choice(
    content: Seq<char>,
    others: Seq<Option<Seq<char>>>,
)
    ensures
        !text::is_blank(content) ==> api::reply_of(Ok(seq![Some(content)] + others)) == Ok::<
            Seq<char>,
            ApiErrorView,
        >(content),
        text::is_blank(content) ==> api::reply_of(Ok(seq![Some(content)] + others)) == Err::<
            Seq<char>,
            ApiErrorView,
        >(ApiErrorView::EmptyMessage),
        api::reply_of(Ok(seq![None::<Seq<char>>] + others)) == Err::<Seq<char>, ApiErrorView>(
            ApiErrorView::EmptyMessage,
        ),
        api::reply_of(Ok(Seq::empty())) == Err::<Seq<char>, ApiErrorView>(ApiErrorView::NoChoices),
        api::reply_of(Err(content)) == Err::<Seq<char>, ApiErrorView>(
            ApiErrorView::Unreadable(content),
        ),
{
    assert((seq![Some(content)] + others)[0] == Some(content));
    assert((seq![None::<Seq<char>>] + others)[0] == None::<Seq<char>>);
}

/// An error of a call says where it went wrong, and passes on whole what the
/// provider or the system said. The status is written in decimal digits.
pub proof fn law_an_api_error_says_what_is_wrong(url: Seq<char>, words: Seq<char>, status: u16)
    ensures
        (ApiErrorView::NotSent { url, cause: words }).message() == "request to "@ + url
            + " failed: "@ + words,
        ApiErrorView::Unreadable(words).message() == "failed to parse API response: "@ + words,
        ApiErrorView::NoChoices.message() == "API returned no choices"@,
        ApiErrorView::EmptyMessage.message() == "API returned an empty message"@,
        (ApiErrorView::Refused { status, detail: words }).message() == "API error (HTTP "@
            + text::decimal(status as nat) + "): "@ + words,
        text_laws::denoted(text::decimal(status as nat)) == status,
{
    text_laws::law_decimal_digits_denote_the_number(status as nat);
}

} // verus!
