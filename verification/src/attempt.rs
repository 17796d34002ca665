use crate::message::{MessageView, WebSocketMessage};
use crate::text::{
    append_decimal, ascii_lowercase, ascii_lowercase_char, contains, contains_text, decimal, fitting_chars, fitting_chars_is_longest,
    lowercase_chars, prefix_within, stands_at,
};
use std::collections::VecDeque;
use vstd::prelude::*;
use vstd::utf8::encode_utf8;

verus! {

broadcast use vstd::std_specs::vecdeque::group_vec_dequeue_axioms;

/// How many sent messages are remembered for a connection. The history goes to the logs, so it
/// has to stay short.
pub const SENT_HISTORY_LIMIT: usize = 50;

/// How many bytes of a text message its summary shows at most.
pub const SUMMARY_BYTE_LIMIT: usize = 256;

/// Whether `text` may hold a credential: one of the tell-tale words stands in it, in any mix of
/// upper and lower case.
pub open spec fn looks_sensitive(text: Seq<char>) -> bool {
    let lower = ascii_lowercase(text);
    ||| contains_text(lower, "api_key"@)
    ||| contains_text(lower, "apikey"@)
    ||| contains_text(lower, "api-secret"@)
    ||| contains_text(lower, "apisecret"@)
    ||| contains_text(lower, "secret"@)
    ||| contains_text(lower, "signature"@)
    ||| contains_text(lower, "passphrase"@)
    ||| contains_text(lower, "token"@)
}

/// The summary of a message of which only the length is shown. `opening` tells the kind.
pub open spec fn length_summary(opening: Seq<char>, length: nat) -> Seq<char> {
    opening + decimal(length) + ")"@
}

/// The summary of `message` for the logs.
///
/// A text message is shown up to [SUMMARY_BYTE_LIMIT] bytes, with an ellipsis where it was cut,
/// unless it looks sensitive. Of a sensitive text, and of any other message, only the length in
/// bytes is shown.
pub open spec fn summary(message: MessageView) -> Seq<char> {
    match message {
        MessageView::Text(text) => if looks_sensitive(text) {
            "Text(len="@ + decimal(encode_utf8(text).len()) + ", redacted=true)"@
        } else {
            let shown = fitting_chars(text, SUMMARY_BYTE_LIMIT as int);
            if shown == text.len() {
                "Text("@ + text + ")"@
            } else {
                "Text("@ + text.take(shown as int) + "…)"@
            }
        },
        MessageView::Binary(data) => length_summary("Binary(len="@, data.len()),
        MessageView::Ping(data) => length_summary("Ping(len="@, data.len()),
        MessageView::Pong(data) => length_summary("Pong(len="@, data.len()),
    }
}

/// `history` with `entry` added at its end. A full history loses its oldest entry first.
pub open spec fn remember(history: Seq<Seq<char>>, entry: Seq<char>) -> Seq<Seq<char>> {
    let kept = if history.len() >= SENT_HISTORY_LIMIT {
        history.drop_first()
    } else {
        history
    };
    kept.push(entry)
}

/// `history` with the summaries of `messages` added one after the other.
pub open spec fn remember_all(history: Seq<Seq<char>>, messages: Seq<MessageView>) -> Seq<Seq<char>>
    decreases messages.len(),
{
    if messages.len() == 0 {
        history
    } else {
        remember(remember_all(history, messages.drop_last()), summary(messages.last()))
    }
}

/// What the strings of a sequence say.
pub open spec fn texts(strings: Seq<String>) -> Seq<Seq<char>> {
    Seq::new(strings.len(), |i: int| strings[i]@)
}

/// What the messages of a sequence say.
pub open spec fn contents(messages: Seq<WebSocketMessage>) -> Seq<MessageView> {
    Seq::new(messages.len(), |i: int| messages[i]@)
}

/// What an optional string says.
pub open spec fn optional_text(string: Option<String>) -> Option<Seq<char>> {
    match string {
        Some(string) => Some(string@),
        None => None,
    }
}

/// What is known of one attempt to connect.
pub struct AttemptView {
    pub url: Seq<char>,
    pub local_addr: Option<Seq<char>>,
    pub peer_addr: Option<Seq<char>>,
    pub sent_messages: Seq<Seq<char>>,
}

impl AttemptView {
    /// The attempt after `message` was sent over its connection.
    pub open spec fn after_sending(self, message: MessageView) -> AttemptView {
        AttemptView { sent_messages: remember(self.sent_messages, summary(message)), ..self }
    }

    /// The history never outgrows its limit.
    pub open spec fn well_formed(self) -> bool {
        self.sent_messages.len() <= SENT_HISTORY_LIMIT
    }
}

/// What is known of one attempt to connect, for the logs.
#[derive(Debug)]
pub struct ConnectionAttemptInfo {
    /// The complete url that was connected to, its prefix included.
    url: String,
    /// The local address of the connection, as text.
    local_addr: Option<String>,
    /// The address of the peer, as text.
    peer_addr: Option<String>,
    /// Summaries of the messages last sent over this connection, the oldest first.
    sent_messages: VecDeque<String>,
}

impl View for ConnectionAttemptInfo {
    type V = AttemptView;

    closed spec fn view(&self) -> AttemptView {
        AttemptView {
            url: self.url@,
            local_addr: optional_text(self.local_addr),
            peer_addr: optional_text(self.peer_addr),
            sent_messages: texts(self.sent_messages@),
        }
    }
}

impl ConnectionAttemptInfo {
    /// An attempt over whose connection nothing was sent yet.
    pub fn new(url: String, local_addr: Option<String>, peer_addr: Option<String>) -> (info: Self)
        ensures
            info@ == (AttemptView {
                url: url@,
                local_addr: optional_text(local_addr),
                peer_addr: optional_text(peer_addr),
                sent_messages: Seq::empty(),
            }),
            info@.well_formed(),
    {
        let info = ConnectionAttemptInfo { url, local_addr, peer_addr, sent_messages: VecDeque::new() };
        assert(info@.sent_messages =~= Seq::empty());
        info
    }

    /// Summarizes `message` for the logs, without what must not get there.
    pub fn summarize_message(message: &WebSocketMessage) -> (result: String)
        ensures
            result@ == summary(message@),
    {
        match message {
            WebSocketMessage::Text(text) => Self::summarize_text(text.as_str()),
            WebSocketMessage::Binary(data) => Self::summarize_length("Binary(len=", data.len()),
            WebSocketMessage::Ping(data) => Self::summarize_length("Ping(len=", data.len()),
            WebSocketMessage::Pong(data) => Self::summarize_length("Pong(len=", data.len()),
        }
    }

    fn summarize_length(opening: &str, length: usize) -> (result: String)
        ensures
            result@ == length_summary(opening@, length as nat),
    {
        let mut result = opening.to_owned();
        append_decimal(&mut result, length);
        result.append(")");
        result
    }

    fn summarize_text(text: &str) -> (result: String)
        ensures
            result@ == summary(MessageView::Text(text@)),
    {
        let lower = lowercase_chars(text);
        if contains(&lower, "api_key") || contains(&lower, "apikey") || contains(&lower, "api-secret")
            || contains(&lower, "apisecret") || contains(&lower, "secret") || contains(&lower, "signature")
            || contains(&lower, "passphrase") || contains(&lower, "token") {
            let mut result = "Text(len=".to_owned();
            append_decimal(&mut result, text.as_bytes().len());
            result.append(", redacted=true)");
            return result;
        }
        let prefix = prefix_within(text, SUMMARY_BYTE_LIMIT);
        let mut result = "Text(".to_owned();
        result.append(prefix);
        proof {
            fitting_chars_is_longest(
                text@,
                SUMMARY_BYTE_LIMIT as int,
                fitting_chars(text@, SUMMARY_BYTE_LIMIT as int),
            );
            assert(prefix@.len() == text@.len() ==> prefix@ =~= text@);
        }
        if prefix.as_bytes().len() == text.as_bytes().len() {
            result.append(")");
        } else {
            result.append("…)");
        }
        result
    }

    /// Adds `message` to the history. A full history loses its oldest entry.
    pub fn record_sent(&mut self, message: &WebSocketMessage)
        ensures
            final(self)@ == old(self)@.after_sending(message@),
            old(self)@.well_formed() ==> final(self)@.well_formed(),
    {
        if self.sent_messages.len() >= SENT_HISTORY_LIMIT {
            self.sent_messages.pop_front();
        }
        self.sent_messages.push_back(Self::summarize_message(message));
        assert(self@.sent_messages =~= remember(old(self)@.sent_messages, summary(message@)));
    }

    /// What is known of the attempt.
    pub fn report(&self) -> (report: AttemptReport)
        ensures
            report@ == self@,
    {
        AttemptReport {
            url: self.url.clone(),
            local_addr: self.local_addr.clone(),
            peer_addr: self.peer_addr.clone(),
            sent_messages: self.sent_messages_snapshot(),
        }
    }

    /// The history, the oldest entry first.
    pub fn sent_messages_snapshot(&self) -> (snapshot: Vec<String>)
        ensures
            texts(snapshot@) == self@.sent_messages,
    {
        let mut snapshot: Vec<String> = Vec::new();
        let mut i: usize = 0;
        while i < self.sent_messages.len()
            invariant
                i <= self.sent_messages@.len(),
                snapshot@.len() == i,
                forall|j: int| 0 <= j < i ==> snapshot@[j]@ == self.sent_messages@[j]@,
            decreases self.sent_messages@.len() - i,
        {
            snapshot.push(self.sent_messages[i].clone());
            i += 1;
        }
        assert(texts(snapshot@) =~= self@.sent_messages);
        snapshot
    }
}

/// What is known of an attempt to connect at one moment.
#[derive(Debug)]
pub struct AttemptReport {
    pub url: String,
    pub local_addr: Option<String>,
    pub peer_addr: Option<String>,
    pub sent_messages: Vec<String>,
}

impl View for AttemptReport {
    type V = AttemptView;

    open spec fn view(&self) -> AttemptView {
        AttemptView {
            url: self.url@,
            local_addr: optional_text(self.local_addr),
            peer_addr: optional_text(self.peer_addr),
            sent_messages: texts(self.sent_messages@),
        }
    }
}

/// The last entries of `history`, as many as are remembered.
pub open spec fn recent(history: Seq<Seq<char>>) -> Seq<Seq<char>> {
    if history.len() > SENT_HISTORY_LIMIT {
        history.skip(history.len() - SENT_HISTORY_LIMIT)
    } else {
        history
    }
}

/// The summaries of `messages`.
pub open spec fn summaries(messages: Seq<MessageView>) -> Seq<Seq<char>> {
    Seq::new(messages.len(), |i: int| summary(messages[i]))
}

/// A history holds the summaries of the messages last sent, in the order in which they were sent,
/// and of no more than its limit.
pub proof fn history_holds_what_was_sent_last(history: Seq<Seq<char>>, messages: Seq<MessageView>)
    requires
        history.len() <= SENT_HISTORY_LIMIT,
    ensures
        remember_all(history, messages) == recent(history + summaries(messages)),
        remember_all(history, messages).len() <= SENT_HISTORY_LIMIT,
    decreases messages.len(),
{
    if messages.len() == 0 {
        assert(history + summaries(messages) =~= history);
    } else {
        let earlier = messages.drop_last();
        history_holds_what_was_sent_last(history, earlier);
        assert(summaries(messages) =~= summaries(earlier).push(summary(messages.last())));
        assert(remember_all(history, messages) =~= recent(history + summaries(messages)));
    }
}

/// Of a text that looks sensitive, the summary tells nothing but its length.
pub proof fn sensitive_text_is_not_shown(text: Seq<char>, other: Seq<char>)
    requires
        looks_sensitive(text),
        looks_sensitive(other),
        encode_utf8(text).len() == encode_utf8(other).len(),
    ensures
        summary(MessageView::Text(text)) == summary(MessageView::Text(other)),
{
}

/// Of a message that is not text, the summary tells nothing but its kind and its length.
pub proof fn payload_is_not_shown(data: Seq<u8>, other: Seq<u8>)
    requires
        data.len() == other.len(),
    ensures
        summary(MessageView::Binary(data)) == summary(MessageView::Binary(other)),
        summary(MessageView::Ping(data)) == summary(MessageView::Ping(other)),
        summary(MessageView::Pong(data)) == summary(MessageView::Pong(other)),
{
}

/// The summary of a text that does not look sensitive shows the text from its start, as far as
/// whole characters fit in the limit, and shows all of it where all of it fits.
pub proof fn other_text_is_shown_up_to_the_limit(text: Seq<char>)
    requires
        !looks_sensitive(text),
    ensures
        exists|shown: nat| #![trigger text.take(shown as int)] {
            &&& shown <= text.len()
            &&& encode_utf8(text.take(shown as int)).len() <= SUMMARY_BYTE_LIMIT
            &&& shown < text.len() ==> encode_utf8(text.take(shown as int + 1)).len() > SUMMARY_BYTE_LIMIT
            &&& summary(MessageView::Text(text)) == "Text("@ + text.take(shown as int) + if shown == text.len() {
                ")"@
            } else {
                "…)"@
            }
        },
{
    let shown = fitting_chars(text, SUMMARY_BYTE_LIMIT as int);
    fitting_chars_is_longest(text, SUMMARY_BYTE_LIMIT as int, shown);
    if shown == text.len() {
        assert(text.take(shown as int) =~= text);
    }
}

/// The words that tell of a credential.
pub open spec fn telltale_words() -> Seq<Seq<char>> {
    seq![
        "api_key"@,
        "apikey"@,
        "api-secret"@,
        "apisecret"@,
        "secret"@,
        "signature"@,
        "passphrase"@,
        "token"@,
    ]
}

/// Whether `c` is `small`, or the capital letter to it.
pub open spec fn is_letter_in_any_case(c: char, small: char) -> bool {
    ||| c == small
    ||| 97 <= small as u32 <= 122 && c as u32 + 32 == small as u32
}

/// Whether `word`, in any mix of capital and small letters, stands in `text` from the character at
/// `at` on.
pub open spec fn stands_in_any_case(text: Seq<char>, word: Seq<char>, at: int) -> bool {
    &&& 0 <= at
    &&& at + word.len() <= text.len()
    &&& forall|i: int| 0 <= i < word.len() ==> is_letter_in_any_case(text[at + i], #[trigger] word[i])
}

/// A character made small is one that is no capital letter exactly where it is that character in
/// any case.
proof fn lemma_letter_in_any_case(c: char, small: char)
    requires
        !(65 <= small as u32 <= 90),
    ensures
        ascii_lowercase_char(c) == small <==> is_letter_in_any_case(c, small),
{
}

/// Looking for a word without capitals in a text made small finds it in any case.
proof fn lemma_found_in_any_case(text: Seq<char>, word: Seq<char>)
    requires
        forall|i: int| 0 <= i < word.len() ==> !(65 <= #[trigger] word[i] as u32 <= 90),
    ensures
        contains_text(ascii_lowercase(text), word) <==> exists|at: int| stands_in_any_case(text, word, at),
{
    let lower = ascii_lowercase(text);
    assert forall|at: int| #[trigger] stands_at(lower, word, at) <==> stands_in_any_case(text, word, at) by {
        if stands_at(lower, word, at) {
            assert forall|i: int| 0 <= i < word.len() implies is_letter_in_any_case(
                text[at + i],
                #[trigger] word[i],
            ) by {
                assert(lower.subrange(at, at + word.len())[i] == word[i]);
                lemma_letter_in_any_case(text[at + i], word[i]);
            }
        }
        if stands_in_any_case(text, word, at) {
            assert forall|i: int| 0 <= i < word.len() implies lower.subrange(at, at + word.len())[i]
                == word[i] by {
                lemma_letter_in_any_case(text[at + i], word[i]);
            }
            assert(lower.subrange(at, at + word.len()) =~= word);
        }
    }
    if exists|at: int| stands_in_any_case(text, word, at) {
        let at = choose|at: int| stands_in_any_case(text, word, at);
        assert(stands_at(lower, word, at));
    }
}

/// None of the words that tell of a credential has a capital letter.
proof fn lemma_words_are_small()
    ensures
        forall|which: int, i: int|
            0 <= which < telltale_words().len() && 0 <= i < telltale_words()[which].len() ==> !(65
                <= #[trigger] telltale_words()[which][i] as u32 <= 90),
{
    reveal_strlit("api_key");
    reveal_strlit("apikey");
    reveal_strlit("api-secret");
    reveal_strlit("apisecret");
    reveal_strlit("secret");
    reveal_strlit("signature");
    reveal_strlit("passphrase");
    reveal_strlit("token");
}

/// A text looks sensitive exactly where one of the words stands in it.
proof fn lemma_words_look_sensitive(text: Seq<char>)
    ensures
        looks_sensitive(text) <==> exists|which: int, at: int|
            0 <= which < telltale_words().len() && #[trigger] stands_in_any_case(
                text,
                telltale_words()[which],
                at,
            ),
{
    lemma_words_are_small();
    let words = telltale_words();
    assert forall|which: int| 0 <= which < words.len() implies (contains_text(
        ascii_lowercase(text),
        #[trigger] words[which],
    ) <==> exists|at: int| stands_in_any_case(text, words[which], at)) by {
        lemma_found_in_any_case(text, words[which]);
    }
    assert(words[0] == "api_key"@ && words[1] == "apikey"@ && words[2] == "api-secret"@ && words[3]
        == "apisecret"@);
    assert(words[4] == "secret"@ && words[5] == "signature"@ && words[6] == "passphrase"@ && words[7]
        == "token"@);
    if looks_sensitive(text) {
        let which = choose|which: int|
            0 <= which < words.len() && contains_text(ascii_lowercase(text), #[trigger] words[which]);
        let at = choose|at: int| stands_in_any_case(text, words[which], at);
        assert(stands_in_any_case(text, telltale_words()[which], at));
    }
}

/// One word that tells of a credential is enough, in any mix of capital and small letters and
/// whatever else stands in the text: nothing of the text is shown but its length in bytes.
pub proof fn one_word_hides_the_text(text: String, shown: String, which: int, at: int)
    requires
        call_ensures(
            ConnectionAttemptInfo::summarize_message,
            (&WebSocketMessage::Text(text),),
            shown,
        ),
        0 <= which < telltale_words().len(),
        stands_in_any_case(text@, telltale_words()[which], at),
    ensures
        shown@ == "Text(len="@ + decimal(encode_utf8(text@).len()) + ", redacted=true)"@,
{
    lemma_words_look_sensitive(text@);
}

/// A text in which none of those words stands is shown from its start: all of it where it has at
/// most 256 bytes, else as many whole characters as fit, and an ellipsis.
pub proof fn text_without_such_a_word_is_shown(text: String, shown: String, count: nat)
    requires
        call_ensures(
            ConnectionAttemptInfo::summarize_message,
            (&WebSocketMessage::Text(text),),
            shown,
        ),
        forall|which: int, at: int|
            0 <= which < telltale_words().len() ==> !#[trigger] stands_in_any_case(
                text@,
                telltale_words()[which],
                at,
            ),
        count <= text@.len(),
        encode_utf8(text@.take(count as int)).len() <= 256,
        count < text@.len() ==> encode_utf8(text@.take(count as int + 1)).len() > 256,
    ensures
        count == text@.len() ==> shown@ == "Text("@ + text@ + ")"@,
        count < text@.len() ==> shown@ == "Text("@ + text@.take(count as int) + "…)"@,
{
    lemma_words_look_sensitive(text@);
    fitting_chars_is_longest(text@, 256, count);
}

/// Of a message that is not text, the kind and the length are shown.
pub proof fn length_of_other_messages_is_shown(message: WebSocketMessage, shown: String)
    requires
        call_ensures(ConnectionAttemptInfo::summarize_message, (&message,), shown),
    ensures
        message matches WebSocketMessage::Binary(data) ==> shown@ == "Binary(len="@ + decimal(data@.len())
            + ")"@,
        message matches WebSocketMessage::Ping(data) ==> shown@ == "Ping(len="@ + decimal(data@.len()) + ")"@,
        message matches WebSocketMessage::Pong(data) ==> shown@ == "Pong(len="@ + decimal(data@.len()) + ")"@,
{
}

/// After messages were sent, a history ends with their summaries in order, after what it held
/// before, and nothing is missing but what is older than the last 50.
pub proof fn history_ends_with_what_was_sent(history: Seq<Seq<char>>, messages: Seq<MessageView>)
    requires
        history.len() <= 50,
    ensures
        ({
            let after = remember_all(history, messages);
            let total = history.len() + messages.len();
            &&& after.len() == if total <= 50 {
                total
            } else {
                50
            }
            &&& forall|i: int|
                0 <= i < after.len() ==> #[trigger] after[i] == ({
                    let place = total - after.len() + i;
                    if place < history.len() {
                        history[place]
                    } else {
                        summary(messages[place - history.len()])
                    }
                })
        }),
{
    history_holds_what_was_sent_last(history, messages);
}

/// A message that is recorded comes last in the history. What was there moves up by no more than
/// it has to, and nothing else that is known of the attempt changes.
pub proof fn recorded_message_comes_last(
    info: &mut ConnectionAttemptInfo,
    message: &WebSocketMessage,
    shown: String,
)
    requires
        call_ensures(ConnectionAttemptInfo::record_sent, (info, message), ()),
        call_ensures(ConnectionAttemptInfo::summarize_message, (message,), shown),
        old(info)@.sent_messages.len() <= 50,
    ensures
        ({
            let before = old(info)@.sent_messages;
            let after = final(info)@.sent_messages;
            &&& final(info)@.url == old(info)@.url
            &&& final(info)@.local_addr == old(info)@.local_addr
            &&& final(info)@.peer_addr == old(info)@.peer_addr
            &&& after.last() == shown@
            &&& before.len() < 50 ==> after.drop_last() == before
            &&& before.len() == 50 ==> after.drop_last() == before.skip(1)
        }),
{
    let before = old(info)@.sent_messages;
    let after = final(info)@.sent_messages;
    if before.len() < 50 {
        assert(after.drop_last() =~= before);
    } else {
        assert(after.drop_last() =~= before.skip(1));
    }
}

/// What is told of an attempt over whose connection nothing was sent is what it was made with.
pub proof fn fresh_attempt_is_reported_as_made(
    url: String,
    local_addr: Option<String>,
    peer_addr: Option<String>,
    info: ConnectionAttemptInfo,
    report: AttemptReport,
)
    requires
        call_ensures(ConnectionAttemptInfo::new, (url, local_addr, peer_addr), info),
        call_ensures(ConnectionAttemptInfo::report, (&info,), report),
    ensures
        report.url@ == url@,
        local_addr matches Some(addr) ==> (report.local_addr matches Some(copy) && copy@ == addr@),
        local_addr is None ==> report.local_addr is None,
        peer_addr matches Some(addr) ==> (report.peer_addr matches Some(copy) && copy@ == addr@),
        peer_addr is None ==> report.peer_addr is None,
        report.sent_messages@.len() == 0,
{
    assert(report@.sent_messages.len() == report.sent_messages@.len());
}

/// A report tells the history entry by entry.
pub proof fn report_tells_every_entry(info: &ConnectionAttemptInfo, report: AttemptReport, snapshot: Vec<String>)
    requires
        call_ensures(ConnectionAttemptInfo::report, (info,), report),
        call_ensures(ConnectionAttemptInfo::sent_messages_snapshot, (info,), snapshot),
    ensures
        report.url@ == info@.url,
        report.sent_messages@.len() == info@.sent_messages.len(),
        snapshot@.len() == info@.sent_messages.len(),
        forall|i: int|
            0 <= i < info@.sent_messages.len() ==> #[trigger] info@.sent_messages[i]
                == report.sent_messages@[i]@ && info@.sent_messages[i] == snapshot@[i]@,
{
    assert(report@.sent_messages == texts(report.sent_messages@));
}

} // verus!
