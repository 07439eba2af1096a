//! The chats that a user has had with the assistant: their titles, who may
//! see them, and their export.

use crate::spreadsheet::{
    lemma_is_unmarked, marked_up, reads_as, row_unmarked, rows_unmarked, rows_writable, sheet_fits, size_of_rows, texts_view, used_rows,
    write_sheet, MAX_SAVED,
};
use crate::text::{cat, push_text, same, slice_text, to_chars, views};
use vstd::prelude::*;

verus! {

/// The characters of a question that its chat's title shows.
pub const TITLE_LEN: usize = 60;

/// The title of a chat: its first question, cut where it is long.
pub open spec fn title_of(question: Seq<char>) -> Seq<char> {
    if question.len() > TITLE_LEN {
        question.take(TITLE_LEN as int) + "…"@
    } else {
        question
    }
}

/// The title of a chat.
pub fn session_title(question: &str) -> (s: String)
    ensures
        s@ == title_of(question@),
{
    let v = to_chars(question);
    if v.len() > TITLE_LEN {
        let head = slice_text(&v, 0, TITLE_LEN);
        assert(head@ =~= question@.take(TITLE_LEN as int));
        cat(head.as_str(), "…")
    } else {
        question.to_owned()
    }
}

/// A title is never longer than its limit and the mark of the cut, and a
/// question that fits is its own title.
pub proof fn law_titles_are_short(question: Seq<char>)
    ensures
        title_of(question).len() <= TITLE_LEN + 1,
        question.len() <= TITLE_LEN ==> title_of(question) == question,
{
    reveal_strlit("…");
}

/// A chat as stored.
#[derive(Debug)]
pub struct ChatSession {
    pub id: String,
    pub business_id: String,
    pub user_id: String,
    pub title: String,
    pub created_at: String,
}

/// Whether the chat is one of that user in that business.
pub open spec fn owned_by(s: ChatSession, business_id: Seq<char>, user_id: Seq<char>, session_id: Seq<char>) -> bool {
    s.id@ == session_id && s.business_id@ == business_id && s.user_id@ == user_id
}

/// There is no such chat of that user.
#[derive(Clone, Copy, PartialEq, Eq, Structural, Debug)]
pub struct ChatNotFound;

/// The sentence for a chat that is not there, or not the user's.
pub fn chat_error_text() -> (s: &'static str)
    ensures
        s@ == "chat session not found"@,
{
    "chat session not found"
}

/// Lets a user at a chat only where it is their own: one of somebody else is
/// answered like one that does not exist.
pub fn assert_owns_session(
    sessions: &Vec<ChatSession>,
    business_id: &str,
    user_id: &str,
    session_id: &str,
) -> (r: Result<(), ChatNotFound>)
    ensures
        r is Ok <==> exists|i: int|
            0 <= i < sessions@.len() && owned_by(#[trigger] sessions@[i], business_id@, user_id@, session_id@),
{
    let mut i: usize = 0;
    while i < sessions.len()
        invariant
            i <= sessions@.len(),
            forall|k: int|
                0 <= k < i ==> !owned_by(#[trigger] sessions@[k], business_id@, user_id@, session_id@),
        decreases sessions@.len() - i,
    {
        let s = &sessions[i];
        if same(s.id.as_str(), session_id) && same(s.business_id.as_str(), business_id) && same(
            s.user_id.as_str(),
            user_id,
        ) {
            return Ok(());
        }
        i = i + 1;
    }
    Err(ChatNotFound)
}

/// The title that a new question gives a chat: only the first one of it.
pub fn record_turn(messages_before: u64, question: &str) -> (title: Option<String>)
    ensures
        match title {
            Some(t) => messages_before == 0 && t@ == title_of(question@),
            None => messages_before != 0,
        },
{
    if messages_before == 0 {
        Some(session_title(question))
    } else {
        None
    }
}

/// The title of a chat without questions, new or cleared.
pub fn empty_title() -> (s: &'static str)
    ensures
        s@ == "New chat"@,
{
    "New chat"
}

// ---------------------------------------------------------------------------
// Export
// ---------------------------------------------------------------------------

/// A message of a chat.
#[derive(Debug)]
pub struct ChatMessage {
    pub role: String,
    pub content: String,
    pub created_at: String,
}

/// A chat with its messages, in the order in which they were sent.
#[derive(Debug)]
pub struct ChatHistory {
    pub title: String,
    pub created_at: String,
    pub messages: Vec<ChatMessage>,
}

/// The row of a message.
pub open spec fn message_row(h: ChatHistory, m: ChatMessage) -> Seq<Seq<char>> {
    seq![h.title@, h.created_at@, m.role@, m.content@, m.created_at@]
}

/// The rows of a chat: one for each message, and one that says so where there
/// are none.
pub open spec fn history_rows(h: ChatHistory) -> Seq<Seq<Seq<char>>> {
    if h.messages@.len() == 0 {
        seq![seq![h.title@, h.created_at@, ""@, "(no messages)"@, ""@]]
    } else {
        Seq::new(h.messages@.len(), |i: int| message_row(h, h.messages@[i]))
    }
}

/// The rows of all the chats, one after the other.
pub open spec fn export_rows_of(list: Seq<ChatHistory>) -> Seq<Seq<Seq<char>>>
    decreases list.len(),
{
    if list.len() == 0 {
        Seq::empty()
    } else {
        export_rows_of(list.drop_last()) + history_rows(list.last())
    }
}

/// The header row of the export.
pub open spec fn export_header() -> Seq<Seq<char>> {
    seq!["Session"@, "Started"@, "Role"@, "Message"@, "Sent at"@]
}

fn five(a: &str, b: &str, c: &str, d: &str, e: &str) -> (row: Vec<String>)
    ensures
        views(row@) == seq![a@, b@, c@, d@, e@],
{
    let mut row: Vec<String> = Vec::new();
    push_text(&mut row, a);
    push_text(&mut row, b);
    push_text(&mut row, c);
    push_text(&mut row, d);
    push_text(&mut row, e);
    assert(views(row@) =~= seq![a@, b@, c@, d@, e@]);
    row
}

fn push_history(rows: &mut Vec<Vec<String>>, h: &ChatHistory)
    ensures
        texts_view(final(rows)@) == texts_view(old(rows)@) + history_rows(*h),
{
    let ghost before = texts_view(rows@);
    let ghost all = history_rows(*h);
    if h.messages.len() == 0 {
        rows.push(five(h.title.as_str(), h.created_at.as_str(), "", "(no messages)", ""));
        assert(texts_view(rows@) =~= before + all);
        return ;
    }
    let mut i: usize = 0;
    assert(before + all.take(0) =~= before);
    while i < h.messages.len()
        invariant
            i <= h.messages@.len(),
            h.messages@.len() > 0,
            all == history_rows(*h),
            texts_view(rows@) == before + all.take(i as int),
        decreases h.messages@.len() - i,
    {
        let m = &h.messages[i];
        let ghost now = rows@;
        let row = five(
            h.title.as_str(),
            h.created_at.as_str(),
            m.role.as_str(),
            m.content.as_str(),
            m.created_at.as_str(),
        );
        rows.push(row);
        assert(texts_view(rows@) =~= texts_view(now).push(views(row@)));
        assert(before + all.take(i + 1) =~= (before + all.take(i as int)).push(all[i as int]));
        i = i + 1;
    }
    assert(all.take(all.len() as int) =~= all);
}

/// The rows of all the chats.
pub fn export_rows(list: &Vec<ChatHistory>) -> (rows: Vec<Vec<String>>)
    ensures
        texts_view(rows@) == export_rows_of(list@),
{
    let mut rows: Vec<Vec<String>> = Vec::new();
    let mut i: usize = 0;
    assert(list@.take(0) =~= Seq::<ChatHistory>::empty());
    assert(texts_view(rows@) =~= Seq::<Seq<Seq<char>>>::empty());
    while i < list.len()
        invariant
            i <= list@.len(),
            texts_view(rows@) == export_rows_of(list@.take(i as int)),
        decreases list@.len() - i,
    {
        assert(list@.take(i + 1).drop_last() =~= list@.take(i as int));
        assert(list@.take(i + 1).last() == list@[i as int]);
        push_history(&mut rows, &list[i]);
        i = i + 1;
    }
    assert(list@.take(list@.len() as int) =~= list@);
    rows
}

/// A file with all the chats of a user. `None` where there is no room for the
/// texts in a sheet; else a file, unless the texts are over `MAX_SAVED` in size
/// and it cannot be saved.
/// What is read back from the file are the rows, unless a text is taken for one
/// that holds its own markup.
pub fn export_to_xlsx(list: &Vec<ChatHistory>) -> (r: Option<Vec<u8>>)
    requires
        rows_writable(export_rows_of(list@)),
    ensures
        ({
            let sheet = seq![export_header()] + export_rows_of(list@);
            &&& r is Some ==> sheet_fits(sheet)
            &&& sheet_fits(sheet) && size_of_rows(sheet) <= MAX_SAVED ==> r is Some
            &&& r matches Some(bytes) ==> rows_unmarked(export_rows_of(list@)) ==> reads_as(bytes@, sheet)
        }),
{
    proof {
        reveal_strlit("Session");
        reveal_strlit("Started");
        reveal_strlit("Role");
        reveal_strlit("Message");
        reveal_strlit("Sent at");
        reveal_strlit("AI Chat History");
    }
    let header = five("Session", "Started", "Role", "Message", "Sent at");
    let rows = export_rows(list);
    let mut widths: Vec<u8> = Vec::new();
    widths.push(24);
    widths.push(20);
    widths.push(8);
    widths.push(80);
    widths.push(20);
    proof {
        let sheet = seq![export_header()] + export_rows_of(list@);
        lemma_export_has_five_columns(list@);
        assert forall|i: int| 0 <= i < sheet.len() implies (#[trigger] sheet[i]).len() == 5 by {
            if i > 0 {
                assert(sheet[i] == export_rows_of(list@)[i - 1]);
            }
        }
        if rows_unmarked(export_rows_of(list@)) {
            assert forall|i: int| 0 <= i < sheet.len() implies row_unmarked(#[trigger] sheet[i]) by {
                if i > 0 {
                    assert(sheet[i] == export_rows_of(list@)[i - 1]);
                } else {
                    assert forall|j: int| 0 <= j < sheet[0].len() implies !marked_up(#[trigger] sheet[0][j]) by {
                        lemma_is_unmarked(sheet[0][j]);
                    }
                }
            }
        }
    }
    write_sheet("AI Chat History", "#D9E1F2", &header, &rows, &widths)
}

proof fn lemma_export_has_five_columns(list: Seq<ChatHistory>)
    ensures
        forall|i: int| 0 <= i < export_rows_of(list).len() ==> (#[trigger] export_rows_of(list)[i]).len() == 5,
    decreases list.len(),
{
    if list.len() > 0 {
        lemma_export_has_five_columns(list.drop_last());
        let before = export_rows_of(list.drop_last());
        let last = history_rows(list.last());
        assert forall|i: int| 0 <= i < export_rows_of(list).len() implies (#[trigger] export_rows_of(list)[i]).len()
            == 5 by {
            if i < before.len() {
                assert(export_rows_of(list)[i] == before[i]);
            } else {
                assert(export_rows_of(list)[i] == last[i - before.len()]);
            }
        }
    }
}

/// Nothing is left out of the export: every message of every chat has a row, and
/// a chat without messages has one of its own.
pub proof fn law_every_chat_is_exported(list: Seq<ChatHistory>, chat: int, row: int)
    requires
        0 <= chat < list.len(),
        0 <= row < history_rows(list[chat]).len(),
    ensures
        history_rows(list[chat]).len() == if list[chat].messages@.len() == 0 {
            1
        } else {
            list[chat].messages@.len()
        },
        export_rows_of(list).contains(history_rows(list[chat])[row]),
    decreases list.len(),
{
    let before = export_rows_of(list.drop_last());
    let last = history_rows(list.last());
    let all = export_rows_of(list);
    assert(all == before + last);
    if chat < list.len() - 1 {
        law_every_chat_is_exported(list.drop_last(), chat, row);
        let k = choose|k: int| 0 <= k < before.len() && before[k] == history_rows(list[chat])[row];
        assert(all[k] == before[k]);
    } else {
        assert(all[before.len() + row] == last[row]);
    }
}

/// Where every chat has the time at which it began, no row of the export is
/// blank: all of them are read back.
pub proof fn law_whole_export_is_read(list: Seq<ChatHistory>)
    requires
        forall|i: int| 0 <= i < list.len() ==> (#[trigger] list[i]).created_at@.len() > 0,
    ensures
        ({
            let sheet = seq![export_header()] + export_rows_of(list);
            used_rows(sheet) == sheet
        }),
{
    let sheet = seq![export_header()] + export_rows_of(list);
    if list.len() == 0 {
        reveal_strlit("Session");
        assert(sheet.last()[0].len() > 0);
    } else {
        let h = list.last();
        let rows = history_rows(h);
        assert(sheet.last() == rows.last());
        assert(h == list[list.len() - 1]);
        assert(rows.last()[1] == h.created_at@);
    }
}

/// A long question is cut behind its sixtieth character and marked so; what the
/// title shows of it is how the question begins.
pub proof fn law_titles_begin_as_the_question_does(question: Seq<char>)
    ensures
        question.len() > 60 ==> title_of(question).len() == 61 && title_of(question).take(60) == question.take(60)
            && title_of(question)[60] == '…',
        question.len() <= 60 ==> title_of(question) == question,
{
    reveal_strlit("…");
    if question.len() > 60 {
        assert(title_of(question).take(60) =~= question.take(60));
    }
}

/// A chat is its user's own: that user finds it in that business by its id, and no
/// one else does, not in another business either.
pub proof fn law_chats_are_private(s: ChatSession, business_id: Seq<char>, user_id: Seq<char>, session_id: Seq<char>)
    ensures
        owned_by(s, s.business_id@, s.user_id@, s.id@),
        user_id != s.user_id@ ==> !owned_by(s, business_id, user_id, session_id),
        business_id != s.business_id@ ==> !owned_by(s, business_id, user_id, session_id),
        session_id != s.id@ ==> !owned_by(s, business_id, user_id, session_id),
{
}

/// Each column of the export holds what its header says.
pub proof fn law_columns_hold_what_their_header_says(h: ChatHistory, i: int, column: int)
    requires
        0 <= i < h.messages@.len(),
        0 <= column < 5,
    ensures
        ({
            let row = history_rows(h)[i];
            let header = export_header();
            let m = h.messages@[i];
            &&& row.len() == 5 && header.len() == 5
            &&& header[column] == "Session"@ ==> row[column] == h.title@
            &&& header[column] == "Started"@ ==> row[column] == h.created_at@
            &&& header[column] == "Role"@ ==> row[column] == m.role@
            &&& header[column] == "Message"@ ==> row[column] == m.content@
            &&& header[column] == "Sent at"@ ==> row[column] == m.created_at@
            &&& header.contains("Session"@) && header.contains("Started"@) && header.contains("Role"@)
                && header.contains("Message"@) && header.contains("Sent at"@)
        }),
{
    reveal_strlit("Session");
    reveal_strlit("Started");
    reveal_strlit("Role");
    reveal_strlit("Message");
    reveal_strlit("Sent at");
    let header = export_header();
    assert(header[0] == "Session"@ && header[1] == "Started"@ && header[2] == "Role"@ && header[3] == "Message"@
        && header[4] == "Sent at"@);
    assert("Session"@[1] == 'e' && "Started"@[1] == 't' && "Message"@[0] == 'M' && "Sent at"@[1] == 'e'
        && "Session"@[2] == 's' && "Sent at"@[2] == 'n');
    assert("Session"@[0] == 'S' && "Role"@.len() == 4 && "Session"@.len() == 7 && "Started"@.len() == 7
        && "Message"@.len() == 7 && "Sent at"@.len() == 7);
}

} // verus!
