//! What Evernote is asked for a note, call by call, whatever it answers.
use vstd::prelude::*;

use crate::audio::{AudioAttachment, CoverAttachment};
use crate::escape::quote_escaped;
use crate::evernote_client::laws::{
    lemma_note_created, lookup_problem, note_outcome, tries_again, NoteReplies,
};
use crate::evernote_client::{
    draft_note, existing_note, first_note_todo, guid_hyphen, guid_shape, hex_digit_byte,
    looked_up_notebook, notebook_guid_for, notebooks_named, resources_for, retryable, search_for,
    todo_after_create, todo_after_find, todo_after_notebooks, todo_after_user_urls, Account,
    CallError, CallErrorKind, EvernoteProblem, FoundNote, NoteTodo, NoteView, Notebook,
    ResourceView,
};
use crate::sequences::{lemma_filter_picks, picks};
use crate::text::opt_text;

verus! {

// ---------------------------------------------------------------------------
// Calls
// ---------------------------------------------------------------------------
/// The account and the step after a step, if the call is made and answered as
/// `replies` say; nothing comes after the last.
pub open spec fn note_next(account: Account, todo: NoteTodo, replies: NoteReplies) -> (
    Account,
    NoteTodo,
) {
    match todo {
        NoteTodo::GetUserUrls { note, .. } => {
            let next = Account {
                resolved_note_store_url: match replies.user_urls {
                    Ok(Some(url)) => Some(url@),
                    _ => account.resolved_note_store_url,
                },
                ..account
            };
            (next, todo_after_user_urls(next, note, replies.user_urls))
        },
        NoteTodo::ListNotebooks { url, note } => (
            Account {
                resolved_notebook_guid: match looked_up_notebook(account, replies.notebooks) {
                    Ok(Some(guid)) => Some(guid),
                    _ => account.resolved_notebook_guid,
                },
                ..account
            },
            todo_after_notebooks(account, url, note, replies.notebooks),
        ),
        NoteTodo::CreateNote { url, note, retries } => (
            account,
            todo_after_create(url, note, retries, (replies.create)(retries)),
        ),
        NoteTodo::Wait { url, note, retries, .. } => (
            account,
            NoteTodo::FindNotes { url, search: search_for(note), note, retries },
        ),
        NoteTodo::FindNotes { url, note, retries, .. } => (
            account,
            todo_after_find(url, note, retries, (replies.find)(retries)),
        ),
        NoteTodo::Done { .. } => (account, todo),
    }
}

/// The first so many steps from the given one on, or fewer if there are no more.
pub open spec fn note_steps(
    account: Account,
    todo: NoteTodo,
    replies: NoteReplies,
    count: nat,
) -> Seq<NoteTodo>
    decreases count,
{
    if count == 0 {
        Seq::empty()
    } else if todo is Done {
        seq![todo]
    } else {
        let (next, then) = note_next(account, todo, replies);
        seq![todo] + note_steps(next, then, replies, (count - 1) as nat)
    }
}

/// The address of the note store: the one that was given, or that was looked up for an
/// earlier note, or that the user store answers.
pub open spec fn note_store_of(account: Account, replies: NoteReplies) -> Option<Seq<char>> {
    if account.note_store_url is Some {
        account.note_store_url
    } else if account.resolved_note_store_url is Some {
        account.resolved_note_store_url
    } else if replies.user_urls is Ok && replies.user_urls->Ok_0 is Some {
        Some(replies.user_urls->Ok_0->0@)
    } else {
        None
    }
}

/// The notebook of a note: none if none is chosen; the chosen one if it is chosen by
/// its GUID; else the one that was looked up for an earlier note, or the one that the
/// list has under the name.
pub open spec fn notebook_of(
    account: Account,
    replies: NoteReplies,
    notebook: Option<Seq<char>>,
) -> bool {
    match account.notebook_selector {
        None => notebook is None,
        Some(selector) => if guid_shape(selector) {
            notebook == Some(selector)
        } else if account.resolved_notebook_guid is Some {
            notebook == account.resolved_notebook_guid
        } else {
            &&& notebook is Some
            &&& replies.notebooks is Ok
            &&& notebook_guid_for(replies.notebooks->Ok_0@, selector) == Ok::<
                Seq<char>,
                EvernoteProblem,
            >(notebook->0)
        },
    }
}

/// The two notes say the same, but for the notebook.
pub open spec fn same_but_notebook(note: NoteView, other: NoteView) -> bool {
    &&& note.title == other.title
    &&& note.content == other.content
    &&& note.source == other.source
    &&& note.source_url == other.source_url
    &&& note.source_application == other.source_application
    &&& note.tag_names == other.tag_names
    &&& note.resources == other.resources
}

/// The step asks the right store for the right thing.
pub open spec fn right_call(
    account: Account,
    note: NoteView,
    todo: NoteTodo,
    replies: NoteReplies,
) -> bool {
    match todo {
        NoteTodo::GetUserUrls { url, note: asked } => {
            &&& url == account.user_store_url
            &&& account.note_store_url is None
            &&& account.resolved_note_store_url is None
            &&& same_but_notebook(asked, note)
        },
        NoteTodo::ListNotebooks { url, note: asked } => {
            &&& note_store_of(account, replies) == Some(url)
            &&& account.notebook_selector is Some
            &&& !guid_shape(account.notebook_selector->0)
            &&& account.resolved_notebook_guid is None
            &&& same_but_notebook(asked, note)
        },
        NoteTodo::CreateNote { url, note: asked, retries } => {
            &&& note_store_of(account, replies) == Some(url)
            &&& same_but_notebook(asked, note)
            &&& notebook_of(account, replies, asked.notebook_guid)
            &&& retries < 3
        },
        NoteTodo::Wait { url, note: asked, retries, seconds } => {
            &&& note_store_of(account, replies) == Some(url)
            &&& same_but_notebook(asked, note)
            &&& notebook_of(account, replies, asked.notebook_guid)
            &&& retries == 1 && seconds == 10 || retries == 2 && seconds == 30
        },
        NoteTodo::FindNotes { url, search, note: asked, retries } => {
            &&& note_store_of(account, replies) == Some(url)
            &&& same_but_notebook(asked, note)
            &&& notebook_of(account, replies, asked.notebook_guid)
            &&& search.words == "sourceURL:\""@ + quote_escaped(note.source_url) + "\""@
            &&& search.notebook_guid == asked.notebook_guid
            &&& !search.inactive
            &&& search.offset == 0
            &&& search.max_notes == 5
            &&& search.include_attributes
            &&& search.include_notebook_guid
            &&& 0 < retries < 3
        },
        NoteTodo::Done { .. } => true,
    }
}

/// Whatever Evernote answers, each call goes to the right store and asks the right
/// thing: the user store for the address of the note store, only if that is not known;
/// the note store for the notebooks, only if the chosen one is not known; then to
/// create the note, as it was drafted, in the chosen notebook; after an error, when 10
/// or 30 seconds have passed, for a note with the same source address in the same
/// notebook, with its attributes.
pub proof fn lemma_calls_right(
    account: Account,
    note: NoteView,
    replies: NoteReplies,
    count: nat,
    i: int,
)
    requires
        0 <= i < note_steps(account, first_note_todo(account, note), replies, count).len(),
    ensures
        right_call(
            account,
            note,
            note_steps(account, first_note_todo(account, note), replies, count)[i],
            replies,
        ),
{
    lemma_calls_from(
        account,
        account,
        note,
        first_note_todo(account, note),
        replies,
        count,
    );
}

/// A step that an account can come to which started as `start`.
spec fn can_be_at(
    start: Account,
    now: Account,
    note: NoteView,
    todo: NoteTodo,
    replies: NoteReplies,
) -> bool {
    &&& right_call(start, note, todo, replies)
    &&& now.note_store_url == start.note_store_url
    &&& now.user_store_url == start.user_store_url
    &&& now.notebook_selector == start.notebook_selector
    &&& todo is GetUserUrls || todo is ListNotebooks ==> now.resolved_notebook_guid
        == start.resolved_notebook_guid
    &&& todo is GetUserUrls ==> now == start
}

proof fn lemma_calls_from(
    start: Account,
    now: Account,
    note: NoteView,
    todo: NoteTodo,
    replies: NoteReplies,
    count: nat,
)
    requires
        can_be_at(start, now, note, todo, replies),
    ensures
        forall|i: int|
            0 <= i < note_steps(now, todo, replies, count).len() ==> right_call(
                start,
                note,
                #[trigger] note_steps(now, todo, replies, count)[i],
                replies,
            ),
    decreases count,
{
    if count > 0 && !(todo is Done) {
        let (next, then) = note_next(now, todo, replies);
        lemma_search_words(note.source_url);
        assert(can_be_at(start, next, note, then, replies));
        lemma_calls_from(start, next, note, then, replies, (count - 1) as nat);
        let rest = note_steps(next, then, replies, (count - 1) as nat);
        let all = note_steps(now, todo, replies, count);
        assert(all == seq![todo] + rest);
        assert forall|i: int| 0 <= i < all.len() implies right_call(
            start,
            note,
            #[trigger] all[i],
            replies,
        ) by {
            if i > 0 {
                assert(all[i] == rest[i - 1]);
            }
        }
    }
}

proof fn lemma_search_words(source_url: Seq<char>)
    ensures
        crate::evernote_client::source_url_search(source_url) == "sourceURL:\""@ + quote_escaped(
            source_url,
        ) + "\""@,
{
    reveal_strlit("sourceURL:");
    reveal_strlit("\"");
    reveal_strlit("sourceURL:\"");
    assert("sourceURL:"@ + "\""@ =~= "sourceURL:\""@);
    assert(crate::evernote_client::source_url_search(source_url) =~= "sourceURL:\""@
        + quote_escaped(source_url) + "\""@);
}

// ---------------------------------------------------------------------------
// Notes
// ---------------------------------------------------------------------------
/// The resource holds the bytes of an attachment, under its digest, its type and its
/// file name, with its length as far as that can be told.
pub open spec fn holds(
    resource: ResourceView,
    body: Seq<u8>,
    md5: Seq<u8>,
    mime: Seq<char>,
    file_name: Seq<char>,
    attached: bool,
) -> bool {
    &&& resource.body == body
    &&& resource.body_hash == md5
    &&& resource.mime == mime
    &&& resource.file_name == file_name
    &&& resource.attachment == attached
    &&& body.len() <= 0x7fff_ffff ==> resource.size == body.len()
    &&& body.len() > 0x7fff_ffff ==> resource.size == 0x7fff_ffff
}

/// The note that Evernote is asked to create for a track has the given title, content
/// and source address and exactly the tags of the account, whatever cover and audio
/// there are. It has a resource for the cover, shown in the note, if there is a cover,
/// and after that one for the audio, attached to it, if there is audio; no others.
pub proof fn lemma_note_drafted(
    account: Account,
    title: Seq<char>,
    content: Seq<char>,
    source_url: Seq<char>,
    cover: Option<CoverAttachment>,
    audio: Option<AudioAttachment>,
)
    ensures
        ({
            let note = draft_note(
                account,
                title,
                content,
                source_url,
                resources_for(cover, audio),
            );
            let count: int = (if cover is Some {
                1int
            } else {
                0
            }) + (if audio is Some {
                1int
            } else {
                0
            });
            &&& note.title == title
            &&& note.content == content
            &&& note.source_url == source_url
            &&& note.tag_names == account.tag_names
            &&& note.source == "yandex-music-likes-to-evernote"@
            &&& note.source_application == "yandex-music-likes-to-evernote/0.1.0"@
            &&& note.resources is None <==> count == 0
            &&& count > 0 ==> note.resources->0.len() == count
            &&& cover is Some ==> holds(
                note.resources->0[0],
                cover->0.body@,
                cover->0.md5@,
                cover->0.mime@,
                cover->0.file_name@,
                false,
            )
            &&& audio is Some ==> holds(
                note.resources->0[count - 1],
                audio->0.body@,
                audio->0.md5@,
                audio->0.mime@,
                audio->0.file_name@,
                true,
            )
        }),
{
}

/// Every note that is sent for a track, at any attempt, has the title, the content,
/// the source address and the tags that it was to have, and the resources that its
/// cover and audio call for.
pub proof fn lemma_note_sent(
    account: Account,
    title: Seq<char>,
    content: Seq<char>,
    source_url: Seq<char>,
    cover: Option<CoverAttachment>,
    audio: Option<AudioAttachment>,
    replies: NoteReplies,
    count: nat,
    i: int,
)
    requires
        ({
            let draft = draft_note(
                account,
                title,
                content,
                source_url,
                resources_for(cover, audio),
            );
            let steps = note_steps(account, first_note_todo(account, draft), replies, count);
            0 <= i < steps.len() && steps[i] is CreateNote
        }),
    ensures
        ({
            let draft = draft_note(
                account,
                title,
                content,
                source_url,
                resources_for(cover, audio),
            );
            let steps = note_steps(account, first_note_todo(account, draft), replies, count);
            let sent = steps[i]->CreateNote_note;
            &&& sent.title == title
            &&& sent.content == content
            &&& sent.source_url == source_url
            &&& sent.tag_names == account.tag_names
            &&& notebook_of(account, replies, sent.notebook_guid)
            &&& sent.resources is Some <==> cover is Some || audio is Some
            &&& cover is Some ==> sent.resources->0.first().body == cover->0.body@
            &&& audio is Some ==> sent.resources->0.last().body == audio->0.body@
        }),
{
    let draft = draft_note(account, title, content, source_url, resources_for(cover, audio));
    lemma_note_drafted(account, title, content, source_url, cover, audio);
    lemma_calls_right(account, draft, replies, count, i);
}

// ---------------------------------------------------------------------------
// Answers
// ---------------------------------------------------------------------------
/// A note is taken as the one that was created if it is the first that was found with
/// the same source address.
pub proof fn lemma_existing_note(notes: Seq<FoundNote>, source_url: Seq<char>)
    ensures
        match existing_note(notes, source_url) {
            Some(guid) => exists|i: int|
                {
                    &&& 0 <= i < notes.len()
                    &&& opt_text((#[trigger] notes[i]).source_url) == Some(source_url)
                    &&& notes[i].guid@ == guid
                    &&& forall|j: int|
                        0 <= j < i ==> opt_text((#[trigger] notes[j]).source_url) != Some(
                            source_url,
                        )
                },
            None => forall|j: int|
                0 <= j < notes.len() ==> opt_text((#[trigger] notes[j]).source_url) != Some(
                    source_url,
                ),
        },
    decreases notes.len(),
{
    if notes.len() > 0 {
        if opt_text(notes[0].source_url) == Some(source_url) {
            assert(existing_note(notes, source_url) == Some(notes[0].guid@));
        } else {
            let rest = notes.drop_first();
            lemma_existing_note(rest, source_url);
            if let Some(guid) = existing_note(rest, source_url) {
                let i = choose|i: int|
                    {
                        &&& 0 <= i < rest.len()
                        &&& opt_text((#[trigger] rest[i]).source_url) == Some(source_url)
                        &&& rest[i].guid@ == guid
                        &&& forall|j: int|
                            0 <= j < i ==> opt_text((#[trigger] rest[j]).source_url) != Some(
                                source_url,
                            )
                    };
                assert(notes[i + 1] == rest[i]);
                assert(opt_text(notes[i + 1].source_url) == Some(source_url));
                assert forall|j: int| 0 <= j < i + 1 implies opt_text(
                    (#[trigger] notes[j]).source_url,
                ) != Some(source_url) by {
                    if j > 0 {
                        assert(rest[j - 1] == notes[j]);
                    }
                }
            } else {
                assert forall|j: int| 0 <= j < notes.len() implies opt_text(
                    (#[trigger] notes[j]).source_url,
                ) != Some(source_url) by {
                    if j > 0 {
                        assert(rest[j - 1] == notes[j]);
                    }
                }
            }
        }
    }
}

/// A notebook has the given name.
pub open spec fn named(notebook: Notebook, name: Seq<char>) -> bool {
    opt_text(notebook.name) == Some(name)
}

/// A notebook is found by its name exactly if one notebook has that very name, and has
/// a GUID. It is an error if none has it, another if more than one has, and another if
/// the one that has it has no GUID.
pub proof fn lemma_notebook_found(notebooks: Seq<Notebook>, name: Seq<char>)
    ensures
        match notebook_guid_for(notebooks, name) {
            Ok(guid) => exists|i: int|
                {
                    &&& 0 <= i < notebooks.len()
                    &&& named(#[trigger] notebooks[i], name)
                    &&& opt_text(notebooks[i].guid) == Some(guid)
                    &&& forall|j: int|
                        0 <= j < notebooks.len() && named(#[trigger] notebooks[j], name) ==> j == i
                },
            Err(EvernoteProblem::NotebookNotFound { name: missing }) => {
                &&& missing == name
                &&& forall|j: int| 0 <= j < notebooks.len() ==> !named(#[trigger] notebooks[j],
                    name)
            },
            Err(EvernoteProblem::NotebookAmbiguous { name: ambiguous }) => {
                &&& ambiguous == name
                &&& exists|i: int, j: int|
                    0 <= i < j < notebooks.len() && named(#[trigger] notebooks[i], name) && named(
                        #[trigger] notebooks[j],
                        name,
                    )
            },
            Err(EvernoteProblem::NotebookWithoutGuid { name: bare }) => {
                &&& bare == name
                &&& exists|i: int|
                    {
                        &&& 0 <= i < notebooks.len()
                        &&& named(#[trigger] notebooks[i], name)
                        &&& notebooks[i].guid is None
                    }
            },
            Err(_) => false,
        },
{
    let p = |notebook: Notebook| opt_text(notebook.name) == Some(name);
    let f = |notebook: Notebook|
        if p(notebook) {
            Some(notebook)
        } else {
            None
        };
    let found = notebooks_named(notebooks, name);
    let at = lemma_filter_picks(notebooks, p);
    assert(picks(found, notebooks, f, at));
    assert forall|j: int| 0 <= j < notebooks.len() && named(
        #[trigger] notebooks[j],
        name,
    ) implies at.contains(j) by {
        assert(f(notebooks[j]) is Some);
    }
    if found.len() == 1 {
        assert(f(notebooks[at[0]]) == Some(found[0]));
        assert(named(notebooks[at[0]], name));
    } else if found.len() > 1 {
        assert(f(notebooks[at[0]]) == Some(found[0]));
        assert(f(notebooks[at[1]]) == Some(found[1]));
        assert(at[0] < at[1]);
        assert(named(notebooks[at[0]], name) && named(notebooks[at[1]], name));
    }
}

/// A call that failed is made again exactly if it failed on the way or was not
/// understood: only what the service itself refuses is final.
pub proof fn lemma_retryable(error: CallError)
    ensures
        retryable(error) <==> error.kind == CallErrorKind::Transport || error.kind
            == CallErrorKind::Protocol || error.kind == CallErrorKind::Application,
{
}

/// A selector is taken for a GUID exactly if it has 36 characters, with hyphens as the
/// ninth, the fourteenth, the nineteenth and the twenty-fourth, and hexadecimal digits
/// everywhere else.
pub proof fn lemma_guid(s: Seq<char>)
    ensures
        guid_shape(s) <==> {
            &&& s.len() == 36
            &&& forall|i: int|
                0 <= i < 36 ==> if i == 8 || i == 13 || i == 18 || i == 23 {
                    #[trigger] s[i] == '-'
                } else {
                    '0' <= s[i] <= '9' || 'a' <= s[i] <= 'f' || 'A' <= s[i] <= 'F'
                }
        },
{
    let bytes = vstd::utf8::encode_utf8(s);
    if guid_shape(s) {
        let t = Seq::new(36, |i: int| bytes[i] as char);
        assert forall|i: int| 0 <= i < 36 implies bytes[i] <= 0x7f && #[trigger] t[i] as u8
            == bytes[i] && t[i] <= '\u{7f}' by {
            assert(if guid_hyphen(i) {
                bytes[i] == 0x2d
            } else {
                hex_digit_byte(bytes[i])
            });
        }
        assert(vstd::utf8::is_ascii_chars(t));
        vstd::utf8::is_ascii_chars_encode_utf8(t);
        assert(vstd::utf8::encode_utf8(t) =~= bytes);
        vstd::utf8::encode_utf8_decode_utf8(s);
        vstd::utf8::encode_utf8_decode_utf8(t);
        assert(s == t);
        assert forall|i: int| 0 <= i < 36 implies if i == 8 || i == 13 || i == 18 || i == 23 {
            #[trigger] s[i] == '-'
        } else {
            '0' <= s[i] <= '9' || 'a' <= s[i] <= 'f' || 'A' <= s[i] <= 'F'
        } by {
            assert(if guid_hyphen(i) {
                bytes[i] == 0x2d
            } else {
                hex_digit_byte(bytes[i])
            });
        }
    }
    if s.len() == 36 && forall|i: int|
        0 <= i < 36 ==> if i == 8 || i == 13 || i == 18 || i == 23 {
            #[trigger] s[i] == '-'
        } else {
            '0' <= s[i] <= '9' || 'a' <= s[i] <= 'f' || 'A' <= s[i] <= 'F'
        } {
        assert(vstd::utf8::is_ascii_chars(s));
        vstd::utf8::is_ascii_chars_encode_utf8(s);
        assert forall|i: int| 0 <= i < 36 implies if guid_hyphen(i) {
            #[trigger] bytes[i] == 0x2d
        } else {
            hex_digit_byte(bytes[i])
        } by {
            assert(s[i] as u8 == bytes[i]);
        }
    }
}

/// The search has found the note with the given GUID: the first of the notes that it found
/// with the given source address.
pub open spec fn found_by(
    reply: Result<Vec<FoundNote>, String>,
    source_url: Seq<char>,
    guid: Seq<char>,
) -> bool {
    &&& reply is Ok
    &&& exists|k: int|
        {
            &&& 0 <= k < reply->Ok_0@.len()
            &&& (#[trigger] reply->Ok_0@[k]).guid@ == guid
            &&& opt_text(reply->Ok_0@[k].source_url) == Some(source_url)
            &&& forall|j: int|
                0 <= j < k ==> opt_text((#[trigger] reply->Ok_0@[j]).source_url) != Some(
                    source_url,
                )
        }
}

/// The search has failed, or has found no note with the given source address.
pub open spec fn found_none(reply: Result<Vec<FoundNote>, String>, source_url: Seq<char>) -> bool {
    reply is Ok ==> forall|k: int|
        0 <= k < reply->Ok_0@.len() ==> opt_text((#[trigger] reply->Ok_0@[k]).source_url) != Some(
            source_url,
        )
}

/// What becomes of a note, whatever Evernote answers. It is sent at most three times. Every
/// time but the last there was an error that was no refusal, and the search after it has not
/// found a note with the same source address. The result is the GUID that the last attempt
/// was answered with or that the search after it has found; or that there was none in the
/// answer; or the error of the last attempt, if it was a refusal or the third error.
pub proof fn lemma_note_result(account: Account, note: NoteView, replies: NoteReplies)
    ensures
        ({
            let out = note_outcome(account, first_note_todo(account, note), replies);
            let last = (out.sent.len() - 1) as nat;
            let url = note.source_url;
            &&& out.sent.len() <= 3
            &&& out.sent.len() > 0 ==> match (replies.create)(last) {
                Ok(Some(guid)) => out.result == Ok::<Seq<char>, EvernoteProblem>(guid@),
                Ok(None) => out.result == Err::<Seq<char>, EvernoteProblem>(
                    EvernoteProblem::NoteWithoutGuid,
                ),
                Err(error) => match out.result {
                    Ok(guid) => error.kind != CallErrorKind::User && last < 2 && found_by(
                        (replies.find)(last + 1),
                        url,
                        guid,
                    ),
                    Err(problem) => (error.kind == CallErrorKind::User || last == 2) && problem
                        == (EvernoteProblem::Api { message: error.message@ }),
                },
            }
            &&& forall|i: int|
                0 <= i < last && out.sent.len() > 0 ==> {
                    let reply = #[trigger] (replies.create)(i as nat);
                    &&& reply is Err
                    &&& reply->Err_0.kind != CallErrorKind::User
                    &&& found_none((replies.find)((i + 1) as nat), url)
                }
            &&& out.sent.len() == 0 <==> {
                ||| note_store_of(account, replies) is None
                ||| forall|notebook: Option<Seq<char>>| !notebook_of(account, replies, notebook)
            }
            &&& out.sent.len() == 0 ==> out.result is Err
            &&& note_store_of(account, replies) is None ==> match replies.user_urls {
                Ok(_) => out.result == Err::<Seq<char>, EvernoteProblem>(
                    EvernoteProblem::NoNoteStoreUrl,
                ),
                Err(message) => out.result == Err::<Seq<char>, EvernoteProblem>(
                    EvernoteProblem::UserStore { message: message@ },
                ),
            }
            &&& out.sent.len() == 0 && note_store_of(account, replies) is Some ==> match (
            replies.notebooks) {
                Ok(notebooks) => out.result == notebook_guid_for(
                    notebooks@,
                    account.notebook_selector->0,
                ),
                Err(message) => out.result == Err::<Seq<char>, EvernoteProblem>(
                    EvernoteProblem::Api { message: message@ },
                ),
            }
        }),
{
    lemma_note_created(account, note, replies);
    let out = note_outcome(account, first_note_todo(account, note), replies);
    let last = (out.sent.len() - 1) as nat;
    let url = note.source_url;
    let problem = lookup_problem(account, replies);
    if problem is None {
        if let Some(selector) = account.notebook_selector {
            let notebook = if guid_shape(selector) {
                Some(selector)
            } else if account.resolved_notebook_guid is Some {
                account.resolved_notebook_guid
            } else {
                Some(notebook_guid_for(replies.notebooks->Ok_0@, selector)->Ok_0)
            };
            assert(notebook_of(account, replies, notebook));
        } else {
            assert(notebook_of(account, replies, None));
        }
        if let Err(error) = (replies.create)(last) {
            assert(!tries_again(last, url, replies));
            if retryable(error) && last < 2 {
                let notes = (replies.find)(last + 1)->Ok_0@;
                lemma_existing_note(notes, url);
            }
        }
        assert forall|i: int| 0 <= i < last && out.sent.len() > 0 implies {
            let reply = #[trigger] (replies.create)(i as nat);
            &&& reply is Err
            &&& reply->Err_0.kind != CallErrorKind::User
            &&& found_none((replies.find)((i + 1) as nat), url)
        } by {
            assert(tries_again(i as nat, url, replies));
            let reply = (replies.find)((i + 1) as nat);
            if reply is Ok {
                lemma_existing_note(reply->Ok_0@, url);
            }
        }
    }
}

} // verus!
