//! What holds of the creation of a note as a whole, whatever Evernote answers.
use vstd::prelude::*;

use crate::evernote_client::{
    existing_note, first_note_todo, looked_up_notebook, placed_todo, retryable,
    search_for, todo_after_create, todo_after_find, todo_after_notebooks,
    todo_after_user_urls, Account, CallError, EvernoteProblem, FoundNote, NoteTodo, NoteView,
    Notebook, CREATE_NOTE_MAX_ATTEMPTS,
};

verus! {

/// What Evernote would answer to each call.
pub struct NoteReplies {
    pub user_urls: Result<Option<String>, String>,
    pub notebooks: Result<Vec<Notebook>, String>,
    /// The answers to the attempts to create the note.
    pub create: spec_fn(nat) -> Result<Option<String>, CallError>,
    /// The answers to the searches for the note, by how many attempts came before.
    pub find: spec_fn(nat) -> Result<Vec<FoundNote>, String>,
}

/// What there is in the end.
pub struct NoteOutcome {
    pub account: Account,
    pub result: Result<Seq<char>, EvernoteProblem>,
    /// The notes that Evernote was asked to create, in order.
    pub sent: Seq<NoteView>,
}

/// What there is in the end, if from the given step on every call is made, and
/// answered as `replies` say.
pub open spec fn note_outcome(account: Account, todo: NoteTodo, replies: NoteReplies) -> NoteOutcome
    decreases note_rank(todo), attempts_left(todo),
{
    match todo {
        NoteTodo::GetUserUrls { note, .. } => {
            let next = Account {
                resolved_note_store_url: match replies.user_urls {
                    Ok(Some(url)) => Some(url@),
                    _ => account.resolved_note_store_url,
                },
                ..account
            };
            note_outcome(next, todo_after_user_urls(next, note, replies.user_urls), replies)
        },
        NoteTodo::ListNotebooks { url, note } => note_outcome(
            Account {
                resolved_notebook_guid: match looked_up_notebook(account, replies.notebooks) {
                    Ok(Some(guid)) => Some(guid),
                    _ => account.resolved_notebook_guid,
                },
                ..account
            },
            todo_after_notebooks(account, url, note, replies.notebooks),
            replies,
        ),
        NoteTodo::CreateNote { url, note, retries } => {
            let rest = note_outcome(
                account,
                todo_after_create(url, note, retries, (replies.create)(retries)),
                replies,
            );
            NoteOutcome { sent: seq![note] + rest.sent, ..rest }
        },
        NoteTodo::Wait { url, note, retries, .. } => note_outcome(
            account,
            NoteTodo::FindNotes { url, search: search_for(note), note, retries },
            replies,
        ),
        NoteTodo::FindNotes { url, note, retries, .. } => if retries < CREATE_NOTE_MAX_ATTEMPTS {
            note_outcome(
                account,
                todo_after_find(url, note, retries, (replies.find)(retries)),
                replies,
            )
        } else {
            NoteOutcome {
                account,
                result: Err(EvernoteProblem::NoteWithoutGuid),
                sent: Seq::empty(),
            }
        },
        NoteTodo::Done { result } => NoteOutcome { account, result, sent: Seq::empty() },
    }
}

/// How far a step is from the attempts to create the note.
pub open spec fn note_rank(todo: NoteTodo) -> nat {
    match todo {
        NoteTodo::GetUserUrls { .. } => 3,
        NoteTodo::ListNotebooks { .. } => 2,
        NoteTodo::CreateNote { .. } | NoteTodo::Wait { .. } | NoteTodo::FindNotes { .. } => 1,
        NoteTodo::Done { .. } => 0,
    }
}

/// How many calls and waits can come before the last attempt is over.
pub open spec fn attempts_left(todo: NoteTodo) -> nat {
    match todo {
        NoteTodo::CreateNote { retries, .. } => left(retries),
        NoteTodo::FindNotes { retries, .. } => left(retries) + 1,
        NoteTodo::Wait { retries, .. } => left(retries) + 2,
        _ => 0,
    }
}

/// Three for each attempt that is left.
pub open spec fn left(retries: nat) -> nat {
    if retries < CREATE_NOTE_MAX_ATTEMPTS {
        (3 * (CREATE_NOTE_MAX_ATTEMPTS - retries)) as nat
    } else {
        0
    }
}

/// A search does not find a note with the given source address.
pub open spec fn not_found(reply: Result<Vec<FoundNote>, String>, source_url: Seq<char>) -> bool {
    reply is Err || existing_note(reply->Ok_0@, source_url) is None
}

/// What holds of the outcome of the attempts that start after `retries` others.
spec fn attempts_hold(
    account: Account,
    note: NoteView,
    retries: nat,
    replies: NoteReplies,
    out: NoteOutcome,
) -> bool {
    &&& out.account == account
    &&& 1 <= out.sent.len() <= CREATE_NOTE_MAX_ATTEMPTS - retries
    &&& forall|i: int| 0 <= i < out.sent.len() ==> #[trigger] out.sent[i] == note
    &&& forall|i: int|
        retries <= i < retries + out.sent.len() ==> (i + 1 < retries + out.sent.len()
            <==> #[trigger] tries_again(i as nat, note.source_url, replies))
    &&& out.result == result_of_last(
        (retries + out.sent.len() - 1) as nat,
        note.source_url,
        replies,
    )
}

proof fn lemma_attempts(
    account: Account,
    url: Seq<char>,
    note: NoteView,
    retries: nat,
    replies: NoteReplies,
)
    requires
        retries < CREATE_NOTE_MAX_ATTEMPTS,
    ensures
        attempts_hold(
            account,
            note,
            retries,
            replies,
            note_outcome(account, NoteTodo::CreateNote { url, note, retries }, replies),
        ),
    decreases CREATE_NOTE_MAX_ATTEMPTS - retries,
{
    reveal_with_fuel(note_outcome, 5);
    let out = note_outcome(account, NoteTodo::CreateNote { url, note, retries }, replies);
    if tries_again(retries, note.source_url, replies) {
        lemma_attempts(account, url, note, retries + 1, replies);
        let rest = note_outcome(
            account,
            NoteTodo::CreateNote { url, note, retries: retries + 1 },
            replies,
        );
        assert(out.sent == seq![note] + rest.sent);
        assert(out.result == rest.result);
    } else {
        assert(out.sent =~= seq![note]);
    }
}

/// What keeps a note from being sent at all: the address of the note store, or then
/// the notebook, was asked for and not found out.
pub open spec fn lookup_problem(account: Account, replies: NoteReplies) -> Option<EvernoteProblem> {
    if account.known_note_store() is None && replies.user_urls is Err {
        Some(EvernoteProblem::UserStore { message: replies.user_urls->Err_0@ })
    } else if account.known_note_store() is None && replies.user_urls->Ok_0 is None {
        Some(EvernoteProblem::NoNoteStoreUrl)
    } else if account.must_look_up_notebook() {
        match looked_up_notebook(account, replies.notebooks) {
            Ok(_) => None,
            Err(problem) => Some(problem),
        }
    } else {
        None
    }
}

/// What becomes of a note when the given attempt, counted from 0, is the last: the
/// GUID in its answer, or an error if there is none in it; after an error that may
/// be transient, the GUID of the note that the search has found; after any other
/// error, and after the last error allowed, that error.
pub open spec fn result_of_last(
    attempt: nat,
    source_url: Seq<char>,
    replies: NoteReplies,
) -> Result<Seq<char>, EvernoteProblem> {
    match (replies.create)(attempt) {
        Ok(Some(guid)) => Ok(guid@),
        Ok(None) => Err(EvernoteProblem::NoteWithoutGuid),
        Err(error) => if retryable(error) && attempt + 1 < CREATE_NOTE_MAX_ATTEMPTS {
            Ok(existing_note((replies.find)(attempt + 1)->Ok_0@, source_url)->0)
        } else {
            Err(EvernoteProblem::Api { message: error.message@ })
        },
    }
}

/// Another attempt follows on the given one, counted from 0: there was an error that
/// may be transient, attempts are left, and the search has not found the note.
pub open spec fn tries_again(attempt: nat, source_url: Seq<char>, replies: NoteReplies) -> bool {
    &&& (replies.create)(attempt) is Err
    &&& retryable((replies.create)(attempt)->Err_0)
    &&& attempt + 1 < CREATE_NOTE_MAX_ATTEMPTS
    &&& not_found((replies.find)(attempt + 1), source_url)
}

/// Whatever Evernote answers:
/// - if the note store or the notebook has to be looked up and is not found, that is
///   the error, and no note is sent; in every other case the note is sent;
/// - it is sent at most three times, each time as it was drafted, in the same
///   notebook;
/// - it is sent again exactly after an error that may be transient, if the search
///   that follows has not found a note with the same source address;
/// - what the last attempt was answered, or what the search after it has found,
///   decides the result;
/// - once it has been sent, neither the note store nor the notebook is looked up
///   again for another note.
pub proof fn lemma_note_created(account: Account, note: NoteView, replies: NoteReplies)
    ensures
        ({
            let out = note_outcome(account, first_note_todo(account, note), replies);
            let sent = out.sent;
            &&& sent.len() <= CREATE_NOTE_MAX_ATTEMPTS
            &&& forall|i: int|
                0 <= i < sent.len() ==> #[trigger] sent[i] == (NoteView {
                    notebook_guid: out.account.notebook(),
                    ..note
                })
            &&& match lookup_problem(account, replies) {
                Some(problem) => {
                    &&& sent.len() == 0
                    &&& out.result == Err::<Seq<char>, EvernoteProblem>(problem)
                },
                None => {
                    &&& sent.len() > 0
                    &&& forall|i: int|
                        0 <= i < sent.len() ==> (i + 1 < sent.len() <==> #[trigger] tries_again(
                            i as nat,
                            note.source_url,
                            replies,
                        ))
                    &&& out.result == result_of_last(
                        (sent.len() - 1) as nat,
                        note.source_url,
                        replies,
                    )
                    &&& forall|other: NoteView|
                        #[trigger] first_note_todo(out.account, other) is CreateNote
                },
            }
        }),
{
    let first = first_note_todo(account, note);
    let out = note_outcome(account, first, replies);
    reveal_with_fuel(note_outcome, 2);
    let located = match account.known_note_store() {
        Some(_) => account,
        None => Account {
            resolved_note_store_url: match replies.user_urls {
                Ok(Some(url)) => Some(url@),
                _ => account.resolved_note_store_url,
            },
            ..account
        },
    };
    if let Some(url) = located.known_note_store() {
        let placed = placed_todo(located, url, note);
        assert(out == note_outcome(located, placed, replies));
        let ready = if located.must_look_up_notebook() {
            Account {
                resolved_notebook_guid: match looked_up_notebook(located, replies.notebooks) {
                    Ok(Some(guid)) => Some(guid),
                    _ => located.resolved_notebook_guid,
                },
                ..located
            }
        } else {
            located
        };
        if !(located.must_look_up_notebook() && looked_up_notebook(located, replies.notebooks)
            is Err) {
            let addressed = NoteView { notebook_guid: ready.notebook(), ..note };
            let create = NoteTodo::CreateNote { url, note: addressed, retries: 0 };
            assert(out == note_outcome(ready, create, replies));
            lemma_attempts(ready, url, addressed, 0, replies);
        }
    }
}

} // verus!
