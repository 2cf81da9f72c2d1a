//! Operations on a storage backend, one call at a time.
//!
//! An operation is a [`Step`]: the next call on the backend, and what becomes
//! of the operation once the call is answered. Whoever drives it makes the
//! call, hands the answer to `resume`, and goes on with the step that comes
//! back, until that is a [`Step::Return`].

use crate::error::{BlobNotFoundError, BlobStoreError, ErrorView};
use crate::outside::{backend_not_found, is_not_found};
use vstd::prelude::*;

verus! {

/// A call on the backend that is answered with success or an error alone.
#[derive(Debug)]
pub enum Call {
    /// Put `bytes` at `path`, over whatever is there.
    Write { path: String, bytes: Vec<u8> },
    /// Take away what is at `path`, if anything is.
    Delete { path: String },
    /// Move what is at `from` to `to`, over whatever is there.
    Rename { from: String, to: String },
    /// Take away all that has a path which starts with `path`.
    RemoveAll { path: String },
}

/// What becomes of an operation after a [`Call`].
#[derive(Debug)]
pub enum AfterCall {
    /// It ends as the call did.
    Finish,
    /// It ends as the call did, and gives out `key`.
    FinishKey { key: String },
    /// However the call ended, each path of `pending` is deleted, the last one
    /// first.
    DeleteRest { pending: Vec<String> },
    /// If the call succeeded, each path of `pending` is removed with all that
    /// starts with it, the last one first.
    RemoveRest { pending: Vec<String> },
}

/// What becomes of an operation after a test for existence.
#[derive(Debug)]
pub enum AfterExists {
    /// It ends with the answer.
    Finish,
    /// What is at `from` is deleted if something is at `to`, and else moved
    /// there.
    MakePermanent { from: String, to: String },
}

/// What becomes of an operation after a read.
#[derive(Debug)]
pub enum AfterRead {
    /// It ends with the bytes.
    Finish,
}

/// What an operation gives back.
#[derive(Debug)]
pub enum Outcome {
    Done,
    Key(String),
    Flag(bool),
    Content(Vec<u8>),
}

/// Where an operation stands.
#[derive(Debug)]
pub enum Step {
    /// Make the call.
    Perform(Call, AfterCall),
    /// Ask whether something is at the path.
    Exists(String, AfterExists),
    /// Read what is at the path.
    Read(String, AfterRead),
    /// The operation is over.
    Return(Result<Outcome, BlobStoreError>),
}

/// A [`Call`], with text in place of strings.
pub enum CallView {
    Write { path: Seq<char>, bytes: Seq<u8> },
    Delete { path: Seq<char> },
    Rename { from: Seq<char>, to: Seq<char> },
    RemoveAll { path: Seq<char> },
}

impl View for Call {
    type V = CallView;

    open spec fn view(&self) -> CallView {
        match *self {
            Call::Write { path, bytes } => CallView::Write { path: path@, bytes: bytes@ },
            Call::Delete { path } => CallView::Delete { path: path@ },
            Call::Rename { from, to } => CallView::Rename { from: from@, to: to@ },
            Call::RemoveAll { path } => CallView::RemoveAll { path: path@ },
        }
    }
}

/// The texts of strings that wait with the last one first, in the order of
/// their turns.
pub open spec fn turns(pending: Seq<String>) -> Seq<Seq<char>> {
    Seq::new(pending.len(), |i: int| pending[pending.len() - 1 - i]@)
}

/// An [`AfterCall`], with the paths that wait in the order of their turns.
pub enum AfterCallView {
    Finish,
    FinishKey { key: Seq<char> },
    DeleteRest { paths: Seq<Seq<char>> },
    RemoveRest { paths: Seq<Seq<char>> },
}

impl View for AfterCall {
    type V = AfterCallView;

    open spec fn view(&self) -> AfterCallView {
        match *self {
            AfterCall::Finish => AfterCallView::Finish,
            AfterCall::FinishKey { key } => AfterCallView::FinishKey { key: key@ },
            AfterCall::DeleteRest { pending } => AfterCallView::DeleteRest {
                paths: turns(pending@),
            },
            AfterCall::RemoveRest { pending } => AfterCallView::RemoveRest {
                paths: turns(pending@),
            },
        }
    }
}

/// An [`AfterExists`], with text in place of strings.
pub enum AfterExistsView {
    Finish,
    MakePermanent { from: Seq<char>, to: Seq<char> },
}

impl View for AfterExists {
    type V = AfterExistsView;

    open spec fn view(&self) -> AfterExistsView {
        match *self {
            AfterExists::Finish => AfterExistsView::Finish,
            AfterExists::MakePermanent { from, to } => AfterExistsView::MakePermanent {
                from: from@,
                to: to@,
            },
        }
    }
}

/// An [`Outcome`], with text in place of strings.
pub enum OutcomeView {
    Done,
    Key(Seq<char>),
    Flag(bool),
    Content(Seq<u8>),
}

impl View for Outcome {
    type V = OutcomeView;

    open spec fn view(&self) -> OutcomeView {
        match *self {
            Outcome::Done => OutcomeView::Done,
            Outcome::Key(key) => OutcomeView::Key(key@),
            Outcome::Flag(flag) => OutcomeView::Flag(flag),
            Outcome::Content(bytes) => OutcomeView::Content(bytes@),
        }
    }
}

/// A [`Step`], with text in place of strings.
pub enum StepView {
    Perform(CallView, AfterCallView),
    Exists(Seq<char>, AfterExistsView),
    Read(Seq<char>),
    Return(Result<OutcomeView, ErrorView>),
}

impl View for Step {
    type V = StepView;

    open spec fn view(&self) -> StepView {
        match *self {
            Step::Perform(call, after) => StepView::Perform(call@, after@),
            Step::Exists(path, after) => StepView::Exists(path@, after@),
            Step::Read(path, _) => StepView::Read(path@),
            Step::Return(Ok(outcome)) => StepView::Return(Ok(outcome@)),
            Step::Return(Err(err)) => StepView::Return(Err(err@)),
        }
    }
}

/// What an error of the backend means to the user of a blob store.
pub open spec fn translated(err: opendal::Error) -> ErrorView {
    if backend_not_found(err) {
        ErrorView::BlobNotFound
    } else {
        ErrorView::Backend(err)
    }
}

/// The step that deletes each of `paths` in turn, and then ends well.
pub open spec fn delete_each(paths: Seq<Seq<char>>) -> StepView {
    if paths.len() == 0 {
        StepView::Return(Ok(OutcomeView::Done))
    } else {
        StepView::Perform(
            CallView::Delete { path: paths[0] },
            AfterCallView::DeleteRest { paths: paths.skip(1) },
        )
    }
}

/// The step that removes each of `paths` in turn with all that starts with it,
/// and then ends well.
pub open spec fn remove_each(paths: Seq<Seq<char>>) -> StepView {
    if paths.len() == 0 {
        StepView::Return(Ok(OutcomeView::Done))
    } else {
        StepView::Perform(
            CallView::RemoveAll { path: paths[0] },
            AfterCallView::RemoveRest { paths: paths.skip(1) },
        )
    }
}

impl AfterCallView {
    /// The step after the call was answered with `reply`.
    pub open spec fn resumed(self, reply: Result<(), opendal::Error>) -> StepView {
        match (self, reply) {
            (AfterCallView::DeleteRest { paths }, _) => delete_each(paths),
            (_, Err(err)) => StepView::Return(Err(translated(err))),
            (AfterCallView::Finish, Ok(_)) => StepView::Return(Ok(OutcomeView::Done)),
            (AfterCallView::FinishKey { key }, Ok(_)) => StepView::Return(Ok(OutcomeView::Key(key))),
            (AfterCallView::RemoveRest { paths }, Ok(_)) => remove_each(paths),
        }
    }
}

impl AfterExistsView {
    /// The step after the question was answered with `reply`.
    pub open spec fn resumed(self, reply: Result<bool, opendal::Error>) -> StepView {
        match (self, reply) {
            (_, Err(err)) => StepView::Return(Err(translated(err))),
            (AfterExistsView::Finish, Ok(found)) => StepView::Return(Ok(OutcomeView::Flag(found))),
            (AfterExistsView::MakePermanent { from, to }, Ok(found)) => if found {
                StepView::Perform(CallView::Delete { path: from }, AfterCallView::Finish)
            } else {
                StepView::Perform(CallView::Rename { from, to }, AfterCallView::Finish)
            },
        }
    }
}

/// The step after a read was answered with `reply`.
pub open spec fn after_read(reply: Result<Seq<u8>, opendal::Error>) -> StepView {
    match reply {
        Ok(bytes) => StepView::Return(Ok(OutcomeView::Content(bytes))),
        Err(err) => StepView::Return(Err(translated(err))),
    }
}

/// What the backend reads is given out whole, whatever it is and however much; a
/// read that fails gives out the error.
pub proof fn reads_are_handed_on(bytes: Seq<u8>, err: opendal::Error)
    ensures
        after_read(Ok(bytes)) == StepView::Return(
            Ok::<OutcomeView, ErrorView>(OutcomeView::Content(bytes)),
        ),
        after_read(Err(err)) == StepView::Return(
            Err::<OutcomeView, ErrorView>(
                if backend_not_found(err) {
                    ErrorView::BlobNotFound
                } else {
                    ErrorView::Backend(err)
                },
            ),
        ),
{
}

/// An answer of the backend comes out as what it is: success as the end of the
/// operation, with the key that was promised, the flag that was answered, or the
/// next path in turn; an error as what it means, but for deletes, which go on.
pub proof fn answers_are_handed_on(
    key: Seq<char>,
    first: Seq<char>,
    rest: Seq<Seq<char>>,
    found: bool,
    from: Seq<char>,
    to: Seq<char>,
    reply: Result<(), opendal::Error>,
    err: opendal::Error,
)
    ensures
        ({
            let none: Seq<Seq<char>> = Seq::empty();
            let some = seq![first] + rest;
            let done = StepView::Return(Ok(OutcomeView::Done));
            let made = AfterExistsView::MakePermanent { from, to };
            let failed = StepView::Return(
                Err(
                    if backend_not_found(err) {
                        ErrorView::BlobNotFound
                    } else {
                        ErrorView::Backend(err)
                    },
                ),
            );
            &&& AfterCallView::Finish.resumed(Err(err)) == failed
            &&& (AfterCallView::FinishKey { key }).resumed(Err(err)) == failed
            &&& (AfterCallView::RemoveRest { paths: rest }).resumed(Err(err)) == failed
            &&& AfterExistsView::Finish.resumed(Err(err)) == failed
            &&& made.resumed(Err(err)) == failed
            &&& AfterCallView::Finish.resumed(Ok(())) == done
            &&& (AfterCallView::FinishKey { key }).resumed(Ok(())) == StepView::Return(
                Ok(OutcomeView::Key(key)),
            )
            &&& (AfterCallView::DeleteRest { paths: none }).resumed(reply) == done
            &&& (AfterCallView::DeleteRest { paths: some }).resumed(reply) == StepView::Perform(
                CallView::Delete { path: first },
                AfterCallView::DeleteRest { paths: rest },
            )
            &&& (AfterCallView::RemoveRest { paths: none }).resumed(Ok(())) == done
            &&& (AfterCallView::RemoveRest { paths: some }).resumed(Ok(())) == StepView::Perform(
                CallView::RemoveAll { path: first },
                AfterCallView::RemoveRest { paths: rest },
            )
            &&& AfterExistsView::Finish.resumed(Ok(found)) == StepView::Return(
                Ok(OutcomeView::Flag(found)),
            )
            &&& made.resumed(Ok(true)) == StepView::Perform(
                CallView::Delete { path: from },
                AfterCallView::Finish,
            )
            &&& made.resumed(Ok(false)) == StepView::Perform(
                CallView::Rename { from, to },
                AfterCallView::Finish,
            )
        }),
{
    assert((seq![first] + rest).skip(1) =~= rest);
}

/// Strings that wait have their turns from the last to the first, none left out.
pub proof fn turns_go_backwards(pending: Seq<String>, i: int)
    ensures
        turns(pending).len() == pending.len(),
        0 <= i < pending.len() ==> turns(pending)[i] == pending[pending.len() - 1 - i]@,
{
}

/// Tells the user of a blob store what an error of the backend means: that
/// there is no such blob, or the error itself.
pub fn translate_err(err: opendal::Error) -> (translation: BlobStoreError)
    ensures
        translation@ == translated(err),
        if backend_not_found(err) {
            translation is BlobNotFound
        } else {
            translation == BlobStoreError::Backend(err)
        },
{
    if is_not_found(&err) {
        BlobStoreError::BlobNotFound(BlobNotFoundError)
    } else {
        BlobStoreError::Backend(err)
    }
}

/// Hands on what the backend answered; an error is told as it is.
pub fn keep_reply<T>(reply: Result<T, opendal::Error>) -> (told: Result<T, BlobStoreError>)
    ensures
        match reply {
            Ok(value) => told == Ok::<T, BlobStoreError>(value),
            Err(err) => told matches Err(told) && told@ == ErrorView::Backend(err) && told
                == BlobStoreError::Backend(err),
        },
{
    match reply {
        Ok(value) => Ok(value),
        Err(err) => Err(BlobStoreError::Backend(err)),
    }
}

/// Deletes each path of `pending` in turn, the last one first.
pub fn delete_pending(mut pending: Vec<String>) -> (step: Step)
    ensures
        step@ == delete_each(turns(pending@)),
        if pending@.len() == 0 {
            step == Step::Return(Ok::<Outcome, BlobStoreError>(Outcome::Done))
        } else {
            &&& step matches Step::Perform(
                Call::Delete { path },
                AfterCall::DeleteRest { pending: rest },
            )
            &&& path == pending@.last()
            &&& rest@ == pending@.drop_last()
        },
{
    let ghost paths = turns(pending@);
    match pending.pop() {
        None => Step::Return(Ok(Outcome::Done)),
        Some(path) => {
            assert(turns(pending@) =~= paths.skip(1));
            Step::Perform(Call::Delete { path }, AfterCall::DeleteRest { pending })
        },
    }
}

/// Removes each path of `pending` in turn with all that starts with it, the
/// last one first.
pub fn remove_pending(mut pending: Vec<String>) -> (step: Step)
    ensures
        step@ == remove_each(turns(pending@)),
        if pending@.len() == 0 {
            step == Step::Return(Ok::<Outcome, BlobStoreError>(Outcome::Done))
        } else {
            &&& step matches Step::Perform(
                Call::RemoveAll { path },
                AfterCall::RemoveRest { pending: rest },
            )
            &&& path == pending@.last()
            &&& rest@ == pending@.drop_last()
        },
{
    let ghost paths = turns(pending@);
    match pending.pop() {
        None => Step::Return(Ok(Outcome::Done)),
        Some(path) => {
            assert(turns(pending@) =~= paths.skip(1));
            Step::Perform(Call::RemoveAll { path }, AfterCall::RemoveRest { pending })
        },
    }
}

impl AfterCall {
    /// Goes on after the call was answered.
    pub fn resume(self, reply: Result<(), opendal::Error>) -> (step: Step)
        ensures
            step@ == self@.resumed(reply),
            match (self, reply) {
                (AfterCall::DeleteRest { pending }, _) => if pending@.len() == 0 {
                    step == Step::Return(Ok::<Outcome, BlobStoreError>(Outcome::Done))
                } else {
                    &&& step matches Step::Perform(
                        Call::Delete { path },
                        AfterCall::DeleteRest { pending: rest },
                    )
                    &&& path == pending@.last()
                    &&& rest@ == pending@.drop_last()
                },
                (AfterCall::RemoveRest { pending }, Ok(_)) => if pending@.len() == 0 {
                    step == Step::Return(Ok::<Outcome, BlobStoreError>(Outcome::Done))
                } else {
                    &&& step matches Step::Perform(
                        Call::RemoveAll { path },
                        AfterCall::RemoveRest { pending: rest },
                    )
                    &&& path == pending@.last()
                    &&& rest@ == pending@.drop_last()
                },
                (AfterCall::Finish, Ok(_)) => step == Step::Return(
                    Ok::<Outcome, BlobStoreError>(Outcome::Done),
                ),
                (AfterCall::FinishKey { key }, Ok(_)) => step == Step::Return(
                    Ok::<Outcome, BlobStoreError>(Outcome::Key(key)),
                ),
                (_, Err(err)) => step matches Step::Return(Err(told)) && if backend_not_found(err) {
                    told is BlobNotFound
                } else {
                    told == BlobStoreError::Backend(err)
                },
            },
    {
        match self {
            AfterCall::DeleteRest { pending } => delete_pending(pending),
            AfterCall::RemoveRest { pending } => match reply {
                Ok(()) => remove_pending(pending),
                Err(err) => Step::Return(Err(translate_err(err))),
            },
            AfterCall::FinishKey { key } => match reply {
                Ok(()) => Step::Return(Ok(Outcome::Key(key))),
                Err(err) => Step::Return(Err(translate_err(err))),
            },
            AfterCall::Finish => match reply {
                Ok(()) => Step::Return(Ok(Outcome::Done)),
                Err(err) => Step::Return(Err(translate_err(err))),
            },
        }
    }
}

impl AfterExists {
    /// Goes on after the question was answered.
    pub fn resume(self, reply: Result<bool, opendal::Error>) -> (step: Step)
        ensures
            step@ == self@.resumed(reply),
            match (self, reply) {
                (AfterExists::Finish, Ok(found)) => step == Step::Return(
                    Ok::<Outcome, BlobStoreError>(Outcome::Flag(found)),
                ),
                (AfterExists::MakePermanent { from, to }, Ok(found)) => step == Step::Perform(
                    if found {
                        Call::Delete { path: from }
                    } else {
                        Call::Rename { from, to }
                    },
                    AfterCall::Finish,
                ),
                (_, Err(err)) => step matches Step::Return(Err(told)) && if backend_not_found(err) {
                    told is BlobNotFound
                } else {
                    told == BlobStoreError::Backend(err)
                },
            },
    {
        match reply {
            Err(err) => Step::Return(Err(translate_err(err))),
            Ok(found) => match self {
                AfterExists::Finish => Step::Return(Ok(Outcome::Flag(found))),
                AfterExists::MakePermanent { from, to } => if found {
                    Step::Perform(Call::Delete { path: from }, AfterCall::Finish)
                } else {
                    Step::Perform(Call::Rename { from, to }, AfterCall::Finish)
                },
            },
        }
    }
}

impl AfterRead {
    /// Goes on after the read was answered.
    pub fn resume(self, reply: Result<Vec<u8>, opendal::Error>) -> (step: Step)
        ensures
            step@ == after_read(
                match reply {
                    Ok(bytes) => Ok(bytes@),
                    Err(err) => Err(err),
                },
            ),
            match reply {
                Ok(bytes) => step == Step::Return(
                    Ok::<Outcome, BlobStoreError>(Outcome::Content(bytes)),
                ),
                Err(err) => step matches Step::Return(Err(told)) && if backend_not_found(err) {
                    told is BlobNotFound
                } else {
                    told == BlobStoreError::Backend(err)
                },
            },
    {
        match reply {
            Ok(bytes) => Step::Return(Ok(Outcome::Content(bytes))),
            Err(err) => Step::Return(Err(translate_err(err))),
        }
    }
}

} // verus!
