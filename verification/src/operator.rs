//! The operator: a store's identity, its capabilities, and the decisions taken before a
//! request reaches the store.
use crate::config::DataMode;
use crate::meta::Metadata;
use std::sync::Arc;
use vstd::prelude::*;

verus! {

/// Why a request was refused or failed.
#[derive(Debug)]
pub enum DataError {
    /// The store cannot do this kind of request.
    Unsupported,
    /// The entry does not exist.
    NotFound,
    /// The remote service failed.
    Remote(opendal::Error),
}

/// A store's identity and settings, and its reader, writer and random-access parts where
/// it has them.
pub struct DataInner<R, W, F> {
    /// The identity used to tell stores apart.
    pub id: u128,
    /// The settings the store was opened with.
    pub info: DataMode,
    /// The reading part, if the store can be read.
    pub reader: Option<R>,
    /// The writing part, if the store can be written.
    pub writer: Option<W>,
    /// The random-access part, if the store offers it.
    pub full: Option<F>,
}

impl<R, W, F> DataInner<R, W, F> {
    /// The reading part, or `Unsupported` when the store has none.
    pub fn reader(&self) -> (res: Result<&R, DataError>)
        ensures
            match self.reader {
                Some(r) => res == Ok::<&R, DataError>(&r),
                None => res matches Err(DataError::Unsupported),
            },
    {
        match &self.reader {
            Some(r) => Ok(r),
            None => Err(DataError::Unsupported),
        }
    }

    /// The writing part, or `Unsupported` when the store has none.
    pub fn writer(&self) -> (res: Result<&W, DataError>)
        ensures
            match self.writer {
                Some(w) => res == Ok::<&W, DataError>(&w),
                None => res matches Err(DataError::Unsupported),
            },
    {
        match &self.writer {
            Some(w) => Ok(w),
            None => Err(DataError::Unsupported),
        }
    }

    /// The random-access part, or `Unsupported` when the store has none.
    pub fn full(&self) -> (res: Result<&F, DataError>)
        ensures
            match self.full {
                Some(f) => res == Ok::<&F, DataError>(&f),
                None => res matches Err(DataError::Unsupported),
            },
    {
        match &self.full {
            Some(f) => Ok(f),
            None => Err(DataError::Unsupported),
        }
    }
}

/// What an operator tells of its store.
#[derive(Debug, PartialEq, Eq)]
pub struct DataInfo {
    pub id: u128,
    pub mode: DataMode,
    pub can_read: bool,
    pub can_append: bool,
    pub can_full: bool,
}

/// A handle on one store; clones share it.
pub struct DataOperator<R, W, F> {
    pub be: Arc<DataInner<R, W, F>>,
}

impl<R, W, F> Clone for DataOperator<R, W, F> {
    fn clone(&self) -> (res: Self)
        ensures
            res.be == self.be,
    {
        DataOperator { be: Arc::clone(&self.be) }
    }
}

/// A single file or directory of a store, with the metadata it was found with.
pub struct DataFile<R, W, F> {
    pub be: Arc<DataInner<R, W, F>>,
    pub meta: Metadata,
}

impl<R, W, F> Clone for DataFile<R, W, F> {
    fn clone(&self) -> (res: Self)
        ensures
            res.be == self.be,
            res.meta == self.meta,
    {
        DataFile { be: Arc::clone(&self.be), meta: self.meta.clone() }
    }
}

impl<R, W, F> DataFile<R, W, F> {
    /// Two files are the same file when they belong to the same store and carry the same
    /// metadata.
    pub open spec fn same_file(&self, other: &Self) -> bool {
        self.be.id == other.be.id && self.meta.same_as(&other.meta)
    }

    /// Builds a file of the store `be`.
    pub fn new(meta: Metadata, be: Arc<DataInner<R, W, F>>) -> (res: Self)
        ensures
            res.meta == meta,
            res.be == be,
    {
        DataFile { be, meta }
    }

    /// The metadata the file was found with.
    pub fn metadata(&self) -> (res: Metadata)
        ensures
            res == self.meta,
    {
        self.meta.clone()
    }

    /// The full path of the file.
    pub fn path(&self) -> (res: &String)
        ensures
            res == &self.meta.path,
    {
        &self.meta.path
    }

    /// The final component of the file's path when it names an entry, empty otherwise.
    pub fn name(&self) -> (res: String)
        ensures
            res@ == crate::path::file_name(self.meta.path@),
    {
        self.meta.name()
    }
}

impl<R, W, F> PartialEq for DataFile<R, W, F> {
    fn eq(&self, other: &Self) -> (res: bool) {
        self.be.id == other.be.id && self.meta == other.meta
    }
}

impl<R, W, F> vstd::std_specs::cmp::PartialEqSpecImpl for DataFile<R, W, F> {
    open spec fn obeys_eq_spec() -> bool {
        true
    }

    open spec fn eq_spec(&self, other: &Self) -> bool {
        self.same_file(other)
    }
}

impl<R, W, F> Eq for DataFile<R, W, F> {

}

/// A file that `ensure_file` handed back, with whether it had to be made.
pub enum FileAction<R, W, F> {
    /// The file did not exist and was made.
    Created(DataFile<R, W, F>),
    /// The file existed.
    Found(DataFile<R, W, F>),
}

impl<R, W, F> FileAction<R, W, F> {
    /// The file, whichever way it was had.
    pub open spec fn file(&self) -> DataFile<R, W, F> {
        match self {
            FileAction::Created(x) => *x,
            FileAction::Found(x) => *x,
        }
    }

    /// Hands back the file.
    pub fn into_file(self) -> (res: DataFile<R, W, F>)
        ensures
            res == self.file(),
    {
        match self {
            FileAction::Created(x) => x,
            FileAction::Found(x) => x,
        }
    }

    /// The file, borrowed.
    pub fn as_file(&self) -> (res: &DataFile<R, W, F>)
        ensures
            *res == self.file(),
    {
        match self {
            FileAction::Created(x) => x,
            FileAction::Found(x) => x,
        }
    }
}

/// What removing an entry takes.
#[derive(Debug, PartialEq, Eq)]
pub enum Removal {
    /// Remove the directory at this path with everything it holds.
    Tree(String),
    /// Remove the single file at this path.
    Single(String),
}

/// Where `ensure_file` stands.
#[derive(Clone, Copy, Debug, PartialEq, Eq, Structural)]
pub enum EnsureStep {
    /// The entry has been looked up for the first time.
    AwaitFirstStat,
    /// The entry was missing and is being made with length zero.
    AwaitLength,
    /// The entry is being looked up once more; `created` tells whether it was made.
    AwaitFinalStat { created: bool },
    /// Nothing is left to do.
    Finished,
}

/// What the store answered to the last request of `ensure_file`.
pub enum EnsureEvent {
    /// The lookup found this metadata, or nothing.
    Stat(Option<Metadata>),
    /// The length was set.
    LengthSet,
}

/// What `ensure_file` does next.
pub enum EnsureAction<R, W, F> {
    /// Look the entry up.
    Stat,
    /// Set the entry's length, making it where it is missing.
    SetLength(u64),
    /// Hand back this result.
    Done(FileAction<R, W, F>),
    /// Fail with this error.
    Fail(DataError),
}

/// What `ensure_file` does next, as plain values.
pub enum EnsurePlan {
    Stat,
    SetLength(u64),
    Created(Metadata),
    Found(Metadata),
    Missing,
}

/// Whether `event` answers the request that `step` waits for.
pub open spec fn event_fits(step: EnsureStep, event: EnsureEvent) -> bool {
    match step {
        EnsureStep::AwaitFirstStat => event is Stat,
        EnsureStep::AwaitLength => event is LengthSet,
        EnsureStep::AwaitFinalStat { .. } => event is Stat,
        EnsureStep::Finished => false,
    }
}

/// The step that follows `step` on `event`, and what to do then: a missing entry is made
/// with length zero and looked up again; a present entry is looked up again; the second
/// lookup gives the file, `Created` or `Found`, or `NotFound` when it finds nothing.
pub open spec fn ensure_next(step: EnsureStep, event: EnsureEvent) -> (EnsureStep, EnsurePlan) {
    match (step, event) {
        (EnsureStep::AwaitFirstStat, EnsureEvent::Stat(None)) => (
            EnsureStep::AwaitLength,
            EnsurePlan::SetLength(0),
        ),
        (EnsureStep::AwaitFirstStat, EnsureEvent::Stat(Some(_))) => (
            EnsureStep::AwaitFinalStat { created: false },
            EnsurePlan::Stat,
        ),
        (EnsureStep::AwaitLength, _) => (
            EnsureStep::AwaitFinalStat { created: true },
            EnsurePlan::Stat,
        ),
        (EnsureStep::AwaitFinalStat { created }, EnsureEvent::Stat(Some(m))) => (
            EnsureStep::Finished,
            if created {
                EnsurePlan::Created(m)
            } else {
                EnsurePlan::Found(m)
            },
        ),
        (_, _) => (EnsureStep::Finished, EnsurePlan::Missing),
    }
}

/// Whether `action` carries out `plan` with files of the store `be`.
pub open spec fn carries_out<R, W, F>(
    action: EnsureAction<R, W, F>,
    plan: EnsurePlan,
    be: Arc<DataInner<R, W, F>>,
) -> bool {
    match plan {
        EnsurePlan::Stat => action is Stat,
        EnsurePlan::SetLength(n) => action == EnsureAction::<R, W, F>::SetLength(n),
        EnsurePlan::Created(m) => action matches EnsureAction::Done(FileAction::Created(f)) && f.meta
            == m && f.be == be,
        EnsurePlan::Found(m) => action matches EnsureAction::Done(FileAction::Found(f)) && f.meta
            == m && f.be == be,
        EnsurePlan::Missing => action matches EnsureAction::Fail(DataError::NotFound),
    }
}

impl<R, W, F> DataOperator<R, W, F> {
    /// An operator on the store `inner`.
    pub fn from_inner(inner: DataInner<R, W, F>) -> (res: Self)
        ensures
            *res.be == inner,
    {
        DataOperator { be: Arc::new(inner) }
    }

    /// The identity of the store.
    pub fn id(&self) -> (res: u128)
        ensures
            res == self.be.id,
    {
        self.be.id
    }

    /// The identity, settings and capabilities of the store.
    pub fn info(&self) -> (res: DataInfo)
        ensures
            res.id == self.be.id,
            res.mode == self.be.info,
            res.can_read == self.be.reader is Some,
            res.can_append == self.be.writer is Some,
            res.can_full == self.be.full is Some,
    {
        DataInfo {
            id: self.be.id,
            mode: self.be.info.clone(),
            can_read: self.be.reader.is_some(),
            can_append: self.be.writer.is_some(),
            can_full: self.be.full.is_some(),
        }
    }

    /// The file that a lookup found, or `NotFound` when it found nothing.
    pub fn get_existing(&self, stat: Option<Metadata>) -> (res: Result<DataFile<R, W, F>, DataError>)
        ensures
            match stat {
                Some(m) => res matches Ok(f) && f.meta == m && f.be == self.be,
                None => res matches Err(DataError::NotFound),
            },
    {
        match stat {
            Some(meta) => Ok(DataFile::new(meta, Arc::clone(&self.be))),
            None => Err(DataError::NotFound),
        }
    }

    /// The first step of `ensure_file`: look the entry up.
    pub fn ensure_file_start(&self) -> (res: (EnsureStep, EnsureAction<R, W, F>))
        ensures
            res.0 == EnsureStep::AwaitFirstStat,
            res.1 is Stat,
    {
        (EnsureStep::AwaitFirstStat, EnsureAction::Stat)
    }

    /// The next step of `ensure_file`, given what the store answered.
    pub fn ensure_file_step(&self, step: EnsureStep, event: EnsureEvent) -> (res: (
        EnsureStep,
        EnsureAction<R, W, F>,
    ))
        requires
            event_fits(step, event),
        ensures
            res.0 == ensure_next(step, event).0,
            carries_out(res.1, ensure_next(step, event).1, self.be),
    {
        match step {
            EnsureStep::AwaitFirstStat => match event {
                EnsureEvent::Stat(None) => (EnsureStep::AwaitLength, EnsureAction::SetLength(0)),
                _ => (EnsureStep::AwaitFinalStat { created: false }, EnsureAction::Stat),
            },
            EnsureStep::AwaitLength => (EnsureStep::AwaitFinalStat { created: true }, EnsureAction::Stat),
            EnsureStep::AwaitFinalStat { created } => match event {
                EnsureEvent::Stat(Some(meta)) => {
                    let file = DataFile::new(meta, Arc::clone(&self.be));
                    if created {
                        (EnsureStep::Finished, EnsureAction::Done(FileAction::Created(file)))
                    } else {
                        (EnsureStep::Finished, EnsureAction::Done(FileAction::Found(file)))
                    }
                },
                _ => (EnsureStep::Finished, EnsureAction::Fail(DataError::NotFound)),
            },
            EnsureStep::Finished => (EnsureStep::Finished, EnsureAction::Fail(DataError::NotFound)),
        }
    }
}

/// `ensure_file` on a missing entry: the lookup finds nothing, so the entry is made with
/// length zero, looked up again, and handed back as `Created` with what that lookup found.
pub proof fn ensure_file_creates_missing(m: Metadata)
    ensures
        ensure_next(EnsureStep::AwaitFirstStat, EnsureEvent::Stat(None)) == (
            EnsureStep::AwaitLength,
            EnsurePlan::SetLength(0),
        ),
        ensure_next(EnsureStep::AwaitLength, EnsureEvent::LengthSet) == (
            EnsureStep::AwaitFinalStat { created: true },
            EnsurePlan::Stat,
        ),
        ensure_next(EnsureStep::AwaitFinalStat { created: true }, EnsureEvent::Stat(Some(m))) == (
            EnsureStep::Finished,
            EnsurePlan::Created(m),
        ),
{
}

/// `ensure_file` on a present entry: the entry is looked up again, untouched, and handed
/// back as `Found` with what the second lookup found.
pub proof fn ensure_file_finds_present(first: Metadata, second: Metadata)
    ensures
        ensure_next(EnsureStep::AwaitFirstStat, EnsureEvent::Stat(Some(first))) == (
            EnsureStep::AwaitFinalStat { created: false },
            EnsurePlan::Stat,
        ),
        ensure_next(EnsureStep::AwaitFinalStat { created: false }, EnsureEvent::Stat(Some(second)))
            == (EnsureStep::Finished, EnsurePlan::Found(second)),
{
}

/// `ensure_file` writes only to a missing entry: the one step that sets a length is the
/// answer to a first lookup that found nothing, and it sets the length to zero.
pub proof fn ensure_file_writes_only_missing(step: EnsureStep, event: EnsureEvent)
    requires
        event_fits(step, event),
    ensures
        ensure_next(step, event).1 is SetLength ==> step == EnsureStep::AwaitFirstStat
            && event matches EnsureEvent::Stat(None),
        ensure_next(step, event).1 is SetLength ==> ensure_next(step, event).1 == EnsurePlan::SetLength(0),
{
}

/// A file is handed back only by the last lookup, as `Created` only when the entry was
/// made, and `NotFound` comes only when that lookup found nothing.
pub proof fn ensure_file_reports_last_lookup(created: bool, found: Option<Metadata>)
    ensures
        ensure_next(EnsureStep::AwaitFinalStat { created }, EnsureEvent::Stat(found)) == (match found {
            Some(m) => (
                EnsureStep::Finished,
                if created {
                    EnsurePlan::Created(m)
                } else {
                    EnsurePlan::Found(m)
                },
            ),
            None => (EnsureStep::Finished, EnsurePlan::Missing),
        }),
{
}

} // verus!
