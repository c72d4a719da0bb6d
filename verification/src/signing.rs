//! The course of a signing run.
//!
//! A run imports the signing key, signs every selected file, deletes the key
//! and publishes the signatures. The key is deleted once all signing has
//! ended, whether or not any of it failed, and before anything is published.
//! A file that could not be signed does not keep the other signatures from
//! being published; it is reported when the run ends.
//!
//! The caller does the work and tells the run how each step ended; the run
//! answers with the step to take next.

use crate::executor::{collect_each, failures, successes, Failure};
use crate::gpg::{
    delete_key, delete_outcome, import_key, import_outcome, Deletion, GpgError, KeyId,
};
use crate::process::ProcessOutput;
use vstd::prelude::*;

verus! {

/// Where a signing run stands.
#[derive(Clone, Copy, Debug, PartialEq, Eq, Structural)]
pub enum Stage {
    /// The key is being imported.
    Importing,
    /// The files are being signed.
    Signing,
    /// The secret part of the key is being deleted.
    DeletingSecret,
    /// The public part of the key is being deleted.
    DeletingPublic,
    /// The signatures are being published.
    Publishing,
    /// The run has ended.
    Finished,
}

/// What the caller has to do next.
#[derive(Clone, Copy, Debug, PartialEq, Eq, Structural)]
pub enum Action {
    /// Sign every selected file with the imported key.
    SignFiles,
    /// Delete the secret part of the key.
    DeleteSecretKey,
    /// Delete the public part of the key.
    DeletePublicKey,
    /// Publish the signatures that were made.
    Publish,
    /// Stop, and report how the run ended.
    Finish,
}

/// A signing run.
pub struct SignRun {
    stage: Stage,
    key: Option<KeyId>,
    signatures: Vec<(String, Vec<u8>)>,
    unsigned: Vec<Failure>,
    unpublished: Vec<Failure>,
    fatal: Option<GpgError>,
}

impl SignRun {
    /// Where the run stands.
    pub closed spec fn stage_spec(&self) -> Stage {
        self.stage
    }

    /// The imported key, from the time it is imported.
    pub closed spec fn key_spec(&self) -> Option<KeyId> {
        self.key
    }

    /// The signatures that were made.
    pub closed spec fn signatures_spec(&self) -> Seq<(String, Vec<u8>)> {
        self.signatures@
    }

    /// The files that could not be signed.
    pub closed spec fn unsigned_spec(&self) -> Seq<Failure> {
        self.unsigned@
    }

    /// The signatures that could not be published.
    pub closed spec fn unpublished_spec(&self) -> Seq<Failure> {
        self.unpublished@
    }

    /// The failure that ended the run early, if one did.
    pub closed spec fn fatal_spec(&self) -> Option<GpgError> {
        self.fatal
    }

    /// A run that is about to import the key.
    pub fn new() -> (run: SignRun)
        ensures
            run.stage_spec() == Stage::Importing,
            run.key_spec() is None,
            run.signatures_spec().len() == 0,
            run.unsigned_spec().len() == 0,
            run.unpublished_spec().len() == 0,
            run.fatal_spec() is None,
    {
        SignRun {
            stage: Stage::Importing,
            key: None,
            signatures: Vec::new(),
            unsigned: Vec::new(),
            unpublished: Vec::new(),
            fatal: None,
        }
    }

    /// Where the run stands.
    pub fn stage(&self) -> (stage: Stage)
        ensures
            stage == self.stage_spec(),
    {
        self.stage
    }

    /// The imported key, from the time it is imported.
    pub fn key(&self) -> (key: Option<&KeyId>)
        ensures
            match key {
                Some(id) => self.key_spec() == Some(*id),
                None => self.key_spec() is None,
            },
    {
        self.key.as_ref()
    }

    /// The signatures that were made.
    pub fn signatures(&self) -> (signatures: &Vec<(String, Vec<u8>)>)
        ensures
            signatures@ == self.signatures_spec(),
    {
        &self.signatures
    }

    /// The files that could not be signed.
    pub fn unsigned(&self) -> (failed: &Vec<Failure>)
        ensures
            failed@ == self.unsigned_spec(),
    {
        &self.unsigned
    }

    /// The signatures that could not be published.
    pub fn unpublished(&self) -> (failed: &Vec<Failure>)
        ensures
            failed@ == self.unpublished_spec(),
    {
        &self.unpublished
    }

    /// The failure that ended the run early, if one did.
    pub fn fatal(&self) -> (fatal: Option<&GpgError>)
        ensures
            match fatal {
                Some(error) => self.fatal_spec() == Some(*error),
                None => self.fatal_spec() is None,
            },
    {
        self.fatal.as_ref()
    }

    /// Whether the run has ended and everything went well.
    pub fn succeeded(&self) -> (yes: bool)
        ensures
            yes == (self.stage_spec() == Stage::Finished && self.fatal_spec() is None
                && self.unsigned_spec().len() == 0 && self.unpublished_spec().len() == 0),
    {
        match self.stage {
            Stage::Finished => self.fatal.is_none() && self.unsigned.len() == 0
                && self.unpublished.len() == 0,
            _ => false,
        }
    }

    /// The import of the key has ended with `output`. If it gave a key, the
    /// files are signed next; if not, the run ends.
    pub fn imported(&mut self, output: ProcessOutput) -> (action: Action)
        requires
            old(self).stage_spec() == Stage::Importing,
        ensures
            final(self).signatures_spec() == old(self).signatures_spec(),
            final(self).unsigned_spec() == old(self).unsigned_spec(),
            final(self).unpublished_spec() == old(self).unpublished_spec(),
            match final(self).key_spec() {
                Some(key) => {
                    &&& import_outcome(output, Ok(key))
                    &&& final(self).stage_spec() == Stage::Signing
                    &&& final(self).fatal_spec() == old(self).fatal_spec()
                    &&& action == Action::SignFiles
                },
                None => {
                    &&& final(self).fatal_spec() matches Some(error)
                    &&& import_outcome(output, Err(error))
                    &&& final(self).stage_spec() == Stage::Finished
                    &&& action == Action::Finish
                },
            },
    {
        match import_key(output) {
            Ok(key) => {
                self.key = Some(key);
                self.stage = Stage::Signing;
                Action::SignFiles
            },
            Err(error) => {
                self.key = None;
                self.fatal = Some(error);
                self.stage = Stage::Finished;
                Action::Finish
            },
        }
    }

    /// All signing has ended with `results`, one for each file. Whatever the
    /// results are, the key is deleted next.
    pub fn signed(&mut self, results: Vec<Result<(String, Vec<u8>), Failure>>) -> (action: Action)
        requires
            old(self).stage_spec() == Stage::Signing,
        ensures
            action == Action::DeleteSecretKey,
            final(self).stage_spec() == Stage::DeletingSecret,
            final(self).key_spec() == old(self).key_spec(),
            final(self).fatal_spec() == old(self).fatal_spec(),
            final(self).signatures_spec() == successes(results@),
            final(self).unsigned_spec() == failures(results@),
            final(self).unpublished_spec() == old(self).unpublished_spec(),
    {
        let (signatures, failed) = collect_each(results);
        self.signatures = signatures;
        self.unsigned = failed;
        self.stage = Stage::DeletingSecret;
        Action::DeleteSecretKey
    }

    /// The part of the key that the run stands at.
    pub open spec fn part(stage: Stage) -> Deletion {
        match stage {
            Stage::DeletingSecret => Deletion::Secret,
            Stage::DeletingPublic => Deletion::Public,
            _ => Deletion::Done,
        }
    }

    /// The deletion of one part of the key has ended with `output`. After the
    /// secret part the public part is deleted, and after that the signatures
    /// are published. A part that could not be deleted ends the run, and
    /// nothing is published.
    pub fn deleted(&mut self, output: ProcessOutput) -> (action: Action)
        requires
            old(self).stage_spec() == Stage::DeletingSecret || old(self).stage_spec()
                == Stage::DeletingPublic,
        ensures
            final(self).key_spec() == old(self).key_spec(),
            final(self).signatures_spec() == old(self).signatures_spec(),
            final(self).unsigned_spec() == old(self).unsigned_spec(),
            final(self).unpublished_spec() == old(self).unpublished_spec(),
            match action {
                Action::DeletePublicKey => {
                    &&& old(self).stage_spec() == Stage::DeletingSecret
                    &&& output.success
                    &&& final(self).stage_spec() == Stage::DeletingPublic
                    &&& final(self).fatal_spec() == old(self).fatal_spec()
                },
                Action::Publish => {
                    &&& old(self).stage_spec() == Stage::DeletingPublic
                    &&& output.success
                    &&& final(self).stage_spec() == Stage::Publishing
                    &&& final(self).fatal_spec() == old(self).fatal_spec()
                },
                Action::Finish => {
                    &&& !output.success
                    &&& final(self).stage_spec() == Stage::Finished
                    &&& final(self).fatal_spec() matches Some(error)
                    &&& delete_outcome(Self::part(old(self).stage_spec()), output, Err(error))
                },
                _ => false,
            },
    {
        let part = match self.stage {
            Stage::DeletingSecret => Deletion::Secret,
            _ => Deletion::Public,
        };
        match delete_key(part, output) {
            Ok(Deletion::Public) => {
                self.stage = Stage::DeletingPublic;
                Action::DeletePublicKey
            },
            Ok(_) => {
                self.stage = Stage::Publishing;
                Action::Publish
            },
            Err(error) => {
                self.fatal = Some(error);
                self.stage = Stage::Finished;
                Action::Finish
            },
        }
    }

    /// Publishing has ended with `results`, one for each signature. The
    /// signatures that could not be published are kept, and the run ends.
    pub fn published(&mut self, results: Vec<Result<(), Failure>>) -> (action: Action)
        requires
            old(self).stage_spec() == Stage::Publishing,
        ensures
            action == Action::Finish,
            final(self).stage_spec() == Stage::Finished,
            final(self).key_spec() == old(self).key_spec(),
            final(self).fatal_spec() == old(self).fatal_spec(),
            final(self).signatures_spec() == old(self).signatures_spec(),
            final(self).unsigned_spec() == old(self).unsigned_spec(),
            final(self).unpublished_spec() == failures(results@),
    {
        let (_, failed) = collect_each(results);
        self.unpublished = failed;
        self.stage = Stage::Finished;
        Action::Finish
    }
}

} // verus!
