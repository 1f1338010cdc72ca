//! Writing the config file to disk, step by step.

use vstd::prelude::*;
use vstd::string::*;

use crate::config::toml_items::{parse, toml};
use crate::paths::{directory_of, file_name};
use crate::text::chars_of;

verus! {

#[derive(Debug, PartialEq, Eq)]
pub enum DocumentError {
    /// the file cannot be read
    Read { path: String, source: String },
    /// the file cannot be parsed
    Parse { path: String, source: String },
    /// the file is not writable
    NotWritable { path: String },
    /// the file changed on disk since the page was loaded
    ExternalEdit { path: String },
    /// the file was edited by something else and no longer parses
    NowUnparseable { path: String },
    /// the file cannot be written
    Write { path: String, source: String },
}

impl DocumentError {
    /// The sentence shown for it.
    pub open spec fn sentence(self) -> Seq<char> {
        match self {
            DocumentError::Read { path, source } => "cannot read "@ + path@ + ": "@ + source@,
            DocumentError::Parse { path, source } => "cannot parse "@ + path@ + ": "@ + source@,
            DocumentError::NotWritable { path } => path@
                + " is not writable; fix the file or directory permissions, or the mount it lives on"@,
            DocumentError::ExternalEdit { path } => path@
                + " changed on disk since this page was loaded; reload the page and try again so nothing you did not intend gets overwritten"@,
            DocumentError::NowUnparseable { path } => path@
                + " was edited by something else since it was last read and no longer parses as TOML; fix it by hand before saving from here"@,
            DocumentError::Write { path, source } => "cannot write "@ + path@ + ": "@ + source@,
        }
    }

    pub fn message(&self) -> (r: String)
        ensures
            r@ == self.sentence(),
    {
        match self {
            DocumentError::Read { path, source } => about("cannot read ", path, source),
            DocumentError::Parse { path, source } => about("cannot parse ", path, source),
            DocumentError::NotWritable { path } => {
                let mut out = path.clone();
                out.append(
                    " is not writable; fix the file or directory permissions, or the mount it lives on",
                );
                out
            },
            DocumentError::ExternalEdit { path } => {
                let mut out = path.clone();
                out.append(
                    " changed on disk since this page was loaded; reload the page and try again so nothing you did not intend gets overwritten",
                );
                out
            },
            DocumentError::NowUnparseable { path } => {
                let mut out = path.clone();
                out.append(
                    " was edited by something else since it was last read and no longer parses as TOML; fix it by hand before saving from here",
                );
                out
            },
            DocumentError::Write { path, source } => about("cannot write ", path, source),
        }
    }
}

fn about(what: &str, path: &String, source: &String) -> (r: String)
    ensures
        r@ == what@ + path@ + ": "@ + source@,
{
    let mut out = what.to_owned();
    out.append(path.as_str());
    out.append(": ");
    out.append(source.as_str());
    out
}

/// Which of the two ways a save actually reached the filesystem.
#[derive(Clone, Copy, Debug, PartialEq, Eq, Structural)]
pub enum SaveOutcome {
    /// The common path: a temp file, written and synced, replaced the target.
    Renamed,
    /// Renaming failed, as it does for a bind-mounted single file, so the
    /// target was truncated and rewritten in place.
    WrittenInPlace,
}

/// Length and moment of the last change of a file.
#[derive(Clone, Copy, Debug, PartialEq, Eq, Structural)]
pub struct Stamp {
    pub length: u64,
    pub modified_nanos: i128,
}

/// A document as it is to be saved. Deliberately cannot be printed: the text
/// contains inline secrets.
pub struct Draft {
    pub path: String,
    pub text: String,
    pub writable: bool,
    /// The original file's mode, so a save does not widen it.
    pub mode: Option<u32>,
    /// What the file was at read time, to detect an edit made by something else
    /// between rendering the form and saving it.
    pub stamp: Option<Stamp>,
}

/// The mode of a file that holds secrets: only its owner reads and writes it.
pub const PRIVATE_MODE: u32 = 0x180;

impl Draft {
    /// The mode that the saved file gets.
    pub open spec fn saved_mode(self) -> u32 {
        match self.mode {
            Some(mode) => mode,
            None => PRIVATE_MODE,
        }
    }

    fn target_mode(&self) -> (r: u32)
        ensures
            r == self.saved_mode(),
    {
        match self.mode {
            Some(mode) => mode,
            None => PRIVATE_MODE,
        }
    }
}

/// Whether a file can be written: either it exists and opens for writing, or it
/// does not exist; and its directory takes a new file.
pub fn probe_writable(opens: Option<bool>, directory_takes_a_file: bool) -> (r: bool)
    ensures
        r == (opens != Some(false) && directory_takes_a_file),
{
    match opens {
        Some(false) => false,
        _ => directory_takes_a_file,
    }
}

/// Where the file is kept before it is replaced.
pub open spec fn backup_path(path: Seq<char>) -> Seq<char> {
    path + ".bak"@
}

/// Where the new file is written before it replaces the old one.
pub open spec fn temp_path(path: Seq<char>) -> Seq<char> {
    crate::torrent::path::below(
        crate::paths::directory(path),
        "."@ + match crate::paths::base_name(path) {
            Some(name) => name,
            None => "config.toml"@,
        } + ".tmp"@,
    )
}

fn backup_of(path: &str) -> (r: String)
    ensures
        r@ == backup_path(path@),
{
    let mut out = path.to_owned();
    out.append(".bak");
    out
}

fn temp_of(path: &str) -> (r: String)
    ensures
        r@ == temp_path(path@),
{
    let mut name = ".".to_owned();
    match file_name(path) {
        Some(own) => name.append(own.as_str()),
        None => name.append("config.toml"),
    }
    name.append(".tmp");
    let dir = directory_of(path);
    let chars = chars_of(dir.as_str());
    let mut out = dir.clone();
    if chars.len() > 0 && chars[chars.len() - 1] != '/' {
        out.push('/');
    }
    out.append(name.as_str());
    assert(out@ =~= temp_path(path@));
    out
}

/// What a save is in the middle of.
#[derive(Clone, Copy, Debug, PartialEq, Eq, Structural)]
pub enum SaveStage {
    Inspecting,
    BackingUp,
    WritingTemp,
    SettingMode,
    Renaming,
    WritingInPlace,
    RemovingTemp,
    Done,
}

/// What came of an action.
pub enum SaveEvent {
    /// What the file is now, and what stands in it; or why either cannot be
    /// found out.
    Inspected(Result<Stamp, String>, Result<String, String>),
    BackedUp(Result<(), String>),
    TempWritten(Result<(), String>),
    ModeSet(Result<(), String>),
    Renamed(Result<(), String>),
    WrittenInPlace(Result<(), String>),
    TempRemoved,
}

/// What to do next for a save.
pub enum SaveAction {
    /// Find out what the file is now, and read it.
    Inspect,
    /// Copy the file to that path.
    BackUp(String),
    /// Write the text to a new file, for its owner only, and sync it.
    WriteTemp { path: String, text: String },
    SetMode { path: String, mode: u32 },
    Rename { from: String, to: String },
    /// Truncate the file, write the text and sync it.
    WriteInPlace { path: String, mode: u32, text: String },
    RemoveTemp(String),
    Finish(Result<SaveOutcome, DocumentError>),
}

impl SaveAction {
    /// Something on disk changes.
    pub open spec fn writes(self) -> bool {
        !(self is Inspect || self is Finish)
    }
}

/// Writing a document to disk.
pub struct Save {
    pub document: Draft,
    pub stage: SaveStage,
}

/// The save ends with an error about a path.
pub open spec fn refused(action: SaveAction, error: DocumentError) -> bool {
    action == SaveAction::Finish(Err::<SaveOutcome, DocumentError>(error))
}

/// The save fails to write that path.
pub open spec fn fails_to_write(action: SaveAction, at: Seq<char>, why: String) -> bool {
    action matches SaveAction::Finish(Err(DocumentError::Write { path, source })) && path@ == at
        && source == why
}

/// The new file is written next to the old one.
pub open spec fn writes_temp(document: Draft, action: SaveAction) -> bool {
    action matches SaveAction::WriteTemp { path, text } && path@ == temp_path(document.path@)
        && text@ == document.text@
}

/// How a save begins: one that cannot work is refused, and a file that was
/// there is looked at again.
pub open spec fn begins(document: Draft, after: Save, action: SaveAction) -> bool {
    &&& after.document == document
    &&& if !document.writable {
        after.stage is Done && refused(
            action,
            DocumentError::NotWritable { path: document.path },
        )
    } else if document.stamp is Some {
        after.stage is Inspecting && action is Inspect
    } else {
        after.stage is WritingTemp && writes_temp(document, action)
    }
}

/// What the file as it is now comes to. That it no longer parses is checked
/// ahead of the stamp: it may be a hand-edit in progress, whether or not its
/// length and moment happen to still match.
pub open spec fn inspected(
    document: Draft,
    stamp: Result<Stamp, String>,
    text: Result<String, String>,
    after: Save,
    action: SaveAction,
) -> bool {
    match (stamp, text) {
        (Err(why), _) => after.stage is Done && refused(
            action,
            DocumentError::Read { path: document.path, source: why },
        ),
        (Ok(_), Err(why)) => after.stage is Done && refused(
            action,
            DocumentError::Read { path: document.path, source: why },
        ),
        (Ok(now), Ok(raw)) => if toml(raw@) is Err {
            after.stage is Done && refused(
                action,
                DocumentError::NowUnparseable { path: document.path },
            )
        } else if document.stamp != Some(now) {
            after.stage is Done && refused(
                action,
                DocumentError::ExternalEdit { path: document.path },
            )
        } else {
            after.stage is BackingUp && (action matches SaveAction::BackUp(path) && path@
                == backup_path(document.path@))
        },
    }
}

/// What an event comes to.
pub open spec fn saved(before: Save, event: SaveEvent, after: Save, action: SaveAction) -> bool {
    let document = before.document;
    &&& after.document == document
    &&& match (before.stage, event) {
        (SaveStage::Inspecting, SaveEvent::Inspected(stamp, text)) => inspected(
            document,
            stamp,
            text,
            after,
            action,
        ),
        (SaveStage::BackingUp, SaveEvent::BackedUp(result)) => match result {
            Ok(()) => after.stage is WritingTemp && writes_temp(document, action),
            Err(why) => after.stage is Done && fails_to_write(
                action,
                backup_path(document.path@),
                why,
            ),
        },
        (SaveStage::WritingTemp, SaveEvent::TempWritten(result)) => match result {
            Ok(()) => after.stage is SettingMode && (action matches SaveAction::SetMode {
                path,
                mode,
            } && path@ == temp_path(document.path@) && mode == document.saved_mode()),
            Err(why) => after.stage is Done && fails_to_write(
                action,
                temp_path(document.path@),
                why,
            ),
        },
        (SaveStage::SettingMode, SaveEvent::ModeSet(result)) => match result {
            Ok(()) => after.stage is Renaming && (action matches SaveAction::Rename { from, to }
                && from@ == temp_path(document.path@) && to@ == document.path@),
            Err(why) => after.stage is Done && fails_to_write(
                action,
                temp_path(document.path@),
                why,
            ),
        },
        (SaveStage::Renaming, SaveEvent::Renamed(result)) => match result {
            Ok(()) => after.stage is Done && action == SaveAction::Finish(
                Ok::<SaveOutcome, DocumentError>(SaveOutcome::Renamed),
            ),
            Err(_) => after.stage is WritingInPlace && (action matches SaveAction::WriteInPlace {
                path,
                mode,
                text,
            } && path@ == document.path@ && mode == document.saved_mode() && text@
                == document.text@),
        },
        (SaveStage::WritingInPlace, SaveEvent::WrittenInPlace(result)) => match result {
            Ok(()) => after.stage is RemovingTemp && (action matches SaveAction::RemoveTemp(path)
                && path@ == temp_path(document.path@)),
            Err(why) => after.stage is Done && fails_to_write(action, document.path@, why),
        },
        (SaveStage::RemovingTemp, SaveEvent::TempRemoved) => after.stage is Done && action
            == SaveAction::Finish(
            Ok::<SaveOutcome, DocumentError>(SaveOutcome::WrittenInPlace),
        ),
        _ => false,
    }
}

/// The event is what can come of the action that the stage stands for.
pub open spec fn save_fits(stage: SaveStage, event: SaveEvent) -> bool {
    match stage {
        SaveStage::Inspecting => event is Inspected,
        SaveStage::BackingUp => event is BackedUp,
        SaveStage::WritingTemp => event is TempWritten,
        SaveStage::SettingMode => event is ModeSet,
        SaveStage::Renaming => event is Renamed,
        SaveStage::WritingInPlace => event is WrittenInPlace,
        SaveStage::RemovingTemp => event is TempRemoved,
        SaveStage::Done => false,
    }
}

impl Save {
    /// Begin to write a document to disk.
    pub fn start(document: Draft) -> (r: (Save, SaveAction))
        ensures
            begins(document, r.0, r.1),
    {
        if !document.writable {
            let path = document.path.clone();
            return (
                Save { document, stage: SaveStage::Done },
                SaveAction::Finish(Err(DocumentError::NotWritable { path })),
            );
        }
        if document.stamp.is_some() {
            return (Save { document, stage: SaveStage::Inspecting }, SaveAction::Inspect);
        }
        let save = Save { document, stage: SaveStage::Inspecting };
        save.write_temp()
    }

    fn at(self, stage: SaveStage) -> (r: Save)
        ensures
            r == (Save { stage, ..self }),
    {
        Save { document: self.document, stage }
    }

    fn write_temp(self) -> (r: (Save, SaveAction))
        ensures
            r.0 == (Save { stage: SaveStage::WritingTemp, ..self }),
            writes_temp(self.document, r.1),
    {
        let path = temp_of(self.document.path.as_str());
        let text = self.document.text.clone();
        (self.at(SaveStage::WritingTemp), SaveAction::WriteTemp { path, text })
    }

    fn refuse(self, error: DocumentError) -> (r: (Save, SaveAction))
        ensures
            r.0 == (Save { stage: SaveStage::Done, ..self }),
            refused(r.1, error),
    {
        (self.at(SaveStage::Done), SaveAction::Finish(Err(error)))
    }

    fn judge(self, stamp: Result<Stamp, String>, text: Result<String, String>) -> (r: (
        Save,
        SaveAction,
    ))
        ensures
            r.0.document == self.document,
            inspected(self.document, stamp, text, r.0, r.1),
    {
        let path = self.document.path.clone();
        let now = match stamp {
            Ok(now) => now,
            Err(source) => return self.refuse(DocumentError::Read { path, source }),
        };
        let raw = match text {
            Ok(raw) => raw,
            Err(source) => return self.refuse(DocumentError::Read { path, source }),
        };
        match parse(raw.as_str()) {
            Ok(_) => {},
            Err(_) => return self.refuse(DocumentError::NowUnparseable { path }),
        }
        let unchanged: bool = match self.document.stamp {
            Some(then) => then == now,
            None => false,
        };
        if !unchanged {
            return self.refuse(DocumentError::ExternalEdit { path });
        }
        let backup = backup_of(path.as_str());
        (self.at(SaveStage::BackingUp), SaveAction::BackUp(backup))
    }

    /// Take in what came of the last action, and say what to do next.
    pub fn next(self, event: SaveEvent) -> (r: (Save, SaveAction))
        requires
            save_fits(self.stage, event),
        ensures
            saved(self, event, r.0, r.1),
    {
        match event {
            SaveEvent::Inspected(stamp, text) => self.judge(stamp, text),
            SaveEvent::BackedUp(Ok(())) => self.write_temp(),
            SaveEvent::BackedUp(Err(source)) => {
                let path = backup_of(self.document.path.as_str());
                self.refuse(DocumentError::Write { path, source })
            },
            SaveEvent::TempWritten(Ok(())) => {
                let path = temp_of(self.document.path.as_str());
                let mode: u32 = self.document.target_mode();
                (self.at(SaveStage::SettingMode), SaveAction::SetMode { path, mode })
            },
            SaveEvent::TempWritten(Err(source)) => {
                let path = temp_of(self.document.path.as_str());
                self.refuse(DocumentError::Write { path, source })
            },
            SaveEvent::ModeSet(Ok(())) => {
                let from = temp_of(self.document.path.as_str());
                let to = self.document.path.clone();
                (self.at(SaveStage::Renaming), SaveAction::Rename { from, to })
            },
            SaveEvent::ModeSet(Err(source)) => {
                let path = temp_of(self.document.path.as_str());
                self.refuse(DocumentError::Write { path, source })
            },
            SaveEvent::Renamed(Ok(())) => (
                self.at(SaveStage::Done),
                SaveAction::Finish(Ok(SaveOutcome::Renamed)),
            ),
            SaveEvent::Renamed(Err(_)) => {
                let path = self.document.path.clone();
                let mode: u32 = self.document.target_mode();
                let text = self.document.text.clone();
                (
                    self.at(SaveStage::WritingInPlace),
                    SaveAction::WriteInPlace { path, mode, text },
                )
            },
            SaveEvent::WrittenInPlace(Ok(())) => {
                let path = temp_of(self.document.path.as_str());
                (self.at(SaveStage::RemovingTemp), SaveAction::RemoveTemp(path))
            },
            SaveEvent::WrittenInPlace(Err(source)) => {
                let path = self.document.path.clone();
                self.refuse(DocumentError::Write { path, source })
            },
            SaveEvent::TempRemoved => (
                self.at(SaveStage::Done),
                SaveAction::Finish(Ok(SaveOutcome::WrittenInPlace)),
            ),
        }
    }
}

/// A document that is not writable is refused, and nothing on disk changes.
pub proof fn an_unwritable_document_is_refused(
    document: Draft,
    after: Save,
    action: SaveAction,
)
    requires
        begins(document, after, action),
    ensures
        !document.writable ==> after.stage is Done && !action.writes(),
        document.stamp is Some ==> !action.writes(),
{
}

/// A file that was edited by something else, or that no longer parses, is
/// refused, and nothing on disk changes.
pub proof fn a_changed_file_is_not_overwritten(
    before: Save,
    stamp: Result<Stamp, String>,
    text: Result<String, String>,
    after: Save,
    action: SaveAction,
)
    requires
        before.stage is Inspecting,
        saved(before, SaveEvent::Inspected(stamp, text), after, action),
        action.writes(),
    ensures
        stamp is Ok,
        text is Ok,
        before.document.stamp == Some(stamp->Ok_0),
        toml(text->Ok_0@) is Ok,
        action is BackUp,
{
}

/// The file itself is touched only once its successor lies written, complete
/// and with its mode, next to it.
pub proof fn the_target_is_replaced_last(
    before: Save,
    event: SaveEvent,
    after: Save,
    action: SaveAction,
)
    requires
        saved(before, event, after, action),
        action is Rename || action is WriteInPlace,
    ensures
        before.stage is SettingMode && event->ModeSet_0 is Ok || before.stage is Renaming,
{
}

/// The copy of a file stands beside it under its name and `.bak`; what is written
/// first stands in the same directory, hidden and with `.tmp` behind its name; and
/// a new file is for its owner alone to read and write.
pub proof fn where_a_save_writes(path: Seq<char>, document: Draft)
    ensures
        backup_path(path) == path + ".bak"@,
        crate::paths::base_name(path) matches Some(name) ==> temp_path(path)
            == crate::torrent::path::below(
            crate::paths::directory(path),
            "."@ + name + ".tmp"@,
        ),
        document.mode is None ==> document.saved_mode() == 0x180,
        document.mode matches Some(mode) ==> document.saved_mode() == mode,
{
}

/// A save that goes well copies the file, writes the new text beside it, sets its
/// mode and renames it into place, in this order; where it cannot be renamed the
/// text is written in place, and any other failure ends the save.
pub proof fn a_save_goes_step_by_step(
    before: Save,
    event: SaveEvent,
    after: Save,
    action: SaveAction,
)
    requires
        saved(before, event, after, action),
    ensures
        match event {
            SaveEvent::Inspected(Ok(now), Ok(text)) => if toml(text@) is Ok && before.document.stamp
                == Some(now) {
                action is BackUp
            } else {
                action matches SaveAction::Finish(result) && result is Err
            },
            SaveEvent::Inspected(_, _) => action matches SaveAction::Finish(result)
                && result is Err,
            SaveEvent::BackedUp(Ok(())) => action matches SaveAction::WriteTemp { text, .. }
                && text@ == before.document.text@,
            SaveEvent::TempWritten(Ok(())) => action is SetMode,
            SaveEvent::ModeSet(Ok(())) => action matches SaveAction::Rename { to, .. } && to@
                == before.document.path@,
            SaveEvent::Renamed(Ok(())) => action == SaveAction::Finish(
                Ok::<SaveOutcome, DocumentError>(SaveOutcome::Renamed),
            ),
            SaveEvent::Renamed(Err(_)) => action matches SaveAction::WriteInPlace {
                path,
                text,
                ..
            } && path@ == before.document.path@ && text@ == before.document.text@,
            SaveEvent::WrittenInPlace(Ok(())) => action is RemoveTemp,
            SaveEvent::TempRemoved => action == SaveAction::Finish(
                Ok::<SaveOutcome, DocumentError>(SaveOutcome::WrittenInPlace),
            ),
            _ => action matches SaveAction::Finish(result) && result is Err,
        },
{
}

/// A file that cannot be written is refused at once; one that was there is
/// inspected before anything is written, and a new one is written right away.
pub proof fn how_a_save_begins(document: Draft, after: Save, action: SaveAction)
    requires
        begins(document, after, action),
    ensures
        !document.writable ==> (action matches SaveAction::Finish(
            Err(DocumentError::NotWritable { path }),
        ) && path == document.path),
        document.writable && document.stamp is Some ==> action is Inspect,
        document.writable && document.stamp is None ==> (action matches SaveAction::WriteTemp {
            text,
            ..
        } && text@ == document.text@),
{
}

} // verus!
