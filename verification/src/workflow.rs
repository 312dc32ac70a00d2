//! The edit workflow: the steps from the source file through the editor to
//! the file that replaces it. The workflow decides what is done next and as
//! whom; the caller does it and reports what happened.
use crate::edit::{
    build_exitcmd, edit_mode, hook_words, mode_chosen, source_tmp_file_name, source_tmp_name,
    spells_mode, tmp_edit_file_name, tmp_edit_name, PRIVATE_MODE,
};
use crate::privs::Identity;
use crate::rule::{EditMode, EnvOptions, Rule};
use crate::text::{opt_view, put, chars_of, string_of, string_views, Text};
use vstd::prelude::*;

verus! {

/// As whom a step is taken.
#[derive(Clone, Copy, Debug, PartialEq, Eq, Structural)]
pub enum Role {
    Invoker,
    Target,
    Nobody,
}

/// What an edit waits for.
#[derive(Clone, Copy, Debug, PartialEq, Eq, Structural)]
pub enum Phase {
    /// The start of the edit.
    Start,
    /// The removal of a stale working copy.
    StaleAsked,
    /// The content of the source.
    SourceAsked,
    /// The creation of the working copy.
    TempAsked,
    /// The end of the editor.
    EditorAsked,
    /// The content of the working copy.
    ReadBackAsked,
    /// The creation of the sibling.
    SiblingAsked,
    /// The removal of the working copy.
    TempRemoveAsked,
    /// The mode of the source.
    StatAsked,
    /// The owner and mode of the sibling.
    SecureAsked,
    /// The end of the exit hook.
    HookAsked,
    /// The removal of the sibling after the exit hook failed.
    UnlinkAsked,
    /// The move of the sibling over the source.
    RenameAsked,
    /// Nothing: the source is replaced.
    Finished,
    /// Nothing: the edit was given up.
    Aborted,
}

/// Why an edit was given up.
#[derive(Clone, Copy, Debug, PartialEq, Eq, Structural)]
pub enum AbortKind {
    /// A stale working copy could not be removed.
    StaleCopy,
    /// The source could not be read.
    SourceUnreadable,
    /// The working copy could not be created, secured or written.
    CopyNotCreated,
    /// The editor did not end cleanly; the working copy is left in place.
    EditorFailed,
    /// The working copy could not be read back.
    CopyUnreadable,
    /// The sibling could not be created or written.
    SiblingNotCreated,
    /// The working copy could not be removed.
    CopyNotRemoved,
    /// The rule spells out what is no mode.
    BadMode,
    /// The sibling could not be given its owner or mode.
    SiblingNotSecured,
    /// The exit hook failed.
    HookFailed,
    /// The sibling could not be removed.
    SiblingNotRemoved,
    /// The sibling could not be moved over the source.
    NotRenamed,
    /// The report was none of what was asked for.
    Unexpected,
}

/// What the caller reports.
#[derive(Clone, Debug)]
pub enum EditEvent {
    /// The edit begins, with the random part of the name of the working copy.
    Begin(String),
    /// What was asked is done.
    Done,
    /// What was asked could not be done.
    Failed,
    /// The content of the source, or `None` where there is no such file.
    Source(Option<String>),
    /// The editor ended; the flag says whether it exited with zero.
    Edited(bool),
    /// The content of the working copy, and the random part of the name of
    /// the sibling.
    Content(String, String),
    /// The mode of the source, or `None` where there is no such file.
    Mode(Option<u32>),
    /// The exit hook ended; the flag says whether it ran and exited with zero.
    Hook(bool),
}

/// `EditEvent` in specifications.
pub enum EventView {
    Begin(Text),
    Done,
    Failed,
    Source(Option<Text>),
    Edited(bool),
    Content(Text, Text),
    Mode(Option<u32>),
    Hook(bool),
}

impl View for EditEvent {
    type V = EventView;

    open spec fn view(&self) -> EventView {
        match self {
            EditEvent::Begin(r) => EventView::Begin(r@),
            EditEvent::Done => EventView::Done,
            EditEvent::Failed => EventView::Failed,
            EditEvent::Source(c) => EventView::Source(opt_view(*c)),
            EditEvent::Edited(ok) => EventView::Edited(*ok),
            EditEvent::Content(c, r) => EventView::Content(c@, r@),
            EditEvent::Mode(m) => EventView::Mode(*m),
            EditEvent::Hook(ok) => EventView::Hook(*ok),
        }
    }
}

/// What the caller is to do next.
#[derive(Clone, Debug, PartialEq, Eq)]
pub enum EditAction {
    /// Remove the working copy at this path, if there is one.
    RemoveStale(String),
    /// Read the source at this path, if there is one.
    ReadSource(String),
    /// Create the working copy at this path, which must not exist and is not
    /// followed if it is a link; give it to this user and group with this
    /// mode; write this content.
    CreateTemp(String, u32, u32, u32, String),
    /// Start the editor on the working copy at this path, and wait for it.
    RunEditor(String),
    /// Read the working copy at this path.
    ReadBack(String),
    /// Create the sibling at this path, which must not exist and is not
    /// followed if it is a link; write this content.
    CreateSibling(String, String),
    /// Remove the working copy at this path.
    RemoveTemp(String),
    /// Look up the mode of the source at this path.
    StatSource(String),
    /// Give the sibling at this path this user, this group and this mode.
    Secure(String, u32, u32, u32),
    /// Run the exit hook with this command line, and with `PLEASE_EDIT_FILE`
    /// set to the path of the sibling.
    RunHook(Vec<String>, String),
    /// Remove the sibling at this path.
    Unlink(String),
    /// Move the sibling at the first path over the source at the second.
    Rename(String, String),
    /// Nothing more: the source is replaced.
    Finish,
    /// Nothing more: the edit is given up.
    Abort(AbortKind),
}

/// `EditAction` in specifications.
pub enum StepView {
    RemoveStale(Text),
    ReadSource(Text),
    CreateTemp(Text, u32, u32, u32, Text),
    RunEditor(Text),
    ReadBack(Text),
    CreateSibling(Text, Text),
    RemoveTemp(Text),
    StatSource(Text),
    Secure(Text, u32, u32, u32),
    RunHook(Seq<Text>, Text),
    Unlink(Text),
    Rename(Text, Text),
    Finish,
    Abort(AbortKind),
}

impl View for EditAction {
    type V = StepView;

    open spec fn view(&self) -> StepView {
        match self {
            EditAction::RemoveStale(p) => StepView::RemoveStale(p@),
            EditAction::ReadSource(p) => StepView::ReadSource(p@),
            EditAction::CreateTemp(p, u, g, m, c) => StepView::CreateTemp(p@, *u, *g, *m, c@),
            EditAction::RunEditor(p) => StepView::RunEditor(p@),
            EditAction::ReadBack(p) => StepView::ReadBack(p@),
            EditAction::CreateSibling(p, c) => StepView::CreateSibling(p@, c@),
            EditAction::RemoveTemp(p) => StepView::RemoveTemp(p@),
            EditAction::StatSource(p) => StepView::StatSource(p@),
            EditAction::Secure(p, u, g, m) => StepView::Secure(p@, *u, *g, *m),
            EditAction::RunHook(argv, p) => StepView::RunHook(string_views(argv@), p@),
            EditAction::Unlink(p) => StepView::Unlink(p@),
            EditAction::Rename(from, to) => StepView::Rename(from@, to@),
            EditAction::Finish => StepView::Finish,
            EditAction::Abort(k) => StepView::Abort(*k),
        }
    }
}

impl StepView {
    /// As whom the step is taken: the working copy is the invoker's, the
    /// source and its sibling are the target's.
    pub open spec fn role(self) -> Role {
        match self {
            StepView::RemoveStale(_) => Role::Invoker,
            StepView::CreateTemp(_, _, _, _, _) => Role::Invoker,
            StepView::RunEditor(_) => Role::Invoker,
            StepView::ReadBack(_) => Role::Invoker,
            StepView::RemoveTemp(_) => Role::Invoker,
            StepView::ReadSource(_) => Role::Target,
            StepView::CreateSibling(_, _) => Role::Target,
            StepView::StatSource(_) => Role::Target,
            StepView::Secure(_, _, _, _) => Role::Target,
            StepView::RunHook(_, _) => Role::Target,
            StepView::Unlink(_) => Role::Target,
            StepView::Rename(_, _) => Role::Target,
            StepView::Finish => Role::Nobody,
            StepView::Abort(_) => Role::Nobody,
        }
    }
}

/// One edit of one file.
#[derive(Clone, Debug)]
pub struct EditSession {
    /// The name of the service.
    pub service: String,
    /// The path of the source.
    pub source: String,
    /// The name of the invoker.
    pub invoker: String,
    /// The user of the invoker.
    pub invoker_uid: u32,
    /// The group of the invoker.
    pub invoker_gid: u32,
    /// The user that the result is given to: the target.
    pub owner_uid: u32,
    /// The group of the target.
    pub target_gid: u32,
    /// The group that the result is given to.
    pub owner_gid: u32,
    /// Whether a failing exit hook starts the edit anew.
    pub resume: bool,
    /// The rule under which the file is edited.
    pub entry: EnvOptions,
    /// What the edit waits for.
    pub phase: Phase,
    /// The path of the working copy.
    pub temp: String,
    /// The path of the sibling.
    pub sibling: String,
    /// The content that an earlier round of the edit left.
    pub buffer: Option<String>,
    /// The content that the editor left in this round.
    pub edited: String,
}

/// `EditSession` in specifications.
pub struct Session {
    pub service: Text,
    pub source: Text,
    pub invoker: Text,
    pub invoker_uid: u32,
    pub invoker_gid: u32,
    pub owner_uid: u32,
    pub target_gid: u32,
    pub owner_gid: u32,
    pub resume: bool,
    pub entry: Rule,
    pub phase: Phase,
    pub temp: Text,
    pub sibling: Text,
    pub buffer: Option<Text>,
    pub edited: Text,
}

impl View for EditSession {
    type V = Session;

    open spec fn view(&self) -> Session {
        Session {
            service: self.service@,
            source: self.source@,
            invoker: self.invoker@,
            invoker_uid: self.invoker_uid,
            invoker_gid: self.invoker_gid,
            owner_uid: self.owner_uid,
            target_gid: self.target_gid,
            owner_gid: self.owner_gid,
            resume: self.resume,
            entry: self.entry@,
            phase: self.phase,
            temp: self.temp@,
            sibling: self.sibling@,
            buffer: opt_view(self.buffer),
            edited: self.edited@,
        }
    }
}

impl Session {
    /// The edit given up.
    pub open spec fn abort(self, kind: AbortKind) -> (Session, StepView) {
        (Session { phase: Phase::Aborted, ..self }, StepView::Abort(kind))
    }

    /// The edit with the next thing asked.
    pub open spec fn ask(self, phase: Phase, step: StepView) -> (Session, StepView) {
        (Session { phase, ..self }, step)
    }

    /// The step that gives the sibling its owner and mode, where the mode of
    /// the source is `source_mode`.
    pub open spec fn secure(self, source_mode: Option<u32>) -> (Session, StepView) {
        match mode_chosen(self.entry, source_mode) {
            Some(mode) => self.ask(
                Phase::SecureAsked,
                StepView::Secure(self.sibling, self.owner_uid, self.owner_gid, mode),
            ),
            None => self.abort(AbortKind::BadMode),
        }
    }

    /// The name of the service under which the sibling is made.
    pub open spec fn copy_service(self) -> Text {
        self.service + ".copy"@
    }

    /// One step of the edit. The working copy is made from the source, or
    /// from what an earlier round left; after a clean end of the editor it is
    /// read back, written to a sibling of the source and removed; the sibling
    /// gets its owner and mode, passes the exit hook if there is one, and is
    /// moved over the source. A failing exit hook removes the sibling and
    /// starts a new round from what the editor left, if the edit resumes,
    /// and gives the edit up if not. Any other failure gives the edit up. An
    /// edit that is finished stays finished.
    pub open spec fn step(self, event: EventView) -> (Session, StepView) {
        match (self.phase, event) {
            (Phase::Start, EventView::Begin(random)) => {
                let temp = tmp_edit_name(self.source, self.service, self.invoker, random);
                Session { temp, ..self }.ask(Phase::StaleAsked, StepView::RemoveStale(temp))
            },
            (Phase::StaleAsked, EventView::Done) => match self.buffer {
                Some(content) => self.ask(
                    Phase::TempAsked,
                    StepView::CreateTemp(
                        self.temp,
                        self.invoker_uid,
                        self.invoker_gid,
                        PRIVATE_MODE,
                        content,
                    ),
                ),
                None => self.ask(Phase::SourceAsked, StepView::ReadSource(self.source)),
            },
            (Phase::StaleAsked, EventView::Failed) => self.abort(AbortKind::StaleCopy),
            (Phase::SourceAsked, EventView::Source(content)) => {
                let text = match content {
                    Some(t) => t,
                    None => Seq::empty(),
                };
                self.ask(
                    Phase::TempAsked,
                    StepView::CreateTemp(
                        self.temp,
                        self.invoker_uid,
                        self.invoker_gid,
                        PRIVATE_MODE,
                        text,
                    ),
                )
            },
            (Phase::SourceAsked, EventView::Failed) => self.abort(AbortKind::SourceUnreadable),
            (Phase::TempAsked, EventView::Done) => self.ask(
                Phase::EditorAsked,
                StepView::RunEditor(self.temp),
            ),
            (Phase::TempAsked, EventView::Failed) => self.abort(AbortKind::CopyNotCreated),
            (Phase::EditorAsked, EventView::Edited(clean)) => if clean {
                self.ask(Phase::ReadBackAsked, StepView::ReadBack(self.temp))
            } else {
                self.abort(AbortKind::EditorFailed)
            },
            (Phase::ReadBackAsked, EventView::Content(text, random)) => {
                let sibling = source_tmp_name(
                    self.source,
                    self.copy_service(),
                    self.invoker,
                    random,
                );
                Session { sibling, edited: text, ..self }.ask(
                    Phase::SiblingAsked,
                    StepView::CreateSibling(sibling, text),
                )
            },
            (Phase::ReadBackAsked, EventView::Failed) => self.abort(AbortKind::CopyUnreadable),
            (Phase::SiblingAsked, EventView::Done) => self.ask(
                Phase::TempRemoveAsked,
                StepView::RemoveTemp(self.temp),
            ),
            (Phase::SiblingAsked, EventView::Failed) => self.abort(AbortKind::SiblingNotCreated),
            (Phase::TempRemoveAsked, EventView::Done) => if spells_mode(self.entry) {
                self.secure(None)
            } else {
                self.ask(Phase::StatAsked, StepView::StatSource(self.source))
            },
            (Phase::TempRemoveAsked, EventView::Failed) => self.abort(AbortKind::CopyNotRemoved),
            (Phase::StatAsked, EventView::Mode(mode)) => self.secure(mode),
            (Phase::SecureAsked, EventView::Done) => match self.entry.exitcmd {
                Some(hook) => self.ask(
                    Phase::HookAsked,
                    StepView::RunHook(hook_words(hook, self.source, self.sibling), self.sibling),
                ),
                None => self.ask(Phase::RenameAsked, StepView::Rename(self.sibling, self.source)),
            },
            (Phase::SecureAsked, EventView::Failed) => self.abort(AbortKind::SiblingNotSecured),
            (Phase::HookAsked, EventView::Hook(ok)) => if ok {
                self.ask(Phase::RenameAsked, StepView::Rename(self.sibling, self.source))
            } else {
                self.ask(Phase::UnlinkAsked, StepView::Unlink(self.sibling))
            },
            (Phase::UnlinkAsked, EventView::Done) => if self.resume {
                Session { buffer: Some(self.edited), ..self }.ask(
                    Phase::StaleAsked,
                    StepView::RemoveStale(self.temp),
                )
            } else {
                self.abort(AbortKind::HookFailed)
            },
            (Phase::UnlinkAsked, EventView::Failed) => self.abort(AbortKind::SiblingNotRemoved),
            (Phase::RenameAsked, EventView::Done) => (
                Session { phase: Phase::Finished, ..self },
                StepView::Finish,
            ),
            (Phase::RenameAsked, EventView::Failed) => self.abort(AbortKind::NotRenamed),
            (Phase::Finished, _) => (self, StepView::Finish),
            _ => self.abort(AbortKind::Unexpected),
        }
    }

    /// The edit that is about to begin.
    pub open spec fn fresh(
        service: Text,
        source: Text,
        invoker: Text,
        invoker_uid: u32,
        invoker_gid: u32,
        owner_uid: u32,
        target_gid: u32,
        owner_gid: u32,
        resume: bool,
        entry: Rule,
    ) -> Session {
        Session {
            service,
            source,
            invoker,
            invoker_uid,
            invoker_gid,
            owner_uid,
            target_gid,
            owner_gid,
            resume,
            entry,
            phase: Phase::Start,
            temp: Seq::empty(),
            sibling: Seq::empty(),
            buffer: None,
            edited: Seq::empty(),
        }
    }
}

impl Session {
    /// The identity that the process takes for a step: that of the invoker
    /// for the working copy; that of the target for the source and the
    /// creation of the sibling; and the target with the group of the result
    /// from the moment the sibling gets its owner.
    pub open spec fn identity(self, step: StepView) -> Option<Identity> {
        match step {
            StepView::ReadSource(_) => Some(
                Identity { uid: self.owner_uid, gid: self.target_gid },
            ),
            StepView::CreateSibling(_, _) => Some(
                Identity { uid: self.owner_uid, gid: self.target_gid },
            ),
            _ => match step.role() {
                Role::Invoker => Some(Identity { uid: self.invoker_uid, gid: self.invoker_gid }),
                Role::Target => Some(Identity { uid: self.owner_uid, gid: self.owner_gid }),
                Role::Nobody => None,
            },
        }
    }
}

impl EditAction {
    /// As whom the step is to be taken.
    pub fn role(&self) -> (r: Role)
        ensures
            r == self@.role(),
    {
        match self {
            EditAction::RemoveStale(_) => Role::Invoker,
            EditAction::CreateTemp(_, _, _, _, _) => Role::Invoker,
            EditAction::RunEditor(_) => Role::Invoker,
            EditAction::ReadBack(_) => Role::Invoker,
            EditAction::RemoveTemp(_) => Role::Invoker,
            EditAction::ReadSource(_) => Role::Target,
            EditAction::CreateSibling(_, _) => Role::Target,
            EditAction::StatSource(_) => Role::Target,
            EditAction::Secure(_, _, _, _) => Role::Target,
            EditAction::RunHook(_, _) => Role::Target,
            EditAction::Unlink(_) => Role::Target,
            EditAction::Rename(_, _) => Role::Target,
            EditAction::Finish => Role::Nobody,
            EditAction::Abort(_) => Role::Nobody,
        }
    }
}

impl EditSession {
    /// The edit of `source` for the invoker, under the rule `entry`. The
    /// target is the user `owner_uid` of the group `target_gid`, and the
    /// result is given to `owner_uid` and `owner_gid`.
    pub fn new(
        service: &str,
        source: &str,
        invoker: &str,
        invoker_uid: u32,
        invoker_gid: u32,
        owner_uid: u32,
        target_gid: u32,
        owner_gid: u32,
        resume: bool,
        entry: &EnvOptions,
    ) -> (s: EditSession)
        ensures
            s@ == Session::fresh(
                service@,
                source@,
                invoker@,
                invoker_uid,
                invoker_gid,
                owner_uid,
                target_gid,
                owner_gid,
                resume,
                entry@,
            ),
    {
        EditSession {
            service: service.to_string(),
            source: source.to_string(),
            invoker: invoker.to_string(),
            invoker_uid,
            invoker_gid,
            owner_uid,
            target_gid,
            owner_gid,
            resume,
            entry: entry.duplicate(),
            phase: Phase::Start,
            temp: String::new(),
            sibling: String::new(),
            buffer: None,
            edited: String::new(),
        }
    }

    /// The identity that the process is to take for `action`.
    pub fn identity(&self, action: &EditAction) -> (id: Option<Identity>)
        ensures
            id == self@.identity(action@),
    {
        match action {
            EditAction::ReadSource(_) => Some(
                Identity { uid: self.owner_uid, gid: self.target_gid },
            ),
            EditAction::CreateSibling(_, _) => Some(
                Identity { uid: self.owner_uid, gid: self.target_gid },
            ),
            _ => match action.role() {
                Role::Invoker => Some(Identity { uid: self.invoker_uid, gid: self.invoker_gid }),
                Role::Target => Some(Identity { uid: self.owner_uid, gid: self.owner_gid }),
                Role::Nobody => None,
            },
        }
    }

    /// Gives the edit up.
    fn abort(&mut self, kind: AbortKind) -> (action: EditAction)
        ensures
            (final(self)@, action@) == old(self)@.abort(kind),
    {
        self.phase = Phase::Aborted;
        EditAction::Abort(kind)
    }

    /// Asks for the owner and mode of the sibling.
    fn secure(&mut self, source_mode: Option<u32>) -> (action: EditAction)
        ensures
            (final(self)@, action@) == old(self)@.secure(source_mode),
    {
        match edit_mode(&self.entry, source_mode) {
            Some(mode) => {
                self.phase = Phase::SecureAsked;
                EditAction::Secure(self.sibling.clone(), self.owner_uid, self.owner_gid, mode)
            },
            None => self.abort(AbortKind::BadMode),
        }
    }

    /// Takes the report of the caller on what was asked last, and says what
    /// is to be done next.
    pub fn step(&mut self, event: EditEvent) -> (action: EditAction)
        ensures
            (final(self)@, action@) == old(self)@.step(event@),
    {
        match (self.phase, event) {
            (Phase::Start, EditEvent::Begin(random)) => {
                self.temp = tmp_edit_file_name(
                    self.source.as_str(),
                    self.service.as_str(),
                    self.invoker.as_str(),
                    random.as_str(),
                );
                self.phase = Phase::StaleAsked;
                EditAction::RemoveStale(self.temp.clone())
            },
            (Phase::StaleAsked, EditEvent::Done) => match &self.buffer {
                Some(content) => {
                    let content = content.clone();
                    self.phase = Phase::TempAsked;
                    EditAction::CreateTemp(
                        self.temp.clone(),
                        self.invoker_uid,
                        self.invoker_gid,
                        PRIVATE_MODE,
                        content,
                    )
                },
                None => {
                    self.phase = Phase::SourceAsked;
                    EditAction::ReadSource(self.source.clone())
                },
            },
            (Phase::StaleAsked, EditEvent::Failed) => self.abort(AbortKind::StaleCopy),
            (Phase::SourceAsked, EditEvent::Source(content)) => {
                let text = match content {
                    Some(t) => t,
                    None => String::new(),
                };
                self.phase = Phase::TempAsked;
                EditAction::CreateTemp(
                    self.temp.clone(),
                    self.invoker_uid,
                    self.invoker_gid,
                    PRIVATE_MODE,
                    text,
                )
            },
            (Phase::SourceAsked, EditEvent::Failed) => self.abort(AbortKind::SourceUnreadable),
            (Phase::TempAsked, EditEvent::Done) => {
                self.phase = Phase::EditorAsked;
                EditAction::RunEditor(self.temp.clone())
            },
            (Phase::TempAsked, EditEvent::Failed) => self.abort(AbortKind::CopyNotCreated),
            (Phase::EditorAsked, EditEvent::Edited(clean)) => {
                if clean {
                    self.phase = Phase::ReadBackAsked;
                    EditAction::ReadBack(self.temp.clone())
                } else {
                    self.abort(AbortKind::EditorFailed)
                }
            },
            (Phase::ReadBackAsked, EditEvent::Content(text, random)) => {
                let mut service = chars_of(self.service.as_str());
                put(&mut service, ".copy");
                let service = string_of(&service);
                self.sibling = source_tmp_file_name(
                    self.source.as_str(),
                    service.as_str(),
                    self.invoker.as_str(),
                    random.as_str(),
                );
                self.edited = text.clone();
                self.phase = Phase::SiblingAsked;
                EditAction::CreateSibling(self.sibling.clone(), text)
            },
            (Phase::ReadBackAsked, EditEvent::Failed) => self.abort(AbortKind::CopyUnreadable),
            (Phase::SiblingAsked, EditEvent::Done) => {
                self.phase = Phase::TempRemoveAsked;
                EditAction::RemoveTemp(self.temp.clone())
            },
            (Phase::SiblingAsked, EditEvent::Failed) => self.abort(AbortKind::SiblingNotCreated),
            (Phase::TempRemoveAsked, EditEvent::Done) => {
                let spelled = match self.entry.edit_mode {
                    Some(EditMode::Mode(_)) => true,
                    _ => false,
                };
                if spelled {
                    self.secure(None)
                } else {
                    self.phase = Phase::StatAsked;
                    EditAction::StatSource(self.source.clone())
                }
            },
            (Phase::TempRemoveAsked, EditEvent::Failed) => self.abort(AbortKind::CopyNotRemoved),
            (Phase::StatAsked, EditEvent::Mode(mode)) => self.secure(mode),
            (Phase::SecureAsked, EditEvent::Done) => {
                if self.entry.exitcmd.is_some() {
                    let argv = build_exitcmd(
                        &self.entry,
                        self.source.as_str(),
                        self.sibling.as_str(),
                    );
                    self.phase = Phase::HookAsked;
                    EditAction::RunHook(argv, self.sibling.clone())
                } else {
                    self.phase = Phase::RenameAsked;
                    EditAction::Rename(self.sibling.clone(), self.source.clone())
                }
            },
            (Phase::SecureAsked, EditEvent::Failed) => self.abort(AbortKind::SiblingNotSecured),
            (Phase::HookAsked, EditEvent::Hook(ok)) => {
                if ok {
                    self.phase = Phase::RenameAsked;
                    EditAction::Rename(self.sibling.clone(), self.source.clone())
                } else {
                    self.phase = Phase::UnlinkAsked;
                    EditAction::Unlink(self.sibling.clone())
                }
            },
            (Phase::UnlinkAsked, EditEvent::Done) => {
                if self.resume {
                    self.buffer = Some(self.edited.clone());
                    self.phase = Phase::StaleAsked;
                    EditAction::RemoveStale(self.temp.clone())
                } else {
                    self.abort(AbortKind::HookFailed)
                }
            },
            (Phase::UnlinkAsked, EditEvent::Failed) => self.abort(AbortKind::SiblingNotRemoved),
            (Phase::RenameAsked, EditEvent::Done) => {
                self.phase = Phase::Finished;
                EditAction::Finish
            },
            (Phase::RenameAsked, EditEvent::Failed) => self.abort(AbortKind::NotRenamed),
            (Phase::Finished, _) => EditAction::Finish,
            _ => self.abort(AbortKind::Unexpected),
        }
    }
}

/// The edit after the first `n` of `events`.
pub open spec fn session_after(start: Session, events: Seq<EventView>, n: int) -> Session
    decreases n,
{
    if n <= 0 {
        start
    } else {
        session_after(start, events, n - 1).step(events[n - 1]).0
    }
}

/// What is asked in answer to the event at index `n`.
pub open spec fn step_at(start: Session, events: Seq<EventView>, n: int) -> StepView {
    session_after(start, events, n).step(events[n]).1
}

/// The source is only ever touched by the move of the sibling over it: a
/// step that names the source as the place of a write is that move, and it is
/// asked only when the sibling has its owner and mode and has passed the
/// exit hook, if there is one.
pub proof fn lemma_rename_only_after_hook(s: Session, event: EventView)
    ensures
        s.step(event).1 is Rename ==> {
            &&& s.step(event).1 == StepView::Rename(s.sibling, s.source)
            &&& (s.phase == Phase::SecureAsked && event == EventView::Done && s.entry.exitcmd
                is None) || (s.phase == Phase::HookAsked && event == EventView::Hook(true))
        },
{
}

/// An edit that was given up asks for nothing more.
pub proof fn lemma_ended_stays_ended(s: Session, events: Seq<EventView>, n: int)
    requires
        s.phase == Phase::Aborted,
        0 <= n < events.len(),
    ensures
        step_at(s, events, n) is Abort,
        session_after(s, events, n + 1).phase == Phase::Aborted,
    decreases n,
{
    if n > 0 {
        lemma_ended_stays_ended(s, events, n - 1);
    }
}

/// Editor atomicity: when the editor does not end cleanly the edit is given
/// up, and whatever is reported after that, the move over the source is never
/// asked for: the source stays as it was.
pub proof fn lemma_editor_failure_keeps_source(s: Session, events: Seq<EventView>, n: int)
    requires
        s.phase == Phase::EditorAsked,
        0 <= n < events.len(),
        events[0] == EventView::Edited(false),
    ensures
        step_at(s, events, n) is Abort,
        n == 0 ==> step_at(s, events, n) == StepView::Abort(AbortKind::EditorFailed),
    decreases n,
{
    reveal_with_fuel(session_after, 2);
    if n > 0 {
        let aborted = s.step(events[0]).0;
        let rest = events.subrange(1, events.len() as int);
        lemma_session_after_shift(s, events, n);
        lemma_ended_stays_ended(aborted, rest, n - 1);
        assert(rest[n - 1] == events[n]);
    }
}

/// The edit after `n` events is the edit after its first event, run through
/// the rest.
pub proof fn lemma_session_after_shift(s: Session, events: Seq<EventView>, n: int)
    requires
        1 <= n <= events.len(),
    ensures
        session_after(s, events, n) == session_after(
            s.step(events[0]).0,
            events.subrange(1, events.len() as int),
            n - 1,
        ),
    decreases n,
{
    let rest = events.subrange(1, events.len() as int);
    if n > 1 {
        lemma_session_after_shift(s, events, n - 1);
        assert(rest[n - 2] == events[n - 1]);
    } else {
        reveal_with_fuel(session_after, 2);
    }
}

/// The sibling holds what the editor left: the content that is read back is
/// the content that the sibling is created with, and it is kept for a round
/// that a failing exit hook may start.
pub proof fn lemma_sibling_holds_edit(s: Session, text: Text, random: Text)
    requires
        s.phase == Phase::ReadBackAsked,
    ensures
        ({
            let (after, step) = s.step(EventView::Content(text, random));
            &&& step == StepView::CreateSibling(after.sibling, text)
            &&& after.edited == text
            &&& after.phase == Phase::SiblingAsked
        }),
{
}

/// From the creation of the sibling to the move over the source, the sibling
/// and what the editor left stay the same.
pub proof fn lemma_round_keeps_edit(s: Session, event: EventView)
    requires
        s.phase == Phase::SiblingAsked || s.phase == Phase::TempRemoveAsked || s.phase
            == Phase::StatAsked || s.phase == Phase::SecureAsked || s.phase == Phase::HookAsked
            || s.phase == Phase::UnlinkAsked || s.phase == Phase::RenameAsked,
    ensures
        s.step(event).0.sibling == s.sibling,
        s.step(event).0.edited == s.edited,
        s.step(event).0.source == s.source,
{
}

/// Exit-hook resume: when the exit hook has failed and the sibling is
/// removed, an edit that resumes starts a new round whose working copy is
/// made from what the editor left in the round before; an edit that does not
/// resume is given up.
pub proof fn lemma_resume_preserves_buffer(s: Session)
    requires
        s.phase == Phase::UnlinkAsked,
    ensures
        ({
            let (after, step) = s.step(EventView::Done);
            if s.resume {
                &&& step == StepView::RemoveStale(s.temp)
                &&& after.buffer == Some(s.edited)
                &&& after.step(EventView::Done).1 == StepView::CreateTemp(
                    s.temp,
                    s.invoker_uid,
                    s.invoker_gid,
                    PRIVATE_MODE,
                    s.edited,
                )
            } else {
                step == StepView::Abort(AbortKind::HookFailed)
            }
        }),
{
}

/// A failing exit hook never lets the sibling reach the source: the next
/// step removes the sibling.
pub proof fn lemma_failed_hook_unlinks(s: Session)
    requires
        s.phase == Phase::HookAsked,
    ensures
        s.step(EventView::Hook(false)).1 == StepView::Unlink(s.sibling),
{
}

/// The discipline of identities: whatever is done to the working copy is
/// done as the invoker, and whatever is done to the source or its sibling is
/// done as the target.
pub proof fn lemma_roles(step: StepView)
    ensures
        (step is RemoveStale || step is CreateTemp || step is RunEditor || step is ReadBack
            || step is RemoveTemp) ==> step.role() == Role::Invoker,
        (step is ReadSource || step is CreateSibling || step is StatSource || step is Secure
            || step is RunHook || step is Unlink || step is Rename) ==> step.role()
            == Role::Target,
{
}

/// The identity of every step is that of the invoker or that of the target:
/// never a third party.
pub proof fn lemma_identity_is_invoker_or_target(s: Session, step: StepView)
    ensures
        match s.identity(step) {
            Some(id) => (id.uid == s.invoker_uid && id.gid == s.invoker_gid) || (id.uid
                == s.owner_uid && (id.gid == s.target_gid || id.gid == s.owner_gid)),
            None => step is Finish || step is Abort,
        },
{
}

/// The files that an edit touches: the content at each path that exists.
pub type Disk = Map<Text, Text>;

/// The content of the file at `path`, if there is one.
pub open spec fn content_at(disk: Disk, path: Text) -> Option<Text> {
    if disk.dom().contains(path) {
        Some(disk[path])
    } else {
        None
    }
}

/// The files after the caller took `step` and reported `event`. A step that
/// failed changed nothing; what is read back from the working copy is what
/// the editor left there; the editor and the exit hook write no other files.
pub open spec fn disk_after(disk: Disk, step: StepView, event: EventView) -> Disk {
    match (step, event) {
        (StepView::RemoveStale(p), EventView::Done) => disk.remove(p),
        (StepView::CreateTemp(p, _, _, _, c), EventView::Done) => disk.insert(p, c),
        (StepView::ReadBack(p), EventView::Content(c, _)) => disk.insert(p, c),
        (StepView::CreateSibling(p, c), EventView::Done) => disk.insert(p, c),
        (StepView::RemoveTemp(p), EventView::Done) => disk.remove(p),
        (StepView::Unlink(p), EventView::Done) => disk.remove(p),
        (StepView::Rename(from, to), EventView::Done) => match content_at(disk, from) {
            Some(c) => disk.remove(from).insert(to, c),
            None => disk,
        },
        _ => disk,
    }
}

/// Whether `step` is what an edit in the state `s` waits for, as far as the
/// paths go.
pub open spec fn awaited(s: Session, step: StepView) -> bool {
    match s.phase {
        Phase::Start => step is Finish,
        Phase::StaleAsked => step == StepView::RemoveStale(s.temp),
        Phase::SourceAsked => step == StepView::ReadSource(s.source),
        Phase::TempAsked => step matches StepView::CreateTemp(p, _, _, _, _) && p == s.temp,
        Phase::EditorAsked => step == StepView::RunEditor(s.temp),
        Phase::ReadBackAsked => step == StepView::ReadBack(s.temp),
        Phase::SiblingAsked => step == StepView::CreateSibling(s.sibling, s.edited),
        Phase::TempRemoveAsked => step == StepView::RemoveTemp(s.temp),
        Phase::StatAsked => step == StepView::StatSource(s.source),
        Phase::SecureAsked => step is Secure,
        Phase::HookAsked => step is RunHook,
        Phase::UnlinkAsked => step == StepView::Unlink(s.sibling),
        Phase::RenameAsked => step == StepView::Rename(s.sibling, s.source),
        Phase::Finished => step is Finish,
        Phase::Aborted => step is Abort,
    }
}

/// Whether the caller can have reported `event` for `step`: a file that is
/// created must not have been there.
pub open spec fn possible(disk: Disk, step: StepView, event: EventView) -> bool {
    match (step, event) {
        (StepView::CreateTemp(p, _, _, _, _), EventView::Done) => !disk.dom().contains(p),
        (StepView::CreateSibling(p, _), EventView::Done) => !disk.dom().contains(p),
        _ => true,
    }
}

/// Whether the working copy of the edit is in place: it was created in this
/// round and is not yet removed.
pub open spec fn copy_in_place(phase: Phase) -> bool {
    phase == Phase::EditorAsked || phase == Phase::ReadBackAsked || phase == Phase::SiblingAsked
}

/// Whether the sibling of the edit is in place: it was created in this round
/// and is not yet removed or moved.
pub open spec fn sibling_in_place(phase: Phase) -> bool {
    phase == Phase::TempRemoveAsked || phase == Phase::StatAsked || phase == Phase::SecureAsked
        || phase == Phase::HookAsked || phase == Phase::UnlinkAsked || phase == Phase::RenameAsked
}

/// Whether the copies of an edit lie beside the source, not on it: the paths
/// of the working copy and of the sibling are longer than that of the source.
pub open spec fn copies_apart(s: Session) -> bool {
    &&& (s.phase != Phase::Start && s.phase != Phase::Aborted && s.phase != Phase::Finished)
        ==> s.temp.len() > s.source.len()
    &&& s.phase == Phase::SiblingAsked || sibling_in_place(s.phase) ==> s.sibling.len()
        > s.source.len()
    &&& sibling_in_place(s.phase) ==> s.sibling != s.temp
}

/// What holds of the files throughout an edit whose source held `original`
/// at the start: until the edit is finished the source holds what it held,
/// and once it is finished the source holds what the editor left last; while
/// the sibling is in place it holds what the editor left last.
pub open spec fn atomic(s: Session, pending: StepView, disk: Disk, original: Option<Text>) -> bool {
    &&& awaited(s, pending)
    &&& copies_apart(s)
    &&& if s.phase == Phase::Finished {
        content_at(disk, s.source) == Some(s.edited)
    } else {
        content_at(disk, s.source) == original
    }
    &&& (sibling_in_place(s.phase) && s.phase != Phase::UnlinkAsked) ==> content_at(
        disk,
        s.sibling,
    ) == Some(s.edited)
    &&& copy_in_place(s.phase) ==> disk.dom().contains(s.temp)
}

/// Replacing single characters by single characters keeps the length.
pub proof fn lemma_replace_char_len(s: Text, from: char, to: char, at: int)
    requires
        0 <= at <= s.len(),
    ensures
        crate::text::replace_from(s, seq![from], seq![to], at).len() == s.len() - at,
    decreases s.len() - at,
{
    if at < s.len() {
        if crate::text::matches_at(s, seq![from], at) {
            lemma_replace_char_len(s, from, to, at + 1);
        } else {
            lemma_replace_char_len(s, from, to, at + 1);
        }
    }
}

/// One step keeps the files as an atomic edit has them.
pub proof fn lemma_step_is_atomic(
    s: Session,
    pending: StepView,
    disk: Disk,
    original: Option<Text>,
    event: EventView,
)
    requires
        atomic(s, pending, disk, original),
        possible(disk, pending, event),
    ensures
        atomic(s.step(event).0, s.step(event).1, disk_after(disk, pending, event), original),
{
    let (after, step) = s.step(event);
    let next = disk_after(disk, pending, event);
    reveal_strlit("/tmp/");
    reveal_strlit(".");
    match (s.phase, event) {
        (Phase::Start, EventView::Begin(random)) => {
            lemma_replace_char_len(s.source, '/', '_', 0);
            assert(crate::text::replace(s.source, seq!['/'], seq!['_']).len() == s.source.len());
            assert(after.temp.len() > s.source.len());
        },
        (Phase::ReadBackAsked, EventView::Content(text, random)) => {
            assert(after.sibling.len() > s.source.len());
        },
        _ => {},
    }
    assert(s.temp.len() > s.source.len() ==> s.temp != s.source);
    assert(s.sibling.len() > s.source.len() ==> s.sibling != s.source);
    assert(after.sibling.len() > after.source.len() ==> after.sibling != after.source);
}

/// The step that the edit waits for after the first `n` of `events`, where
/// it waited for `pending` at the start.
pub open spec fn pending_after(
    start: Session,
    pending: StepView,
    events: Seq<EventView>,
    n: int,
) -> StepView {
    if n <= 0 {
        pending
    } else {
        step_at(start, events, n - 1)
    }
}

/// The files after the first `n` of `events`.
pub open spec fn disk_run(
    start: Session,
    pending: StepView,
    disk: Disk,
    events: Seq<EventView>,
    n: int,
) -> Disk
    decreases n,
{
    if n <= 0 {
        disk
    } else {
        disk_after(
            disk_run(start, pending, disk, events, n - 1),
            pending_after(start, pending, events, n - 1),
            events[n - 1],
        )
    }
}

/// Whether each of the first `n` of `events` is one that the caller can have
/// reported.
pub open spec fn all_possible(
    start: Session,
    pending: StepView,
    disk: Disk,
    events: Seq<EventView>,
    n: int,
) -> bool {
    forall|k: int|
        0 <= k < n ==> possible(
            #[trigger] disk_run(start, pending, disk, events, k),
            pending_after(start, pending, events, k),
            events[k],
        )
}

/// An edit is atomic throughout, whatever is reported.
pub proof fn lemma_run_is_atomic(
    start: Session,
    pending: StepView,
    disk: Disk,
    events: Seq<EventView>,
    n: int,
)
    requires
        atomic(start, pending, disk, content_at(disk, start.source)),
        0 <= n <= events.len(),
        all_possible(start, pending, disk, events, n),
    ensures
        atomic(
            session_after(start, events, n),
            pending_after(start, pending, events, n),
            disk_run(start, pending, disk, events, n),
            content_at(disk, start.source),
        ),
    decreases n,
{
    if n > 0 {
        lemma_run_is_atomic(start, pending, disk, events, n - 1);
        assert(possible(
            disk_run(start, pending, disk, events, n - 1),
            pending_after(start, pending, events, n - 1),
            events[n - 1],
        ));
        lemma_step_is_atomic(
            session_after(start, events, n - 1),
            pending_after(start, pending, events, n - 1),
            disk_run(start, pending, disk, events, n - 1),
            content_at(disk, start.source),
            events[n - 1],
        );
    }
}

/// The source of an edit never changes.
pub proof fn lemma_source_is_fixed(start: Session, events: Seq<EventView>, n: int)
    requires
        0 <= n <= events.len(),
    ensures
        session_after(start, events, n).source == start.source,
    decreases n,
{
    if n > 0 {
        lemma_source_is_fixed(start, events, n - 1);
    }
}

/// The source is replaced atomically: from the start of an edit, whatever is
/// reported and however often the exit hook fails, the source holds what it
/// held until the edit is finished; and when the edit is finished, the source
/// holds what the editor left in the last round.
pub proof fn lemma_source_replaced_atomically(
    start: Session,
    disk: Disk,
    events: Seq<EventView>,
    n: int,
)
    requires
        start.phase == Phase::Start,
        0 <= n <= events.len(),
        all_possible(start, StepView::Finish, disk, events, n),
    ensures
        ({
            let s = session_after(start, events, n);
            let now = disk_run(start, StepView::Finish, disk, events, n);
            if s.phase == Phase::Finished {
                content_at(now, start.source) == Some(s.edited)
            } else {
                content_at(now, start.source) == content_at(disk, start.source)
            }
        }),
{
    lemma_run_is_atomic(start, StepView::Finish, disk, events, n);
    lemma_source_is_fixed(start, events, n);
}

/// What the editor left last is what was read back last: only a report of
/// the content of the working copy changes it.
pub proof fn lemma_edited_is_last_read(s: Session, event: EventView)
    ensures
        s.step(event).0.edited == match (s.phase, event) {
            (Phase::ReadBackAsked, EventView::Content(text, _)) => text,
            _ => s.edited,
        },
{
}

/// The working copy is the invoker's alone: whenever it is created, it is
/// given to the invoker, with a mode that lets nobody else read or write it.
pub proof fn lemma_working_copy_is_private(s: Session, event: EventView)
    ensures
        match s.step(event).1 {
            StepView::CreateTemp(_, uid, gid, mode, _) => uid == s.invoker_uid && gid
                == s.invoker_gid && mode == 0o600,
            _ => true,
        },
{
}

/// The result is the owner's: whenever the sibling gets its owner, it is the
/// user and the group that the edit names for the result.
pub proof fn lemma_sibling_is_owned(s: Session, event: EventView)
    ensures
        match s.step(event).1 {
            StepView::Secure(path, uid, gid, mode) => path == s.sibling && uid == s.owner_uid
                && gid == s.owner_gid && mode_chosen(
                s.entry,
                match event {
                    EventView::Mode(m) => m,
                    _ => None,
                },
            ) == Some(mode),
            _ => true,
        },
{
}

} // verus!
