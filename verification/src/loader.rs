//! The loader: reads the policy file by file. It decides what is read next
//! and what each answer means; the caller opens, reads and lists.
use crate::config::{byte_len, Context, FaultKind, LoadContext};
use crate::ini::{
    bad_expression_line, faults_view, lemma_bad_expression_is_fault, lemma_fault_is_kept,
    lemma_scan_keeps_rules, lemma_scan_yields_rules_of_file, scan, scan_spec, sound, Fault,
    FaultView, Frame, FrameView, Pause, Stop,
};
use crate::listing::{files_to_include, included_files, listing_view, Entry};
use crate::request::RunOptions;
use crate::rule::{rules_view, EnvOptions, Rule};
use crate::text::{chars_of, opt_view, same, slice_of, string_of, views, Text};
use vstd::prelude::*;

verus! {

/// The most bytes of policy that are read, over all files.
pub const BYTE_LIMIT: u64 = 10_485_760;

/// The bits of a file mode that say what kind of file it is.
pub const MODE_KIND: u32 = 0o170000;

/// The kind of a regular file.
pub const MODE_REGULAR: u32 = 0o100000;

/// The bits of a file mode that let the group or others write.
pub const MODE_OTHERS_WRITE: u32 = 0o022;

/// What the loader waits for.
#[derive(Debug)]
pub enum Waiting {
    /// Nothing: no file is being read.
    Idle,
    /// The mode of the file that was to be opened.
    Opened(Vec<char>),
    /// The content of the file that was opened.
    Content(Vec<char>),
    /// The entries of the directory that was to be listed.
    Listing(Vec<char>),
}

/// `Waiting` in specifications.
pub enum WaitingView {
    Idle,
    Opened(Text),
    Content(Text),
    Listing(Text),
}

impl View for Waiting {
    type V = WaitingView;

    open spec fn view(&self) -> WaitingView {
        match self {
            Waiting::Idle => WaitingView::Idle,
            Waiting::Opened(p) => WaitingView::Opened(p@),
            Waiting::Content(p) => WaitingView::Content(p@),
            Waiting::Listing(p) => WaitingView::Listing(p@),
        }
    }
}

/// What the caller is to do next.
#[derive(Clone, Debug, PartialEq, Eq)]
pub enum LoadAction {
    /// Open this file and report its mode.
    Open(String),
    /// Read the file that was opened, `BYTE_LIMIT` bytes at most.
    Read(String),
    /// List this directory.
    List(String),
    /// Nothing more: the policy is read. The flag says whether it is faulty.
    Done(bool),
    /// Give up: there is too much policy.
    TooMuch,
}

/// `LoadAction` in specifications.
pub enum ActionView {
    Open(Text),
    Read(Text),
    List(Text),
    Done(bool),
    TooMuch,
}

impl View for LoadAction {
    type V = ActionView;

    open spec fn view(&self) -> ActionView {
        match self {
            LoadAction::Open(p) => ActionView::Open(p@),
            LoadAction::Read(p) => ActionView::Read(p@),
            LoadAction::List(p) => ActionView::List(p@),
            LoadAction::Done(f) => ActionView::Done(*f),
            LoadAction::TooMuch => ActionView::TooMuch,
        }
    }
}

/// What the caller found.
#[derive(Clone, Debug)]
pub enum LoadReply {
    /// The mode of the file that was opened, or `None` where it could not be
    /// opened or examined.
    Opened(Option<u32>),
    /// The text that was read, or `None` where reading failed.
    Content(Option<String>),
    /// The entries of the directory, each with its path and whether it is a
    /// file, or `None` where the directory could not be listed.
    Listing(Option<Vec<(String, bool)>>),
}

/// `LoadReply` in specifications.
pub enum ReplyView {
    Opened(Option<u32>),
    Content(Option<Text>),
    Listing(Option<Seq<Entry>>),
}

impl View for LoadReply {
    type V = ReplyView;

    open spec fn view(&self) -> ReplyView {
        match self {
            LoadReply::Opened(m) => ReplyView::Opened(*m),
            LoadReply::Content(t) => ReplyView::Content(opt_view(*t)),
            LoadReply::Listing(l) => ReplyView::Listing(
                match l {
                    Some(v) => Some(listing_view(v@)),
                    None => None,
                },
            ),
        }
    }
}

/// The loader.
#[derive(Debug)]
pub struct Loader {
    /// For whom the policy is read, and how strictly.
    pub ctx: LoadContext,
    /// The rules read so far, in the order in which their sections ended.
    pub rules: Vec<EnvOptions>,
    /// The bytes of policy read so far.
    pub bytes: u64,
    /// The paths of the files read so far.
    pub seen: Vec<Vec<char>>,
    /// The files that are being read: each includes the next.
    pub frames: Vec<Frame>,
    /// The diagnostics so far.
    pub faults: Vec<Fault>,
    /// What the loader waits for.
    pub waiting: Waiting,
}

/// `Loader` in specifications.
pub struct LoaderView {
    pub ctx: Context,
    pub rules: Seq<Rule>,
    pub bytes: u64,
    pub seen: Seq<Text>,
    pub frames: Seq<FrameView>,
    pub faults: Seq<FaultView>,
    pub waiting: WaitingView,
}

/// The views of the files that are being read.
pub open spec fn frames_view(v: Seq<Frame>) -> Seq<FrameView> {
    Seq::new(v.len(), |i: int| v[i]@)
}

impl View for Loader {
    type V = LoaderView;

    open spec fn view(&self) -> LoaderView {
        LoaderView {
            ctx: self.ctx@,
            rules: rules_view(self.rules@),
            bytes: self.bytes,
            seen: views(self.seen@),
            frames: frames_view(self.frames@),
            faults: faults_view(self.faults@),
            waiting: self.waiting@,
        }
    }
}

/// The diagnostic for a file as a whole.
pub open spec fn file_fault(path: Text, kind: FaultKind) -> FaultView {
    FaultView { file: path, section: Seq::empty(), line: 0, kind }
}

impl LoaderView {
    /// The loader that has read nothing.
    pub open spec fn fresh(ctx: Context) -> LoaderView {
        LoaderView {
            ctx,
            rules: Seq::empty(),
            bytes: 0,
            seen: Seq::empty(),
            frames: Seq::empty(),
            faults: Seq::empty(),
            waiting: WaitingView::Idle,
        }
    }

    /// The end of the reading, with the policy found faulty.
    pub open spec fn failed(self) -> (LoaderView, ActionView) {
        (
            LoaderView { frames: Seq::empty(), waiting: WaitingView::Idle, ..self },
            ActionView::Done(true),
        )
    }

    /// The end of the reading for a fault in the file `path`.
    pub open spec fn failed_for(self, path: Text, kind: FaultKind) -> (LoaderView, ActionView) {
        LoaderView { faults: self.faults.push(file_fault(path, kind)), ..self }.failed()
    }

    /// Reads on in the innermost file. A file that ends gives its last rule,
    /// if that was configured; it ends the reading where it is faulty and
    /// faults count, and else the file that included it is read on. Where
    /// no file is left the policy is read, and it is not faulty.
    pub open spec fn advance(self) -> (LoaderView, ActionView)
        decreases self.frames.len(),
    {
        if self.frames.len() == 0 {
            (LoaderView { waiting: WaitingView::Idle, ..self }, ActionView::Done(false))
        } else {
            let below = self.frames.drop_last();
            let s = scan_spec(self.frames.last(), self.rules, self.faults, self.ctx);
            match s.pause {
                Pause::Ended => {
                    let rules = if s.frame.opt.configured {
                        s.rules.push(s.frame.opt)
                    } else {
                        s.rules
                    };
                    let after = LoaderView { rules, faults: s.faults, frames: below, ..self };
                    if self.ctx.fail_error && s.frame.faulty {
                        if below.len() > 0 {
                            after.failed_for(s.frame.path, FaultKind::CannotInclude)
                        } else {
                            after.failed()
                        }
                    } else {
                        after.advance()
                    }
                },
                Pause::File(p) => (
                    LoaderView {
                        rules: s.rules,
                        faults: s.faults,
                        frames: below.push(s.frame),
                        waiting: WaitingView::Opened(p),
                        ..self
                    },
                    ActionView::Open(p),
                ),
                Pause::Dir(p) => (
                    LoaderView {
                        rules: s.rules,
                        faults: s.faults,
                        frames: below.push(s.frame),
                        waiting: WaitingView::Listing(p),
                        ..self
                    },
                    ActionView::List(p),
                ),
                Pause::Fatal => LoaderView { rules: s.rules, faults: s.faults, ..self }.failed(),
            }
        }
    }

    /// Starts on the text of the file `path`. A file that was read before is
    /// not read again, which is no fault of the policy.
    pub open spec fn begin(self, text: Text, path: Text) -> (LoaderView, ActionView) {
        if self.seen.contains(path) {
            LoaderView {
                faults: self.faults.push(file_fault(path, FaultKind::AlreadyRead)),
                waiting: WaitingView::Idle,
                ..self
            }.advance()
        } else {
            LoaderView {
                seen: self.seen.push(path),
                frames: self.frames.push(FrameView::start(text, path)),
                waiting: WaitingView::Idle,
                ..self
            }.advance()
        }
    }

    /// Asks for the file `path`.
    pub open spec fn request_file(self, path: Text) -> (LoaderView, ActionView) {
        (LoaderView { waiting: WaitingView::Opened(path), ..self }, ActionView::Open(path))
    }

    /// The answer to an opened file: it must be a regular file that neither
    /// its group nor others may write, and the byte limit must not be reached.
    pub open spec fn opened(self, path: Text, mode: Option<u32>) -> (LoaderView, ActionView) {
        match mode {
            None => self.failed_for(path, FaultKind::CannotOpen),
            Some(m) => if m & MODE_KIND != MODE_REGULAR {
                self.failed_for(path, FaultKind::NotRegular)
            } else if m & MODE_OTHERS_WRITE != 0 {
                self.failed_for(path, FaultKind::Writable)
            } else if self.bytes >= BYTE_LIMIT {
                (
                    LoaderView { frames: Seq::empty(), waiting: WaitingView::Idle, ..self },
                    ActionView::TooMuch,
                )
            } else {
                (LoaderView { waiting: WaitingView::Content(path), ..self }, ActionView::Read(path))
            },
        }
    }

    /// The answer to a file that was read: its bytes count towards the limit.
    /// A file of the limit or more is too much, and so is a file that takes
    /// the policy as a whole over the limit.
    pub open spec fn content(self, path: Text, text: Option<Text>) -> (LoaderView, ActionView) {
        match text {
            None => self.failed_for(path, FaultKind::CannotRead),
            Some(t) => if byte_len(t) >= BYTE_LIMIT || self.bytes + byte_len(t) > BYTE_LIMIT {
                (
                    LoaderView { frames: Seq::empty(), waiting: WaitingView::Idle, ..self },
                    ActionView::TooMuch,
                )
            } else {
                LoaderView { bytes: (self.bytes + byte_len(t)) as u64, ..self }.begin(t, path)
            },
        }
    }

    /// The answer to a directory that was listed: a directory that cannot be
    /// listed makes the including file faulty; else its files that are
    /// included are read next, by ascending path.
    pub open spec fn listed(self, entries: Option<Seq<Entry>>) -> (LoaderView, ActionView) {
        if self.frames.len() == 0 {
            self.failed()
        } else {
            let top = self.frames.last();
            let after = match entries {
                None => FrameView { faulty: true, ..top },
                Some(es) => FrameView { pending: included_files(es), ..top },
            };
            LoaderView {
                frames: self.frames.drop_last().push(after),
                waiting: WaitingView::Idle,
                ..self
            }.advance()
        }
    }

    /// The answer of the caller to what was asked last. An answer to
    /// something else ends the reading.
    pub open spec fn resume(self, reply: ReplyView) -> (LoaderView, ActionView) {
        match (self.waiting, reply) {
            (WaitingView::Opened(path), ReplyView::Opened(mode)) => self.opened(path, mode),
            (WaitingView::Content(path), ReplyView::Content(text)) => self.content(path, text),
            (WaitingView::Listing(_), ReplyView::Listing(entries)) => self.listed(entries),
            _ => self.failed(),
        }
    }
}

impl Loader {
    /// A loader that has read nothing, for the invoker and the host of `ro`.
    pub fn new(ro: &RunOptions, fail_error: bool) -> (loader: Loader)
        ensures
            loader@ == LoaderView::fresh(
                Context { user: ro@.name, host: ro@.hostname, fail_error },
            ),
    {
        let loader = Loader {
            ctx: LoadContext { user: ro.name.clone(), hostname: ro.hostname.clone(), fail_error },
            rules: Vec::new(),
            bytes: 0,
            seen: Vec::new(),
            frames: Vec::new(),
            faults: Vec::new(),
            waiting: Waiting::Idle,
        };
        assert(loader@.rules =~= Seq::empty());
        assert(loader@.seen =~= Seq::empty());
        assert(loader@.frames =~= Seq::empty());
        assert(loader@.faults =~= Seq::empty());
        loader
    }

    /// Whether the file `path` was read before.
    fn has_seen(&self, path: &Vec<char>) -> (r: bool)
        ensures
            r == self@.seen.contains(path@),
    {
        let mut i: usize = 0;
        while i < self.seen.len()
            invariant
                i <= self.seen.len(),
                forall|j: int| 0 <= j < i ==> self@.seen[j] != path@,
            decreases self.seen.len() - i,
        {
            assert(self@.seen[i as int] == self.seen@[i as int]@);
            if same(&self.seen[i], path) {
                return true;
            }
            i += 1;
        }
        false
    }

    /// Ends the reading, with the policy found faulty.
    fn fail(&mut self) -> (action: LoadAction)
        ensures
            (final(self)@, action@) == old(self)@.failed(),
    {
        self.frames = Vec::new();
        self.waiting = Waiting::Idle;
        assert(self@.frames =~= Seq::empty());
        LoadAction::Done(true)
    }

    /// Ends the reading for a fault in the file `path`.
    fn fail_for(&mut self, path: &Vec<char>, kind: FaultKind) -> (action: LoadAction)
        ensures
            (final(self)@, action@) == old(self)@.failed_for(path@, kind),
    {
        self.note(path, kind);
        self.fail()
    }

    /// Notes a diagnostic for the file `path`.
    fn note(&mut self, path: &Vec<char>, kind: FaultKind)
        ensures
            final(self)@ == (LoaderView {
                faults: old(self)@.faults.push(file_fault(path@, kind)),
                ..old(self)@
            }),
    {
        let ghost before = self.faults@;
        let fault = Fault { file: string_of(path), section: String::new(), line: 0, kind };
        self.faults.push(fault);
        assert(faults_view(self.faults@) =~= faults_view(before).push(file_fault(path@, kind)));
    }

    /// Gives up for too much policy.
    fn give_up(&mut self) -> (action: LoadAction)
        ensures
            final(self)@ == (LoaderView {
                frames: Seq::empty(),
                waiting: WaitingView::Idle,
                ..old(self)@
            }),
            action@ == ActionView::TooMuch,
    {
        self.frames = Vec::new();
        self.waiting = Waiting::Idle;
        assert(self@.frames =~= Seq::empty());
        LoadAction::TooMuch
    }

    /// Reads on in the innermost file, up to the next thing that the caller
    /// has to do.
    pub fn advance(&mut self) -> (action: LoadAction)
        ensures
            (final(self)@, action@) == old(self)@.advance(),
    {
        loop
            invariant
                old(self)@.advance() == self@.advance(),
            decreases self.frames.len(),
        {
            let ghost before = self@;
            let mut frame = match self.frames.pop() {
                Some(f) => f,
                None => {
                    self.waiting = Waiting::Idle;
                    return LoadAction::Done(false);
                },
            };
            assert(frame@ == before.frames.last());
            assert(frames_view(self.frames@) =~= before.frames.drop_last());
            let stop = scan(&mut frame, &mut self.rules, &mut self.faults, &self.ctx);
            match stop {
                Stop::Ended => {
                    let faulty = frame.faulty;
                    let path = frame.path;
                    if frame.opt.configured {
                        let ghost rules_before = self.rules@;
                        self.rules.push(frame.opt);
                        assert(rules_view(self.rules@) =~= rules_view(rules_before).push(
                            frame.opt@,
                        ));
                    }
                    if self.ctx.fail_error && faulty {
                        if self.frames.len() > 0 {
                            return self.fail_for(&path, FaultKind::CannotInclude);
                        }
                        return self.fail();
                    }
                },
                Stop::File(p) => {
                    let ghost frames_before = self.frames@;
                    self.frames.push(frame);
                    assert(frames_view(self.frames@) =~= frames_view(frames_before).push(frame@));
                    let name = string_of(&p);
                    self.waiting = Waiting::Opened(p);
                    return LoadAction::Open(name);
                },
                Stop::Dir(p) => {
                    let ghost frames_before = self.frames@;
                    self.frames.push(frame);
                    assert(frames_view(self.frames@) =~= frames_view(frames_before).push(frame@));
                    let name = string_of(&p);
                    self.waiting = Waiting::Listing(p);
                    return LoadAction::List(name);
                },
                Stop::Fatal => {
                    return self.fail();
                },
            }
        }
    }

    /// Starts on the text of the file `path`.
    pub fn begin(&mut self, text: &str, path: &Vec<char>) -> (action: LoadAction)
        ensures
            (final(self)@, action@) == old(self)@.begin(text@, path@),
    {
        self.waiting = Waiting::Idle;
        if self.has_seen(path) {
            self.note(path, FaultKind::AlreadyRead);
            return self.advance();
        }
        let ghost seen_before = self.seen@;
        let ghost frames_before = self.frames@;
        let copy = slice_of(path, 0, path.len());
        assert(copy@ == path@) by {
            assert(path@.subrange(0, path.len() as int) == path@);
        }
        self.seen.push(copy);
        assert(views(self.seen@) =~= views(seen_before).push(path@));
        let frame = Frame::start(text, path);
        self.frames.push(frame);
        assert(frames_view(self.frames@) =~= frames_view(frames_before).push(frame@));
        self.advance()
    }

    /// Takes the answer of the caller to what was asked last, and says what
    /// is to be done next.
    pub fn resume(&mut self, reply: LoadReply) -> (action: LoadAction)
        ensures
            (final(self)@, action@) == old(self)@.resume(reply@),
    {
        let mut waiting = Waiting::Idle;
        std::mem::swap(&mut self.waiting, &mut waiting);
        let ghost idle = self@;
        assert(idle == LoaderView { waiting: WaitingView::Idle, ..old(self)@ });
        match (waiting, reply) {
            (Waiting::Opened(path), LoadReply::Opened(mode)) => {
                let m = match mode {
                    Some(m) => m,
                    None => {
                        return self.fail_for(&path, FaultKind::CannotOpen);
                    },
                };
                if m & MODE_KIND != MODE_REGULAR {
                    return self.fail_for(&path, FaultKind::NotRegular);
                }
                if m & MODE_OTHERS_WRITE != 0 {
                    return self.fail_for(&path, FaultKind::Writable);
                }
                if self.bytes >= BYTE_LIMIT {
                    return self.give_up();
                }
                let name = string_of(&path);
                self.waiting = Waiting::Content(path);
                LoadAction::Read(name)
            },
            (Waiting::Content(path), LoadReply::Content(text)) => {
                let t = match text {
                    Some(t) => t,
                    None => {
                        return self.fail_for(&path, FaultKind::CannotRead);
                    },
                };
                let n = t.as_str().as_bytes().len();
                if n as u64 >= BYTE_LIMIT {
                    return self.give_up();
                }
                match self.bytes.checked_add(n as u64) {
                    Some(total) => {
                        if total > BYTE_LIMIT {
                            return self.give_up();
                        }
                        self.bytes = total;
                    },
                    None => {
                        return self.give_up();
                    },
                }
                self.begin(t.as_str(), &path)
            },
            (Waiting::Listing(_), LoadReply::Listing(entries)) => {
                let ghost before = self@;
                let mut top = match self.frames.pop() {
                    Some(f) => f,
                    None => {
                        return self.fail();
                    },
                };
                assert(frames_view(self.frames@) =~= before.frames.drop_last());
                match entries {
                    Some(es) => {
                        top.pending = files_to_include(&es);
                    },
                    None => {
                        top.faulty = true;
                    },
                }
                let ghost frames_before = self.frames@;
                self.frames.push(top);
                assert(frames_view(self.frames@) =~= frames_view(frames_before).push(top@));
                self.advance()
            },
            _ => self.fail(),
        }
    }
}

/// Starts to read the policy file `config_path`: the caller is to open it.
pub fn read_ini_config_file(loader: &mut Loader, config_path: &str) -> (action: LoadAction)
    ensures
        (final(loader)@, action@) == old(loader)@.request_file(config_path@),
{
    loader.waiting = Waiting::Opened(chars_of(config_path));
    LoadAction::Open(config_path.to_string())
}

/// Reads the policy text `conf` as the file `config_path`.
pub fn read_ini(loader: &mut Loader, conf: &str, config_path: &str) -> (action: LoadAction)
    ensures
        (final(loader)@, action@) == old(loader)@.begin(conf@, config_path@),
{
    loader.begin(conf, &chars_of(config_path))
}

/// Reads the policy text `config`, which comes from no file.
pub fn read_ini_config_str(loader: &mut Loader, config: &str) -> (action: LoadAction)
    ensures
        (final(loader)@, action@) == old(loader)@.begin(config@, "static"@),
{
    loader.begin(config, &chars_of("static"))
}

/// Reading on leaves the count of bytes as it is.
pub proof fn lemma_advance_keeps_bytes(loader: LoaderView)
    ensures
        loader.advance().0.bytes == loader.bytes,
    decreases loader.frames.len(),
{
    if loader.frames.len() > 0 {
        let s = scan_spec(loader.frames.last(), loader.rules, loader.faults, loader.ctx);
        if s.pause is Ended && !(loader.ctx.fail_error && s.frame.faulty) {
            let rules = if s.frame.opt.configured {
                s.rules.push(s.frame.opt)
            } else {
                s.rules
            };
            lemma_advance_keeps_bytes(
                LoaderView {
                    rules,
                    faults: s.faults,
                    frames: loader.frames.drop_last(),
                    ..loader
                },
            );
        }
    }
}

/// The byte budget: whatever the caller answers, the policy that the loader
/// has taken in never exceeds the limit.
pub proof fn lemma_budget_holds(loader: LoaderView, reply: ReplyView)
    requires
        loader.bytes <= BYTE_LIMIT,
    ensures
        loader.resume(reply).0.bytes <= BYTE_LIMIT,
{
    match (loader.waiting, reply) {
        (WaitingView::Content(path), ReplyView::Content(Some(t))) => {
            if byte_len(t) < BYTE_LIMIT && loader.bytes + byte_len(t) <= BYTE_LIMIT {
                let counted = LoaderView { bytes: (loader.bytes + byte_len(t)) as u64, ..loader };
                if counted.seen.contains(path) {
                    lemma_advance_keeps_bytes(
                        LoaderView {
                            faults: counted.faults.push(file_fault(path, FaultKind::AlreadyRead)),
                            waiting: WaitingView::Idle,
                            ..counted
                        },
                    );
                } else {
                    lemma_advance_keeps_bytes(
                        LoaderView {
                            seen: counted.seen.push(path),
                            frames: counted.frames.push(FrameView::start(t, path)),
                            waiting: WaitingView::Idle,
                            ..counted
                        },
                    );
                }
            }
        },
        (WaitingView::Listing(_), ReplyView::Listing(entries)) => {
            if loader.frames.len() > 0 {
                let top = loader.frames.last();
                let after = match entries {
                    None => FrameView { faulty: true, ..top },
                    Some(es) => FrameView { pending: included_files(es), ..top },
                };
                lemma_advance_keeps_bytes(
                    LoaderView {
                        frames: loader.frames.drop_last().push(after),
                        waiting: WaitingView::Idle,
                        ..loader
                    },
                );
            }
        },
        _ => {},
    }
}

/// A policy of one file that asks for no other is faulty exactly when
/// faults count and a fault was found in it.
pub proof fn lemma_single_file(loader: LoaderView, text: Text, path: Text)
    requires
        loader.frames.len() == 0,
        !loader.seen.contains(path),
        scan_spec(FrameView::start(text, path), loader.rules, loader.faults, loader.ctx).pause
            is Ended,
    ensures
        loader.begin(text, path).1 == ActionView::Done(
            loader.ctx.fail_error && scan_spec(
                FrameView::start(text, path),
                loader.rules,
                loader.faults,
                loader.ctx,
            ).frame.faulty,
        ),
{
    reveal_with_fuel(LoaderView::advance, 2);
    let started = LoaderView {
        seen: loader.seen.push(path),
        frames: loader.frames.push(FrameView::start(text, path)),
        waiting: WaitingView::Idle,
        ..loader
    };
    assert(started.frames.last() == FrameView::start(text, path));
    assert(started.frames.drop_last() =~= Seq::empty());
    let s = scan_spec(FrameView::start(text, path), loader.rules, loader.faults, loader.ctx);
    if !(loader.ctx.fail_error && s.frame.faulty) {
        let rules = if s.frame.opt.configured {
            s.rules.push(s.frame.opt)
        } else {
            s.rules
        };
        let after = LoaderView {
            rules,
            faults: s.faults,
            frames: started.frames.drop_last(),
            ..started
        };
        assert(after.frames.len() == 0);
    }
}

/// Parse fault propagation: a policy of one file that asks for no other and
/// holds an expression that does not compile is found faulty exactly when
/// faults count.
pub proof fn lemma_parse_fault_propagation(loader: LoaderView, text: Text, path: Text, k: int)
    requires
        loader.frames.len() == 0,
        !loader.seen.contains(path),
        scan_spec(FrameView::start(text, path), loader.rules, loader.faults, loader.ctx).pause
            is Ended,
        bad_expression_line(FrameView::start(text, path), loader.ctx, k),
    ensures
        loader.begin(text, path).1 == ActionView::Done(loader.ctx.fail_error),
{
    lemma_single_file(loader, text, path);
    if loader.ctx.fail_error {
        let start = FrameView::start(text, path);
        lemma_bad_expression_is_fault(start, loader.ctx, k);
        lemma_fault_is_kept(start, loader.rules, loader.faults, loader.ctx, k);
    }
}

/// Whether the loader is sound: every file that is being read is sound and
/// was noted as read, and every rule is configured and names a file that was
/// noted as read.
pub open spec fn well_read(loader: LoaderView) -> bool {
    &&& forall|i: int|
        0 <= i < loader.frames.len() ==> sound(#[trigger] loader.frames[i]) && loader.seen.contains(
            loader.frames[i].path,
        )
    &&& forall|i: int|
        0 <= i < loader.rules.len() ==> (#[trigger] loader.rules[i]).configured
            && loader.seen.contains(loader.rules[i].file_name)
}

/// Reading on leaves a sound loader sound.
pub proof fn lemma_advance_keeps_well_read(loader: LoaderView)
    requires
        well_read(loader),
    ensures
        well_read(loader.advance().0),
    decreases loader.frames.len(),
{
    if loader.frames.len() > 0 {
        let top = loader.frames.last();
        let below = loader.frames.drop_last();
        assert(sound(top) && loader.seen.contains(top.path)) by {
            assert(top == loader.frames[loader.frames.len() - 1]);
        }
        let s = scan_spec(top, loader.rules, loader.faults, loader.ctx);
        lemma_scan_yields_rules_of_file(top, loader.rules, loader.faults, loader.ctx);
        assert forall|i: int| 0 <= i < s.rules.len() implies (#[trigger] s.rules[i]).configured
            && loader.seen.contains(s.rules[i].file_name) by {
            if i < loader.rules.len() {
                assert(s.rules[i] == loader.rules[i]);
            }
        }
        assert forall|i: int| 0 <= i < below.len() implies sound(#[trigger] below[i])
            && loader.seen.contains(below[i].path) by {
            assert(below[i] == loader.frames[i]);
        }
        match s.pause {
            Pause::Ended => {
                let rules = if s.frame.opt.configured {
                    s.rules.push(s.frame.opt)
                } else {
                    s.rules
                };
                let after = LoaderView { rules, faults: s.faults, frames: below, ..loader };
                assert forall|i: int| 0 <= i < rules.len() implies (#[trigger] rules[i]).configured
                    && after.seen.contains(rules[i].file_name) by {
                    if i < s.rules.len() {
                        assert(rules[i] == s.rules[i]);
                    }
                }
                if !(loader.ctx.fail_error && s.frame.faulty) {
                    lemma_advance_keeps_well_read(after);
                }
            },
            Pause::File(p) => {
                let frames = below.push(s.frame);
                assert forall|i: int| 0 <= i < frames.len() implies sound(#[trigger] frames[i])
                    && loader.seen.contains(frames[i].path) by {
                    if i < below.len() {
                        assert(frames[i] == below[i]);
                    }
                }
            },
            Pause::Dir(p) => {
                let frames = below.push(s.frame);
                assert forall|i: int| 0 <= i < frames.len() implies sound(#[trigger] frames[i])
                    && loader.seen.contains(frames[i].path) by {
                    if i < below.len() {
                        assert(frames[i] == below[i]);
                    }
                }
            },
            Pause::Fatal => {},
        }
    }
}

/// Starting on a file leaves a sound loader sound.
pub proof fn lemma_begin_keeps_well_read(loader: LoaderView, text: Text, path: Text)
    requires
        well_read(loader),
    ensures
        well_read(loader.begin(text, path).0),
{
    if loader.seen.contains(path) {
        lemma_advance_keeps_well_read(
            LoaderView {
                faults: loader.faults.push(file_fault(path, FaultKind::AlreadyRead)),
                waiting: WaitingView::Idle,
                ..loader
            },
        );
    } else {
        let seen = loader.seen.push(path);
        let frames = loader.frames.push(FrameView::start(text, path));
        let started = LoaderView { seen, frames, waiting: WaitingView::Idle, ..loader };
        assert(seen[seen.len() - 1] == path);
        assert forall|p: Text| loader.seen.contains(p) implies seen.contains(p) by {
            let k = choose|k: int| 0 <= k < loader.seen.len() && loader.seen[k] == p;
            assert(seen[k] == p);
        }
        assert forall|i: int| 0 <= i < frames.len() implies sound(#[trigger] frames[i])
            && seen.contains(frames[i].path) by {
            if i < loader.frames.len() {
                assert(frames[i] == loader.frames[i]);
            }
        }
        lemma_advance_keeps_well_read(started);
    }
}

/// Every rule names its file: whatever the caller answers, every rule that
/// the loader holds is configured and names a file that the loader has read,
/// provided that this held before.
pub proof fn lemma_rules_name_their_files(loader: LoaderView, reply: ReplyView)
    requires
        well_read(loader),
    ensures
        well_read(loader.resume(reply).0),
{
    match (loader.waiting, reply) {
        (WaitingView::Content(path), ReplyView::Content(Some(t))) => {
            if byte_len(t) < BYTE_LIMIT && loader.bytes + byte_len(t) <= BYTE_LIMIT {
                lemma_begin_keeps_well_read(
                    LoaderView { bytes: (loader.bytes + byte_len(t)) as u64, ..loader },
                    t,
                    path,
                );
            }
        },
        (WaitingView::Listing(_), ReplyView::Listing(entries)) => {
            if loader.frames.len() > 0 {
                let top = loader.frames.last();
                assert(top == loader.frames[loader.frames.len() - 1]);
                let after = match entries {
                    None => FrameView { faulty: true, ..top },
                    Some(es) => FrameView { pending: included_files(es), ..top },
                };
                let frames = loader.frames.drop_last().push(after);
                assert forall|i: int| 0 <= i < frames.len() implies sound(#[trigger] frames[i])
                    && loader.seen.contains(frames[i].path) by {
                    if i < frames.len() - 1 {
                        assert(frames[i] == loader.frames[i]);
                    }
                }
                lemma_advance_keeps_well_read(
                    LoaderView { frames, waiting: WaitingView::Idle, ..loader },
                );
            }
        },
        _ => {},
    }
}

/// Reading on keeps the order of the rules: the rules that the loader held
/// are the first of the rules that it holds after, whether or not other files
/// are open.
pub proof fn lemma_advance_keeps_rules(loader: LoaderView)
    ensures
        loader.rules.is_prefix_of(loader.advance().0.rules),
        loader.advance().0.seen == loader.seen,
    decreases loader.frames.len(),
{
    if loader.frames.len() > 0 {
        let s = scan_spec(loader.frames.last(), loader.rules, loader.faults, loader.ctx);
        lemma_scan_keeps_rules(loader.frames.last(), loader.rules, loader.faults, loader.ctx);
        if s.pause is Ended {
            let rules = if s.frame.opt.configured {
                s.rules.push(s.frame.opt)
            } else {
                s.rules
            };
            assert(loader.rules.is_prefix_of(rules)) by {
                assert(loader.rules =~= rules.subrange(0, loader.rules.len() as int));
            }
            if !(loader.ctx.fail_error && s.frame.faulty) {
                let after = LoaderView {
                    rules,
                    faults: s.faults,
                    frames: loader.frames.drop_last(),
                    ..loader
                };
                lemma_advance_keeps_rules(after);
                assert(loader.rules =~= after.advance().0.rules.subrange(
                    0,
                    loader.rules.len() as int,
                ));
            }
        }
    } else {
        assert(loader.rules =~= loader.rules.subrange(0, loader.rules.len() as int));
    }
}

/// Source order is kept: whatever the caller answers, and whether or not
/// other files are open, the rules that the loader held are the first of the
/// rules that it holds after, in the same order.
pub proof fn lemma_rules_stay_in_order(loader: LoaderView, reply: ReplyView)
    ensures
        loader.rules.is_prefix_of(loader.resume(reply).0.rules),
{
    assert(loader.rules =~= loader.rules.subrange(0, loader.rules.len() as int));
    match (loader.waiting, reply) {
        (WaitingView::Content(path), ReplyView::Content(Some(t))) => {
            if byte_len(t) < BYTE_LIMIT && loader.bytes + byte_len(t) <= BYTE_LIMIT {
                lemma_begin_keeps_rules(
                    LoaderView { bytes: (loader.bytes + byte_len(t)) as u64, ..loader },
                    t,
                    path,
                );
            }
        },
        (WaitingView::Listing(_), ReplyView::Listing(entries)) => {
            if loader.frames.len() > 0 {
                let top = loader.frames.last();
                let after = match entries {
                    None => FrameView { faulty: true, ..top },
                    Some(es) => FrameView { pending: included_files(es), ..top },
                };
                lemma_advance_keeps_rules(
                    LoaderView {
                        frames: loader.frames.drop_last().push(after),
                        waiting: WaitingView::Idle,
                        ..loader
                    },
                );
            }
        },
        _ => {},
    }
}

/// Starting on a file keeps the order of the rules, whether or not other
/// files are open.
pub proof fn lemma_begin_keeps_rules(loader: LoaderView, text: Text, path: Text)
    ensures
        loader.rules.is_prefix_of(loader.begin(text, path).0.rules),
{
    if loader.seen.contains(path) {
        lemma_advance_keeps_rules(
            LoaderView {
                faults: loader.faults.push(file_fault(path, FaultKind::AlreadyRead)),
                waiting: WaitingView::Idle,
                ..loader
            },
        );
    } else {
        lemma_advance_keeps_rules(
            LoaderView {
                seen: loader.seen.push(path),
                frames: loader.frames.push(FrameView::start(text, path)),
                waiting: WaitingView::Idle,
                ..loader
            },
        );
    }
}

/// A file that was read is not read again, whether or not other files are
/// open: its text is not looked at, no file is opened for it and no path is
/// noted; the loader notes the diagnostic and reads on where it was.
pub proof fn lemma_reread_changes_nothing(loader: LoaderView, text: Text, path: Text)
    requires
        loader.seen.contains(path),
    ensures
        loader.begin(text, path) == (LoaderView {
            faults: loader.faults.push(file_fault(path, FaultKind::AlreadyRead)),
            waiting: WaitingView::Idle,
            ..loader
        }).advance(),
        loader.begin(text, path).0.seen == loader.seen,
        loader.begin(text, path).0.bytes == loader.bytes,
        loader.frames.len() == 0 ==> loader.begin(text, path).0.rules == loader.rules
            && loader.begin(text, path).1 == ActionView::Done(false),
{
    let noted = LoaderView {
        faults: loader.faults.push(file_fault(path, FaultKind::AlreadyRead)),
        waiting: WaitingView::Idle,
        ..loader
    };
    lemma_advance_keeps_rules(noted);
    lemma_advance_keeps_bytes(noted);
}

/// The text of a file that was read before makes no difference.
pub proof fn lemma_reread_ignores_text(loader: LoaderView, first: Text, second: Text, path: Text)
    requires
        loader.seen.contains(path),
    ensures
        loader.begin(first, path) == loader.begin(second, path),
{
}

} // verus!
