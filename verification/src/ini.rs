//! One file of the policy: its lines, its sections, and the rules that it
//! yields, up to the next line that asks for another file.
use crate::config::{apply_entry, entry_effect, Applied, Context, FaultKind, LoadContext};
use crate::rule::{rules_view, EnvOptions, Rule};
use crate::text::{chars_of, find, find_from, slice_of, string_of, trim, trim_bounds, views, Text};
use vstd::prelude::*;

verus! {

/// A diagnostic: what is wrong, and where.
#[derive(Clone, Debug)]
pub struct Fault {
    pub file: String,
    pub section: String,
    pub line: usize,
    pub kind: FaultKind,
}

/// `Fault` in specifications.
pub struct FaultView {
    pub file: Text,
    pub section: Text,
    pub line: int,
    pub kind: FaultKind,
}

impl View for Fault {
    type V = FaultView;

    open spec fn view(&self) -> FaultView {
        FaultView {
            file: self.file@,
            section: self.section@,
            line: self.line as int,
            kind: self.kind,
        }
    }
}

/// The views of a list of diagnostics.
pub open spec fn faults_view(v: Seq<Fault>) -> Seq<FaultView> {
    Seq::new(v.len(), |i: int| v[i]@)
}

/// A file of the policy as far as it has been read.
#[derive(Debug)]
pub struct Frame {
    /// The lines of the file.
    pub lines: Vec<Vec<char>>,
    /// The number of lines read.
    pub next: usize,
    /// The path of the file.
    pub path: Vec<char>,
    /// The name of the section that is open.
    pub section: Vec<char>,
    /// Whether a section is open.
    pub in_section: bool,
    /// The rule of the section that is open.
    pub opt: EnvOptions,
    /// Whether a fault was found in the file.
    pub faulty: bool,
    /// The files of an included directory that are still to be read.
    pub pending: Vec<Vec<char>>,
}

/// `Frame` in specifications.
pub struct FrameView {
    pub lines: Seq<Text>,
    pub next: int,
    pub path: Text,
    pub section: Text,
    pub in_section: bool,
    pub opt: Rule,
    pub faulty: bool,
    pub pending: Seq<Text>,
}

impl View for Frame {
    type V = FrameView;

    open spec fn view(&self) -> FrameView {
        FrameView {
            lines: views(self.lines@),
            next: self.next as int,
            path: self.path@,
            section: self.section@,
            in_section: self.in_section,
            opt: self.opt@,
            faulty: self.faulty,
            pending: views(self.pending@),
        }
    }
}

impl FrameView {
    /// A file of the given text and path, of which nothing has been read.
    pub open spec fn start(text: Text, path: Text) -> FrameView {
        FrameView {
            lines: crate::text::split(text, '\n'),
            next: 0,
            path,
            section: "no section defined"@,
            in_section: false,
            opt: Rule::fresh(),
            faulty: false,
            pending: Seq::empty(),
        }
    }
}

/// What one line does.
pub struct LineOutcome {
    /// The rule of the open section after the line.
    pub opt: Rule,
    /// The name of the open section after the line.
    pub section: Text,
    /// Whether a section is open after the line.
    pub in_section: bool,
    /// The rule that the line finished, if any.
    pub finished: Option<Rule>,
    /// What the line asks for.
    pub applied: Applied,
    /// The value of the entry on the line, if it holds one.
    pub value: Text,
}

/// What the line `raw` does in the file `path`, where `opt` is the rule of
/// the open section. Blank lines, comments and lines without `=` do nothing.
/// A header finishes the rule of the open section, if it was configured, and
/// opens a new one. An entry outside any section is a fault.
pub open spec fn line_outcome(
    opt: Rule,
    section: Text,
    in_section: bool,
    path: Text,
    raw: Text,
    ctx: Context,
) -> LineOutcome {
    let line = trim(raw);
    let eq = find_from(line, '=', 0);
    let idle = LineOutcome {
        opt,
        section,
        in_section,
        finished: None,
        applied: Applied::Taken,
        value: Seq::empty(),
    };
    if line.len() == 0 || line[0] == '#' {
        idle
    } else if line[0] == '[' && line[line.len() - 1] == ']' {
        let name = line.subrange(1, line.len() - 1);
        LineOutcome {
            opt: Rule { section: name, file_name: path, ..Rule::fresh() },
            section: name,
            in_section: true,
            finished: if opt.configured {
                Some(opt)
            } else {
                None
            },
            applied: Applied::Taken,
            value: Seq::empty(),
        }
    } else if eq >= line.len() {
        idle
    } else if !in_section {
        LineOutcome { applied: Applied::Fault(FaultKind::Entry), ..idle }
    } else {
        let key = trim(line.subrange(0, eq));
        let value = trim(line.subrange(eq + 1, line.len() as int));
        let (after, applied) = entry_effect(opt, key, value, ctx);
        LineOutcome { opt: after, section, in_section, finished: None, applied, value }
    }
}

/// Why the reading of a file pauses or ends.
pub enum Pause {
    /// The file is read to its end.
    Ended,
    /// The file with this path is to be read next.
    File(Text),
    /// The directory with this path is to be listed next.
    Dir(Text),
    /// The reading of the policy ends.
    Fatal,
}

/// The state of a reading after a stretch of lines.
pub struct Scan {
    pub frame: FrameView,
    pub rules: Seq<Rule>,
    pub faults: Seq<FaultView>,
    pub pause: Pause,
}

/// The diagnostics that a line adds.
pub open spec fn line_faults(applied: Applied, path: Text, section: Text, number: int) -> Seq<
    FaultView,
> {
    match applied {
        Applied::Fault(kind) => seq![FaultView { file: path, section, line: number, kind }],
        Applied::Stop(kind) => seq![FaultView { file: path, section, line: number, kind }],
        _ => Seq::empty(),
    }
}

/// The rules that a line adds.
pub open spec fn line_rules(finished: Option<Rule>) -> Seq<Rule> {
    match finished {
        Some(r) => seq![r],
        None => Seq::empty(),
    }
}

/// Reads on in `frame`: first the files that an included directory left,
/// then line after line, up to the end of the file or to the first line that
/// asks for another file or ends the reading.
pub open spec fn scan_spec(
    frame: FrameView,
    rules: Seq<Rule>,
    faults: Seq<FaultView>,
    ctx: Context,
) -> Scan
    decreases frame.lines.len() - frame.next,
{
    if frame.pending.len() > 0 {
        Scan {
            frame: FrameView { pending: frame.pending.subrange(1, frame.pending.len() as int), ..frame },
            rules,
            faults,
            pause: Pause::File(frame.pending[0]),
        }
    } else if frame.next >= frame.lines.len() || frame.next < 0 {
        Scan { frame, rules, faults, pause: Pause::Ended }
    } else {
        let out = line_outcome(
            frame.opt,
            frame.section,
            frame.in_section,
            frame.path,
            frame.lines[frame.next],
            ctx,
        );
        let after = FrameView {
            next: frame.next + 1,
            opt: out.opt,
            section: out.section,
            in_section: out.in_section,
            faulty: frame.faulty || out.applied is Fault || out.applied is SilentFault,
            ..frame
        };
        let rules_after = rules + line_rules(out.finished);
        let faults_after = faults + line_faults(
            out.applied,
            frame.path,
            frame.section,
            frame.next + 1,
        );
        match out.applied {
            Applied::Include => Scan {
                frame: after,
                rules: rules_after,
                faults: faults_after,
                pause: Pause::File(out.value),
            },
            Applied::IncludeDir => Scan {
                frame: after,
                rules: rules_after,
                faults: faults_after,
                pause: Pause::Dir(out.value),
            },
            Applied::Stop(_) => Scan {
                frame: after,
                rules: rules_after,
                faults: faults_after,
                pause: Pause::Fatal,
            },
            _ => scan_spec(after, rules_after, faults_after, ctx),
        }
    }
}

/// What a line asks for, with the path where it asks for a file.
#[derive(Debug)]
pub enum Stop {
    Ended,
    File(Vec<char>),
    Dir(Vec<char>),
    Fatal,
}

impl View for Stop {
    type V = Pause;

    open spec fn view(&self) -> Pause {
        match self {
            Stop::Ended => Pause::Ended,
            Stop::File(p) => Pause::File(p@),
            Stop::Dir(p) => Pause::Dir(p@),
            Stop::Fatal => Pause::Fatal,
        }
    }
}

impl Frame {
    /// A file of the given text and path, of which nothing has been read.
    pub fn start(text: &str, path: &Vec<char>) -> (frame: Frame)
        ensures
            frame@ == FrameView::start(text@, path@),
    {
        let lines = crate::text::split_at_char(&chars_of(text), '\n');
        let frame = Frame {
            lines,
            next: 0,
            path: slice_of(path, 0, path.len()),
            section: chars_of("no section defined"),
            in_section: false,
            opt: EnvOptions::new(),
            faulty: false,
            pending: Vec::new(),
        };
        assert(path@.subrange(0, path.len() as int) == path@);
        assert(views(frame.pending@) =~= Seq::empty());
        frame
    }

    /// Reads one line into the frame. Returns what the line asks for, the rule
    /// that it finished and the value of its entry.
    pub fn read_line(&mut self, raw: &Vec<char>, ctx: &LoadContext) -> (r: (
        Applied,
        Option<EnvOptions>,
        Vec<char>,
    ))
        ensures
            ({
                let out = line_outcome(
                    old(self)@.opt,
                    old(self)@.section,
                    old(self)@.in_section,
                    old(self)@.path,
                    raw@,
                    ctx@,
                );
                &&& r.0 == out.applied
                &&& crate::request::opt_rule_view(r.1) == out.finished
                &&& r.2@ == out.value
                &&& final(self)@ == (FrameView {
                    opt: out.opt,
                    section: out.section,
                    in_section: out.in_section,
                    ..old(self)@
                })
            }),
    {
        let (lo, hi) = trim_bounds(raw, 0, raw.len());
        let line = slice_of(raw, lo, hi);
        assert(line@ == trim(raw@));
        if line.len() == 0 || line[0] == '#' {
            return (Applied::Taken, None, Vec::new());
        }
        if line[0] == '[' && line[line.len() - 1] == ']' {
            let name = slice_of(&line, 1, line.len() - 1);
            let mut fresh = EnvOptions::new();
            fresh.section = string_of(&name);
            fresh.file_name = string_of(&self.path);
            let mut finished = fresh;
            let mut section = name;
            std::mem::swap(&mut self.opt, &mut finished);
            std::mem::swap(&mut self.section, &mut section);
            self.in_section = true;
            let done = if finished.configured {
                Some(finished)
            } else {
                None
            };
            return (Applied::Taken, done, Vec::new());
        }
        let eq = find(&line, '=', 0);
        if eq >= line.len() {
            return (Applied::Taken, None, Vec::new());
        }
        if !self.in_section {
            return (Applied::Fault(FaultKind::Entry), None, Vec::new());
        }
        let (klo, khi) = trim_bounds(&line, 0, eq);
        let key = slice_of(&line, klo, khi);
        let (vlo, vhi) = trim_bounds(&line, eq + 1, line.len());
        let value = slice_of(&line, vlo, vhi);
        proof {
            crate::text::lemma_trim_of_range(line@, 0, eq as int);
            crate::text::lemma_trim_of_range(line@, eq + 1, line.len() as int);
        }
        let applied = apply_entry(&mut self.opt, &key, &value, ctx);
        (applied, None, value)
    }
}

/// Reads on in `frame` up to the next pause. Finished rules go to `rules` and
/// diagnostics to `faults`.
#[verifier::loop_isolation(false)]
pub fn scan(
    frame: &mut Frame,
    rules: &mut Vec<EnvOptions>,
    faults: &mut Vec<Fault>,
    ctx: &LoadContext,
) -> (stop: Stop)
    ensures
        ({
            let s = scan_spec(
                old(frame)@,
                rules_view(old(rules)@),
                faults_view(old(faults)@),
                ctx@,
            );
            &&& final(frame)@ == s.frame
            &&& rules_view(final(rules)@) == s.rules
            &&& faults_view(final(faults)@) == s.faults
            &&& stop@ == s.pause
        }),
{
    if frame.pending.len() > 0 {
        let ghost before = views(frame.pending@);
        let file = frame.pending.remove(0);
        assert(views(frame.pending@) =~= before.subrange(1, before.len() as int));
        return Stop::File(file);
    }
    let ghost goal = scan_spec(old(frame)@, rules_view(old(rules)@), faults_view(old(faults)@), ctx@);
    while frame.next < frame.lines.len()
        invariant
            frame.pending.len() == 0,
            goal == scan_spec(frame@, rules_view(rules@), faults_view(faults@), ctx@),
        decreases frame.lines.len() - frame.next,
    {
        let ghost start = frame@;
        let ghost rules_start = rules_view(rules@);
        let ghost faults_start = faults_view(faults@);
        let raw = slice_of(&frame.lines[frame.next], 0, frame.lines[frame.next].len());
        assert(raw@ == start.lines[start.next]) by {
            assert(frame.lines@[frame.next as int]@.subrange(
                0,
                frame.lines@[frame.next as int]@.len() as int,
            ) == frame.lines@[frame.next as int]@);
        }
        let number: usize = frame.next + 1;
        let section_before = string_of(&frame.section);
        let (applied, finished, value) = frame.read_line(&raw, ctx);
        frame.next = number;
        match finished {
            Some(rule) => {
                let ghost before = rules@;
                rules.push(rule);
                assert(rules_view(rules@) =~= rules_view(before) + seq![rule@]);
            },
            None => {
                assert(rules_view(rules@) =~= rules_view(rules@) + Seq::<Rule>::empty());
            },
        }
        let kind = match applied {
            Applied::Fault(kind) => Some(kind),
            Applied::Stop(kind) => Some(kind),
            _ => None,
        };
        match kind {
            Some(kind) => {
                let ghost before = faults@;
                let fault = Fault {
                    file: string_of(&frame.path),
                    section: section_before,
                    line: number,
                    kind,
                };
                faults.push(fault);
                assert(faults_view(faults@) =~= faults_view(before) + seq![fault@]);
            },
            None => {
                assert(faults_view(faults@) =~= faults_view(faults@) + Seq::<FaultView>::empty());
            },
        }
        match applied {
            Applied::Fault(_) => {
                frame.faulty = true;
            },
            Applied::SilentFault => {
                frame.faulty = true;
            },
            Applied::Include => {
                return Stop::File(value);
            },
            Applied::IncludeDir => {
                return Stop::Dir(value);
            },
            Applied::Stop(_) => {
                return Stop::Fatal;
            },
            Applied::Taken => {},
        }
    }
    Stop::Ended
}

/// What the next line of `frame` asks for.
pub open spec fn next_applied(frame: FrameView, ctx: Context) -> Applied {
    line_outcome(
        frame.opt,
        frame.section,
        frame.in_section,
        frame.path,
        frame.lines[frame.next],
        ctx,
    ).applied
}

/// `frame` after its next line.
pub open spec fn line_read(frame: FrameView, ctx: Context) -> FrameView {
    let out = line_outcome(
        frame.opt,
        frame.section,
        frame.in_section,
        frame.path,
        frame.lines[frame.next],
        ctx,
    );
    FrameView {
        next: frame.next + 1,
        opt: out.opt,
        section: out.section,
        in_section: out.in_section,
        faulty: frame.faulty || out.applied is Fault || out.applied is SilentFault,
        ..frame
    }
}

/// Whether the line at index `k` is a fault when the reading of `frame`
/// comes to it.
pub open spec fn faulty_line(frame: FrameView, ctx: Context, k: int) -> bool
    decreases k - frame.next,
{
    if frame.next < 0 || frame.next > k || k >= frame.lines.len() {
        false
    } else if frame.next == k {
        next_applied(frame, ctx) is Fault || next_applied(frame, ctx) is SilentFault
    } else {
        faulty_line(line_read(frame, ctx), ctx, k)
    }
}

/// Whether the entry `key = value` holds an expression: one of the keys that
/// always take one, the variables that may be kept where any are named, or a
/// reason that is neither `true` nor `false`.
pub open spec fn holds_expression(key: Text, value: Text) -> bool {
    key == "name"@ || key == "hostname"@ || key == "target"@ || key == "target_group"@ || key
        == "regex"@ || key == "rule"@ || key == "datematch"@ || key == "dir"@ || (key
        == "permit_env"@ && value.len() > 0) || (key == "reason"@ && value != "true"@ && value
        != "false"@)
}

/// Whether the line `raw` is an entry of an expression that does not
/// compile.
pub open spec fn is_bad_expression(raw: Text, ctx: Context) -> bool {
    let line = trim(raw);
    let eq = find_from(line, '=', 0);
    &&& line.len() > 0
    &&& line[0] != '#'
    &&& !(line[0] == '[' && line[line.len() - 1] == ']')
    &&& eq < line.len()
    &&& holds_expression(
        trim(line.subrange(0, eq)),
        trim(line.subrange(eq + 1, line.len() as int)),
    )
    &&& !crate::pattern::compiles(
        crate::matcher::anchored(
            trim(line.subrange(eq + 1, line.len() as int)),
            ctx.user,
            ctx.host,
        ),
    )
}

/// Whether the line at index `k` is, when the reading of `frame` comes to
/// it, an entry in an open section of an expression that does not compile.
pub open spec fn bad_expression_line(frame: FrameView, ctx: Context, k: int) -> bool
    decreases k - frame.next,
{
    if frame.next < 0 || frame.next > k || k >= frame.lines.len() {
        false
    } else if frame.next == k {
        frame.in_section && is_bad_expression(frame.lines[k], ctx)
    } else {
        bad_expression_line(line_read(frame, ctx), ctx, k)
    }
}

/// An entry of an expression sets its field and is a fault exactly when
/// faults count and the expression does not compile.
pub proof fn lemma_expression_entry(opt: Rule, key: Text, value: Text, ctx: Context)
    requires
        holds_expression(key, value),
    ensures
        entry_effect(opt, key, value, ctx).1 == crate::config::checked(ctx, value),
{
    reveal_strlit("env_assign.");
    reveal_strlit("include");
    reveal_strlit("includedir");
    reveal_strlit("name");
    reveal_strlit("exact_name");
    reveal_strlit("hostname");
    reveal_strlit("exact_hostname");
    reveal_strlit("target");
    reveal_strlit("exact_target");
    reveal_strlit("target_group");
    reveal_strlit("exact_target_group");
    reveal_strlit("permit");
    reveal_strlit("require_pass");
    reveal_strlit("type");
    reveal_strlit("group");
    reveal_strlit("regex");
    reveal_strlit("rule");
    reveal_strlit("exact_regex");
    reveal_strlit("exact_rule");
    reveal_strlit("notbefore");
    reveal_strlit("notafter");
    reveal_strlit("datematch");
    reveal_strlit("dir");
    reveal_strlit("exact_dir");
    reveal_strlit("permit_env");
    reveal_strlit("exitcmd");
    reveal_strlit("editmode");
    reveal_strlit("reason");
    assert(!"env_assign."@.is_prefix_of(key)) by {
        if "env_assign."@.is_prefix_of(key) {
            assert(key.subrange(0, 11)[0] == key[0]);
            assert(key[0] == 'e');
            assert(key.subrange(0, 11)[1] == key[1]);
            assert(key[1] == 'n');
        }
    }
    assert(key[0] == key[0]);
    assert(key.len() > 2 ==> key[2] == key[2]);
    assert(key.len() > 6 ==> key[6] == key[6]);
    assert(crate::config::special_effect(opt, key, value, ctx) is None);
}

/// A line that is an entry, in an open section, of an expression that does
/// not compile is a fault where faults count.
pub proof fn lemma_bad_expression_is_fault(frame: FrameView, ctx: Context, k: int)
    requires
        bad_expression_line(frame, ctx, k),
        ctx.fail_error,
    ensures
        faulty_line(frame, ctx, k),
    decreases k - frame.next,
{
    if frame.next == k {
        let line = trim(frame.lines[k]);
        let eq = find_from(line, '=', 0);
        let key = trim(line.subrange(0, eq));
        let value = trim(line.subrange(eq + 1, line.len() as int));
        lemma_expression_entry(frame.opt, key, value, ctx);
    } else {
        lemma_bad_expression_is_fault(line_read(frame, ctx), ctx, k);
    }
}

/// A fault is kept: a file that was found faulty, or that holds a line that
/// is a fault, is faulty when it has been read to its end.
pub proof fn lemma_fault_is_kept(
    frame: FrameView,
    rules: Seq<Rule>,
    faults: Seq<FaultView>,
    ctx: Context,
    k: int,
)
    requires
        frame.pending.len() == 0,
        frame.faulty || faulty_line(frame, ctx, k),
        scan_spec(frame, rules, faults, ctx).pause is Ended,
    ensures
        scan_spec(frame, rules, faults, ctx).frame.faulty,
    decreases frame.lines.len() - frame.next,
{
    if 0 <= frame.next < frame.lines.len() {
        let out = line_outcome(
            frame.opt,
            frame.section,
            frame.in_section,
            frame.path,
            frame.lines[frame.next],
            ctx,
        );
        let after = line_read(frame, ctx);
        let rules_after = rules + line_rules(out.finished);
        let faults_after = faults + line_faults(
            out.applied,
            frame.path,
            frame.section,
            frame.next + 1,
        );
        lemma_fault_is_kept(after, rules_after, faults_after, ctx, k);
    }
}

/// Whether a file being read is sound: a rule is configured only in a
/// section, and the rule of a section names its file and its section.
pub open spec fn sound(frame: FrameView) -> bool {
    &&& frame.opt.configured ==> frame.in_section
    &&& frame.in_section ==> frame.opt.file_name == frame.path && frame.opt.section
        == frame.section
}

/// Whether every rule from index `from` on is configured and names the file
/// `path`.
pub open spec fn rules_of_file(rules: Seq<Rule>, from: int, path: Text) -> bool {
    forall|i: int|
        from <= i < rules.len() ==> (#[trigger] rules[i]).configured && rules[i].file_name == path
}

/// No entry changes the file or the section that a rule names.
pub proof fn lemma_entry_keeps_place(opt: Rule, key: Text, value: Text, ctx: Context)
    ensures
        entry_effect(opt, key, value, ctx).0.file_name == opt.file_name,
        entry_effect(opt, key, value, ctx).0.section == opt.section,
{
}

/// A line leaves a sound file sound, and the rule that it finishes is
/// configured and names the file.
pub proof fn lemma_line_keeps_sound(frame: FrameView, ctx: Context)
    requires
        sound(frame),
        0 <= frame.next < frame.lines.len(),
    ensures
        sound(line_read(frame, ctx)),
        line_read(frame, ctx).path == frame.path,
        match line_outcome(
            frame.opt,
            frame.section,
            frame.in_section,
            frame.path,
            frame.lines[frame.next],
            ctx,
        ).finished {
            Some(r) => r.configured && r.file_name == frame.path,
            None => true,
        },
{
    let line = trim(frame.lines[frame.next]);
    let eq = find_from(line, '=', 0);
    let key = trim(line.subrange(0, eq));
    let value = trim(line.subrange(eq + 1, line.len() as int));
    lemma_entry_keeps_place(frame.opt, key, value, ctx);
    lemma_entry_configures_in_section(frame.opt, key, value, ctx);
}

/// An entry leaves a rule configured or configures it; it never makes a
/// configured rule unconfigured.
pub proof fn lemma_entry_configures_in_section(opt: Rule, key: Text, value: Text, ctx: Context)
    ensures
        opt.configured ==> entry_effect(opt, key, value, ctx).0.configured,
{
}

/// The rules that a stretch of a sound file yields are configured and name
/// the file, the rules before them stay as they are, and the file stays
/// sound.
pub proof fn lemma_scan_yields_rules_of_file(
    frame: FrameView,
    rules: Seq<Rule>,
    faults: Seq<FaultView>,
    ctx: Context,
)
    requires
        sound(frame),
    ensures
        ({
            let s = scan_spec(frame, rules, faults, ctx);
            &&& sound(s.frame)
            &&& s.frame.path == frame.path
            &&& rules.is_prefix_of(s.rules)
            &&& rules_of_file(s.rules, rules.len() as int, frame.path)
        }),
    decreases frame.lines.len() - frame.next,
{
    if frame.pending.len() == 0 && 0 <= frame.next < frame.lines.len() {
        let out = line_outcome(
            frame.opt,
            frame.section,
            frame.in_section,
            frame.path,
            frame.lines[frame.next],
            ctx,
        );
        let after = line_read(frame, ctx);
        let rules_after = rules + line_rules(out.finished);
        let faults_after = faults + line_faults(
            out.applied,
            frame.path,
            frame.section,
            frame.next + 1,
        );
        lemma_line_keeps_sound(frame, ctx);
        assert(rules.is_prefix_of(rules_after));
        assert(rules_of_file(rules_after, rules.len() as int, frame.path));
        match out.applied {
            Applied::Include => {},
            Applied::IncludeDir => {},
            Applied::Stop(_) => {},
            _ => {
                lemma_scan_yields_rules_of_file(after, rules_after, faults_after, ctx);
                let s = scan_spec(after, rules_after, faults_after, ctx);
                assert forall|i: int| rules.len() <= i < s.rules.len() implies (
                #[trigger] s.rules[i]).configured && s.rules[i].file_name == frame.path by {
                    if i < rules_after.len() {
                        assert(s.rules[i] == rules_after[i]);
                    }
                }
            },
        }
    }
}

/// Reading adds rules and takes none away: the rules before a stretch of
/// lines are the first of the rules after it, in the same order.
pub proof fn lemma_scan_keeps_rules(
    frame: FrameView,
    rules: Seq<Rule>,
    faults: Seq<FaultView>,
    ctx: Context,
)
    ensures
        rules.is_prefix_of(scan_spec(frame, rules, faults, ctx).rules),
    decreases frame.lines.len() - frame.next,
{
    if frame.pending.len() == 0 && 0 <= frame.next < frame.lines.len() {
        let out = line_outcome(
            frame.opt,
            frame.section,
            frame.in_section,
            frame.path,
            frame.lines[frame.next],
            ctx,
        );
        let after = line_read(frame, ctx);
        let rules_after = rules + line_rules(out.finished);
        let faults_after = faults + line_faults(
            out.applied,
            frame.path,
            frame.section,
            frame.next + 1,
        );
        assert(rules.is_prefix_of(rules_after));
        match out.applied {
            Applied::Include => {},
            Applied::IncludeDir => {},
            Applied::Stop(_) => {},
            _ => {
                lemma_scan_keeps_rules(after, rules_after, faults_after, ctx);
                let s = scan_spec(after, rules_after, faults_after, ctx);
                assert forall|i: int| 0 <= i < rules.len() implies s.rules[i] == rules[i] by {
                    assert(s.rules[i] == rules_after[i]);
                }
                assert(rules =~= s.rules.subrange(0, rules.len() as int));
            },
        }
    } else {
        assert(rules =~= rules.subrange(0, rules.len() as int));
    }
}

} // verus!
