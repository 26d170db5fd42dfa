//! Showing SVG graphics in the terminal through an external image viewer.

use vstd::prelude::*;
use crate::text;
use crate::text::{chars_of, push_char, push_decimal_u128, string_of};

verus! {

/// An image viewer found on the search path, with the path of its program.
#[derive(Clone, Debug, PartialEq, Eq)]
pub enum Backend {
    Kitten(String),
    Kitty(String),
    WezTerm(String),
    Chafa(String),
}

/// The kinds of image viewer, without their paths.
#[derive(Clone, Copy, Debug, PartialEq, Eq, Structural)]
pub enum BackendKind {
    Kitten,
    Kitty,
    WezTerm,
    Chafa,
}

/// The model of [`Backend`].
pub struct BackendView {
    pub kind: BackendKind,
    pub program: Seq<char>,
}

impl View for Backend {
    type V = BackendView;

    open spec fn view(&self) -> BackendView {
        match self {
            Backend::Kitten(p) => BackendView { kind: BackendKind::Kitten, program: p@ },
            Backend::Kitty(p) => BackendView { kind: BackendKind::Kitty, program: p@ },
            Backend::WezTerm(p) => BackendView { kind: BackendKind::WezTerm, program: p@ },
            Backend::Chafa(p) => BackendView { kind: BackendKind::Chafa, program: p@ },
        }
    }
}

/// How a viewer is named in messages.
pub open spec fn kind_name(kind: BackendKind) -> Seq<char> {
    match kind {
        BackendKind::Kitten => "kitten icat"@,
        BackendKind::Kitty => "kitty +kitten icat"@,
        BackendKind::WezTerm => "wezterm imgcat"@,
        BackendKind::Chafa => "chafa"@,
    }
}

/// The arguments a viewer is started with, before the image's path.
pub open spec fn kind_arguments(kind: BackendKind) -> Seq<Seq<char>> {
    match kind {
        BackendKind::Kitten => seq!["icat"@, "--stdin=no"@],
        BackendKind::Kitty => seq!["+kitten"@, "icat"@, "--stdin=no"@],
        BackendKind::WezTerm => seq!["imgcat"@],
        BackendKind::Chafa => Seq::empty(),
    }
}

impl Backend {
    /// How the viewer is named in messages.
    pub fn name(&self) -> (r: &'static str)
        ensures
            r@ == kind_name(self@.kind),
    {
        match self {
            Backend::Kitten(_) => "kitten icat",
            Backend::Kitty(_) => "kitty +kitten icat",
            Backend::WezTerm(_) => "wezterm imgcat",
            Backend::Chafa(_) => "chafa",
        }
    }

    /// The program to start and its arguments to show the image at `path`.
    pub fn display_command(&self, path: &str) -> (r: (String, Vec<String>))
        ensures
            r.0@ == self@.program,
            r.1.deep_view() == kind_arguments(self@.kind).push(path@),
    {
        let mut args: Vec<String> = Vec::new();
        let program = match self {
            Backend::Kitten(p) => {
                args.push(String::from_str("icat"));
                args.push(String::from_str("--stdin=no"));
                p.clone()
            },
            Backend::Kitty(p) => {
                args.push(String::from_str("+kitten"));
                args.push(String::from_str("icat"));
                args.push(String::from_str("--stdin=no"));
                p.clone()
            },
            Backend::WezTerm(p) => {
                args.push(String::from_str("imgcat"));
                p.clone()
            },
            Backend::Chafa(p) => p.clone(),
        };
        args.push(String::from_str(path));
        assert(args.deep_view() =~= kind_arguments(self@.kind).push(path@));
        (program, args)
    }
}

/// The viewers in the order they are tried.
pub open spec fn kind_at(k: int) -> BackendKind {
    if k == 0 {
        BackendKind::Kitten
    } else if k == 1 {
        BackendKind::Kitty
    } else if k == 2 {
        BackendKind::WezTerm
    } else {
        BackendKind::Chafa
    }
}

/// The program names that are looked up on the search path, in the order the viewers are tried.
pub open spec fn program_names() -> Seq<Seq<char>> {
    seq!["kitten"@, "kitty"@, "wezterm"@, "chafa"@]
}

/// The program names that are looked up on the search path, in the order the viewers are tried.
pub fn backend_programs() -> (r: Vec<String>)
    ensures
        r.deep_view() == program_names(),
{
    let mut r: Vec<String> = Vec::new();
    r.push(String::from_str("kitten"));
    r.push(String::from_str("kitty"));
    r.push(String::from_str("wezterm"));
    r.push(String::from_str("chafa"));
    assert(r.deep_view() =~= program_names());
    r
}

/// The viewers whose programs were found, in the order they are tried; `found[k]` is where
/// the `k`-th program was found, if anywhere.
pub open spec fn selected(found: Seq<Option<Seq<char>>>, k: int) -> Seq<BackendView>
    decreases k,
{
    if k <= 0 {
        Seq::empty()
    } else {
        match found[k - 1] {
            Some(p) => selected(found, k - 1).push(BackendView { kind: kind_at(k - 1), program: p }),
            None => selected(found, k - 1),
        }
    }
}

/// The models of a sequence of viewers.
pub open spec fn backends_view(bs: Seq<Backend>) -> Seq<BackendView> {
    bs.map_values(|b: Backend| b@)
}

/// The viewers that can show graphics, tried in order until one succeeds.
#[derive(Clone, Debug, PartialEq, Eq)]
pub struct GraphicalOutputBackend {
    pub candidates: Vec<Backend>,
}

/// What to do next while showing an image.
#[derive(Clone, Debug)]
pub enum DisplayStep {
    /// Start the viewer at this position among the candidates.
    Try(usize),
    /// The image was shown.
    Displayed,
    /// Every viewer failed; the report of their failures.
    Failed(String),
}

/// The model of [`DisplayStep`].
pub enum DisplayStepView {
    Try(int),
    Displayed,
    Failed(Seq<char>),
}

impl View for DisplayStep {
    type V = DisplayStepView;

    open spec fn view(&self) -> DisplayStepView {
        match self {
            DisplayStep::Try(k) => DisplayStepView::Try(*k as int),
            DisplayStep::Displayed => DisplayStepView::Displayed,
            DisplayStep::Failed(m) => DisplayStepView::Failed(m@),
        }
    }
}

/// `parts` joined by `separator`.
pub open spec fn joined(parts: Seq<Seq<char>>, separator: Seq<char>) -> Seq<char>
    decreases parts.len(),
{
    if parts.len() == 0 {
        Seq::empty()
    } else if parts.len() == 1 {
        parts[0]
    } else {
        joined(parts.drop_last(), separator) + separator + parts.last()
    }
}

/// The failure of viewer `k`: its name and what went wrong.
pub open spec fn failure_entry(candidates: Seq<BackendView>, errors: Seq<Seq<char>>, k: int) -> Seq<char> {
    kind_name(candidates[k].kind) + ": "@ + errors[k]
}

/// The report of the failures of the first `errors.len()` viewers, separated by `; `.
pub open spec fn failure_report(candidates: Seq<BackendView>, errors: Seq<Seq<char>>) -> Seq<char> {
    joined(Seq::new(errors.len(), |k: int| failure_entry(candidates, errors, k)), "; "@)
}

/// The errors of the attempts so far, in order (empty texts stand for successes).
pub open spec fn attempt_errors(outcomes: Seq<Result<(), String>>) -> Seq<Seq<char>> {
    outcomes.map_values(
        |o: Result<(), String>|
            match o {
                Ok(_) => Seq::<char>::empty(),
                Err(e) => e@,
            },
    )
}

/// The next step after the attempts `outcomes`, the viewers having been tried in order: done
/// once one succeeded, else the next viewer, else the report of all failures.
pub open spec fn display_step_for(candidates: Seq<BackendView>, outcomes: Seq<Result<(), String>>) -> DisplayStepView {
    if exists|k: int| 0 <= k < outcomes.len() && outcomes[k] is Ok {
        DisplayStepView::Displayed
    } else if outcomes.len() < candidates.len() {
        DisplayStepView::Try(outcomes.len() as int)
    } else {
        DisplayStepView::Failed(failure_report(candidates, attempt_errors(outcomes)))
    }
}

impl GraphicalOutputBackend {
    /// The viewers whose programs were found, or none if no program was found; `found` holds,
    /// for each of the [`backend_programs`] in order, where it was found.
    pub fn from_found(found: Vec<Option<String>>) -> (r: Option<GraphicalOutputBackend>)
        requires
            found@.len() == 4,
        ensures
            match r {
                Some(b) => backends_view(b.candidates@) == selected(found.deep_view(), 4)
                    && b.candidates@.len() > 0,
                None => selected(found.deep_view(), 4).len() == 0,
            },
    {
        let ghost fv = found.deep_view();
        let mut candidates: Vec<Backend> = Vec::new();
        let mut k: usize = 0;
        let mut rest = found;
        assert(backends_view(candidates@) =~= selected(fv, 0));
        while k < 4
            invariant
                k <= 4,
                fv.len() == 4,
                rest.deep_view() == fv,
                backends_view(candidates@) == selected(fv, k as int),
            decreases 4 - k,
        {
            let ghost before = candidates@;
            let entry = match &rest[k] {
                Some(p) => Some(p.clone()),
                None => None,
            };
            assert(entry.deep_view() == fv[k as int]);
            match entry {
                Some(p) => {
                    let b = if k == 0 {
                        Backend::Kitten(p)
                    } else if k == 1 {
                        Backend::Kitty(p)
                    } else if k == 2 {
                        Backend::WezTerm(p)
                    } else {
                        Backend::Chafa(p)
                    };
                    candidates.push(b);
                    assert(backends_view(candidates@) =~= backends_view(before).push(b@));
                },
                None => {},
            }
            k = k + 1;
        }
        if candidates.len() == 0 {
            None
        } else {
            Some(GraphicalOutputBackend { candidates })
        }
    }

    /// Decides the next step of showing an image, given the outcomes of the viewers tried so far.
    pub fn display_svg(&self, outcomes: &Vec<Result<(), String>>) -> (r: DisplayStep)
        requires
            outcomes@.len() <= self.candidates@.len(),
        ensures
            r@ == display_step_for(backends_view(self.candidates@), outcomes@),
            r matches DisplayStep::Try(k) ==> k == outcomes@.len() && k < self.candidates@.len(),
    {
        let ghost cs = backends_view(self.candidates@);
        let n = outcomes.len();
        for k in 0..n
            invariant
                n == outcomes@.len(),
                forall|t: int| 0 <= t < k ==> outcomes@[t] is Err,
        {
            if outcomes[k].is_ok() {
                return DisplayStep::Displayed;
            }
        }
        if n < self.candidates.len() {
            return DisplayStep::Try(n);
        }
        let ghost errors = attempt_errors(outcomes@);
        let ghost entries = Seq::new(errors.len(), |k: int| failure_entry(cs, errors, k));
        let mut report = String::new();
        for k in 0..n
            invariant
                n == outcomes@.len(),
                n <= self.candidates@.len(),
                cs == backends_view(self.candidates@),
                errors == attempt_errors(outcomes@),
                entries == Seq::new(errors.len(), |k: int| failure_entry(cs, errors, k)),
                forall|t: int| 0 <= t < n ==> outcomes@[t] is Err,
                report@ == joined(entries.take(k as int), "; "@),
        {
            let ghost before = report@;
            if k > 0 {
                report.append("; ");
            }
            report.append(self.candidates[k].name());
            report.append(": ");
            match &outcomes[k] {
                Err(e) => report.append(e.as_str()),
                Ok(_) => {},
            }
            assert(cs[k as int] == self.candidates@[k as int]@);
            assert(entries.take(k + 1).drop_last() =~= entries.take(k as int));
            assert(entries.take(k + 1).last() == entries[k as int]);
            if k == 0 {
                assert(entries.take(1) =~= seq![entries[0]]);
            }
        }
        assert(entries.take(n as int) =~= entries);
        DisplayStep::Failed(report)
    }
}

/// Whether file metadata shows an executable program: a regular file with an execute bit set.
pub open spec fn executable_mode(is_file: bool, mode: u32) -> bool {
    is_file && (mode & 0o111u32) != 0
}

/// Whether file metadata shows an executable program: a regular file with any execute bit set.
pub fn is_executable(is_file: bool, mode: u32) -> (r: bool)
    ensures
        r == executable_mode(is_file, mode),
{
    is_file && mode & 0o111 != 0
}

/// The pieces of `s` between the separators `c`, in order (an empty text is one empty piece),
/// together with the piece that the last separator opened.
pub open spec fn split_state(s: Seq<char>, c: char) -> (Seq<Seq<char>>, Seq<char>)
    decreases s.len(),
{
    if s.len() == 0 {
        (Seq::empty(), Seq::empty())
    } else {
        let (done, current) = split_state(s.drop_last(), c);
        if s.last() == c {
            (done.push(current), Seq::empty())
        } else {
            (done, current.push(s.last()))
        }
    }
}

/// The pieces of `s` between the separators `c`, in order.
pub open spec fn split_on(s: Seq<char>, c: char) -> Seq<Seq<char>> {
    split_state(s, c).0.push(split_state(s, c).1)
}

/// `name` followed by `name` with each non-empty extension of `pieces` appended, in order.
pub open spec fn with_extensions(name: Seq<char>, pieces: Seq<Seq<char>>) -> Seq<Seq<char>>
    decreases pieces.len(),
{
    if pieces.len() == 0 {
        seq![name]
    } else if pieces.last().len() == 0 {
        with_extensions(name, pieces.drop_last())
    } else {
        with_extensions(name, pieces.drop_last()).push(name + pieces.last())
    }
}

/// The extensions tried for a program where no `PATHEXT` is set.
pub const DEFAULT_PATHEXT: &'static str = ".COM;.EXE;.BAT;.CMD";

/// The file names under which program `name` is looked for where programs carry an extension:
/// the bare name, then the name with each extension of `pathext` (separated by `;`, empty ones
/// skipped), or of [`DEFAULT_PATHEXT`] where there is none.
pub fn executable_names(name: &str, pathext: Option<String>) -> (r: Vec<String>)
    ensures
        r.deep_view() == with_extensions(
            name@,
            split_on(
                match pathext {
                    Some(p) => p@,
                    None => DEFAULT_PATHEXT@,
                },
                ';',
            ),
        ),
{
    let extensions = match pathext {
        Some(p) => chars_of(p.as_str()),
        None => chars_of(DEFAULT_PATHEXT),
    };
    let ghost ext = extensions@;
    let mut names: Vec<String> = Vec::new();
    names.push(String::from_str(name));
    let mut current: Vec<char> = Vec::new();
    let ghost mut done: Seq<Seq<char>> = Seq::empty();
    let n = extensions.len();
    assert(names.deep_view() =~= seq![name@]);
    assert(ext.take(0) =~= Seq::<char>::empty());
    for k in 0..n
        invariant
            n == ext.len(),
            extensions@ == ext,
            split_state(ext.take(k as int), ';') == (done, current@),
            names.deep_view() == with_extensions(name@, done),
    {
        let c = extensions[k];
        assert(ext.take(k + 1).drop_last() =~= ext.take(k as int));
        if c == ';' {
            let ghost before = names.deep_view();
            if current.len() > 0 {
                let mut full = String::from_str(name);
                let piece = string_of(current.as_slice());
                full.append(piece.as_str());
                names.push(full);
                assert(names.deep_view() =~= before.push(name@ + current@));
            }
            proof {
                assert(done.push(current@).drop_last() =~= done);
                done = done.push(current@);
            }
            current = Vec::new();
            assert(current@ =~= Seq::<char>::empty());
        } else {
            current.push(c);
        }
    }
    assert(ext.take(n as int) =~= ext);
    if current.len() > 0 {
        let ghost before = names.deep_view();
        let mut full = String::from_str(name);
        let piece = string_of(current.as_slice());
        full.append(piece.as_str());
        names.push(full);
        assert(names.deep_view() =~= before.push(name@ + current@));
    }
    assert(done.push(current@).drop_last() =~= done);
    names
}

/// A temporary SVG file holding an image to show.
#[derive(Clone, Debug, PartialEq, Eq)]
pub struct TemporarySvg {
    path: String,
}

/// How many names are tried for a temporary SVG file before giving up.
pub const TEMPORARY_SVG_ATTEMPTS: u32 = 100;

/// The error when no fresh name for a temporary SVG file was found.
pub const TEMPORARY_SVG_EXHAUSTED: &'static str = "failed to allocate a unique temporary SVG file";

/// What an attempt to create a temporary SVG file under a fresh name gave.
#[derive(Clone, Copy, Debug, PartialEq, Eq, Structural)]
pub enum CreateOutcome {
    /// The file was created and the image written to it.
    Created,
    /// A file of that name already exists.
    AlreadyExists,
    /// The file could not be created or written for another reason.
    Failed,
}

/// What to do next while creating a temporary SVG file.
#[derive(Clone, Copy, Debug, PartialEq, Eq, Structural)]
pub enum CreateStep {
    /// Try the name of this attempt.
    Try(u32),
    /// The file was created by the last attempt.
    Created,
    /// The last attempt failed for a reason other than the name being taken; report it.
    Failed,
    /// Every name was taken: give up with [`TEMPORARY_SVG_EXHAUSTED`].
    Exhausted,
}

/// The next step after the attempts `outcomes`: the first name first, the next name while the
/// names tried so far were taken, up to [`TEMPORARY_SVG_ATTEMPTS`] names.
pub open spec fn create_step_for(outcomes: Seq<CreateOutcome>) -> CreateStep {
    if outcomes.len() == 0 {
        CreateStep::Try(0)
    } else if outcomes.last() == CreateOutcome::Created {
        CreateStep::Created
    } else if outcomes.last() == CreateOutcome::Failed {
        CreateStep::Failed
    } else if outcomes.len() < TEMPORARY_SVG_ATTEMPTS {
        CreateStep::Try(outcomes.len() as u32)
    } else {
        CreateStep::Exhausted
    }
}

/// The file name of attempt `attempt` for process `pid` with the nonce `nonce`.
pub open spec fn temporary_svg_name_of(pid: u32, nonce: u128, attempt: u32) -> Seq<char> {
    "wolfie-"@ + text::decimal_digits(pid as nat) + "-"@ + text::decimal_digits(nonce as nat) + "-"@
        + text::decimal_digits(attempt as nat) + ".svg"@
}

impl View for TemporarySvg {
    type V = Seq<char>;

    /// The path of the file.
    closed spec fn view(&self) -> Seq<char> {
        self.path@
    }
}

impl TemporarySvg {
    /// The file name tried at attempt `attempt`: `wolfie-<pid>-<nonce>-<attempt>.svg`.
    pub fn file_name(pid: u32, nonce: u128, attempt: u32) -> (r: String)
        ensures
            r@ == temporary_svg_name_of(pid, nonce, attempt),
    {
        let mut r = String::from_str("wolfie-");
        push_decimal_u128(&mut r, pid as u128);
        r.append("-");
        push_decimal_u128(&mut r, nonce);
        r.append("-");
        push_decimal_u128(&mut r, attempt as u128);
        r.append(".svg");
        r
    }

    /// The next step in creating the file, after the attempts `outcomes`.
    pub fn create_step(outcomes: &Vec<CreateOutcome>) -> (r: CreateStep)
        ensures
            r == create_step_for(outcomes@),
            r matches CreateStep::Try(k) ==> k == outcomes@.len() && k < TEMPORARY_SVG_ATTEMPTS,
    {
        let n = outcomes.len();
        if n == 0 {
            return CreateStep::Try(0);
        }
        let last = outcomes[n - 1];
        if last == CreateOutcome::Created {
            CreateStep::Created
        } else if last == CreateOutcome::Failed {
            CreateStep::Failed
        } else if n < TEMPORARY_SVG_ATTEMPTS as usize {
            CreateStep::Try(n as u32)
        } else {
            CreateStep::Exhausted
        }
    }

    /// The file created at `path`.
    pub fn new(path: String) -> (r: TemporarySvg)
        ensures
            r@ == path@,
    {
        TemporarySvg { path }
    }

    /// Where the file is.
    pub fn path(&self) -> (r: &str)
        ensures
            r@ == self@,
    {
        self.path.as_str()
    }
}

} // verus!

verus! {

/// Words joined with single spaces.
pub open spec fn words_joined(words: Seq<Seq<char>>) -> Seq<char>
    decreases words.len(),
{
    if words.len() == 0 {
        Seq::empty()
    } else if words.len() == 1 {
        words[0]
    } else {
        words[0] + " "@ + words_joined(words.drop_first())
    }
}

/// The arguments without the `--stdin=no` flag.
pub open spec fn without_stdin_flag(args: Seq<Seq<char>>) -> Seq<Seq<char>>
    decreases args.len(),
{
    if args.len() == 0 {
        Seq::empty()
    } else if args.last() == "--stdin=no"@ {
        without_stdin_flag(args.drop_last())
    } else {
        without_stdin_flag(args.drop_last()).push(args.last())
    }
}

/// Whether a viewer of kind `kind` is the one started through `program`: its name is the
/// program followed by the arguments it is started with, the `--stdin=no` flag aside.
pub open spec fn started_through(kind: BackendKind, program: Seq<char>) -> bool {
    kind_name(kind) == words_joined(seq![program] + without_stdin_flag(kind_arguments(kind)))
}

/// How many of the first `k` programs were found.
pub open spec fn found_count(found: Seq<Option<Seq<char>>>, k: int) -> int
    decreases k,
{
    if k <= 0 {
        0
    } else if found[k - 1] is Some {
        found_count(found, k - 1) + 1
    } else {
        found_count(found, k - 1)
    }
}

proof fn lemma_selected_length(found: Seq<Option<Seq<char>>>, j: int)
    requires
        0 <= j <= found.len(),
    ensures
        selected(found, j).len() == found_count(found, j),
        0 <= found_count(found, j),
    decreases j,
{
    if j > 0 {
        lemma_selected_length(found, j - 1);
    }
}

proof fn lemma_selected_at(found: Seq<Option<Seq<char>>>, j: int, k: int)
    requires
        0 <= k < j <= found.len(),
        found[k] is Some,
    ensures
        found_count(found, k) < found_count(found, j),
        selected(found, j)[found_count(found, k)] == (BackendView {
            kind: kind_at(k),
            program: found[k]->0,
        }),
    decreases j,
{
    lemma_selected_length(found, j - 1);
    lemma_selected_length(found, k);
    let prior = selected(found, j - 1);
    if k < j - 1 {
        lemma_selected_at(found, j - 1, k);
        if found[j - 1] is Some {
            let v = BackendView { kind: kind_at(j - 1), program: found[j - 1]->0 };
            assert(selected(found, j) == prior.push(v));
        }
    } else {
        let v = BackendView { kind: kind_at(j - 1), program: found[j - 1]->0 };
        assert(selected(found, j) == prior.push(v));
    }
}

proof fn lemma_viewers_started_through_their_programs()
    ensures
        without_stdin_flag(kind_arguments(BackendKind::Kitten)) == seq!["icat"@],
        without_stdin_flag(kind_arguments(BackendKind::Kitty)) == seq!["+kitten"@, "icat"@],
        without_stdin_flag(kind_arguments(BackendKind::WezTerm)) == seq!["imgcat"@],
        without_stdin_flag(kind_arguments(BackendKind::Chafa)) == Seq::<Seq<char>>::empty(),
        started_through(BackendKind::Kitten, "kitten"@),
        started_through(BackendKind::Kitty, "kitty"@),
        started_through(BackendKind::WezTerm, "wezterm"@),
        started_through(BackendKind::Chafa, "chafa"@),
{
    reveal_strlit("kitten icat");
    reveal_strlit("kitty +kitten icat");
    reveal_strlit("wezterm imgcat");
    reveal_strlit("chafa");
    reveal_strlit("kitten");
    reveal_strlit("kitty");
    reveal_strlit("wezterm");
    reveal_strlit("icat");
    reveal_strlit("+kitten");
    reveal_strlit("imgcat");
    reveal_strlit("--stdin=no");
    reveal_strlit(" ");
    assert("icat"@.len() != "--stdin=no"@.len());
    assert("+kitten"@.len() != "--stdin=no"@.len());
    assert("imgcat"@.len() != "--stdin=no"@.len());
    let empty = Seq::<Seq<char>>::empty();
    assert(without_stdin_flag(empty) == empty);
    let icat = seq!["icat"@];
    assert(icat.drop_last() =~= empty);
    assert(icat.last() == "icat"@);
    assert(without_stdin_flag(icat) == empty.push("icat"@));
    assert(empty.push("icat"@) =~= icat);
    let kitten = seq!["icat"@, "--stdin=no"@];
    assert(kitten.drop_last() =~= icat);
    assert(kitten.last() == "--stdin=no"@);
    assert(without_stdin_flag(kitten) =~= seq!["icat"@]);
    assert(words_joined(icat) == "icat"@);
    let kw = seq!["kitten"@, "icat"@];
    assert(kw.drop_first() =~= icat);
    assert(words_joined(kw) == "kitten"@ + " "@ + "icat"@);
    assert(words_joined(kw) =~= "kitten icat"@);
    let plus = seq!["+kitten"@];
    assert(plus.drop_last() =~= empty);
    assert(plus.last() == "+kitten"@);
    assert(without_stdin_flag(plus) == empty.push("+kitten"@));
    assert(empty.push("+kitten"@) =~= plus);
    let pi = seq!["+kitten"@, "icat"@];
    assert(pi.drop_last() =~= plus);
    assert(pi.last() == "icat"@);
    assert(without_stdin_flag(pi) == plus.push("icat"@));
    assert(plus.push("icat"@) =~= pi);
    let kitty = seq!["+kitten"@, "icat"@, "--stdin=no"@];
    assert(kitty.drop_last() =~= pi);
    assert(kitty.last() == "--stdin=no"@);
    assert(without_stdin_flag(kitty) =~= pi);
    assert(pi.drop_first() =~= icat);
    assert(words_joined(pi) == "+kitten"@ + " "@ + "icat"@);
    let yw = seq!["kitty"@, "+kitten"@, "icat"@];
    assert(yw.drop_first() =~= pi);
    assert(words_joined(yw) == "kitty"@ + " "@ + words_joined(pi));
    assert(words_joined(yw) =~= "kitty +kitten icat"@);
    let wez = seq!["imgcat"@];
    assert(wez.drop_last() =~= Seq::<Seq<char>>::empty());
    assert(without_stdin_flag(wez) =~= seq!["imgcat"@]);
    let ww = seq!["wezterm"@, "imgcat"@];
    assert(ww.drop_first() =~= seq!["imgcat"@]);
    assert(words_joined(seq!["imgcat"@]) == "imgcat"@);
    assert(words_joined(ww) == "wezterm"@ + " "@ + "imgcat"@);
    assert(words_joined(ww) =~= "wezterm imgcat"@);
    assert(without_stdin_flag(Seq::<Seq<char>>::empty()) =~= Seq::<Seq<char>>::empty());
    assert(seq!["chafa"@] + Seq::<Seq<char>>::empty() =~= seq!["chafa"@]);
    assert(seq!["kitten"@] + seq!["icat"@] =~= kw);
    assert(seq!["kitty"@] + seq!["+kitten"@, "icat"@] =~= yw);
    assert(seq!["wezterm"@] + seq!["imgcat"@] =~= ww);
}

/// A viewer is named after what it is started with: its name is one of the programs looked
/// up, followed by the arguments it is started with before the image's path; the arguments add
/// `--stdin=no` exactly for the `icat` viewers, as their last argument.
pub proof fn law_viewer_arguments_follow_name(kind: BackendKind)
    ensures
        exists|k: int| 0 <= k < 4 && started_through(kind, #[trigger] program_names()[k]),
        kind_arguments(kind) == without_stdin_flag(kind_arguments(kind)) + (if without_stdin_flag(
            kind_arguments(kind),
        ).contains("icat"@) {
            seq!["--stdin=no"@]
        } else {
            Seq::empty()
        }),
{
    lemma_viewers_started_through_their_programs();
    reveal_strlit("icat");
    reveal_strlit("+kitten");
    reveal_strlit("imgcat");
    reveal_strlit("--stdin=no");
    match kind {
        BackendKind::Kitten => {
            assert(program_names()[0] == "kitten"@);
            let w = without_stdin_flag(kind_arguments(kind));
            assert(w[0] == "icat"@);
            assert(kind_arguments(kind) =~= w + seq!["--stdin=no"@]);
        },
        BackendKind::Kitty => {
            assert(program_names()[1] == "kitty"@);
            let w = without_stdin_flag(kind_arguments(kind));
            assert(w[1] == "icat"@);
            assert(kind_arguments(kind) =~= w + seq!["--stdin=no"@]);
        },
        BackendKind::WezTerm => {
            assert(program_names()[2] == "wezterm"@);
            let w = without_stdin_flag(kind_arguments(kind));
            assert("imgcat"@.len() != "icat"@.len());
            assert(!w.contains("icat"@)) by {
                if w.contains("icat"@) {
                    let j = choose|j: int| 0 <= j < w.len() && w[j] == "icat"@;
                    assert(w[j] == "imgcat"@);
                }
            }
            assert(kind_arguments(kind) =~= w + Seq::<Seq<char>>::empty());
        },
        BackendKind::Chafa => {
            assert(program_names()[3] == "chafa"@);
            assert(kind_arguments(kind) =~= without_stdin_flag(kind_arguments(kind)) + Seq::<
                Seq<char>,
            >::empty());
        },
    }
}

/// The viewers chosen from what was found on the search path: one for each program found, in
/// the order of the programs, each with the path where its program was found and of the kind
/// started through that program (kitten, kitty, wezterm, chafa in turn).
pub proof fn law_found_programs_give_their_viewers(found: Seq<Option<Seq<char>>>)
    requires
        found.len() == 4,
    ensures
        selected(found, 4).len() == found_count(found, 4),
        forall|k: int|
            0 <= k < 4 && (#[trigger] found[k]) is Some ==> {
                let v = selected(found, 4)[found_count(found, k)];
                &&& found_count(found, k) < selected(found, 4).len()
                &&& v.program == found[k]->0
                &&& started_through(v.kind, program_names()[k])
            },
{
    lemma_selected_length(found, 4);
    lemma_viewers_started_through_their_programs();
    assert forall|k: int| 0 <= k < 4 && (#[trigger] found[k]) is Some implies {
        let v = selected(found, 4)[found_count(found, k)];
        &&& found_count(found, k) < selected(found, 4).len()
        &&& v.program == found[k]->0
        &&& v.kind == kind_at(k)
    } by {
        lemma_selected_at(found, 4, k);
    }
    assert(program_names()[0] == "kitten"@);
    assert(program_names()[1] == "kitty"@);
    assert(program_names()[2] == "wezterm"@);
    assert(program_names()[3] == "chafa"@);
}

} // verus!
