//! Desktop installation: quoting paths for PowerShell, the shortcut script, and
//! the order of the installation steps with what each outcome leads to.
use vstd::prelude::*;

use vstd::string::{StrSliceExecFns, StringExecFns};

use crate::text::collect_chars;

verus! {

/// The PowerShell single-quoted form of one character.
pub open spec fn escape_char(c: char) -> Seq<char> {
    if c == '\'' {
        seq!['\'', '\'']
    } else {
        seq![c]
    }
}

/// `s` with every single quote doubled, as PowerShell reads it between single quotes.
pub open spec fn ps_escape(s: Seq<char>) -> Seq<char>
    decreases s.len(),
{
    if s.len() == 0 {
        Seq::empty()
    } else {
        escape_char(s[0]) + ps_escape(s.drop_first())
    }
}

/// The text that PowerShell reads from the body of a single-quoted string:
/// each doubled quote stands for one quote.
pub open spec fn ps_unescape(s: Seq<char>) -> Seq<char>
    decreases s.len(),
{
    if s.len() == 0 {
        Seq::empty()
    } else if s.len() >= 2 && s[0] == '\'' && s[1] == '\'' {
        seq!['\''] + ps_unescape(s.skip(2))
    } else {
        seq![s[0]] + ps_unescape(s.drop_first())
    }
}

/// Quoting a text for PowerShell loses nothing: PowerShell reads back the text.
pub proof fn law_ps_literal_round_trip(s: Seq<char>)
    ensures
        ps_unescape(ps_escape(s)) == s,
    decreases s.len(),
{
    if s.len() > 0 {
        let rest = s.drop_first();
        law_ps_literal_round_trip(rest);
        let e = ps_escape(s);
        assert(e == escape_char(s[0]) + ps_escape(rest));
        if s[0] == '\'' {
            assert(e.skip(2) =~= ps_escape(rest));
        } else {
            assert(e.drop_first() =~= ps_escape(rest));
        }
        assert(s =~= seq![s[0]] + rest);
    }
}

/// The number of single quotes in `s`.
pub open spec fn quote_count(s: Seq<char>) -> nat
    decreases s.len(),
{
    if s.len() == 0 {
        0
    } else {
        (if s[0] == '\'' {
            1nat
        } else {
            0nat
        }) + quote_count(s.drop_first())
    }
}

/// `s[i..j]` is a maximal run of single quotes in `s`.
pub open spec fn is_quote_run(s: Seq<char>, i: int, j: int) -> bool {
    &&& 0 <= i <= j <= s.len()
    &&& forall|k: int| i <= k < j ==> s[k] == '\''
    &&& (i == 0 || s[i - 1] != '\'')
    &&& (j == s.len() || s[j] != '\'')
}

/// Read from the left, every single quote of `s` is followed by a second one
/// that pairs with it.
spec fn quotes_paired(s: Seq<char>) -> bool
    decreases s.len(),
{
    if s.len() == 0 {
        true
    } else if s[0] == '\'' {
        s.len() >= 2 && s[1] == '\'' && quotes_paired(s.skip(2))
    } else {
        quotes_paired(s.drop_first())
    }
}

proof fn lemma_escape_paired(s: Seq<char>)
    ensures
        quotes_paired(ps_escape(s)),
    decreases s.len(),
{
    if s.len() > 0 {
        let rest = s.drop_first();
        lemma_escape_paired(rest);
        let e = ps_escape(s);
        if s[0] == '\'' {
            assert(e.skip(2) =~= ps_escape(rest));
        } else {
            assert(e.drop_first() =~= ps_escape(rest));
        }
    }
}

proof fn lemma_paired_runs_even(s: Seq<char>, i: int, j: int)
    requires
        quotes_paired(s),
        is_quote_run(s, i, j),
    ensures
        (j - i) % 2 == 0,
    decreases s.len(),
{
    if s.len() == 0 {
    } else if s[0] == '\'' {
        let t = s.skip(2);
        if i == 0 {
            if j == 1 {
                assert(s[1] == '\'');
            } else if j >= 2 {
                assert(is_quote_run(t, 0, j - 2)) by {
                    assert forall|k: int| 0 <= k < j - 2 implies t[k] == '\'' by {
                        assert(t[k] == s[k + 2]);
                    }
                    if j - 2 < t.len() {
                        assert(t[j - 2] == s[j]);
                    }
                }
                lemma_paired_runs_even(t, 0, j - 2);
            }
        } else if i == 1 {
            assert(s[0] == '\'');
        } else {
            assert(is_quote_run(t, i - 2, j - 2)) by {
                assert forall|k: int| i - 2 <= k < j - 2 implies t[k] == '\'' by {
                    assert(t[k] == s[k + 2]);
                }
                if i - 2 > 0 {
                    assert(t[i - 3] == s[i - 1]);
                }
                if j - 2 < t.len() {
                    assert(t[j - 2] == s[j]);
                }
            }
            lemma_paired_runs_even(t, i - 2, j - 2);
        }
    } else {
        let t = s.drop_first();
        if i == 0 {
            if j > 0 {
                assert(s[0] == '\'');
            }
        } else {
            assert(is_quote_run(t, i - 1, j - 1)) by {
                assert forall|k: int| i - 1 <= k < j - 1 implies t[k] == '\'' by {
                    assert(t[k] == s[k + 1]);
                }
                if i - 1 > 0 {
                    assert(t[i - 2] == s[i - 1]);
                }
                if j - 1 < t.len() {
                    assert(t[j - 1] == s[j]);
                }
            }
            lemma_paired_runs_even(t, i - 1, j - 1);
        }
    }
}

/// Quoting for PowerShell adds one character per single quote, and every
/// maximal run of single quotes in the result has even length: inside a
/// single-quoted PowerShell string no quote of the result can close it.
pub proof fn law_ps_literal_shape(s: Seq<char>, i: int, j: int)
    ensures
        ps_escape(s).len() == s.len() + quote_count(s),
        is_quote_run(ps_escape(s), i, j) ==> (j - i) % 2 == 0,
{
    lemma_escape_len(s);
    lemma_escape_paired(s);
    if is_quote_run(ps_escape(s), i, j) {
        lemma_paired_runs_even(ps_escape(s), i, j);
    }
}

proof fn lemma_escape_len(s: Seq<char>)
    ensures
        ps_escape(s).len() == s.len() + quote_count(s),
    decreases s.len(),
{
    if s.len() > 0 {
        lemma_escape_len(s.drop_first());
    }
}

proof fn lemma_ps_escape_append(a: Seq<char>, b: Seq<char>)
    ensures
        ps_escape(a + b) == ps_escape(a) + ps_escape(b),
    decreases a.len(),
{
    if a.len() == 0 {
        assert(a + b =~= b);
        assert(ps_escape(a) + ps_escape(b) =~= ps_escape(b));
    } else {
        lemma_ps_escape_append(a.drop_first(), b);
        assert((a + b).drop_first() =~= a.drop_first() + b);
        assert((a + b)[0] == a[0]);
        assert(ps_escape(a + b) =~= escape_char(a[0]) + (ps_escape(a.drop_first()) + ps_escape(b)));
    }
}

proof fn lemma_ps_escape_plain(s: Seq<char>)
    requires
        forall|j: int| 0 <= j < s.len() ==> s[j] != '\'',
    ensures
        ps_escape(s) == s,
    decreases s.len(),
{
    if s.len() > 0 {
        lemma_ps_escape_plain(s.drop_first());
        assert(s =~= seq![s[0]] + s.drop_first());
    }
}

/// `text` as the body of a PowerShell single-quoted string: every single quote doubled.
pub fn powershell_literal(text: &str) -> (quoted: String)
    ensures
        quoted@ == ps_escape(text@),
{
    let chars = collect_chars(text);
    let n = chars.len();
    let mut quoted = String::new();
    let mut start: usize = 0;
    let mut i: usize = 0;
    proof {
        reveal_strlit("''");
    }
    assert(text@.take(0) =~= Seq::<char>::empty());
    while i < n
        invariant
            n == chars@.len(),
            chars@ == text@,
            start <= i <= n,
            quoted@ == ps_escape(text@.take(start as int)),
            forall|j: int| start <= j < i ==> text@[j] != '\'',
            "''"@ == seq!['\'', '\''],
        decreases n - i,
    {
        if chars[i] == '\'' {
            let piece = text.substring_char(start, i);
            proof {
                lemma_ps_escape_plain(piece@);
                lemma_ps_escape_append(text@.take(start as int), piece@);
                lemma_ps_escape_append(text@.take(i as int), seq!['\'']);
                assert(text@.take(start as int) + piece@ =~= text@.take(i as int));
                assert(text@.take(i as int) + seq!['\''] =~= text@.take(i + 1));
                assert(ps_escape(seq!['\'']) =~= seq!['\'', '\'']) by {
                    assert(seq!['\''].drop_first() =~= Seq::<char>::empty());
                    assert(ps_escape(Seq::<char>::empty()) =~= Seq::<char>::empty());
                    assert(ps_escape(seq!['\'']) == escape_char('\'') + ps_escape(
                        seq!['\''].drop_first(),
                    ));
                }
            }
            quoted.append(piece);
            quoted.append("''");
            start = i + 1;
        }
        i = i + 1;
    }
    let piece = text.substring_char(start, n);
    proof {
        lemma_ps_escape_plain(piece@);
        lemma_ps_escape_append(text@.take(start as int), piece@);
        assert(text@.take(start as int) + piece@ =~= text@);
    }
    quoted.append(piece);
    quoted
}

pub open spec fn script_head() -> Seq<char> {
    "$shell = New-Object -ComObject WScript.Shell; $shortcut = $shell.CreateShortcut('"@
}

pub open spec fn script_target() -> Seq<char> {
    "'); $shortcut.TargetPath = '"@
}

pub open spec fn script_working() -> Seq<char> {
    "'; $shortcut.WorkingDirectory = '"@
}

pub open spec fn script_tail() -> Seq<char> {
    "'; $shortcut.Description = 'Tactical Mapper - offline LiDAR mapping'; $shortcut.Save()"@
}

/// The PowerShell script that writes the desktop shortcut at `desktop`, pointing
/// at `target` and starting in `working`, each path quoted.
pub open spec fn shortcut_script_text(desktop: Seq<char>, target: Seq<char>, working: Seq<char>) -> Seq<
    char,
> {
    script_head() + ps_escape(desktop) + script_target() + ps_escape(target) + script_working()
        + ps_escape(working) + script_tail()
}

/// How PowerShell reads the body of a single-quoted string: two quotes in a
/// row stand for one quote, and a lone quote closes the string. The text read,
/// and what follows the closing quote.
pub open spec fn ps_read(s: Seq<char>) -> (Seq<char>, Seq<char>)
    decreases s.len(),
{
    if s.len() == 0 {
        (Seq::empty(), Seq::empty())
    } else if s[0] == '\'' {
        if s.len() >= 2 && s[1] == '\'' {
            let r = ps_read(s.skip(2));
            (seq!['\''] + r.0, r.1)
        } else {
            (Seq::empty(), s.drop_first())
        }
    } else {
        let r = ps_read(s.drop_first());
        (seq![s[0]] + r.0, r.1)
    }
}

/// A quoted text followed by the closing quote reads back as the text, and the
/// reading stops right after that quote.
pub proof fn law_ps_literal_reads_back(x: Seq<char>, rest: Seq<char>)
    requires
        rest.len() == 0 || rest[0] != '\'',
    ensures
        ps_read(ps_escape(x) + seq!['\''] + rest) == (x, rest),
    decreases x.len(),
{
    let e = ps_escape(x) + seq!['\''] + rest;
    if x.len() == 0 {
        assert(ps_escape(x) =~= Seq::<char>::empty());
        assert(e =~= seq!['\''] + rest);
        assert(e.drop_first() =~= rest);
    } else {
        let tail = x.drop_first();
        law_ps_literal_reads_back(tail, rest);
        let te = ps_escape(tail) + seq!['\''] + rest;
        if x[0] == '\'' {
            assert(e =~= seq!['\'', '\''] + te);
            assert(e.skip(2) =~= te);
        } else {
            assert(e =~= seq![x[0]] + te);
            assert(e.drop_first() =~= te);
        }
        assert(x =~= seq![x[0]] + tail);
    }
}

/// The three paths read back from the script: the script opens a
/// single-quoted string right after `CreateShortcut(`, and PowerShell reads the
/// desktop path from it; after the fixed text up to the next opening quote it
/// reads the target, then after the next one the working directory, and the
/// rest is the fixed end of the script. A path holding quotes cannot end its
/// string early.
pub proof fn law_shortcut_script_reads_back(desktop: Seq<char>, target: Seq<char>, working: Seq<char>)
    ensures
        ({
            let s = shortcut_script_text(desktop, target, working);
            let h = script_head();
            let t1 = script_target().drop_first();
            let w1 = script_working().drop_first();
            let r1 = ps_read(s.skip(h.len() as int));
            let r2 = ps_read(r1.1.skip(t1.len() as int));
            let r3 = ps_read(r2.1.skip(w1.len() as int));
            &&& s.take(h.len() as int) == h
            &&& h.last() == '\''
            &&& r1.0 == desktop
            &&& r1.1.take(t1.len() as int) == t1
            &&& t1.last() == '\''
            &&& r2.0 == target
            &&& r2.1.take(w1.len() as int) == w1
            &&& w1.last() == '\''
            &&& r3.0 == working
            &&& r3.1 == script_tail().drop_first()
        }),
{
    reveal_strlit("$shell = New-Object -ComObject WScript.Shell; $shortcut = $shell.CreateShortcut('");
    reveal_strlit("'); $shortcut.TargetPath = '");
    reveal_strlit("'; $shortcut.WorkingDirectory = '");
    reveal_strlit("'; $shortcut.Description = 'Tactical Mapper - offline LiDAR mapping'; $shortcut.Save()");
    let h = script_head();
    let t = script_target();
    let w = script_working();
    let z = script_tail();
    let t1 = t.drop_first();
    let w1 = w.drop_first();
    let z1 = z.drop_first();
    assert(t =~= seq!['\''] + t1);
    assert(w =~= seq!['\''] + w1);
    assert(z =~= seq!['\''] + z1);
    let et = ps_escape(target);
    let ew = ps_escape(working);
    let s = shortcut_script_text(desktop, target, working);
    let after_w = ew + seq!['\''] + z1;
    let after_t = et + seq!['\''] + (w1 + after_w);
    let after_d = ps_escape(desktop) + seq!['\''] + (t1 + after_t);
    assert(s =~= h + after_d);
    assert(s.take(h.len() as int) =~= h);
    assert(s.skip(h.len() as int) =~= after_d);
    law_ps_literal_reads_back(desktop, t1 + after_t);
    assert((t1 + after_t).take(t1.len() as int) =~= t1);
    assert((t1 + after_t).skip(t1.len() as int) =~= after_t);
    law_ps_literal_reads_back(target, w1 + after_w);
    assert((w1 + after_w).take(w1.len() as int) =~= w1);
    assert((w1 + after_w).skip(w1.len() as int) =~= after_w);
    law_ps_literal_reads_back(working, z1);
}

/// The PowerShell script that writes the desktop shortcut.
pub fn shortcut_script(desktop: &str, target: &str, working: &str) -> (script: String)
    ensures
        script@ == shortcut_script_text(desktop@, target@, working@),
{
    let mut script = String::from_str(
        "$shell = New-Object -ComObject WScript.Shell; $shortcut = $shell.CreateShortcut('",
    );
    let d = powershell_literal(desktop);
    script.append(d.as_str());
    script.append("'); $shortcut.TargetPath = '");
    let t = powershell_literal(target);
    script.append(t.as_str());
    script.append("'; $shortcut.WorkingDirectory = '");
    let w = powershell_literal(working);
    script.append(w.as_str());
    script.append("'; $shortcut.Description = 'Tactical Mapper - offline LiDAR mapping'; $shortcut.Save()");
    script
}

/// The steps of the installation, in the order they run.
#[derive(Debug, Clone, Copy, PartialEq, Eq, Structural)]
pub enum InstallStage {
    /// Find the running executable.
    LocateExecutable,
    /// Read `LOCALAPPDATA` to place the installation directory.
    LocateInstallDir,
    /// Create the installation directory.
    CreateInstallDir,
    /// Compare the installed executable with the running one.
    CompareInstalled,
    /// Copy the running executable into the installation directory.
    CopyExecutable,
    /// Read `USERPROFILE` to place the desktop shortcut.
    LocateDesktop,
    /// Run the shortcut script.
    CreateShortcut,
    /// Start the installed executable.
    LaunchInstalled,
}

/// How a step ended.
#[derive(Debug, Clone, Copy, PartialEq, Eq, Structural)]
pub enum StepOutcome {
    /// The step did its work.
    Done,
    /// The step's I/O failed.
    Failed,
    /// The environment variable the step reads is not set.
    Missing,
    /// The comparison found that the running executable is the installed one.
    AlreadyInstalled,
    /// The comparison found that it is not.
    NotInstalled,
    /// The shortcut script ran and reported failure.
    ExitedUnsuccessfully,
}

/// Why the installation stopped.
#[derive(Debug, Clone, Copy, PartialEq, Eq, Structural)]
pub enum InstallFailure {
    /// The I/O of `stage` failed; the caller holds the error.
    Io(InstallStage),
    /// `LOCALAPPDATA` is not available.
    NoLocalAppData,
    /// `USERPROFILE` is not available.
    NoUserProfile,
}

/// What to do after a step.
#[derive(Debug, Clone, Copy, PartialEq, Eq)]
pub enum InstallDecision {
    /// Run `stage` next; `warn` asks for a warning that the shortcut was not written.
    Next { stage: InstallStage, warn: bool },
    /// Stop with this result: `Ok(true)` when a fresh copy was installed and
    /// launched, `Ok(false)` when the running executable is the installed one.
    Finish(Result<bool, InstallFailure>),
}

/// The installation's course: each step leads to the next; an I/O failure or a
/// missing variable stops it with that failure; an existing installation stops
/// it with `Ok(false)`; a shortcut that could not be written only warns; a
/// launched copy ends it with `Ok(true)`. Outcomes a step cannot have stop it
/// as a failure of that step.
pub open spec fn install_transition(stage: InstallStage, outcome: StepOutcome) -> InstallDecision {
    match stage {
        InstallStage::LocateExecutable => match outcome {
            StepOutcome::Done => InstallDecision::Next {
                stage: InstallStage::LocateInstallDir,
                warn: false,
            },
            _ => InstallDecision::Finish(Err(InstallFailure::Io(stage))),
        },
        InstallStage::LocateInstallDir => match outcome {
            StepOutcome::Done => InstallDecision::Next {
                stage: InstallStage::CreateInstallDir,
                warn: false,
            },
            StepOutcome::Missing => InstallDecision::Finish(Err(InstallFailure::NoLocalAppData)),
            _ => InstallDecision::Finish(Err(InstallFailure::Io(stage))),
        },
        InstallStage::CreateInstallDir => match outcome {
            StepOutcome::Done => InstallDecision::Next {
                stage: InstallStage::CompareInstalled,
                warn: false,
            },
            _ => InstallDecision::Finish(Err(InstallFailure::Io(stage))),
        },
        InstallStage::CompareInstalled => match outcome {
            StepOutcome::AlreadyInstalled => InstallDecision::Finish(Ok(false)),
            StepOutcome::NotInstalled => InstallDecision::Next {
                stage: InstallStage::CopyExecutable,
                warn: false,
            },
            _ => InstallDecision::Finish(Err(InstallFailure::Io(stage))),
        },
        InstallStage::CopyExecutable => match outcome {
            StepOutcome::Done => InstallDecision::Next {
                stage: InstallStage::LocateDesktop,
                warn: false,
            },
            _ => InstallDecision::Finish(Err(InstallFailure::Io(stage))),
        },
        InstallStage::LocateDesktop => match outcome {
            StepOutcome::Done => InstallDecision::Next {
                stage: InstallStage::CreateShortcut,
                warn: false,
            },
            StepOutcome::Missing => InstallDecision::Finish(Err(InstallFailure::NoUserProfile)),
            _ => InstallDecision::Finish(Err(InstallFailure::Io(stage))),
        },
        InstallStage::CreateShortcut => InstallDecision::Next {
            stage: InstallStage::LaunchInstalled,
            warn: outcome != StepOutcome::Done,
        },
        InstallStage::LaunchInstalled => match outcome {
            StepOutcome::Done => InstallDecision::Finish(Ok(true)),
            _ => InstallDecision::Finish(Err(InstallFailure::Io(stage))),
        },
    }
}

/// The first step of an installation.
pub open spec fn install_start() -> InstallStage {
    InstallStage::LocateExecutable
}

/// What follows step `stage` when it ended with `outcome`.
pub fn prepare_installation(stage: InstallStage, outcome: StepOutcome) -> (d: InstallDecision)
    ensures
        d == install_transition(stage, outcome),
{
    match stage {
        InstallStage::LocateExecutable => match outcome {
            StepOutcome::Done => InstallDecision::Next {
                stage: InstallStage::LocateInstallDir,
                warn: false,
            },
            _ => InstallDecision::Finish(Err(InstallFailure::Io(stage))),
        },
        InstallStage::LocateInstallDir => match outcome {
            StepOutcome::Done => InstallDecision::Next {
                stage: InstallStage::CreateInstallDir,
                warn: false,
            },
            StepOutcome::Missing => InstallDecision::Finish(Err(InstallFailure::NoLocalAppData)),
            _ => InstallDecision::Finish(Err(InstallFailure::Io(stage))),
        },
        InstallStage::CreateInstallDir => match outcome {
            StepOutcome::Done => InstallDecision::Next {
                stage: InstallStage::CompareInstalled,
                warn: false,
            },
            _ => InstallDecision::Finish(Err(InstallFailure::Io(stage))),
        },
        InstallStage::CompareInstalled => match outcome {
            StepOutcome::AlreadyInstalled => InstallDecision::Finish(Ok(false)),
            StepOutcome::NotInstalled => InstallDecision::Next {
                stage: InstallStage::CopyExecutable,
                warn: false,
            },
            _ => InstallDecision::Finish(Err(InstallFailure::Io(stage))),
        },
        InstallStage::CopyExecutable => match outcome {
            StepOutcome::Done => InstallDecision::Next {
                stage: InstallStage::LocateDesktop,
                warn: false,
            },
            _ => InstallDecision::Finish(Err(InstallFailure::Io(stage))),
        },
        InstallStage::LocateDesktop => match outcome {
            StepOutcome::Done => InstallDecision::Next {
                stage: InstallStage::CreateShortcut,
                warn: false,
            },
            StepOutcome::Missing => InstallDecision::Finish(Err(InstallFailure::NoUserProfile)),
            _ => InstallDecision::Finish(Err(InstallFailure::Io(stage))),
        },
        InstallStage::CreateShortcut => {
            let warn = match outcome {
                StepOutcome::Done => false,
                _ => true,
            };
            InstallDecision::Next { stage: InstallStage::LaunchInstalled, warn }
        },
        InstallStage::LaunchInstalled => match outcome {
            StepOutcome::Done => InstallDecision::Finish(Ok(true)),
            _ => InstallDecision::Finish(Err(InstallFailure::Io(stage))),
        },
    }
}

/// Where a run of the installation ends when its steps end with `outcomes`,
/// one per step, starting at `stage`; `None` when the outcomes run out first.
pub open spec fn install_run(stage: InstallStage, outcomes: Seq<StepOutcome>) -> Option<
    Result<bool, InstallFailure>,
>
    decreases outcomes.len(),
{
    if outcomes.len() == 0 {
        None
    } else {
        match install_transition(stage, outcomes[0]) {
            InstallDecision::Finish(r) => Some(r),
            InstallDecision::Next { stage: next, warn: _ } => install_run(next, outcomes.drop_first()),
        }
    }
}

/// A run on a machine where the running executable is already the installed
/// one ends after the comparison with `Ok(false)`, having copied nothing.
pub proof fn law_installed_copy_stays(rest: Seq<StepOutcome>)
    ensures
        install_run(
            install_start(),
            seq![StepOutcome::Done, StepOutcome::Done, StepOutcome::Done, StepOutcome::AlreadyInstalled]
                + rest,
        ) == Some(Ok::<bool, InstallFailure>(false)),
{
    let s = seq![StepOutcome::Done, StepOutcome::Done, StepOutcome::Done, StepOutcome::AlreadyInstalled]
        + rest;
    reveal_with_fuel(install_run, 5);
    assert(s[0] == StepOutcome::Done);
    assert(s.drop_first()[0] == StepOutcome::Done);
    assert(s.drop_first().drop_first()[0] == StepOutcome::Done);
    assert(s.drop_first().drop_first().drop_first()[0] == StepOutcome::AlreadyInstalled);
}

/// A run in which every step succeeds installs, writes the shortcut and
/// launches the copy: it ends with `Ok(true)` after eight steps; a shortcut
/// that could not be written does not change that.
pub proof fn law_fresh_install_completes(shortcut: StepOutcome)
    ensures
        install_run(
            install_start(),
            seq![
                StepOutcome::Done,
                StepOutcome::Done,
                StepOutcome::Done,
                StepOutcome::NotInstalled,
                StepOutcome::Done,
                StepOutcome::Done,
                shortcut,
                StepOutcome::Done,
            ],
        ) == Some(Ok::<bool, InstallFailure>(true)),
{
    let s = seq![
        StepOutcome::Done,
        StepOutcome::Done,
        StepOutcome::Done,
        StepOutcome::NotInstalled,
        StepOutcome::Done,
        StepOutcome::Done,
        shortcut,
        StepOutcome::Done,
    ];
    reveal_with_fuel(install_run, 9);
    assert(s.drop_first() =~= seq![
        StepOutcome::Done,
        StepOutcome::Done,
        StepOutcome::NotInstalled,
        StepOutcome::Done,
        StepOutcome::Done,
        shortcut,
        StepOutcome::Done,
    ]);
    assert(s.drop_first().drop_first() =~= seq![
        StepOutcome::Done,
        StepOutcome::NotInstalled,
        StepOutcome::Done,
        StepOutcome::Done,
        shortcut,
        StepOutcome::Done,
    ]);
    assert(s.drop_first().drop_first().drop_first() =~= seq![
        StepOutcome::NotInstalled,
        StepOutcome::Done,
        StepOutcome::Done,
        shortcut,
        StepOutcome::Done,
    ]);
    assert(s.drop_first().drop_first().drop_first().drop_first() =~= seq![
        StepOutcome::Done,
        StepOutcome::Done,
        shortcut,
        StepOutcome::Done,
    ]);
    assert(s.drop_first().drop_first().drop_first().drop_first().drop_first() =~= seq![
        StepOutcome::Done,
        shortcut,
        StepOutcome::Done,
    ]);
    assert(s.drop_first().drop_first().drop_first().drop_first().drop_first().drop_first()
        =~= seq![shortcut, StepOutcome::Done]);
    assert(s.drop_first().drop_first().drop_first().drop_first().drop_first().drop_first().drop_first()
        =~= seq![StepOutcome::Done]);
}

/// The default PostgreSQL connection settings.
pub open spec fn default_connection() -> Seq<char> {
    "host=127.0.0.1 port=5432 user=postgres dbname=tactical_mapper_db"@
}

/// The connection settings: the configured ones when there are any, else the defaults.
pub fn connection_string(configured: Option<String>) -> (settings: String)
    ensures
        settings@ == match configured {
            Some(s) => s@,
            None => default_connection(),
        },
{
    match configured {
        Some(s) => s,
        None => String::from_str("host=127.0.0.1 port=5432 user=postgres dbname=tactical_mapper_db"),
    }
}

} // verus!
