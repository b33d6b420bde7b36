//! Per-package progress: states, labels, reading brew's output, and the screen's decisions.
use vstd::prelude::*;
use crate::models::BrewPackageResult;
use crate::text::{chars_of, contains_chars, contains_text, is_ascii_digit, trim};
use crate::utilities::brew_fetch_packages::{digits_value, find_first, first_index_of, lemma_digits_value_nonneg};

verus! {

broadcast use vstd::seq_lib::group_seq_properties;

/// Where a package is in its install or removal.
#[derive(Debug, Clone, PartialEq, Eq, Structural)]
pub enum ProgressState {
    Pending,
    Downloading,
    Installing,
    Removing,
    Completed,
    Failed,
}

/// A package's line on the progress screen.
#[derive(Debug, Clone)]
pub struct PackageProgress {
    pub name: String,
    pub state: ProgressState,
    pub progress: u16,
    pub message: String,
}

/// The word each state is reported as.
pub open spec fn label_of(state: ProgressState) -> Seq<char> {
    match state {
        ProgressState::Pending => "pending"@,
        ProgressState::Downloading => "downloading"@,
        ProgressState::Installing => "installing"@,
        ProgressState::Removing => "removing"@,
        ProgressState::Completed => "completed"@,
        ProgressState::Failed => "failed"@,
    }
}

impl PackageProgress {
    /// A package that has not started: pending, at 0%, with no message.
    pub fn new(name: String) -> (r: PackageProgress)
        ensures
            r.name == name,
            r.state == ProgressState::Pending,
            r.progress == 0,
            r.message@ == Seq::<char>::empty(),
    {
        PackageProgress { name, state: ProgressState::Pending, progress: 0, message: String::new() }
    }

    /// The word for the package's state (`pending`, `downloading`, `installing`, `removing`,
    /// `completed`, `failed`).
    pub fn state_label(&self) -> (r: &'static str)
        ensures
            r@ == label_of(self.state),
    {
        match self.state {
            ProgressState::Pending => "pending",
            ProgressState::Downloading => "downloading",
            ProgressState::Installing => "installing",
            ProgressState::Removing => "removing",
            ProgressState::Completed => "completed",
            ProgressState::Failed => "failed",
        }
    }
}

// ---------------------------------------------------------------- reading brew's output

/// Index of the last character of `s` that is not an ASCII digit, or -1.
pub open spec fn last_non_digit(s: Seq<char>) -> int {
    if exists|k: int|
        0 <= k < s.len() && !is_ascii_digit(s[k]) && (forall|j: int| k < j < s.len() ==> is_ascii_digit(s[j])) {
        choose|k: int|
            0 <= k < s.len() && !is_ascii_digit(s[k]) && (forall|j: int| k < j < s.len() ==> is_ascii_digit(s[j]))
    } else {
        -1
    }
}

/// The digits right before the first `%` of `line`, when a non-digit precedes them.
pub open spec fn percent_digits(line: Seq<char>) -> Option<Seq<char>> {
    let p = first_index_of(line, '%');
    if p < 0 {
        None
    } else {
        let q = last_non_digit(line.subrange(0, p));
        if q < 0 {
            None
        } else {
            Some(line.subrange(q + 1, p))
        }
    }
}

/// The character in front of those digits is not ASCII; std then slices inside a
/// character and panics, so such lines are outside what `estimate_progress` accepts.
pub open spec fn percent_slice_splits_char(line: Seq<char>) -> bool {
    let p = first_index_of(line, '%');
    let q = last_non_digit(line.subrange(0, p));
    p >= 0 && q >= 0 && (line[q] as u32) >= 0x80
}

/// A percentage written in the line, capped at 100, when the digits form a `u16`.
pub open spec fn percent_reading(line: Seq<char>) -> Option<int> {
    match percent_digits(line) {
        Some(d) => if d.len() > 0 && digits_value(d) <= 0xFFFF {
            Some(if digits_value(d) < 100 { digits_value(d) } else { 100 })
        } else {
            None
        },
        None => None,
    }
}

/// The progress a line suggests by its words.
pub open spec fn keyword_progress(line: Seq<char>) -> int {
    if contains_text(line, "Fetch"@) || contains_text(line, "fetch"@) {
        10
    } else if contains_text(line, "Download"@) || contains_text(line, "download"@) {
        30
    } else if contains_text(line, "Installing"@) || contains_text(line, "install"@) {
        60
    } else if contains_text(line, "Pouring"@) || contains_text(line, "pour"@) {
        80
    } else if contains_text(line, "Complete"@) || contains_text(line, "complete"@) {
        100
    } else {
        50
    }
}

/// The progress a line of brew's output suggests: a percentage it prints, else a phase word.
pub open spec fn progress_estimate(line: Seq<char>) -> int {
    match percent_reading(line) {
        Some(v) => v,
        None => keyword_progress(line),
    }
}

/// Value of the ASCII digits `d` when it fits in a `u16`.
fn parse_u16_digits(d: &Vec<char>) -> (r: Option<u16>)
    requires
        forall|i: int| 0 <= i < d.len() ==> is_ascii_digit(#[trigger] d@[i]),
    ensures
        match r {
            Some(v) => d.len() > 0 && digits_value(d@) <= 0xFFFF && v == digits_value(d@),
            None => d.len() == 0 || digits_value(d@) > 0xFFFF,
        },
{
    if d.len() == 0 {
        return None;
    }
    let cap: u64 = 0x1_0000;
    let mut val: u64 = 0;
    let mut i: usize = 0;
    while i < d.len()
        invariant
            i <= d.len(),
            cap == 0x1_0000u64,
            forall|k: int| 0 <= k < d.len() ==> is_ascii_digit(#[trigger] d@[k]),
            val <= cap,
            val == if digits_value(d@.take(i as int)) < cap {
                digits_value(d@.take(i as int))
            } else {
                cap as int
            },
        decreases d.len() - i,
    {
        let c = d[i];
        let dv = (c as u32 - '0' as u32) as u64;
        proof {
            let t = d@.take(i as int);
            assert(d@.take(i + 1).drop_last() == t);
            assert(d@.take(i + 1).last() == c);
            assert(forall|k: int| 0 <= k < t.len() ==> is_ascii_digit(#[trigger] t[k]));
            lemma_digits_value_nonneg(t);
        }
        val = val * 10 + dv;
        if val > cap {
            val = cap;
        }
        i = i + 1;
    }
    proof {
        assert(d@.take(d.len() as int) == d@);
    }
    if val <= 0xFFFF {
        Some(val as u16)
    } else {
        None
    }
}

/// Finds the last character of `s[..end]` that is not an ASCII digit.
fn find_last_non_digit(s: &Vec<char>, end: usize) -> (r: Option<usize>)
    requires
        end <= s.len(),
    ensures
        match r {
            Some(q) => q < end && last_non_digit(s@.subrange(0, end as int)) == q,
            None => last_non_digit(s@.subrange(0, end as int)) == -1,
        },
{
    let ghost b = s@.subrange(0, end as int);
    let mut k: usize = end;
    while k > 0
        invariant
            k <= end <= s.len(),
            b == s@.subrange(0, end as int),
            forall|j: int| k <= j < end ==> is_ascii_digit(#[trigger] b[j]),
        decreases k,
    {
        let c = s[k - 1];
        if !('0' <= c && c <= '9') {
            proof {
                let q = (k - 1) as int;
                assert(b[q] == c);
                assert(0 <= q < b.len() && !is_ascii_digit(b[q]) && (forall|j: int| q < j < b.len() ==> is_ascii_digit(b[j])));
                let w = last_non_digit(b);
                if w != q {
                    assert(w < q || q < w);
                }
            }
            return Some(k - 1);
        }
        k = k - 1;
    }
    None
}

/// Guesses how far along brew is from one line of its output: a percentage printed before
/// the first `%` (capped at 100), else 10 for fetching, 30 for downloading, 60 for installing,
/// 80 for pouring, 100 for completion, and 50 when the line says none of these.
pub fn estimate_progress(line: &str) -> (r: u16)
    requires
        !percent_slice_splits_char(line@),
    ensures
        r == progress_estimate(line@),
        r <= 100,
{
    let v = chars_of(line);
    match find_first(&v, '%') {
        Some(p) => {
            match find_last_non_digit(&v, p) {
                Some(q) => {
                    let digits = crate::text::sub_chars(&v, q + 1, p);
                    proof {
                        assert(v@.subrange(q + 1, p as int) == v@.subrange(0, p as int).subrange(q + 1, p as int));
                        assert forall|i: int| 0 <= i < digits.len() implies is_ascii_digit(#[trigger] digits@[i]) by {
                            assert(digits@[i] == v@.subrange(0, p as int)[q + 1 + i]);
                        }
                    }
                    match parse_u16_digits(&digits) {
                        Some(n) => {
                            return if n < 100 { n } else { 100 };
                        },
                        None => {},
                    }
                },
                None => {},
            }
        },
        None => {},
    }
    if contains_chars(&v, &chars_of("Fetch")) || contains_chars(&v, &chars_of("fetch")) {
        10
    } else if contains_chars(&v, &chars_of("Download")) || contains_chars(&v, &chars_of("download")) {
        30
    } else if contains_chars(&v, &chars_of("Installing")) || contains_chars(&v, &chars_of("install")) {
        60
    } else if contains_chars(&v, &chars_of("Pouring")) || contains_chars(&v, &chars_of("pour")) {
        80
    } else if contains_chars(&v, &chars_of("Complete")) || contains_chars(&v, &chars_of("complete")) {
        100
    } else {
        50
    }
}

/// The colour a package's line is drawn in.
#[derive(Debug, Clone, Copy, PartialEq, Eq, Structural)]
pub enum StateColor {
    Gray,
    Yellow,
    Blue,
    Magenta,
    Green,
    Red,
}

/// The colour of each state: pending gray, downloading yellow, installing blue, removing
/// magenta, completed green, failed red.
pub open spec fn color_of(state: ProgressState) -> StateColor {
    match state {
        ProgressState::Pending => StateColor::Gray,
        ProgressState::Downloading => StateColor::Yellow,
        ProgressState::Installing => StateColor::Blue,
        ProgressState::Removing => StateColor::Magenta,
        ProgressState::Completed => StateColor::Green,
        ProgressState::Failed => StateColor::Red,
    }
}

/// The mark the summary shows before a package: a check for completed, a cross for failed,
/// a dot otherwise.
pub open spec fn icon_of(state: ProgressState) -> Seq<char> {
    match state {
        ProgressState::Completed => "\u{2713}"@,
        ProgressState::Failed => "\u{2717}"@,
        _ => "\u{2022}"@,
    }
}

impl PackageProgress {
    /// The colour of the package's state (see `color_of`).
    pub fn state_color(&self) -> (r: StateColor)
        ensures
            r == color_of(self.state),
    {
        match self.state {
            ProgressState::Pending => StateColor::Gray,
            ProgressState::Downloading => StateColor::Yellow,
            ProgressState::Installing => StateColor::Blue,
            ProgressState::Removing => StateColor::Magenta,
            ProgressState::Completed => StateColor::Green,
            ProgressState::Failed => StateColor::Red,
        }
    }

    /// The mark the summary shows for the package (see `icon_of`).
    pub fn summary_icon(&self) -> (r: &'static str)
        ensures
            r@ == icon_of(self.state),
    {
        match self.state {
            ProgressState::Completed => "\u{2713}",
            ProgressState::Failed => "\u{2717}",
            _ => "\u{2022}",
        }
    }

    /// The text on the package's gauge: its message, or its percentage while it has none.
    pub fn gauge_label(&self) -> (r: String)
        ensures
            r@ == if self.message@.len() == 0 {
                crate::text::decimal(self.progress as nat) + "%"@
            } else {
                self.message@
            },
    {
        if crate::text::chars_of(self.message.as_str()).len() == 0 {
            crate::text::format_decimal(self.progress as usize).concat("%")
        } else {
            self.message.clone()
        }
    }
}

/// Whether `estimate_progress` can read `line`: false exactly for the lines on which the
/// percentage's slicing would cut a character in two.
pub fn progress_line_readable(line: &str) -> (r: bool)
    ensures
        r == !percent_slice_splits_char(line@),
{
    let v = chars_of(line);
    match find_first(&v, '%') {
        Some(p) => match find_last_non_digit(&v, p) {
            Some(q) => {
                proof {
                    assert(v@.subrange(0, p as int)[q as int] == v@[q as int]);
                }
                (v[q] as u32) < 0x80
            },
            None => true,
        },
        None => true,
    }
}

// ---------------------------------------------------------------- updating one package

/// How a brew command ended: it ran and exited (successfully or not), or it could not be run
/// or waited for (the text says why, e.g. a spawn error, a cancellation or a timeout).
pub enum CommandOutcome {
    Exited { success: bool },
    Error(String),
}

/// The state a line of brew's standard output puts a package in.
pub open spec fn output_line_state(line: Seq<char>) -> ProgressState {
    if contains_text(line, "Downloading"@) || contains_text(line, "download"@) {
        ProgressState::Downloading
    } else {
        ProgressState::Installing
    }
}

/// A line short enough (under 50 bytes) and not blank is shown, trimmed, as the message.
pub open spec fn shown_line(line: Seq<char>) -> bool {
    trim(line).len() > 0 && crate::text::utf8_len(line) < 50
}

/// Whether `line` is shown as a message.
fn is_shown_line(line: &str) -> (r: bool)
    ensures
        r == shown_line(line@),
{
    !crate::text::is_blank(line) && crate::text::utf8_len_below(line, 50)
}

impl PackageProgress {
    /// Takes a line of brew's standard output: the state becomes downloading when the line
    /// mentions downloading and installing otherwise, the progress becomes the line's
    /// estimate, and a shown line becomes the message.
    pub fn apply_output_line(&mut self, line: &str)
        requires
            !percent_slice_splits_char(line@),
        ensures
            final(self).name == old(self).name,
            final(self).state == output_line_state(line@),
            final(self).progress == progress_estimate(line@),
            final(self).message@ == if shown_line(line@) {
                trim(line@)
            } else {
                old(self).message@
            },
    {
        let progress = estimate_progress(line);
        let v = chars_of(line);
        let state = if contains_chars(&v, &chars_of("Downloading")) || contains_chars(
            &v,
            &chars_of("download"),
        ) {
            ProgressState::Downloading
        } else {
            ProgressState::Installing
        };
        self.state = state;
        self.progress = progress;
        if is_shown_line(line) {
            self.message = crate::text::trim_str(line);
        }
    }

    /// Takes a line of brew's error output: a shown line becomes the message, unless the
    /// package has already failed.
    pub fn apply_error_line(&mut self, line: &str)
        ensures
            final(self).name == old(self).name,
            final(self).state == old(self).state,
            final(self).progress == old(self).progress,
            final(self).message@ == if shown_line(line@) && old(self).state != ProgressState::Failed {
                trim(line@)
            } else {
                old(self).message@
            },
    {
        if is_shown_line(line) && self.state != ProgressState::Failed {
            self.message = crate::text::trim_str(line);
        }
    }

    /// An install begins: downloading, 0%, "Starting...".
    pub fn begin_install(&mut self)
        ensures
            final(self).name == old(self).name,
            final(self).state == ProgressState::Downloading,
            final(self).progress == 0,
            final(self).message@ == "Starting..."@,
    {
        self.state = ProgressState::Downloading;
        self.progress = 0;
        self.message = String::from_str("Starting...");
    }

    /// The end of an install: a successful exit completes the package (100%, "Done!"); an
    /// unsuccessful exit fails it (0%, "Installation failed"); an error fails it with
    /// "Error: " and the error's text.
    pub fn finish_install(&mut self, outcome: &CommandOutcome)
        ensures
            final(self).name == old(self).name,
            match outcome {
                CommandOutcome::Exited { success } => if *success {
                    final(self).state == ProgressState::Completed && final(self).progress == 100
                        && final(self).message@ == "Done!"@
                } else {
                    final(self).state == ProgressState::Failed && final(self).progress == 0
                        && final(self).message@ == "Installation failed"@
                },
                CommandOutcome::Error(e) => final(self).state == ProgressState::Failed
                    && final(self).progress == 0 && final(self).message@ == "Error: "@ + e@,
            },
    {
        match outcome {
            CommandOutcome::Exited { success } => {
                if *success {
                    self.state = ProgressState::Completed;
                    self.progress = 100;
                    self.message = String::from_str("Done!");
                } else {
                    self.state = ProgressState::Failed;
                    self.progress = 0;
                    self.message = String::from_str("Installation failed");
                }
            },
            CommandOutcome::Error(e) => {
                self.state = ProgressState::Failed;
                self.progress = 0;
                self.message = String::from_str("Error: ").concat(e.as_str());
            },
        }
    }

    /// A parallel download begins: downloading, 0%, "Fetching...".
    pub fn begin_fetch(&mut self)
        ensures
            final(self).name == old(self).name,
            final(self).state == ProgressState::Downloading,
            final(self).progress == 0,
            final(self).message@ == "Fetching..."@,
    {
        self.state = ProgressState::Downloading;
        self.progress = 0;
        self.message = String::from_str("Fetching...");
    }

    /// A download could not start: failed, with "Spawn error: " and the error's text.
    pub fn fetch_spawn_failed(&mut self, error: &str)
        ensures
            final(self).name == old(self).name,
            final(self).state == ProgressState::Failed,
            final(self).progress == old(self).progress,
            final(self).message@ == "Spawn error: "@ + error@,
    {
        self.state = ProgressState::Failed;
        self.message = String::from_str("Spawn error: ").concat(error);
    }

    /// A download ran too long: failed, "Fetch timeout".
    pub fn fetch_timed_out(&mut self)
        ensures
            final(self).name == old(self).name,
            final(self).state == ProgressState::Failed,
            final(self).progress == old(self).progress,
            final(self).message@ == "Fetch timeout"@,
    {
        self.state = ProgressState::Failed;
        self.message = String::from_str("Fetch timeout");
    }

    /// A download ended: on success 100% and "Downloaded" (the state stays); otherwise
    /// failed with "Download failed".
    pub fn finish_fetch(&mut self, success: bool)
        ensures
            final(self).name == old(self).name,
            success ==> final(self).state == old(self).state && final(self).progress == 100
                && final(self).message@ == "Downloaded"@,
            !success ==> final(self).state == ProgressState::Failed && final(self).progress
                == old(self).progress && final(self).message@ == "Download failed"@,
    {
        if success {
            self.progress = 100;
            self.message = String::from_str("Downloaded");
        } else {
            self.state = ProgressState::Failed;
            self.message = String::from_str("Download failed");
        }
    }

    /// A removal begins: removing, 10%, "Removing...".
    pub fn begin_remove(&mut self)
        ensures
            final(self).name == old(self).name,
            final(self).state == ProgressState::Removing,
            final(self).progress == 10,
            final(self).message@ == "Removing..."@,
    {
        self.state = ProgressState::Removing;
        self.progress = 10;
        self.message = String::from_str("Removing...");
    }

    /// A removal ended with `result`: "completed" completes the package (100%, "Removed!");
    /// any other status fails it at 0% with the status as the message.
    pub fn finish_remove(&mut self, result: &BrewPackageResult)
        ensures
            final(self).name == old(self).name,
            result.status@ == "completed"@ ==> final(self).state == ProgressState::Completed
                && final(self).progress == 100 && final(self).message@ == "Removed!"@,
            result.status@ != "completed"@ ==> final(self).state == ProgressState::Failed
                && final(self).progress == 0 && final(self).message@ == result.status@,
    {
        if result.status == String::from_str("completed") {
            self.state = ProgressState::Completed;
            self.progress = 100;
            self.message = String::from_str("Removed!");
        } else {
            self.state = ProgressState::Failed;
            self.progress = 0;
            self.message = result.status.clone();
        }
    }
}

// ---------------------------------------------------------------- the screen

/// A package is done: completed or failed.
pub open spec fn is_finished(p: PackageProgress) -> bool {
    p.state == ProgressState::Completed || p.state == ProgressState::Failed
}

/// Every package is done.
pub open spec fn all_finished_spec(packages: Seq<PackageProgress>) -> bool {
    forall|i: int| 0 <= i < packages.len() ==> is_finished(#[trigger] packages[i])
}

/// Whether every package is completed or failed.
pub fn all_finished(packages: &Vec<PackageProgress>) -> (r: bool)
    ensures
        r == all_finished_spec(packages@),
{
    let mut i: usize = 0;
    while i < packages.len()
        invariant
            i <= packages.len(),
            forall|k: int| 0 <= k < i ==> is_finished(#[trigger] packages@[k]),
        decreases packages.len() - i,
    {
        let st = &packages[i].state;
        if !(*st == ProgressState::Completed || *st == ProgressState::Failed) {
            return false;
        }
        i = i + 1;
    }
    true
}

/// A key pressed on the progress screen.
#[derive(Debug, Clone, Copy, PartialEq, Eq, Structural)]
pub enum ScreenKey {
    Quit,
    Escape,
    Other,
}

/// What the progress loop does next.
#[derive(Debug, Clone, Copy, PartialEq, Eq, Structural)]
pub enum LoopControl {
    Continue,
    Finish,
    Cancel,
}

/// The progress loop's answer to a key: `q` ends it once every package is done, Escape
/// cancels it at once, anything else keeps it going.
pub fn key_decision(key: ScreenKey, packages: &Vec<PackageProgress>) -> (r: LoopControl)
    ensures
        r == match key {
            ScreenKey::Quit => if all_finished_spec(packages@) {
                LoopControl::Finish
            } else {
                LoopControl::Continue
            },
            ScreenKey::Escape => LoopControl::Cancel,
            ScreenKey::Other => LoopControl::Continue,
        },
{
    match key {
        ScreenKey::Quit => if all_finished(packages) {
            LoopControl::Finish
        } else {
            LoopControl::Continue
        },
        ScreenKey::Escape => LoopControl::Cancel,
        ScreenKey::Other => LoopControl::Continue,
    }
}

/// On the summary screen, `q` and Escape both close it.
pub fn summary_key_closes(key: ScreenKey) -> (r: bool)
    ensures
        r == (key == ScreenKey::Quit || key == ScreenKey::Escape),
{
    match key {
        ScreenKey::Quit => true,
        ScreenKey::Escape => true,
        ScreenKey::Other => false,
    }
}

/// The seconds left after one tick of the countdown from `remaining`.
pub open spec fn tick(remaining: int) -> int {
    if remaining > 0 {
        remaining - 1
    } else {
        0
    }
}

/// The seconds left after `k` ticks of the countdown from `start`.
pub open spec fn ticks(start: int, k: nat) -> int
    decreases k,
{
    if k == 0 {
        start
    } else {
        tick(ticks(start, (k - 1) as nat))
    }
}

/// One second of the summary's auto-quit countdown: the seconds left (never below zero)
/// and whether the summary closes now.
pub fn countdown_tick(remaining: u64) -> (r: (u64, bool))
    ensures
        r.0 == tick(remaining as int),
        r.1 == (r.0 == 0),
{
    let left = if remaining > 0 { remaining - 1 } else { 0 };
    (left, left == 0)
}

/// Law of the auto-quit countdown: started at `n` seconds, the summary stays open through
/// the first ticks and closes at tick `n` (at the first tick when `n` is 0), so it quits
/// after `n` seconds.
pub proof fn lemma_countdown_closes_after(n: u64, k: nat)
    requires
        k >= 1,
    ensures
        ticks(n as int, k) == if k >= n { 0 } else { n - k },
        (ticks(n as int, k) == 0) <==> k >= n,
    decreases k,
{
    assert(ticks(n as int, k) == tick(ticks(n as int, (k - 1) as nat)));
    if k > 1 {
        lemma_countdown_closes_after(n, (k - 1) as nat);
    } else {
        assert(ticks(n as int, 0) == n);
    }
}

/// Number of packages in `state`.
pub open spec fn count_in_state(packages: Seq<PackageProgress>, state: ProgressState) -> nat
    decreases packages.len(),
{
    if packages.len() == 0 {
        0
    } else {
        count_in_state(packages.drop_last(), state) + if packages.last().state == state {
            1nat
        } else {
            0nat
        }
    }
}

proof fn lemma_count_in_state_bound(packages: Seq<PackageProgress>, state: ProgressState)
    ensures
        count_in_state(packages, state) <= packages.len(),
    decreases packages.len(),
{
    if packages.len() > 0 {
        lemma_count_in_state_bound(packages.drop_last(), state);
    }
}

/// How many packages are in `state` (the summary counts completed and failed ones).
pub fn count_state(packages: &Vec<PackageProgress>, state: ProgressState) -> (r: usize)
    ensures
        r == count_in_state(packages@, state),
{
    let mut n: usize = 0;
    let mut i: usize = 0;
    while i < packages.len()
        invariant
            i <= packages.len(),
            n == count_in_state(packages@.take(i as int), state),
        decreases packages.len() - i,
    {
        proof {
            assert(packages@.take(i + 1).drop_last() == packages@.take(i as int));
            lemma_count_in_state_bound(packages@.take(i as int), state);
        }
        if packages[i].state == state {
            n = n + 1;
        }
        i = i + 1;
    }
    proof {
        assert(packages@.take(packages.len() as int) == packages@);
    }
    n
}

/// Index of the first package that is not completed, or 0 when all are.
pub open spec fn first_active(packages: Seq<PackageProgress>) -> int {
    if exists|k: int|
        0 <= k < packages.len() && packages[k].state != ProgressState::Completed && (forall|j: int|
            0 <= j < k ==> packages[j].state == ProgressState::Completed) {
        choose|k: int|
            0 <= k < packages.len() && packages[k].state != ProgressState::Completed && (forall|j: int|
                0 <= j < k ==> packages[j].state == ProgressState::Completed)
    } else {
        0
    }
}

/// How many package rows (three lines each) fit in an area `height` lines tall: at least one.
pub open spec fn rows_per_screen(height: int) -> int {
    let avail = if height >= 2 { height - 2 } else { 0 };
    if avail / 3 >= 1 { avail / 3 } else { 1 }
}

/// The first package shown: one above the first unfinished package, but never so far down
/// that the screen would not be filled.
pub open spec fn window_start(packages: Seq<PackageProgress>, height: int) -> int {
    let fa = first_active(packages);
    let above = if fa >= 1 { fa - 1 } else { 0 };
    let last_start = if packages.len() >= rows_per_screen(height) {
        packages.len() - rows_per_screen(height)
    } else {
        0
    };
    if above < last_start { above } else { last_start }
}

/// Position of the first package that is not completed (0 when all are).
fn find_first_active(packages: &Vec<PackageProgress>) -> (r: usize)
    ensures
        r == first_active(packages@),
        r <= packages.len(),
{
    let mut i: usize = 0;
    while i < packages.len()
        invariant
            i <= packages.len(),
            forall|j: int| 0 <= j < i ==> packages@[j].state == ProgressState::Completed,
        decreases packages.len() - i,
    {
        if packages[i].state != ProgressState::Completed {
            proof {
                let k = i as int;
                assert(0 <= k < packages@.len() && packages@[k].state != ProgressState::Completed
                    && (forall|j: int| 0 <= j < k ==> packages@[j].state == ProgressState::Completed));
                let w = first_active(packages@);
                if w != k {
                    assert(w < k || k < w);
                }
            }
            return i;
        }
        i = i + 1;
    }
    0
}

/// Which packages the progress screen shows in an area `height` lines tall: the first shown
/// and how many rows there are (the list shows `packages[start..start + rows]`, cut at its end).
pub fn package_window(packages: &Vec<PackageProgress>, height: u16) -> (r: (usize, usize))
    ensures
        r.0 == window_start(packages@, height as int),
        r.1 == rows_per_screen(height as int),
        r.0 <= packages.len(),
{
    let avail: u16 = if height >= 2 { height - 2 } else { 0 };
    let per: usize = if avail / 3 >= 1 { (avail / 3) as usize } else { 1 };
    let fa = find_first_active(packages);

    let above = if fa >= 1 { fa - 1 } else { 0 };
    let last_start = if packages.len() >= per { packages.len() - per } else { 0 };
    let start = if above < last_start { above } else { last_start };
    (start, per)
}

/// How many package lines (two lines each) the summary shows in an area `height` tall.
pub fn summary_rows(height: u16) -> (r: usize)
    ensures
        r == ({
            let avail = if height >= 2 { height - 2 } else { 0 };
            if avail / 2 >= 1 { avail / 2 } else { 1 }
        }),
{
    let avail: u16 = if height >= 2 { height - 2 } else { 0 };
    if avail / 2 >= 1 { (avail / 2) as usize } else { 1 }
}

/// The results of all packages: each name with the word for its state.
pub fn collect_results(packages: &Vec<PackageProgress>) -> (r: Vec<BrewPackageResult>)
    ensures
        r.len() == packages.len(),
        forall|i: int|
            0 <= i < packages.len() ==> (#[trigger] r@[i]).name == packages@[i].name
                && r@[i].status@ == label_of(packages@[i].state),
{
    let mut out: Vec<BrewPackageResult> = Vec::new();
    let mut i: usize = 0;
    while i < packages.len()
        invariant
            i <= packages.len(),
            out.len() == i,
            forall|k: int|
                0 <= k < i ==> (#[trigger] out@[k]).name == packages@[k].name && out@[k].status@
                    == label_of(packages@[k].state),
        decreases packages.len() - i,
    {
        let p = &packages[i];
        out.push(BrewPackageResult { name: p.name.clone(), status: String::from_str(p.state_label()) });
        i = i + 1;
    }
    out
}

/// A fresh progress line for each name, all pending.
pub fn progress_list(package_names: Vec<String>) -> (r: Vec<PackageProgress>)
    ensures
        r.len() == package_names.len(),
        forall|i: int|
            0 <= i < r.len() ==> (#[trigger] r@[i]).name == package_names@[i] && r@[i].state
                == ProgressState::Pending && r@[i].progress == 0 && r@[i].message@.len() == 0,
{
    let mut out: Vec<PackageProgress> = Vec::new();
    let mut i: usize = 0;
    while i < package_names.len()
        invariant
            i <= package_names.len(),
            out.len() == i,
            forall|k: int|
                0 <= k < i ==> (#[trigger] out@[k]).name == package_names@[k] && out@[k].state
                    == ProgressState::Pending && out@[k].progress == 0 && out@[k].message@.len() == 0,
        decreases package_names.len() - i,
    {
        out.push(PackageProgress::new(package_names[i].clone()));
        i = i + 1;
    }
    out
}

/// Sets the state, progress and message of the package at `index`; an index past the end
/// changes nothing.
pub fn update_package(
    packages: &mut Vec<PackageProgress>,
    index: usize,
    state: ProgressState,
    progress: u16,
    message: String,
)
    ensures
        index < old(packages).len() ==> final(packages)@ == old(packages)@.update(
            index as int,
            PackageProgress { name: old(packages)@[index as int].name, state, progress, message },
        ),
        index >= old(packages).len() ==> final(packages)@ == old(packages)@,
{
    if index < packages.len() {
        let name = packages[index].name.clone();
        packages.set(index, PackageProgress { name, state, progress, message });
    }
}

} // verus!
