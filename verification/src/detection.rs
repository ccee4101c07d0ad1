//! Finds out which catalog tools are present by running their detection commands, and
//! reads the version they print.
use vstd::prelude::*;

use crate::models::{
    contains_os, CatalogItem, DetectionResult, DetectionRule, DetectionStatus, OperatingSystem,
};
use crate::text::{
    views_of, chars_of, is_ascii_digit, is_unicode_whitespace, is_whitespace_char, trim_bounds, trim_class,
    CharClass,
};

verus! {

/// What a finished command printed, and its exit status.
#[derive(Debug, Clone, PartialEq, Eq)]
pub struct CommandOutput {
    pub status: i32,
    pub stdout: String,
    pub stderr: String,
}

/// Runs a program with arguments and reports what it printed; an error when it could not
/// be started.
pub trait CommandRunner {
    fn run(&self, program: &str, args: &[String]) -> Result<CommandOutput, String>;
}

/// One run of a command: the program, its arguments, and what came back.
pub struct CommandCall {
    pub program: Seq<char>,
    pub args: Seq<Seq<char>>,
    pub outcome: Result<CommandOutput, String>,
}

/// A command runner, with the runs made through this value so far.
pub struct CommandRuns<'a, R: CommandRunner + ?Sized> {
    runner: &'a R,
    calls: Ghost<Seq<CommandCall>>,
}

impl<'a, R: CommandRunner + ?Sized> CommandRuns<'a, R> {
    /// The runs made through this value, in order.
    pub closed spec fn calls(&self) -> Seq<CommandCall> {
        self.calls@
    }

    /// Starts running commands through `runner`.
    pub fn new(runner: &'a R) -> (r: Self)
        ensures
            r.calls() == Seq::<CommandCall>::empty(),
    {
        CommandRuns { runner, calls: Ghost(Seq::empty()) }
    }

    /// Runs `program` with `args` through the runner.
    pub fn run(&mut self, program: &str, args: &[String]) -> (r: Result<CommandOutput, String>)
        ensures
            final(self).calls() == old(self).calls().push(
                CommandCall { program: program@, args: views_of(args@), outcome: r },
            ),
    {
        let r = self.runner.run(program, args);
        self.calls = Ghost(self.calls@.push(CommandCall { program: program@, args: views_of(args@), outcome: r }));
        r
    }
}

// ---------------------------------------------------------------------------------------
// Reading a version out of command output
// ---------------------------------------------------------------------------------------

/// Position where the word continuing at `j` ends: the first whitespace at or after `j`.
pub open spec fn word_end(s: Seq<char>, j: int) -> int
    decreases s.len() - j,
{
    if j < 0 || j >= s.len() || is_unicode_whitespace(s[j]) {
        j
    } else {
        word_end(s, j + 1)
    }
}

pub proof fn lemma_word_end(s: Seq<char>, j: int)
    requires
        0 <= j <= s.len(),
    ensures
        j <= word_end(s, j) <= s.len(),
        forall|k: int| j <= k < word_end(s, j) ==> !is_unicode_whitespace(#[trigger] s[k]),
        word_end(s, j) < s.len() ==> is_unicode_whitespace(s[word_end(s, j)]),
    decreases s.len() - j,
{
    if j < s.len() && !is_unicode_whitespace(s[j]) {
        lemma_word_end(s, j + 1);
    }
}

/// The whitespace-separated words of `s[i..]` (`str::split_whitespace`).
pub open spec fn words_from(s: Seq<char>, i: int) -> Seq<Seq<char>>
    decreases s.len() - i,
{
    if i < 0 || i >= s.len() {
        Seq::empty()
    } else if is_unicode_whitespace(s[i]) {
        words_from(s, i + 1)
    } else {
        let e = word_end(s, i + 1);
        proof {
            lemma_word_end(s, i + 1);
        }
        seq![s.subrange(i, e)] + words_from(s, e)
    }
}

/// The whitespace-separated words of `s`.
pub open spec fn words(s: Seq<char>) -> Seq<Seq<char>> {
    words_from(s, 0)
}

/// A word that reads as a version: it has an ASCII digit and a dot or a dash.
pub open spec fn looks_like_version(t: Seq<char>) -> bool {
    &&& exists|k: int| 0 <= k < t.len() && is_ascii_digit(#[trigger] t[k])
    &&& (t.contains('.') || t.contains('-'))
}

/// The first of `ws` that, stripped of `v`, `V` and punctuation at its ends, reads as a
/// version; stripped.
pub open spec fn first_version(ws: Seq<Seq<char>>) -> Option<Seq<char>>
    decreases ws.len(),
{
    if ws.len() == 0 {
        None
    } else {
        let t = trim_class(ws[0], CharClass::VersionEdge);
        if looks_like_version(t) {
            Some(t)
        } else {
            first_version(ws.drop_first())
        }
    }
}

/// The version that command output shows, if any.
pub open spec fn version_in(s: Seq<char>) -> Option<Seq<char>> {
    first_version(words(s))
}

proof fn lemma_push_contains(s: Seq<char>, c: char, x: char)
    ensures
        s.push(c).contains(x) == (s.contains(x) || c == x),
{
    let p = s.push(c);
    if p.contains(x) {
        let m = choose|m: int| 0 <= m < p.len() && #[trigger] p[m] == x;
        if m < s.len() {
            assert(s[m] == x);
        }
    }
    if s.contains(x) {
        let m = choose|m: int| 0 <= m < s.len() && #[trigger] s[m] == x;
        assert(p[m] == x);
    }
    if c == x {
        assert(p[s.len() as int] == x);
    }
}

/// Whether `cs[a..b]` reads as a version.
fn version_like(cs: &Vec<char>, a: usize, b: usize) -> (r: bool)
    requires
        a <= b <= cs.len(),
    ensures
        r == looks_like_version(cs@.subrange(a as int, b as int)),
{
    let ghost t = cs@.subrange(a as int, b as int);
    let mut digit = false;
    let mut separator = false;
    let mut k = a;
    while k < b
        invariant
            a <= k <= b <= cs.len(),
            t == cs@.subrange(a as int, b as int),
            digit == exists|m: int| 0 <= m < k - a && is_ascii_digit(#[trigger] t[m]),
            separator == (t.take(k - a).contains('.') || t.take(k - a).contains('-')),
        decreases b - k,
    {
        let c = cs[k];
        assert(t[k - a] == c);
        if '0' <= c && c <= '9' {
            digit = true;
        }
        if c == '.' || c == '-' {
            separator = true;
        }
        proof {
            let pre = t.take(k - a);
            let post = t.take(k - a + 1);
            assert(post =~= pre.push(c));
            lemma_push_contains(pre, c, '.');
            lemma_push_contains(pre, c, '-');
        }
        k = k + 1;
    }
    assert(t.take(b - a) =~= t);
    digit && separator
}

/// The version that `output` shows: the first whitespace-separated word that, stripped of
/// `v`, `V`, `,`, `;`, `:` and brackets at its ends, has an ASCII digit and a dot or a dash.
pub fn extract_version(output: &str) -> (r: Option<String>)
    ensures
        match version_in(output@) {
            Some(v) => r matches Some(s) && s@ == v,
            None => r is None,
        },
{
    let cs = chars_of(output);
    let n = cs.len();
    let ghost s = output@;
    let mut i: usize = 0;
    while i < n
        invariant
            cs@ == s,
            s == output@,
            n == cs.len(),
            i <= n,
            version_in(s) == first_version(words_from(s, i as int)),
        decreases n - i,
    {
        if is_whitespace_char(cs[i]) {
            i = i + 1;
        } else {
            let mut j = i + 1;
            while j < n && !is_whitespace_char(cs[j])
                invariant
                    cs@ == s,
                    n == cs.len(),
                    i < j <= n,
                    word_end(s, i as int + 1) == word_end(s, j as int),
                decreases n - j,
            {
                j = j + 1;
            }
            proof {
                lemma_word_end(s, i as int + 1);
                assert(word_end(s, j as int) == j);
                assert(words_from(s, i as int) == seq![s.subrange(i as int, j as int)] + words_from(s, j as int));
                assert((seq![s.subrange(i as int, j as int)] + words_from(s, j as int)).drop_first() =~= words_from(s, j as int));
            }
            let (a, b) = trim_bounds(&cs, i, j, CharClass::VersionEdge);
            if version_like(&cs, a, b) {
                let part = output.substring_char(a, b);
                return Some(String::from_str(part));
            }
            i = j;
        }
    }
    None
}

// ---------------------------------------------------------------------------------------
// Detection
// ---------------------------------------------------------------------------------------

/// Indices of the first `n` rules that apply on `platform`.
pub open spec fn rules_for(rules: Seq<DetectionRule>, platform: OperatingSystem, n: int) -> Seq<int>
    decreases n,
{
    if n <= 0 {
        Seq::empty()
    } else if rules[n - 1].platforms@.contains(platform) {
        rules_for(rules, platform, n - 1).push(n - 1)
    } else {
        rules_for(rules, platform, n - 1)
    }
}

/// `r` reports `item` as missing.
pub open spec fn is_missing_result(r: DetectionResult, item: CatalogItem) -> bool {
    &&& r.item_id == item.id
    &&& r.status == DetectionStatus::Missing
    &&& r.version is None
    &&& r.path is None
    &&& r.source is None
    &&& !r.satisfies_requested
    &&& r.conflicts@.len() == 0
}

/// `r` reports `item` as installed, found by `rule`, whose command printed `out`.
pub open spec fn is_installed_result(
    r: DetectionResult,
    item: CatalogItem,
    rule: DetectionRule,
    out: CommandOutput,
) -> bool {
    &&& r.item_id == item.id
    &&& r.status == DetectionStatus::Installed
    &&& match version_in(out.stdout@ + "\n"@ + out.stderr@) {
        Some(v) => r.version matches Some(s) && s@ == v,
        None => r.version is None,
    }
    &&& r.path == Some(rule.program)
    &&& match rule.source_hint {
        Some(h) => r.source == Some(h),
        None => r.source matches Some(s) && s@ == "PATH"@,
    }
    &&& r.satisfies_requested
    &&& r.conflicts@.len() == 0
}

/// A detection run came back with a status of 0: the tool is there.
pub open spec fn probe_found(outcome: Result<CommandOutput, String>) -> bool {
    outcome matches Ok(o) && o.status == 0
}

/// Detecting `item` on `platform` made the runs `made` and reported `r`: the rules for the
/// platform are run in catalog order until one comes back with status 0, which reports the
/// item installed with what it printed; when none does, every one of them was run and the
/// item is missing.
pub open spec fn is_detection_run(
    item: CatalogItem,
    platform: OperatingSystem,
    made: Seq<CommandCall>,
    r: DetectionResult,
) -> bool {
    let applicable = rules_for(item.detection@, platform, item.detection@.len() as int);
    &&& made.len() <= applicable.len()
    &&& forall|j: int|
        0 <= j < made.len() ==> (#[trigger] made[j]).program == item.detection@[applicable[j]].program@
            && made[j].args == views_of(item.detection@[applicable[j]].args@)
    &&& forall|j: int| 0 <= j < made.len() - 1 ==> !probe_found((#[trigger] made[j]).outcome)
    &&& if made.len() > 0 && probe_found(made.last().outcome) {
        is_installed_result(
            r,
            item,
            item.detection@[applicable[made.len() - 1]],
            made.last().outcome->Ok_0,
        )
    } else {
        made.len() == applicable.len() && is_missing_result(r, item)
    }
}

/// The result that reports `item` as missing.
pub fn missing_result(item: &CatalogItem) -> (r: DetectionResult)
    ensures
        is_missing_result(r, *item),
{
    DetectionResult {
        item_id: item.id.clone(),
        status: DetectionStatus::Missing,
        version: None,
        path: None,
        source: None,
        satisfies_requested: false,
        conflicts: Vec::new(),
    }
}

/// The result that reports `item` as installed, found by `rule`, whose command printed
/// `output`: the version is read from its standard output and error together.
pub fn installed_result(item: &CatalogItem, rule: &DetectionRule, output: &CommandOutput) -> (r:
    DetectionResult)
    ensures
        is_installed_result(r, *item, *rule, *output),
{
    let mut combined = output.stdout.clone();
    combined.append("\n");
    combined.append(output.stderr.as_str());
    let source = match &rule.source_hint {
        Some(h) => Some(h.clone()),
        None => Some(String::from_str("PATH")),
    };
    DetectionResult {
        item_id: item.id.clone(),
        status: DetectionStatus::Installed,
        version: extract_version(combined.as_str()),
        path: Some(rule.program.clone()),
        source,
        satisfies_requested: true,
        conflicts: Vec::new(),
    }
}

/// What one run of `rule` tells about `item`: installed, when it came back with status 0;
/// otherwise nothing, and detection goes on with the next rule.
pub fn probe_verdict(item: &CatalogItem, rule: &DetectionRule, outcome: &Result<CommandOutput, String>) -> (r:
    Option<DetectionResult>)
    ensures
        probe_found(*outcome) ==> (r matches Some(d) && is_installed_result(d, *item, *rule, outcome->Ok_0)),
        !probe_found(*outcome) ==> r is None,
{
    match outcome {
        Ok(output) => {
            if output.status == 0 {
                Some(installed_result(item, rule, output))
            } else {
                None
            }
        },
        Err(_) => None,
    }
}

proof fn lemma_rules_prefix(rules: Seq<DetectionRule>, platform: OperatingSystem, n: int, m: int)
    requires
        0 <= n <= m,
    ensures
        rules_for(rules, platform, n).len() <= rules_for(rules, platform, m).len(),
        rules_for(rules, platform, m).take(rules_for(rules, platform, n).len() as int) == rules_for(
            rules,
            platform,
            n,
        ),
    decreases m - n,
{
    if n < m {
        lemma_rules_prefix(rules, platform, n, m - 1);
        let a = rules_for(rules, platform, n);
        let b = rules_for(rules, platform, m - 1);
        let c = rules_for(rules, platform, m);
        assert(c.take(a.len() as int) =~= b.take(a.len() as int));
    } else {
        assert(rules_for(rules, platform, m).take(rules_for(rules, platform, m).len() as int) =~= rules_for(rules, platform, m));
    }
}

/// Runs the detection rules of `item` for `platform` in catalog order; the first whose
/// command exits with status 0 reports the item installed, with the version it printed.
/// Without such a rule the item is missing.
pub fn detect_item<R: CommandRunner + ?Sized>(
    item: &CatalogItem,
    platform: OperatingSystem,
    runner: &mut CommandRuns<'_, R>,
) -> (r: DetectionResult)
    ensures
        old(runner).calls().len() <= final(runner).calls().len(),
        final(runner).calls().take(old(runner).calls().len() as int) == old(runner).calls(),
        is_detection_run(*item, platform, final(runner).calls().skip(old(runner).calls().len() as int), r),
{
    let ghost n = item.detection@.len() as int;
    let ghost all = rules_for(item.detection@, platform, n);
    let ghost start = runner.calls();
    let mut k: usize = 0;
    while k < item.detection.len()
        invariant
            k <= item.detection.len(),
            n == item.detection@.len(),
            all == rules_for(item.detection@, platform, n),
            start == old(runner).calls(),
            runner.calls().len() == start.len() + rules_for(item.detection@, platform, k as int).len(),
            runner.calls().take(start.len() as int) == start,
            forall|j: int|
                0 <= j < rules_for(item.detection@, platform, k as int).len() ==> {
                    let c = #[trigger] runner.calls()[start.len() + j];
                    let rule = item.detection@[rules_for(item.detection@, platform, k as int)[j]];
                    &&& c.program == rule.program@
                    &&& c.args == views_of(rule.args@)
                    &&& !probe_found(c.outcome)
                },
        decreases item.detection.len() - k,
    {
        let rule = &item.detection[k];
        if contains_os(&rule.platforms, platform) {
            let ghost before = runner.calls();
            let outcome = runner.run(rule.program.as_str(), rule.args.as_slice());
            proof {
                lemma_rules_prefix(item.detection@, platform, k + 1, n);
                lemma_rules_prefix(item.detection@, platform, k as int, n);
                let upto = rules_for(item.detection@, platform, k + 1);
                let prev = rules_for(item.detection@, platform, k as int);
                assert(upto == prev.push(k as int));
                assert(runner.calls().take(start.len() as int) =~= start);
                assert forall|j: int| 0 <= j < prev.len() implies #[trigger] runner.calls()[start.len() + j] == before[start.len() + j] by {}
            }
            match probe_verdict(item, rule, &outcome) {
                Some(r) => {
                    proof {
                        let upto = rules_for(item.detection@, platform, k + 1);
                        let made = runner.calls().skip(start.len() as int);
                        assert(all.take(upto.len() as int) == upto);
                        assert forall|j: int| 0 <= j < made.len() implies all[j] == upto[j] by {
                            assert(all.take(upto.len() as int)[j] == all[j]);
                        }
                        assert forall|j: int| 0 <= j < made.len() implies (#[trigger] made[j]).program == item.detection@[all[j]].program@
                            && made[j].args == views_of(item.detection@[all[j]].args@) by {
                            assert(made[j] == runner.calls()[start.len() + j]);
                            assert(all[j] == upto[j]);
                        }
                        assert forall|j: int| 0 <= j < made.len() - 1 implies !probe_found((#[trigger] made[j]).outcome) by {
                            assert(made[j] == runner.calls()[start.len() + j]);
                        }
                        assert(made.last() == runner.calls().last());
                        assert(all[made.len() - 1] == k);
                    }
                    return r;
                },
                None => {},
            }
        } else {
            proof {
                assert(rules_for(item.detection@, platform, k + 1) == rules_for(item.detection@, platform, k as int));
            }
        }
        k = k + 1;
    }
    let r = missing_result(item);
    proof {
        let made = runner.calls().skip(start.len() as int);
        assert forall|j: int| 0 <= j < made.len() implies (#[trigger] made[j]).program == item.detection@[all[j]].program@
            && made[j].args == views_of(item.detection@[all[j]].args@) && !probe_found(made[j].outcome) by {
            assert(made[j] == runner.calls()[start.len() + j]);
        }
        if made.len() > 0 {
            assert(made.last() == made[made.len() - 1]);
        }
    }
    r
}

/// Indices of the first `n` items that support `platform`.
pub open spec fn items_for(items: Seq<CatalogItem>, platform: OperatingSystem, n: int) -> Seq<int>
    decreases n,
{
    if n <= 0 {
        Seq::empty()
    } else if items[n - 1].supported_platforms@.contains(platform) {
        items_for(items, platform, n - 1).push(n - 1)
    } else {
        items_for(items, platform, n - 1)
    }
}

/// Scanning made the runs `calls[start..]` and reported `results` for the items `chosen`
/// of `items`: the runs split at `cuts` into one detection run per chosen item, in order.
pub open spec fn is_scan_split(
    items: Seq<CatalogItem>,
    platform: OperatingSystem,
    chosen: Seq<int>,
    calls: Seq<CommandCall>,
    start: int,
    results: Seq<DetectionResult>,
    cuts: Seq<int>,
) -> bool {
    &&& results.len() == chosen.len()
    &&& cuts.len() == chosen.len() + 1
    &&& cuts[0] == start
    &&& cuts.last() == calls.len()
    &&& forall|m: int| 0 <= m < cuts.len() ==> start <= #[trigger] cuts[m] <= calls.len()
    &&& forall|m: int|
        0 <= m < chosen.len() ==> cuts[m] <= cuts[m + 1] && is_detection_run(
            items[chosen[m]],
            platform,
            calls.subrange(cuts[m], cuts[m + 1]),
            #[trigger] results[m],
        )
}

/// Detects, in catalog order, each item that supports `platform`; other items are left
/// alone and run nothing.
pub fn scan_catalog<R: CommandRunner + ?Sized>(
    items: &[CatalogItem],
    platform: OperatingSystem,
    runner: &mut CommandRuns<'_, R>,
) -> (r: Vec<DetectionResult>)
    ensures
        old(runner).calls().len() <= final(runner).calls().len(),
        final(runner).calls().take(old(runner).calls().len() as int) == old(runner).calls(),
        r@.len() == items_for(items@, platform, items@.len() as int).len(),
        exists|cuts: Seq<int>|
            is_scan_split(
                items@,
                platform,
                items_for(items@, platform, items@.len() as int),
                final(runner).calls(),
                old(runner).calls().len() as int,
                r@,
                cuts,
            ),
{
    let ghost start = runner.calls();
    let mut results: Vec<DetectionResult> = Vec::new();
    let ghost mut cuts: Seq<int> = seq![start.len() as int];
    let mut k: usize = 0;
    while k < items.len()
        invariant
            k <= items.len(),
            start == old(runner).calls(),
            start.len() <= runner.calls().len(),
            runner.calls().take(start.len() as int) == start,
            is_scan_split(
                items@,
                platform,
                items_for(items@, platform, k as int),
                runner.calls(),
                start.len() as int,
                results@,
                cuts,
            ),
        decreases items.len() - k,
    {
        let item = &items[k];
        if contains_os(&item.supported_platforms, platform) {
            let ghost before = runner.calls();
            let ghost prev = results@;
            let ghost prev_cuts = cuts;
            let ghost chosen = items_for(items@, platform, k as int);
            let d = detect_item(item, platform, runner);
            results.push(d);
            proof {
                let calls = runner.calls();
                let cs = prev_cuts.push(calls.len() as int);
                let now = items_for(items@, platform, k + 1);
                assert(now == chosen.push(k as int));
                assert(calls.take(before.len() as int) == before);
                assert(cs[0] == prev_cuts[0]);
                assert(cs.last() == calls.len());
                assert forall|m: int| 0 <= m < cs.len() implies start.len() <= #[trigger] cs[m] <= calls.len() by {
                    if m < prev_cuts.len() {
                        assert(cs[m] == prev_cuts[m]);
                    }
                }
                assert forall|m: int| 0 <= m < now.len() implies (cs[m] <= cs[m + 1] && is_detection_run(
                    items@[now[m]],
                    platform,
                    calls.subrange(cs[m], cs[m + 1]),
                    #[trigger] results@[m],
                )) by {
                    if m < chosen.len() {
                        assert(results@[m] == prev[m]);
                        assert(now[m] == chosen[m]);
                        assert(cs[m] == prev_cuts[m] && cs[m + 1] == prev_cuts[m + 1]);
                        assert(prev_cuts[m] <= prev_cuts[m + 1]);
                        assert(prev_cuts[m + 1] <= before.len());
                        assert(calls.subrange(cs[m], cs[m + 1]) =~= before.subrange(prev_cuts[m], prev_cuts[m + 1]));
                    } else {
                        assert(cs[m] == before.len());
                        assert(calls.subrange(cs[m], cs[m + 1]) =~= calls.skip(before.len() as int));
                    }
                }
                assert forall|m: int| 0 <= m < now.len() implies #[trigger] cs[m] <= cs[m + 1] by {
                    if m < chosen.len() {
                        assert(results@[m] == prev[m]);
                        assert(cs[m] == prev_cuts[m]);
                        assert(cs[m + 1] == prev_cuts[m + 1]);
                        assert(prev_cuts[m] <= prev_cuts[m + 1]);
                    } else {
                        assert(cs[m] == before.len());
                        assert(before.len() <= calls.len());
                        assert(m + 1 == cs.len() - 1);
                    }
                }
                assert(is_scan_split(items@, platform, now, calls, start.len() as int, results@, cs));
                cuts = cs;
                assert(calls.take(start.len() as int) =~= start) by {
                    assert(before.take(start.len() as int) == start);
                    assert forall|i: int| 0 <= i < start.len() implies calls[i] == before[i] by {
                        assert(calls.take(before.len() as int)[i] == calls[i]);
                    }
                }
            }
        } else {
            proof {
                assert(items_for(items@, platform, k + 1) == items_for(items@, platform, k as int));
            }
        }
        k = k + 1;
    }
    results
}

/// Law: detection reports an item missing only once every rule for the platform has been
/// run and none came back with status 0 (a program that could not be started counts as a
/// failed rule, and the next rule is still run); it reports the item installed only on a
/// run that came back with status 0, naming that rule's program; it reports nothing else.
pub proof fn missing_only_after_every_rule_failed(
    item: CatalogItem,
    platform: OperatingSystem,
    made: Seq<CommandCall>,
    r: DetectionResult,
)
    requires
        is_detection_run(item, platform, made, r),
    ensures
        r.status == DetectionStatus::Missing || r.status == DetectionStatus::Installed,
        r.status == DetectionStatus::Missing ==> {
            &&& made.len() == rules_for(item.detection@, platform, item.detection@.len() as int).len()
            &&& forall|j: int|
                0 <= j < made.len() ==> ((#[trigger] made[j]).outcome is Err || made[j].outcome->Ok_0.status
                    != 0)
        },
        r.status == DetectionStatus::Installed ==> {
            let applicable = rules_for(item.detection@, platform, item.detection@.len() as int);
            &&& made.len() > 0
            &&& made.last().outcome matches Ok(o) && o.status == 0
            &&& r.path == Some(item.detection@[applicable[made.len() - 1]].program)
            &&& r.item_id == item.id
        },
{
    if r.status == DetectionStatus::Missing {
        assert forall|j: int|
            0 <= j < made.len() implies ((#[trigger] made[j]).outcome is Err || made[j].outcome->Ok_0.status
                != 0) by {
            if j < made.len() - 1 {
                assert(!probe_found(made[j].outcome));
            } else {
                assert(made[j] == made.last());
            }
        }
    }
}

} // verus!
