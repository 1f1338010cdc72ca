//! What the command-line checks print.

use vstd::prelude::*;
use vstd::string::*;

use crate::config::{Build, Config, OnDisk, Problem, Severity};
use crate::connectivity::ProbeResult;
use crate::text::push_text;

verus! {

/// The findings that are that severe, in their order.
pub open spec fn of_severity(
    findings: Seq<crate::config::problems::Finding>,
    severity: Severity,
) -> Seq<crate::config::problems::Finding> {
    findings.filter(|f: crate::config::problems::Finding| f.severity == severity)
}

/// The errors, and then the warnings, each in their order.
pub open spec fn errors_first(findings: Seq<crate::config::problems::Finding>) -> Seq<
    crate::config::problems::Finding,
> {
    of_severity(findings, Severity::Error) + of_severity(findings, Severity::Warning)
}

/// A problem on a line.
pub open spec fn problem_line(finding: crate::config::problems::Finding) -> Seq<char> {
    let label = match finding.severity {
        Severity::Error => "ERROR"@,
        Severity::Warning => "WARNING"@,
    };
    match finding.key {
        Some(key) => label + " "@ + key + ": "@ + finding.message,
        None => label + ": "@ + finding.message,
    }
}

fn line_of(problem: &Problem) -> (r: String)
    ensures
        r@ == problem_line(problem@),
{
    let mut out = match problem.severity {
        Severity::Error => "ERROR".to_owned(),
        Severity::Warning => "WARNING".to_owned(),
    };
    match &problem.key {
        Some(key) => {
            out.append(" ");
            out.append(key.as_str());
        },
        None => {},
    }
    out.append(": ");
    out.append(problem.message.as_str());
    out
}

fn lines_of(problems: &Vec<Problem>, severity: Severity, lines: &mut Vec<String>)
    ensures
        crate::text::texts(final(lines)@) == crate::text::texts(old(lines)@) + of_severity(
            crate::config::problems::findings(problems@),
            severity,
        ).map_values(|f: crate::config::problems::Finding| problem_line(f)),
{
    let ghost all = crate::config::problems::findings(problems@);
    let ghost keep = |f: crate::config::problems::Finding| f.severity == severity;
    let ghost show = |f: crate::config::problems::Finding| problem_line(f);
    let ghost before = crate::text::texts(lines@);
    let mut i: usize = 0;
    proof {
        reveal(Seq::filter);
        assert(all.take(0).filter(keep).map_values(show) =~= Seq::<Seq<char>>::empty());
        assert(before =~= before + Seq::<Seq<char>>::empty());
    }
    while i < problems.len()
        invariant
            i <= problems@.len(),
            all == crate::config::problems::findings(problems@),
            keep == (|f: crate::config::problems::Finding| f.severity == severity),
            show == (|f: crate::config::problems::Finding| problem_line(f)),
            crate::text::texts(lines@) == before + all.take(i as int).filter(keep).map_values(show),
        decreases problems@.len() - i,
    {
        proof {
            assert(all.take(i + 1).drop_last() =~= all.take(i as int));
            assert(all.take(i + 1).last() == problems@[i as int]@);
            reveal(Seq::filter);
        }
        let ghost kept = all.take(i as int).filter(keep);
        if problems[i].severity == severity {
            push_text(lines, line_of(&problems[i]).as_str());
            proof {
                assert(all.take(i + 1).filter(keep) == kept.push(all[i as int]));
                assert(kept.push(all[i as int]).map_values(show) =~= kept.map_values(show).push(
                    problem_line(all[i as int]),
                ));
                assert(crate::text::texts(lines@) =~= before + all.take(i + 1).filter(
                    keep,
                ).map_values(show));
            }
        }
        i += 1;
    }
    assert(all.take(i as int) =~= all);
}

/// What a check prints, and whether it failed.
#[derive(Debug, PartialEq, Eq)]
pub struct Report {
    pub lines: Vec<String>,
    pub failed: bool,
}

/// The configuration has no errors.
pub open spec fn without_errors(findings: Seq<crate::config::problems::Finding>) -> bool {
    of_severity(findings, Severity::Error).len() == 0
}

/// What is printed of a summary and what was found.
pub open spec fn reported(
    summary: Seq<char>,
    found: Seq<crate::config::problems::Finding>,
    r: Report,
) -> bool {
    let told = seq![summary] + errors_first(found).map_values(
        |f: crate::config::problems::Finding| problem_line(f),
    );
    &&& r.failed == !without_errors(found)
    &&& crate::text::texts(r.lines@) == if r.failed {
        told
    } else {
        told.push("configuration OK"@)
    }
}

/// Print a redacted summary and every configuration problem in one pass, the
/// errors first. Fails where at least one is an error.
pub fn check_config(config: &Config, build: Build, bind: &Result<(), String>, disk: &OnDisk) -> (r:
    Report)
    requires
        config.looked_at(*disk),
    ensures
        reported(
            crate::config::summary::with_ends(crate::config::summary::summary_lines(*config)),
            config.findings(build, *bind) + config.disk_findings(build, *disk),
            r,
        ),
{
    let mut problems = config.problems(build, bind);
    let mut rest = config.problems_on_disk(build, disk);
    problems.append(&mut rest);
    let ghost found = config.findings(build, *bind) + config.disk_findings(build, *disk);
    let ghost show = |f: crate::config::problems::Finding| problem_line(f);
    assert(crate::config::problems::findings(problems@) =~= found);
    let mut lines: Vec<String> = Vec::new();
    push_text(&mut lines, config.redacted_summary().as_str());
    lines_of(&problems, Severity::Error, &mut lines);
    let failed: bool = lines.len() > 1;
    proof {
        let errors = of_severity(found, Severity::Error).map_values(show);
        assert(crate::text::texts(lines@).len() == lines@.len());
        assert(lines@.len() == 1 + errors.len());
    }
    lines_of(&problems, Severity::Warning, &mut lines);
    proof {
        assert(errors_first(found).map_values(show) =~= of_severity(
            found,
            Severity::Error,
        ).map_values(show) + of_severity(found, Severity::Warning).map_values(show));
        let summary = crate::config::summary::with_ends(
            crate::config::summary::summary_lines(*config),
        );
        assert(crate::text::texts(lines@) =~= seq![summary] + errors_first(found).map_values(show));
    }
    if !failed {
        push_text(&mut lines, "configuration OK");
    }
    Report { lines, failed }
}

/// What one probe was about, and what it showed.
#[derive(Debug, PartialEq, Eq)]
pub struct Probed {
    pub label: String,
    pub result: ProbeResult,
}

/// The probe is about that.
pub open spec fn probed(it: Probed, label: Seq<char>, result: ProbeResult) -> bool {
    it.label@ == label && it.result == result
}

fn labelled(kind: &str, name: &str, result: ProbeResult) -> (r: Probed)
    ensures
        probed(r, kind@ + name@, result),
{
    let mut label = kind.to_owned();
    label.append(name);
    Probed { label, result }
}

/// How many probes the download client has.
pub open spec fn client_probes(config: Config) -> int {
    if config.download_client is Some {
        1
    } else {
        0
    }
}

/// The names of the configured integrations, in the order in which they are
/// probed: the trackers, the download client and the *arr instances.
pub open spec fn probe_label(config: Config, i: int) -> Seq<char> {
    let trackers = config.trackers@.len() as int;
    if i < trackers {
        "tracker "@ + config.trackers@[i].id@
    } else if i < trackers + client_probes(config) {
        "download client"@
    } else {
        "arr "@ + config.arr@[i - trackers - client_probes(config)].name@
    }
}

/// How many integrations are configured.
pub open spec fn probe_count(config: Config) -> int {
    config.trackers@.len() + client_probes(config) + config.arr@.len()
}

/// Label what probing every configured integration showed, and say whether any
/// of them failed. `results` are the results in the order in which the
/// integrations are probed.
pub fn probe_all(config: &Config, results: Vec<ProbeResult>) -> (r: (Vec<Probed>, bool))
    requires
        results@.len() == probe_count(*config),
    ensures
        r.0@.len() == results@.len(),
        forall|i: int|
            0 <= i < results@.len() ==> probed(
                #[trigger] r.0@[i],
                probe_label(*config, i),
                results@[i],
            ),
        r.1 == exists|i: int| 0 <= i < results@.len() && !(#[trigger] results@[i]).ok,
{
    let ghost all = results@;
    let trackers: usize = config.trackers.len();
    let clients: usize = match &config.download_client {
        Some(_) => 1,
        None => 0,
    };
    let mut rest = results;
    let mut out: Vec<Probed> = Vec::new();
    let mut any_failed: bool = false;
    assert(all.skip(0) =~= all);
    while rest.len() > 0
        invariant
            all == results@,
            all.len() == probe_count(*config),
            trackers == config.trackers@.len(),
            clients == client_probes(*config),
            rest@ == all.skip(out@.len() as int),
            out@.len() + rest@.len() == all.len(),
            forall|i: int|
                0 <= i < out@.len() ==> probed(
                    #[trigger] out@[i],
                    probe_label(*config, i),
                    all[i],
                ),
            any_failed == exists|i: int| 0 <= i < out@.len() && !(#[trigger] all[i]).ok,
        decreases rest@.len(),
    {
        let i: usize = out.len();
        let result = rest.remove(0);
        assert(result == all[i as int]);
        assert(rest@ =~= all.skip(i + 1));
        if !result.ok {
            any_failed = true;
            assert(!all[i as int].ok);
        }
        let one = if i < trackers {
            labelled("tracker ", config.trackers[i].id.as_str(), result)
        } else if i - trackers < clients {
            Probed { label: "download client".to_owned(), result }
        } else {
            labelled("arr ", config.arr[i - trackers - clients].name.as_str(), result)
        };
        out.push(one);
    }
    (out, any_failed)
}

/// A probe on a line.
pub open spec fn probe_line(it: Probed) -> Seq<char> {
    (if it.result.ok {
        "OK "@
    } else {
        "FAILED "@
    }) + it.label@ + ": "@ + it.result.detail@
}

/// Print what every probe showed.
pub fn check_connections(results: &Vec<Probed>) -> (r: Vec<String>)
    ensures
        crate::text::texts(r@) == results@.map_values(|it: Probed| probe_line(it)),
{
    let ghost shown = results@.map_values(|it: Probed| probe_line(it));
    let mut lines: Vec<String> = Vec::new();
    let mut i: usize = 0;
    assert(crate::text::texts(lines@) =~= shown.take(0));
    while i < results.len()
        invariant
            i <= results@.len(),
            shown == results@.map_values(|it: Probed| probe_line(it)),
            crate::text::texts(lines@) == shown.take(i as int),
        decreases results@.len() - i,
    {
        let mut line = if results[i].result.ok {
            "OK ".to_owned()
        } else {
            "FAILED ".to_owned()
        };
        line.append(results[i].label.as_str());
        line.append(": ");
        line.append(results[i].result.detail.as_str());
        push_text(&mut lines, line.as_str());
        assert(crate::text::texts(lines@) =~= shown.take(i + 1));
        i += 1;
    }
    assert(shown.take(i as int) =~= shown);
    lines
}

/// A check fails exactly where something that was found is an error; everything
/// that was found has a line, which names its severity and its key, and no error
/// stands behind a warning.
pub proof fn a_check_fails_over_an_error(
    summary: Seq<char>,
    found: Seq<crate::config::problems::Finding>,
    r: Report,
    i: int,
)
    requires
        reported(summary, found, r),
        0 <= i < found.len(),
    ensures
        r.lines@.len() > 0,
        r.lines@[0]@ == summary,
        r.failed <==> exists|k: int| 0 <= k < found.len() && (#[trigger] found[k]).severity is Error,
        exists|n: int|
            0 < n < r.lines@.len() && (#[trigger] r.lines@[n])@ == (if found[i].severity is Error {
                "ERROR"@
            } else {
                "WARNING"@
            }) + (match found[i].key {
                Some(key) => " "@ + key,
                None => Seq::empty(),
            }) + ": "@ + found[i].message,
        !r.failed ==> r.lines@.last()@ == "configuration OK"@,
{
    let show = |f: crate::config::problems::Finding| problem_line(f);
    let bad = |f: crate::config::problems::Finding| f.severity == Severity::Error;
    let mild = |f: crate::config::problems::Finding| f.severity == Severity::Warning;
    crate::sorting::what_is_kept_of_a_list(found, bad);
    crate::sorting::what_is_kept_of_a_list(found, mild);
    let (errors, warnings) = (
        of_severity(found, Severity::Error),
        of_severity(found, Severity::Warning),
    );
    assert(errors == found.filter(bad) && warnings == found.filter(mild));
    let told = seq![summary] + errors_first(found).map_values(show);
    let lines = crate::text::texts(r.lines@);
    assert(lines.len() == r.lines@.len());
    assert(lines[0] == r.lines@[0]@);
    if exists|k: int| 0 <= k < found.len() && (#[trigger] found[k]).severity is Error {
        let k = choose|k: int| 0 <= k < found.len() && (#[trigger] found[k]).severity is Error;
        assert(bad(found[k]));
        assert(errors.contains(found[k]));
    }
    if errors.len() > 0 {
        assert(bad(errors[0]) && found.contains(errors[0]));
    }
    let at = if found[i].severity is Error {
        assert(bad(found[i]));
        assert(errors.contains(found[i]));
        choose|k: int| 0 <= k < errors.len() && errors[k] == found[i]
    } else {
        assert(mild(found[i]));
        assert(warnings.contains(found[i]));
        errors.len() + choose|k: int| 0 <= k < warnings.len() && warnings[k] == found[i]
    };
    assert(errors_first(found)[at] == found[i]);
    assert(told[at + 1] == problem_line(found[i]));
    assert(lines[at + 1] == told[at + 1]);
    assert(r.lines@[at + 1]@ == lines[at + 1]);
    let label = if found[i].severity is Error {
        "ERROR"@
    } else {
        "WARNING"@
    };
    match found[i].key {
        Some(key) => {
            assert(label + (" "@ + key) + ": "@ + found[i].message =~= label + " "@ + key + ": "@
                + found[i].message);
        },
        None => {
            assert(label + Seq::<char>::empty() + ": "@ + found[i].message =~= label + ": "@
                + found[i].message);
        },
    }
    if !r.failed {
        assert(lines[lines.len() - 1] == "configuration OK"@);
    }
}

} // verus!
