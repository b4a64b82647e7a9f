//! The declarative list of sources, and what an acquisition run does with
//! it: which sources it visits, what it fetches for each, and how it
//! closes the run of each.

use vstd::prelude::*;
use vstd::string::StringExecFns;
use crate::numeral::{push_decimal, signed_decimal};
use crate::text::{push_char, str_eq};

verus! {

/// The value of `enabled` for a source that does not state it.
pub fn default_true() -> (b: bool)
    ensures
        b,
{
    true
}

/// One address of a source, with the period that it covers.
#[derive(Clone, Debug, PartialEq, Eq)]
pub struct SourceUrl {
    pub year: Option<i32>,
    pub month: Option<i32>,
    pub quarter: Option<i32>,
    pub url: String,
    pub description: String,
}

/// A source of documents.
#[derive(Clone, Debug, PartialEq, Eq)]
pub struct Source {
    pub id: String,
    pub name: String,
    pub description: String,
    pub provider: String,
    pub category: String,
    pub format: String,
    pub urls: Vec<SourceUrl>,
    pub api_url: Option<String>,
    pub requires_api_key: bool,
    pub parser: String,
    pub enabled: bool,
}

/// The list of sources.
#[derive(Clone, Debug, PartialEq, Eq)]
pub struct SourcesConfig {
    pub version: String,
    pub sources: Vec<Source>,
}

/// Whether a run visits the source. A run that targets an identifier
/// visits the source of that identifier, enabled or not; any other run
/// visits every source, or every enabled one.
pub open spec fn is_selected(source: Source, enabled_only: bool, target: Option<Seq<char>>) -> bool {
    match target {
        Some(id) => source.id@ == id,
        None => !enabled_only || source.enabled,
    }
}

/// The view of a target.
pub open spec fn target_view(target: Option<&str>) -> Option<Seq<char>> {
    match target {
        Some(id) => Some(id@),
        None => None,
    }
}

/// The indices of the sources that a run visits, in the order of the list.
pub open spec fn selection_of(sources: Seq<Source>, enabled_only: bool, target: Option<Seq<char>>) -> Seq<
    usize,
>
    decreases sources.len(),
{
    if sources.len() == 0 {
        seq![]
    } else {
        let rest = selection_of(sources.drop_last(), enabled_only, target);
        if is_selected(sources.last(), enabled_only, target) {
            rest.push((sources.len() - 1) as usize)
        } else {
            rest
        }
    }
}

/// Whether a run visits the source.
pub fn source_selected(source: &Source, enabled_only: bool, target: Option<&str>) -> (b: bool)
    ensures
        b == is_selected(*source, enabled_only, target_view(target)),
{
    match target {
        Some(id) => str_eq(source.id.as_str(), id),
        None => !enabled_only || source.enabled,
    }
}

/// Lists the sources that a run visits.
pub fn select_sources(config: &SourcesConfig, enabled_only: bool, target: Option<&str>) -> (r: Vec<
    usize,
>)
    ensures
        r@ == selection_of(config.sources@, enabled_only, target_view(target)),
        forall|k: int| 0 <= k < r.len() ==> (#[trigger] r[k]) < config.sources.len(),
{
    let mut selected: Vec<usize> = Vec::new();
    let mut i: usize = 0;
    while i < config.sources.len()
        invariant
            i <= config.sources.len(),
            selected@ == selection_of(
                config.sources@.take(i as int),
                enabled_only,
                target_view(target),
            ),
            forall|k: int| 0 <= k < selected.len() ==> (#[trigger] selected[k]) < i,
        decreases config.sources.len() - i,
    {
        proof {
            let now = config.sources@.take(i + 1);
            assert(now.drop_last() == config.sources@.take(i as int));
            assert(now.last() == config.sources@[i as int]);
        }
        if source_selected(&config.sources[i], enabled_only, target) {
            selected.push(i);
        }
        i = i + 1;
    }
    assert(config.sources@.take(config.sources.len() as int) == config.sources@);
    selected
}

/// The identifier under which a document of a source is registered: that
/// of the source, followed by the year of the address where it has one.
pub open spec fn artifact_source_id_of(source_id: Seq<char>, year: Option<i32>) -> Seq<char> {
    match year {
        Some(y) => source_id + seq!['-'] + signed_decimal(y as int),
        None => source_id,
    }
}

/// The identifier under which a document of a source is registered.
pub fn artifact_source_id(source_id: &str, year: Option<i32>) -> (r: String)
    ensures
        r@ == artifact_source_id_of(source_id@, year),
{
    let mut r = source_id.to_owned();
    match year {
        Some(y) => {
            push_char(&mut r, '-');
            if y < 0 {
                push_char(&mut r, '-');
                push_decimal(&mut r, (-(y as i64)) as u128);
                assert(r@ == source_id@ + seq!['-'] + (seq!['-'] + crate::numeral::decimal(
                    (-(y as int)) as nat,
                )));
            } else {
                push_decimal(&mut r, y as u128);
            }
        },
        None => {},
    }
    r
}

/// One document to fetch.
#[derive(Clone, Debug, PartialEq, Eq)]
pub struct FetchTarget {
    pub source_id: String,
    pub url: String,
}

pub struct FetchTargetView {
    pub source_id: Seq<char>,
    pub url: Seq<char>,
}

impl View for FetchTarget {
    type V = FetchTargetView;

    open spec fn view(&self) -> FetchTargetView {
        FetchTargetView { source_id: self.source_id@, url: self.url@ }
    }
}

impl DeepView for FetchTarget {
    type V = FetchTargetView;

    open spec fn deep_view(&self) -> FetchTargetView {
        self@
    }
}

/// The document that an address of a source stands for.
pub open spec fn target_of(source_id: Seq<char>, entry: SourceUrl) -> FetchTargetView {
    FetchTargetView { source_id: artifact_source_id_of(source_id, entry.year), url: entry.url@ }
}

/// The documents of a source, one per address, in order; none for a
/// source that needs an API key, which is not attempted.
pub open spec fn targets_of(source: Source) -> Seq<FetchTargetView> {
    if source.requires_api_key {
        seq![]
    } else {
        source.urls@.map_values(|entry: SourceUrl| target_of(source.id@, entry))
    }
}

/// Whether a run attempts the source at all.
pub fn is_attempted(source: &Source) -> (b: bool)
    ensures
        b == !source.requires_api_key,
{
    !source.requires_api_key
}

/// Lists the documents to fetch for a source.
pub fn fetch_targets(source: &Source) -> (targets: Vec<FetchTarget>)
    ensures
        targets.deep_view() == targets_of(*source),
{
    let mut targets: Vec<FetchTarget> = Vec::new();
    if source.requires_api_key {
        assert(targets.deep_view() == targets_of(*source));
        return targets;
    }
    let ghost f = |entry: SourceUrl| target_of(source.id@, entry);
    let mut i: usize = 0;
    assert(targets.deep_view() == source.urls@.take(0).map_values(f));
    while i < source.urls.len()
        invariant
            i <= source.urls.len(),
            !source.requires_api_key,
            f == |entry: SourceUrl| target_of(source.id@, entry),
            targets.deep_view() == source.urls@.take(i as int).map_values(f),
        decreases source.urls.len() - i,
    {
        let ghost before = targets.deep_view();
        let entry = &source.urls[i];
        let target = FetchTarget {
            source_id: artifact_source_id(source.id.as_str(), entry.year),
            url: entry.url.clone(),
        };
        targets.push(target);
        proof {
            assert(targets.deep_view() == before.push(target@));
            assert(source.urls@.take(i + 1) == source.urls@.take(i as int).push(*entry));
            assert(source.urls@.take(i + 1).map_values(f) == source.urls@.take(i as int).map_values(
                f,
            ).push(f(*entry)));
        }
        i = i + 1;
    }
    assert(source.urls@.take(source.urls.len() as int) == source.urls@);
    targets
}

/// How the run of a job ended.
#[derive(Clone, Copy, Debug, PartialEq, Eq, Structural)]
pub enum JobStatus {
    Running,
    Succeeded,
    Failed,
    Partial,
}

impl JobStatus {
    /// The name of the status in the audit trail.
    pub open spec fn name_of(self) -> Seq<char> {
        match self {
            JobStatus::Running => "running"@,
            JobStatus::Succeeded => "ok"@,
            JobStatus::Failed => "failed"@,
            JobStatus::Partial => "partial"@,
        }
    }

    /// The name of the status in the audit trail.
    pub fn name(&self) -> (r: &'static str)
        ensures
            r@ == self.name_of(),
    {
        match self {
            JobStatus::Running => "running",
            JobStatus::Succeeded => "ok",
            JobStatus::Failed => "failed",
            JobStatus::Partial => "partial",
        }
    }
}

/// The status that closes the run over the addresses of a source:
/// `Succeeded` where every fetch succeeded, `Failed` where every fetch
/// failed, `Partial` where some succeeded and others failed.
pub open spec fn batch_status_of(fetched: Seq<bool>) -> JobStatus {
    if forall|i: int| 0 <= i < fetched.len() ==> fetched[i] {
        JobStatus::Succeeded
    } else if forall|i: int| 0 <= i < fetched.len() ==> !fetched[i] {
        JobStatus::Failed
    } else {
        JobStatus::Partial
    }
}

/// The status that closes the run over the addresses of a source.
pub fn batch_status(fetched: &Vec<bool>) -> (s: JobStatus)
    ensures
        s == batch_status_of(fetched@),
{
    let mut any_acquired = false;
    let mut any_failed = false;
    let mut i: usize = 0;
    while i < fetched.len()
        invariant
            i <= fetched.len(),
            any_acquired == exists|k: int| 0 <= k < i && fetched@[k],
            any_failed == exists|k: int| 0 <= k < i && !fetched@[k],
        decreases fetched.len() - i,
    {
        if fetched[i] {
            any_acquired = true;
        } else {
            any_failed = true;
        }
        i = i + 1;
    }
    if !any_failed {
        JobStatus::Succeeded
    } else if !any_acquired {
        JobStatus::Failed
    } else {
        JobStatus::Partial
    }
}

/// What an acquisition run is asked to do.
#[derive(Clone, Copy, Debug, PartialEq, Eq, Structural)]
pub enum CollectionMode {
    /// Visit the sources of a list.
    Batch,
    /// Fetch one address for one source.
    Single,
}

/// The mode that the arguments of a run ask for: a batch where a list is
/// given; a single fetch where a source and an address are given; nothing
/// otherwise.
pub fn collection_mode(has_config: bool, has_source_id: bool, has_url: bool) -> (m: Option<
    CollectionMode,
>)
    ensures
        m == if has_config {
            Some(CollectionMode::Batch)
        } else if has_source_id && has_url {
            Some(CollectionMode::Single)
        } else {
            None::<CollectionMode>
        },
{
    if has_config {
        Some(CollectionMode::Batch)
    } else if has_source_id && has_url {
        Some(CollectionMode::Single)
    } else {
        None
    }
}

/// The line of sixty hyphens that frames the summary.
pub open spec fn rule_line(n: nat) -> Seq<char>
    decreases n,
{
    if n == 0 {
        Seq::empty()
    } else {
        rule_line((n - 1) as nat).push('-')
    }
}

/// The line of the summary for a source: a mark for whether it is
/// enabled, its identifier, name and format, and a note where it needs an
/// API key.
pub open spec fn source_line(source: Source) -> Seq<char> {
    "  "@ + (if source.enabled {
        "✓"@
    } else {
        "✗"@
    }) + " "@ + source.id@ + " - "@ + source.name@ + " ["@ + source.format@ + "]"@ + (
    if source.requires_api_key {
        " (API key required)"@
    } else {
        Seq::empty()
    })
}

/// The line of the summary for an address that names a year.
pub open spec fn url_line(entry: SourceUrl) -> Seq<char> {
    "      - "@ + entry.description@ + " ("@ + signed_decimal(entry.year->0 as int) + ")"@
}

/// The lines for the addresses of a source that name a year, in order.
pub open spec fn url_lines(urls: Seq<SourceUrl>) -> Seq<Seq<char>>
    decreases urls.len(),
{
    if urls.len() == 0 {
        seq![]
    } else if urls.last().year is Some {
        url_lines(urls.drop_last()).push(url_line(urls.last()))
    } else {
        url_lines(urls.drop_last())
    }
}

/// The lines for the sources, each followed by the lines of its
/// addresses.
pub open spec fn source_lines(sources: Seq<Source>) -> Seq<Seq<char>>
    decreases sources.len(),
{
    if sources.len() == 0 {
        seq![]
    } else {
        source_lines(sources.drop_last()).push(source_line(sources.last())) + url_lines(
            sources.last().urls@,
        )
    }
}

/// The summary of a list of sources: a heading, and the lines of the
/// sources between two rules.
pub open spec fn summary_of(sources: Seq<Source>) -> Seq<Seq<char>> {
    seq!["Configured sources:"@, rule_line(60)] + source_lines(sources) + seq![rule_line(60)]
}

fn rule() -> (s: String)
    ensures
        s@ == rule_line(60),
{
    let mut s = String::new();
    let mut i: usize = 0;
    while i < 60
        invariant
            i <= 60,
            s@ == rule_line(i as nat),
        decreases 60 - i,
    {
        push_char(&mut s, '-');
        i = i + 1;
    }
    s
}

fn push_year(s: &mut String, y: i32)
    ensures
        final(s)@ == old(s)@ + signed_decimal(y as int),
{
    if y < 0 {
        push_char(s, '-');
        push_decimal(s, (-(y as i64)) as u128);
        assert(s@ == old(s)@ + (seq!['-'] + crate::numeral::decimal((-(y as int)) as nat)));
    } else {
        push_decimal(s, y as u128);
    }
}

/// Lists the sources of a configuration, one line each, with the
/// addresses that name a year below their source.
pub fn sources_summary(config: &SourcesConfig) -> (lines: Vec<String>)
    ensures
        lines.deep_view() == summary_of(config.sources@),
{
    let mut lines: Vec<String> = Vec::new();
    lines.push("Configured sources:".to_owned());
    lines.push(rule());
    let ghost head = seq!["Configured sources:"@, rule_line(60)];
    assert(lines.deep_view() == head + source_lines(config.sources@.take(0)));
    let mut i: usize = 0;
    while i < config.sources.len()
        invariant
            i <= config.sources.len(),
            head == seq!["Configured sources:"@, rule_line(60)],
            lines.deep_view() == head + source_lines(config.sources@.take(i as int)),
        decreases config.sources.len() - i,
    {
        let source = &config.sources[i];
        let ghost sources_now = config.sources@.take(i + 1);
        proof {
            assert(sources_now.drop_last() == config.sources@.take(i as int));
            assert(sources_now.last() == *source);
        }
        let mut line = "  ".to_owned();
        if source.enabled {
            line.append("✓");
        } else {
            line.append("✗");
        }
        line.append(" ");
        line.append(source.id.as_str());
        line.append(" - ");
        line.append(source.name.as_str());
        line.append(" [");
        line.append(source.format.as_str());
        line.append("]");
        if source.requires_api_key {
            line.append(" (API key required)");
        } else {
            assert(line@ + Seq::<char>::empty() == line@);
        }
        let ghost before = lines.deep_view();
        lines.push(line);
        assert(lines.deep_view() == before.push(source_line(*source)));
        let ghost base = lines.deep_view();
        let mut j: usize = 0;
        assert(source.urls@.take(0) == Seq::<SourceUrl>::empty());
        assert(lines.deep_view() == base + url_lines(source.urls@.take(0)));
        while j < source.urls.len()
            invariant
                j <= source.urls.len(),
                lines.deep_view() == base + url_lines(source.urls@.take(j as int)),
            decreases source.urls.len() - j,
        {
            let entry = &source.urls[j];
            proof {
                let urls_now = source.urls@.take(j + 1);
                assert(urls_now.drop_last() == source.urls@.take(j as int));
                assert(urls_now.last() == *entry);
            }
            match entry.year {
                Some(y) => {
                    let mut text = "      - ".to_owned();
                    text.append(entry.description.as_str());
                    text.append(" (");
                    push_year(&mut text, y);
                    text.append(")");
                    let ghost inner = lines.deep_view();
                    lines.push(text);
                    assert(lines.deep_view() == inner.push(url_line(*entry)));
                },
                None => {},
            }
            j = j + 1;
        }
        assert(source.urls@.take(source.urls.len() as int) == source.urls@);
        i = i + 1;
    }
    assert(config.sources@.take(config.sources.len() as int) == config.sources@);
    let ghost before = lines.deep_view();
    lines.push(rule());
    assert(lines.deep_view() == before.push(rule_line(60)));
    lines
}

} // verus!
