//! Alerts about high-severity changes.
use vstd::prelude::*;

use crate::history::{entry_views, HistoryEntry, HistoryEntryView};
use crate::json::{
    json_chars, json_object, json_string, law_json_chars_are_injective, object_to_json,
};
use crate::lines::{is_white_space, law_blank_means_white_space, trim, trimmed};
use crate::report::{has_severity, signals_gained, Severity};
use crate::run::{is_change, ScanView};
use crate::snapshot::CrateSnapshotView;
use crate::text::{decimal, has_passages, push_decimal, same_text, text_less, texts};

verus! {

/// The change is worth interrupting someone for.
pub open spec fn is_high(entry: HistoryEntryView) -> bool {
    entry.worst_severity == Some("high"@)
}

/// Those of the changes that are worth interrupting someone for.
pub fn high_severity_entries(entries: &[HistoryEntry]) -> (high: Vec<&HistoryEntry>)
    ensures
        high@.map_values(|e: &HistoryEntry| *e) == entries@.filter(|e: HistoryEntry| is_high(e@)),
{
    let mut high: Vec<&HistoryEntry> = Vec::new();
    let ghost keep = |e: HistoryEntry| is_high(e@);
    proof {
        reveal(Seq::filter);
    }
    for i in 0..entries.len()
        invariant
            keep == (|e: HistoryEntry| is_high(e@)),
            high@.map_values(|e: &HistoryEntry| *e) == entries@.take(i as int).filter(keep),
    {
        proof {
            reveal(Seq::filter);
            assert(entries@.take(i + 1).drop_last() == entries@.take(i as int));
            assert(entries@.take(i + 1).last() == entries@[i as int]);
        }
        let alerting = match &entries[i].worst_severity {
            Some(severity) => same_text(severity.as_str(), "high"),
            None => false,
        };
        if alerting {
            let ghost before = high@.map_values(|e: &HistoryEntry| *e);
            high.push(&entries[i]);
            assert(high@.map_values(|e: &HistoryEntry| *e) == before.push(entries@[i as int]));
        }
    }
    assert(entries@.take(entries@.len() as int) == entries@);
    high
}

/// The text of the alert about one change.
pub open spec fn alert_message(entry: HistoryEntryView) -> Seq<char> {
    "capscan leaderboard: "@ + entry.name + " "@ + entry.old_version + " -> "@ + entry.new_version
        + " introduced a HIGH severity capability (+"@ + decimal(entry.added_signals)
        + " signal(s), -"@ + decimal(entry.removed_signals)
        + " signal(s)). https://poglesbyg.github.io/capscan-leaderboard/#"@ + entry.name
}

/// Writes the alert about one change.
pub fn format_alert_message(entry: &HistoryEntry) -> (message: String)
    ensures
        message@ == alert_message(entry@),
{
    let mut message = "capscan leaderboard: ".to_owned();
    message.append(entry.name.as_str());
    message.append(" ");
    message.append(entry.old_version.as_str());
    message.append(" -> ");
    message.append(entry.new_version.as_str());
    message.append(" introduced a HIGH severity capability (+");
    push_decimal(&mut message, entry.added_signals);
    message.append(" signal(s), -");
    push_decimal(&mut message, entry.removed_signals);
    message.append(" signal(s)). https://poglesbyg.github.io/capscan-leaderboard/#");
    message.append(entry.name.as_str());
    message
}

/// An alert to send, and the crate that it is about.
#[derive(Clone, Debug)]
pub struct Alert {
    pub name: String,
    pub message: String,
}

/// An alert as a mathematical value.
pub struct AlertView {
    pub name: Seq<char>,
    pub message: Seq<char>,
}

impl View for Alert {
    type V = AlertView;

    open spec fn view(&self) -> AlertView {
        AlertView { name: self.name@, message: self.message@ }
    }
}

/// The alert about one change.
pub open spec fn alert_about(entry: HistoryEntryView) -> AlertView {
    AlertView { name: entry.name, message: alert_message(entry) }
}

/// There is an address to send alerts to: one is given, and it is not blank.
pub open spec fn can_send(webhook_url: Option<&str>) -> bool {
    webhook_url matches Some(url) && trimmed(url@).len() > 0
}

/// The alerts that are due after a run.
pub open spec fn alerts_due(webhook_url: Option<&str>, entries: Seq<HistoryEntryView>) -> Seq<
    AlertView,
> {
    if can_send(webhook_url) {
        entries.filter(|e: HistoryEntryView| is_high(e)).map_values(
            |e: HistoryEntryView| alert_about(e),
        )
    } else {
        Seq::empty()
    }
}

proof fn lemma_alerts_due(entries: Seq<HistoryEntry>)
    ensures
        entries.filter(|e: HistoryEntry| is_high(e@)).map_values(
            |e: HistoryEntry| alert_about(e@),
        ) == entry_views(entries).filter(|e: HistoryEntryView| is_high(e)).map_values(
            |e: HistoryEntryView| alert_about(e),
        ),
    decreases entries.len(),
{
    reveal(Seq::filter);
    let views = entry_views(entries);
    let (keep, keep_view) = (
        |e: HistoryEntry| is_high(e@),
        |e: HistoryEntryView| is_high(e),
    );
    let (about, about_view) = (
        |e: HistoryEntry| alert_about(e@),
        |e: HistoryEntryView| alert_about(e),
    );
    if entries.len() > 0 {
        let front = entries.drop_last();
        lemma_alerts_due(front);
        assert(views.drop_last() =~= entry_views(front));
        assert(views.last() == entries.last()@);
        let (a, b) = (front.filter(keep), entry_views(front).filter(keep_view));
        if keep(entries.last()) {
            assert(a.push(entries.last()).map_values(about) =~= a.map_values(about).push(
                alert_about(entries.last()@),
            ));
            assert(b.push(views.last()).map_values(about_view) =~= b.map_values(about_view).push(
                alert_about(views.last()),
            ));
        }
    } else {
        assert(entries.filter(keep).map_values(about) =~= views.filter(keep_view).map_values(
            about_view,
        ));
    }
}

/// The alerts to send after a run: one for each high-severity change, in order,
/// and none at all where there is no address to send them to.
pub fn pending_alerts(webhook_url: Option<&str>, new_entries: &[HistoryEntry]) -> (alerts: Vec<
    Alert,
>)
    ensures
        alerts@.map_values(|a: Alert| a@) == (if can_send(webhook_url) {
            new_entries@.filter(|e: HistoryEntry| is_high(e@)).map_values(
                |e: HistoryEntry| alert_about(e@),
            )
        } else {
            Seq::<AlertView>::empty()
        }),
        alerts@.map_values(|a: Alert| a@) == alerts_due(webhook_url, entry_views(new_entries@)),
        webhook_url matches Some(url) && (exists|i: int|
            0 <= i < url@.len() && !is_white_space(#[trigger] url@[i])) ==> alerts@.len()
            == new_entries@.filter(|e: HistoryEntry| is_high(e@)).len(),
{
    proof {
        lemma_alerts_due(new_entries@);
        if webhook_url is Some {
            law_every_address_counts(webhook_url->0);
        }
    }
    let mut alerts: Vec<Alert> = Vec::new();
    let url = match webhook_url {
        Some(url) => url,
        None => {
            assert(alerts@.map_values(|a: Alert| a@) == Seq::<AlertView>::empty());
            return alerts;
        },
    };
    if trim(url).is_empty() {
        assert(alerts@.map_values(|a: Alert| a@) == Seq::<AlertView>::empty());
        return alerts;
    }
    let high = high_severity_entries(new_entries);
    let ghost chosen = new_entries@.filter(|e: HistoryEntry| is_high(e@));
    for i in 0..high.len()
        invariant
            high@.map_values(|e: &HistoryEntry| *e) == chosen,
            alerts.len() == i,
            forall|j: int| 0 <= j < i ==> #[trigger] alerts[j]@ == alert_about(chosen[j]@),
    {
        let entry = high[i];
        assert(chosen[i as int] == *entry);
        alerts.push(Alert { name: entry.name.clone(), message: format_alert_message(entry) });
    }
    assert(high@.map_values(|e: &HistoryEntry| *e).len() == high@.len());
    assert(alerts@.map_values(|a: Alert| a@) == chosen.map_values(
        |e: HistoryEntry| alert_about(e@),
    ));
    alerts
}

/// The body of the request for one alert: a JSON object that carries the
/// message under both names that a receiver may look for.
pub open spec fn body_text(message: Seq<char>) -> Seq<char> {
    json_object("content"@, message, "text"@, message)
}

/// Writes the body of the request for one alert.
pub fn webhook_body(message: &str) -> (body: String)
    ensures
        body@ == body_text(message@),
{
    proof {
        reveal_strlit("content");
        reveal_strlit("text");
        assert(text_less("content"@, "text"@));
    }
    object_to_json("content", message, "text", message).unwrap()
}

/// The words of the command that posts a body to an address.
pub open spec fn post_words(url: Seq<char>, body: Seq<char>) -> Seq<Seq<char>> {
    seq![
        "-sS"@,
        "-X"@,
        "POST"@,
        "-H"@,
        "Content-Type: application/json"@,
        "-d"@,
        body,
        url,
    ]
}

/// The arguments of the command that posts a body to an address.
pub fn post_arguments(url: &str, body: &str) -> (arguments: Vec<String>)
    ensures
        texts(arguments@) == seq![
            "-sS"@,
            "-X"@,
            "POST"@,
            "-H"@,
            "Content-Type: application/json"@,
            "-d"@,
            body@,
            url@,
        ],
        texts(arguments@) == post_words(url@, body@),
{
    let mut arguments: Vec<String> = Vec::new();
    arguments.push("-sS".to_owned());
    arguments.push("-X".to_owned());
    arguments.push("POST".to_owned());
    arguments.push("-H".to_owned());
    arguments.push("Content-Type: application/json".to_owned());
    arguments.push("-d".to_owned());
    arguments.push(body.to_owned());
    arguments.push(url.to_owned());
    arguments
}

/// The text of the warning about an alert that could not be sent.
pub open spec fn warning_text(name: Seq<char>, reason: Seq<char>) -> Seq<char> {
    "warning: failed to send webhook alert for "@ + name + ": "@ + reason
}

/// The warning about an alert that could not be sent.
pub fn failure_warning(name: &str, reason: &str) -> (warning: String)
    ensures
        warning@ == "warning: failed to send webhook alert for "@ + name@ + ": "@ + reason@,
        warning@ == warning_text(name@, reason@),
{
    let mut warning = "warning: failed to send webhook alert for ".to_owned();
    warning.append(name);
    warning.append(": ");
    warning.append(reason);
    warning
}

/// The body of a request tells which message it carries.
pub proof fn law_body_determines_message(one: Seq<char>, other: Seq<char>)
    requires
        body_text(one) == body_text(other),
    ensures
        one == other,
{
    let (whole, quoted) = (body_text(one), json_string(one));
    let front = seq!['{'] + json_string("content"@) + seq![':'];
    let (n, m) = (front.len() as int, quoted.len() as int);
    let middle = seq![','] + json_string("text"@) + seq![':'];
    assert(whole.len() == n + m + middle.len() + m + 1);
    assert(body_text(other).len() == n + json_string(other).len() + middle.len() + json_string(
        other,
    ).len() + 1);
    assert(whole.subrange(n, n + m) == quoted);
    assert(body_text(other).subrange(n, n + m) == json_string(other));
    assert(quoted.subrange(1, m - 1) == json_chars(one));
    assert(json_string(other).subrange(1, m - 1) == json_chars(other));
    law_json_chars_are_injective(one, other);
}

/// A recorded change is worth an alert exactly when the update gained a signal
/// of high severity.
pub proof fn law_alert_means_high_severity_gain(
    entry: HistoryEntryView,
    known: CrateSnapshotView,
    scan: ScanView,
)
    requires
        is_change(entry, known, scan),
    ensures
        is_high(entry) <==> has_severity(
            signals_gained(known.report, scan.report),
            Severity::High,
        ),
{
    reveal_strlit("high");
    reveal_strlit("medium");
    reveal_strlit("low");
    assert("high"@.len() == 4 && "medium"@.len() == 6 && "low"@.len() == 3);
}

/// A change is worth an alert exactly when its worst severity is named `high`.
pub proof fn law_only_high_is_high(entry: HistoryEntryView)
    ensures
        is_high(entry) <==> entry.worst_severity == Some(seq!['h', 'i', 'g', 'h']),
{
    reveal_strlit("high");
    assert("high"@ =~= seq!['h', 'i', 'g', 'h']);
}

/// An alert's value shows every field of the alert.
pub proof fn law_alert_view_shows_every_field(alert: Alert)
    ensures
        alert@.name == alert.name@,
        alert@.message == alert.message@,
{
}

/// Alerts can be sent to every address that holds a character other than white
/// space, and to no other.
pub proof fn law_every_address_counts(url: &str)
    ensures
        can_send(Some(url)) <==> exists|i: int| 0 <= i < url@.len() && !is_white_space(#[trigger] url@[i]),
        !can_send(None),
{
    law_blank_means_white_space(url@);
}

/// With an address that is not blank, one alert is due for each change of high
/// severity, in order, and none for any other change.
pub proof fn law_each_high_severity_change_is_alerted(
    url: &str,
    i: int,
    entries: Seq<HistoryEntryView>,
    entry: HistoryEntryView,
)
    requires
        0 <= i < url@.len(),
        !is_white_space(url@[i]),
    ensures
        alerts_due(Some(url), Seq::empty()) == Seq::<AlertView>::empty(),
        entry.worst_severity == Some("high"@) ==> alerts_due(Some(url), entries.push(entry))
            == alerts_due(Some(url), entries).push(
            (AlertView { name: entry.name, message: alert_message(entry) }),
        ),
        entry.worst_severity != Some("high"@) ==> alerts_due(Some(url), entries.push(entry))
            == alerts_due(Some(url), entries),
        alerts_due(Some(url), entries).len() == entries.filter(
            |e: HistoryEntryView| e.worst_severity == Some("high"@),
        ).len(),
{
    reveal(Seq::filter);
    law_every_address_counts(url);
    let more = entries.push(entry);
    assert(more.drop_last() =~= entries);
    let high = |e: HistoryEntryView| is_high(e);
    assert(Seq::<HistoryEntryView>::empty().filter(high) =~= Seq::empty());
    assert(alerts_due(Some(url), Seq::empty()) =~= Seq::<AlertView>::empty());
    let about = |e: HistoryEntryView| alert_about(e);
    if is_high(entry) {
        assert(more.filter(high) =~= entries.filter(high).push(entry));
        assert(more.filter(high).map_values(about) =~= entries.filter(high).map_values(about).push(
            alert_about(entry),
        ));
    } else {
        assert(more.filter(high) =~= entries.filter(high));
    }
    let named = |e: HistoryEntryView| e.worst_severity == Some("high"@);
    assert(named =~= high);
}

/// Without an address, or with a blank one, no alert is due.
pub proof fn law_without_address_nothing_is_alerted(url: &str, entries: Seq<HistoryEntryView>)
    requires
        forall|i: int| 0 <= i < url@.len() ==> is_white_space(#[trigger] url@[i]),
    ensures
        alerts_due(None, entries).len() == 0,
        alerts_due(Some(url), entries).len() == 0,
{
    law_every_address_counts(url);
}

/// An alert names the crate and both versions first, then how many signals were
/// added and how many removed, and ends with the crate's anchor on the page.
pub proof fn law_alert_names_the_change(entry: HistoryEntryView)
    ensures
        ("capscan leaderboard: "@ + entry.name + " "@ + entry.old_version + " -> "@
            + entry.new_version + " introduced a HIGH severity capability (+"@).is_prefix_of(
            alert_message(entry),
        ),
        has_passages(
            alert_message(entry),
            " (+"@ + decimal(entry.added_signals) + " signal(s), -"@,
            decimal(entry.removed_signals) + " signal(s)). https://"@,
        ),
        ("https://poglesbyg.github.io/capscan-leaderboard/#"@ + entry.name).is_suffix_of(
            alert_message(entry),
        ),
        alert_message(entry).len() == 2 * entry.name.len() + entry.old_version.len()
            + entry.new_version.len() + decimal(entry.added_signals).len() + decimal(
            entry.removed_signals,
        ).len() + 142,
{
    reveal_strlit("capscan leaderboard: ");
    reveal_strlit(" ");
    reveal_strlit(" -> ");
    reveal_strlit(" introduced a HIGH severity capability (+");
    reveal_strlit(" introduced a HIGH severity capability");
    reveal_strlit(" (+");
    reveal_strlit(" signal(s), -");
    reveal_strlit(" signal(s)). https://poglesbyg.github.io/capscan-leaderboard/#");
    reveal_strlit(" signal(s)). https://");
    reveal_strlit("poglesbyg.github.io/capscan-leaderboard/#");
    reveal_strlit(" signal(s)). ");
    reveal_strlit("https://poglesbyg.github.io/capscan-leaderboard/#");
    let message = alert_message(entry);
    let (added, removed) = (decimal(entry.added_signals), decimal(entry.removed_signals));
    let names = "capscan leaderboard: "@ + entry.name + " "@ + entry.old_version + " -> "@
        + entry.new_version;
    let front = names + " introduced a HIGH severity capability (+"@;
    let anchor = "https://poglesbyg.github.io/capscan-leaderboard/#"@ + entry.name;
    assert(" introduced a HIGH severity capability (+"@
        =~= " introduced a HIGH severity capability"@ + " (+"@);
    assert(" signal(s)). https://poglesbyg.github.io/capscan-leaderboard/#"@
        =~= " signal(s)). "@ + "https://poglesbyg.github.io/capscan-leaderboard/#"@);
    assert(" signal(s)). https://poglesbyg.github.io/capscan-leaderboard/#"@
        =~= " signal(s)). https://"@ + "poglesbyg.github.io/capscan-leaderboard/#"@);
    let counts = added + " signal(s), -"@ + removed + " signal(s)). "@;
    assert(message =~= front + (counts + anchor));
    assert(message.subrange(0, front.len() as int) =~= front);
    assert(message.subrange(message.len() - anchor.len(), message.len() as int) =~= anchor);
    let first = " (+"@ + added + " signal(s), -"@;
    let second = removed + " signal(s)). https://"@;
    let start = names + " introduced a HIGH severity capability"@;
    let end = "poglesbyg.github.io/capscan-leaderboard/#"@ + entry.name;
    assert(message =~= start + first + Seq::<char>::empty() + second + end);
}

/// The body of a request is an object that holds the message as a JSON string
/// under `content` and again under `text`, and nothing else.
pub proof fn law_body_holds_message_twice(message: Seq<char>)
    ensures
        seq!['{'].is_prefix_of(body_text(message)),
        seq!['}'].is_suffix_of(body_text(message)),
        has_passages(
            body_text(message),
            json_string("content"@) + seq![':'] + json_string(message),
            seq![','] + json_string("text"@) + seq![':'] + json_string(message),
        ),
        body_text(message).len() == json_string("content"@).len() + json_string("text"@).len() + 2
            * json_string(message).len() + 5,
{
    let body = body_text(message);
    let first = json_string("content"@) + seq![':'] + json_string(message);
    let second = seq![','] + json_string("text"@) + seq![':'] + json_string(message);
    assert(body =~= seq!['{'] + first + Seq::<char>::empty() + second + seq!['}']);
    assert(body.subrange(0, 1) =~= seq!['{']);
    assert(body.subrange(body.len() - 1, body.len() as int) =~= seq!['}']);
}

/// The command gets the body as its data and the address as its last argument,
/// and its other arguments depend on neither.
pub proof fn law_command_posts_body_to_address(
    url: Seq<char>,
    body: Seq<char>,
    other_url: Seq<char>,
    other_body: Seq<char>,
)
    ensures
        post_words(url, body).last() == url,
        post_words(url, body)[post_words(url, body).len() - 2] == body,
        post_words(url, body)[post_words(url, body).len() - 3] == "-d"@,
        post_words(url, body).take(post_words(url, body).len() - 2) == post_words(
            other_url,
            other_body,
        ).take(post_words(other_url, other_body).len() - 2),
        post_words(url, body).len() == 8,
{
    assert(post_words(url, body).take(6) =~= post_words(other_url, other_body).take(6));
}

/// The warning names the crate, and ends with the reason.
pub proof fn law_warning_names_crate_and_reason(name: Seq<char>, reason: Seq<char>)
    ensures
        ("warning: failed to send webhook alert for "@ + name).is_prefix_of(
            warning_text(name, reason),
        ),
        (": "@ + reason).is_suffix_of(warning_text(name, reason)),
        warning_text(name, reason).len() == name.len() + reason.len() + 44,
{
    reveal_strlit("warning: failed to send webhook alert for ");
    reveal_strlit(": ");
    let warning = warning_text(name, reason);
    let (front, back) = ("warning: failed to send webhook alert for "@ + name, ": "@ + reason);
    assert(warning =~= front + back);
    assert(warning.subrange(0, front.len() as int) =~= front);
    assert(warning.subrange(warning.len() - back.len(), warning.len() as int) =~= back);
}


} // verus!
